//! Why the flood finds a lone seed: with steps `2^m` down to `1`, a single
//! occupied pixel becomes the seed of every pixel that lies less than
//! `2^(m + 1)` from it along both axes.
//!
//! After `r` rounds the seed has reached every pixel whose offsets from it
//! are multiples of the last step `q`, with factors below `2^r` in size. The
//! next round, with half the step, reaches the multiples of `q / 2`: such a
//! pixel either is a multiple of `q` already or has one as its neighbour on
//! the side of the seed.

use vstd::prelude::*;

use crate::field::{
    lemma_best_nearest,
    lemma_best_none,
    lemma_pixel_index,
    lemma_round_at,
    offset,
    seeded,
    Coord,
    Grid,
    MAX_SIDE,
};
use crate::schedule::{floor_log2, lemma_floor_log2_brackets, step_distance};

verus! {

/// The grid holds `s` at the pixel `s` and nothing anywhere else.
pub open spec fn lone_seed(g: Grid, s: Coord) -> bool {
    &&& g.wf()
    &&& s.x < g.width
    &&& s.y < g.height
    &&& forall|i: int|
        0 <= i < g.seeds.len() ==> #[trigger] g.seeds[i] == (if i == s.y * g.width + s.x {
            Some(s)
        } else {
            None::<Coord>
        })
}

/// No pixel of the grid holds a seed other than `s`.
pub open spec fn holds_only(g: Grid, s: Coord) -> bool {
    forall|i: int|
        0 <= i < g.seeds.len() ==> (#[trigger] g.seeds[i]) is None || g.seeds[i] == Some(s)
}

/// `(x, y)` is a pixel of the grid.
pub open spec fn in_grid(g: Grid, x: int, y: int) -> bool {
    0 <= x < g.width && 0 <= y < g.height
}

/// The seed of the pixel that lies `a` steps of `q` beside `s` and `b` steps
/// of `q` below it.
pub open spec fn lattice_seed(g: Grid, s: Coord, q: int, a: int, b: int) -> Option<Coord> {
    g.at(s.x + a * q, s.y + b * q)
}

/// The seed `s` has reached every pixel of the grid that lies fewer than `n`
/// steps of `q` from it along both axes.
pub open spec fn reached(g: Grid, s: Coord, q: int, n: int) -> bool {
    forall|a: int, b: int|
        -n < a < n && -n < b < n && in_grid(g, s.x + a * q, s.y + b * q) ==> #[trigger] lattice_seed(
            g,
            s,
            q,
            a,
            b,
        ) == Some(s)
}

/// Which neighbour to take the seed from, for a pixel `a` half steps from the
/// seed: the pixel itself where `a` is even, else the one nearer to the seed.
pub open spec fn toward(a: int) -> int {
    if a % 2 == 0 {
        1
    } else if a > 0 {
        0
    } else {
        2
    }
}

/// The whole steps from the seed at which that neighbour lies.
pub open spec fn halved(a: int) -> int {
    if a % 2 == 0 {
        a / 2
    } else if a > 0 {
        (a - 1) / 2
    } else {
        (a + 1) / 2
    }
}

/// The neighbour chosen by `toward` lies `halved(a)` whole steps from the
/// seed, no farther from it than the pixel, and within the same bounds.
pub proof fn lemma_toward(origin: int, a: int, q: int, n: int, side: int)
    requires
        q >= 1,
        n >= 1,
        -2 * n < a < 2 * n,
        0 <= origin < side,
        0 <= origin + a * q < side,
    ensures
        origin + a * q + offset(toward(a), q) == origin + halved(a) * (2 * q),
        0 <= origin + halved(a) * (2 * q) < side,
        -n < halved(a) < n,
{
    let h = halved(a);
    if a % 2 == 0 {
        assert(a == 2 * h);
        assert(a * q == h * (2 * q)) by (nonlinear_arith)
            requires
                a == 2 * h,
        ;
    } else if a > 0 {
        assert(a == 2 * h + 1);
        assert(a * q - q == h * (2 * q)) by (nonlinear_arith)
            requires
                a == 2 * h + 1,
        ;
        assert(h * (2 * q) >= 0) by (nonlinear_arith)
            requires
                h >= 0,
                q >= 1,
        ;
    } else {
        assert(a == 2 * h - 1);
        assert(a * q + q == h * (2 * q)) by (nonlinear_arith)
            requires
                a == 2 * h - 1,
        ;
        assert(h * (2 * q) <= 0) by (nonlinear_arith)
            requires
                h <= 0,
                q >= 1,
        ;
    }
}

/// What a neighbour offers is a seed that the grid holds.
pub proof fn lemma_candidate_held(g: Grid, x: int, y: int, step: int, k: int)
    requires
        g.wf(),
        g.candidate(x, y, step, k) is Some,
    ensures
        exists|i: int| 0 <= i < g.seeds.len() && #[trigger] g.seeds[i] == g.candidate(x, y, step, k),
{
    let nx = x + offset(k % 3, step);
    let ny = y + offset(k / 3, step);
    lemma_pixel_index(g.width, g.height, nx, ny);
    assert(g.seeds[ny * g.width + nx] == g.candidate(x, y, step, k));
}

/// After a round a pixel holds nothing or a seed that the grid held before.
pub proof fn lemma_jumped_held(g: Grid, x: int, y: int, step: int)
    requires
        g.wf(),
        g.jumped(x, y, step) is Some,
    ensures
        exists|i: int| 0 <= i < g.seeds.len() && #[trigger] g.seeds[i] == g.jumped(x, y, step),
{
    lemma_best_none(g, x, y, step, 9);
    let j = choose|j: int| 0 <= j < 9 && !(#[trigger] g.candidate(x, y, step, j) is None);
    lemma_best_nearest(g, x, y, step, 9, j);
    let i = choose|i: int|
        0 <= i < 9 && #[trigger] g.candidate(x, y, step, i) == g.best_of(x, y, step, 9);
    lemma_candidate_held(g, x, y, step, i);
}

/// A round keeps a grid well formed and brings no seed into it that it did
/// not hold.
pub proof fn lemma_round_keeps(g: Grid, s: Coord, step: int)
    requires
        g.wf(),
    ensures
        g.round(step).wf(),
        g.round(step).width == g.width,
        g.round(step).height == g.height,
        holds_only(g, s) ==> holds_only(g.round(step), s),
{
    let next = g.round(step);
    assert forall|i: int| 0 <= i < next.seeds.len() implies (#[trigger] next.seeds[i] matches Some(
        c,
    ) ==> c.x < next.width && c.y < next.height) && (holds_only(g, s) ==> next.seeds[i] is None
        || next.seeds[i] == Some(s)) by {
        if next.seeds[i] is Some {
            lemma_jumped_held(g, i % g.width, i / g.width, step);
        }
    }
}

/// One round with half the step doubles the reach of a lone seed.
pub proof fn lemma_round_doubles_reach(g: Grid, s: Coord, q: int, n: int)
    requires
        g.wf(),
        holds_only(g, s),
        s.x < g.width,
        s.y < g.height,
        q >= 1,
        n >= 1,
        reached(g, s, 2 * q, n),
    ensures
        reached(g.round(q), s, q, 2 * n),
{
    let next = g.round(q);
    lemma_round_keeps(g, s, q);
    assert forall|a: int, b: int|
        -(2 * n) < a < 2 * n && -(2 * n) < b < 2 * n && in_grid(
            next,
            s.x + a * q,
            s.y + b * q,
        ) implies #[trigger] lattice_seed(next, s, q, a, b) == Some(s) by {
        let x = s.x + a * q;
        let y = s.y + b * q;
        lemma_toward(s.x as int, a, q, n, g.width);
        lemma_toward(s.y as int, b, q, n, g.height);
        let nx = s.x + halved(a) * (2 * q);
        let ny = s.y + halved(b) * (2 * q);
        assert(in_grid(g, nx, ny));
        assert(lattice_seed(g, s, 2 * q, halved(a), halved(b)) == Some(s));
        let k = toward(b) * 3 + toward(a);
        assert(k % 3 == toward(a) && k / 3 == toward(b));
        assert(g.candidate(x, y, q, k) == Some(s));
        lemma_best_nearest(g, x, y, q, 9, k);
        lemma_jumped_held(g, x, y, q);
        lemma_round_at(g, q, x, y);
    }
}

/// After `r` rounds of a flood whose widest exponent is `m`, a lone seed has
/// reached every pixel that lies fewer than `2^r` steps of `2^(m + 1 - r)`
/// from it along both axes, and the grid holds no other seed.
pub proof fn lemma_flood_reach(g: Grid, s: Coord, m: int, r: int)
    requires
        lone_seed(g, s),
        0 <= r <= m + 1,
    ensures
        g.flooded(m, r).wf(),
        g.flooded(m, r).width == g.width,
        g.flooded(m, r).height == g.height,
        holds_only(g.flooded(m, r), s),
        reached(g.flooded(m, r), s, step_distance((m + 1 - r) as nat) as int, step_distance(
            r as nat,
        ) as int),
    decreases r,
{
    if r == 0 {
        assert forall|a: int, b: int|
            -1 < a < 1 && -1 < b < 1 && in_grid(
                g,
                s.x + a * step_distance((m + 1) as nat),
                s.y + b * step_distance((m + 1) as nat),
            ) implies #[trigger] lattice_seed(g, s, step_distance((m + 1) as nat) as int, a, b)
            == Some(s) by {
            lemma_pixel_index(g.width, g.height, s.x as int, s.y as int);
            assert(a * step_distance((m + 1) as nat) == 0) by (nonlinear_arith)
                requires
                    a == 0,
            ;
            assert(b * step_distance((m + 1) as nat) == 0) by (nonlinear_arith)
                requires
                    b == 0,
            ;
        }
    } else {
        lemma_flood_reach(g, s, m, r - 1);
        let before = g.flooded(m, r - 1);
        let q = step_distance((m + 1 - r) as nat) as int;
        assert(step_distance((m + 1 - (r - 1)) as nat) == 2 * q);
        assert(step_distance(r as nat) == 2 * step_distance((r - 1) as nat));
        crate::schedule::lemma_step_distance_positive((m + 1 - r) as nat);
        crate::schedule::lemma_step_distance_positive((r - 1) as nat);
        assert(g.flooded(m, r) == before.round(q));
        lemma_round_keeps(before, s, q);
        lemma_round_doubles_reach(before, s, q, step_distance((r - 1) as nat) as int);
    }
}

/// A lone seed becomes the seed of every pixel: on a grid whose sides are at
/// most `2^(m + 1)`, the flood with steps `2^m` down to `1` leaves `s` at
/// every pixel.
pub proof fn lemma_lone_seed_floods(g: Grid, s: Coord, m: int)
    requires
        lone_seed(g, s),
        0 <= m,
        g.width <= step_distance((m + 1) as nat),
        g.height <= step_distance((m + 1) as nat),
    ensures
        forall|x: int, y: int|
            0 <= x < g.width && 0 <= y < g.height ==> #[trigger] g.flooded(m, m + 1).at(x, y)
                == Some(s),
{
    lemma_flood_reach(g, s, m, m + 1);
    let last = g.flooded(m, m + 1);
    assert(step_distance(0) == 1);
    assert forall|x: int, y: int| 0 <= x < g.width && 0 <= y < g.height implies #[trigger] last.at(
        x,
        y,
    ) == Some(s) by {
        let a = x - s.x;
        let b = y - s.y;
        assert(a * 1 == a && b * 1 == b);
        assert(in_grid(last, s.x + a * 1, s.y + b * 1));
        assert(lattice_seed(last, s, 1, a, b) == Some(s));
    }
}

/// The widest exponent of a view whose ripples reach at least as far as its
/// longer side is enough for a lone seed to reach every pixel.
pub proof fn lemma_view_exponent_suffices(g: Grid, s: Coord)
    requires
        lone_seed(g, s),
    ensures
        forall|x: int, y: int|
            0 <= x < g.width && 0 <= y < g.height ==> #[trigger] g.flooded(
                floor_log2(longer_side(g)) as int,
                floor_log2(longer_side(g)) as int + 1,
            ).at(x, y) == Some(s),
{
    let side = longer_side(g);
    lemma_floor_log2_brackets(side);
    lemma_lone_seed_floods(g, s, floor_log2(side) as int);
}

/// The longer side of a grid.
pub open spec fn longer_side(g: Grid) -> nat {
    if g.width >= g.height {
        g.width as nat
    } else {
        g.height as nat
    }
}

/// Seeding a mask with one occupied pixel gives a lone seed.
pub proof fn lemma_seeded_lone(width: int, height: int, mask: Seq<bool>, s: Coord)
    requires
        0 <= s.x < width <= MAX_SIDE,
        0 <= s.y < height <= MAX_SIDE,
        mask.len() == width * height,
        forall|i: int| 0 <= i < mask.len() ==> #[trigger] mask[i] == (i == s.y * width + s.x),
    ensures
        lone_seed(seeded(width, height, mask), s),
{
    lemma_pixel_index(width, height, s.x as int, s.y as int);
}

} // verus!
