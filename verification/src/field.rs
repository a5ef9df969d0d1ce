//! What the seeding pass and one jump-flood round compute, pixel by pixel,
//! on whole-pixel coordinates.
//!
//! A field holds for every pixel the nearest occupied pixel found so far, or
//! nothing. Seeding gives every occupied pixel itself. A round with step `s`
//! looks, for every pixel, at the nine pixels at offsets `-s`, `0` and `s`
//! along both axes, as far as they lie in the field, and keeps the seed among
//! theirs that is nearest to the pixel. A pixel without a seed contributes
//! nothing; of two seeds equally near, the one met first stays.

use vstd::arithmetic::div_mod::lemma_fundamental_div_mod_converse;
use vstd::prelude::*;

use crate::schedule::{
    plan_rounds,
    schedule_spec,
    step_distance,
    step_of,
    JfaBuffer,
    JfaRound,
};

verus! {

/// The largest width and height of a field. Coordinates below it fit the
/// 16-bit channels of the jump-flood textures.
pub const MAX_SIDE: u32 = 0x8000;

/// A pixel.
#[derive(Clone, Copy, Debug, PartialEq, Eq, Structural)]
pub struct Coord {
    pub x: u32,
    pub y: u32,
}

/// Why a field could not be seeded.
#[derive(Clone, Copy, Debug, PartialEq, Eq, Structural)]
pub enum FieldError {
    /// A side is longer than [`MAX_SIDE`].
    TooLarge,
    /// The mask does not hold one entry per pixel.
    SizeMismatch,
}

/// Nearest seeds, row by row.
#[derive(Debug, PartialEq, Eq)]
pub struct SeedField {
    pub width: u32,
    pub height: u32,
    /// The seed of pixel `(x, y)` is at index `y * width + x`.
    pub seeds: Vec<Option<Coord>>,
}

/// A field as a mathematical value.
pub struct Grid {
    pub width: int,
    pub height: int,
    /// The seed of pixel `(x, y)` is at index `y * width + x`.
    pub seeds: Seq<Option<Coord>>,
}

/// The squared distance between two pixels.
pub open spec fn dsq(a: Coord, b: Coord) -> int {
    (a.x - b.x) * (a.x - b.x) + (a.y - b.y) * (a.y - b.y)
}

/// The better of the best seed so far and a candidate, for the pixel `p`: a
/// missing candidate changes nothing, a first candidate is taken, and a later
/// one only if it is strictly nearer.
pub open spec fn closer_spec(best: Option<Coord>, candidate: Option<Coord>, p: Coord) -> Option<
    Coord,
> {
    match (best, candidate) {
        (_, None) => best,
        (None, Some(c)) => Some(c),
        (Some(b), Some(c)) => if dsq(p, c) < dsq(p, b) {
            Some(c)
        } else {
            Some(b)
        },
    }
}

/// The offset along one axis that belongs to the position `t` of a
/// neighbour in its row or column: back by `step`, none, or ahead by `step`.
pub open spec fn offset(t: int, step: int) -> int {
    if t == 0 {
        -step
    } else if t == 1 {
        0
    } else {
        step
    }
}

impl Grid {
    /// The grid holds one entry per pixel, and every seed is a pixel of it.
    pub open spec fn wf(&self) -> bool {
        &&& 0 <= self.width <= MAX_SIDE
        &&& 0 <= self.height <= MAX_SIDE
        &&& self.seeds.len() == self.width * self.height
        &&& forall|i: int|
            0 <= i < self.seeds.len() ==> (#[trigger] self.seeds[i] matches Some(c) ==> c.x
                < self.width && c.y < self.height)
    }

    /// The seed of pixel `(x, y)`.
    pub open spec fn at(&self, x: int, y: int) -> Option<Coord> {
        self.seeds[y * self.width + x]
    }

    /// The seed that the `k`-th of the nine neighbours of `(x, y)` at
    /// distance `step` offers, row by row from the upper left; none where
    /// that neighbour lies outside the grid.
    pub open spec fn candidate(&self, x: int, y: int, step: int, k: int) -> Option<Coord> {
        let nx = x + offset(k % 3, step);
        let ny = y + offset(k / 3, step);
        if 0 <= nx < self.width && 0 <= ny < self.height {
            self.at(nx, ny)
        } else {
            None
        }
    }

    /// The best seed for `(x, y)` among those of its first `k` neighbours.
    pub open spec fn best_of(&self, x: int, y: int, step: int, k: int) -> Option<Coord>
        decreases k,
    {
        if k <= 0 {
            None
        } else {
            closer_spec(
                self.best_of(x, y, step, k - 1),
                self.candidate(x, y, step, k - 1),
                Coord { x: x as u32, y: y as u32 },
            )
        }
    }

    /// The seed of `(x, y)` after one round with `step`.
    pub open spec fn jumped(&self, x: int, y: int, step: int) -> Option<Coord> {
        self.best_of(x, y, step, 9)
    }

    /// The grid after one round with `step`.
    pub open spec fn round(&self, step: int) -> Grid {
        Grid {
            width: self.width,
            height: self.height,
            seeds: Seq::new(
                self.seeds.len(),
                |i: int| self.jumped(i % self.width, i / self.width, step),
            ),
        }
    }

    /// The grid after the first `rounds` rounds of a flood whose widest
    /// exponent is `max_exp`: round `i` has the step `2^(max_exp - i)`.
    pub open spec fn flooded(&self, max_exp: int, rounds: int) -> Grid
        decreases rounds,
    {
        if rounds <= 0 {
            *self
        } else {
            self.flooded(max_exp, rounds - 1).round(
                step_distance((max_exp - (rounds - 1)) as nat) as int,
            )
        }
    }
}

/// The grid that seeding makes of a mask: an occupied pixel is its own seed,
/// any other pixel has none.
pub open spec fn seeded(width: int, height: int, mask: Seq<bool>) -> Grid {
    Grid {
        width,
        height,
        seeds: Seq::new(
            mask.len(),
            |i: int|
                if mask[i] {
                    Some(Coord { x: (i % width) as u32, y: (i / width) as u32 })
                } else {
                    None
                },
        ),
    }
}

impl SeedField {
    /// The field as a mathematical value.
    pub open spec fn view(&self) -> Grid {
        Grid { width: self.width as int, height: self.height as int, seeds: self.seeds@ }
    }

    /// The field holds one entry per pixel, and every seed is a pixel of it.
    pub open spec fn wf(&self) -> bool {
        self@.wf()
    }

    /// Seeds a field from a mask: an occupied pixel is its own seed, any
    /// other pixel has none. `mask` holds one entry per pixel, row by row.
    pub fn from_mask(width: u32, height: u32, mask: &Vec<bool>) -> (r: Result<
        SeedField,
        FieldError,
    >)
        ensures
            r == Err::<SeedField, FieldError>(FieldError::TooLarge) <==> (width > MAX_SIDE
                || height > MAX_SIDE),
            r == Err::<SeedField, FieldError>(FieldError::SizeMismatch) <==> (width <= MAX_SIDE
                && height <= MAX_SIDE && mask@.len() != width * height),
            r matches Ok(f) ==> f.wf() && f@ == seeded(width as int, height as int, mask@),
    {
        if width > MAX_SIDE || height > MAX_SIDE {
            return Err(FieldError::TooLarge);
        }
        assert(width * height <= 0x8000 * 0x8000) by (nonlinear_arith)
            requires
                width <= 0x8000,
                height <= 0x8000,
        ;
        if mask.len() != (width as usize) * (height as usize) {
            return Err(FieldError::SizeMismatch);
        }
        let ghost goal = seeded(width as int, height as int, mask@);
        let mut seeds: Vec<Option<Coord>> = Vec::new();
        let mut y: u32 = 0;
        while y < height
            invariant
                y <= height <= MAX_SIDE,
                width <= MAX_SIDE,
                mask@.len() == width * height,
                goal == seeded(width as int, height as int, mask@),
                seeds@.len() == y * width,
                forall|i: int|
                    0 <= i < seeds@.len() ==> (#[trigger] seeds@[i] matches Some(c) ==> c.x < width
                        && c.y < height),
                forall|i: int| 0 <= i < seeds@.len() ==> #[trigger] seeds@[i] == goal.seeds[i],
            decreases height - y,
        {
            let mut x: u32 = 0;
            while x < width
                invariant
                    y < height <= MAX_SIDE,
                    x <= width <= MAX_SIDE,
                    mask@.len() == width * height,
                    goal == seeded(width as int, height as int, mask@),
                    seeds@.len() == y * width + x,
                    forall|i: int|
                        0 <= i < seeds@.len() ==> (#[trigger] seeds@[i] matches Some(c) ==> c.x
                            < width && c.y < height),
                    forall|i: int| 0 <= i < seeds@.len() ==> #[trigger] seeds@[i] == goal.seeds[i],
                decreases width - x,
            {
                proof {
                    lemma_pixel_index(width as int, height as int, x as int, y as int);
                }
                let i = (y as usize) * (width as usize) + (x as usize);
                let seed = if mask[i] {
                    Some(Coord { x, y })
                } else {
                    None
                };
                seeds.push(seed);
                x = x + 1;
            }
            proof {
                assert((y + 1) * width == y * width + width) by (nonlinear_arith);
            }
            y = y + 1;
        }
        proof {
            assert(height * width == width * height) by (nonlinear_arith);
            assert(seeds@ =~= goal.seeds);
        }
        Ok(SeedField { width, height, seeds })
    }

    /// The seed of pixel `(x, y)`.
    pub fn get(&self, x: u32, y: u32) -> (seed: Option<Coord>)
        requires
            self.wf(),
            x < self.width,
            y < self.height,
        ensures
            seed == self@.at(x as int, y as int),
            seed matches Some(c) ==> c.x < self.width && c.y < self.height,
    {
        proof {
            lemma_pixel_index(self.width as int, self.height as int, x as int, y as int);
        }
        self.seeds[(y as usize) * (self.width as usize) + (x as usize)]
    }

    /// The seed that the `k`-th neighbour of `(x, y)` at distance `step`
    /// offers.
    pub fn offered(&self, x: u32, y: u32, step: u32, k: u8) -> (seed: Option<Coord>)
        requires
            self.wf(),
            x < self.width,
            y < self.height,
            k < 9,
        ensures
            seed == self@.candidate(x as int, y as int, step as int, k as int),
            seed matches Some(c) ==> c.x < self.width && c.y < self.height,
    {
        let nx: i64 = shifted(x, k % 3, step);
        let ny: i64 = shifted(y, k / 3, step);
        if 0 <= nx && nx < self.width as i64 && 0 <= ny && ny < self.height as i64 {
            self.get(nx as u32, ny as u32)
        } else {
            None
        }
    }

    /// The seed of `(x, y)` after one round with `step`.
    pub fn jump_pixel(&self, x: u32, y: u32, step: u32) -> (seed: Option<Coord>)
        requires
            self.wf(),
            x < self.width,
            y < self.height,
        ensures
            seed == self@.jumped(x as int, y as int, step as int),
            seed matches Some(c) ==> c.x < self.width && c.y < self.height,
    {
        let p = Coord { x, y };
        let mut best: Option<Coord> = None;
        let mut k: u8 = 0;
        while k < 9
            invariant
                self.wf(),
                x < self.width,
                y < self.height,
                p == (Coord { x, y }),
                k <= 9,
                best == self@.best_of(x as int, y as int, step as int, k as int),
                best matches Some(c) ==> c.x < self.width && c.y < self.height,
            decreases 9 - k,
        {
            let candidate = self.offered(x, y, step, k);
            best = closer(best, candidate, p);
            k = k + 1;
        }
        best
    }

    /// One round with `step`: every pixel takes the nearest seed among those
    /// that its nine neighbours at that distance offer.
    pub fn jump_round(&self, step: u32) -> (next: SeedField)
        requires
            self.wf(),
        ensures
            next.wf(),
            next@ == self@.round(step as int),
    {
        let width = self.width;
        let height = self.height;
        let ghost goal = self@.round(step as int);
        let mut seeds: Vec<Option<Coord>> = Vec::new();
        let mut y: u32 = 0;
        while y < height
            invariant
                self.wf(),
                width == self.width,
                height == self.height,
                goal == self@.round(step as int),
                y <= height,
                seeds@.len() == y * width,
                forall|i: int|
                    0 <= i < seeds@.len() ==> (#[trigger] seeds@[i] matches Some(c) ==> c.x < width
                        && c.y < height),
                forall|i: int| 0 <= i < seeds@.len() ==> #[trigger] seeds@[i] == goal.seeds[i],
            decreases height - y,
        {
            let mut x: u32 = 0;
            while x < width
                invariant
                    self.wf(),
                    width == self.width,
                    height == self.height,
                    goal == self@.round(step as int),
                    y < height,
                    x <= width,
                    seeds@.len() == y * width + x,
                    forall|i: int|
                        0 <= i < seeds@.len() ==> (#[trigger] seeds@[i] matches Some(c) ==> c.x
                            < width && c.y < height),
                    forall|i: int| 0 <= i < seeds@.len() ==> #[trigger] seeds@[i] == goal.seeds[i],
                decreases width - x,
            {
                proof {
                    lemma_pixel_index(width as int, height as int, x as int, y as int);
                }
                let seed = self.jump_pixel(x, y, step);
                seeds.push(seed);
                x = x + 1;
            }
            proof {
                assert((y + 1) * width == y * width + width) by (nonlinear_arith);
            }
            y = y + 1;
        }
        proof {
            assert(height * width == width * height) by (nonlinear_arith);
            assert(seeds@ =~= goal.seeds);
        }
        SeedField { width, height, seeds }
    }

    /// Floods the field: rounds with steps `2^max_exp` down to `1`, widest
    /// first.
    pub fn flood(self, max_exp: u32) -> (flooded: SeedField)
        requires
            self.wf(),
            max_exp < 32,
        ensures
            flooded.wf(),
            flooded@ == self@.flooded(max_exp as int, max_exp as int + 1),
    {
        let ghost start = self@;
        let mut field = self;
        let mut step: u32 = step_of(max_exp);
        let mut done: u32 = 0;
        while done <= max_exp
            invariant
                max_exp < 32,
                done <= max_exp + 1,
                field.wf(),
                done <= max_exp ==> step == step_distance((max_exp - done) as nat),
                field@ == start.flooded(max_exp as int, done as int),
            decreases max_exp + 1 - done,
        {
            proof {
                if done < max_exp {
                    assert(step_distance((max_exp - done) as nat) == 2 * step_distance(
                        (max_exp - done - 1) as nat,
                    ));
                }
            }
            field = field.jump_round(step);
            step = step / 2;
            done = done + 1;
        }
        field
    }
}

/// The three jump-flood buffers. A buffer that was never written holds
/// nothing that may be read.
pub struct JfaBuffers {
    pub primary: Option<SeedField>,
    pub secondary: Option<SeedField>,
    pub last: Option<SeedField>,
}

impl JfaBuffers {
    /// The contents of the buffer `which`.
    pub open spec fn slot(&self, which: JfaBuffer) -> Option<SeedField> {
        match which {
            JfaBuffer::Primary => self.primary,
            JfaBuffer::Secondary => self.secondary,
            JfaBuffer::Final => self.last,
        }
    }

    /// The buffers after seeding: the primary buffer holds the seeded field,
    /// the other two were not written yet.
    pub fn seeded(field: SeedField) -> (buffers: JfaBuffers)
        ensures
            buffers.primary == Some(field),
            buffers.secondary is None,
            buffers.last is None,
    {
        JfaBuffers { primary: Some(field), secondary: None, last: None }
    }

    /// Runs one round of a schedule: reads the round's source buffer and
    /// writes its target buffer. The other buffers stay as they are.
    pub fn run_round(&mut self, round: &JfaRound)
        requires
            round.exponent < 32,
            round.source != round.target,
            old(self).slot(round.source) is Some,
            old(self).slot(round.source)->Some_0.wf(),
        ensures
            final(self).slot(round.target) is Some,
            final(self).slot(round.target)->Some_0.wf(),
            final(self).slot(round.target)->Some_0@ == old(self).slot(round.source)->Some_0@.round(
                step_distance(round.exponent as nat) as int,
            ),
            forall|which: JfaBuffer|
                which != round.target ==> final(self).slot(which) == old(self).slot(which),
    {
        let step = step_of(round.exponent);
        let next = match round.source {
            JfaBuffer::Primary => match &self.primary {
                Some(source) => source.jump_round(step),
                None => vstd::pervasive::unreached(),
            },
            JfaBuffer::Secondary => match &self.secondary {
                Some(source) => source.jump_round(step),
                None => vstd::pervasive::unreached(),
            },
            JfaBuffer::Final => match &self.last {
                Some(source) => source.jump_round(step),
                None => vstd::pervasive::unreached(),
            },
        };
        match round.target {
            JfaBuffer::Primary => {
                self.primary = Some(next);
            },
            JfaBuffer::Secondary => {
                self.secondary = Some(next);
            },
            JfaBuffer::Final => {
                self.last = Some(next);
            },
        }
    }
}

/// Runs the whole schedule of `max_exp` on the three buffers, starting from
/// a seeded primary buffer, and hands out what the final buffer holds: the
/// seeded field after rounds with steps `2^max_exp` down to `1`.
pub fn run_schedule(seeded: SeedField, max_exp: u32) -> (out: SeedField)
    requires
        seeded.wf(),
        max_exp < 32,
    ensures
        out.wf(),
        out@ == seeded@.flooded(max_exp as int, max_exp as int + 1),
{
    let ghost start = seeded@;
    let rounds = plan_rounds(max_exp);
    let mut buffers = JfaBuffers::seeded(seeded);
    let ghost mut current = JfaBuffer::Primary;
    let mut i: usize = 0;
    while i < rounds.len()
        invariant
            max_exp < 32,
            rounds@ == schedule_spec(max_exp),
            i <= rounds@.len() == max_exp + 1,
            current == (if i == 0 {
                JfaBuffer::Primary
            } else {
                crate::schedule::target_of(max_exp as nat, (i - 1) as nat)
            }),
            buffers.slot(current) is Some,
            buffers.slot(current)->Some_0.wf(),
            buffers.slot(current)->Some_0@ == start.flooded(max_exp as int, i as int),
        decreases rounds@.len() - i,
    {
        let round = rounds[i];
        assert(round == crate::schedule::round_spec(max_exp, i as u32));
        assert(round.source == current);
        buffers.run_round(&round);
        proof {
            current = round.target;
        }
        i = i + 1;
    }
    match buffers.last {
        Some(out) => out,
        None => vstd::pervasive::unreached(),
    }
}

/// The coordinate `at` moved by the offset that belongs to position `t`.
pub fn shifted(at: u32, t: u8, step: u32) -> (moved: i64)
    ensures
        moved == at + offset(t as int, step as int),
{
    if t == 0 {
        at as i64 - step as i64
    } else if t == 1 {
        at as i64
    } else {
        at as i64 + step as i64
    }
}

/// The squared distance between two pixels of a field.
pub fn dist_sq(a: Coord, b: Coord) -> (d: u64)
    requires
        a.x <= MAX_SIDE,
        a.y <= MAX_SIDE,
        b.x <= MAX_SIDE,
        b.y <= MAX_SIDE,
    ensures
        d == dsq(a, b),
{
    let dx: u64 = if a.x >= b.x {
        (a.x - b.x) as u64
    } else {
        (b.x - a.x) as u64
    };
    let dy: u64 = if a.y >= b.y {
        (a.y - b.y) as u64
    } else {
        (b.y - a.y) as u64
    };
    assert(dx * dx <= 0x8000 * 0x8000 && dy * dy <= 0x8000 * 0x8000) by (nonlinear_arith)
        requires
            dx <= 0x8000,
            dy <= 0x8000,
    ;
    assert(dx * dx == (a.x - b.x) * (a.x - b.x)) by (nonlinear_arith)
        requires
            dx == a.x - b.x || dx == b.x - a.x,
    ;
    assert(dy * dy == (a.y - b.y) * (a.y - b.y)) by (nonlinear_arith)
        requires
            dy == a.y - b.y || dy == b.y - a.y,
    ;
    dx * dx + dy * dy
}

/// The better of the best seed so far and a candidate, for the pixel `p`.
pub fn closer(best: Option<Coord>, candidate: Option<Coord>, p: Coord) -> (r: Option<Coord>)
    requires
        p.x <= MAX_SIDE,
        p.y <= MAX_SIDE,
        best matches Some(b) ==> b.x <= MAX_SIDE && b.y <= MAX_SIDE,
        candidate matches Some(c) ==> c.x <= MAX_SIDE && c.y <= MAX_SIDE,
    ensures
        r == closer_spec(best, candidate, p),
{
    match candidate {
        None => best,
        Some(c) => match best {
            None => Some(c),
            Some(b) => if dist_sq(p, c) < dist_sq(p, b) {
                Some(c)
            } else {
                Some(b)
            },
        },
    }
}

/// The pixel `(x, y)` of a grid has the index `y * width + x`, which lies
/// within the grid and gives the pixel back by division.
pub proof fn lemma_pixel_index(width: int, height: int, x: int, y: int)
    requires
        0 <= x < width <= MAX_SIDE,
        0 <= y < height <= MAX_SIDE,
    ensures
        0 <= y * width + x < width * height,
        y * width + x < 0x8000 * 0x8000,
        y * width <= 0x8000 * 0x8000,
        (y * width + x) % width == x,
        (y * width + x) / width == y,
{
    assert(y * width + width <= height * width) by (nonlinear_arith)
        requires
            0 <= y < height,
            0 <= width,
    ;
    assert(0 <= y * width) by (nonlinear_arith)
        requires
            0 <= y,
            0 <= width,
    ;
    assert(height * width == width * height) by (nonlinear_arith);
    assert(width * height <= 0x8000 * 0x8000) by (nonlinear_arith)
        requires
            0 <= width <= 0x8000,
            0 <= height <= 0x8000,
    ;
    lemma_fundamental_div_mod_converse(y * width + x, width, y, x);
}

/// Seeding gives an occupied pixel itself and any other pixel nothing.
pub proof fn lemma_seeded_at(width: int, height: int, mask: Seq<bool>, x: int, y: int)
    requires
        0 <= x < width <= MAX_SIDE,
        0 <= y < height <= MAX_SIDE,
        mask.len() == width * height,
    ensures
        seeded(width, height, mask).at(x, y) == (if mask[y * width + x] {
            Some(Coord { x: x as u32, y: y as u32 })
        } else {
            None
        }),
{
    lemma_pixel_index(width, height, x, y);
}

/// After a round the pixel `(x, y)` holds the best seed among those that its
/// nine neighbours offered.
pub proof fn lemma_round_at(grid: Grid, step: int, x: int, y: int)
    requires
        grid.wf(),
        0 <= x < grid.width,
        0 <= y < grid.height,
    ensures
        grid.round(step).at(x, y) == grid.jumped(x, y, step),
{
    lemma_pixel_index(grid.width, grid.height, x, y);
}

/// The best seed among the first `k` offers is missing exactly when all of
/// them are missing.
pub proof fn lemma_best_none(grid: Grid, x: int, y: int, step: int, k: int)
    requires
        0 <= k <= 9,
    ensures
        grid.best_of(x, y, step, k) is None <==> forall|j: int|
            0 <= j < k ==> #[trigger] grid.candidate(x, y, step, j) is None,
    decreases k,
{
    if k > 0 {
        lemma_best_none(grid, x, y, step, k - 1);
        if grid.best_of(x, y, step, k) is Some {
            if grid.candidate(x, y, step, k - 1) is None {
                assert(grid.best_of(x, y, step, k - 1) is Some);
            }
        }
    }
}

/// The best seed among the first `k` offers is one of them, and none of them
/// is nearer to the pixel.
pub proof fn lemma_best_nearest(grid: Grid, x: int, y: int, step: int, k: int, j: int)
    requires
        0 <= j < k <= 9,
        grid.candidate(x, y, step, j) is Some,
    ensures
        grid.best_of(x, y, step, k) is Some,
        dsq(Coord { x: x as u32, y: y as u32 }, grid.best_of(x, y, step, k)->Some_0) <= dsq(
            Coord { x: x as u32, y: y as u32 },
            grid.candidate(x, y, step, j)->Some_0,
        ),
        exists|i: int|
            0 <= i < k && #[trigger] grid.candidate(x, y, step, i) == grid.best_of(x, y, step, k),
    decreases k,
{
    let prev = grid.best_of(x, y, step, k - 1);
    let cand = grid.candidate(x, y, step, k - 1);
    let now = grid.best_of(x, y, step, k);
    assert(now == closer_spec(prev, cand, Coord { x: x as u32, y: y as u32 }));
    if j < k - 1 {
        lemma_best_nearest(grid, x, y, step, k - 1, j);
        if now == prev {
            let i = choose|i: int|
                0 <= i < k - 1 && #[trigger] grid.candidate(x, y, step, i) == prev;
            assert(grid.candidate(x, y, step, i) == now);
        } else {
            assert(grid.candidate(x, y, step, k - 1) == now);
        }
    } else {
        if now == cand {
            assert(grid.candidate(x, y, step, k - 1) == now);
        } else {
            assert(prev is Some);
            assert(now == prev);
            lemma_best_none(grid, x, y, step, k - 1);
            let w = choose|w: int|
                0 <= w < k - 1 && !(#[trigger] grid.candidate(x, y, step, w) is None);
            lemma_best_nearest(grid, x, y, step, k - 1, w);
            let i = choose|i: int|
                0 <= i < k - 1 && #[trigger] grid.candidate(x, y, step, i) == prev;
            assert(grid.candidate(x, y, step, i) == now);
        }
    }
}

} // verus!
