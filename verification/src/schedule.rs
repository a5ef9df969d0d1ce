//! The jump-flood round schedule: how many rounds a view needs, which step
//! each round takes, and which buffer each round reads and writes.
//!
//! A view of `width` by `height` pixels whose ripples reach `coast` pixels
//! from a shore has to resolve distances up to
//! `min(max(width, height), coast)`. With `m` the floor of the base-two
//! logarithm of that distance, the schedule has `m + 1` rounds, and round
//! `i` jumps by `2^(m - i)` pixels: the widest jump comes first.

use vstd::prelude::*;

verus! {

/// Two to the power `e`: the jump distance that belongs to exponent `e`.
pub open spec fn step_distance(e: nat) -> nat
    decreases e,
{
    if e == 0 {
        1
    } else {
        2 * step_distance((e - 1) as nat)
    }
}

/// Floor of the base-two logarithm; zero for arguments below two.
pub open spec fn floor_log2(n: nat) -> nat
    decreases n,
{
    if n < 2 {
        0
    } else {
        1 + floor_log2(n / 2)
    }
}

/// The larger of the two sides, capped by the reach of the ripples.
pub open spec fn max_distance_spec(width: u32, height: u32, coast: u32) -> nat {
    let side = if width >= height { width } else { height };
    if side <= coast { side as nat } else { coast as nat }
}

/// The exponent of the widest jump of a view.
pub open spec fn max_exponent_spec(width: u32, height: u32, coast: u32) -> nat {
    floor_log2(max_distance_spec(width, height, coast))
}

/// Step distances are positive.
pub proof fn lemma_step_distance_positive(e: nat)
    ensures
        step_distance(e) >= 1,
    decreases e,
{
    if e > 0 {
        lemma_step_distance_positive((e - 1) as nat);
    }
}

/// Step distances grow with the exponent.
pub proof fn lemma_step_distance_monotonic(a: nat, b: nat)
    requires
        a <= b,
    ensures
        step_distance(a) <= step_distance(b),
    decreases b,
{
    if a < b {
        lemma_step_distance_monotonic(a, (b - 1) as nat);
    }
}

/// `floor_log2` is the floor of the logarithm: for a positive `n` it is the one
/// exponent whose step distance is at most `n` while the next one exceeds `n`.
pub proof fn lemma_floor_log2_brackets(n: nat)
    requires
        n >= 1,
    ensures
        step_distance(floor_log2(n)) <= n,
        n < step_distance(floor_log2(n) + 1),
    decreases n,
{
    if n >= 2 {
        lemma_floor_log2_brackets(n / 2);
        let e = floor_log2(n / 2);
        assert(step_distance(e + 1) == 2 * step_distance(e));
        assert(step_distance(e + 2) == 2 * step_distance(e + 1));
        assert(floor_log2(n) == e + 1);
    } else {
        assert(step_distance(1) == 2 * step_distance(0));
    }
}

/// Any exponent that brackets `n` between its step distance and the next one
/// is `floor_log2(n)`.
pub proof fn lemma_floor_log2_unique(n: nat, e: nat)
    requires
        step_distance(e) <= n,
        n < step_distance(e + 1),
    ensures
        floor_log2(n) == e,
{
    lemma_step_distance_positive(e);
    lemma_floor_log2_brackets(n);
    let f = floor_log2(n);
    if f < e {
        lemma_step_distance_monotonic(f + 1, e);
    } else if e < f {
        lemma_step_distance_monotonic(e + 1, f);
    }
}

/// A number below `step_distance(k)` has a logarithm below `k`.
pub proof fn lemma_floor_log2_below(n: nat, k: nat)
    requires
        k >= 1,
        n < step_distance(k),
    ensures
        floor_log2(n) < k,
    decreases k,
{
    if n >= 2 {
        if k == 1 {
            assert(step_distance(1) == 2 * step_distance(0));
        } else {
            lemma_floor_log2_below(n / 2, (k - 1) as nat);
        }
    }
}

/// The step distances of the exponents that a 32-bit distance can reach.
pub proof fn lemma_step_distance_32()
    ensures
        step_distance(16) == 0x1_0000,
        step_distance(32) == 0x1_0000_0000,
{
    reveal_with_fuel(step_distance, 17);
    assert(step_distance(16) == 0x1_0000);
    assert(step_distance(32) == 0x1_0000 * step_distance(16)) by {
        lemma_step_distance_sum(16, 16);
    }
}

/// The step distance of a sum of exponents is the product of their step
/// distances.
pub proof fn lemma_step_distance_sum(a: nat, b: nat)
    ensures
        step_distance(a + b) == step_distance(a) * step_distance(b),
    decreases b,
{
    if b == 0 {
        assert(step_distance(a) * 1 == step_distance(a));
    } else {
        lemma_step_distance_sum(a, (b - 1) as nat);
        assert(step_distance(a + b) == 2 * step_distance((a + b - 1) as nat));
        assert(step_distance(a) * (2 * step_distance((b - 1) as nat)) == 2 * (step_distance(a)
            * step_distance((b - 1) as nat))) by (nonlinear_arith);
    }
}

/// The largest distance, in pixels, that a view of `width` by `height` pixels
/// has to resolve when ripples reach `coast` pixels from a shore.
pub fn max_distance(width: u32, height: u32, coast: u32) -> (d: u32)
    ensures
        d == max_distance_spec(width, height, coast),
        d <= coast,
        d <= width || d <= height,
{
    let side: u32 = if width >= height { width } else { height };
    if side <= coast { side } else { coast }
}

/// Floor of the base-two logarithm of `n`, and zero where `n` is zero.
pub fn log2_floor(n: u32) -> (e: u32)
    ensures
        e == floor_log2(n as nat),
        e < 32,
        n >= 1 ==> step_distance(e as nat) <= n < step_distance(e as nat + 1),
{
    proof {
        lemma_step_distance_32();
        lemma_floor_log2_below(n as nat, 32);
        if n >= 1 {
            lemma_floor_log2_brackets(n as nat);
        }
    }
    let mut e: u32 = 0;
    let mut m: u32 = n;
    while m >= 2
        invariant
            e + floor_log2(m as nat) == floor_log2(n as nat),
            floor_log2(n as nat) < 32,
        decreases m,
    {
        m = m / 2;
        e = e + 1;
    }
    e
}

/// The jump distance of `exponent`: two to that power.
pub fn step_of(exponent: u32) -> (step: u32)
    requires
        exponent < 32,
    ensures
        step == step_distance(exponent as nat),
        step >= 1,
{
    proof {
        lemma_step_distance_32();
        lemma_step_distance_positive(exponent as nat);
    }
    let mut step: u32 = 1;
    let mut e: u32 = 0;
    while e < exponent
        invariant
            e <= exponent < 32,
            step == step_distance(e as nat),
            step_distance(32) == 0x1_0000_0000,
        decreases exponent - e,
    {
        proof {
            lemma_step_distance_monotonic(e as nat + 1, 31);
            assert(step_distance(32) == 2 * step_distance(31));
        }
        step = step * 2;
        e = e + 1;
    }
    step
}

/// The exponent of the widest jump of a view: the floor of the base-two
/// logarithm of its largest distance.
pub fn max_exponent(width: u32, height: u32, coast: u32) -> (e: u32)
    ensures
        e == max_exponent_spec(width, height, coast),
        e < 32,
{
    log2_floor(max_distance(width, height, coast))
}

/// The number of rounds of a view: one more than its widest exponent.
pub fn round_count(width: u32, height: u32, coast: u32) -> (n: u32)
    ensures
        n == max_exponent_spec(width, height, coast) + 1,
        1 <= n <= 32,
{
    max_exponent(width, height, coast) + 1
}

/// One of the three equally sized textures that hold nearest-seed
/// coordinates. The seeding pass fills `Primary`; the rounds alternate
/// between `Primary` and `Secondary`; the last round writes `Final`, which
/// the composite pass samples.
#[derive(Clone, Copy, Debug, PartialEq, Eq, Structural)]
pub enum JfaBuffer {
    Primary,
    Secondary,
    Final,
}

/// One round of the schedule.
#[derive(Clone, Copy, Debug, PartialEq, Eq, Structural)]
pub struct JfaRound {
    /// Position of the round in the schedule, from zero.
    pub iteration: u32,
    /// Exponent of the jump: the round samples at `2^exponent` pixels.
    pub exponent: u32,
    /// The buffer that the round reads.
    pub source: JfaBuffer,
    /// The buffer that the round writes.
    pub target: JfaBuffer,
}

/// The buffer that round `iteration` reads: odd rounds read `Secondary`, even
/// rounds read `Primary`.
pub open spec fn source_of(iteration: nat) -> JfaBuffer {
    if iteration % 2 == 1 {
        JfaBuffer::Secondary
    } else {
        JfaBuffer::Primary
    }
}

/// The buffer that round `iteration` writes: `Final` in the last round,
/// otherwise the scratch buffer that the round does not read.
pub open spec fn target_of(max_exp: nat, iteration: nat) -> JfaBuffer {
    if iteration == max_exp {
        JfaBuffer::Final
    } else if iteration % 2 == 1 {
        JfaBuffer::Primary
    } else {
        JfaBuffer::Secondary
    }
}

/// Round `iteration` of a schedule whose widest exponent is `max_exp`.
pub open spec fn round_spec(max_exp: u32, iteration: u32) -> JfaRound {
    JfaRound {
        iteration,
        exponent: (max_exp - iteration) as u32,
        source: source_of(iteration as nat),
        target: target_of(max_exp as nat, iteration as nat),
    }
}

/// The whole schedule for `max_exp`: rounds `0` to `max_exp`, in order.
pub open spec fn schedule_spec(max_exp: u32) -> Seq<JfaRound> {
    Seq::new(max_exp as nat + 1, |i: int| round_spec(max_exp, i as u32))
}

/// Round `iteration` of a schedule whose widest exponent is `max_exp`.
pub fn round_at(max_exp: u32, iteration: u32) -> (r: JfaRound)
    requires
        iteration <= max_exp,
    ensures
        r == round_spec(max_exp, iteration),
        r.exponent + r.iteration == max_exp,
        r.source != r.target,
{
    let odd = iteration % 2 == 1;
    let source = if odd { JfaBuffer::Secondary } else { JfaBuffer::Primary };
    let target = if iteration == max_exp {
        JfaBuffer::Final
    } else if odd {
        JfaBuffer::Primary
    } else {
        JfaBuffer::Secondary
    };
    JfaRound { iteration, exponent: max_exp - iteration, source, target }
}

/// All rounds of a schedule whose widest exponent is `max_exp`, widest jump
/// first.
pub fn plan_rounds(max_exp: u32) -> (rounds: Vec<JfaRound>)
    ensures
        rounds@ == schedule_spec(max_exp),
        rounds@.len() == max_exp + 1,
{
    let mut rounds: Vec<JfaRound> = Vec::new();
    let mut it: u64 = 0;
    while it <= max_exp as u64
        invariant
            it <= max_exp + 1,
            rounds@.len() == it,
            forall|i: int| 0 <= i < it ==> #[trigger] rounds@[i] == round_spec(max_exp, i as u32),
        decreases max_exp + 1 - it,
    {
        rounds.push(round_at(max_exp, it as u32));
        it = it + 1;
    }
    assert(rounds@ =~= schedule_spec(max_exp));
    rounds
}

/// The schedule of a view of `width` by `height` pixels whose ripples reach
/// `coast` pixels from a shore.
pub fn plan_view_rounds(width: u32, height: u32, coast: u32) -> (rounds: Vec<JfaRound>)
    ensures
        rounds@ == schedule_spec(max_exponent_spec(width, height, coast) as u32),
        rounds@.len() == max_exponent_spec(width, height, coast) + 1,
{
    plan_rounds(max_exponent(width, height, coast))
}

/// The schedule of a view has one round more than the floor of the base-two
/// logarithm of its largest distance: for a distance of at least one pixel,
/// the widest step is the largest power of two that does not exceed it.
pub proof fn lemma_round_count(width: u32, height: u32, coast: u32)
    ensures
        schedule_spec(max_exponent_spec(width, height, coast) as u32).len() == floor_log2(
            max_distance_spec(width, height, coast),
        ) + 1,
        max_exponent_spec(width, height, coast) < 32,
        max_distance_spec(width, height, coast) >= 1 ==> step_distance(
            max_exponent_spec(width, height, coast),
        ) <= max_distance_spec(width, height, coast) < step_distance(
            max_exponent_spec(width, height, coast) + 1,
        ),
{
    let d = max_distance_spec(width, height, coast);
    lemma_step_distance_32();
    lemma_floor_log2_below(d, 32);
    if d >= 1 {
        lemma_floor_log2_brackets(d);
    }
}

/// The exponents of a schedule run from `max_exp` down to zero, one less each
/// round: round `i` uses `max_exp - i`, so the sequence is strictly
/// decreasing, begins at `max_exp` and ends at zero.
pub proof fn lemma_exponents_descend(max_exp: u32)
    ensures
        schedule_spec(max_exp).len() == max_exp + 1,
        forall|i: int|
            0 <= i <= max_exp ==> (#[trigger] schedule_spec(max_exp)[i]).exponent == max_exp - i,
        forall|i: int, j: int|
            0 <= i < j <= max_exp ==> (#[trigger] schedule_spec(max_exp)[i]).exponent > (
            #[trigger] schedule_spec(max_exp)[j]).exponent,
        schedule_spec(max_exp)[0].exponent == max_exp,
        schedule_spec(max_exp)[max_exp as int].exponent == 0,
{
}

/// No round reads the buffer that it writes.
pub proof fn lemma_ping_pong(max_exp: u32)
    ensures
        forall|i: int|
            0 <= i <= max_exp ==> (#[trigger] schedule_spec(max_exp)[i]).source != schedule_spec(
                max_exp,
            )[i].target,
{
}

/// `Final` is written by the last round only and is never read by a round;
/// every other round writes a scratch buffer.
pub proof fn lemma_final_only_last(max_exp: u32)
    ensures
        forall|i: int|
            0 <= i <= max_exp ==> (#[trigger] schedule_spec(max_exp)[i]).source
                != JfaBuffer::Final,
        forall|i: int|
            0 <= i <= max_exp ==> ((#[trigger] schedule_spec(max_exp)[i]).target
                == JfaBuffer::Final <==> i == max_exp),
{
}

/// The first round reads the seeded buffer, and every later round reads what
/// the round before it wrote.
pub proof fn lemma_rounds_chain(max_exp: u32)
    ensures
        schedule_spec(max_exp)[0].source == JfaBuffer::Primary,
        forall|i: int|
            0 <= i < max_exp ==> (#[trigger] schedule_spec(max_exp)[i + 1]).source
                == schedule_spec(max_exp)[i].target,
{
}

} // verus!
