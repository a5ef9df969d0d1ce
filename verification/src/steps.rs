//! The table of jump distances: one power of two per exponent, kept in a
//! dynamic uniform buffer so that a round selects its distance by offset.

use bevy::render::render_resource::DynamicUniformBuffer;
use vstd::prelude::*;

use crate::schedule::{step_distance, step_of};

verus! {

/// The number of exponents that the table covers: distances 1 to 32768.
pub const STEP_COUNT: u32 = 16;

/// The spacing, in bytes, of consecutive entries of a dynamic uniform buffer.
pub const STEP_STRIDE: u32 = 256;

/// A dynamic uniform buffer of 32-bit values. The render crate's buffer is
/// bounded by a trait of its own, which keeps the verifier from reading the
/// type; it is held here, filled through the functions below, and handed to
/// the renderer for upload through its field.
#[verifier::external_body]
pub struct DistanceBuffer {
    pub inner: DynamicUniformBuffer<u32>,
}

/// The values that have been pushed into a buffer since it was created or
/// last cleared, oldest first.
pub uninterp spec fn buffer_values(buffer: DistanceBuffer) -> Seq<u32>;

/// `DynamicUniformBuffer::default`: a buffer that holds no value.
#[verifier::external_body]
fn empty_buffer() -> (buffer: DistanceBuffer)
    ensures
        buffer_values(buffer) == Seq::<u32>::empty(),
{
    DistanceBuffer { inner: DynamicUniformBuffer::default() }
}

/// `DynamicUniformBuffer::push`: appends `value` and returns the byte offset
/// at which it lies. A 32-bit value takes one aligned slot of 256 bytes, so
/// the offset is 256 times the number of values pushed before it. The bound
/// keeps that offset within 32 bits.
#[verifier::external_body]
fn push_value(buffer: &mut DistanceBuffer, value: u32) -> (offset: u32)
    requires
        buffer_values(*old(buffer)).len() < 0x100_0000,
    ensures
        buffer_values(*final(buffer)) == buffer_values(*old(buffer)).push(value),
        offset == STEP_STRIDE * buffer_values(*old(buffer)).len(),
{
    buffer.inner.push(value)
}

/// One jump distance, as a round's shader reads it.
#[derive(Clone, Copy, Debug, PartialEq, Eq, Structural)]
pub struct JumpDist {
    pub dist: u32,
}

/// The distances of the table: `2^e` for each exponent `e` below sixteen.
pub open spec fn distances_spec() -> Seq<u32> {
    Seq::new(STEP_COUNT as nat, |e: int| step_distance(e as nat) as u32)
}

/// The byte offsets of the table's entries.
pub open spec fn offsets_spec() -> Seq<u32> {
    Seq::new(STEP_COUNT as nat, |e: int| (STEP_STRIDE * e) as u32)
}

/// The jump distances in their uniform buffer, with the offset of each.
pub struct StepTable {
    /// The buffer to upload; entry `e` holds `2^e`.
    pub buffer: DistanceBuffer,
    /// The dynamic offset that selects entry `e`.
    pub offsets: Vec<u32>,
}

impl StepTable {
    /// The table is complete: sixteen distances, each at its offset.
    pub open spec fn wf(&self) -> bool {
        &&& buffer_values(self.buffer) == distances_spec()
        &&& self.offsets@ == offsets_spec()
    }

    /// Builds the table for exponents 0 to 15.
    pub fn new() -> (table: StepTable)
        ensures
            table.wf(),
    {
        let mut buffer = empty_buffer();
        let mut offsets: Vec<u32> = Vec::new();
        let mut dist: u32 = 1;
        let mut exp: u32 = 0;
        proof {
            crate::schedule::lemma_step_distance_32();
        }
        while exp < STEP_COUNT
            invariant
                exp <= STEP_COUNT,
                dist == step_distance(exp as nat),
                step_distance(16) == 0x1_0000,
                buffer_values(buffer).len() == exp,
                offsets@.len() == exp,
                forall|e: int| 0 <= e < exp ==> #[trigger] buffer_values(buffer)[e] == step_distance(e as nat),
                forall|e: int| 0 <= e < exp ==> #[trigger] offsets@[e] == STEP_STRIDE * e,
            decreases STEP_COUNT - exp,
        {
            proof {
                crate::schedule::lemma_step_distance_monotonic(exp as nat + 1, 16);
            }
            let offset = push_value(&mut buffer, dist);
            offsets.push(offset);
            exp = exp + 1;
            dist = dist * 2;
        }
        assert(buffer_values(buffer) =~= distances_spec());
        assert(offsets@ =~= offsets_spec());
        StepTable { buffer, offsets }
    }

    /// The dynamic offset that selects the distance of `exponent`, or `None`
    /// where the table has no entry for it.
    pub fn offset(&self, exponent: u32) -> (offset: Option<u32>)
        ensures
            exponent < self.offsets@.len() ==> offset == Some(self.offsets@[exponent as int]),
            exponent >= self.offsets@.len() ==> offset is None,
            self.wf() && exponent < STEP_COUNT ==> offset == Some((STEP_STRIDE * exponent) as u32),
            self.wf() && exponent >= STEP_COUNT ==> offset is None,
    {
        if (exponent as usize) < self.offsets.len() {
            Some(self.offsets[exponent as usize])
        } else {
            None
        }
    }
}

/// The jump distance of `exponent`, or `None` where the table has no entry
/// for it.
pub fn jump_dist(exponent: u32) -> (d: Option<JumpDist>)
    ensures
        exponent < STEP_COUNT ==> d == Some(JumpDist { dist: step_distance(exponent as nat) as u32 }),
        exponent < STEP_COUNT ==> step_distance(exponent as nat) <= 0x8000,
        exponent >= STEP_COUNT ==> d is None,
{
    if exponent >= STEP_COUNT {
        return None;
    }
    proof {
        crate::schedule::lemma_step_distance_32();
        crate::schedule::lemma_step_distance_monotonic(exponent as nat + 1, 16);
    }
    Some(JumpDist { dist: step_of(exponent) })
}

/// A view whose largest distance is below 65536 pixels finds the distance of
/// every round in the table.
pub proof fn lemma_table_covers(width: u32, height: u32, coast: u32)
    requires
        crate::schedule::max_distance_spec(width, height, coast) < 0x1_0000,
    ensures
        crate::schedule::max_exponent_spec(width, height, coast) < STEP_COUNT,
{
    crate::schedule::lemma_step_distance_32();
    crate::schedule::lemma_floor_log2_below(
        crate::schedule::max_distance_spec(width, height, coast),
        16,
    );
}

} // verus!
