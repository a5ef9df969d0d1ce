use water_ripples::steps::{jump_dist, JumpDist, StepTable, STEP_COUNT, STEP_STRIDE};

#[test]
fn table_holds_sixteen_powers_of_two() {
    let table = StepTable::new();
    assert_eq!(table.buffer.inner.len(), 16);
    assert_eq!(table.offsets.len(), 16);
    assert_eq!(STEP_COUNT, 16);
}

#[test]
fn offsets_are_one_aligned_slot_apart() {
    let table = StepTable::new();
    let expected: Vec<u32> = (0u32..16).map(|e| 256 * e).collect();
    assert_eq!(table.offsets, expected);
    assert_eq!(STEP_STRIDE, 256);
    assert_eq!(table.offset(0), Some(0));
    assert_eq!(table.offset(1), Some(256));
    assert_eq!(table.offset(6), Some(1536));
    assert_eq!(table.offset(15), Some(3840));
}

#[test]
fn offset_outside_the_table_is_none() {
    let table = StepTable::new();
    assert_eq!(table.offset(16), None);
    assert_eq!(table.offset(31), None);
    assert_eq!(table.offset(u32::MAX), None);
}

#[test]
fn jump_distances_double() {
    assert_eq!(jump_dist(0), Some(JumpDist { dist: 1 }));
    assert_eq!(jump_dist(1), Some(JumpDist { dist: 2 }));
    assert_eq!(jump_dist(6), Some(JumpDist { dist: 64 }));
    assert_eq!(jump_dist(15), Some(JumpDist { dist: 32768 }));
    assert_eq!(jump_dist(16), None);
    for e in 1u32..16 {
        assert_eq!(jump_dist(e).unwrap().dist, 2 * jump_dist(e - 1).unwrap().dist);
    }
}

#[test]
fn two_tables_are_alike() {
    let a = StepTable::new();
    let b = StepTable::new();
    assert_eq!(a.offsets, b.offsets);
    assert_eq!(a.buffer.inner.len(), b.buffer.inner.len());
}
