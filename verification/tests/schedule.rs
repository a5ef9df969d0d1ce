use water_ripples::schedule::{
    log2_floor, max_distance, max_exponent, plan_rounds, plan_view_rounds, round_at, round_count,
    JfaBuffer, JfaRound,
};

#[test]
fn max_distance_is_the_smaller_of_side_and_reach() {
    assert_eq!(max_distance(256, 256, 100), 100);
    assert_eq!(max_distance(64, 32, 100), 64);
    assert_eq!(max_distance(32, 64, 100), 64);
    assert_eq!(max_distance(1600, 900, 1600), 1600);
    assert_eq!(max_distance(0, 0, 100), 0);
    assert_eq!(max_distance(10, 10, 0), 0);
}

#[test]
fn log2_floor_exact_values() {
    assert_eq!(log2_floor(0), 0);
    assert_eq!(log2_floor(1), 0);
    assert_eq!(log2_floor(2), 1);
    assert_eq!(log2_floor(3), 1);
    assert_eq!(log2_floor(4), 2);
    assert_eq!(log2_floor(100), 6);
    assert_eq!(log2_floor(127), 6);
    assert_eq!(log2_floor(128), 7);
    assert_eq!(log2_floor(65535), 15);
    assert_eq!(log2_floor(65536), 16);
    assert_eq!(log2_floor(u32::MAX), 31);
}

#[test]
fn log2_floor_brackets_every_small_distance() {
    for n in 1u32..5000 {
        let e = log2_floor(n);
        assert!(1u64 << e <= n as u64);
        assert!((n as u64) < 1u64 << (e + 1));
    }
}

#[test]
fn end_to_end_256_square_reach_100() {
    assert_eq!(max_exponent(256, 256, 100), 6);
    assert_eq!(round_count(256, 256, 100), 7);
    let rounds = plan_view_rounds(256, 256, 100);
    assert_eq!(rounds.len(), 7);
    let exponents: Vec<u32> = rounds.iter().map(|r| r.exponent).collect();
    assert_eq!(exponents, vec![6, 5, 4, 3, 2, 1, 0]);
    let iterations: Vec<u32> = rounds.iter().map(|r| r.iteration).collect();
    assert_eq!(iterations, vec![0, 1, 2, 3, 4, 5, 6]);
}

#[test]
fn rounds_alternate_between_scratch_buffers() {
    let rounds = plan_rounds(3);
    assert_eq!(
        rounds,
        vec![
            JfaRound { iteration: 0, exponent: 3, source: JfaBuffer::Primary, target: JfaBuffer::Secondary },
            JfaRound { iteration: 1, exponent: 2, source: JfaBuffer::Secondary, target: JfaBuffer::Primary },
            JfaRound { iteration: 2, exponent: 1, source: JfaBuffer::Primary, target: JfaBuffer::Secondary },
            JfaRound { iteration: 3, exponent: 0, source: JfaBuffer::Secondary, target: JfaBuffer::Final },
        ]
    );
}

#[test]
fn single_round_reads_primary_and_writes_final() {
    let rounds = plan_rounds(0);
    assert_eq!(
        rounds,
        vec![JfaRound { iteration: 0, exponent: 0, source: JfaBuffer::Primary, target: JfaBuffer::Final }]
    );
    assert_eq!(plan_view_rounds(1, 1, 100), rounds);
    assert_eq!(plan_view_rounds(256, 256, 0), rounds);
    assert_eq!(plan_view_rounds(0, 0, 0), rounds);
}

#[test]
fn even_last_round_writes_final_from_primary() {
    let r = round_at(4, 4);
    assert_eq!(r.source, JfaBuffer::Primary);
    assert_eq!(r.target, JfaBuffer::Final);
    assert_eq!(r.exponent, 0);
}

#[test]
fn no_round_reads_what_it_writes() {
    for max_exp in 0u32..32 {
        let rounds = plan_rounds(max_exp);
        assert_eq!(rounds.len() as u32, max_exp + 1);
        for (i, r) in rounds.iter().enumerate() {
            assert_ne!(r.source, r.target);
            assert_ne!(r.source, JfaBuffer::Final);
            assert_eq!(r.target == JfaBuffer::Final, i as u32 == max_exp);
            assert_eq!(r.exponent, max_exp - i as u32);
            if i > 0 {
                assert_eq!(r.source, rounds[i - 1].target);
                assert!(r.exponent < rounds[i - 1].exponent);
            }
        }
        assert_eq!(rounds[0].source, JfaBuffer::Primary);
    }
}

#[test]
fn round_count_follows_the_reach() {
    for d in 1u32..600 {
        let e = max_exponent(4096, 4096, d);
        assert_eq!(round_count(4096, 4096, d), e + 1);
        assert!(1u32 << e <= d && d < 1u32 << (e + 1));
    }
    assert_eq!(max_exponent(1600, 900, 100), 6);
    assert_eq!(max_exponent(1600, 900, 5000), 10);
    assert_eq!(max_exponent(64, 64, 5000), 6);
}
