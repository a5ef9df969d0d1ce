use water_ripples::field::{
    closer, dist_sq, run_schedule, shifted, Coord, FieldError, JfaBuffers, SeedField,
    MAX_SIDE,
};
use water_ripples::schedule::{log2_floor, max_exponent, plan_rounds, step_of, JfaBuffer};

fn single_seed(width: u32, height: u32, x0: u32, y0: u32) -> SeedField {
    let mut mask = vec![false; (width * height) as usize];
    mask[(y0 * width + x0) as usize] = true;
    SeedField::from_mask(width, height, &mask).unwrap()
}

fn nearest_by_search(mask: &[bool], width: u32, height: u32, x: u32, y: u32) -> Option<u64> {
    let mut best: Option<u64> = None;
    for sy in 0..height {
        for sx in 0..width {
            if mask[(sy * width + sx) as usize] {
                let d = dist_sq(Coord { x, y }, Coord { x: sx, y: sy });
                if best.map_or(true, |b| d < b) {
                    best = Some(d);
                }
            }
        }
    }
    best
}

#[test]
fn seeding_gives_each_occupied_pixel_itself() {
    let mask = vec![false, true, false, false, false, true];
    let field = SeedField::from_mask(3, 2, &mask).unwrap();
    assert_eq!(
        field.seeds,
        vec![
            None,
            Some(Coord { x: 1, y: 0 }),
            None,
            None,
            None,
            Some(Coord { x: 2, y: 1 }),
        ]
    );
    assert_eq!(field.width, 3);
    assert_eq!(field.height, 2);
    assert_eq!(field.get(1, 0), Some(Coord { x: 1, y: 0 }));
    assert_eq!(field.get(0, 1), None);
    assert_eq!(field.get(2, 1), Some(Coord { x: 2, y: 1 }));
}

#[test]
fn seeding_refuses_a_mask_of_the_wrong_length() {
    assert_eq!(
        SeedField::from_mask(3, 2, &vec![false; 5]),
        Err(FieldError::SizeMismatch)
    );
    assert_eq!(
        SeedField::from_mask(0, 2, &vec![false; 1]),
        Err(FieldError::SizeMismatch)
    );
}

#[test]
fn seeding_refuses_a_field_that_is_too_large() {
    assert_eq!(
        SeedField::from_mask(MAX_SIDE + 1, 1, &vec![false; 4]),
        Err(FieldError::TooLarge)
    );
    assert_eq!(
        SeedField::from_mask(1, MAX_SIDE + 1, &Vec::new()),
        Err(FieldError::TooLarge)
    );
}

#[test]
fn an_empty_field_is_seeded_empty() {
    let field = SeedField::from_mask(0, 0, &Vec::new()).unwrap();
    assert!(field.seeds.is_empty());
    let flooded = field.flood(3);
    assert!(flooded.seeds.is_empty());
}

#[test]
fn a_single_seed_reaches_every_pixel() {
    let (w, h, x0, y0) = (16, 16, 5, 11);
    let max_exp = max_exponent(w, h, 100);
    assert_eq!(max_exp, 4);
    let flooded = single_seed(w, h, x0, y0).flood(max_exp);
    for y in 0..h {
        for x in 0..w {
            assert_eq!(flooded.get(x, y), Some(Coord { x: x0, y: y0 }));
        }
    }
}

#[test]
fn a_single_seed_reaches_every_pixel_of_an_oblong_field() {
    let (w, h, x0, y0) = (37, 9, 36, 0);
    let flooded = single_seed(w, h, x0, y0).flood(log2_floor(w));
    assert_eq!(flooded.seeds, vec![Some(Coord { x: x0, y: y0 }); (w * h) as usize]);
}

#[test]
fn a_field_without_seeds_stays_without() {
    let field = SeedField::from_mask(8, 8, &vec![false; 64]).unwrap();
    assert_eq!(field.flood(3).seeds, vec![None; 64]);
}

#[test]
fn one_round_spreads_a_seed_to_its_nine_neighbours() {
    let field = single_seed(5, 5, 2, 2);
    let next = field.jump_round(1);
    for y in 0..5u32 {
        for x in 0..5u32 {
            let near = (1..=3).contains(&x) && (1..=3).contains(&y);
            assert_eq!(
                next.get(x, y),
                if near { Some(Coord { x: 2, y: 2 }) } else { None }
            );
        }
    }
    let far = field.jump_round(2);
    assert_eq!(far.get(0, 0), Some(Coord { x: 2, y: 2 }));
    assert_eq!(far.get(4, 2), Some(Coord { x: 2, y: 2 }));
    assert_eq!(far.get(1, 1), None);
    assert_eq!(far.get(2, 2), Some(Coord { x: 2, y: 2 }));
}

#[test]
fn a_round_keeps_the_nearer_seed_and_the_first_of_equals() {
    let mut mask = vec![false; 5];
    mask[0] = true;
    mask[4] = true;
    let field = SeedField::from_mask(5, 1, &mask).unwrap();
    let next = field.jump_round(2);
    assert_eq!(
        next.seeds,
        vec![
            Some(Coord { x: 0, y: 0 }),
            None,
            Some(Coord { x: 0, y: 0 }),
            None,
            Some(Coord { x: 4, y: 0 }),
        ]
    );
    let last = next.jump_round(1);
    assert_eq!(
        last.seeds,
        vec![
            Some(Coord { x: 0, y: 0 }),
            Some(Coord { x: 0, y: 0 }),
            Some(Coord { x: 0, y: 0 }),
            Some(Coord { x: 4, y: 0 }),
            Some(Coord { x: 4, y: 0 }),
        ]
    );
}

#[test]
fn flooding_a_disc_finds_the_exact_distance_near_it() {
    let (w, h) = (64u32, 64u32);
    let mut mask = vec![false; (w * h) as usize];
    for y in 0..h {
        for x in 0..w {
            let d = dist_sq(Coord { x, y }, Coord { x: 32, y: 32 });
            mask[(y * w + x) as usize] = d <= 25;
        }
    }
    let flooded = SeedField::from_mask(w, h, &mask).unwrap().flood(max_exponent(w, h, 100));
    for y in 0..h {
        for x in 0..w {
            let seed = flooded.get(x, y).expect("every pixel finds a seed");
            assert!(mask[(seed.y * w + seed.x) as usize]);
            if mask[(y * w + x) as usize] {
                assert_eq!(seed, Coord { x, y });
            }
        }
    }
    for (x, y) in [(32u32, 20u32), (10, 32), (32, 60), (50, 32)] {
        let seed = flooded.get(x, y).unwrap();
        assert_eq!(
            Some(dist_sq(Coord { x, y }, seed)),
            nearest_by_search(&mask, w, h, x, y)
        );
    }
}

#[test]
fn the_three_buffers_compute_the_flood() {
    for max_exp in 0..5u32 {
        let direct = single_seed(12, 7, 3, 4).flood(max_exp);
        let through_buffers = run_schedule(single_seed(12, 7, 3, 4), max_exp);
        assert_eq!(direct, through_buffers);
    }
    let mut mask = vec![false; 81];
    for i in [0usize, 13, 40, 77] {
        mask[i] = true;
    }
    let direct = SeedField::from_mask(9, 9, &mask).unwrap().flood(3);
    let through_buffers = run_schedule(SeedField::from_mask(9, 9, &mask).unwrap(), 3);
    assert_eq!(direct, through_buffers);
}

#[test]
fn a_round_writes_only_its_target() {
    let mut buffers = JfaBuffers::seeded(single_seed(4, 4, 0, 0));
    assert!(buffers.secondary.is_none());
    assert!(buffers.last.is_none());
    let rounds = plan_rounds(1);
    buffers.run_round(&rounds[0]);
    assert_eq!(rounds[0].target, JfaBuffer::Secondary);
    assert_eq!(buffers.primary, Some(single_seed(4, 4, 0, 0)));
    assert_eq!(buffers.secondary, Some(single_seed(4, 4, 0, 0).jump_round(2)));
    assert!(buffers.last.is_none());
    buffers.run_round(&rounds[1]);
    assert_eq!(
        buffers.last,
        Some(single_seed(4, 4, 0, 0).jump_round(2).jump_round(1))
    );
    assert_eq!(buffers.primary, Some(single_seed(4, 4, 0, 0)));
}

#[test]
fn helpers_exact_values() {
    assert_eq!(dist_sq(Coord { x: 0, y: 0 }, Coord { x: 3, y: 4 }), 25);
    assert_eq!(dist_sq(Coord { x: 3, y: 4 }, Coord { x: 0, y: 0 }), 25);
    assert_eq!(
        dist_sq(Coord { x: 0, y: 0 }, Coord { x: 32768, y: 32768 }),
        2 * 32768 * 32768
    );
    assert_eq!(step_of(0), 1);
    assert_eq!(step_of(6), 64);
    assert_eq!(step_of(31), 1 << 31);
    assert_eq!(shifted(5, 0, 8), -3);
    assert_eq!(shifted(5, 1, 8), 5);
    assert_eq!(shifted(5, 2, 8), 13);
    assert_eq!(shifted(u32::MAX, 2, u32::MAX), 2 * (u32::MAX as i64));
    let p = Coord { x: 2, y: 2 };
    let a = Coord { x: 0, y: 2 };
    let b = Coord { x: 4, y: 2 };
    let c = Coord { x: 2, y: 3 };
    assert_eq!(closer(None, None, p), None);
    assert_eq!(closer(None, Some(a), p), Some(a));
    assert_eq!(closer(Some(a), None, p), Some(a));
    assert_eq!(closer(Some(a), Some(b), p), Some(a));
    assert_eq!(closer(Some(a), Some(c), p), Some(c));
}
