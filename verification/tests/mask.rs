use water_ripples::mask::{depth_key, draw_order, drawn_before, MaskKey};

fn key(z: f32, entity: u64) -> MaskKey {
    MaskKey { depth: depth_key(z.to_bits()), entity }
}

#[test]
fn shapes_are_drawn_by_ascending_depth() {
    let items = vec![key(3.0, 10), key(1.0, 11), key(2.0, 12)];
    assert_eq!(draw_order(&items), vec![1, 2, 0]);
}

#[test]
fn equal_depths_are_drawn_by_entity() {
    let items = vec![key(1.0, 30), key(1.0, 10), key(0.5, 99), key(1.0, 20)];
    assert_eq!(draw_order(&items), vec![2, 1, 3, 0]);
}

#[test]
fn equal_keys_keep_their_order() {
    let items = vec![key(1.0, 5), key(0.0, 1), key(1.0, 5), key(1.0, 5)];
    assert_eq!(draw_order(&items), vec![1, 0, 2, 3]);
}

#[test]
fn no_shapes_no_order() {
    assert_eq!(draw_order(&Vec::new()), Vec::<usize>::new());
    assert_eq!(draw_order(&vec![key(4.0, 1)]), vec![0]);
}

#[test]
fn draw_order_is_a_sorted_permutation() {
    let mut items = Vec::new();
    let mut x: u32 = 12345;
    for entity in 0..200u64 {
        x = x.wrapping_mul(1664525).wrapping_add(1013904223);
        items.push(MaskKey { depth: x % 17, entity: entity % 7 });
    }
    let order = draw_order(&items);
    let mut seen = order.clone();
    seen.sort();
    assert_eq!(seen, (0..200).collect::<Vec<usize>>());
    for w in order.windows(2) {
        assert!(drawn_before(&items, w[0], w[1]));
        assert!(!drawn_before(&items, w[1], w[0]));
    }
    assert_eq!(draw_order(&items), order);
}

#[test]
fn depth_keys_order_as_floats_do() {
    let values = [
        f32::NEG_INFINITY,
        -1.0e30,
        -2.5,
        -1.0,
        -1.0e-40,
        0.0,
        1.0e-40,
        0.5,
        1.0,
        2.0,
        3.0e30,
        f32::INFINITY,
    ];
    for (i, a) in values.iter().enumerate() {
        for (j, b) in values.iter().enumerate() {
            let ka = depth_key(a.to_bits());
            let kb = depth_key(b.to_bits());
            assert_eq!(ka < kb, a < b, "{} {}", i, j);
            assert_eq!(ka == kb, a == b, "{} {}", i, j);
        }
    }
}

#[test]
fn depth_key_exact_values() {
    assert_eq!(depth_key(0.0f32.to_bits()), 0x8000_0000);
    assert_eq!(depth_key((-0.0f32).to_bits()), 0x8000_0000);
    assert_eq!(depth_key(1.0f32.to_bits()), 0x8000_0000 + 0x3F80_0000);
    assert_eq!(depth_key((-1.0f32).to_bits()), 0x8000_0000 - 0x3F80_0000);
    assert_eq!(depth_key(f32::INFINITY.to_bits()), 0xFF80_0000);
    assert_eq!(depth_key(f32::NEG_INFINITY.to_bits()), 0x0080_0000);
    assert_eq!(depth_key(f32::NAN.to_bits()), 0);
    assert_eq!(depth_key(0xFFFF_FFFF), 0);
}
