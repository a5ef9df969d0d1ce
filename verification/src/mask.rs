//! The order in which the mask pass draws the maskable shapes of a view:
//! ascending by depth, and among shapes of one depth ascending by entity, so
//! that one set of shapes is always drawn in one order.

use vstd::prelude::*;

verus! {

/// What the mask pass orders a shape by.
#[derive(Clone, Copy, Debug, PartialEq, Eq, Structural)]
pub struct MaskKey {
    /// The depth of the shape, as an integer that grows with it.
    pub depth: u32,
    /// The identity of the shape's entity.
    pub entity: u64,
}

/// The shape at index `a` is drawn before the shape at index `b`: it is less
/// deep, or as deep with a smaller entity, or equal in both and earlier in
/// the list.
pub open spec fn draws_before(items: Seq<MaskKey>, a: int, b: int) -> bool {
    ||| items[a].depth < items[b].depth
    ||| (items[a].depth == items[b].depth && items[a].entity < items[b].entity)
    ||| (items[a].depth == items[b].depth && items[a].entity == items[b].entity && a < b)
}

/// `order` lists indices into `items`, each drawn before all that follow it.
pub open spec fn sorted_indices(items: Seq<MaskKey>, order: Seq<usize>) -> bool {
    &&& forall|k: int| 0 <= k < order.len() ==> (#[trigger] order[k]) < items.len()
    &&& forall|a: int, b: int|
        0 <= a < b < order.len() ==> draws_before(
            items,
            (#[trigger] order[a]) as int,
            (#[trigger] order[b]) as int,
        )
}

/// `order` names the index `i`.
pub open spec fn names(order: Seq<usize>, i: int) -> bool {
    exists|k: int| 0 <= k < order.len() && #[trigger] order[k] == i
}

/// `order` names every index below `n`.
pub open spec fn covers(order: Seq<usize>, n: int) -> bool {
    forall|i: int| 0 <= i < n ==> #[trigger] names(order, i)
}

/// `order` is the draw order of `items`: every index once, each shape before
/// all that are drawn after it.
pub open spec fn is_draw_order(items: Seq<MaskKey>, order: Seq<usize>) -> bool {
    &&& order.len() == items.len()
    &&& sorted_indices(items, order)
    &&& covers(order, items.len() as int)
}

/// The bit pattern of a 32-bit float is negative: its sign bit is set.
pub open spec fn bits_negative(bits: u32) -> bool {
    bits >= 0x8000_0000
}

/// The bit pattern of a 32-bit float without its sign bit. Among patterns of
/// one sign, a larger magnitude is a number farther from zero.
pub open spec fn bits_magnitude(bits: u32) -> int {
    bits as int % 0x8000_0000
}

/// The bit pattern is no number: its magnitude lies beyond that of infinity.
pub open spec fn bits_nan(bits: u32) -> bool {
    bits_magnitude(bits) > 0x7F80_0000
}

/// The float with pattern `a` sorts before the float with pattern `b`: what
/// is no number sorts before every number, and numbers sort by value, with
/// the two zeros equal.
pub open spec fn float_sorts_before(a: u32, b: u32) -> bool {
    if bits_nan(a) || bits_nan(b) {
        bits_nan(a) && !bits_nan(b)
    } else if bits_negative(a) && bits_negative(b) {
        bits_magnitude(a) > bits_magnitude(b)
    } else if bits_negative(a) {
        bits_magnitude(a) > 0 || bits_magnitude(b) > 0
    } else if bits_negative(b) {
        false
    } else {
        bits_magnitude(a) < bits_magnitude(b)
    }
}

/// The depth key of the float with pattern `bits`.
pub open spec fn depth_key_spec(bits: u32) -> int {
    if bits_nan(bits) {
        0
    } else if bits_negative(bits) {
        0x8000_0000 - bits_magnitude(bits)
    } else {
        0x8000_0000 + bits_magnitude(bits)
    }
}

/// The depth key of a float, from its bit pattern: an integer that orders
/// depths as the floats themselves are ordered.
pub fn depth_key(bits: u32) -> (key: u32)
    ensures
        key == depth_key_spec(bits),
{
    let magnitude: u32 = bits % 0x8000_0000;
    if magnitude > 0x7F80_0000 {
        0
    } else if bits >= 0x8000_0000 {
        0x8000_0000 - magnitude
    } else {
        0x8000_0000 + magnitude
    }
}

/// Depth keys order as the floats do: one key is below another exactly when
/// its float sorts before the other, and two keys are equal exactly when
/// neither float sorts before the other.
pub proof fn lemma_depth_key_orders(a: u32, b: u32)
    ensures
        depth_key_spec(a) < depth_key_spec(b) <==> float_sorts_before(a, b),
        depth_key_spec(a) == depth_key_spec(b) <==> !float_sorts_before(a, b)
            && !float_sorts_before(b, a),
        0 <= depth_key_spec(a) <= u32::MAX,
{
}

/// Whether the shape at index `a` is drawn before the shape at index `b`.
pub fn drawn_before(items: &Vec<MaskKey>, a: usize, b: usize) -> (r: bool)
    requires
        a < items.len(),
        b < items.len(),
    ensures
        r == draws_before(items@, a as int, b as int),
{
    let x = items[a];
    let y = items[b];
    x.depth < y.depth || (x.depth == y.depth && x.entity < y.entity) || (x.depth == y.depth
        && x.entity == y.entity && a < b)
}

/// The order in which the mask pass draws `items`, as indices into `items`.
pub fn draw_order(items: &Vec<MaskKey>) -> (order: Vec<usize>)
    ensures
        is_draw_order(items@, order@),
{
    let mut order: Vec<usize> = Vec::new();
    let n = items.len();
    let mut i: usize = 0;
    while i < n
        invariant
            n == items.len(),
            i <= n,
            order@.len() == i,
            sorted_indices(items@, order@),
            covers(order@, i as int),
            forall|k: int| 0 <= k < order@.len() ==> (#[trigger] order@[k]) < i,
        decreases n - i,
    {
        let mut p: usize = 0;
        while p < order.len() && drawn_before(items, order[p], i)
            invariant
                n == items.len(),
                i < n,
                p <= order@.len(),
                order@.len() == i,
                forall|k: int| 0 <= k < order@.len() ==> (#[trigger] order@[k]) < i,
                forall|k: int|
                    0 <= k < p ==> draws_before(items@, (#[trigger] order@[k]) as int, i as int),
            decreases order@.len() - p,
        {
            p = p + 1;
        }
        let ghost before = order@;
        order.insert(p, i);
        proof {
            let after = order@;
            assert(after == before.insert(p as int, i));
            assert forall|k: int| 0 <= k < after.len() implies (#[trigger] after[k]) < i + 1 by {
                if k < p {
                    assert(after[k] == before[k]);
                } else if k > p {
                    assert(after[k] == before[k - 1]);
                }
            }
            assert forall|a: int, b: int| 0 <= a < b < after.len() implies draws_before(
                items@,
                (#[trigger] after[a]) as int,
                (#[trigger] after[b]) as int,
            ) by {
                if b < p {
                    assert(after[a] == before[a] && after[b] == before[b]);
                } else if b == p {
                    assert(after[a] == before[a]);
                } else if a < p {
                    assert(after[a] == before[a] && after[b] == before[b - 1]);
                    if (p as int) < b - 1 {
                        lemma_draws_before_transitive(
                            items@,
                            before[a] as int,
                            before[p as int] as int,
                            before[b - 1] as int,
                        );
                    }
                } else if a == p {
                    assert(after[b] == before[b - 1]);
                    assert(!draws_before(items@, before[p as int] as int, i as int));
                    lemma_draws_before_total(items@, i as int, before[p as int] as int);
                    if (p as int) < b - 1 {
                        lemma_draws_before_transitive(
                            items@,
                            i as int,
                            before[p as int] as int,
                            before[b - 1] as int,
                        );
                    }
                } else {
                    assert(after[a] == before[a - 1] && after[b] == before[b - 1]);
                }
            }
            assert forall|j: int| 0 <= j < i + 1 implies #[trigger] names(after, j) by {
                if j == i {
                    assert(after[p as int] == j);
                } else {
                    assert(names(before, j));
                    let k = choose|k: int| 0 <= k < before.len() && #[trigger] before[k] == j;
                    if k < p {
                        assert(after[k] == j);
                    } else {
                        assert(after[k + 1] == j);
                    }
                }
            }
        }
        i = i + 1;
    }
    order
}

/// Of two different shapes one is drawn before the other.
pub proof fn lemma_draws_before_total(items: Seq<MaskKey>, a: int, b: int)
    requires
        a != b,
    ensures
        draws_before(items, a, b) || draws_before(items, b, a),
{
}

/// Being drawn before is transitive.
pub proof fn lemma_draws_before_transitive(items: Seq<MaskKey>, a: int, b: int, c: int)
    requires
        draws_before(items, a, b),
        draws_before(items, b, c),
    ensures
        draws_before(items, a, c),
{
}

/// No shape is drawn before itself, so a draw order names no index twice.
pub proof fn lemma_draw_order_distinct(items: Seq<MaskKey>, order: Seq<usize>, a: int, b: int)
    requires
        sorted_indices(items, order),
        0 <= a < order.len(),
        0 <= b < order.len(),
        order[a] == order[b],
    ensures
        a == b,
{
    if a < b {
        assert(draws_before(items, order[a] as int, order[b] as int));
    } else if b < a {
        assert(draws_before(items, order[b] as int, order[a] as int));
    }
}

/// Two draw orders of the same shapes agree up to position `k`.
pub proof fn lemma_draw_orders_agree(items: Seq<MaskKey>, a: Seq<usize>, b: Seq<usize>, k: int)
    requires
        is_draw_order(items, a),
        is_draw_order(items, b),
        0 <= k < items.len(),
    ensures
        forall|i: int| 0 <= i <= k ==> a[i] == b[i],
    decreases k,
{
    if k > 0 {
        lemma_draw_orders_agree(items, a, b, k - 1);
    }
    if a[k] != b[k] {
        assert(names(b, a[k] as int));
        let j = choose|j: int| 0 <= j < b.len() && #[trigger] b[j] == a[k] as int;
        assert(names(a, b[k] as int));
        let i = choose|i: int| 0 <= i < a.len() && #[trigger] a[i] == b[k] as int;
        if j < k {
            lemma_draw_order_distinct(items, a, j, k);
        }
        if i < k {
            lemma_draw_order_distinct(items, b, i, k);
        }
        assert(draws_before(items, a[k] as int, a[i] as int));
        assert(draws_before(items, b[k] as int, b[j] as int));
    }
}

/// The shapes of a view have one draw order and no other.
pub proof fn lemma_draw_order_unique(items: Seq<MaskKey>, a: Seq<usize>, b: Seq<usize>)
    requires
        is_draw_order(items, a),
        is_draw_order(items, b),
    ensures
        a == b,
{
    if items.len() > 0 {
        lemma_draw_orders_agree(items, a, b, items.len() - 1);
    }
    assert(a =~= b);
}

} // verus!
