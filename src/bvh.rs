use vstd::prelude::*;

use crate::utils::{lemma_swap_keeps_multiset, random_index};

verus! {

broadcast use vstd::seq_lib::group_to_multiset_ensures, vstd::multiset::group_multiset_axioms;

/// A primitive as the hierarchy builder sees it: its handle and the minimum
/// corner of its bounding box, one order-preserving integer key per axis.
#[derive(Clone, Copy, Debug, PartialEq, Eq, Structural)]
pub struct BoxKey {
    pub id: usize,
    pub x: i64,
    pub y: i64,
    pub z: i64,
}

impl BoxKey {
    pub open spec fn key_spec(self, axis: int) -> int {
        if axis == 0 {
            self.x as int
        } else if axis == 1 {
            self.y as int
        } else {
            self.z as int
        }
    }

    /// The minimum-corner key on `axis` (0, 1 or 2 for x, y, z).
    pub fn key(&self, axis: usize) -> (r: i64)
        requires
            axis < 3,
        ensures
            r as int == self.key_spec(axis as int),
    {
        if axis == 0 {
            self.x
        } else if axis == 1 {
            self.y
        } else {
            self.z
        }
    }
}

/// A child of a hierarchy node: a primitive handle or an inner node.
pub enum BvhChild {
    Leaf(usize),
    Node(Box<BvhNode>),
}

/// An inner node of the bounding volume hierarchy.
pub struct BvhNode {
    pub left: BvhChild,
    pub right: BvhChild,
}

/// `s` is ordered by the key of `axis`.
pub open spec fn sorted_on(s: Seq<BoxKey>, axis: int) -> bool {
    forall|i: int, j: int| 0 <= i <= j < s.len() ==> s[i].key_spec(axis) <= s[j].key_spec(axis)
}

/// No key on `axis` before position `mid` exceeds one from `mid` on.
pub open spec fn split_on(s: Seq<BoxKey>, mid: int, axis: int) -> bool {
    forall|i: int, j: int|
        0 <= i < mid <= j < s.len() ==> #[trigger] s[i].key_spec(axis) <= #[trigger] s[j].key_spec(
            axis,
        )
}

/// `c` is the subtree built over the primitives `s`, in that order.
pub open spec fn child_spans(c: BvhChild, s: Seq<BoxKey>) -> bool
    decreases s.len(), 1int,
{
    match c {
        BvhChild::Leaf(id) => s.len() == 1 && s[0].id == id,
        BvhChild::Node(n) => node_spans(*n, s),
    }
}

/// `n` is the hierarchy over the primitives `s`, in that order: one primitive
/// fills both children, two take one child each, and more are split at the
/// middle of `s` into halves separated on some axis, each half a subtree.
pub open spec fn node_spans(n: BvhNode, s: Seq<BoxKey>) -> bool
    decreases s.len(), 0int,
{
    if s.len() == 1 {
        n.left == BvhChild::Leaf(s[0].id) && n.right == BvhChild::Leaf(s[0].id)
    } else if s.len() == 2 {
        n.left == BvhChild::Leaf(s[0].id) && n.right == BvhChild::Leaf(s[1].id)
    } else if s.len() >= 3 {
        let mid = (s.len() / 2) as int;
        &&& exists|axis: int| 0 <= axis < 3 && split_on(s, mid, axis)
        &&& child_spans(n.left, s.subrange(0, mid))
        &&& child_spans(n.right, s.subrange(mid, s.len() as int))
    } else {
        false
    }
}

/// The primitive handles at the leaves under `c`.
pub open spec fn child_ids(c: BvhChild) -> Set<usize>
    decreases c,
{
    match c {
        BvhChild::Leaf(id) => set![id],
        BvhChild::Node(n) => child_ids(n.left).union(child_ids(n.right)),
    }
}

/// The primitive handles at the leaves under `n`.
pub open spec fn node_ids(n: BvhNode) -> Set<usize> {
    child_ids(n.left).union(child_ids(n.right))
}

/// The handles of the primitives `s`.
pub open spec fn id_set(s: Seq<BoxKey>) -> Set<usize> {
    Set::new(|id: usize| exists|i: int| 0 <= i < s.len() && s[i].id == id)
}

proof fn lemma_id_set_split(s: Seq<BoxKey>, mid: int)
    requires
        0 <= mid <= s.len(),
    ensures
        id_set(s) == id_set(s.subrange(0, mid)).union(id_set(s.subrange(mid, s.len() as int))),
{
    let l = s.subrange(0, mid);
    let r = s.subrange(mid, s.len() as int);
    assert forall|id: usize| id_set(s).contains(id) implies #[trigger] id_set(l).union(
        id_set(r),
    ).contains(id) by {
        let i = choose|i: int| 0 <= i < s.len() && s[i].id == id;
        if i < mid {
            assert(l[i].id == id);
        } else {
            assert(r[i - mid].id == id);
        }
    }
    assert forall|id: usize| #[trigger] id_set(l).union(id_set(r)).contains(id) implies id_set(
        s,
    ).contains(id) by {
        if id_set(l).contains(id) {
            let i = choose|i: int| 0 <= i < l.len() && l[i].id == id;
            assert(s[i].id == id);
        } else {
            let i = choose|i: int| 0 <= i < r.len() && r[i].id == id;
            assert(s[i + mid].id == id);
        }
    }
    assert(id_set(s) =~= id_set(l).union(id_set(r)));
}

proof fn lemma_child_ids(c: BvhChild, s: Seq<BoxKey>)
    requires
        child_spans(c, s),
    ensures
        child_ids(c) == id_set(s),
    decreases s.len(), 1int,
{
    match c {
        BvhChild::Leaf(id) => {
            assert(id_set(s) =~= set![id]);
        },
        BvhChild::Node(n) => {
            lemma_node_ids(*n, s);
        },
    }
}

proof fn lemma_node_ids(n: BvhNode, s: Seq<BoxKey>)
    requires
        node_spans(n, s),
    ensures
        node_ids(n) == id_set(s),
    decreases s.len(), 0int,
{
    if s.len() == 1 {
        assert(id_set(s) =~= set![s[0].id]);
        assert(node_ids(n) =~= set![s[0].id]);
    } else if s.len() == 2 {
        assert(id_set(s) =~= set![s[0].id, s[1].id]);
        assert(node_ids(n) =~= set![s[0].id, s[1].id]);
    } else {
        let mid = (s.len() / 2) as int;
        lemma_child_ids(n.left, s.subrange(0, mid));
        lemma_child_ids(n.right, s.subrange(mid, s.len() as int));
        lemma_id_set_split(s, mid);
    }
}

/// A hierarchy built over a reordering of some primitives holds exactly those
/// primitives at its leaves: a query over it can meet the same primitives as
/// a scan of the whole list.
pub proof fn lemma_bvh_holds_every_primitive(
    before: Seq<BoxKey>,
    after: Seq<BoxKey>,
    node: BvhNode,
)
    requires
        after.to_multiset() == before.to_multiset(),
        node_spans(node, after),
    ensures
        node_ids(node) == id_set(before),
{
    lemma_node_ids(node, after);
    assert forall|id: usize| #[trigger] id_set(after).contains(id) <==> id_set(before).contains(id) by {
        if id_set(after).contains(id) {
            let i = choose|i: int| 0 <= i < after.len() && after[i].id == id;
            assert(after.contains(after[i]));
            assert(after.to_multiset().count(after[i]) > 0);
            assert(before.contains(after[i]));
        }
        if id_set(before).contains(id) {
            let i = choose|i: int| 0 <= i < before.len() && before[i].id == id;
            assert(before.contains(before[i]));
            assert(before.to_multiset().count(before[i]) > 0);
            assert(after.contains(before[i]));
        }
    }
    assert(id_set(after) =~= id_set(before));
}

/// Sorts `v` by the key of `axis`, keeping the order of equal keys.
fn sort_on_axis(v: &mut Vec<BoxKey>, axis: usize)
    requires
        axis < 3,
    ensures
        final(v)@.len() == old(v)@.len(),
        final(v)@.to_multiset() == old(v)@.to_multiset(),
        sorted_on(final(v)@, axis as int),
{
    let n = v.len();
    if n == 0 {
        return ;
    }
    let mut i: usize = 1;
    while i < n
        invariant
            axis < 3,
            n == v.len(),
            1 <= i <= n,
            v@.to_multiset() == old(v)@.to_multiset(),
            forall|a: int, b: int|
                0 <= a <= b < i ==> v@[a].key_spec(axis as int) <= v@[b].key_spec(axis as int),
        decreases n - i,
    {
        let mut j: usize = i;
        while j > 0 && v[j - 1].key(axis) > v[j].key(axis)
            invariant
                axis < 3,
                n == v.len(),
                i < n,
                j <= i,
                v@.to_multiset() == old(v)@.to_multiset(),
                forall|a: int, b: int|
                    0 <= a < b <= i && a != j && b != j ==> v@[a].key_spec(axis as int) <= v@[b].key_spec(
                        axis as int,
                    ),
                forall|b: int| j < b <= i ==> v@[j as int].key_spec(axis as int) <= v@[b].key_spec(axis as int),
            decreases j,
        {
            let lower = v[j - 1];
            let upper = v[j];
            let ghost before = v@;
            v.set(j - 1, upper);
            v.set(j, lower);
            proof {
                lemma_swap_keeps_multiset(before, j - 1, j as int);
            }
            j = j - 1;
        }
        assert forall|a: int, b: int| 0 <= a <= b <= i implies v@[a].key_spec(axis as int)
            <= v@[b].key_spec(axis as int) by {
            if a < b && b == j && a < j - 1 {
                assert(v@[a].key_spec(axis as int) <= v@[j - 1].key_spec(axis as int));
            }
        }
        i = i + 1;
    }
}

/// Builds the hierarchy over `objects`, returned with the order of the
/// primitives that it was built over.
fn build(objects: Vec<BoxKey>) -> (res: (BvhNode, Vec<BoxKey>))
    requires
        objects.len() > 0,
    ensures
        res.1@.len() == objects@.len(),
        res.1@.to_multiset() == objects@.to_multiset(),
        node_spans(res.0, res.1@),
    decreases objects.len(),
{
    let axis = random_index(2);
    let n = objects.len();
    if n == 1 {
        let id = objects[0].id;
        (BvhNode { left: BvhChild::Leaf(id), right: BvhChild::Leaf(id) }, objects)
    } else if n == 2 {
        let node = BvhNode { left: BvhChild::Leaf(objects[0].id), right: BvhChild::Leaf(objects[1].id) };
        (node, objects)
    } else {
        let mut sorted = objects;
        sort_on_axis(&mut sorted, axis);
        let ghost whole = sorted@;
        let mid = n / 2;
        let upper = sorted.split_off(mid);
        let ghost lower_part = sorted@;
        let ghost upper_part = upper@;
        let (left, mut order) = build(sorted);
        let (right, mut right_order) = build(upper);
        let ghost left_order = order@;
        let ghost right_order_s = right_order@;
        order.append(&mut right_order);
        proof {
            let s = order@;
            assert(whole =~= lower_part + upper_part);
            vstd::seq_lib::lemma_multiset_commutative(lower_part, upper_part);
            vstd::seq_lib::lemma_multiset_commutative(left_order, right_order_s);
            assert(s =~= left_order + right_order_s);
            assert(s.subrange(0, mid as int) =~= left_order);
            assert(s.subrange(mid as int, s.len() as int) =~= right_order_s);
            assert forall|i: int, j: int|
                0 <= i < mid <= j < s.len() implies #[trigger] s[i].key_spec(axis as int)
                <= #[trigger] s[j].key_spec(axis as int) by {
                assert(left_order[i] == s[i]);
                assert(left_order.contains(s[i]));
                assert(left_order.to_multiset().count(s[i]) > 0);
                assert(lower_part.to_multiset().count(s[i]) > 0);
                assert(lower_part.contains(s[i]));
                let i0 = choose|k: int| 0 <= k < lower_part.len() && lower_part[k] == s[i];
                assert(right_order_s[j - mid] == s[j]);
                assert(right_order_s.contains(s[j]));
                assert(right_order_s.to_multiset().count(s[j]) > 0);
                assert(upper_part.to_multiset().count(s[j]) > 0);
                assert(upper_part.contains(s[j]));
                let j0 = choose|k: int| 0 <= k < upper_part.len() && upper_part[k] == s[j];
                assert(whole[i0] == s[i]);
                assert(whole[mid + j0] == s[j]);
            }
            assert(split_on(s, mid as int, axis as int));
        }
        (BvhNode { left: BvhChild::Node(Box::new(left)), right: BvhChild::Node(Box::new(right)) }, order)
    }
}

impl BvhNode {
    /// Builds the hierarchy over `objects` (at least one): each node splits its
    /// primitives at the middle after ordering them on a randomly chosen axis.
    /// `objects` is left in the order that the hierarchy was built over.
    pub fn new(objects: &mut Vec<BoxKey>) -> (node: BvhNode)
        requires
            old(objects).len() > 0,
        ensures
            final(objects)@.len() == old(objects)@.len(),
            final(objects)@.to_multiset() == old(objects)@.to_multiset(),
            node_spans(node, final(objects)@),
    {
        let mut taken: Vec<BoxKey> = Vec::new();
        std::mem::swap(objects, &mut taken);
        let (node, mut order) = build(taken);
        std::mem::swap(objects, &mut order);
        node
    }
}

} // verus!
