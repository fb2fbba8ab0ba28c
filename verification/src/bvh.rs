//! Construction of the bounding-volume hierarchy.
//!
//! The tree is built over primitive references: the caller's index for each
//! primitive together with the bounding box it reported. A primitive without
//! a finite box must not reach the builder; the caller rejects such scenes
//! before encoding. Splitting picks a random axis, orders the primitives by
//! the minimum corner of their boxes along it, and recurses on the halves;
//! a single primitive is kept as both children of its node.

use vstd::prelude::*;

use vstd::multiset::Multiset;

use crate::aabb::Aabb;
use crate::aabb::box_compare;
use crate::aabb::surround_spec;
use crate::ray::Coord;
use crate::rng::rand_int;

verus! {

/// A scene primitive as the hierarchy sees it: the caller's index for it and
/// the bounding box it reported.
#[derive(Clone, Copy, PartialEq, Eq, Structural, Debug)]
pub struct Primitive {
    pub id: usize,
    pub bbox: Aabb,
}

/// The sort key along `axis`: the minimum corner of the primitive's box.
pub open spec fn axis_key(p: Primitive, axis: int) -> Coord {
    p.bbox.min.axis_spec(axis)
}

/// Non-decreasing keys along `axis`.
pub open spec fn sorted_by_axis(s: Seq<Primitive>, axis: int) -> bool {
    forall|i: int, j: int|
        0 <= i < j < s.len() ==> axis_key(#[trigger] s[i], axis) <= axis_key(#[trigger] s[j], axis)
}

/// A node of the hierarchy: a primitive, or two subtrees under their common
/// bounding box.
pub enum BvhNode {
    Leaf(Primitive),
    Node { left: Box<BvhNode>, right: Box<BvhNode>, bbox: Aabb },
}

impl BvhNode {
    /// The box this node stands under.
    pub open spec fn bbox_spec(self) -> Aabb {
        match self {
            BvhNode::Leaf(p) => p.bbox,
            BvhNode::Node { left, right, bbox } => bbox,
        }
    }

    /// Whether `p` sits at some leaf of this tree.
    pub open spec fn has_leaf(self, p: Primitive) -> bool
        decreases self,
    {
        match self {
            BvhNode::Leaf(q) => q == p,
            BvhNode::Node { left, right, bbox } => (*left).has_leaf(p) || (*right).has_leaf(p),
        }
    }

    /// Every inner box is exactly the union of its children's boxes.
    pub open spec fn wf(self) -> bool
        decreases self,
    {
        match self {
            BvhNode::Leaf(q) => true,
            BvhNode::Node { left, right, bbox } => {
                &&& bbox == surround_spec((*left).bbox_spec(), (*right).bbox_spec())
                &&& (*left).wf()
                &&& (*right).wf()
            },
        }
    }

    fn bounding(&self) -> (b: Aabb)
        ensures
            b == self.bbox_spec(),
    {
        match self {
            BvhNode::Leaf(p) => p.bbox,
            BvhNode::Node { left, right, bbox } => *bbox,
        }
    }

    /// A node of the hierarchy always has a box.
    pub fn get_bounding_box(&self) -> (r: Option<Aabb>)
        ensures
            r == Some(self.bbox_spec()),
    {
        Some(self.bounding())
    }

    /// Build the hierarchy over a non-empty batch of primitives: pick a
    /// random split axis, order by it, recurse on the halves. The tree holds
    /// exactly the primitives handed in, and every inner box is the union of
    /// the boxes below it.
    pub fn build(objects: Vec<Primitive>) -> (t: BvhNode)
        requires
            objects@.len() >= 1,
        ensures
            t.wf(),
            forall|p: Primitive| #[trigger] t.has_leaf(p) <==> objects@.contains(p),
        decreases objects@.len(),
    {
        let axis = rand_int(0, 2);
        if objects.len() == 1 {
            let p = *&objects[0];
            let bb = Aabb::surrounding_box(p.bbox, p.bbox);
            let t = BvhNode::Node {
                left: Box::new(BvhNode::Leaf(p)),
                right: Box::new(BvhNode::Leaf(p)),
                bbox: bb,
            };
            proof {
                assert(t.wf()) by {
                    reveal_with_fuel(BvhNode::wf, 3);
                }
                assert forall|q: Primitive| #[trigger] t.has_leaf(q) <==> objects@.contains(
                    q,
                ) by {
                    reveal_with_fuel(BvhNode::has_leaf, 3);
                    if objects@.contains(q) {
                        let i = choose|i: int| 0 <= i < objects@.len() && objects@[i] == q;
                        assert(i == 0);
                    }
                    if t.has_leaf(q) {
                        assert(objects@[0] == q);
                    }
                }
            }
            t
        } else if objects.len() == 2 {
            let a = *&objects[0];
            let b = *&objects[1];
            let (first, second) = if box_compare(&a.bbox, &b.bbox, axis) {
                (a, b)
            } else {
                (b, a)
            };
            let bb = Aabb::surrounding_box(first.bbox, second.bbox);
            let t = BvhNode::Node {
                left: Box::new(BvhNode::Leaf(first)),
                right: Box::new(BvhNode::Leaf(second)),
                bbox: bb,
            };
            proof {
                assert(t.wf()) by {
                    reveal_with_fuel(BvhNode::wf, 3);
                }
                assert forall|q: Primitive| #[trigger] t.has_leaf(q) <==> objects@.contains(
                    q,
                ) by {
                    reveal_with_fuel(BvhNode::has_leaf, 3);
                    if objects@.contains(q) {
                        let i = choose|i: int| 0 <= i < objects@.len() && objects@[i] == q;
                        assert(i == 0 || i == 1);
                    }
                    if t.has_leaf(q) {
                        assert(objects@[0] == q || objects@[1] == q);
                    }
                }
            }
            t
        } else {
            let sorted = sort_by_axis(objects, axis);
            let mid = sorted.len() / 2;
            let mut left_vec: Vec<Primitive> = Vec::new();
            let mut i: usize = 0;
            while i < mid
                invariant
                    i <= mid,
                    mid < sorted@.len(),
                    left_vec@ == sorted@.subrange(0, i as int),
                decreases mid - i,
            {
                left_vec.push(*&sorted[i]);
                proof {
                    assert(left_vec@ =~= sorted@.subrange(0, i + 1));
                }
                i = i + 1;
            }
            let mut right_vec: Vec<Primitive> = Vec::new();
            let mut j: usize = mid;
            while j < sorted.len()
                invariant
                    mid <= j <= sorted@.len(),
                    right_vec@ == sorted@.subrange(mid as int, j as int),
                decreases sorted@.len() - j,
            {
                right_vec.push(*&sorted[j]);
                proof {
                    assert(right_vec@ =~= sorted@.subrange(mid as int, j + 1));
                }
                j = j + 1;
            }
            proof {
                assert(sorted@ =~= left_vec@ + right_vec@);
            }
            let left = BvhNode::build(left_vec);
            let right = BvhNode::build(right_vec);
            let bb = Aabb::surrounding_box(left.bounding(), right.bounding());
            let t = BvhNode::Node { left: Box::new(left), right: Box::new(right), bbox: bb };
            proof {
                assert(t.wf()) by {
                    reveal_with_fuel(BvhNode::wf, 2);
                }
                assert forall|q: Primitive| #[trigger] t.has_leaf(q) <==> objects@.contains(
                    q,
                ) by {
                    reveal_with_fuel(BvhNode::has_leaf, 2);
                    assert(t.has_leaf(q) <==> (left.has_leaf(q) || right.has_leaf(q)));
                    if t.has_leaf(q) {
                        if left.has_leaf(q) {
                            let i3 = choose|i3: int|
                                0 <= i3 < left_vec@.len() && left_vec@[i3] == q;
                            assert(sorted@[i3] == q);
                        } else {
                            let i4 = choose|i4: int|
                                0 <= i4 < right_vec@.len() && right_vec@[i4] == q;
                            assert(sorted@[mid + i4] == q);
                        }
                        assert(sorted@.contains(q));
                    }
                    if objects@.contains(q) {
                        assert(sorted@.contains(q));
                        let i2 = choose|i2: int| 0 <= i2 < sorted@.len() && sorted@[i2] == q;
                        if i2 < mid {
                            assert(left_vec@[i2] == q);
                            assert(left_vec@.contains(q));
                        } else {
                            assert(right_vec@[i2 - mid] == q);
                            assert(right_vec@.contains(q));
                        }
                    }
                }
            }
            t
        }
    }
}

/// Law: in a well-formed hierarchy, the box of the root contains the box of
/// every primitive below it.
pub proof fn lemma_wf_tree_contains_leaves(t: BvhNode, p: Primitive)
    requires
        t.wf(),
        t.has_leaf(p),
    ensures
        t.bbox_spec().contains_box(p.bbox),
    decreases t,
{
    match t {
        BvhNode::Leaf(q) => {},
        BvhNode::Node { left, right, bbox } => {
            if (*left).has_leaf(p) {
                lemma_wf_tree_contains_leaves(*left, p);
            } else {
                lemma_wf_tree_contains_leaves(*right, p);
            }
        },
    }
}

/// The smallest index whose key along `axis` is minimal: every earlier
/// element has a strictly larger key.
fn index_of_min(v: &Vec<Primitive>, axis: usize) -> (k: usize)
    requires
        v@.len() > 0,
        axis < 3,
    ensures
        k < v@.len(),
        forall|j: int|
            0 <= j < v@.len() ==> axis_key(v@[k as int], axis as int) <= axis_key(
                #[trigger] v@[j],
                axis as int,
            ),
        forall|j: int|
            0 <= j < k as int ==> axis_key(v@[k as int], axis as int) < axis_key(
                #[trigger] v@[j],
                axis as int,
            ),
{
    let mut k: usize = 0;
    let mut i: usize = 1;
    while i < v.len()
        invariant
            axis < 3,
            k < i <= v@.len(),
            forall|j: int|
                0 <= j < i ==> axis_key(v@[k as int], axis as int) <= axis_key(
                    #[trigger] v@[j],
                    axis as int,
                ),
            forall|j: int|
                0 <= j < k as int ==> axis_key(v@[k as int], axis as int) < axis_key(
                    #[trigger] v@[j],
                    axis as int,
                ),
        decreases v@.len() - i,
    {
        if box_compare(&v[i].bbox, &v[k].bbox, axis) {
            k = i;
        }
        i = i + 1;
    }
    k
}

/// Order the primitives by their key along `axis` by extracting, round
/// after round, the earliest primitive with the minimal key; primitives
/// with equal keys therefore keep their relative order. The result is a
/// rearrangement: same length, same multiset of primitives.
fn sort_by_axis(v: Vec<Primitive>, axis: usize) -> (out: Vec<Primitive>)
    requires
        axis < 3,
    ensures
        sorted_by_axis(out@, axis as int),
        out@.to_multiset() == v@.to_multiset(),
        out@.len() == v@.len(),
        forall|p: Primitive| out@.contains(p) <==> v@.contains(p),
{
    broadcast use vstd::seq_lib::group_to_multiset_ensures;

    let ghost orig = v@.to_multiset();
    let mut rest = v;
    let mut out: Vec<Primitive> = Vec::new();
    while rest.len() > 0
        invariant
            axis < 3,
            out@.to_multiset().add(rest@.to_multiset()) == orig,
            out@.len() + rest@.len() == orig.len(),
            sorted_by_axis(out@, axis as int),
            forall|i: int, j: int|
                0 <= i < out@.len() && 0 <= j < rest@.len() ==> axis_key(
                    #[trigger] out@[i],
                    axis as int,
                ) <= axis_key(#[trigger] rest@[j], axis as int),
        decreases rest@.len(),
    {
        broadcast use vstd::seq_lib::group_to_multiset_ensures;

        let k = index_of_min(&rest, axis);
        let ghost rest_before = rest@;
        let ghost out_before = out@;
        let x = rest.remove(k);
        out.push(x);
        proof {
            assert(rest@ == rest_before.remove(k as int));
            assert(rest_before.to_multiset().contains(x));
            assert(out@.to_multiset() =~= out_before.to_multiset().insert(x));
            assert(rest@.to_multiset() =~= rest_before.to_multiset().remove(x));
            assert(out@.to_multiset().add(rest@.to_multiset()) =~= out_before.to_multiset().add(
                rest_before.to_multiset(),
            ));
            assert forall|i: int, j: int|
                0 <= i < out@.len() && 0 <= j < rest@.len() implies axis_key(
                #[trigger] out@[i],
                axis as int,
            ) <= axis_key(#[trigger] rest@[j], axis as int) by {
                assert(rest@[j] == if j < k { rest_before[j] } else { rest_before[j + 1] });
                if i < out_before.len() {
                    assert(out@[i] == out_before[i]);
                } else {
                    assert(out@[i] == x);
                }
            }
            assert forall|i: int, j: int| 0 <= i < j < out@.len() implies axis_key(
                #[trigger] out@[i],
                axis as int,
            ) <= axis_key(#[trigger] out@[j], axis as int) by {
                if j == out@.len() - 1 {
                    assert(out@[j] == x);
                    assert(rest_before[k as int] == x);
                }
            }
        }
    }
    proof {
        assert(rest@.to_multiset() =~= Multiset::empty());
        assert(out@.to_multiset() =~= orig);
        assert forall|p: Primitive| out@.contains(p) <==> v@.contains(p) by {
            assert(out@.contains(p) <==> out@.to_multiset().count(p) > 0);
            assert(v@.contains(p) <==> v@.to_multiset().count(p) > 0);
        }
    }
    out
}

} // verus!
