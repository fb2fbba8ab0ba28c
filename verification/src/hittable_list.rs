//! The flat list of scene objects: its combined bounding box and the
//! nearest-hit selection over the objects' individual results.
//!
//! Each object's own intersection is floating-point work with the caller;
//! the list records which objects reported a bounding box and combines the
//! per-object hit parameters.

use vstd::prelude::*;

use crate::aabb::Aabb;
use crate::aabb::surround_spec;
use crate::ray::Coord;

verus! {

/// In a candidate list, `t` is no later than the hit `c` reports, if any.
pub open spec fn at_or_before(t: Coord, c: Option<Coord>) -> bool {
    match c {
        Some(u) => t <= u,
        None => true,
    }
}

/// In a candidate list, `t` is strictly earlier than the hit `c` reports,
/// if any.
pub open spec fn strictly_before(t: Coord, c: Option<Coord>) -> bool {
    match c {
        Some(u) => t < u,
        None => true,
    }
}

/// The fold the combined bounding box comes from: walk the reported boxes,
/// taking the first one as the start and folding the union over the rest;
/// objects without a box are skipped.
pub open spec fn fold_boxes(s: Seq<Option<Aabb>>, out: Aabb, first: bool) -> (Aabb, bool)
    decreases s.len(),
{
    if s.len() == 0 {
        (out, first)
    } else {
        match s[0] {
            Some(b) => fold_boxes(
                s.drop_first(),
                if first {
                    b
                } else {
                    surround_spec(out, b)
                },
                false,
            ),
            None => fold_boxes(s.drop_first(), out, first),
        }
    }
}

proof fn lemma_fold_grows(s: Seq<Option<Aabb>>, out: Aabb)
    ensures
        fold_boxes(s, out, false).0.contains_box(out),
    decreases s.len(),
{
    if s.len() > 0 {
        match s[0] {
            Some(b) => {
                lemma_fold_grows(s.drop_first(), surround_spec(out, b));
            },
            None => {
                lemma_fold_grows(s.drop_first(), out);
            },
        }
    }
}

/// Law: the fold behind the list's combined bounding box yields a box that
/// contains every box an object reported, so `bounding_box` covers the whole
/// list.
pub proof fn lemma_fold_contains_reported(
    s: Seq<Option<Aabb>>,
    out: Aabb,
    first: bool,
    i: int,
    b: Aabb,
)
    requires
        0 <= i < s.len(),
        s[i] == Some(b),
    ensures
        fold_boxes(s, out, first).0.contains_box(b),
    decreases s.len(),
{
    if i == 0 {
        let started = if first {
            b
        } else {
            surround_spec(out, b)
        };
        lemma_fold_grows(s.drop_first(), started);
    } else {
        match s[0] {
            Some(c) => {
                let started = if first {
                    c
                } else {
                    surround_spec(out, c)
                };
                lemma_fold_contains_reported(s.drop_first(), started, false, i - 1, b);
            },
            None => {
                lemma_fold_contains_reported(s.drop_first(), out, first, i - 1, b);
            },
        }
    }
}

/// The scene's object list, by what each object reported as its bounding
/// box: `None` for an object without one.
pub struct HittableList {
    objects: Vec<Option<Aabb>>,
}

impl HittableList {
    /// The reported boxes, in insertion order.
    pub closed spec fn objects_spec(self) -> Seq<Option<Aabb>> {
        self.objects@
    }

    pub fn new() -> (l: HittableList)
        ensures
            l.objects_spec() == Seq::<Option<Aabb>>::empty(),
    {
        HittableList { objects: Vec::new() }
    }

    /// Append one object, by the bounding box it reported.
    pub fn add(&mut self, object_box: Option<Aabb>)
        ensures
            final(self).objects_spec() == old(self).objects_spec().push(object_box),
    {
        self.objects.push(object_box);
    }

    pub fn len(&self) -> (n: usize)
        ensures
            n as int == self.objects_spec().len(),
    {
        self.objects.len()
    }

    /// The combined bounding box of the whole list: nothing for an empty
    /// list; otherwise the fold of the reported boxes, which starts from the
    /// zero placeholder box and so is the placeholder itself when no object
    /// reported a box.
    pub fn bounding_box(&self) -> (r: Option<Aabb>)
        ensures
            r == if self.objects_spec().len() == 0 {
                None::<Aabb>
            } else {
                Some(fold_boxes(self.objects_spec(), Aabb::blank_spec(), true).0)
            },
    {
        if self.objects.len() == 0 {
            return None;
        }
        let mut output_box = Aabb::blank();
        let mut first_box = true;
        let mut i: usize = 0;
        proof {
            assert(self.objects@.skip(0) =~= self.objects@);
        }
        while i < self.objects.len()
            invariant
                i <= self.objects@.len(),
                fold_boxes(self.objects@, Aabb::blank_spec(), true) == fold_boxes(
                    self.objects@.skip(i as int),
                    output_box,
                    first_box,
                ),
            decreases self.objects@.len() - i,
        {
            let ghost pre = self.objects@.skip(i as int);
            proof {
                assert(pre[0] == self.objects@[i as int]);
                assert(pre.drop_first() =~= self.objects@.skip(i as int + 1));
            }
            match self.objects[i] {
                Some(b) => {
                    if first_box {
                        output_box = b;
                    } else {
                        output_box = Aabb::surrounding_box(output_box, b);
                    }
                    first_box = false;
                },
                None => {},
            }
            i = i + 1;
        }
        proof {
            assert(self.objects@.skip(self.objects@.len() as int) =~= Seq::<
                Option<Aabb>,
            >::empty());
        }
        Some(output_box)
    }
}

/// The list's nearest-hit selection. Each object has already reported the
/// parameter of its own nearest hit inside the query interval, or nothing;
/// the list keeps the earliest object attaining the smallest parameter.
pub fn closest_hit(candidates: &Vec<Option<Coord>>) -> (r: Option<(usize, Coord)>)
    ensures
        r is None <==> (forall|j: int| 0 <= j < candidates@.len() ==> #[trigger] candidates@[j] is None),
        r matches Some((i, t)) ==> {
            &&& 0 <= (i as int) < candidates@.len()
            &&& candidates@[i as int] == Some(t)
            &&& forall|j: int|
                0 <= j < candidates@.len() ==> at_or_before(t, #[trigger] candidates@[j])
            &&& forall|j: int| 0 <= j < i as int ==> strictly_before(t, #[trigger] candidates@[j])
        },
{
    let mut best: Option<(usize, Coord)> = None;
    let mut j: usize = 0;
    while j < candidates.len()
        invariant
            j <= candidates@.len(),
            best is None ==> forall|m: int| 0 <= m < j as int ==> #[trigger] candidates@[m] is None,
            best matches Some((i, t)) ==> {
                &&& 0 <= (i as int) < j as int
                &&& candidates@[i as int] == Some(t)
                &&& forall|m: int|
                    0 <= m < j as int ==> at_or_before(t, #[trigger] candidates@[m])
                &&& forall|m: int|
                    0 <= m < i as int ==> strictly_before(t, #[trigger] candidates@[m])
            },
        decreases candidates@.len() - j,
    {
        match candidates[j] {
            Some(u) => {
                match best {
                    None => {
                        best = Some((j, u));
                    },
                    Some((_, t)) => {
                        if u < t {
                            best = Some((j, u));
                        }
                    },
                }
            },
            None => {},
        }
        j = j + 1;
    }
    best
}

} // verus!
