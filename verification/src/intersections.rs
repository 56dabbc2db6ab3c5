//! The points where a ray meets shapes: which one is seen, their order along
//! the ray, and which shapes the ray is inside of at each of them.
//!
//! A distance is the bit pattern of a double (see `distance`); a shape is
//! named by a number that is the same for equal shapes.
use vstd::prelude::*;
use vstd::seq_lib::{to_multiset_insert, to_multiset_build};
use crate::distance::{
    is_nan, ordinal, float_lt, float_ge, less_than, at_least, is_nan_bits, MAX_BITS, ZERO_BITS,
};

verus! {

/// A point where a ray meets a shape: how far along the ray, and which shape.
#[derive(Debug, PartialEq, Eq, Structural, Clone, Copy)]
pub struct Intersection {
    /// The bit pattern of the distance.
    pub distance: u64,
    pub object: usize,
}

impl Intersection {
    pub fn new(distance: u64, object: usize) -> (r: Intersection)
        ensures
            r.distance == distance,
            r.object == object,
    {
        Intersection { distance, object }
    }
}

/// A distance that a hit can have: at least zero and below the largest
/// finite double.
pub open spec fn can_be_hit(distance: u64) -> bool {
    float_ge(distance, ZERO_BITS) && float_lt(distance, MAX_BITS)
}

/// The intersection at `i` is the hit of `s`: the nearest of those that can
/// be hit, the first of them where several are as near.
pub open spec fn is_hit(s: Seq<Intersection>, i: int) -> bool {
    &&& 0 <= i < s.len()
    &&& can_be_hit(s[i].distance)
    &&& forall|j: int|
        0 <= j < s.len() && can_be_hit(#[trigger] s[j].distance) ==> ordinal(s[i].distance)
            <= ordinal(s[j].distance)
    &&& forall|j: int|
        0 <= j < i && can_be_hit(#[trigger] s[j].distance) ==> ordinal(s[i].distance) < ordinal(
            s[j].distance,
        )
}

/// No intersection of `s` can be hit.
pub open spec fn no_hit(s: Seq<Intersection>) -> bool {
    forall|j: int| 0 <= j < s.len() ==> !can_be_hit(#[trigger] s[j].distance)
}

/// The intersections of a ray with shapes.
#[derive(Debug, Clone)]
pub struct Intersections {
    pub intersections: Vec<Intersection>,
}

impl View for Intersections {
    type V = Seq<Intersection>;

    open spec fn view(&self) -> Seq<Intersection> {
        self.intersections@
    }
}

impl Intersections {
    pub fn new() -> (r: Intersections)
        ensures
            r@ == Seq::<Intersection>::empty(),
    {
        Intersections { intersections: Vec::new() }
    }

    pub fn from_vec(intersections: Vec<Intersection>) -> (r: Intersections)
        ensures
            r@ == intersections@,
    {
        Intersections { intersections }
    }

    pub fn len(&self) -> (r: usize)
        ensures
            r == self@.len(),
    {
        self.intersections.len()
    }

    pub fn is_empty(&self) -> (r: bool)
        ensures
            r == (self@.len() == 0),
    {
        self.len() == 0
    }

    /// The intersection at `index`.
    pub fn get(&self, index: usize) -> (r: Intersection)
        requires
            index < self@.len(),
        ensures
            r == self@[index as int],
    {
        self.intersections[index]
    }

    /// Appends `item`.
    pub fn add(&mut self, item: Intersection)
        ensures
            final(self)@ == old(self)@.push(item),
    {
        self.intersections.push(item);
    }

    /// Appends the intersections of `other`, in their order.
    pub fn add_all(&mut self, other: Intersections)
        ensures
            final(self)@ == old(self)@ + other@,
    {
        let mut other = other;
        self.intersections.append(&mut other.intersections);
    }

    /// `None` where there are no intersections, else the intersections.
    pub fn into_option(self) -> (r: Option<Intersections>)
        ensures
            match r {
                Some(v) => v@ == self@ && self@.len() > 0,
                None => self@.len() == 0,
            },
    {
        if self.is_empty() {
            None
        } else {
            Some(self)
        }
    }

    /// The position of the hit: the nearest intersection at a distance of at
    /// least zero, the first of them where several are as near; `None` where
    /// no intersection is at such a distance.
    pub fn hit_index(&self) -> (r: Option<usize>)
        ensures
            match r {
                Some(i) => is_hit(self@, i as int),
                None => no_hit(self@),
            },
    {
        let s = &self.intersections;
        let mut found: Option<usize> = None;
        let mut hit_distance: u64 = MAX_BITS;
        let mut k: usize = 0;
        while k < s.len()
            invariant
                k <= s.len(),
                match found {
                    Some(i) => {
                        &&& i < k
                        &&& hit_distance == s@[i as int].distance
                        &&& can_be_hit(s@[i as int].distance)
                        &&& forall|j: int|
                            0 <= j < k && can_be_hit(#[trigger] s@[j].distance) ==> ordinal(
                                s@[i as int].distance,
                            ) <= ordinal(s@[j].distance)
                        &&& forall|j: int|
                            0 <= j < i && can_be_hit(#[trigger] s@[j].distance) ==> ordinal(
                                s@[i as int].distance,
                            ) < ordinal(s@[j].distance)
                    },
                    None => hit_distance == MAX_BITS && forall|j: int|
                        0 <= j < k ==> !can_be_hit(#[trigger] s@[j].distance),
                },
            decreases s.len() - k,
        {
            let d = s[k].distance;
            if less_than(d, hit_distance) && at_least(d, ZERO_BITS) {
                found = Some(k);
                hit_distance = d;
            }
            k = k + 1;
        }
        found
    }

    /// The hit (see `hit_index`).
    pub fn hit(&self) -> (r: Option<&Intersection>)
        ensures
            match r {
                Some(x) => exists|i: int| is_hit(self@, i) && *x == self@[i],
                None => no_hit(self@),
            },
    {
        match self.hit_index() {
            Some(i) => Some(&self.intersections[i]),
            None => None,
        }
    }
}


/// The intersections of `s` in the order of their distances.
pub open spec fn sorted(s: Seq<Intersection>) -> bool {
    forall|i: int, j: int|
        0 <= i < j < s.len() ==> ordinal(#[trigger] s[i].distance) <= ordinal(
            #[trigger] s[j].distance,
        )
}

/// Where `x` goes into `s`: before the first intersection that is farther.
pub open spec fn insertion_point(s: Seq<Intersection>, x: Intersection) -> int
    decreases s.len(),
{
    if s.len() == 0 {
        0
    } else if ordinal(s[0].distance) > ordinal(x.distance) {
        0
    } else {
        1 + insertion_point(s.drop_first(), x)
    }
}

/// `s` with `x` put after every intersection that is as near as it or nearer.
pub open spec fn insert_in_order(s: Seq<Intersection>, x: Intersection) -> Seq<Intersection> {
    s.insert(insertion_point(s, x), x)
}

/// `s` ordered by distance, intersections as near as each other in the order
/// they had in `s`.
pub open spec fn sorted_by_distance(s: Seq<Intersection>) -> Seq<Intersection>
    decreases s.len(),
{
    if s.len() == 0 {
        s
    } else {
        insert_in_order(sorted_by_distance(s.drop_last()), s.last())
    }
}

/// The intersections of `s` at the distance whose ordinal is `k`, in order.
pub open spec fn at_ordinal(s: Seq<Intersection>, k: int) -> Seq<Intersection> {
    s.filter(|y: Intersection| ordinal(y.distance) == k)
}

/// The insertion point is the first position of an intersection farther
/// than `x`, or the end.
proof fn lemma_insertion_point(s: Seq<Intersection>, x: Intersection, j: int)
    requires
        0 <= j <= s.len(),
        forall|k: int| 0 <= k < j ==> ordinal(#[trigger] s[k].distance) <= ordinal(x.distance),
        j == s.len() || ordinal(s[j].distance) > ordinal(x.distance),
    ensures
        insertion_point(s, x) == j,
    decreases j,
{
    if j > 0 {
        assert forall|k: int| 0 <= k < j - 1 implies ordinal(
            #[trigger] s.drop_first()[k].distance,
        ) <= ordinal(x.distance) by {
            assert(s.drop_first()[k] == s[k + 1]);
        }
        lemma_insertion_point(s.drop_first(), x, j - 1);
    }
}

/// The insertion point splits `s` into the nearer-or-equal and the farther.
proof fn lemma_insertion_point_splits(s: Seq<Intersection>, x: Intersection)
    ensures
        0 <= insertion_point(s, x) <= s.len(),
        forall|k: int|
            0 <= k < insertion_point(s, x) ==> ordinal(#[trigger] s[k].distance) <= ordinal(
                x.distance,
            ),
        insertion_point(s, x) < s.len() ==> ordinal(s[insertion_point(s, x)].distance) > ordinal(
            x.distance,
        ),
    decreases s.len(),
{
    if s.len() > 0 && ordinal(s[0].distance) <= ordinal(x.distance) {
        lemma_insertion_point_splits(s.drop_first(), x);
        assert forall|k: int|
            0 <= k < insertion_point(s, x) implies ordinal(#[trigger] s[k].distance) <= ordinal(
            x.distance,
        ) by {
            if k > 0 {
                assert(s[k] == s.drop_first()[k - 1]);
            }
        }
    }
}

proof fn lemma_insert_keeps_sorted(s: Seq<Intersection>, x: Intersection)
    requires
        sorted(s),
    ensures
        sorted(insert_in_order(s, x)),
        insert_in_order(s, x).to_multiset() == s.to_multiset().insert(x),
        forall|k: int| #[trigger] at_ordinal(insert_in_order(s, x), k) == if k == ordinal(x.distance) {
            at_ordinal(s, k).push(x)
        } else {
            at_ordinal(s, k)
        },
{
    let p = insertion_point(s, x);
    lemma_insertion_point_splits(s, x);
    let r = insert_in_order(s, x);
    assert forall|i: int, j: int| 0 <= i < j < r.len() implies ordinal(
        #[trigger] r[i].distance,
    ) <= ordinal(#[trigger] r[j].distance) by {
        if j < p {
            assert(r[i] == s[i] && r[j] == s[j]);
        } else if j == p {
            assert(r[i] == s[i]);
        } else if i < p {
            assert(r[i] == s[i] && r[j] == s[j - 1]);
            assert(ordinal(s[p].distance) <= ordinal(s[j - 1].distance));
        } else if i == p {
            assert(r[j] == s[j - 1]);
            assert(ordinal(s[p].distance) <= ordinal(s[j - 1].distance));
        } else {
            assert(r[i] == s[i - 1] && r[j] == s[j - 1]);
        }
    }
    to_multiset_insert(s, p, x);
    let front = s.subrange(0, p);
    let back = s.subrange(p, s.len() as int);
    assert(s =~= front + back);
    assert(r =~= front + seq![x] + back);
    assert forall|k: int| #[trigger] at_ordinal(r, k) == if k == ordinal(x.distance) {
        at_ordinal(s, k).push(x)
    } else {
        at_ordinal(s, k)
    } by {
        let pred = |y: Intersection| ordinal(y.distance) == k;
        Seq::filter_distributes_over_add(front, back, pred);
        Seq::filter_distributes_over_add(front + seq![x], back, pred);
        Seq::filter_distributes_over_add(front, seq![x], pred);
        assert(seq![x].filter(pred) == if pred(x) {
            seq![x]
        } else {
            Seq::<Intersection>::empty()
        }) by {
            let e = Seq::<Intersection>::empty();
            e.filter_lemma(pred);
            e.lemma_filter_push(x, pred);
            assert(e.push(x) =~= seq![x]);
            assert(e.filter(pred) =~= e);
            assert(e.push(x) == e.filter(pred).push(x));
        }
        if k == ordinal(x.distance) {
            assert forall|i: int| 0 <= i < back.len() implies !pred(back[i]) by {
                assert(back[i] == s[p + i]);
                assert(ordinal(s[p].distance) <= ordinal(s[p + i].distance));
            }
            back.lemma_all_neg_filter_empty(pred);
            assert(at_ordinal(r, k) =~= at_ordinal(s, k).push(x));
        } else {
            assert(at_ordinal(r, k) =~= at_ordinal(s, k));
        }
    }
}

/// Ordering by distance gives a sequence in the order of distances.
pub proof fn lemma_sorted_by_distance_is_sorted(s: Seq<Intersection>)
    ensures
        sorted(sorted_by_distance(s)),
    decreases s.len(),
{
    if s.len() > 0 {
        lemma_sorted_by_distance_is_sorted(s.drop_last());
        lemma_insert_keeps_sorted(sorted_by_distance(s.drop_last()), s.last());
    }
}

/// Ordering by distance keeps every intersection, as often as it occurs.
pub proof fn lemma_sorted_by_distance_is_permutation(s: Seq<Intersection>)
    ensures
        sorted_by_distance(s).to_multiset() == s.to_multiset(),
    decreases s.len(),
{
    if s.len() > 0 {
        lemma_sorted_by_distance_is_sorted(s.drop_last());
        lemma_sorted_by_distance_is_permutation(s.drop_last());
        lemma_insert_keeps_sorted(sorted_by_distance(s.drop_last()), s.last());
        to_multiset_build(s.drop_last(), s.last());
        assert(s.drop_last().push(s.last()) =~= s);
    }
}

/// Ordering by distance keeps intersections at equal distances in the order
/// they had.
pub proof fn lemma_sorted_by_distance_is_stable(s: Seq<Intersection>, k: int)
    ensures
        at_ordinal(sorted_by_distance(s), k) == at_ordinal(s, k),
    decreases s.len(),
{
    if s.len() > 0 {
        lemma_sorted_by_distance_is_sorted(s.drop_last());
        lemma_sorted_by_distance_is_stable(s.drop_last(), k);
        lemma_insert_keeps_sorted(sorted_by_distance(s.drop_last()), s.last());
        let pred = |y: Intersection| ordinal(y.distance) == k;
        s.drop_last().lemma_filter_push(s.last(), pred);
        assert(s.drop_last().push(s.last()) =~= s);
    }
}

/// Once the intersections are ordered by distance, the hit is the first of
/// them that can be hit.
pub proof fn lemma_hit_of_ordered_is_first(s: Seq<Intersection>, i: int)
    requires
        0 <= i < sorted_by_distance(s).len(),
    ensures
        is_hit(sorted_by_distance(s), i) <==> {
            let r = sorted_by_distance(s);
            &&& can_be_hit(r[i].distance)
            &&& forall|j: int| 0 <= j < i ==> !can_be_hit(#[trigger] r[j].distance)
        },
{
    let r = sorted_by_distance(s);
    lemma_sorted_by_distance_is_sorted(s);
    if can_be_hit(r[i].distance) && forall|j: int| 0 <= j < i ==> !can_be_hit(
        #[trigger] r[j].distance,
    ) {
        assert forall|j: int| 0 <= j < r.len() && can_be_hit(#[trigger] r[j].distance) implies ordinal(
            r[i].distance,
        ) <= ordinal(r[j].distance) by {
            if j < i {
                assert(!can_be_hit(r[j].distance));
            }
        }
    }
    if is_hit(r, i) {
        assert forall|j: int| 0 <= j < i implies !can_be_hit(#[trigger] r[j].distance) by {
            if can_be_hit(r[j].distance) {
                assert(ordinal(r[i].distance) < ordinal(r[j].distance));
                assert(ordinal(r[j].distance) <= ordinal(r[i].distance));
            }
        }
    }
}

/// Every intersection of the ordered sequence is one of the input.
proof fn lemma_sorted_member(s: Seq<Intersection>, j: int)
    requires
        0 <= j < sorted_by_distance(s).len(),
    ensures
        exists|k: int| 0 <= k < s.len() && s[k] == sorted_by_distance(s)[j],
{
    let r = sorted_by_distance(s);
    lemma_sorted_by_distance_is_permutation(s);
    vstd::seq_lib::to_multiset_contains(r, r[j]);
    vstd::seq_lib::to_multiset_contains(s, r[j]);
    assert(r.contains(r[j]));
}

impl Intersections {
    /// Orders the intersections by distance; those at equal distances keep
    /// their order. A distance that is NaN cannot be ordered.
    pub fn sort_by_distance(&mut self)
        requires
            old(self)@.len() < 2 || forall|i: int|
                0 <= i < old(self)@.len() ==> !is_nan(#[trigger] old(self)@[i].distance),
        ensures
            final(self)@ == sorted_by_distance(old(self)@),
    {
        let n = self.intersections.len();
        let ghost input = self@;
        let mut out: Vec<Intersection> = Vec::new();
        let mut i: usize = 0;
        while i < n
            invariant
                n == self.intersections.len(),
                input == self@,
                input.len() < 2 || forall|k: int|
                    0 <= k < input.len() ==> !is_nan(#[trigger] input[k].distance),
                i <= n,
                out@ == sorted_by_distance(input.take(i as int)),
                out@.len() == i,
            decreases n - i,
        {
            let x = self.intersections[i];
            proof {
                lemma_sorted_by_distance_is_permutation(input.take(i as int));
                vstd::seq_lib::to_multiset_len(input.take(i as int));
                vstd::seq_lib::to_multiset_len(out@);
            }
            let mut j: usize = 0;
            while j < out.len() && !less_than(x.distance, out[j].distance)
                invariant
                    j <= out.len(),
                    out@.len() == i,
                    i < n,
                    n == input.len(),
                    input.len() < 2 || forall|k: int|
                        0 <= k < input.len() ==> !is_nan(#[trigger] input[k].distance),
                    x == input[i as int],
                    out@ == sorted_by_distance(input.take(i as int)),
                    forall|k: int|
                        0 <= k < j ==> ordinal(#[trigger] out@[k].distance) <= ordinal(
                            x.distance,
                        ),
                decreases out.len() - j,
            {
                proof {
                    assert(input.len() >= 2);
                    lemma_sorted_member(input.take(i as int), j as int);
                }
                j = j + 1;
            }
            proof {
                if j < out.len() {
                    assert(float_lt(x.distance, out@[j as int].distance));
                }
                lemma_insertion_point(out@, x, j as int);
                assert(input.take(i + 1).drop_last() =~= input.take(i as int));
                assert(input.take(i + 1).last() == x);
            }
            out.insert(j, x);
            i = i + 1;
        }
        proof {
            assert(input.take(n as int) =~= input);
        }
        self.intersections = out;
    }
}


/// The shapes of the intersections, in order.
pub open spec fn objects_of(s: Seq<Intersection>) -> Seq<usize> {
    s.map_values(|x: Intersection| x.object)
}

/// `containers` without `object`.
pub open spec fn without(containers: Seq<usize>, object: usize) -> Seq<usize>
    decreases containers.len(),
{
    if containers.len() == 0 {
        containers
    } else if containers.last() == object {
        without(containers.drop_last(), object)
    } else {
        without(containers.drop_last(), object).push(containers.last())
    }
}

/// The shapes that a ray is inside of after it meets `object`: it leaves
/// `object` where it was inside of it, and enters it otherwise.
pub open spec fn toggle(containers: Seq<usize>, object: usize) -> Seq<usize> {
    if containers.contains(object) {
        without(containers, object)
    } else {
        containers.push(object)
    }
}

/// The shapes that a ray is inside of after it has met the shapes of
/// `objects`, in the order it entered them.
pub open spec fn containers_after(objects: Seq<usize>) -> Seq<usize>
    decreases objects.len(),
{
    if objects.len() == 0 {
        Seq::empty()
    } else {
        toggle(containers_after(objects.drop_last()), objects.last())
    }
}

/// The shape entered last, `None` where there is none.
pub open spec fn innermost(containers: Seq<usize>) -> Option<usize> {
    if containers.len() == 0 {
        None
    } else {
        Some(containers.last())
    }
}

/// How often `object` occurs in `objects`.
pub open spec fn occurrences(objects: Seq<usize>, object: usize) -> nat
    decreases objects.len(),
{
    if objects.len() == 0 {
        0
    } else if objects.last() == object {
        occurrences(objects.drop_last(), object) + 1
    } else {
        occurrences(objects.drop_last(), object)
    }
}

proof fn lemma_push_contains(c: Seq<usize>, x: usize, y: usize)
    ensures
        c.push(x).contains(y) <==> c.contains(y) || x == y,
{
    if c.push(x).contains(y) {
        let k = choose|k: int| 0 <= k < c.len() + 1 && c.push(x)[k] == y;
        if k < c.len() {
            assert(c[k] == y);
        }
    }
    if c.contains(y) {
        let k = choose|k: int| 0 <= k < c.len() && c[k] == y;
        assert(c.push(x)[k] == y);
    }
    if x == y {
        assert(c.push(x)[c.len() as int] == y);
    }
}

proof fn lemma_without(c: Seq<usize>, object: usize, x: usize)
    ensures
        without(c, object).contains(x) <==> c.contains(x) && x != object,
        c.no_duplicates() ==> without(c, object).no_duplicates(),
    decreases c.len(),
{
    if c.len() > 0 {
        let rest = c.drop_last();
        assert(rest.push(c.last()) =~= c);
        lemma_without(rest, object, x);
        lemma_push_contains(rest, c.last(), x);
        if c.last() != object {
            lemma_push_contains(without(rest, object), c.last(), x);
            if c.no_duplicates() {
                lemma_without(rest, object, c.last());
                assert(!rest.contains(c.last())) by {
                    if rest.contains(c.last()) {
                        let k = choose|k: int| 0 <= k < rest.len() && rest[k] == c.last();
                        assert(c[k] == c[c.len() - 1]);
                    }
                }
                let w = without(rest, object);
                assert forall|i: int, j: int|
                    0 <= i < w.push(c.last()).len() && 0 <= j < w.push(c.last()).len() && i
                        != j implies w.push(c.last())[i] != w.push(c.last())[j] by {
                    if i == w.len() {
                        assert(w.contains(w[j]));
                    } else if j == w.len() {
                        assert(w.contains(w[i]));
                    }
                }
            }
        }
    }
}

/// A ray is inside of a shape exactly when it has met it an odd number of
/// times, and it is inside of no shape twice.
pub proof fn lemma_containers_parity(objects: Seq<usize>, object: usize)
    ensures
        containers_after(objects).contains(object) <==> occurrences(objects, object) % 2 == 1,
        containers_after(objects).no_duplicates(),
    decreases objects.len(),
{
    if objects.len() > 0 {
        let rest = objects.drop_last();
        let last = objects.last();
        let c = containers_after(rest);
        lemma_containers_parity(rest, object);
        lemma_containers_parity(rest, last);
        lemma_without(c, last, object);
        lemma_push_contains(c, last, object);
        if !c.contains(last) {
            assert forall|i: int, j: int|
                0 <= i < c.push(last).len() && 0 <= j < c.push(last).len() && i
                    != j implies c.push(last)[i] != c.push(last)[j] by {
                if i == c.len() {
                    assert(c.contains(c[j]));
                } else if j == c.len() {
                    assert(c.contains(c[i]));
                }
            }
        }
    }
}


/// `containers` holds `object`.
fn holds(containers: &Vec<usize>, object: usize) -> (r: bool)
    ensures
        r == containers@.contains(object),
{
    let mut i: usize = 0;
    while i < containers.len()
        invariant
            i <= containers.len(),
            forall|k: int| 0 <= k < i ==> containers@[k] != object,
        decreases containers.len() - i,
    {
        if containers[i] == object {
            assert(containers@[i as int] == object);
            return true;
        }
        i = i + 1;
    }
    false
}

/// The shapes that a ray is inside of after it meets `object` (see `toggle`).
fn toggled(containers: Vec<usize>, object: usize) -> (r: Vec<usize>)
    ensures
        r@ == toggle(containers@, object),
{
    if holds(&containers, object) {
        let mut out: Vec<usize> = Vec::new();
        let mut i: usize = 0;
        while i < containers.len()
            invariant
                i <= containers.len(),
                out@ == without(containers@.take(i as int), object),
            decreases containers.len() - i,
        {
            assert(containers@.take(i + 1).drop_last() =~= containers@.take(i as int));
            if containers[i] != object {
                out.push(containers[i]);
            }
            i = i + 1;
        }
        assert(containers@.take(containers.len() as int) =~= containers@);
        out
    } else {
        let mut out = containers;
        out.push(object);
        out
    }
}

impl Intersections {
    /// For the intersection at `hit`, the shape that the ray is inside of
    /// before it and the one after it (the last entered, `None` for none):
    /// they give the refractive indices on the two sides of the surface.
    /// `(None, None)` where `hit` is past the intersections.
    pub fn refraction_boundary(&self, hit: usize) -> (r: (Option<usize>, Option<usize>))
        ensures
            hit < self@.len() ==> r == (
                innermost(containers_after(objects_of(self@).take(hit as int))),
                innermost(containers_after(objects_of(self@).take(hit + 1))),
            ),
            hit >= self@.len() ==> r == (None::<usize>, None::<usize>),
    {
        let s = &self.intersections;
        if hit >= s.len() {
            return (None, None);
        }
        let ghost objects = objects_of(self@);
        let mut containers: Vec<usize> = Vec::new();
        let mut k: usize = 0;
        while k < hit
            invariant
                k <= hit < s.len(),
                objects == objects_of(s@),
                containers@ == containers_after(objects.take(k as int)),
            decreases hit - k,
        {
            assert(objects.take(k + 1).drop_last() =~= objects.take(k as int));
            containers = toggled(containers, s[k].object);
            k = k + 1;
        }
        let before = if containers.len() == 0 {
            None
        } else {
            Some(containers[containers.len() - 1])
        };
        assert(objects.take(hit + 1).drop_last() =~= objects.take(hit as int));
        containers = toggled(containers, s[hit].object);
        let after = if containers.len() == 0 {
            None
        } else {
            Some(containers[containers.len() - 1])
        };
        (before, after)
    }
}

/// `a` and `b` hold the same intersections: as many, and each of `a` is one of `b`.
pub open spec fn same_intersections(a: Seq<Intersection>, b: Seq<Intersection>) -> bool {
    &&& a.len() == b.len()
    &&& forall|i: int| 0 <= i < a.len() ==> b.contains(#[trigger] a[i])
}

impl Intersections {
    /// `x` is one of the intersections.
    pub fn contains(&self, x: Intersection) -> (r: bool)
        ensures
            r == self@.contains(x),
    {
        let mut k: usize = 0;
        while k < self.intersections.len()
            invariant
                k <= self@.len(),
                forall|m: int| 0 <= m < k ==> self@[m] != x,
            decreases self@.len() - k,
        {
            if self.intersections[k] == x {
                return true;
            }
            k = k + 1;
        }
        false
    }
}

/// Two lists of intersections are equal where they are as long and each
/// intersection of the first is one of the second. Two intersections are the
/// same where their distances have the same bit pattern and their shapes the
/// same number: distances are not compared within a tolerance here.
impl PartialEq for Intersections {
    fn eq(&self, other: &Intersections) -> (r: bool) {
        if self.intersections.len() != other.intersections.len() {
            return false;
        }
        let mut i: usize = 0;
        while i < self.intersections.len()
            invariant
                i <= self@.len(),
                self@.len() == other@.len(),
                forall|j: int| 0 <= j < i ==> other@.contains(#[trigger] self@[j]),
            decreases self@.len() - i,
        {
            if !other.contains(self.intersections[i]) {
                return false;
            }
            i = i + 1;
        }
        true
    }
}

impl vstd::std_specs::cmp::PartialEqSpecImpl for Intersections {
    open spec fn obeys_eq_spec() -> bool {
        true
    }

    open spec fn eq_spec(&self, other: &Intersections) -> bool {
        same_intersections(self@, other@)
    }
}

} // verus!
