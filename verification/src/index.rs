//! A verified reference realization of the spatial-index capability: a flat
//! store of elements that answers envelope queries by exact containment
//! checks. The benchmark drivers and the synthesis engine are verified
//! against this index; the external tree indexes are reached through the
//! trusted wrappers of the tree benchmark modules.

use vstd::prelude::*;

use crate::envelope::{Envelope, Position};

verus! {

/// An indexed record: a position plus an opaque payload. The payload shape
/// only matters for memory-footprint experiments, so a single generic type
/// stands in for records of every size.
#[derive(Clone, Copy, Debug)]
pub struct Element<P> {
    pub pos: Position,
    pub payload: P,
}

/// Number of elements of `s` whose position lies inside `env`.
pub open spec fn count_in_seq<P>(s: Seq<Element<P>>, env: Envelope) -> nat
    decreases s.len(),
{
    if s.len() == 0 {
        0
    } else {
        count_in_seq(s.drop_last(), env) + if env.spec_contains(s.last().pos) {
            1nat
        } else {
            0nat
        }
    }
}

/// The flat point index. Elements are stored in insertion order.
pub struct PointIndex<P> {
    items: Vec<Element<P>>,
}

impl<P> PointIndex<P> {
    /// The mathematical contents of the index, in insertion order.
    pub closed spec fn view(&self) -> Seq<Element<P>> {
        self.items@
    }

    /// Number of elements whose position lies inside `env`.
    pub open spec fn spec_count_in(&self, env: Envelope) -> nat {
        count_in_seq(self.view(), env)
    }

    /// True when every stored position lies inside `region`.
    pub open spec fn within(&self, region: Envelope) -> bool {
        forall|i: int| 0 <= i < self.view().len() ==> region.spec_contains(
            #[trigger] self.view()[i].pos,
        )
    }

    /// Builds an index owning the given elements, stored verbatim.
    pub fn build(items: Vec<Element<P>>) -> (r: PointIndex<P>)
        ensures
            r.view() == items@,
    {
        PointIndex { items }
    }

    /// Total number of indexed elements.
    pub fn count(&self) -> (r: usize)
        ensures
            r == self.view().len(),
    {
        self.items.len()
    }

    /// Number of elements inside `env`, by an exact scan.
    pub fn query_count(&self, env: &Envelope) -> (r: usize)
        ensures
            r == self.spec_count_in(*env),
    {
        let mut n: usize = 0;
        let mut i: usize = 0;
        while i < self.items.len()
            invariant
                0 <= i <= self.items.len(),
                n == count_in_seq(self.items@.take(i as int), *env),
                n <= i,
            decreases self.items.len() - i,
        {
            proof {
                assert(self.items@.take(i + 1).drop_last() =~= self.items@.take(i as int));
                assert(self.items@.take(i + 1).last() == self.items@[i as int]);
            }
            if env.contains(&self.items[i].pos) {
                n = n + 1;
            }
            i = i + 1;
        }
        proof {
            assert(self.items@.take(self.items@.len() as int) =~= self.items@);
        }
        n
    }

    /// The elements inside `env`, in insertion order.
    pub fn query(&self, env: &Envelope) -> (r: Vec<Element<P>>) where P: Copy
        ensures
            r@ == self.view().filter(|e: Element<P>| env.spec_contains(e.pos)),
    {
        let ghost pred = |e: Element<P>| env.spec_contains(e.pos);
        let mut out: Vec<Element<P>> = Vec::new();
        let mut i: usize = 0;
        while i < self.items.len()
            invariant
                0 <= i <= self.items.len(),
                out@ == self.items@.take(i as int).filter(pred),
                pred == (|e: Element<P>| env.spec_contains(e.pos)),
            decreases self.items.len() - i,
        {
            proof {
                reveal(Seq::filter);
                assert(self.items@.take(i + 1).drop_last() =~= self.items@.take(i as int));
                assert(self.items@.take(i + 1).last() == self.items@[i as int]);
            }
            if env.contains(&self.items[i].pos) {
                out.push(self.items[i]);
            }
            i = i + 1;
        }
        proof {
            assert(self.items@.take(self.items@.len() as int) =~= self.items@);
        }
        out
    }

    /// The tight bounding envelope of the stored elements: it contains every
    /// position, and each of its four edges is attained by some element.
    pub fn extent(&self) -> (r: Envelope)
        requires
            self.view().len() > 0,
        ensures
            forall|i: int| 0 <= i < self.view().len() ==> r.spec_contains(
                #[trigger] self.view()[i].pos,
            ),
            exists|i: int| 0 <= i < self.view().len() && #[trigger] self.view()[i].pos.x == r.minx,
            exists|i: int| 0 <= i < self.view().len() && #[trigger] self.view()[i].pos.x == r.maxx,
            exists|i: int| 0 <= i < self.view().len() && #[trigger] self.view()[i].pos.y == r.miny,
            exists|i: int| 0 <= i < self.view().len() && #[trigger] self.view()[i].pos.y == r.maxy,
    {
        let first = self.items[0].pos;
        let mut r = Envelope { minx: first.x, maxx: first.x, miny: first.y, maxy: first.y };
        let mut i: usize = 1;
        while i < self.items.len()
            invariant
                1 <= i <= self.items.len(),
                forall|j: int| 0 <= j < i ==> r.spec_contains(#[trigger] self.items@[j].pos),
                exists|j: int| 0 <= j < i && #[trigger] self.items@[j].pos.x == r.minx,
                exists|j: int| 0 <= j < i && #[trigger] self.items@[j].pos.x == r.maxx,
                exists|j: int| 0 <= j < i && #[trigger] self.items@[j].pos.y == r.miny,
                exists|j: int| 0 <= j < i && #[trigger] self.items@[j].pos.y == r.maxy,
            decreases self.items.len() - i,
        {
            let p = self.items[i].pos;
            if p.x < r.minx {
                r.minx = p.x;
            }
            if p.x > r.maxx {
                r.maxx = p.x;
            }
            if p.y < r.miny {
                r.miny = p.y;
            }
            if p.y > r.maxy {
                r.maxy = p.y;
            }
            i = i + 1;
        }
        r
    }

    /// Heap footprint of the stored elements, in bytes; `None` when the
    /// product does not fit a `usize`.
    pub fn footprint_bytes(&self) -> (r: Option<usize>)
        ensures
            match r {
                Some(n) => n == self.view().len() * vstd::layout::size_of::<Element<P>>(),
                None => self.view().len() * vstd::layout::size_of::<Element<P>>() > usize::MAX,
            },
    {
        self.items.len().checked_mul(core::mem::size_of::<Element<P>>())
    }
}

/// When an envelope contains every element of `s`, it counts all of them.
pub proof fn lemma_count_in_all<P>(s: Seq<Element<P>>, env: Envelope)
    requires
        forall|i: int| 0 <= i < s.len() ==> env.spec_contains(#[trigger] s[i].pos),
    ensures
        count_in_seq(s, env) == s.len(),
    decreases s.len(),
{
    if s.len() > 0 {
        lemma_count_in_all(s.drop_last(), env);
    }
}

/// When no element of `s` lies inside `env`, the count is zero; in
/// particular a count above zero names a contained element.
pub proof fn lemma_count_in_nonzero<P>(s: Seq<Element<P>>, env: Envelope)
    requires
        count_in_seq(s, env) > 0,
    ensures
        exists|i: int| 0 <= i < s.len() && env.spec_contains(#[trigger] s[i].pos),
    decreases s.len(),
{
    if s.len() > 0 {
        if env.spec_contains(s.last().pos) {
            assert(s[s.len() - 1] == s.last());
        } else {
            lemma_count_in_nonzero(s.drop_last(), env);
            let i = choose|i: int|
                0 <= i < s.drop_last().len() && env.spec_contains(#[trigger] s.drop_last()[i].pos);
            assert(s[i] == s.drop_last()[i]);
        }
    }
}

/// A full-extent query is complete: when an envelope contains every
/// element, filtering by containment keeps the whole sequence.
pub proof fn lemma_filter_all<P>(s: Seq<Element<P>>, env: Envelope)
    requires
        forall|i: int| 0 <= i < s.len() ==> env.spec_contains(#[trigger] s[i].pos),
    ensures
        s.filter(|e: Element<P>| env.spec_contains(e.pos)) =~= s,
    decreases s.len(),
{
    reveal(Seq::filter);
    if s.len() > 0 {
        lemma_filter_all(s.drop_last(), env);
        assert(forall|i: int| 0 <= i < s.drop_last().len() ==> s.drop_last()[i] == s[i]);
    }
}

/// The count of contained elements equals the length of the filtered
/// sequence a query returns.
pub proof fn lemma_count_is_filter_len<P>(s: Seq<Element<P>>, env: Envelope)
    ensures
        count_in_seq(s, env) == s.filter(|e: Element<P>| env.spec_contains(e.pos)).len(),
    decreases s.len(),
{
    reveal(Seq::filter);
    if s.len() > 0 {
        lemma_count_is_filter_len(s.drop_last(), env);
    }
}

/// A count of at least two names two distinct contained elements.
pub proof fn lemma_count_in_two_witnesses<P>(s: Seq<Element<P>>, env: Envelope)
    requires
        count_in_seq(s, env) >= 2,
    ensures
        exists|i: int, j: int|
            0 <= i < j < s.len() && env.spec_contains(#[trigger] s[i].pos) && env.spec_contains(
                #[trigger] s[j].pos,
            ),
    decreases s.len(),
{
    if env.spec_contains(s.last().pos) {
        lemma_count_in_nonzero(s.drop_last(), env);
        let i = choose|i: int|
            0 <= i < s.drop_last().len() && env.spec_contains(#[trigger] s.drop_last()[i].pos);
        assert(s[i] == s.drop_last()[i]);
        assert(s[s.len() - 1] == s.last());
        assert(0 <= i < s.len() - 1 < s.len() && env.spec_contains(s[i].pos) && env.spec_contains(
            s[s.len() - 1].pos,
        ));
    } else {
        lemma_count_in_two_witnesses(s.drop_last(), env);
        let (i, j) = choose|i: int, j: int|
            0 <= i < j < s.drop_last().len() && env.spec_contains(
                #[trigger] s.drop_last()[i].pos,
            ) && env.spec_contains(#[trigger] s.drop_last()[j].pos);
        assert(s[i] == s.drop_last()[i]);
        assert(s[j] == s.drop_last()[j]);
        assert(0 <= i < j < s.len() && env.spec_contains(s[i].pos) && env.spec_contains(s[j].pos));
    }
}

} // verus!
