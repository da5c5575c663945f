//! The search for an element by scrolling: fling, wait, look again, and stop
//! when the element shows, time runs out, the content stops moving, or the
//! scrolls are used up. The device exchanges happen outside; this state
//! machine decides each step.

use vstd::prelude::*;
use vstd::multiset::Multiset;
use crate::protocol::pb::UiElement;
use crate::server::tools::strings_view;
use crate::text::{chars_eq, chars_of, seqs_of};

verus! {

/// Scrolls made at most when none is given.
pub const DEFAULT_MAX_SCROLLS: i32 = 20;

/// Time allowed when none is given, in milliseconds.
pub const DEFAULT_SCROLL_TIMEOUT_MS: i32 = 30000;

/// How long to wait for the UI to settle after a fling, in milliseconds.
pub const SETTLE_TIMEOUT_MS: i32 = 300;

/// How a search ended.
#[derive(Debug, Clone, Copy, PartialEq, Eq, Structural)]
pub enum ScrollOutcome {
    /// The element is on screen after `scrolls` flings.
    Found { scrolls: i32 },
    /// Time ran out before the next fling.
    Timeout { scrolls: i32 },
    /// A fling left the visible elements as they were.
    EndOfScroll { scrolls: i32 },
    /// All `max` flings were made.
    MaxScrolls { scrolls: i32, max: i32 },
}

/// The next thing to do.
#[derive(Debug, Clone, Copy, PartialEq, Eq, Structural)]
pub enum ScrollStep {
    /// Fling, wait for the UI to settle, look for the element again, then
    /// read the tree.
    Fling,
    /// Stop with this outcome.
    Finish(ScrollOutcome),
}

/// The IDs of the visible elements, as a multiset (their order does not
/// matter).
pub open spec fn ids_multiset(ids: Seq<String>) -> Multiset<Seq<char>> {
    strings_view(ids).to_multiset()
}

/// State of a search.
pub struct ScrollSearch {
    max_scrolls: i32,
    timeout_ms: i32,
    scrolls: i32,
    previous_ids: Option<Vec<String>>,
}

/// A search seen as values: the limits, the flings made, and the visible IDs
/// after the last fling whose tree was read.
pub struct ScrollView {
    pub max_scrolls: i32,
    pub timeout_ms: i32,
    pub scrolls: i32,
    pub previous_ids: Option<Multiset<Seq<char>>>,
}

impl View for ScrollSearch {
    type V = ScrollView;

    closed spec fn view(&self) -> ScrollView {
        ScrollView {
            max_scrolls: self.max_scrolls,
            timeout_ms: self.timeout_ms,
            scrolls: self.scrolls,
            previous_ids: match self.previous_ids {
                Some(v) => Some(ids_multiset(v@)),
                None => None,
            },
        }
    }
}

impl ScrollSearch {
    /// Flings are never more than allowed, nor negative.
    #[verifier::type_invariant]
    spec fn counted(self) -> bool {
        0 <= self.scrolls && (self.max_scrolls >= 0 ==> self.scrolls <= self.max_scrolls) && (
        self.max_scrolls < 0 ==> self.scrolls == 0)
    }

    /// A search with the given limits (defaults for those not given), before
    /// any fling.
    pub fn new(max_scrolls: Option<i32>, timeout_ms: Option<i32>) -> (r: ScrollSearch)
        ensures
            r@.max_scrolls == match max_scrolls {
                Some(m) => m,
                None => DEFAULT_MAX_SCROLLS,
            },
            r@.timeout_ms == match timeout_ms {
                Some(t) => t,
                None => DEFAULT_SCROLL_TIMEOUT_MS,
            },
            r@.scrolls == 0,
            r@.previous_ids is None,
    {
        ScrollSearch {
            max_scrolls: match max_scrolls {
                Some(m) => m,
                None => DEFAULT_MAX_SCROLLS,
            },
            timeout_ms: match timeout_ms {
                Some(t) => t,
                None => DEFAULT_SCROLL_TIMEOUT_MS,
            },
            scrolls: 0,
            previous_ids: None,
        }
    }

    /// Number of flings made so far: never negative, and never more than the
    /// limit.
    pub fn scrolls(&self) -> (n: i32)
        ensures
            n == self@.scrolls,
            0 <= n,
            n <= self@.max_scrolls || n == 0,
    {
        proof {
            use_type_invariant(self);
        }
        self.scrolls
    }

    /// The step after the element was looked for: found ends the search.
    pub fn after_find(&self, found: bool) -> (r: Option<ScrollOutcome>)
        ensures
            found ==> r == Some(ScrollOutcome::Found { scrolls: self@.scrolls }),
            !found ==> r is None,
    {
        if found {
            Some(ScrollOutcome::Found { scrolls: self.scrolls })
        } else {
            None
        }
    }

    /// The next step, `elapsed_ms` into the search: finish when all flings
    /// are made or time has run out, else fling (counting it).
    pub fn next_step(&mut self, elapsed_ms: i64) -> (r: ScrollStep)
        ensures
            old(self)@.scrolls >= old(self)@.max_scrolls ==> (r == ScrollStep::Finish(
                ScrollOutcome::MaxScrolls { scrolls: old(self)@.scrolls, max: old(self)@.max_scrolls },
            ) && final(self)@ == old(self)@),
            old(self)@.scrolls < old(self)@.max_scrolls && elapsed_ms > old(self)@.timeout_ms ==> (r
                == ScrollStep::Finish(ScrollOutcome::Timeout { scrolls: old(self)@.scrolls })
                && final(self)@ == old(self)@),
            old(self)@.scrolls < old(self)@.max_scrolls && elapsed_ms <= old(self)@.timeout_ms ==> (r
                == ScrollStep::Fling && final(self)@ == (ScrollView {
                scrolls: (old(self)@.scrolls + 1) as i32,
                ..old(self)@
            })),
    {
        proof {
            use_type_invariant(&*self);
        }
        if self.scrolls >= self.max_scrolls {
            return ScrollStep::Finish(
                ScrollOutcome::MaxScrolls { scrolls: self.scrolls, max: self.max_scrolls },
            );
        }
        if elapsed_ms > self.timeout_ms as i64 {
            return ScrollStep::Finish(ScrollOutcome::Timeout { scrolls: self.scrolls });
        }
        self.scrolls = self.scrolls + 1;
        ScrollStep::Fling
    }

    /// The step after the tree was read (`None` when it could not be): the
    /// content has stopped moving when the visible IDs are those seen after
    /// the previous fling; otherwise they are remembered.
    pub fn after_tree(&mut self, visible_ids: Option<Vec<String>>) -> (r: Option<ScrollOutcome>)
        ensures
            visible_ids is None ==> (r is None && final(self)@ == old(self)@),
            visible_ids matches Some(ids) ==> {
                if old(self)@.previous_ids == Some(ids_multiset(ids@)) {
                    r == Some(ScrollOutcome::EndOfScroll { scrolls: old(self)@.scrolls })
                } else {
                    r is None && final(self)@ == (ScrollView {
                        previous_ids: Some(ids_multiset(ids@)),
                        ..old(self)@
                    })
                }
            },
    {
        proof {
            use_type_invariant(&*self);
        }
        match visible_ids {
            None => None,
            Some(ids) => {
                let same = match &self.previous_ids {
                    Some(prev) => same_ids(prev, &ids),
                    None => false,
                };
                if same {
                    Some(ScrollOutcome::EndOfScroll { scrolls: self.scrolls })
                } else {
                    self.previous_ids = Some(ids);
                    None
                }
            },
        }
    }
}

/// The multiset of a flat sequence of character sequences.
proof fn lemma_count_push(s: Seq<Seq<char>>, x: Seq<char>)
    ensures
        s.push(x).to_multiset().count(x) == s.to_multiset().count(x) + 1,
{
    broadcast use vstd::seq_lib::group_to_multiset_ensures;
    broadcast use vstd::multiset::group_multiset_axioms;

}

/// Whether two lists of IDs hold the same IDs the same number of times.
pub fn same_ids(a: &Vec<String>, b: &Vec<String>) -> (r: bool)
    ensures
        r == (ids_multiset(a@) == ids_multiset(b@)),
{
    broadcast use vstd::seq_lib::group_to_multiset_ensures;
    broadcast use vstd::multiset::group_multiset_axioms;

    let ghost av = strings_view(a@);
    let ghost bv = strings_view(b@);
    let mut rest: Vec<Vec<char>> = Vec::new();
    let mut k: usize = 0;
    while k < b.len()
        invariant
            k <= b@.len(),
            bv == strings_view(b@),
            seqs_of(rest@) == bv.take(k as int),
        decreases b@.len() - k,
    {
        let c = chars_of(b[k].as_str());
        assert(bv[k as int] == c@);
        let ghost before = rest@;
        rest.push(c);
        assert(seqs_of(rest@) =~= seqs_of(before).push(c@));
        assert(bv.take(k + 1) =~= bv.take(k as int).push(c@));
        k = k + 1;
        assert(seqs_of(rest@) =~= bv.take(k as int));
    }
    assert(bv.take(b@.len() as int) == bv);
    assert(av.take(0).to_multiset() =~= Multiset::empty());
    let mut i: usize = 0;
    while i < a.len()
        invariant
            i <= a@.len(),
            av == strings_view(a@),
            bv == strings_view(b@),
            av.take(i as int).to_multiset().add(seqs_of(rest@).to_multiset()) == bv.to_multiset(),
        decreases a@.len() - i,
    {
        let x = chars_of(a[i].as_str());
        let ghost rv = seqs_of(rest@);
        assert(av[i as int] == x@);
        assert(av.take(i + 1) == av.take(i as int).push(x@));
        let mut j: usize = 0;
        let mut hit = false;
        while j < rest.len()
            invariant_except_break
                !hit,
            invariant
                j <= rest@.len(),
                rv == seqs_of(rest@),
                forall|t: int| 0 <= t < j ==> rv[t] != x@,
            ensures
                j <= rest@.len(),
                rv == seqs_of(rest@),
                hit ==> j < rest@.len() && rv[j as int] == x@,
                !hit ==> forall|t: int| 0 <= t < rest@.len() ==> rv[t] != x@,
            decreases rest@.len() - j,
        {
            if chars_eq(rest[j].as_slice(), x.as_slice()) {
                hit = true;
                break;
            }
            j = j + 1;
        }
        if !hit {
            proof {
                rv.to_multiset_ensures();
                assert(!rv.contains(x@));
                assert(rv.to_multiset().count(x@) == 0);
                lemma_count_push(av.take(i as int), x@);
                vstd::seq_lib::lemma_multiset_commutative(av.take(i + 1), av.skip(i + 1));
                assert(av =~= av.take(i + 1) + av.skip(i + 1));
                assert(av.to_multiset().count(x@) >= av.take(i + 1).to_multiset().count(x@));
                assert(bv.to_multiset().count(x@) == av.take(i as int).to_multiset().count(x@));
            }
            return false;
        }
        proof {
            rv.to_multiset_ensures();
            av.take(i as int).to_multiset_ensures();
            assert(rv.remove(j as int).to_multiset() == rv.to_multiset().remove(x@));
            assert(av.take(i + 1).to_multiset() == av.take(i as int).to_multiset().insert(x@));
        }
        rest.remove(j);
        proof {
            assert(seqs_of(rest@) =~= rv.remove(j as int));
            assert(av.take(i + 1).to_multiset().add(seqs_of(rest@).to_multiset()) =~= bv.to_multiset());
        }
        i = i + 1;
    }
    proof {
        assert(av.take(a@.len() as int) == av);
        let rm = seqs_of(rest@).to_multiset();
        seqs_of(rest@).to_multiset_ensures();
        assert(av.to_multiset().add(rm) == bv.to_multiset());
        if rest.len() > 0 {
            assert(rm.len() > 0);
            assert(av.to_multiset().add(rm).len() == av.to_multiset().len() + rm.len());
            assert(av.to_multiset() != bv.to_multiset());
        } else {
            assert(rm =~= Multiset::empty());
            assert(av.to_multiset().add(rm) =~= av.to_multiset());
        }
    }
    rest.len() == 0
}

/// The IDs of the visible elements, in tree order.
pub open spec fn visible_ids_spec(es: Seq<UiElement>) -> Seq<Seq<char>>
    decreases es.len(),
{
    if es.len() == 0 {
        Seq::empty()
    } else {
        let rest = visible_ids_spec(es.drop_last());
        if es.last().visible {
            rest.push(es.last().element_id@)
        } else {
            rest
        }
    }
}

/// The IDs of the visible elements of a tree, in tree order.
pub fn visible_ids(elements: &Vec<UiElement>) -> (r: Vec<String>)
    ensures
        r@.map_values(|s: String| s@) == visible_ids_spec(elements@),
{
    let mut r: Vec<String> = Vec::new();
    let mut i: usize = 0;
    while i < elements.len()
        invariant
            i <= elements@.len(),
            r@.map_values(|s: String| s@) == visible_ids_spec(elements@.take(i as int)),
        decreases elements@.len() - i,
    {
        proof {
            assert(elements@.take(i + 1).drop_last() == elements@.take(i as int));
            assert(elements@.take(i + 1).last() == elements@[i as int]);
        }
        if elements[i].visible {
            let ghost before = r@;
            r.push(elements[i].element_id.clone());
            assert(r@.map_values(|s: String| s@) =~= before.map_values(|s: String| s@).push(
                elements@[i as int].element_id@,
            ));
        }
        i = i + 1;
    }
    assert(elements@.take(elements@.len() as int) == elements@);
    r
}

} // verus!
