//! Status aggregation: reducing an interface list to a count per status key.

use vstd::prelude::*;
use vstd::multiset::Multiset;
use crate::model::{EniRecord, EniView, StatusKey, classify, spec_classify};

verus! {

/// A count of interfaces per status key.
#[derive(Clone, Copy, Debug, PartialEq, Eq, Structural)]
pub struct StatusCounts {
    pub associated: usize,
    pub attaching: usize,
    pub available: usize,
    pub detaching: usize,
    pub in_use: usize,
    pub unknown: usize,
    pub absent: usize,
}

/// How many interfaces of `s` classify to the key `k`.
pub open spec fn count_of(s: Seq<EniView>, k: StatusKey) -> nat
    decreases s.len(),
{
    if s.len() == 0 {
        0
    } else {
        count_of(s.drop_last(), k) + if spec_classify(s.last().status) == k {
            1nat
        } else {
            0nat
        }
    }
}

/// A count never exceeds the length of the list it was taken over.
pub proof fn lemma_count_le_len(s: Seq<EniView>, k: StatusKey)
    ensures
        count_of(s, k) <= s.len(),
    decreases s.len(),
{
    if s.len() > 0 {
        lemma_count_le_len(s.drop_last(), k);
    }
}

/// Every interface classifies to exactly one key, so the counts over all
/// seven keys sum to the length of the list.
pub proof fn lemma_counts_sum_to_len(s: Seq<EniView>)
    ensures
        count_of(s, StatusKey::Associated) + count_of(s, StatusKey::Attaching) + count_of(
            s,
            StatusKey::Available,
        ) + count_of(s, StatusKey::Detaching) + count_of(s, StatusKey::InUse) + count_of(
            s,
            StatusKey::Unknown,
        ) + count_of(s, StatusKey::Absent) == s.len(),
    decreases s.len(),
{
    if s.len() > 0 {
        lemma_counts_sum_to_len(s.drop_last());
    }
}

/// The predicate selecting interfaces that classify to `k`.
pub open spec fn classifies_to(k: StatusKey) -> spec_fn(EniView) -> bool {
    |e: EniView| spec_classify(e.status) == k
}

proof fn lemma_multiset_filter_insert_len<V>(m: Multiset<V>, f: spec_fn(V) -> bool, x: V)
    ensures
        m.insert(x).filter(f).len() == m.filter(f).len() + if f(x) {
            1nat
        } else {
            0nat
        },
{
    broadcast use vstd::multiset::group_multiset_axioms;

    if f(x) {
        assert(m.insert(x).filter(f) =~= m.filter(f).insert(x));
    } else {
        assert(m.insert(x).filter(f) =~= m.filter(f));
    }
}

/// A count depends only on which interfaces occur, and how often, not on
/// their order: it equals the size of the filtered multiset of the list.
pub proof fn lemma_count_is_multiset_count(s: Seq<EniView>, k: StatusKey)
    ensures
        count_of(s, k) == s.to_multiset().filter(classifies_to(k)).len(),
    decreases s.len(),
{
    broadcast use vstd::multiset::group_multiset_axioms;
    broadcast use vstd::seq_lib::group_to_multiset_ensures;

    if s.len() == 0 {
        assert(s.to_multiset().len() == 0);
        vstd::multiset::lemma_multiset_empty_len(s.to_multiset());
        assert(s.to_multiset().filter(classifies_to(k)) =~= Multiset::<EniView>::empty());
    } else {
        lemma_count_is_multiset_count(s.drop_last(), k);
        assert(s =~= s.drop_last().push(s.last()));
        assert(s.to_multiset() =~= s.drop_last().to_multiset().insert(s.last()));
        lemma_multiset_filter_insert_len(s.drop_last().to_multiset(), classifies_to(k), s.last());
    }
}

/// Reordering the input list does not change the counts: two lists with the
/// same multiset of interfaces have the same count for every key.
pub proof fn lemma_counts_order_independent(s1: Seq<EniView>, s2: Seq<EniView>, k: StatusKey)
    requires
        s1.to_multiset() == s2.to_multiset(),
    ensures
        count_of(s1, k) == count_of(s2, k),
{
    lemma_count_is_multiset_count(s1, k);
    lemma_count_is_multiset_count(s2, k);
}

impl StatusCounts {
    /// The count recorded for the key `k`.
    pub open spec fn spec_count(self, k: StatusKey) -> nat {
        match k {
            StatusKey::Associated => self.associated as nat,
            StatusKey::Attaching => self.attaching as nat,
            StatusKey::Available => self.available as nat,
            StatusKey::Detaching => self.detaching as nat,
            StatusKey::InUse => self.in_use as nat,
            StatusKey::Unknown => self.unknown as nat,
            StatusKey::Absent => self.absent as nat,
        }
    }

    /// True when each field holds exactly the count of `s` for its key.
    pub open spec fn counts(self, s: Seq<EniView>) -> bool {
        forall|k: StatusKey| self.spec_count(k) == count_of(s, k)
    }

    /// The count for `k`, as an executable lookup.
    pub fn count(&self, k: StatusKey) -> (n: usize)
        ensures
            n == self.spec_count(k),
    {
        match k {
            StatusKey::Associated => self.associated,
            StatusKey::Attaching => self.attaching,
            StatusKey::Available => self.available,
            StatusKey::Detaching => self.detaching,
            StatusKey::InUse => self.in_use,
            StatusKey::Unknown => self.unknown,
            StatusKey::Absent => self.absent,
        }
    }
}

/// Reduces the interface list to a count per status key.
///
/// Each interface increments exactly the count of the key its status
/// classifies to, so the seven counts sum to the list's length.
pub fn aggregate(enis: &Vec<EniRecord>) -> (c: StatusCounts)
    ensures
        c.counts(enis.deep_view()),
        c.associated + c.attaching + c.available + c.detaching + c.in_use + c.unknown + c.absent
            == enis@.len(),
{
    let ghost all: Seq<EniView> = enis.deep_view();
    let mut c = StatusCounts {
        associated: 0,
        attaching: 0,
        available: 0,
        detaching: 0,
        in_use: 0,
        unknown: 0,
        absent: 0,
    };
    let mut i: usize = 0;
    while i < enis.len()
        invariant
            i <= enis.len(),
            all == enis.deep_view(),
            all.len() == enis@.len(),
            c.associated == count_of(all.take(i as int), StatusKey::Associated),
            c.attaching == count_of(all.take(i as int), StatusKey::Attaching),
            c.available == count_of(all.take(i as int), StatusKey::Available),
            c.detaching == count_of(all.take(i as int), StatusKey::Detaching),
            c.in_use == count_of(all.take(i as int), StatusKey::InUse),
            c.unknown == count_of(all.take(i as int), StatusKey::Unknown),
            c.absent == count_of(all.take(i as int), StatusKey::Absent),
        decreases enis.len() - i,
    {
        proof {
            assert(all.take(i + 1).drop_last() =~= all.take(i as int));
            assert(all.take(i + 1).last() == enis@[i as int]@);
            lemma_count_le_len(all.take(i as int), StatusKey::Associated);
            lemma_count_le_len(all.take(i as int), StatusKey::Attaching);
            lemma_count_le_len(all.take(i as int), StatusKey::Available);
            lemma_count_le_len(all.take(i as int), StatusKey::Detaching);
            lemma_count_le_len(all.take(i as int), StatusKey::InUse);
            lemma_count_le_len(all.take(i as int), StatusKey::Unknown);
            lemma_count_le_len(all.take(i as int), StatusKey::Absent);
        }
        let k = classify(&enis[i].status);
        match k {
            StatusKey::Associated => { c.associated = c.associated + 1; },
            StatusKey::Attaching => { c.attaching = c.attaching + 1; },
            StatusKey::Available => { c.available = c.available + 1; },
            StatusKey::Detaching => { c.detaching = c.detaching + 1; },
            StatusKey::InUse => { c.in_use = c.in_use + 1; },
            StatusKey::Unknown => { c.unknown = c.unknown + 1; },
            StatusKey::Absent => { c.absent = c.absent + 1; },
        }
        i = i + 1;
    }
    proof {
        assert(all.take(enis@.len() as int) =~= all);
        lemma_counts_sum_to_len(all);
    }
    c
}

} // verus!
