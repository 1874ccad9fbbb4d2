//! The model of the document store boundary: a collection of tickets
//! addressed by filter queries, with single-document insert and delete and
//! multi-document delete, all atomic with respect to the documents they
//! touch.

use crate::ticket::{filter_matches, matches_filter, views_of, FilterView, Ticket, TicketFilter, TicketView};
use vstd::prelude::*;

verus! {

/// The documents of `s` that satisfy `f`, in stored order.
pub open spec fn matching(s: Seq<TicketView>, f: FilterView) -> Seq<TicketView> {
    s.filter(|t: TicketView| filter_matches(f, t))
}

/// The documents of `s` that do not satisfy `f`, in stored order.
pub open spec fn remaining(s: Seq<TicketView>, f: FilterView) -> Seq<TicketView> {
    s.filter(|t: TicketView| !filter_matches(f, t))
}

/// The first `limit` documents of `m`, or all of them if there are fewer.
pub open spec fn limited(m: Seq<TicketView>, limit: nat) -> Seq<TicketView> {
    if m.len() <= limit {
        m
    } else {
        m.take(limit as int)
    }
}

/// The position of the first document of `s` that satisfies `f`; `s.len()`
/// if none does.
pub open spec fn first_match_index(s: Seq<TicketView>, f: FilterView) -> int
    decreases s.len(),
{
    if s.len() == 0 {
        0
    } else if filter_matches(f, s[0]) {
        0
    } else {
        1 + first_match_index(s.drop_first(), f)
    }
}

/// How `matching` grows by one document: the document joins the matches
/// exactly when it satisfies the filter.
proof fn lemma_matching_take_step(s: Seq<TicketView>, f: FilterView, i: int)
    requires
        0 <= i < s.len(),
    ensures
        filter_matches(f, s[i]) ==> matching(s.take(i + 1), f) == matching(s.take(i), f).push(
            s[i],
        ),
        !filter_matches(f, s[i]) ==> matching(s.take(i + 1), f) == matching(s.take(i), f),
{
    reveal(Seq::filter);
    assert(s.take(i + 1).drop_last() =~= s.take(i));
    assert(s.take(i + 1).last() == s[i]);
}

/// How `remaining` grows by one document.
proof fn lemma_remaining_take_step(s: Seq<TicketView>, f: FilterView, i: int)
    requires
        0 <= i < s.len(),
    ensures
        !filter_matches(f, s[i]) ==> remaining(s.take(i + 1), f) == remaining(s.take(i), f).push(
            s[i],
        ),
        filter_matches(f, s[i]) ==> remaining(s.take(i + 1), f) == remaining(s.take(i), f),
{
    reveal(Seq::filter);
    assert(s.take(i + 1).drop_last() =~= s.take(i));
    assert(s.take(i + 1).last() == s[i]);
}

/// A sequence with no match filters to nothing.
proof fn lemma_matching_all_false(s: Seq<TicketView>, f: FilterView)
    requires
        forall|k: int| 0 <= k < s.len() ==> !filter_matches(f, #[trigger] s[k]),
    ensures
        matching(s, f) == Seq::<TicketView>::empty(),
    decreases s.len(),
{
    reveal(Seq::filter);
    if s.len() > 0 {
        assert(forall|k: int| 0 <= k < s.drop_last().len() ==> #[trigger] s.drop_last()[k] == s[k]);
        lemma_matching_all_false(s.drop_last(), f);
    }
    assert(matching(s, f) =~= Seq::<TicketView>::empty());
}

/// The matches of a whole sequence are the matches of a prefix followed by
/// the matches of the rest.
proof fn lemma_matching_split(s: Seq<TicketView>, f: FilterView, i: int)
    requires
        0 <= i <= s.len(),
    ensures
        matching(s, f) == matching(s.take(i), f) + matching(s.skip(i), f),
{
    assert(s.take(i) + s.skip(i) =~= s);
    Seq::filter_distributes_over_add(s.take(i), s.skip(i), |t: TicketView| filter_matches(f, t));
}

/// A first match found by scanning is the first match.
proof fn lemma_first_match_index_found(s: Seq<TicketView>, f: FilterView, i: int)
    requires
        0 <= i < s.len(),
        forall|k: int| 0 <= k < i ==> !filter_matches(f, #[trigger] s[k]),
        filter_matches(f, s[i]),
    ensures
        first_match_index(s, f) == i,
    decreases i,
{
    if i > 0 {
        assert(forall|k: int| 0 <= k < s.drop_first().len() ==> #[trigger] s.drop_first()[k] == s[
            k + 1
        ]);
        lemma_first_match_index_found(s.drop_first(), f, i - 1);
    }
}

/// A first match, where one exists, lies inside the sequence and satisfies
/// the filter.
pub proof fn lemma_first_match_index_in_range(s: Seq<TicketView>, f: FilterView)
    requires
        matching(s, f).len() > 0,
    ensures
        0 <= first_match_index(s, f) < s.len(),
    decreases s.len(),
{
    reveal(Seq::filter);
    if s.len() == 0 {
        assert(matching(s, f).len() == 0);
    } else if filter_matches(f, s[0]) {
    } else {
        assert(seq![s[0]] + s.drop_first() =~= s);
        Seq::filter_distributes_over_add(
            seq![s[0]],
            s.drop_first(),
            |t: TicketView| filter_matches(f, t),
        );
        assert(matching(seq![s[0]], f).len() == 0) by {
            reveal_with_fuel(Seq::filter, 3);
            assert(seq![s[0]].drop_last() =~= Seq::<TicketView>::empty());
            assert(seq![s[0]].last() == s[0]);
        }
        lemma_first_match_index_in_range(s.drop_first(), f);
    }
}

/// Every document that survives a bulk delete was already stored.
pub proof fn lemma_remaining_elements(s: Seq<TicketView>, f: FilterView)
    ensures
        forall|i: int|
            0 <= i < remaining(s, f).len() ==> s.contains(#[trigger] remaining(s, f)[i]),
    decreases s.len(),
{
    reveal(Seq::filter);
    if s.len() > 0 {
        lemma_remaining_elements(s.drop_last(), f);
        let r = remaining(s, f);
        let rd = remaining(s.drop_last(), f);
        assert forall|i: int| 0 <= i < r.len() implies s.contains(#[trigger] r[i]) by {
            if i < rd.len() {
                assert(r[i] == rd[i]);
                assert(s.drop_last().contains(rd[i]));
                let j = choose|j: int|
                    0 <= j < s.drop_last().len() && s.drop_last()[j] == rd[i];
                assert(s[j] == rd[i]);
            } else {
                assert(r[i] == s.last());
                assert(s[s.len() - 1] == s.last());
            }
        }
    }
}

/// A freshly created ticket is retrievable by its identifier: when no
/// already-stored ticket carries its id — which a successful create
/// guarantees, since the unique-identifier index refuses duplicates — the
/// id-filtered matches of the collection after insertion are exactly the
/// new ticket, so a lookup by its rendered id returns an entity equal to
/// what the create returned, for all valid field combinations.
pub proof fn lemma_created_is_retrievable(s: Seq<TicketView>, t: TicketView)
    requires
        forall|i: int| 0 <= i < s.len() ==> (#[trigger] s[i]).id != t.id,
    ensures
        matching(s.push(t), FilterView::ById(t.id)) == seq![t],
{
    let f = FilterView::ById(t.id);
    assert(s + seq![t] =~= s.push(t));
    Seq::filter_distributes_over_add(s, seq![t], |v: TicketView| filter_matches(f, v));
    lemma_matching_all_false(s, f);
    assert(matching(seq![t], f) == seq![t]) by {
        reveal_with_fuel(Seq::filter, 3);
        assert(seq![t].drop_last() =~= Seq::<TicketView>::empty());
        assert(seq![t].last() == t);
        assert(Seq::<TicketView>::empty().push(t) =~= seq![t]);
    }
    assert(Seq::<TicketView>::empty() + seq![t] =~= seq![t]);
}

/// A member listing is bounded by its limit: it never holds more than
/// `limit` entries even when more documents match, and a limit of zero
/// yields an empty listing.
pub proof fn lemma_limited_bounds(m: Seq<TicketView>, limit: nat)
    ensures
        limited(m, limit).len() <= limit,
        limit == 0 ==> limited(m, limit) == Seq::<TicketView>::empty(),
{
    if limit == 0 {
        assert(limited(m, limit) =~= Seq::<TicketView>::empty());
    }
}

/// No document of the sequence shares its identifier with another: the
/// store's unique-identifier index, as an invariant of the model.
pub open spec fn distinct_ids(s: Seq<TicketView>) -> bool {
    forall|i: int, j: int| #![trigger s[i], s[j]] 0 <= i < j < s.len() ==> s[i].id != s[j].id
}

/// A sequence with no match holds no matching document.
pub proof fn lemma_matching_empty_no_match(s: Seq<TicketView>, f: FilterView)
    requires
        matching(s, f).len() == 0,
    ensures
        forall|k: int| 0 <= k < s.len() ==> !filter_matches(f, #[trigger] s[k]),
{
    let pred = |t: TicketView| filter_matches(f, t);
    s.filter_lemma(pred);
    assert forall|k: int| 0 <= k < s.len() implies !filter_matches(f, #[trigger] s[k]) by {
        if filter_matches(f, s[k]) {
            assert(s.filter(pred).contains(s[k]));
        }
    }
}

/// A bulk delete keeps the surviving identifiers distinct.
pub proof fn lemma_remaining_distinct(s: Seq<TicketView>, f: FilterView)
    requires
        distinct_ids(s),
    ensures
        distinct_ids(remaining(s, f)),
    decreases s.len(),
{
    reveal(Seq::filter);
    if s.len() > 0 {
        assert(forall|k: int| 0 <= k < s.drop_last().len() ==> #[trigger] s.drop_last()[k] == s[k]);
        lemma_remaining_distinct(s.drop_last(), f);
        lemma_remaining_elements(s.drop_last(), f);
        let r = remaining(s, f);
        let rd = remaining(s.drop_last(), f);
        assert forall|a: int, b: int| 0 <= a < b < r.len() implies r[a].id != r[b].id by {
            if b < rd.len() {
                assert(rd[a].id != rd[b].id);
            } else {
                assert(r[b] == s.last());
                assert(r[a] == rd[a]);
                assert(s.drop_last().contains(rd[a]));
                let j = choose|j: int|
                    0 <= j < s.drop_last().len() && s.drop_last()[j] == rd[a];
                assert(s[j] == rd[a]);
                assert(s[j].id != s[s.len() - 1].id);
            }
        }
    }
}

/// An in-memory collection of tickets, in insertion order. Its value is the
/// sequence of stored document values.
pub struct MemoryCollection {
    docs: Vec<Ticket>,
}

impl View for MemoryCollection {
    type V = Seq<TicketView>;

    closed spec fn view(&self) -> Seq<TicketView> {
        views_of(self.docs@)
    }
}

impl MemoryCollection {
    /// Every stored document carries a twelve-byte identifier, and no two
    /// share one: identifiers are unique across all tickets.
    pub open spec fn wf(&self) -> bool {
        &&& forall|i: int| 0 <= i < self@.len() ==> (#[trigger] self@[i]).id.len() == 12
        &&& distinct_ids(self@)
    }

    /// An empty collection.
    pub fn new() -> (r: MemoryCollection)
        ensures
            r@ == Seq::<TicketView>::empty(),
            r.wf(),
    {
        let r = MemoryCollection { docs: Vec::new() };
        proof {
            assert(r@ =~= Seq::<TicketView>::empty());
        }
        r
    }

    /// Inserts one document at the end, unless a stored document already
    /// carries its identifier: the unique-identifier index refuses the
    /// write, and the collection is unchanged. Returns whether the
    /// document went in.
    pub fn insert_one(&mut self, doc: Ticket) -> (r: bool)
        ensures
            ({
                let m = matching(old(self)@, FilterView::ById(doc@.id));
                &&& (m.len() > 0 ==> !r && final(self)@ == old(self)@)
                &&& (m.len() == 0 ==> r && final(self)@ == old(self)@.push(doc@))
            }),
    {
        let filter = TicketFilter::ById(doc.id.clone());
        if self.find_one(&filter).is_some() {
            return false;
        }
        let ghost v = doc@;
        self.docs.push(doc);
        proof {
            assert(self@ =~= old(self)@.push(v));
        }
        true
    }

    /// Finds the first document satisfying `filter`, if any.
    pub fn find_one(&self, filter: &TicketFilter) -> (r: Option<Ticket>)
        ensures
            r is Some <==> matching(self@, filter@).len() > 0,
            r matches Some(t) ==> t@ == matching(self@, filter@)[0],
    {
        let mut i: usize = 0;
        while i < self.docs.len()
            invariant
                i <= self.docs@.len(),
                self@.len() == self.docs@.len(),
                forall|k: int| 0 <= k < i ==> !filter_matches(filter@, #[trigger] self@[k]),
            decreases self.docs@.len() - i,
        {
            let t = &self.docs[i];
            proof {
                assert(t@ == self@[i as int]);
            }
            if matches_filter(filter, t) {
                proof {
                    assert(forall|k: int|
                        0 <= k < i ==> self@.take(i as int)[k] == self@[k]);
                    lemma_matching_all_false(self@.take(i as int), filter@);
                    lemma_matching_take_step(self@, filter@, i as int);
                    lemma_matching_split(self@, filter@, i + 1);
                    assert(matching(self@, filter@)[0] == self@[i as int]);
                }
                return Some(t.clone());
            }
            i = i + 1;
        }
        proof {
            lemma_matching_all_false(self@, filter@);
        }
        None
    }

    /// Returns the documents satisfying `filter`, in stored order, up to
    /// `limit` of them. A limit of zero yields an empty result.
    pub fn find_limited(&self, filter: &TicketFilter, limit: usize) -> (r: Vec<Ticket>)
        ensures
            views_of(r@) == limited(matching(self@, filter@), limit as nat),
    {
        let mut out: Vec<Ticket> = Vec::new();
        let mut i: usize = 0;
        proof {
            assert(views_of(out@) =~= matching(self@.take(0), filter@)) by {
                assert(self@.take(0) =~= Seq::<TicketView>::empty());
                lemma_matching_all_false(self@.take(0), filter@);
            }
        }
        while i < self.docs.len() && out.len() < limit
            invariant
                i <= self.docs@.len(),
                self@.len() == self.docs@.len(),
                out@.len() <= limit,
                views_of(out@) == matching(self@.take(i as int), filter@),
            decreases self.docs@.len() - i,
        {
            let t = &self.docs[i];
            proof {
                assert(t@ == self@[i as int]);
                lemma_matching_take_step(self@, filter@, i as int);
            }
            if matches_filter(filter, t) {
                out.push(t.clone());
                proof {
                    assert(views_of(out@) =~= matching(self@.take(i + 1), filter@));
                }
            }
            i = i + 1;
        }
        proof {
            let m = matching(self@, filter@);
            if i as int == self@.len() {
                assert(self@.take(i as int) =~= self@);
                assert(views_of(out@) == m);
                assert(views_of(out@) =~= limited(m, limit as nat));
            } else {
                assert(out@.len() == limit);
                lemma_matching_split(self@, filter@, i as int);
                assert(m.take(limit as int) =~= matching(self@.take(i as int), filter@));
                assert(views_of(out@) =~= limited(m, limit as nat));
            }
        }
        out
    }

    /// Deletes the first document satisfying `filter`, returning how many
    /// documents were removed: one if any matched, zero otherwise.
    pub fn delete_one(&mut self, filter: &TicketFilter) -> (count: u64)
        ensures
            matching(old(self)@, filter@).len() == 0 ==> count == 0 && final(self)@ == old(self)@,
            matching(old(self)@, filter@).len() > 0 ==> count == 1 && final(self)@ == old(
                self,
            )@.remove(first_match_index(old(self)@, filter@)),
    {
        let mut i: usize = 0;
        while i < self.docs.len()
            invariant
                i <= self.docs@.len(),
                self@.len() == self.docs@.len(),
                self@ == old(self)@,
                self.docs@ == old(self).docs@,
                forall|k: int| 0 <= k < i ==> !filter_matches(filter@, #[trigger] self@[k]),
            decreases self.docs@.len() - i,
        {
            let t = &self.docs[i];
            proof {
                assert(t@ == self@[i as int]);
            }
            if matches_filter(filter, t) {
                proof {
                    assert(forall|k: int|
                        0 <= k < i ==> self@.take(i as int)[k] == self@[k]);
                    lemma_matching_all_false(self@.take(i as int), filter@);
                    lemma_matching_take_step(self@, filter@, i as int);
                    lemma_matching_split(self@, filter@, i + 1);
                    lemma_first_match_index_found(self@, filter@, i as int);
                }
                let ghost before = self@;
                self.docs.remove(i);
                proof {
                    assert(self@ =~= before.remove(i as int));
                }
                return 1;
            }
            i = i + 1;
        }
        proof {
            lemma_matching_all_false(self@, filter@);
        }
        0
    }

    /// Deletes every document satisfying `filter`, returning how many were
    /// removed. Zero matches is a normal empty result, not an error.
    pub fn delete_many(&mut self, filter: &TicketFilter) -> (count: u64)
        ensures
            count == matching(old(self)@, filter@).len(),
            final(self)@ == remaining(old(self)@, filter@),
    {
        let mut kept: Vec<Ticket> = Vec::new();
        let mut removed: usize = 0;
        let mut i: usize = 0;
        proof {
            assert(self@.take(0) =~= Seq::<TicketView>::empty());
            lemma_matching_all_false(self@.take(0), filter@);
            reveal(Seq::filter);
            assert(views_of(kept@) =~= remaining(self@.take(0), filter@));
        }
        while i < self.docs.len()
            invariant
                i <= self.docs@.len(),
                self@.len() == self.docs@.len(),
                self@ == old(self)@,
                self.docs@ == old(self).docs@,
                removed <= i,
                removed == matching(self@.take(i as int), filter@).len(),
                views_of(kept@) == remaining(self@.take(i as int), filter@),
            decreases self.docs@.len() - i,
        {
            let t = &self.docs[i];
            proof {
                assert(t@ == self@[i as int]);
                lemma_matching_take_step(self@, filter@, i as int);
                lemma_remaining_take_step(self@, filter@, i as int);
            }
            if matches_filter(filter, t) {
                removed = removed + 1;
            } else {
                kept.push(t.clone());
                proof {
                    assert(views_of(kept@) =~= remaining(self@.take(i + 1), filter@));
                }
            }
            i = i + 1;
        }
        proof {
            assert(self@.take(self@.len() as int) =~= self@);
        }
        self.docs = kept;
        removed as u64
    }
}

} // verus!
