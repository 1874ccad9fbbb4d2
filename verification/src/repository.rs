//! The typed repository over the ticket collection: CRUD with identifier
//! parsing, member-scoped listing bounded by a limit, bulk delete returning
//! a count, and the uniform three-way error discrimination (bad input,
//! genuinely absent, storage problem) every consumer gets.

use crate::collection::{first_match_index, limited, matching, remaining, MemoryCollection};
use crate::errors::BotError;
use crate::object_id::{bytes_of_hex, is_object_id_text, parse_object_id};
use crate::ticket::{
    spec_signed_of_unsigned, signed_of_unsigned, views_of, CreateTicketData, FilterView, Ticket,
    TicketFilter, TicketView,
};
use vstd::prelude::*;

verus! {

/// Uniform CRUD and query semantics over a collection of tickets.
///
/// Exactly one of three outcomes occurs for a single-entity operation: the
/// entity, `NotFound`, or a malformed-identifier rejection; bulk operations
/// treat zero matches as a normal empty result.
pub trait TicketRepository: Sized {
    /// The stored ticket values, in insertion order.
    spec fn tickets(&self) -> Seq<TicketView>;

    /// Whether every stored ticket is well formed.
    spec fn wf(&self) -> bool;

    /// Looks one ticket up by its rendered identifier. Fails with
    /// `InvalidIdentifier` on a malformed id — before any store access —
    /// and with `NotFound` when no stored ticket carries the id.
    fn get(&self, id: String) -> (r: Result<Ticket, BotError>)
        requires
            self.wf(),
        ensures
            ({
                let m = matching(self.tickets(), FilterView::ById(bytes_of_hex(id@)));
                &&& (!is_object_id_text(id@) ==> r == Err::<Ticket, BotError>(
                    BotError::InvalidIdentifier,
                ))
                &&& (is_object_id_text(id@) && m.len() == 0 ==> r == Err::<Ticket, BotError>(
                    BotError::NotFound,
                ))
                &&& (r is Ok <==> is_object_id_text(id@) && m.len() > 0)
                &&& (r matches Ok(t) ==> t@ == m[0])
            }),
    ;

    /// Lists the tickets scoped to a community and an owner, in stored
    /// order, up to `limit` of them; a limit of zero yields an empty list.
    /// The platform identifiers are reinterpreted as signed numbers at the
    /// storage boundary.
    fn get_by_member(&self, guild_id: u64, user_id: u64, limit: usize) -> (r: Result<
        Vec<Ticket>,
        BotError,
    >)
        requires
            self.wf(),
        ensures
            r is Ok,
            r matches Ok(v) ==> views_of(v@) == limited(
                matching(
                    self.tickets(),
                    FilterView::ByMember(
                        spec_signed_of_unsigned(guild_id),
                        spec_signed_of_unsigned(user_id),
                    ),
                ),
                limit as nat,
            ),
    ;

    /// Constructs the full entity from the creation intent, stamps it with
    /// the given creation instant, inserts it, and returns the persisted
    /// entity: every caller-supplied field carried over, `created_at`
    /// exactly the instant, and exactly that entity appended to the store.
    /// When a stored ticket already carries the intent's identifier, the
    /// store's unique-identifier index refuses the insert: the call fails
    /// with `StorageError` and nothing changes.
    fn create_at(&mut self, data: CreateTicketData, created_at: i64) -> (r: Result<
        Ticket,
        BotError,
    >)
        requires
            old(self).wf(),
            data.id.wf(),
        ensures
            final(self).wf(),
            ({
                let m = matching(old(self).tickets(), FilterView::ById(data.id@));
                &&& (r is Ok <==> m.len() == 0)
                &&& (m.len() > 0 ==> r == Err::<Ticket, BotError>(BotError::StorageError)
                    && final(self).tickets() == old(self).tickets())
                &&& (r matches Ok(t) ==> {
                    &&& t@.id == data.id@
                    &&& t@.created_at == created_at
                    &&& t@.channel_id == data.channel_id
                    &&& t@.user_id == data.user_id
                    &&& t@.guild_id == data.guild_id
                    &&& final(self).tickets() == old(self).tickets().push(t@)
                })
            }),
    ;

    /// Creates the entity stamped with the wall clock's current instant:
    /// `create_at` at the instant the clock reads now. The stamping and
    /// insertion are pinned by `create_at`'s contract; the instant itself
    /// comes from the clock, so nothing is promised of its value.
    fn create(&mut self, data: CreateTicketData) -> (r: Result<Ticket, BotError>)
        requires
            old(self).wf(),
            data.id.wf(),
        ensures
            final(self).wf(),
            ({
                let m = matching(old(self).tickets(), FilterView::ById(data.id@));
                &&& (r is Ok <==> m.len() == 0)
                &&& (m.len() > 0 ==> r == Err::<Ticket, BotError>(BotError::StorageError)
                    && final(self).tickets() == old(self).tickets())
                &&& (r matches Ok(t) ==> {
                    &&& t@.id == data.id@
                    &&& t@.channel_id == data.channel_id
                    &&& t@.user_id == data.user_id
                    &&& t@.guild_id == data.guild_id
                    &&& final(self).tickets() == old(self).tickets().push(t@)
                })
            }),
    ;

    /// Deletes one ticket by its rendered identifier. Fails with
    /// `InvalidIdentifier` on a malformed id and with `NotFound` when
    /// nothing existed to remove — callers must be told so.
    fn delete(&mut self, id: String) -> (r: Result<(), BotError>)
        requires
            old(self).wf(),
        ensures
            final(self).wf(),
            ({
                let m = matching(old(self).tickets(), FilterView::ById(bytes_of_hex(id@)));
                &&& (!is_object_id_text(id@) ==> r == Err::<(), BotError>(
                    BotError::InvalidIdentifier,
                ) && final(self).tickets() == old(self).tickets())
                &&& (is_object_id_text(id@) && m.len() == 0 ==> r == Err::<(), BotError>(
                    BotError::NotFound,
                ) && final(self).tickets() == old(self).tickets())
                &&& (r is Ok <==> is_object_id_text(id@) && m.len() > 0)
                &&& (r is Ok ==> final(self).tickets() == old(self).tickets().remove(
                    first_match_index(
                        old(self).tickets(),
                        FilterView::ById(bytes_of_hex(id@)),
                    ),
                ))
            }),
    ;

    /// Deletes every ticket scoped to a community and an owner, returning
    /// how many were removed. Zero is success, not an error.
    fn delete_by_member(&mut self, guild_id: u64, user_id: u64) -> (r: Result<u64, BotError>)
        requires
            old(self).wf(),
        ensures
            final(self).wf(),
            r is Ok,
            ({
                let f = FilterView::ByMember(
                    spec_signed_of_unsigned(guild_id),
                    spec_signed_of_unsigned(user_id),
                );
                &&& (r matches Ok(count) ==> count == matching(old(self).tickets(), f).len())
                &&& final(self).tickets() == remaining(old(self).tickets(), f)
            }),
    ;
}

/// The repository service over the in-memory collection model. It owns no
/// state beyond the collection: the document store is the sole source of
/// truth for tickets.
pub struct TicketService {
    col: MemoryCollection,
}

impl TicketService {
    /// Wraps a collection.
    pub fn new(col: MemoryCollection) -> (r: TicketService)
        ensures
            r.tickets() == col@,
            col.wf() ==> r.wf(),
    {
        TicketService { col }
    }

    /// Finds the first ticket satisfying `filter`; fails with `NotFound`
    /// when none does.
    pub fn fetch(&self, filter: &TicketFilter) -> (r: Result<Ticket, BotError>)
        ensures
            r is Ok <==> matching(self.tickets(), filter@).len() > 0,
            r matches Ok(t) ==> t@ == matching(self.tickets(), filter@)[0],
            r is Err ==> r == Err::<Ticket, BotError>(BotError::NotFound),
    {
        match self.col.find_one(filter) {
            Some(t) => Ok(t),
            None => Err(BotError::NotFound),
        }
    }
}

impl TicketRepository for TicketService {
    closed spec fn tickets(&self) -> Seq<TicketView> {
        self.col@
    }

    closed spec fn wf(&self) -> bool {
        self.col.wf()
    }

    fn get(&self, id: String) -> (r: Result<Ticket, BotError>) {
        let object_id = match parse_object_id(id.as_str()) {
            Ok(o) => o,
            Err(e) => {
                return Err(e);
            },
        };
        let filter = TicketFilter::ById(object_id);
        self.fetch(&filter)
    }

    fn get_by_member(&self, guild_id: u64, user_id: u64, limit: usize) -> (r: Result<
        Vec<Ticket>,
        BotError,
    >) {
        let filter = TicketFilter::ByMember(
            signed_of_unsigned(guild_id),
            signed_of_unsigned(user_id),
        );
        Ok(self.col.find_limited(&filter, limit))
    }

    fn create_at(&mut self, data: CreateTicketData, created_at: i64) -> (r: Result<
        Ticket,
        BotError,
    >) {
        let ticket = Ticket::from_data_at(data, created_at);
        let persisted = ticket.clone();
        let ghost before = self.tickets();
        if !self.col.insert_one(ticket) {
            return Err(BotError::StorageError);
        }
        proof {
            crate::collection::lemma_matching_empty_no_match(
                before,
                FilterView::ById(data.id@),
            );
            assert forall|i: int| 0 <= i < self.tickets().len() implies (
            #[trigger] self.tickets()[i]).id.len() == 12 by {
                if i < before.len() {
                    assert(self.tickets()[i] == before[i]);
                }
            }
            assert forall|i: int, j: int|
                #![trigger self.tickets()[i], self.tickets()[j]]
                0 <= i < j < self.tickets().len() implies self.tickets()[i].id
                != self.tickets()[j].id by {
                if j < before.len() {
                    assert(self.tickets()[i] == before[i]);
                    assert(self.tickets()[j] == before[j]);
                } else {
                    assert(self.tickets()[j] == persisted@);
                    assert(self.tickets()[i] == before[i]);
                    assert(!crate::ticket::filter_matches(
                        FilterView::ById(data.id@),
                        before[i],
                    ));
                }
            }
        }
        Ok(persisted)
    }

    fn create(&mut self, data: CreateTicketData) -> (r: Result<Ticket, BotError>) {
        let now = crate::ticket::now_unix_millis();
        self.create_at(data, now)
    }

    fn delete(&mut self, id: String) -> (r: Result<(), BotError>) {
        let object_id = match parse_object_id(id.as_str()) {
            Ok(o) => o,
            Err(e) => {
                return Err(e);
            },
        };
        let filter = TicketFilter::ById(object_id);
        let ghost before = self.tickets();
        let count = self.col.delete_one(&filter);
        proof {
            if matching(before, filter@).len() > 0 {
                let j = first_match_index(before, filter@);
                crate::collection::lemma_first_match_index_in_range(before, filter@);
                assert forall|i: int| 0 <= i < self.tickets().len() implies (
                #[trigger] self.tickets()[i]).id.len() == 12 by {
                    assert(self.tickets() == before.remove(j));
                    if i < j {
                        assert(self.tickets()[i] == before[i]);
                    } else {
                        assert(self.tickets()[i] == before[i + 1]);
                    }
                }
                assert forall|a: int, b: int|
                    #![trigger self.tickets()[a], self.tickets()[b]]
                    0 <= a < b < self.tickets().len() implies self.tickets()[a].id
                    != self.tickets()[b].id by {
                    let ma = if a < j {
                        a
                    } else {
                        a + 1
                    };
                    let mb = if b < j {
                        b
                    } else {
                        b + 1
                    };
                    assert(self.tickets()[a] == before[ma]);
                    assert(self.tickets()[b] == before[mb]);
                    assert(before[ma].id != before[mb].id);
                }
            }
        }
        if count == 0 {
            return Err(BotError::NotFound);
        }
        Ok(())
    }

    fn delete_by_member(&mut self, guild_id: u64, user_id: u64) -> (r: Result<u64, BotError>) {
        let filter = TicketFilter::ByMember(
            signed_of_unsigned(guild_id),
            signed_of_unsigned(user_id),
        );
        let ghost before = self.tickets();
        let count = self.col.delete_many(&filter);
        proof {
            crate::collection::lemma_remaining_elements(before, filter@);
            crate::collection::lemma_remaining_distinct(before, filter@);
            assert forall|i: int| 0 <= i < self.tickets().len() implies (
            #[trigger] self.tickets()[i]).id.len() == 12 by {
                assert(before.contains(self.tickets()[i]));
                let j = choose|j: int| 0 <= j < before.len() && before[j] == self.tickets()[i];
                assert(before[j].id.len() == 12);
            }
        }
        Ok(count)
    }
}

/// One event of a streamed query: the next document, or a read failure
/// reported by the store.
pub enum FindEvent {
    Item(Ticket),
    ReadError,
}

/// What consuming a stream of find events up to `limit` documents yields:
/// the collected document values, or nothing if a read failure is hit
/// before the limit is reached or the stream ends.
pub open spec fn spec_collect(events: Seq<FindEvent>, limit: nat) -> Option<Seq<TicketView>>
    decreases events.len(),
{
    if limit == 0 || events.len() == 0 {
        Some(Seq::<TicketView>::empty())
    } else {
        match events[0] {
            FindEvent::Item(t) => match spec_collect(events.drop_first(), (limit - 1) as nat) {
                Some(s) => Some(seq![t@] + s),
                None => None,
            },
            FindEvent::ReadError => None,
        }
    }
}

/// Consumes the events from position `i` on.
fn collect_from(events: &Vec<FindEvent>, i: usize, limit: usize) -> (r: Result<
    Vec<Ticket>,
    BotError,
>)
    requires
        i <= events@.len(),
    ensures
        r is Ok <==> spec_collect(events@.skip(i as int), limit as nat) is Some,
        r matches Ok(v) ==> Some(views_of(v@)) == spec_collect(events@.skip(i as int), limit as nat),
        r is Err ==> r == Err::<Vec<Ticket>, BotError>(BotError::StorageError),
    decreases events@.len() - i,
{
    let ghost rest = events@.skip(i as int);
    if limit == 0 || i == events.len() {
        let out: Vec<Ticket> = Vec::new();
        proof {
            assert(views_of(out@) =~= Seq::<TicketView>::empty());
        }
        return Ok(out);
    }
    proof {
        assert(rest[0] == events@[i as int]);
        assert(rest.drop_first() =~= events@.skip(i as int + 1));
    }
    match &events[i] {
        FindEvent::Item(t) => {
            match collect_from(events, i + 1, limit - 1) {
                Ok(v) => {
                    let ghost tail_views = views_of(v@);
                    let mut v = v;
                    v.insert(0, t.clone());
                    proof {
                        assert(views_of(v@) =~= seq![t@] + tail_views);
                    }
                    Ok(v)
                },
                Err(e) => Err(e),
            }
        },
        FindEvent::ReadError => Err(BotError::StorageError),
    }
}

/// The decision core of a streamed member query for a deployment whose
/// document store is driven externally: the stream is consumed in order and
/// cut off once `limit` documents are collected, without over-fetching; a
/// read failure before that aborts the whole call with `StorageError`, and
/// partial results are discarded rather than returned.
pub fn collect_limited(events: &Vec<FindEvent>, limit: usize) -> (r: Result<Vec<Ticket>, BotError>)
    ensures
        r is Ok <==> spec_collect(events@, limit as nat) is Some,
        r matches Ok(v) ==> Some(views_of(v@)) == spec_collect(events@, limit as nat),
        r is Err ==> r == Err::<Vec<Ticket>, BotError>(BotError::StorageError),
{
    proof {
        assert(events@.skip(0) =~= events@);
    }
    collect_from(events, 0, limit)
}

} // verus!
