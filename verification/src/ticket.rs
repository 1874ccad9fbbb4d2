//! The persisted entity of the repository: a support ticket scoping a
//! conversation to an owner and a community, plus the filters the document
//! store is queried with.

use crate::object_id::ObjectId;
use vstd::prelude::*;

verus! {

/// The mathematical value of a ticket: its identifier bytes and its plain
/// fields.
pub struct TicketView {
    pub id: Seq<u8>,
    pub created_at: i64,
    pub channel_id: i64,
    pub user_id: i64,
    pub guild_id: i64,
}

/// A persisted support ticket.
///
/// `created_at` is the creation instant in milliseconds since the Unix
/// epoch, set once at creation and immutable thereafter. The three scoping
/// fields are platform identifiers reinterpreted as signed 64-bit numbers
/// at the storage boundary.
#[derive(Debug)]
pub struct Ticket {
    pub id: ObjectId,
    pub created_at: i64,
    pub channel_id: i64,
    pub user_id: i64,
    pub guild_id: i64,
}

impl View for Ticket {
    type V = TicketView;

    open spec fn view(&self) -> TicketView {
        TicketView {
            id: self.id@,
            created_at: self.created_at,
            channel_id: self.channel_id,
            user_id: self.user_id,
            guild_id: self.guild_id,
        }
    }
}

impl Clone for Ticket {
    fn clone(&self) -> (r: Self)
        ensures
            r@ == self@,
    {
        Ticket {
            id: self.id.clone(),
            created_at: self.created_at,
            channel_id: self.channel_id,
            user_id: self.user_id,
            guild_id: self.guild_id,
        }
    }
}

/// The views of a sequence of tickets.
pub open spec fn views_of(s: Seq<Ticket>) -> Seq<TicketView> {
    Seq::new(s.len(), |i: int| s[i]@)
}

/// The caller-supplied fields of a ticket about to be created. The
/// identifier is pre-allocated by the creation intent; the creation
/// timestamp is assigned by the repository at insert time.
pub struct CreateTicketData {
    pub id: ObjectId,
    pub channel_id: i64,
    pub user_id: i64,
    pub guild_id: i64,
}

/// The signed 64-bit number with the same bit pattern as an unsigned
/// platform identifier.
pub open spec fn spec_signed_of_unsigned(n: u64) -> i64 {
    if n <= 0x7fff_ffff_ffff_ffff {
        n as i64
    } else {
        (n - 0x1_0000_0000_0000_0000) as i64
    }
}

/// Reinterprets an unsigned platform identifier as a signed 64-bit number,
/// preserving the bit pattern. This is a deliberate lossless
/// reinterpretation at the storage boundary, not a range-limited cast.
pub fn signed_of_unsigned(n: u64) -> (r: i64)
    ensures
        r == spec_signed_of_unsigned(n),
{
    if n <= 0x7fff_ffff_ffff_ffff {
        n as i64
    } else {
        -((u64::MAX - n) as i64) - 1
    }
}

impl CreateTicketData {
    /// Builds a creation intent from unsigned platform identifiers, drawing
    /// a fresh store-native identifier.
    pub fn from_snowflakes(channel_id: u64, user_id: u64, guild_id: u64) -> (r: CreateTicketData)
        ensures
            r.id.wf(),
            r.channel_id == spec_signed_of_unsigned(channel_id),
            r.user_id == spec_signed_of_unsigned(user_id),
            r.guild_id == spec_signed_of_unsigned(guild_id),
    {
        CreateTicketData {
            id: ObjectId::new(),
            channel_id: signed_of_unsigned(channel_id),
            user_id: signed_of_unsigned(user_id),
            guild_id: signed_of_unsigned(guild_id),
        }
    }
}

/// Relies on `chrono::Utc::now`: the current wall-clock instant, in
/// milliseconds since the Unix epoch. The value depends on the clock, so
/// nothing is stated of it.
#[verifier::external_body]
pub(crate) fn now_unix_millis() -> i64 {
    chrono::Utc::now().timestamp_millis()
}

impl Ticket {
    /// A well-formed ticket carries a twelve-byte identifier.
    pub open spec fn wf(&self) -> bool {
        self.id.wf()
    }

    /// Builds the full entity from a creation intent, stamping it with the
    /// given creation instant. Every caller-supplied field is carried over
    /// unchanged; `created_at` is exactly the instant, set once and
    /// immutable thereafter.
    pub fn from_data_at(data: CreateTicketData, created_at: i64) -> (r: Ticket)
        ensures
            r.id@ == data.id@,
            r.created_at == created_at,
            r.channel_id == data.channel_id,
            r.user_id == data.user_id,
            r.guild_id == data.guild_id,
            data.id.wf() ==> r.wf(),
    {
        Ticket {
            id: data.id,
            created_at,
            channel_id: data.channel_id,
            user_id: data.user_id,
            guild_id: data.guild_id,
        }
    }

    /// Builds the full entity from a creation intent, stamping it with the
    /// wall clock's current instant. The stamping itself is `from_data_at`,
    /// whose contract pins `created_at` to the instant it is given; the
    /// instant read here comes from the clock, so nothing is promised of
    /// its value.
    pub fn from_data(data: CreateTicketData) -> (r: Ticket)
        ensures
            r.id@ == data.id@,
            r.channel_id == data.channel_id,
            r.user_id == data.user_id,
            r.guild_id == data.guild_id,
            data.id.wf() ==> r.wf(),
    {
        let now = now_unix_millis();
        Ticket::from_data_at(data, now)
    }
}

/// The value of a query filter: by identifier, or by community and owner.
pub enum FilterView {
    ById(Seq<u8>),
    ByMember(i64, i64),
}

/// A query filter over the ticket collection.
pub enum TicketFilter {
    /// Matches the single document carrying this identifier.
    ById(ObjectId),
    /// Matches every document scoped to this community and owner, in that
    /// field order.
    ByMember(i64, i64),
}

impl View for TicketFilter {
    type V = FilterView;

    open spec fn view(&self) -> FilterView {
        match self {
            TicketFilter::ById(oid) => FilterView::ById(oid@),
            TicketFilter::ByMember(g, u) => FilterView::ByMember(*g, *u),
        }
    }
}

/// Whether a ticket satisfies a filter.
pub open spec fn filter_matches(f: FilterView, t: TicketView) -> bool {
    match f {
        FilterView::ById(id) => t.id == id,
        FilterView::ByMember(g, u) => t.guild_id == g && t.user_id == u,
    }
}

/// Decides whether a ticket satisfies a filter.
pub fn matches_filter(f: &TicketFilter, t: &Ticket) -> (r: bool)
    ensures
        r == filter_matches(f@, t@),
{
    match f {
        TicketFilter::ById(oid) => crate::object_id::bytes_eq_object_id(oid, &t.id),
        TicketFilter::ByMember(g, u) => *g == t.guild_id && *u == t.user_id,
    }
}

} // verus!
