use duvua_core::collection::MemoryCollection;
use duvua_core::errors::BotError;
use duvua_core::object_id::ObjectId;
use duvua_core::repository::{collect_limited, FindEvent, TicketRepository, TicketService};
use duvua_core::ticket::{CreateTicketData, Ticket};

fn service() -> TicketService {
    TicketService::new(MemoryCollection::new())
}

#[test]
fn get_after_create_returns_equal_entity() {
    let mut svc = service();
    let data = CreateTicketData::from_snowflakes(111, 222, 333);
    let created = svc.create(data).unwrap();
    let fetched = svc.get(created.id.to_hex()).unwrap();
    assert_eq!(fetched.id, created.id);
    assert_eq!(fetched.created_at, created.created_at);
    assert_eq!(fetched.channel_id, created.channel_id);
    assert_eq!(fetched.user_id, created.user_id);
    assert_eq!(fetched.guild_id, created.guild_id);
}

#[test]
fn create_at_stamps_the_given_instant() {
    let mut svc = service();
    let data = CreateTicketData::from_snowflakes(5, 6, 7);
    let created = svc.create_at(data, 1234567890).unwrap();
    assert_eq!(created.created_at, 1234567890);
    // The stamp is immutable thereafter: the stored entity carries it too.
    let fetched = svc.get(created.id.to_hex()).unwrap();
    assert_eq!(fetched.created_at, 1234567890);
}

#[test]
fn from_data_at_carries_fields_and_instant() {
    let data = CreateTicketData::from_snowflakes(5, 6, 7);
    let id = data.id.clone();
    let ticket = Ticket::from_data_at(data, -42);
    assert_eq!(ticket.id, id);
    assert_eq!(ticket.created_at, -42);
    assert_eq!(ticket.channel_id, 5);
    assert_eq!(ticket.user_id, 6);
    assert_eq!(ticket.guild_id, 7);
}

#[test]
fn create_with_duplicate_id_is_refused() {
    let mut svc = service();
    let id = ObjectId::from_bytes(vec![1, 2, 3, 4, 5, 6, 7, 8, 9, 10, 11, 12]);
    let first = CreateTicketData { id: id.clone(), channel_id: 1, user_id: 2, guild_id: 3 };
    let second = CreateTicketData { id, channel_id: 9, user_id: 2, guild_id: 3 };
    svc.create_at(first, 0).unwrap();
    // The unique-identifier index refuses the second insert.
    assert_eq!(svc.create_at(second, 1).unwrap_err(), BotError::StorageError);
    // The stored ticket is untouched.
    let got = svc.get(String::from("0102030405060708090a0b0c")).unwrap();
    assert_eq!(got.channel_id, 1);
}

#[test]
fn get_with_malformed_id_is_rejected() {
    let svc = service();
    let err = svc.get(String::from("not-a-valid-id")).unwrap_err();
    assert_eq!(err, BotError::InvalidIdentifier);
}

#[test]
fn get_with_unknown_id_is_not_found() {
    let svc = service();
    let err = svc.get(String::from("0123456789abcdef01234567")).unwrap_err();
    assert_eq!(err, BotError::NotFound);
}

#[test]
fn list_by_member_respects_limit() {
    let mut svc = service();
    for channel in 0..5u64 {
        svc.create(CreateTicketData::from_snowflakes(channel, 7, 9)).unwrap();
    }
    assert_eq!(svc.get_by_member(9, 7, 0).unwrap().len(), 0);
    assert_eq!(svc.get_by_member(9, 7, 3).unwrap().len(), 3);
    assert_eq!(svc.get_by_member(9, 7, 100).unwrap().len(), 5);
    // A different member sees nothing.
    assert_eq!(svc.get_by_member(9, 8, 100).unwrap().len(), 0);
}

#[test]
fn list_by_member_keeps_stored_order() {
    let mut svc = service();
    let a = svc.create(CreateTicketData::from_snowflakes(1, 7, 9)).unwrap();
    let b = svc.create(CreateTicketData::from_snowflakes(2, 7, 9)).unwrap();
    let listed = svc.get_by_member(9, 7, 10).unwrap();
    assert_eq!(listed.len(), 2);
    assert_eq!(listed[0].id, a.id);
    assert_eq!(listed[1].id, b.id);
}

#[test]
fn delete_nonexistent_is_not_found() {
    let mut svc = service();
    let err = svc.delete(String::from("0123456789abcdef01234567")).unwrap_err();
    assert_eq!(err, BotError::NotFound);
    let err = svc.delete(String::from("###")).unwrap_err();
    assert_eq!(err, BotError::InvalidIdentifier);
}

#[test]
fn delete_removes_exactly_the_named_ticket() {
    let mut svc = service();
    let a = svc.create(CreateTicketData::from_snowflakes(1, 7, 9)).unwrap();
    let b = svc.create(CreateTicketData::from_snowflakes(2, 7, 9)).unwrap();
    svc.delete(a.id.to_hex()).unwrap();
    assert_eq!(svc.get(a.id.to_hex()).unwrap_err(), BotError::NotFound);
    assert_eq!(svc.get(b.id.to_hex()).unwrap().id, b.id);
}

#[test]
fn delete_by_member_with_no_tickets_returns_zero() {
    let mut svc = service();
    assert_eq!(svc.delete_by_member(1, 1).unwrap(), 0);
}

#[test]
fn member_scenario_create_list_delete() {
    // Create tickets for (guild=1, user=1) three times, list with limit 2,
    // bulk-delete them, then list again.
    let mut svc = service();
    for channel in 0..3u64 {
        svc.create(CreateTicketData::from_snowflakes(channel, 1, 1)).unwrap();
    }
    assert_eq!(svc.get_by_member(1, 1, 2).unwrap().len(), 2);
    assert_eq!(svc.delete_by_member(1, 1).unwrap(), 3);
    assert_eq!(svc.get_by_member(1, 1, 10).unwrap().len(), 0);
}

#[test]
fn delete_by_member_leaves_other_members_alone() {
    let mut svc = service();
    svc.create(CreateTicketData::from_snowflakes(1, 1, 1)).unwrap();
    let other = svc.create(CreateTicketData::from_snowflakes(2, 5, 1)).unwrap();
    assert_eq!(svc.delete_by_member(1, 1).unwrap(), 1);
    assert_eq!(svc.get(other.id.to_hex()).unwrap().id, other.id);
}

fn plain_ticket(channel_id: i64) -> Ticket {
    Ticket { id: ObjectId::new(), created_at: 0, channel_id, user_id: 1, guild_id: 1 }
}

#[test]
fn stream_consumption_stops_at_limit_before_an_error() {
    let events = vec![
        FindEvent::Item(plain_ticket(1)),
        FindEvent::Item(plain_ticket(2)),
        FindEvent::ReadError,
    ];
    let collected = collect_limited(&events, 2).unwrap();
    assert_eq!(collected.len(), 2);
    assert_eq!(collected[0].channel_id, 1);
    assert_eq!(collected[1].channel_id, 2);
}

#[test]
fn stream_error_before_limit_discards_partial_results() {
    let events = vec![FindEvent::Item(plain_ticket(1)), FindEvent::ReadError];
    let err = collect_limited(&events, 5).unwrap_err();
    assert_eq!(err, BotError::StorageError);
}

#[test]
fn stream_with_zero_limit_reads_nothing() {
    let events = vec![FindEvent::ReadError];
    assert_eq!(collect_limited(&events, 0).unwrap().len(), 0);
}

#[test]
fn stream_shorter_than_limit_yields_everything() {
    let events = vec![FindEvent::Item(plain_ticket(4))];
    let collected = collect_limited(&events, 10).unwrap();
    assert_eq!(collected.len(), 1);
    assert_eq!(collected[0].channel_id, 4);
}
