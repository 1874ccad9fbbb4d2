use duvua_core::errors::BotError;
use duvua_core::object_id::{parse_object_id, ObjectId};
use duvua_core::ticket::signed_of_unsigned;

#[test]
fn parse_and_render_round_trip() {
    let id = parse_object_id("507f1f77bcf86cd799439011").unwrap();
    assert_eq!(id.to_hex(), "507f1f77bcf86cd799439011");
}

#[test]
fn parse_accepts_upper_case_and_renders_lower_case() {
    let id = parse_object_id("507F1F77BCF86CD799439011").unwrap();
    assert_eq!(id.to_hex(), "507f1f77bcf86cd799439011");
}

#[test]
fn parse_agrees_with_the_store_driver() {
    // The same strings parse to the same identifier as the driver's own
    // parser, and the same strings are rejected.
    for s in ["507f1f77bcf86cd799439011", "000000000000000000000000", "FFFFFFFFFFFFFFFFFFFFFFFF"] {
        let mine = parse_object_id(s).unwrap();
        let theirs = bson::oid::ObjectId::parse_str(s).unwrap();
        assert_eq!(mine.to_hex(), theirs.to_hex());
    }
    for s in ["", "507f", "507f1f77bcf86cd79943901", "507f1f77bcf86cd7994390111", "g07f1f77bcf86cd799439011", "not-a-valid-id"] {
        assert_eq!(parse_object_id(s).unwrap_err(), BotError::InvalidIdentifier);
        assert!(bson::oid::ObjectId::parse_str(s).is_err());
    }
}

#[test]
fn rendering_spells_each_byte_as_two_digits() {
    let id = ObjectId::from_bytes(vec![
        0x50, 0x7f, 0x1f, 0x77, 0xbc, 0xf8, 0x6c, 0xd7, 0x99, 0x43, 0x90, 0x11,
    ]);
    assert_eq!(id.to_hex(), "507f1f77bcf86cd799439011");
    let zero = ObjectId::from_bytes(vec![0; 12]);
    assert_eq!(zero.to_hex(), "000000000000000000000000");
}

#[test]
fn fresh_identifiers_render_as_24_hex_digits() {
    let id = ObjectId::new();
    let hex = id.to_hex();
    assert_eq!(hex.len(), 24);
    assert!(hex.chars().all(|c| c.is_ascii_hexdigit()));
    // And the rendering parses back to the same identifier.
    assert_eq!(parse_object_id(&hex).unwrap(), id);
}

#[test]
fn fresh_identifiers_differ() {
    assert_ne!(ObjectId::new(), ObjectId::new());
}

#[test]
fn snowflake_reinterpretation_preserves_bit_patterns() {
    assert_eq!(signed_of_unsigned(0), 0);
    assert_eq!(signed_of_unsigned(5), 5);
    assert_eq!(signed_of_unsigned(i64::MAX as u64), i64::MAX);
    assert_eq!(signed_of_unsigned(u64::MAX), -1);
    assert_eq!(signed_of_unsigned(1 << 63), i64::MIN);
    assert_eq!(signed_of_unsigned(0xDEAD_BEEF_DEAD_BEEF), 0xDEAD_BEEF_DEAD_BEEFu64 as i64);
}
