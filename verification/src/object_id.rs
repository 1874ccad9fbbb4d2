//! Store-native document identifiers: twelve bytes, rendered and parsed as
//! twenty-four hexadecimal characters.

use crate::errors::BotError;
use crate::text::{ascii_bytes_to_string, ascii_chars_of};
use vstd::prelude::*;
use vstd::string::StrSliceExecFns;

verus! {

/// Whether `c` is a hexadecimal digit, in either case.
pub open spec fn is_hex_digit(c: char) -> bool {
    (48 <= c as u32 && c as u32 <= 57)  // '0'..='9'
    || (97 <= c as u32 && c as u32 <= 102)  // 'a'..='f'
    || (65 <= c as u32 && c as u32 <= 70)  // 'A'..='F'
}

/// The value of a hexadecimal digit.
pub open spec fn hex_digit_val(c: char) -> u8 {
    if 48 <= c as u32 && c as u32 <= 57 {
        (c as u32 - 48) as u8
    } else if 97 <= c as u32 && c as u32 <= 102 {
        (c as u32 - 87) as u8
    } else {
        (c as u32 - 55) as u8
    }
}

/// The lower-case hexadecimal digit for a value below sixteen.
pub open spec fn hex_char_of_nibble(n: u8) -> char {
    if n < 10 {
        ((48 + n) as u8) as char
    } else {
        ((87 + n) as u8) as char
    }
}

/// A well-formed identifier text: exactly twenty-four hexadecimal digits.
pub open spec fn is_object_id_text(s: Seq<char>) -> bool {
    s.len() == 24 && forall|i: int| 0 <= i < s.len() ==> is_hex_digit(#[trigger] s[i])
}

/// The bytes spelled by a sequence of hexadecimal digit pairs.
pub open spec fn bytes_of_hex(s: Seq<char>) -> Seq<u8> {
    Seq::new(s.len() / 2, |i: int| (hex_digit_val(s[2 * i]) * 16 + hex_digit_val(s[2 * i + 1])) as u8)
}

/// The lower-case hexadecimal spelling of a byte sequence.
pub open spec fn hex_of_bytes(b: Seq<u8>) -> Seq<char> {
    Seq::new(
        2 * b.len(),
        |i: int|
            if i % 2 == 0 {
                hex_char_of_nibble(b[i / 2] / 16)
            } else {
                hex_char_of_nibble(b[i / 2] % 16)
            },
    )
}

/// A store-native unique identifier: twelve bytes.
///
/// The store assigns no meaning the repository relies on beyond uniqueness;
/// a fresh identifier is drawn from the document-store driver.
#[derive(Debug, PartialEq, Eq)]
pub struct ObjectId {
    bytes: Vec<u8>,
}

impl View for ObjectId {
    type V = Seq<u8>;

    closed spec fn view(&self) -> Seq<u8> {
        self.bytes@
    }
}

impl Clone for ObjectId {
    fn clone(&self) -> (r: Self)
        ensures
            r@ == self@,
    {
        ObjectId { bytes: crate::text::clone_bytes(&self.bytes) }
    }
}

/// Relies on `bson::oid::ObjectId::new`: a freshly generated identifier is
/// twelve bytes (a timestamp, a per-process random value, and a counter).
/// The value depends on the clock and on randomness, so nothing more is
/// stated of it.
#[verifier::external_body]
fn generate_object_id_bytes() -> (r: Vec<u8>)
    ensures
        r@.len() == 12,
{
    bson::oid::ObjectId::new().bytes().to_vec()
}

impl ObjectId {
    /// A well-formed identifier holds exactly twelve bytes.
    pub open spec fn wf(&self) -> bool {
        self@.len() == 12
    }

    /// Draws a fresh identifier from the document-store driver.
    pub fn new() -> (r: ObjectId)
        ensures
            r.wf(),
    {
        ObjectId { bytes: generate_object_id_bytes() }
    }

    /// Builds an identifier from its twelve bytes.
    pub fn from_bytes(bytes: Vec<u8>) -> (r: ObjectId)
        requires
            bytes@.len() == 12,
        ensures
            r@ == bytes@,
            r.wf(),
    {
        ObjectId { bytes }
    }

    /// Renders the identifier as twenty-four lower-case hexadecimal digits.
    pub fn to_hex(&self) -> (r: String)
        requires
            self.wf(),
        ensures
            r@ == hex_of_bytes(self@),
            is_object_id_text(r@),
            bytes_of_hex(r@) == self@,
    {
        let mut out: Vec<u8> = Vec::new();
        let mut i: usize = 0;
        while i < self.bytes.len()
            invariant
                i <= self.bytes@.len(),
                out@.len() == 2 * i,
                forall|k: int| 0 <= k < out@.len() ==> #[trigger] out@[k] < 128,
                ascii_chars_of(out@) =~= hex_of_bytes(self.bytes@.take(i as int)),
            decreases self.bytes@.len() - i,
        {
            let ghost prev = out@;
            let b = self.bytes[i];
            let hi = b / 16;
            let lo = b % 16;
            out.push(if hi < 10 { 48 + hi } else { 87 + hi });
            out.push(if lo < 10 { 48 + lo } else { 87 + lo });
            proof {
                let t = self.bytes@.take(i + 1);
                assert forall|k: int| 0 <= k < out@.len() implies ascii_chars_of(out@)[k]
                    == hex_of_bytes(t)[k] by {
                    if k < 2 * i {
                        assert(out@[k] == prev[k]);
                        assert(t[k / 2] == self.bytes@.take(i as int)[k / 2]);
                        assert(ascii_chars_of(prev)[k] == hex_of_bytes(
                            self.bytes@.take(i as int),
                        )[k]);
                    } else {
                        assert(t[k / 2] == b);
                    }
                }
                assert(ascii_chars_of(out@) =~= hex_of_bytes(t));
            }
            i = i + 1;
        }
        proof {
            assert(self.bytes@.take(self.bytes@.len() as int) =~= self.bytes@);
            lemma_hex_of_bytes_well_formed(self.bytes@);
            lemma_bytes_of_hex_of_bytes(self.bytes@);
        }
        ascii_bytes_to_string(out)
    }
}

/// The hexadecimal spelling of twelve bytes is a well-formed identifier text.
proof fn lemma_hex_of_bytes_well_formed(b: Seq<u8>)
    requires
        b.len() == 12,
    ensures
        is_object_id_text(hex_of_bytes(b)),
{
    assert forall|i: int| 0 <= i < hex_of_bytes(b).len() implies is_hex_digit(
        #[trigger] hex_of_bytes(b)[i],
    ) by {
        let n = if i % 2 == 0 {
            b[i / 2] / 16
        } else {
            b[i / 2] % 16
        };
        assert(n < 16);
    }
}

/// Parsing the hexadecimal spelling of a byte sequence gives the bytes back.
proof fn lemma_bytes_of_hex_of_bytes(b: Seq<u8>)
    ensures
        bytes_of_hex(hex_of_bytes(b)) =~= b,
{
    assert forall|i: int| 0 <= i < b.len() implies bytes_of_hex(hex_of_bytes(b))[i] == b[i] by {
        let hi = b[i] / 16;
        let lo = b[i] % 16;
        assert(hex_digit_val(hex_char_of_nibble(hi)) == hi);
        assert(hex_digit_val(hex_char_of_nibble(lo)) == lo);
        assert(hi * 16 + lo == b[i]);
    }
}

/// Decides whether two identifiers hold the same bytes.
pub fn bytes_eq_object_id(a: &ObjectId, b: &ObjectId) -> (r: bool)
    ensures
        r == (a@ == b@),
{
    if a.bytes.len() != b.bytes.len() {
        proof {
            assert(a@ != b@);
        }
        return false;
    }
    let mut i: usize = 0;
    while i < a.bytes.len()
        invariant
            i <= a@.len(),
            a@.len() == b@.len(),
            forall|k: int| 0 <= k < i ==> a@[k] == b@[k],
        decreases a@.len() - i,
    {
        if a.bytes[i] != b.bytes[i] {
            proof {
                assert(a@[i as int] != b@[i as int]);
            }
            return false;
        }
        i = i + 1;
    }
    proof {
        assert(a@ =~= b@);
    }
    true
}

/// Converts a hexadecimal digit to its value; fails on any other character.
fn hex_val(c: char) -> (r: Option<u8>)
    ensures
        r is Some <==> is_hex_digit(c),
        r matches Some(v) ==> v == hex_digit_val(c) && v < 16,
{
    let u = c as u32;
    if 48 <= u && u <= 57 {
        Some((u - 48) as u8)
    } else if 97 <= u && u <= 102 {
        Some((u - 87) as u8)
    } else if 65 <= u && u <= 70 {
        Some((u - 55) as u8)
    } else {
        None
    }
}

/// Parses a caller-supplied identifier string into a store-native identifier.
///
/// Exactly the strings of twenty-four hexadecimal digits are accepted; any
/// other input is a caller bug and is rejected without touching any store.
pub fn parse_object_id(id: &str) -> (r: Result<ObjectId, BotError>)
    ensures
        r is Ok <==> is_object_id_text(id@),
        r matches Ok(oid) ==> oid@ == bytes_of_hex(id@) && oid.wf(),
        r is Err ==> r == Err::<ObjectId, BotError>(BotError::InvalidIdentifier),
{
    let n = id.unicode_len();
    if n != 24 {
        return Err(BotError::InvalidIdentifier);
    }
    let mut bytes: Vec<u8> = Vec::new();
    let mut j: usize = 0;
    while j < 12
        invariant
            j <= 12,
            id@.len() == 24,
            bytes@.len() == j,
            forall|k: int| 0 <= k < 2 * j ==> is_hex_digit(#[trigger] id@[k]),
            forall|k: int| 0 <= k < j ==> bytes@[k] == bytes_of_hex(id@)[k],
        decreases 12 - j,
    {
        let hi = match hex_val(id.get_char(2 * j)) {
            Some(v) => v,
            None => {
                return Err(BotError::InvalidIdentifier);
            },
        };
        let lo = match hex_val(id.get_char(2 * j + 1)) {
            Some(v) => v,
            None => {
                return Err(BotError::InvalidIdentifier);
            },
        };
        bytes.push(hi * 16 + lo);
        j = j + 1;
    }
    proof {
        assert(bytes@ =~= bytes_of_hex(id@));
    }
    Ok(ObjectId { bytes })
}

} // verus!
