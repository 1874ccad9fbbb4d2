//! The interaction-correlation cache.
//!
//! A command response that offers a follow-up control mints an opaque,
//! unguessable correlation id, serializes the minimal interaction state under
//! a namespaced key in the expiring key-value store, and embeds the id in the
//! control. A later follow-up action resolves the id back to that state —
//! at most once, and only while the time-to-live has not elapsed.

use crate::errors::BotError;
use crate::kv::MemoryKvStore;
use crate::text::utf8_to_string;
use vstd::prelude::*;
use vstd::string::{StrSliceExecFns, StringExecFns};
use vstd::utf8::{
    decode_utf8, encode_utf8, encode_utf8_decode_utf8, encode_utf8_valid_utf8, valid_utf8,
};

verus! {

/// The ephemeral state bridging two causally related interaction exchanges:
/// who acted, who is affected, and the opaque credential needed to emit a
/// follow-up response on the original interaction.
#[derive(Debug)]
pub struct CorrelationRecord {
    /// The acting principal.
    pub issuer_id: u64,
    /// The affected principal.
    pub target_id: u64,
    /// The opaque reply credential. Never logged or exposed to others.
    pub reply_token: String,
}

impl CorrelationRecord {
    pub fn new(issuer_id: u64, target_id: u64, reply_token: String) -> (r: CorrelationRecord)
        ensures
            r.issuer_id == issuer_id,
            r.target_id == target_id,
            r.reply_token == reply_token,
    {
        CorrelationRecord { issuer_id, target_id, reply_token }
    }

    /// The serialized form of this record.
    pub open spec fn encoding(&self) -> Seq<u8> {
        spec_encode(self.issuer_id, self.target_id, self.reply_token@)
    }
}

impl Clone for CorrelationRecord {
    fn clone(&self) -> (r: Self)
        ensures
            r == *self,
    {
        CorrelationRecord {
            issuer_id: self.issuer_id,
            target_id: self.target_id,
            reply_token: self.reply_token.clone(),
        }
    }
}

/// The big-endian bytes of a 64-bit identifier.
pub open spec fn u64_be_bytes(n: u64) -> Seq<u8> {
    Seq::new(8, |i: int| ((n >> (((7 - i) * 8) as u64)) & 0xff) as u8)
}

/// The 64-bit identifier spelled by eight big-endian bytes.
pub open spec fn u64_of_be(b: Seq<u8>) -> u64
    recommends
        b.len() == 8,
{
    ((b[0] as u64) << 56) | ((b[1] as u64) << 48) | ((b[2] as u64) << 40) | ((b[3] as u64) << 32)
        | ((b[4] as u64) << 24) | ((b[5] as u64) << 16) | ((b[6] as u64) << 8) | (b[7] as u64)
}

/// The serialized form of a correlation record: the two principal ids as
/// big-endian bytes, then the reply credential in UTF-8.
pub open spec fn spec_encode(issuer: u64, target: u64, token: Seq<char>) -> Seq<u8> {
    u64_be_bytes(issuer) + u64_be_bytes(target) + encode_utf8(token)
}

/// The state read back from serialized bytes, if they are well-formed.
pub open spec fn spec_decode(v: Seq<u8>) -> Option<(u64, u64, Seq<char>)> {
    if v.len() >= 16 && valid_utf8(v.skip(16)) {
        Some(
            (
                u64_of_be(v.subrange(0, 8)),
                u64_of_be(v.subrange(8, 16)),
                decode_utf8(v.skip(16)),
            ),
        )
    } else {
        None
    }
}

/// A masked byte fits in eight bits.
proof fn lemma_masked_byte_bound(x: u64)
    ensures
        x & 0xff < 256,
{
    assert(x & 0xff < 256) by (bit_vector);
}

/// Reassembling the big-endian bytes of an identifier gives it back.
pub proof fn lemma_u64_be_round_trip(n: u64)
    ensures
        u64_of_be(u64_be_bytes(n)) == n,
{
    let b = u64_be_bytes(n);
    lemma_masked_byte_bound(n >> 56);
    lemma_masked_byte_bound(n >> 48);
    lemma_masked_byte_bound(n >> 40);
    lemma_masked_byte_bound(n >> 32);
    lemma_masked_byte_bound(n >> 24);
    lemma_masked_byte_bound(n >> 16);
    lemma_masked_byte_bound(n >> 8);
    lemma_masked_byte_bound(n >> 0);
    assert(b[0] as u64 == (n >> 56) & 0xff);
    assert(b[1] as u64 == (n >> 48) & 0xff);
    assert(b[2] as u64 == (n >> 40) & 0xff);
    assert(b[3] as u64 == (n >> 32) & 0xff);
    assert(b[4] as u64 == (n >> 24) & 0xff);
    assert(b[5] as u64 == (n >> 16) & 0xff);
    assert(b[6] as u64 == (n >> 8) & 0xff);
    assert(b[7] as u64 == (n >> 0) & 0xff);
    assert((((n >> 56) & 0xff) << 56) | (((n >> 48) & 0xff) << 48) | (((n >> 40) & 0xff) << 40) | ((
    (n >> 32) & 0xff) << 32) | (((n >> 24) & 0xff) << 24) | (((n >> 16) & 0xff) << 16) | (((n >> 8)
        & 0xff) << 8) | ((n >> 0) & 0xff) == n) by (bit_vector);
}

/// Deserializing a serialized record returns exactly what was serialized.
///
/// This is what makes an issued correlation record come back unchanged from
/// an immediate resolve, for every valid state payload.
pub proof fn lemma_codec_round_trip(issuer: u64, target: u64, token: Seq<char>)
    ensures
        spec_decode(spec_encode(issuer, target, token)) == Some((issuer, target, token)),
{
    let v = spec_encode(issuer, target, token);
    assert(v.subrange(0, 8) =~= u64_be_bytes(issuer));
    assert(v.subrange(8, 16) =~= u64_be_bytes(target));
    assert(v.skip(16) =~= encode_utf8(token));
    encode_utf8_valid_utf8(token);
    encode_utf8_decode_utf8(token);
    lemma_u64_be_round_trip(issuer);
    lemma_u64_be_round_trip(target);
}

/// Appends the big-endian bytes of `n`.
fn push_u64_be(out: &mut Vec<u8>, n: u64)
    ensures
        final(out)@ == old(out)@ + u64_be_bytes(n),
{
    proof {
        lemma_masked_byte_bound(n >> 56);
        lemma_masked_byte_bound(n >> 48);
        lemma_masked_byte_bound(n >> 40);
        lemma_masked_byte_bound(n >> 32);
        lemma_masked_byte_bound(n >> 24);
        lemma_masked_byte_bound(n >> 16);
        lemma_masked_byte_bound(n >> 8);
        lemma_masked_byte_bound(n >> 0);
    }
    out.push(((n >> 56) & 0xff) as u8);
    out.push(((n >> 48) & 0xff) as u8);
    out.push(((n >> 40) & 0xff) as u8);
    out.push(((n >> 32) & 0xff) as u8);
    out.push(((n >> 24) & 0xff) as u8);
    out.push(((n >> 16) & 0xff) as u8);
    out.push(((n >> 8) & 0xff) as u8);
    out.push(((n >> 0) & 0xff) as u8);
    proof {
        assert(out@ =~= old(out)@ + u64_be_bytes(n));
    }
}

/// Appends every byte of `src`.
fn append_bytes(dst: &mut Vec<u8>, src: &Vec<u8>)
    ensures
        final(dst)@ == old(dst)@ + src@,
{
    let mut i: usize = 0;
    while i < src.len()
        invariant
            i <= src@.len(),
            dst@ == old(dst)@ + src@.take(i as int),
        decreases src@.len() - i,
    {
        dst.push(src[i]);
        i = i + 1;
        proof {
            assert(dst@ =~= old(dst)@ + src@.take(i as int));
        }
    }
    proof {
        assert(old(dst)@ + src@.take(src@.len() as int) =~= old(dst)@ + src@);
    }
}

/// Serializes a correlation record.
pub fn encode_record(record: &CorrelationRecord) -> (r: Vec<u8>)
    ensures
        r@ == record.encoding(),
{
    let mut out: Vec<u8> = Vec::new();
    push_u64_be(&mut out, record.issuer_id);
    push_u64_be(&mut out, record.target_id);
    let token_bytes = record.reply_token.as_str().as_bytes_vec();
    append_bytes(&mut out, &token_bytes);
    proof {
        assert(out@ =~= record.encoding());
    }
    out
}

/// Reads the eight big-endian bytes starting at `off`.
fn read_u64_be(v: &Vec<u8>, off: usize) -> (r: u64)
    requires
        off + 8 <= v@.len(),
    ensures
        r == u64_of_be(v@.subrange(off as int, off as int + 8)),
{
    proof {
        broadcast use vstd::std_specs::vec::axiom_spec_len;

        assert(v.len() == v@.len());
    }
    let r = ((v[off] as u64) << 56) | ((v[off + 1] as u64) << 48) | ((v[off + 2] as u64) << 40) | ((
    v[off + 3] as u64) << 32) | ((v[off + 4] as u64) << 24) | ((v[off + 5] as u64) << 16) | ((v[off
        + 6] as u64) << 8) | (v[off + 7] as u64);
    proof {
        let b = v@.subrange(off as int, off as int + 8);
        assert(b[0] == v@[off as int]);
        assert(b[1] == v@[off as int + 1]);
        assert(b[2] == v@[off as int + 2]);
        assert(b[3] == v@[off as int + 3]);
        assert(b[4] == v@[off as int + 4]);
        assert(b[5] == v@[off as int + 5]);
        assert(b[6] == v@[off as int + 6]);
        assert(b[7] == v@[off as int + 7]);
    }
    r
}

/// Deserializes a correlation record; fails exactly on bytes that no record
/// serializes to.
pub fn decode_record(v: &Vec<u8>) -> (r: Option<CorrelationRecord>)
    ensures
        r is Some <==> spec_decode(v@) is Some,
        r matches Some(rec) ==> spec_decode(v@) == Some(
            (rec.issuer_id, rec.target_id, rec.reply_token@),
        ),
{
    if v.len() < 16 {
        return None;
    }
    let issuer_id = read_u64_be(v, 0);
    let target_id = read_u64_be(v, 8);
    let mut rest: Vec<u8> = Vec::new();
    let mut i: usize = 16;
    while i < v.len()
        invariant
            16 <= i <= v@.len(),
            v@.len() >= 16,
            rest@ == v@.subrange(16, i as int),
        decreases v@.len() - i,
    {
        rest.push(v[i]);
        i = i + 1;
        proof {
            assert(rest@ =~= v@.subrange(16, i as int));
        }
    }
    proof {
        assert(rest@ =~= v@.skip(16));
    }
    match utf8_to_string(rest) {
        Some(reply_token) => {
            proof {
                encode_utf8_decode_utf8(reply_token@);
            }
            Some(CorrelationRecord { issuer_id, target_id, reply_token })
        },
        None => None,
    }
}

/// The namespaced storage key for a correlation id. The prefix keeps the
/// key family self-describing and collision-free against other cached key
/// families sharing the same store.
pub open spec fn component_key(id: Seq<char>) -> Seq<char> {
    "component/"@ + id
}

/// Distinct correlation ids use distinct storage keys.
proof fn lemma_component_key_injective(a: Seq<char>, b: Seq<char>)
    requires
        component_key(a) == component_key(b),
    ensures
        a == b,
{
    let p = "component/"@;
    assert((p + a).skip(p.len() as int) =~= a);
    assert((p + b).skip(p.len() as int) =~= b);
}

/// Builds the namespaced storage key for a correlation id.
fn component_key_exec(id: &String) -> (r: String)
    ensures
        r@ == component_key(id@),
{
    "component/".to_owned().concat(id.as_str())
}

/// Relies on `nanoid::format` with the URL-safe alphabet: the result is a
/// freshly drawn random identifier of exactly thirty characters. The value
/// is random, so nothing more is stated of it.
#[verifier::external_body]
fn gen_correlation_id() -> (r: String)
    ensures
        r@.len() == 30,
{
    nanoid::format(nanoid::rngs::default, &nanoid::alphabet::SAFE, 30)
}

/// The correlation cache: mints opaque correlation ids and stashes the
/// serialized interaction state under them, bounded by a time-to-live and
/// consumed on read.
pub struct CorrelationCache {
    store: MemoryKvStore,
}

impl CorrelationCache {
    /// Every entry this cache has written and not superseded is either a
    /// consumed marker (live at no instant) or deserializes to a record.
    pub closed spec fn wf(&self) -> bool {
        forall|k: Seq<char>| #[trigger]
            self.store.spec_lookup(k) matches Some((v, e)) ==> e == 0 || spec_decode(v) is Some
    }

    /// The state issued under `id` and not yet consumed, with its expiry
    /// instant, if any.
    pub closed spec fn pending(&self, id: Seq<char>) -> Option<((u64, u64, Seq<char>), u64)> {
        match self.store.spec_lookup(component_key(id)) {
            Some((v, e)) => match spec_decode(v) {
                Some(st) => Some((st, e)),
                None => None,
            },
            None => None,
        }
    }

    /// Whether a resolve of `id` at instant `now` succeeds.
    pub open spec fn resolvable(&self, id: Seq<char>, now: u64) -> bool {
        match self.pending(id) {
            Some((st, e)) => now < e,
            None => false,
        }
    }

    /// A cache with nothing pending.
    pub fn new() -> (r: CorrelationCache)
        ensures
            r.wf(),
            forall|id: Seq<char>| r.pending(id) is None,
    {
        CorrelationCache { store: MemoryKvStore::new() }
    }

    /// Serializes `record`, mints a fresh opaque correlation id, and stores
    /// the bytes under the namespaced key until `now + ttl`. Returns the id.
    ///
    /// The in-memory store accepts every write, so this always succeeds; a
    /// deployment whose backing store can refuse a write reports that as
    /// `StorageUnavailable`.
    pub fn issue(&mut self, record: &CorrelationRecord, ttl: u64, now: u64) -> (r: Result<
        String,
        BotError,
    >)
        requires
            old(self).wf(),
            now + ttl <= u64::MAX,
        ensures
            final(self).wf(),
            r is Ok,
            r matches Ok(id) ==> {
                &&& id@.len() == 30
                &&& final(self).pending(id@) == Some(
                    (
                        (record.issuer_id, record.target_id, record.reply_token@),
                        (now + ttl) as u64,
                    ),
                )
                &&& forall|j: Seq<char>|
                    j != id@ ==> final(self).pending(j) == old(self).pending(j)
            },
    {
        let id = gen_correlation_id();
        let key = component_key_exec(&id);
        let value = encode_record(record);
        proof {
            lemma_codec_round_trip(record.issuer_id, record.target_id, record.reply_token@);
        }
        self.store.set_ttl(key, value, ttl, now);
        proof {
            assert forall|j: Seq<char>| j != id@ implies self.pending(j) == old(self).pending(
                j,
            ) by {
                if component_key(j) == component_key(id@) {
                    lemma_component_key_injective(j, id@);
                }
            }
        }
        Ok(id)
    }

    /// Looks up the namespaced key for `id` and, when a record is live at
    /// instant `now`, consumes it and returns the deserialized state. The
    /// record is single-use: after a successful resolve, no resolve of the
    /// same id succeeds at any instant.
    ///
    /// An id that was never issued, was already consumed, or whose
    /// time-to-live has elapsed is indistinguishable to the caller: each
    /// fails with `ExpiredOrUnknown`, and the cache is left unchanged.
    pub fn resolve(&mut self, id: &String, now: u64) -> (r: Result<CorrelationRecord, BotError>)
        requires
            old(self).wf(),
        ensures
            final(self).wf(),
            old(self).resolvable(id@, now) ==> {
                &&& r matches Ok(rec) && old(self).pending(id@) matches Some((st, e)) && st == (
                rec.issuer_id,
                rec.target_id,
                rec.reply_token@,
                )
                &&& final(self).pending(id@) is None
                &&& forall|t: u64| !final(self).resolvable(id@, t)
                &&& forall|j: Seq<char>|
                    j != id@ ==> final(self).pending(j) == old(self).pending(j)
            },
            !old(self).resolvable(id@, now) ==> r == Err::<CorrelationRecord, BotError>(
                BotError::ExpiredOrUnknown,
            ) && *final(self) == *old(self),
    {
        let key = component_key_exec(id);
        match self.store.get(&key, now) {
            Some(v) => {
                self.store.remove(&key);
                proof {
                    assert forall|j: Seq<char>| j != id@ implies self.pending(j) == old(
                        self,
                    ).pending(j) by {
                        if component_key(j) == component_key(id@) {
                            lemma_component_key_injective(j, id@);
                        }
                    }
                }
                match decode_record(&v) {
                    Some(rec) => Ok(rec),
                    None => {
                        proof {
                            assert(false);
                        }
                        Err(BotError::ExpiredOrUnknown)
                    },
                }
            },
            None => Err(BotError::ExpiredOrUnknown),
        }
    }
}

/// Issuing a correlation record and resolving its id while the
/// time-to-live has not elapsed returns state equal to what was issued,
/// for every state payload: a cache in the state `issue` leaves behind is
/// resolvable, and the pending state `resolve`'s contract hands back is
/// exactly the issued triple.
pub proof fn lemma_issue_then_resolve(
    after_issue: CorrelationCache,
    id: Seq<char>,
    issuer: u64,
    target: u64,
    token: Seq<char>,
    expires: u64,
    resolve_at: u64,
)
    requires
        after_issue.pending(id) == Some(((issuer, target, token), expires)),
        resolve_at < expires,
    ensures
        after_issue.resolvable(id, resolve_at),
        after_issue.pending(id) matches Some((st, e)) && st == (issuer, target, token),
{
}

/// Resolving an id whose time-to-live has elapsed, and resolving an id
/// that was never issued, both fail: neither state is resolvable, so
/// `resolve`'s contract returns `ExpiredOrUnknown` and leaves the cache
/// unchanged in either case.
pub proof fn lemma_elapsed_or_unknown_fails(c: CorrelationCache, id: Seq<char>, now: u64)
    requires
        c.pending(id) matches Some((st, e)) ==> now >= e,
    ensures
        !c.resolvable(id, now),
{
}

/// Consume-on-read: a successful resolve leaves nothing pending under the
/// id, so a second resolve of the same id fails at every instant with
/// `ExpiredOrUnknown`.
pub proof fn lemma_consume_on_read(after_resolve: CorrelationCache, id: Seq<char>, t: u64)
    requires
        after_resolve.pending(id) is None,
    ensures
        !after_resolve.resolvable(id, t),
{
}

} // verus!
