//! An in-memory key-value store with per-key expiry.
//!
//! This is the model of the "key-value store boundary": set a value with a
//! time-to-live, get a value, delete a value. Time is a caller-supplied
//! instant, so expiry is decided by comparison, never by a wall clock.
//!
//! The store keeps an append-only log of writes; the latest write for a key
//! wins. A delete is a write that is live at no instant.

use vstd::prelude::*;

verus! {

/// One write in the log: a key, the stored bytes, and the instant at which
/// the entry stops being retrievable.
struct KvEntry {
    key: String,
    value: Vec<u8>,
    expires_at: u64,
}

/// The latest write for `key` in `log`, if any: the stored bytes and the
/// expiry instant.
pub open spec fn lookup_log(
    log: Seq<(Seq<char>, Seq<u8>, u64)>,
    key: Seq<char>,
) -> Option<(Seq<u8>, u64)>
    decreases log.len(),
{
    if log.len() == 0 {
        None
    } else if log.last().0 == key {
        Some((log.last().1, log.last().2))
    } else {
        lookup_log(log.drop_last(), key)
    }
}

/// A key-value store with per-key expiry, backed by process memory.
pub struct MemoryKvStore {
    entries: Vec<KvEntry>,
}

impl MemoryKvStore {
    /// The log of writes, oldest first.
    pub closed spec fn log(&self) -> Seq<(Seq<char>, Seq<u8>, u64)> {
        Seq::new(
            self.entries@.len(),
            |i: int|
                (self.entries@[i].key@, self.entries@[i].value@, self.entries@[i].expires_at),
        )
    }

    /// The latest write for `key`, if any.
    pub open spec fn spec_lookup(&self, key: Seq<char>) -> Option<(Seq<u8>, u64)> {
        lookup_log(self.log(), key)
    }

    /// The bytes retrievable under `key` at instant `now`, if any.
    pub open spec fn live_value(&self, key: Seq<char>, now: u64) -> Option<Seq<u8>> {
        match self.spec_lookup(key) {
            Some((v, e)) => if now < e {
                Some(v)
            } else {
                None
            },
            None => None,
        }
    }

    /// An empty store: nothing is retrievable under any key.
    pub fn new() -> (r: MemoryKvStore)
        ensures
            r.log() == Seq::<(Seq<char>, Seq<u8>, u64)>::empty(),
            forall|k: Seq<char>| r.spec_lookup(k) is None,
    {
        let r = MemoryKvStore { entries: Vec::new() };
        proof {
            assert(r.log() =~= Seq::<(Seq<char>, Seq<u8>, u64)>::empty());
        }
        r
    }

    /// Stores `value` under `key`; it stays retrievable until `now + ttl`.
    /// Any earlier write for the key is superseded; no other key changes.
    pub fn set_ttl(&mut self, key: String, value: Vec<u8>, ttl: u64, now: u64)
        requires
            now + ttl <= u64::MAX,
        ensures
            final(self).spec_lookup(key@) == Some((value@, (now + ttl) as u64)),
            forall|k: Seq<char>|
                k != key@ ==> final(self).spec_lookup(k) == old(self).spec_lookup(k),
    {
        let ghost old_log = self.log();
        let ghost entry = (key@, value@, (now + ttl) as u64);
        let expires_at = now + ttl;
        self.entries.push(KvEntry { key, value, expires_at });
        proof {
            assert(self.log() =~= old_log.push(entry));
            lemma_lookup_after_push(old_log, entry);
        }
    }

    /// Deletes `key`: afterwards nothing is retrievable under it at any
    /// instant. No other key changes.
    pub fn remove(&mut self, key: &String)
        ensures
            final(self).spec_lookup(key@) == Some((Seq::<u8>::empty(), 0u64)),
            forall|t: u64| final(self).live_value(key@, t) is None,
            forall|k: Seq<char>|
                k != key@ ==> final(self).spec_lookup(k) == old(self).spec_lookup(k),
    {
        let ghost old_log = self.log();
        let ghost entry = (key@, Seq::<u8>::empty(), 0u64);
        let k = key.clone();
        let tombstone: Vec<u8> = Vec::new();
        self.entries.push(KvEntry { key: k, value: tombstone, expires_at: 0 });
        proof {
            assert(self.log() =~= old_log.push(entry));
            lemma_lookup_after_push(old_log, entry);
        }
    }

    /// Retrieves the bytes stored under `key`, if they have not expired by
    /// instant `now`.
    pub fn get(&self, key: &String, now: u64) -> (r: Option<Vec<u8>>)
        ensures
            r is Some <==> self.live_value(key@, now) is Some,
            r matches Some(v) ==> self.live_value(key@, now) == Some(v@),
    {
        let mut i: usize = self.entries.len();
        proof {
            assert(self.log().take(i as int) =~= self.log());
        }
        while i > 0
            invariant
                i <= self.entries@.len(),
                lookup_log(self.log(), key@) == lookup_log(self.log().take(i as int), key@),
            decreases i,
        {
            i = i - 1;
            let entry = &self.entries[i];
            proof {
                assert(self.log().take(i + 1).drop_last() =~= self.log().take(i as int));
                assert(self.log().take(i + 1).last() == self.log()[i as int]);
            }
            if entry.key == *key {
                proof {
                    assert(lookup_log(self.log(), key@) == Some((entry.value@, entry.expires_at)));
                }
                if now < entry.expires_at {
                    return Some(crate::text::clone_bytes(&entry.value));
                } else {
                    return None;
                }
            }
        }
        proof {
            assert(self.log().take(0) =~= Seq::<(Seq<char>, Seq<u8>, u64)>::empty());
        }
        None
    }
}

/// How a lookup reads through a freshly appended write: the new write decides
/// its own key and no other.
proof fn lemma_lookup_after_push(
    log: Seq<(Seq<char>, Seq<u8>, u64)>,
    entry: (Seq<char>, Seq<u8>, u64),
)
    ensures
        lookup_log(log.push(entry), entry.0) == Some((entry.1, entry.2)),
        forall|k: Seq<char>|
            k != entry.0 ==> lookup_log(log.push(entry), k) == lookup_log(log, k),
{
    assert(log.push(entry).drop_last() =~= log);
    assert(log.push(entry).last() == entry);
}

} // verus!
