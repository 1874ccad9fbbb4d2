//! The kiss command core.
//!
//! The dispatcher hands the core a command invocation — the issuer, an
//! optional target, and the opaque reply credential — and gets back a
//! response payload plus the follow-up controls to embed. A kiss aimed at
//! someone else issues a correlation record so that the target's later
//! click on a control can resume the interaction; a self-kiss offers no
//! follow-up and leaves the cache untouched. Rendering (text, images,
//! localization) belongs to the dispatcher, not to the core.

use crate::cache::{CorrelationCache, CorrelationRecord};
use crate::errors::BotError;
use vstd::prelude::*;

verus! {

/// The fixed time-to-live of a kiss follow-up control, in seconds. Short,
/// to bound the blast radius of a stale or replayed token.
pub const KISS_TTL_SECONDS: u64 = 10;

/// Which follow-up action a control triggers.
#[derive(Clone, Copy, Debug, PartialEq, Eq, Structural)]
pub enum KissControlKind {
    /// Kiss back.
    Reply,
    /// Turn the kiss down.
    Deny,
}

/// A control descriptor handed to the dispatcher, carrying the correlation
/// id to embed for later resolution.
pub struct KissControl {
    pub kind: KissControlKind,
    pub correlation_id: String,
}

/// The response payload of a kiss command: who kissed whom, whether it was
/// a self-kiss, and zero or more follow-up controls.
pub struct KissResponse {
    pub issuer_id: u64,
    pub target_id: u64,
    pub self_kiss: bool,
    pub controls: Vec<KissControl>,
}

/// The effective target of an invocation: the chosen target, or the issuer
/// when none was chosen.
pub open spec fn effective_target(issuer_id: u64, target_id: Option<u64>) -> u64 {
    match target_id {
        Some(t) => t,
        None => issuer_id,
    }
}

/// The kiss command, constructed once at startup with its correlation
/// cache passed in.
pub struct KissCommand {
    cache: CorrelationCache,
}

impl KissCommand {
    /// The cache invariant carried through every invocation.
    pub closed spec fn wf(&self) -> bool {
        self.cache.wf()
    }

    /// The record pending under a correlation id, with its expiry instant.
    pub closed spec fn pending(&self, id: Seq<char>) -> Option<((u64, u64, Seq<char>), u64)> {
        self.cache.pending(id)
    }

    pub fn new(cache: CorrelationCache) -> (r: KissCommand)
        requires
            cache.wf(),
        ensures
            r.wf(),
            forall|id: Seq<char>| r.pending(id) == cache.pending(id),
    {
        KissCommand { cache }
    }

    /// Handles one invocation at instant `now`.
    ///
    /// A kiss aimed at the issuer (explicitly or by omission) yields a
    /// response with no controls and changes nothing. A kiss aimed at
    /// someone else stores the correlation record (issuer, target, reply
    /// credential) under a fresh opaque id with the fixed time-to-live and
    /// yields the reply and deny controls carrying that id.
    pub fn handle_command(
        &mut self,
        issuer_id: u64,
        target_id: Option<u64>,
        reply_token: String,
        now: u64,
    ) -> (r: Result<KissResponse, BotError>)
        requires
            old(self).wf(),
            now + KISS_TTL_SECONDS <= u64::MAX,
        ensures
            final(self).wf(),
            r is Ok,
            r matches Ok(resp) ==> ({
                let tgt = effective_target(issuer_id, target_id);
                &&& resp.issuer_id == issuer_id
                &&& resp.target_id == tgt
                &&& resp.self_kiss == (tgt == issuer_id)
                &&& (tgt == issuer_id ==> resp.controls@.len() == 0 && forall|id: Seq<char>|
                    final(self).pending(id) == old(self).pending(id))
                &&& (tgt != issuer_id ==> ({
                    let cid = resp.controls@[0].correlation_id@;
                    &&& resp.controls@.len() == 2
                    &&& resp.controls@[0].kind is Reply
                    &&& resp.controls@[1].kind is Deny
                    &&& resp.controls@[1].correlation_id@ == cid
                    &&& cid.len() == 30
                    &&& final(self).pending(cid) == Some(
                        (
                            (issuer_id, tgt, reply_token@),
                            (now + KISS_TTL_SECONDS) as u64,
                        ),
                    )
                    &&& forall|id: Seq<char>|
                        id != cid ==> final(self).pending(id) == old(self).pending(id)
                }))
            }),
    {
        let target = match target_id {
            Some(t) => t,
            None => issuer_id,
        };
        if target == issuer_id {
            Ok(
                KissResponse {
                    issuer_id,
                    target_id: target,
                    self_kiss: true,
                    controls: Vec::new(),
                },
            )
        } else {
            let record = CorrelationRecord::new(issuer_id, target, reply_token);
            match self.cache.issue(&record, KISS_TTL_SECONDS, now) {
                Ok(custom_id) => {
                    let deny_id = custom_id.clone();
                    let mut controls: Vec<KissControl> = Vec::new();
                    controls.push(
                        KissControl { kind: KissControlKind::Reply, correlation_id: custom_id },
                    );
                    controls.push(
                        KissControl { kind: KissControlKind::Deny, correlation_id: deny_id },
                    );
                    Ok(
                        KissResponse {
                            issuer_id,
                            target_id: target,
                            self_kiss: false,
                            controls,
                        },
                    )
                },
                Err(e) => Err(e),
            }
        }
    }

    /// Resolves a follow-up click on one of this command's controls,
    /// consuming the correlation record.
    pub fn handle_component(&mut self, correlation_id: &String, now: u64) -> (r: Result<
        CorrelationRecord,
        BotError,
    >)
        requires
            old(self).wf(),
        ensures
            final(self).wf(),
            old(self).cache_resolvable(correlation_id@, now) ==> ({
                &&& r matches Ok(rec) && old(self).pending(correlation_id@) matches Some((st, e))
                    && st == (rec.issuer_id, rec.target_id, rec.reply_token@)
                &&& final(self).pending(correlation_id@) is None
                &&& forall|id: Seq<char>|
                    id != correlation_id@ ==> final(self).pending(id) == old(self).pending(id)
            }),
            !old(self).cache_resolvable(correlation_id@, now) ==> r == Err::<
                CorrelationRecord,
                BotError,
            >(BotError::ExpiredOrUnknown) && *final(self) == *old(self),
    {
        self.cache.resolve(correlation_id, now)
    }

    /// Whether a resolve of `id` at instant `now` would succeed.
    pub open spec fn cache_resolvable(&self, id: Seq<char>, now: u64) -> bool {
        match self.pending(id) {
            Some((st, e)) => now < e,
            None => false,
        }
    }
}

} // verus!
