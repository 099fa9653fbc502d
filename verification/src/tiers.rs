use vstd::prelude::*;

use crate::invalidate::texts;
use crate::text::{has_prefix, starts_with, str_eq};

verus! {

/// The message that relays publish to each other when cached views go
/// stale: drop everything, or drop the keys under some scopes.
pub struct Invalidation {
    pub flush: bool,
    pub scopes: Vec<String>,
}

/// What a relay does to its local tier on a message of the shared channel.
pub enum LocalAction {
    Keep,
    FlushAll,
    DropPrefixes(Vec<String>),
}

/// How a relay answers a message: a message on another channel, an empty
/// one, or one that does not decode (`message` is `None`) changes nothing; a
/// flush drops every local entry; otherwise the entries under each scope go.
pub fn on_message(subscribed: &str, channel: &str, message: Option<Invalidation>) -> (r: LocalAction)
    ensures
        subscribed@ != channel@ || message is None ==> r is Keep,
        subscribed@ == channel@ ==> (message matches Some(m) ==> (if m.flush {
            r is FlushAll
        } else {
            r matches LocalAction::DropPrefixes(p) && texts(p@) == texts(m.scopes@)
        })),
{
    if !str_eq(subscribed, channel) {
        return LocalAction::Keep;
    }
    match message {
        None => LocalAction::Keep,
        Some(m) => {
            if m.flush {
                LocalAction::FlushAll
            } else {
                LocalAction::DropPrefixes(m.scopes)
            }
        },
    }
}

/// The keys of the local tier under `prefix`, in the order given: those the
/// tier drops for a scope.
pub fn keys_with_prefix(keys: &[String], prefix: &str) -> (r: Vec<String>)
    ensures
        texts(r@) == texts(keys@).filter(|k: Seq<char>| has_prefix(k, prefix@)),
{
    let mut out: Vec<String> = Vec::new();
    let mut i: usize = 0;
    while i < keys.len()
        invariant
            i <= keys@.len(),
            texts(out@) == texts(keys@.take(i as int)).filter(|k: Seq<char>| has_prefix(k, prefix@)),
        decreases keys@.len() - i,
    {
        proof {
            assert(texts(keys@.take(i as int + 1)) =~= texts(keys@.take(i as int)).push(keys@[i as int]@));
            texts(keys@.take(i as int)).lemma_filter_push(keys@[i as int]@, |k: Seq<char>| has_prefix(k, prefix@));
        }
        if starts_with(keys[i].as_str(), prefix) {
            let ghost before = out@;
            out.push(keys[i].clone());
            assert(texts(out@) =~= texts(before).push(keys@[i as int]@));
        }
        i = i + 1;
    }
    assert(keys@.take(keys@.len() as int) =~= keys@);
    out
}

/// What the shared tier answered a read.
pub enum SharedRead {
    Found(Vec<u8>),
    Missing,
    Failed,
}

/// What a read of the cache yields once the shared tier answered: the value,
/// whether the local tier keeps a copy, and whether the shared tier is
/// healthy afterwards.
pub struct ReadOutcome {
    pub value: Option<Vec<u8>>,
    pub fill_local: bool,
    pub healthy: bool,
}

/// A found value is returned and copied to the local tier, a missing one is
/// absent; either way the shared tier is healthy. A failed read yields nothing
/// and marks the shared tier unhealthy.
pub fn after_shared_read(read: SharedRead) -> (r: ReadOutcome)
    ensures
        read matches SharedRead::Found(v) ==> r.value == Some(v) && r.fill_local && r.healthy,
        read is Missing ==> r.value is None && !r.fill_local && r.healthy,
        read is Failed ==> r.value is None && !r.fill_local && !r.healthy,
{
    match read {
        SharedRead::Found(v) => ReadOutcome { value: Some(v), fill_local: true, healthy: true },
        SharedRead::Missing => ReadOutcome { value: None, fill_local: false, healthy: true },
        SharedRead::Failed => ReadOutcome { value: None, fill_local: false, healthy: false },
    }
}

/// What a read that builds the value on a miss does once the shared tier
/// answered.
pub enum BuildPlan {
    /// Return the shared tier's value, keeping a local copy.
    Use(Vec<u8>),
    /// Build the value, and store it in both tiers.
    BuildAndStore,
    /// Build the value and store it nowhere: the shared tier failed.
    BuildOnly,
}

pub fn build_plan(read: SharedRead) -> (r: BuildPlan)
    ensures
        read matches SharedRead::Found(v) ==> r == BuildPlan::Use(v),
        read is Missing ==> r is BuildAndStore,
        read is Failed ==> r is BuildOnly,
{
    match read {
        SharedRead::Found(v) => BuildPlan::Use(v),
        SharedRead::Missing => BuildPlan::BuildAndStore,
        SharedRead::Failed => BuildPlan::BuildOnly,
    }
}

/// A generation counter as read from the shared tier (`None` when the read
/// failed): its value, zero when unset or unreadable, and the tier's health.
pub fn generation(read: Option<Option<u64>>) -> (r: (u64, bool))
    ensures
        read matches Some(Some(g)) ==> r == (g, true),
        read == Some(None::<u64>) ==> r == (0u64, true),
        read is None ==> r == (0u64, false),
{
    match read {
        Some(Some(g)) => (g, true),
        Some(None) => (0, true),
        None => (0, false),
    }
}

/// The key patterns cleared from the shared tier when a relay reconnects to
/// it: every cached view and every generation counter.
pub fn shared_flush_patterns() -> (r: Vec<String>)
    ensures
        texts(r@) == seq!["v:*"@, "gen:*"@],
{
    let mut v: Vec<String> = Vec::new();
    v.push("v:*".to_string());
    v.push("gen:*".to_string());
    assert(texts(v@) =~= seq!["v:*"@, "gen:*"@]);
    v
}

} // verus!
