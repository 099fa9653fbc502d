//! The realtime observer's decisions for one transaction of a checkpoint:
//! which feed entries of the roots it changed are new, what the observer
//! remembers of each root, and the batch it sends, if any.
use vstd::prelude::*;

use crate::bbcode::addr_eq;
use crate::codec::{hex_lower, push_hex};
use crate::intent::Address;
use crate::moderation::le_bytes;
use crate::realtime::{
    feed_entry_ids, feed_range, merge_roots, spec_feed_range, spec_merge_roots, CallEntities,
    EntityKind,
};
use crate::sui::derived_object_id;

verus! {

/// The value of `id` in a list of (root, counter) pairs: that of its first
/// pair.
pub open spec fn seen_get(s: Seq<(Address, u64)>, id: Address) -> Option<u64>
    decreases s.len(),
{
    if s.len() == 0 {
        None
    } else if s[0].0 == id {
        Some(s[0].1)
    } else {
        seen_get(s.drop_first(), id)
    }
}

/// The list with the first pair of `id` given counter `c`, or a pair added
/// at the end when there is none.
pub open spec fn seen_set(s: Seq<(Address, u64)>, id: Address, c: u64) -> Seq<(Address, u64)>
    decreases s.len(),
{
    if s.len() == 0 {
        seq![(id, c)]
    } else if s[0].0 == id {
        s.update(0, (id, c))
    } else {
        seq![s[0]] + seen_set(s.drop_first(), id, c)
    }
}

proof fn lemma_seen_set_get(s: Seq<(Address, u64)>, id: Address, c: u64, x: Address)
    ensures
        seen_get(seen_set(s, id, c), x) == if x == id {
            Some(c)
        } else {
            seen_get(s, x)
        },
    decreases s.len(),
{
    if s.len() == 0 {
        assert(seq![(id, c)].drop_first() =~= Seq::<(Address, u64)>::empty());
        assert(seen_get(Seq::<(Address, u64)>::empty(), x) is None);
        assert(seen_set(s, id, c) == seq![(id, c)]);
        assert(seq![(id, c)][0] == (id, c));
    } else {
        if s[0].0 == id {
            assert(s.update(0, (id, c))[0] == (id, c));
            assert(s.update(0, (id, c)).drop_first() =~= s.drop_first());
        } else {
            assert((seq![s[0]] + seen_set(s.drop_first(), id, c))[0] == s[0]);
            lemma_seen_set_get(s.drop_first(), id, c, x);
            assert((seq![s[0]] + seen_set(s.drop_first(), id, c)).drop_first() =~= seen_set(
                s.drop_first(),
                id,
                c,
            ));
        }
    }
}

proof fn lemma_seen_first(s: Seq<(Address, u64)>, id: Address, i: int)
    requires
        0 <= i <= s.len(),
        forall|j: int| 0 <= j < i ==> s[j].0 != id,
    ensures
        i < s.len() && s[i].0 == id ==> seen_get(s, id) == Some(s[i].1),
        i == s.len() ==> seen_get(s, id) is None,
        i < s.len() && s[i].0 == id ==> forall|c: u64| seen_set(s, id, c) == s.update(i, (id, c)),
        i == s.len() ==> forall|c: u64| seen_set(s, id, c) == s.push((id, c)),
    decreases i,
{
    if i > 0 {
        assert(s[0].0 != id);
        lemma_seen_first(s.drop_first(), id, i - 1);
        assert forall|c: u64| i < s.len() && s[i].0 == id implies seen_set(s, id, c) == s.update(
            i,
            (id, c),
        ) by {
            assert(s.drop_first()[i - 1] == s[i]);
            assert(seen_set(s.drop_first(), id, c) == s.drop_first().update(i - 1, (id, c)));
            assert(seq![s[0]] + s.drop_first().update(i - 1, (id, c)) =~= s.update(i, (id, c)));
        }
        assert forall|c: u64| i == s.len() implies seen_set(s, id, c) == s.push((id, c)) by {
            assert(seen_set(s.drop_first(), id, c) == s.drop_first().push((id, c)));
            assert(seq![s[0]] + s.drop_first().push((id, c)) =~= s.push((id, c)));
        }
    } else {
        assert forall|c: u64| s.len() == 0 implies seen_set(s, id, c) == s.push((id, c)) by {
            assert(seq![(id, c)] =~= s.push((id, c)));
        }
    }
}

/// The last feed counter the observer announced for each root.
pub struct LastSeen {
    entries: Vec<(Address, u64)>,
}

/// What a map holds for a key, if anything.
pub open spec fn map_get(m: Map<Address, u64>, id: Address) -> Option<u64> {
    if m.contains_key(id) {
        Some(m[id])
    } else {
        None
    }
}

impl LastSeen {
    /// The counters by root.
    pub closed spec fn view_map(self) -> Map<Address, u64> {
        Map::new(
            |k: Address| seen_get(self.entries@, k) is Some,
            |k: Address| seen_get(self.entries@, k)->Some_0,
        )
    }

    pub fn new() -> (r: Self)
        ensures
            r.view_map() == Map::<Address, u64>::empty(),
    {
        let r = LastSeen { entries: Vec::new() };
        assert(r.view_map() =~= Map::<Address, u64>::empty());
        r
    }

    fn find(&self, id: &Address) -> (r: Option<usize>)
        ensures
            r matches Some(i) ==> i < self.entries@.len() && self.entries@[i as int].0 == *id
                && forall|j: int| 0 <= j < i ==> self.entries@[j].0 != *id,
            r is None ==> forall|j: int| 0 <= j < self.entries@.len() ==> self.entries@[j].0 != *id,
    {
        let mut i: usize = 0;
        while i < self.entries.len()
            invariant
                i <= self.entries@.len(),
                forall|j: int| 0 <= j < i ==> self.entries@[j].0 != *id,
            decreases self.entries.len() - i,
        {
            if addr_eq(&self.entries[i].0, id) {
                return Some(i);
            }
            i = i + 1;
        }
        None
    }

    /// The last counter announced for a root.
    pub fn get(&self, id: &Address) -> (r: Option<u64>)
        ensures
            r == map_get(self.view_map(), *id),
    {
        match self.find(id) {
            Some(i) => {
                proof {
                    lemma_seen_first(self.entries@, *id, i as int);
                }
                Some(self.entries[i].1)
            },
            None => {
                proof {
                    lemma_seen_first(self.entries@, *id, self.entries@.len() as int);
                }
                None
            },
        }
    }

    /// Records the last counter announced for a root.
    pub fn set(&mut self, id: Address, counter: u64)
        ensures
            final(self).view_map() == old(self).view_map().insert(id, counter),
    {
        let ghost before = self.entries@;
        match self.find(&id) {
            Some(i) => {
                proof {
                    lemma_seen_first(before, id, i as int);
                }
                self.entries.set(i, (id, counter));
            },
            None => {
                proof {
                    lemma_seen_first(before, id, before.len() as int);
                }
                self.entries.push((id, counter));
            },
        }
        assert(self.entries@ == seen_set(before, id, counter));
        assert forall|x: Address| #[trigger] seen_get(self.entries@, x) == if x == id {
            Some(counter)
        } else {
            seen_get(before, x)
        } by {
            lemma_seen_set_get(before, id, counter, x);
        }
        assert(self.view_map() =~= old(self).view_map().insert(id, counter));
    }
}

/// A root that a transaction created or wrote, as its object reads: its id
/// and kind, its feed, the feed's counter, its layout version and whether it
/// is the genesis object.
#[derive(Debug, Clone, Copy)]
pub struct RootChange {
    pub id: Address,
    pub kind: EntityKind,
    pub feed: Address,
    pub counter: u64,
    pub version: u16,
    pub genesis: bool,
}

/// One feed entry announced for a root: the root at that counter, and the
/// entry's value in hexadecimal.
pub struct Envelope {
    pub kind: EntityKind,
    pub id: Address,
    pub feed: Address,
    pub counter: u64,
    pub version: u16,
    pub genesis: bool,
    pub event: String,
}

/// An envelope by its contents.
pub struct EnvelopeView {
    pub kind: EntityKind,
    pub id: Address,
    pub feed: Address,
    pub counter: u64,
    pub version: u16,
    pub genesis: bool,
    pub event: Seq<char>,
}

pub open spec fn envelope_view(e: Envelope) -> EnvelopeView {
    EnvelopeView {
        kind: e.kind,
        id: e.id,
        feed: e.feed,
        counter: e.counter,
        version: e.version,
        genesis: e.genesis,
        event: e.event@,
    }
}

pub open spec fn envelopes_view(s: Seq<Envelope>) -> Seq<EnvelopeView> {
    s.map_values(|e: Envelope| envelope_view(e))
}

/// What the observer sends for a transaction: the entities it touched and
/// the new feed entries of its roots.
pub struct Batch {
    pub entities: CallEntities,
    pub envelopes: Vec<Envelope>,
}

/// The feed entries a checkpoint holds, by object id and value.
pub open spec fn entries_view(s: Seq<(Address, Vec<u8>)>) -> Seq<(Address, Seq<u8>)> {
    s.map_values(|e: (Address, Vec<u8>)| (e.0, e.1@))
}

/// The value of the first feed entry of the checkpoint whose id is `id`.
pub open spec fn entry_value(entries: Seq<(Address, Seq<u8>)>, id: Seq<u8>) -> Option<Seq<u8>>
    decreases entries.len(),
{
    if entries.len() == 0 {
        None
    } else if entries[0].0@ == id {
        Some(entries[0].1)
    } else {
        entry_value(entries.drop_first(), id)
    }
}

/// The envelope of entry `k` of a root's feed, when the checkpoint holds
/// that entry.
pub open spec fn entry_envelope(r: RootChange, k: u64, entries: Seq<(Address, Seq<u8>)>) -> Seq<
    EnvelopeView,
> {
    match entry_value(entries, derived_object_id(r.feed@, "u64"@, le_bytes(k as nat))) {
        Some(v) => seq![
            EnvelopeView {
                kind: r.kind,
                id: r.id,
                feed: r.feed,
                counter: k,
                version: r.version,
                genesis: r.genesis,
                event: hex_lower(v),
            },
        ],
        None => Seq::empty(),
    }
}

/// The envelopes of entries `start..end` of a root's feed, in order.
pub open spec fn root_envelopes(r: RootChange, start: u64, end: u64, entries: Seq<(Address, Seq<u8>)>) -> Seq<
    EnvelopeView,
>
    decreases end - start,
{
    if end <= start {
        Seq::empty()
    } else {
        root_envelopes(r, start, (end - 1) as u64, entries) + entry_envelope(r, (end - 1) as u64, entries)
    }
}

/// What the observer remembers after the roots of a transaction: each root
/// whose counter is new takes that counter.
pub open spec fn seen_after(m: Map<Address, u64>, roots: Seq<RootChange>) -> Map<Address, u64>
    decreases roots.len(),
{
    if roots.len() == 0 {
        m
    } else {
        let prev = seen_after(m, roots.drop_last());
        let r = roots.last();
        if spec_feed_range(map_get(prev, r.id), r.counter) is Some {
            prev.insert(r.id, r.counter)
        } else {
            prev
        }
    }
}

/// The envelopes the observer announces for the roots of a transaction:
/// for each root in turn, the entries after the last counter seen for it up
/// to its counter, those the checkpoint holds, in order.
pub open spec fn envelopes_after(m: Map<Address, u64>, roots: Seq<RootChange>, entries: Seq<(Address, Seq<u8>)>) -> Seq<
    EnvelopeView,
>
    decreases roots.len(),
{
    if roots.len() == 0 {
        Seq::empty()
    } else {
        let r = roots.last();
        envelopes_after(m, roots.drop_last(), entries) + match spec_feed_range(
            map_get(seen_after(m, roots.drop_last()), r.id),
            r.counter,
        ) {
            Some((s, e)) => root_envelopes(r, s, e, entries),
            None => Seq::empty(),
        }
    }
}

/// The roots with their kinds.
pub open spec fn root_kinds(roots: Seq<RootChange>) -> Seq<(Address, EntityKind)> {
    roots.map_values(|r: RootChange| (r.id, r.kind))
}

fn find_entry(entries: &[(Address, Vec<u8>)], id: &Address) -> (r: Option<usize>)
    ensures
        r matches Some(i) ==> i < entries@.len() && entry_value(entries_view(entries@), id@) == Some(
            entries@[i as int].1@,
        ),
        r is None ==> entry_value(entries_view(entries@), id@) is None,
{
    let ghost ev = entries_view(entries@);
    let mut i: usize = 0;
    assert(ev.skip(0) =~= ev);
    while i < entries.len()
        invariant
            i <= entries@.len(),
            ev == entries_view(entries@),
            entry_value(ev, id@) == entry_value(ev.skip(i as int), id@),
        decreases entries.len() - i,
    {
        assert(ev.skip(i as int).drop_first() =~= ev.skip(i as int + 1));
        assert(ev.skip(i as int)[0] == ev[i as int]);
        if addr_eq(&entries[i].0, id) {
            return Some(i);
        }
        i = i + 1;
    }
    assert(ev.skip(i as int).len() == 0);
    None
}

fn push_root_envelopes(out: &mut Vec<Envelope>, r: &RootChange, start: u64, end: u64, entries: &[(Address, Vec<u8>)])
    requires
        start <= end,
    ensures
        envelopes_view(final(out)@) == envelopes_view(old(out)@) + root_envelopes(
            *r,
            start,
            end,
            entries_view(entries@),
        ),
{
    let ghost ev = entries_view(entries@);
    let ids = feed_entry_ids(&r.feed, start, end);
    let mut j: usize = 0;
    assert(envelopes_view(out@) =~= envelopes_view(old(out)@) + root_envelopes(*r, start, start, ev));
    while j < ids.len()
        invariant
            start <= end,
            j <= ids@.len(),
            ids@.len() == end - start,
            ev == entries_view(entries@),
            forall|i: int|
                0 <= i < ids@.len() ==> (#[trigger] ids@[i])@ == derived_object_id(
                    r.feed@,
                    "u64"@,
                    le_bytes((start + i) as nat),
                ),
            envelopes_view(out@) == envelopes_view(old(out)@) + root_envelopes(
                *r,
                start,
                (start + j) as u64,
                ev,
            ),
        decreases ids@.len() - j,
    {
        let k: u64 = start + j as u64;
        let ghost before = out@;
        assert(ids@[j as int]@ == derived_object_id(r.feed@, "u64"@, le_bytes(k as nat)));
        assert(root_envelopes(*r, start, (k + 1) as u64, ev) == root_envelopes(*r, start, k, ev)
            + entry_envelope(*r, k, ev));
        match find_entry(entries, &ids[j]) {
            Some(i) => {
                let mut event = String::new();
                push_hex(&mut event, entries[i].1.as_slice());
                assert(event@ =~= hex_lower(entries@[i as int].1@));
                out.push(
                    Envelope {
                        kind: r.kind,
                        id: r.id,
                        feed: r.feed,
                        counter: k,
                        version: r.version,
                        genesis: r.genesis,
                        event,
                    },
                );
                assert(envelopes_view(out@) =~= envelopes_view(before) + entry_envelope(*r, k, ev));
            },
            None => {
                assert(entry_envelope(*r, k, ev) =~= Seq::<EnvelopeView>::empty());
            },
        }
        j = j + 1;
    }
}

/// The observer's step for one successful transaction: given what it last
/// announced of each root, the entities the call names, the roots the
/// transaction changed and the feed entries the checkpoint holds, it
/// remembers each root's new counter and returns the batch to send, or
/// `None` when there is no new entry to announce.
pub fn observe_transaction(
    last_seen: &mut LastSeen,
    call: CallEntities,
    roots: &[RootChange],
    entries: &[(Address, Vec<u8>)],
) -> (r: Option<Batch>)
    requires
        forall|i: int| 0 <= i < roots@.len() ==> #[trigger] roots@[i].counter < u64::MAX,
    ensures
        final(last_seen).view_map() == seen_after(old(last_seen).view_map(), roots@),
        envelopes_after(old(last_seen).view_map(), roots@, entries_view(entries@)).len() == 0
            ==> r is None,
        envelopes_after(old(last_seen).view_map(), roots@, entries_view(entries@)).len() > 0
            ==> r is Some,
        r matches Some(b) ==> b.entities == spec_merge_roots(call, root_kinds(roots@))
            && envelopes_view(b.envelopes@) == envelopes_after(
            old(last_seen).view_map(),
            roots@,
            entries_view(entries@),
        ),
{
    let ghost m0 = last_seen.view_map();
    let ghost ev = entries_view(entries@);
    let mut envelopes: Vec<Envelope> = Vec::new();
    let mut kinds: Vec<(Address, EntityKind)> = Vec::new();
    let mut i: usize = 0;
    while i < roots.len()
        invariant
            i <= roots@.len(),
            forall|q: int| 0 <= q < roots@.len() ==> #[trigger] roots@[q].counter < u64::MAX,
            ev == entries_view(entries@),
            m0 == old(last_seen).view_map(),
            last_seen.view_map() == seen_after(m0, roots@.take(i as int)),
            envelopes_view(envelopes@) == envelopes_after(m0, roots@.take(i as int), ev),
            kinds@ == root_kinds(roots@.take(i as int)),
        decreases roots.len() - i,
    {
        let r = roots[i];
        proof {
            assert(roots@.take(i as int + 1).drop_last() =~= roots@.take(i as int));
            assert(roots@.take(i as int + 1).last() == r);
            assert(roots@[i as int].counter < u64::MAX);
        }
        let prev = last_seen.get(&r.id);
        match feed_range(prev, r.counter) {
            Some((start, end)) => {
                last_seen.set(r.id, r.counter);
                push_root_envelopes(&mut envelopes, &r, start, end, entries);
            },
            None => {
                assert(envelopes_view(envelopes@) =~= envelopes_view(envelopes@) + Seq::<
                    EnvelopeView,
                >::empty());
            },
        }
        kinds.push((r.id, r.kind));
        assert(root_kinds(roots@.take(i as int + 1)) =~= root_kinds(roots@.take(i as int)).push(
            (r.id, r.kind),
        ));
        i = i + 1;
    }
    assert(roots@.take(i as int) =~= roots@);
    if envelopes.len() == 0 {
        return None;
    }
    Some(Batch { entities: merge_roots(call, kinds.as_slice()), envelopes })
}

/// Law: the observer never forgets a root and never moves its counter
/// back; a root whose counter is new takes exactly that counter.
pub proof fn lemma_seen_never_decreases(m: Map<Address, u64>, roots: Seq<RootChange>, id: Address)
    requires
        m.contains_key(id),
    ensures
        seen_after(m, roots).contains_key(id),
        seen_after(m, roots)[id] >= m[id],
    decreases roots.len(),
{
    if roots.len() > 0 {
        lemma_seen_never_decreases(m, roots.drop_last(), id);
    }
}

/// Law: the envelopes announced for a root's range carry counters inside
/// that range, in strictly increasing order, each for that root.
pub proof fn lemma_root_envelopes_ascend(r: RootChange, start: u64, end: u64, entries: Seq<(Address, Seq<u8>)>)
    ensures
        forall|i: int|
            0 <= i < root_envelopes(r, start, end, entries).len() ==> start <= (
            #[trigger] root_envelopes(r, start, end, entries)[i]).counter < end
                && root_envelopes(r, start, end, entries)[i].id == r.id,
        forall|i: int, j: int|
            0 <= i < j < root_envelopes(r, start, end, entries).len() ==> (
            #[trigger] root_envelopes(r, start, end, entries)[i]).counter < (
            #[trigger] root_envelopes(r, start, end, entries)[j]).counter,
    decreases end - start,
{
    if end > start {
        let k = (end - 1) as u64;
        lemma_root_envelopes_ascend(r, start, k, entries);
        let a = root_envelopes(r, start, k, entries);
        let b = entry_envelope(r, k, entries);
        let all = root_envelopes(r, start, end, entries);
        assert(all == a + b);
        assert forall|i: int| 0 <= i < all.len() implies start <= (#[trigger] all[i]).counter < end
            && all[i].id == r.id by {
            if i >= a.len() {
                assert(all[i] == b[i - a.len()]);
            } else {
                assert(all[i] == a[i]);
            }
        }
        assert forall|i: int, j: int| 0 <= i < j < all.len() implies (#[trigger] all[i]).counter < (
        #[trigger] all[j]).counter by {
            if j >= a.len() {
                assert(all[j] == b[j - a.len()]);
                assert(all[i] == a[i]);
            } else {
                assert(all[i] == a[i]);
                assert(all[j] == a[j]);
            }
        }
    }
}

} // verus!
