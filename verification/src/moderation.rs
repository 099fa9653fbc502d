use std::collections::HashMap;
use vstd::prelude::*;

use crate::codec::{bcs_decode_u64, bcs_encode_address};
use crate::digest::{blake2b256, blake2b256_of};
use crate::error::{build_error, is_build_error, RelayError};
use crate::intent::Address;
use crate::requests::mask_bits;
use crate::codec::{address_text, address_to_string};
use crate::replay::{by_number, lemma_by_number_sorts, sorted_order};
use crate::text::{decimal_chars, push_decimal, push_text};
use crate::sui::{child_id_address_key, derived_id_u64_key, derived_object_id, dynamic_child_id};

verus! {

/// How many shards the nonce counters are spread over.
pub const SHARD_COUNT: u64 = 512;

/// The number that eight bytes denote, most significant first.
pub open spec fn be_u64(b: Seq<u8>) -> nat
    decreases b.len(),
{
    if b.len() == 0 {
        0
    } else {
        be_u64(b.drop_last()) * 256 + b.last() as nat
    }
}

/// The account address of an Ed25519 public key: the hash of the scheme flag
/// (0) and the key.
pub open spec fn spec_sender_address(pk: Seq<u8>) -> Seq<u8> {
    blake2b256_of(seq![0u8] + pk)
}

/// The hash that selects a sender's nonce counter: the hash of the BCS form
/// (the bytes) of the sender's account address.
pub open spec fn nonce_key(sender: Seq<u8>) -> Seq<u8> {
    blake2b256_of(spec_sender_address(sender))
}

/// The nonce shard of a sender: the last eight bytes of its nonce key, as a
/// big-endian number, modulo the shard count.
pub open spec fn spec_shard_index(sender: Seq<u8>) -> nat {
    be_u64(nonce_key(sender).subrange(24, 32)) % (SHARD_COUNT as nat)
}

/// The eight bytes of a number, least significant first.
pub open spec fn le_bytes(v: nat) -> Seq<u8> {
    seq![
        (v % 0x100) as u8,
        (v / 0x100 % 0x100) as u8,
        (v / 0x1_0000 % 0x100) as u8,
        (v / 0x100_0000 % 0x100) as u8,
        (v / 0x1_0000_0000 % 0x100) as u8,
        (v / 0x100_0000_0000 % 0x100) as u8,
        (v / 0x1_0000_0000_0000 % 0x100) as u8,
        (v / 0x100_0000_0000_0000 % 0x100) as u8,
    ]
}

/// `u64::to_le_bytes`.
pub fn le_bytes_of(v: u64) -> (r: Vec<u8>)
    ensures
        r@ == le_bytes(v as nat),
{
    let mut r: Vec<u8> = Vec::new();
    r.push((v % 0x100) as u8);
    r.push((v / 0x100 % 0x100) as u8);
    r.push((v / 0x1_0000 % 0x100) as u8);
    r.push((v / 0x100_0000 % 0x100) as u8);
    r.push((v / 0x1_0000_0000 % 0x100) as u8);
    r.push((v / 0x100_0000_0000 % 0x100) as u8);
    r.push((v / 0x1_0000_0000_0000 % 0x100) as u8);
    r.push((v / 0x100_0000_0000_0000 % 0x100) as u8);
    assert(r@ =~= le_bytes(v as nat));
    r
}

/// The account address of an Ed25519 public key.
pub fn sender_address(pk: &Address) -> (r: Address)
    ensures
        r@ == spec_sender_address(pk@),
{
    let mut bytes: Vec<u8> = Vec::new();
    bytes.push(0);
    let mut tail = vstd::slice::slice_to_vec(pk.as_slice());
    bytes.append(&mut tail);
    assert(bytes@ =~= seq![0u8] + pk@);
    blake2b256(bytes.as_slice())
}

/// The nonce shard that counts a sender's intents.
pub fn shard_index(sender: &Address) -> (r: u64)
    ensures
        r == spec_shard_index(sender@),
{
    let addr = sender_address(sender);
    let encoded = bcs_encode_address(&addr);
    let hash = blake2b256(encoded.as_slice());
    let mut val: u64 = 0;
    let mut i: usize = 24;
    proof {
        vstd::arithmetic::power2::lemma2_to64();
        assert(hash@.subrange(24, 24) =~= Seq::<u8>::empty());
    }
    while i < 32
        invariant
            24 <= i <= 32,
            hash@ == nonce_key(sender@),
            val == be_u64(hash@.subrange(24, i as int)),
            val < vstd::arithmetic::power2::pow2(8 * (i - 24) as nat),
        decreases 32 - i,
    {
        proof {
            vstd::arithmetic::power2::lemma2_to64();
            vstd::arithmetic::power2::lemma2_to64_rest();
            vstd::arithmetic::power2::lemma_pow2_adds(8 * (i - 24) as nat, 8);
            assert(hash@.subrange(24, i + 1).drop_last() =~= hash@.subrange(24, i as int));
        }
        val = val * 256 + hash[i] as u64;
        i = i + 1;
    }
    val % SHARD_COUNT
}

/// The id of the nonce shard object of a sender.
pub open spec fn spec_shard_id(nonce_shards: Seq<u8>, sender: Seq<u8>) -> Seq<u8> {
    derived_object_id(nonce_shards, "u64"@, le_bytes(spec_shard_index(sender)))
}

pub fn shard_id(nonce_shards: &Address, sender: &Address) -> (r: Address)
    ensures
        r@ == spec_shard_id(nonce_shards@, sender@),
{
    let index = shard_index(sender);
    let key = le_bytes_of(index);
    derived_id_u64_key(nonce_shards, key.as_slice())
}

/// A level of the forum whose bans apply to an intent.
#[derive(Debug, Clone, Copy, PartialEq, Eq, Structural)]
pub enum BanLevel {
    Forum,
    Board,
    Thread,
}

/// The levels whose bans are checked, outermost first: the forum's unless the
/// board ignores forum bans, then the board's and the thread's where the
/// intent has them.
pub open spec fn spec_ban_levels(board: Option<bool>, has_thread: bool) -> Seq<BanLevel> {
    let forum = if board == Some(true) {
        Seq::empty()
    } else {
        seq![BanLevel::Forum]
    };
    let with_board = if board is Some {
        forum.push(BanLevel::Board)
    } else {
        forum
    };
    if has_thread {
        with_board.push(BanLevel::Thread)
    } else {
        with_board
    }
}

/// `board` is `Some(ignores_forum_bans)` when the intent names a board.
pub fn ban_levels(board: Option<bool>, has_thread: bool) -> (r: Vec<BanLevel>)
    ensures
        r@ == spec_ban_levels(board, has_thread),
{
    let mut levels: Vec<BanLevel> = Vec::new();
    if board != Some(true) {
        levels.push(BanLevel::Forum);
    }
    if board.is_some() {
        levels.push(BanLevel::Board);
    }
    if has_thread {
        levels.push(BanLevel::Thread);
    }
    assert(levels@ =~= spec_ban_levels(board, has_thread));
    levels
}

/// The registry key under which a client's ban in one address range is
/// indexed: the hash of the registry's entries table, the range's prefix
/// length and the client's MAC, hash bytes reversed.
pub open spec fn spec_ban_index_key(entries: Seq<u8>, k: int, mac: Seq<u8>) -> Seq<u8> {
    blake2b256_of(entries + seq![mask_bits(k)] + mac).reverse()
}

pub fn ban_index_key(entries: &Address, k: usize, mac: &[u8; 32]) -> (r: Vec<u8>)
    requires
        k < 4,
    ensures
        r@ == spec_ban_index_key(entries@, k as int, mac@),
{
    let mut input = vstd::slice::slice_to_vec(entries.as_slice());
    let bits: u8 = if k == 0 {
        32
    } else if k == 1 {
        24
    } else if k == 2 {
        20
    } else {
        16
    };
    input.push(bits);
    let mut tail = vstd::slice::slice_to_vec(mac.as_slice());
    input.append(&mut tail);
    assert(input@ =~= entries@ + seq![mask_bits(k as int)] + mac@);
    let hash = blake2b256(input.as_slice());
    let mut out: Vec<u8> = Vec::new();
    let mut i: usize = 32;
    while i > 0
        invariant
            i <= 32,
            hash@.len() == 32,
            out@ == hash@.subrange(i as int, 32).reverse(),
        decreases i,
    {
        i = i - 1;
        out.push(hash[i]);
        assert(out@ =~= hash@.subrange(i as int, 32).reverse());
    }
    assert(hash@.subrange(0, 32) =~= hash@);
    out
}

/// The ban entries a registry's index lists for a client: the values of
/// the index fields named `key` that hold a BCS `u64` (eight bytes), in
/// order; fields without a value or with another value are skipped.
pub open spec fn spec_index_hits(fields: Seq<(Seq<u8>, Option<Seq<u8>>)>, key: Seq<u8>) -> Seq<Seq<u8>>
    decreases fields.len(),
{
    if fields.len() == 0 {
        Seq::empty()
    } else {
        let prev = spec_index_hits(fields.drop_last(), key);
        let (name, value) = fields.last();
        if name == key && (value matches Some(v) && v.len() == 8) {
            prev.push(value->Some_0)
        } else {
            prev
        }
    }
}

/// Index fields by their contents.
pub open spec fn fields_view(fields: Seq<(Vec<u8>, Option<Vec<u8>>)>) -> Seq<(Seq<u8>, Option<Seq<u8>>)> {
    fields.map_values(
        |f: (Vec<u8>, Option<Vec<u8>>)|
            (
                f.0@,
                match f.1 {
                    Some(v) => Some(v@),
                    None => None,
                },
            ),
    )
}

/// The ids of the ban entries a registry's index lists under `key` (see
/// `spec_index_hits`).
pub fn index_hits(fields: &[(Vec<u8>, Option<Vec<u8>>)], key: &[u8]) -> (r: Vec<u64>)
    ensures
        r@.map_values(|x: u64| le_bytes(x as nat)) == spec_index_hits(fields_view(fields@), key@),
{
    let ghost fv = fields_view(fields@);
    let mut out: Vec<u64> = Vec::new();
    let mut i: usize = 0;
    while i < fields.len()
        invariant
            i <= fields@.len(),
            fv == fields_view(fields@),
            out@.map_values(|x: u64| le_bytes(x as nat)) == spec_index_hits(fv.take(i as int), key@),
        decreases fields.len() - i,
    {
        assert(fv.take(i as int + 1).drop_last() =~= fv.take(i as int));
        assert(fv.take(i as int + 1).last() == fv[i as int]);
        let name = fields[i].0.as_slice();
        if bytes_eq(name, key) {
            match &fields[i].1 {
                Some(v) => match bcs_decode_u64(v.as_slice()) {
                    Some(id) => {
                        let ghost before = out@;
                        out.push(id);
                        assert(out@.map_values(|x: u64| le_bytes(x as nat)) =~= before.map_values(
                            |x: u64| le_bytes(x as nat),
                        ).push(le_bytes(id as nat)));
                    },
                    None => {},
                },
                None => {},
            }
        }
        i = i + 1;
    }
    assert(fv.take(i as int) =~= fv);
    out
}

fn bytes_eq(a: &[u8], b: &[u8]) -> (r: bool)
    ensures
        r == (a@ == b@),
{
    if a.len() != b.len() {
        return false;
    }
    let mut i: usize = 0;
    while i < a.len()
        invariant
            a@.len() == b@.len(),
            i <= a@.len(),
            forall|j: int| 0 <= j < i ==> a@[j] == b@[j],
        decreases a.len() - i,
    {
        if a[i] != b[i] {
            return false;
        }
        i = i + 1;
    }
    assert(a@ =~= b@);
    true
}

/// A ban holds while its expiry lies in the future.
pub fn ban_active(expires: u64, now_ms: u64) -> (r: bool)
    ensures
        r == (expires > now_ms),
{
    expires > now_ms
}

/// The message a moderator signs to reveal a client's identity: the
/// encrypted identity, the forum path, and the moderator's key.
pub open spec fn spec_decrypt_message(uid: Seq<u8>, path: Seq<Address>, pk: Seq<u8>) -> Seq<u8>
    decreases path.len(),
{
    if path.len() == 0 {
        uid + pk
    } else {
        spec_decrypt_message(uid, path.drop_last(), Seq::empty()) + path.last()@ + pk
    }
}

/// Checks the path of a reveal request (one to four addresses: forum, board,
/// thread, post) and builds the message the moderator signed.
pub fn decrypt_message(uid: &[u8], path: &[Address], pk: &Address) -> (r: Result<Vec<u8>, RelayError>)
    ensures
        (path@.len() == 0 || path@.len() > 4) ==> r is Err && is_build_error(
            r->Err_0,
            "path must have 1-4 addresses"@,
        ),
        1 <= path@.len() <= 4 ==> r is Ok && r->Ok_0@ == spec_decrypt_message(uid@, path@, pk@),
{
    if path.len() == 0 || path.len() > 4 {
        return Err(build_error("path must have 1-4 addresses"));
    }
    let mut msg = vstd::slice::slice_to_vec(uid);
    let mut i: usize = 0;
    while i < path.len()
        invariant
            i <= path@.len(),
            msg@ == spec_decrypt_message(uid@, path@.take(i as int), Seq::empty()),
        decreases path.len() - i,
    {
        let mut a = vstd::slice::slice_to_vec(path[i].as_slice());
        msg.append(&mut a);
        proof {
            assert(path@.take(i + 1).drop_last() =~= path@.take(i as int));
            assert(msg@ =~= spec_decrypt_message(uid@, path@.take(i + 1), Seq::empty()));
        }
        i = i + 1;
    }
    let mut p = vstd::slice::slice_to_vec(pk.as_slice());
    msg.append(&mut p);
    proof {
        assert(path@.take(i as int) =~= path@);
        assert(path@.drop_last() =~= path@.take(path@.len() - 1));
        lemma_decrypt_message_pk(uid@, path@, pk@);
    }
    Ok(msg)
}

proof fn lemma_decrypt_message_pk(uid: Seq<u8>, path: Seq<Address>, pk: Seq<u8>)
    ensures
        spec_decrypt_message(uid, path, pk) == spec_decrypt_message(uid, path, Seq::empty()) + pk,
{
    if path.len() == 0 {
        assert(uid + Seq::<u8>::empty() =~= uid);
    } else {
        assert(spec_decrypt_message(uid, path.drop_last(), Seq::empty()) + path.last()@
            + Seq::<u8>::empty() =~= spec_decrypt_message(uid, path.drop_last(), Seq::empty())
            + path.last()@);
    }
}

/// The moderator-table entry that marks `who` as a moderator of a table.
pub open spec fn spec_mod_entry_id(table: Seq<u8>, who: Seq<u8>) -> Seq<u8> {
    dynamic_child_id(table, "address"@, who)
}

pub fn mod_entry_id(table: &Address, who: &Address) -> (r: Address)
    ensures
        r@ == spec_mod_entry_id(table@, who@),
{
    child_id_address_key(table, who.as_slice())
}

/// Whether `who` may act as a moderator: it has a moderator entry at some
/// level, administers the forum, or administers the thread.
pub open spec fn spec_authorized(
    entry_found: Seq<bool>,
    forum_admin: Address,
    thread_admin: Option<Address>,
    who: Address,
) -> bool {
    (exists|i: int| 0 <= i < entry_found.len() && entry_found[i]) || forum_admin == who
        || thread_admin == Some(who)
}

pub fn is_authorized(
    entry_found: &[bool],
    forum_admin: &Address,
    thread_admin: Option<Address>,
    who: &Address,
) -> (r: bool)
    ensures
        r == spec_authorized(entry_found@, *forum_admin, thread_admin, *who),
{
    let mut i: usize = 0;
    while i < entry_found.len()
        invariant
            i <= entry_found@.len(),
            forall|j: int| 0 <= j < i ==> !entry_found@[j],
        decreases entry_found.len() - i,
    {
        if entry_found[i] {
            return true;
        }
        i = i + 1;
    }
    if crate::bbcode::addr_eq(forum_admin, who) {
        return true;
    }
    match thread_admin {
        Some(a) => crate::bbcode::addr_eq(&a, who),
        None => false,
    }
}

/// The identity a moderator sees of a client: for each address range, the
/// hash of the deepest level's registry, the range's prefix length and the
/// client's MAC in that range.
pub open spec fn spec_identity_hashes(entries: Seq<Address>, macs: Seq<[u8; 32]>) -> Seq<u8>
    decreases macs.len(),
{
    if macs.len() == 0 {
        Seq::empty()
    } else {
        let k = macs.len() - 1;
        spec_identity_hashes(entries, macs.drop_last()) + blake2b256_of(
            entries[k]@ + seq![mask_bits(k)] + macs[k]@,
        )
    }
}

pub fn identity_hashes(entries: &[Address; 4], macs: &[[u8; 32]; 4]) -> (r: Vec<u8>)
    ensures
        r@ == spec_identity_hashes(entries@, macs@),
{
    let mut out: Vec<u8> = Vec::new();
    let mut i: usize = 0;
    while i < 4
        invariant
            i <= 4,
            out@ == spec_identity_hashes(entries@, macs@.take(i as int)),
        decreases 4 - i,
    {
        let mut buf = vstd::slice::slice_to_vec(entries[i].as_slice());
        let bits: u8 = if i == 0 {
            32
        } else if i == 1 {
            24
        } else if i == 2 {
            20
        } else {
            16
        };
        buf.push(bits);
        let mut m = vstd::slice::slice_to_vec(macs[i].as_slice());
        buf.append(&mut m);
        assert(buf@ =~= entries@[i as int]@ + seq![mask_bits(i as int)] + macs@[i as int]@);
        let h = blake2b256(buf.as_slice());
        let mut hv = vstd::slice::slice_to_vec(h.as_slice());
        out.append(&mut hv);
        proof {
            assert(macs@.take(i + 1).drop_last() =~= macs@.take(i as int));
        }
        i = i + 1;
    }
    assert(macs@.take(4) =~= macs@);
    out
}

/// A ban of a registry: its entry number, the hash of its reason and when it
/// expires.
#[derive(Debug, Clone, Copy)]
pub struct BanRecord {
    pub id: u64,
    pub reason_hash: Address,
    pub expires: u64,
}

/// A banned identity as the bans page lists it.
#[derive(Debug, Clone, Copy)]
pub struct BanRow {
    pub mask: u8,
    pub ip_hash: Address,
    pub reason_hash: Address,
    pub expires: u64,
}

/// The rows of one ban: one per identity hash filed under its number.
pub open spec fn ban_rows(mask: u8, rec: BanRecord, identities: Map<u64, Vec<Address>>) -> Seq<BanRow> {
    if identities.contains_key(rec.id) {
        identities[rec.id]@.map_values(
            |h: Address| BanRow { mask, ip_hash: h, reason_hash: rec.reason_hash, expires: rec.expires },
        )
    } else {
        Seq::empty()
    }
}

/// The rows of some bans, in the order given.
pub open spec fn spec_join_bans(mask: u8, recs: Seq<BanRecord>, identities: Map<u64, Vec<Address>>) -> Seq<BanRow>
    decreases recs.len(),
{
    if recs.len() == 0 {
        Seq::empty()
    } else {
        spec_join_bans(mask, recs.drop_last(), identities) + ban_rows(mask, recs.last(), identities)
    }
}

/// The entry numbers of some bans.
pub open spec fn ban_ids(recs: Seq<BanRecord>) -> Seq<u64> {
    recs.map_values(|r: BanRecord| r.id)
}

/// The banned identities of a registry whose identity table is `identities`:
/// its bans by entry number, each with every identity filed under it.
pub fn registry_bans(mask: u8, records: &[BanRecord], identities: &HashMap<u64, Vec<Address>>) -> (r: Vec<BanRow>)
    ensures
        r@ == spec_join_bans(
            mask,
            by_number(ban_ids(records@)).map_values(|i: usize| records@[i as int]),
            identities@,
        ),
{
    let mut ids: Vec<u64> = Vec::new();
    let mut i: usize = 0;
    while i < records.len()
        invariant
            i <= records@.len(),
            ids@ == ban_ids(records@.take(i as int)),
        decreases records@.len() - i,
    {
        ids.push(records[i].id);
        assert(ban_ids(records@.take(i as int + 1)) =~= ban_ids(records@.take(i as int)).push(records@[i as int].id));
        i = i + 1;
    }
    assert(records@.take(records@.len() as int) =~= records@);
    let order = sorted_order(ids.as_slice());
    let n = ids.len();
    proof {
        lemma_by_number_sorts(ids@, n as nat);
    }
    let ghost ordered = order@.map_values(|x: usize| records@[x as int]);
    let mut out: Vec<BanRow> = Vec::new();
    let mut k: usize = 0;
    while k < order.len()
        invariant
            k <= order@.len(),
            order@.len() == records@.len(),
            forall|a: int| 0 <= a < order@.len() ==> #[trigger] order@[a] < records@.len(),
            ordered == order@.map_values(|x: usize| records@[x as int]),
            out@ == spec_join_bans(mask, ordered.take(k as int), identities@),
        decreases order@.len() - k,
    {
        let rec = records[order[k]];
        assert(ordered.take(k as int + 1).drop_last() =~= ordered.take(k as int));
        assert(ordered.take(k as int + 1).last() == rec);
        match identities.get(&rec.id) {
            Some(hs) => {
                let ghost before = out@;
                let mut j: usize = 0;
                while j < hs.len()
                    invariant
                        j <= hs@.len(),
                        identities@.contains_key(rec.id),
                        identities@[rec.id] == *hs,
                        out@ == before + ban_rows(mask, rec, identities@).take(j as int),
                    decreases hs@.len() - j,
                {
                    out.push(BanRow { mask, ip_hash: hs[j], reason_hash: rec.reason_hash, expires: rec.expires });
                    assert(ban_rows(mask, rec, identities@).take(j as int + 1) =~= ban_rows(mask, rec, identities@).take(
                        j as int,
                    ).push(BanRow { mask, ip_hash: hs@[j as int], reason_hash: rec.reason_hash, expires: rec.expires }));
                    j = j + 1;
                }
                assert(ban_rows(mask, rec, identities@).take(hs@.len() as int) =~= ban_rows(mask, rec, identities@));
            },
            None => {
                assert(ban_rows(mask, rec, identities@) =~= Seq::<BanRow>::empty());
                assert(out@ + ban_rows(mask, rec, identities@) =~= out@);
            },
        }
        k = k + 1;
    }
    assert(ordered.take(order@.len() as int) =~= ordered);
    out
}

/// `v:bans:{uid}:{cursor}`: the cache key of a page of an entity's bans.
pub open spec fn spec_bans_key(uid: Address, cursor: u64) -> Seq<char> {
    "v:bans:"@ + address_text(uid@) + ":"@ + decimal_chars(cursor as nat)
}

pub fn bans_key(uid: &Address, cursor: Option<u64>) -> (r: String)
    ensures
        r@ == spec_bans_key(
            *uid,
            match cursor {
                Some(c) => c,
                None => 0,
            },
        ),
{
    let mut s = "v:bans:".to_string();
    let a = address_to_string(uid);
    push_text(&mut s, a.as_str());
    push_text(&mut s, ":");
    push_decimal(
        &mut s,
        match cursor {
            Some(c) => c,
            None => 0,
        },
    );
    s
}

} // verus!
