use std::collections::HashMap;
use vstd::prelude::*;
use vstd::utf8::encode_utf8;

use crate::bbcode::{addr_eq, Mapping};
use crate::error::RelayError;
use crate::digest::{blake2b256, blake2b256_of};
use crate::intent::Address;
use crate::payload::answer_keys;
use crate::text::{decimal_chars, push_decimal, push_text, str_eq};

verus! {

broadcast use {vstd::seq_lib::group_seq_properties, vstd::std_specs::hash::group_hash_axioms};

/// Where an entry of key `key` goes in `order`: before the first entry whose
/// key is greater, so that entries of equal keys keep their arrival order.
pub open spec fn insert_pos(order: Seq<usize>, keys: Seq<u64>, key: u64) -> int
    decreases order.len(),
{
    if order.len() == 0 {
        0
    } else if keys[order[0] as int] > key {
        0
    } else {
        1 + insert_pos(order.drop_first(), keys, key)
    }
}

/// The first `n` indices of `keys`, inserted one after the other where
/// `insert_pos` puts them: a stable sort by key.
pub open spec fn sorted_prefix(keys: Seq<u64>, n: nat) -> Seq<usize>
    decreases n,
{
    if n == 0 {
        Seq::empty()
    } else {
        let prev = sorted_prefix(keys, (n - 1) as nat);
        prev.insert(insert_pos(prev, keys, keys[n - 1]), (n - 1) as usize)
    }
}

/// The indices of `keys` ordered by key, equal keys in index order.
pub open spec fn by_number(keys: Seq<u64>) -> Seq<usize> {
    sorted_prefix(keys, keys.len())
}

/// The indices of the posts still to import past `cursor`, by number.
pub open spec fn spec_import_order(keys: Seq<u64>, cursor: u64) -> Seq<usize> {
    by_number(keys).filter(|i: usize| keys[i as int] > cursor)
}

/// How far the import of one board has come: the board's id, how many
/// posts were imported, the number of the last one, and whether the replay
/// of its reactions, pins, closes, deletes and votes is done. The import
/// saves it after every post, so that a new run resumes where the last one
/// stopped.
#[derive(Debug, Clone, Copy)]
pub struct BoardProgress {
    pub board_id: Address,
    pub post_count: u64,
    pub cursor: u64,
    pub done: bool,
}

impl BoardProgress {
    /// The progress of a board whose import has not started.
    pub fn start(board_id: Address) -> (r: Self)
        ensures
            r.board_id == board_id,
            r.post_count == 0,
            r.cursor == 0,
            !r.done,
    {
        BoardProgress { board_id, post_count: 0, cursor: 0, done: false }
    }

    /// Records that the post numbered `num` was imported.
    pub fn record_imported(&mut self, num: u64)
        requires
            old(self).post_count < u64::MAX,
        ensures
            final(self).post_count == old(self).post_count + 1,
            final(self).cursor == num,
            final(self).board_id == old(self).board_id,
            final(self).done == old(self).done,
    {
        self.post_count = self.post_count + 1;
        self.cursor = num;
    }

    /// Whether the board's replay is still to be run.
    pub fn replay_due(&self) -> (r: bool)
        ensures
            r == !self.done,
    {
        !self.done
    }

    /// Records that the board's replay ran.
    pub fn finish_replay(&mut self)
        ensures
            final(self).done,
            final(self).board_id == old(self).board_id,
            final(self).post_count == old(self).post_count,
            final(self).cursor == old(self).cursor,
    {
        self.done = true;
    }
}

/// Law: a resumed import takes up only the posts numbered after the cursor:
/// no post at or below it is imported again.
pub proof fn lemma_resume_skips_imported(keys: Seq<u64>, cursor: u64, k: int)
    requires
        0 <= k < spec_import_order(keys, cursor).len(),
    ensures
        keys[spec_import_order(keys, cursor)[k] as int] > cursor,
{
    let pred = |i: usize| keys[i as int] > cursor;
    by_number(keys).filter_lemma(pred);
}

/// Ordered by key, and by index among equal keys.
pub open spec fn ordered_by(order: Seq<usize>, keys: Seq<u64>) -> bool {
    forall|a: int, b: int|
        #![trigger order[a], order[b]]
        0 <= a < b < order.len() ==> keys[order[a] as int] < keys[order[b] as int] || (keys[order[a] as int]
            == keys[order[b] as int] && order[a] < order[b])
}

proof fn lemma_insert_pos_bounds(order: Seq<usize>, keys: Seq<u64>, key: u64)
    ensures
        0 <= insert_pos(order, keys, key) <= order.len(),
        forall|i: int|
            0 <= i < insert_pos(order, keys, key) ==> keys[#[trigger] order[i] as int] <= key,
        insert_pos(order, keys, key) < order.len() ==> keys[order[insert_pos(order, keys, key)] as int]
            > key,
    decreases order.len(),
{
    if order.len() > 0 && keys[order[0] as int] <= key {
        let rest = order.drop_first();
        lemma_insert_pos_bounds(rest, keys, key);
        assert forall|i: int| 0 <= i < insert_pos(order, keys, key) implies keys[#[trigger] order[i] as int]
            <= key by {
            if i > 0 {
                assert(order[i] == rest[i - 1]);
            }
        }
    }
}

proof fn lemma_insert_pos_at(order: Seq<usize>, keys: Seq<u64>, key: u64, j: int)
    requires
        0 <= j <= order.len(),
        forall|i: int| 0 <= i < j ==> keys[#[trigger] order[i] as int] <= key,
        j < order.len() ==> keys[order[j] as int] > key,
    ensures
        insert_pos(order, keys, key) == j,
    decreases order.len(),
{
    if order.len() > 0 && j > 0 {
        let rest = order.drop_first();
        assert(keys[order[0] as int] <= key);
        assert forall|i: int| 0 <= i < j - 1 implies keys[#[trigger] rest[i] as int] <= key by {
            assert(rest[i] == order[i + 1]);
        }
        lemma_insert_pos_at(rest, keys, key, j - 1);
    }
}

/// Law: the order in which the posts of a dump are imported holds each of
/// their indices once, by number, equal numbers in dump order.
pub proof fn lemma_by_number_sorts(keys: Seq<u64>, n: nat)
    requires
        n <= keys.len(),
        keys.len() <= usize::MAX,
    ensures
        sorted_prefix(keys, n).len() == n,
        forall|a: int| 0 <= a < n ==> #[trigger] sorted_prefix(keys, n)[a] < n,
        forall|i: usize| i < n ==> #[trigger] sorted_prefix(keys, n).contains(i),
        sorted_prefix(keys, n).no_duplicates(),
        ordered_by(sorted_prefix(keys, n), keys),
    decreases n,
{
    if n > 0 {
        let k = (n - 1) as nat;
        lemma_by_number_sorts(keys, k);
        let prev = sorted_prefix(keys, k);
        let key = keys[k as int];
        let p = insert_pos(prev, keys, key);
        lemma_insert_pos_bounds(prev, keys, key);
        let cur = prev.insert(p, k as usize);
        assert(cur == sorted_prefix(keys, n));
        prev.insert_ensures(p, k as usize);
        assert forall|a: int| 0 <= a < n implies #[trigger] cur[a] < n by {
            if a > p {
                assert(cur[a] == prev[a - 1]);
            }
        }
        assert forall|i: usize| i < n implies #[trigger] cur.contains(i) by {
            if i < k {
                assert(prev.contains(i));
                let w = choose|w: int| 0 <= w < prev.len() && prev[w] == i;
                if w < p {
                    assert(cur[w] == i);
                } else {
                    assert(cur[w + 1] == i);
                }
            } else {
                assert(cur[p] == i);
            }
        }
        assert forall|a: int, b: int| 0 <= a < b < cur.len() implies cur[a] != cur[b] by {
            if b < p {
                assert(cur[a] == prev[a] && cur[b] == prev[b]);
            } else if b == p {
                assert(cur[a] == prev[a]);
            } else if a < p {
                assert(cur[a] == prev[a]);
                assert(cur[b] == prev[b - 1]);
            } else if a == p {
                assert(cur[b] == prev[b - 1]);
            } else {
                assert(cur[a] == prev[a - 1]);
                assert(cur[b] == prev[b - 1]);
            }
        }
        assert forall|a: int, b: int|
            #![trigger cur[a], cur[b]]
            0 <= a < b < cur.len() implies keys[cur[a] as int] < keys[cur[b] as int] || (keys[cur[a] as int]
                == keys[cur[b] as int] && cur[a] < cur[b]) by {
            if b < p {
                assert(cur[a] == prev[a] && cur[b] == prev[b]);
            } else if b == p {
                assert(cur[a] == prev[a]);
                assert(keys[prev[a] as int] <= key);
            } else if a < p {
                assert(cur[a] == prev[a] && cur[b] == prev[b - 1]);
            } else if a == p {
                assert(cur[b] == prev[b - 1]);
                assert(keys[prev[p] as int] > key);
                if b - 1 > p {
                    assert(keys[prev[p] as int] <= keys[prev[b - 1] as int]);
                }
            } else {
                assert(cur[a] == prev[a - 1] && cur[b] == prev[b - 1]);
            }
        }
    }
}

/// The indices of `keys` ordered by key, equal keys in index order.
pub fn sorted_order(keys: &[u64]) -> (r: Vec<usize>)
    ensures
        r@ == by_number(keys@),
{
    let mut order: Vec<usize> = Vec::new();
    let mut k: usize = 0;
    while k < keys.len()
        invariant
            k <= keys@.len(),
            order@ == sorted_prefix(keys@, k as nat),
            forall|i: int| 0 <= i < order@.len() ==> #[trigger] order@[i] < k,
        decreases keys@.len() - k,
    {
        let key = keys[k];
        let mut j: usize = 0;
        while j < order.len() && keys[order[j]] <= key
            invariant
                k < keys@.len(),
                j <= order@.len(),
                forall|i: int| 0 <= i < order@.len() ==> #[trigger] order@[i] < k,
                forall|i: int| 0 <= i < j ==> keys@[#[trigger] order@[i] as int] <= key,
            decreases order@.len() - j,
        {
            j = j + 1;
        }
        proof {
            lemma_insert_pos_at(order@, keys@, key, j as int);
            order@.insert_ensures(j as int, k);
        }
        order.insert(j, k);
        k = k + 1;
    }
    order
}

/// The indices of the posts of a dump still to import after the one numbered
/// `cursor`: those numbered higher, by number.
pub fn import_order(keys: &[u64], cursor: u64) -> (r: Vec<usize>)
    ensures
        r@ == spec_import_order(keys@, cursor),
{
    let order = sorted_order(keys);
    let n = keys.len();
    proof {
        lemma_by_number_sorts(keys@, n as nat);
    }
    let mut out: Vec<usize> = Vec::new();
    let mut i: usize = 0;
    while i < order.len()
        invariant
            i <= order@.len(),
            order@ == by_number(keys@),
            order@.len() == keys@.len(),
            forall|a: int| 0 <= a < order@.len() ==> #[trigger] order@[a] < keys@.len(),
            out@ == order@.take(i as int).filter(|x: usize| keys@[x as int] > cursor),
        decreases order@.len() - i,
    {
        let idx = order[i];
        proof {
            order@.take(i as int).lemma_filter_push(idx, |x: usize| keys@[x as int] > cursor);
            assert(order@.take(i as int + 1) =~= order@.take(i as int).push(idx));
        }
        if keys[idx] > cursor {
            out.push(idx);
        }
        i = i + 1;
    }
    assert(order@.take(order@.len() as int) =~= order@);
    out
}

/// A reaction recorded in a dump: the icon's text and the reacting address.
pub struct DumpReaction {
    pub icon: String,
    pub ip: Option<String>,
}

/// A poll vote recorded in a dump: the chosen answer's index and the voter's
/// address.
pub struct DumpVote {
    pub option: u64,
    pub ip: Option<String>,
}

/// What the replay reads of a post of a dump.
pub struct ReplayPost {
    pub num: u64,
    pub parent: u64,
    pub sticky: bool,
    pub closed: bool,
    pub deleted: bool,
    pub reactions: Vec<DumpReaction>,
    pub answers: Vec<String>,
    pub poll_votes: Vec<DumpVote>,
}

/// A reaction to replay: on `post`, the icon of hash `icon`, from `ip`.
pub struct ReactionEvent {
    pub post: Address,
    pub icon: Address,
    pub ip: String,
}

/// A vote to replay: on `post`, for the answers of hashes `options`, from `ip`.
pub struct VoteEvent {
    pub post: Address,
    pub options: Vec<Address>,
    pub ip: String,
}

/// What the import replays once all posts of a board are imported: the
/// board's reaction icons, its pinned threads, the threads to close and to
/// delete, then each reaction and each vote.
pub struct ReplayPlan {
    pub reaction_icons: Vec<Address>,
    pub pinned: Vec<Address>,
    pub closed: Vec<Address>,
    pub deleted: Vec<Address>,
    pub reactions: Vec<ReactionEvent>,
    pub votes: Vec<VoteEvent>,
}

/// A replay plan with hashes and texts taken by their contents.
#[verifier::ext_equal]
pub struct ReplayView {
    pub icons: Seq<Seq<u8>>,
    pub pinned: Seq<Address>,
    pub closed: Seq<Address>,
    pub deleted: Seq<Address>,
    pub reactions: Seq<(Address, Seq<u8>, Seq<char>)>,
    pub votes: Seq<(Address, Seq<Seq<u8>>, Seq<char>)>,
}

/// The contents of some addresses.
pub open spec fn views(s: Seq<Address>) -> Seq<Seq<u8>> {
    s.map_values(|a: Address| a@)
}

/// The contents of some texts.
pub open spec fn texts(s: Seq<String>) -> Seq<Seq<char>> {
    s.map_values(|t: String| t@)
}

/// Reaction events by their contents.
pub open spec fn reaction_events_view(s: Seq<ReactionEvent>) -> Seq<(Address, Seq<u8>, Seq<char>)> {
    s.map_values(|e: ReactionEvent| (e.post, e.icon@, e.ip@))
}

/// Vote events by their contents.
pub open spec fn vote_events_view(s: Seq<VoteEvent>) -> Seq<(Address, Seq<Seq<u8>>, Seq<char>)> {
    s.map_values(|e: VoteEvent| (e.post, views(e.options@), e.ip@))
}

/// A replay plan by its contents.
pub open spec fn plan_view(p: ReplayPlan) -> ReplayView {
    ReplayView {
        icons: views(p.reaction_icons@),
        pinned: p.pinned@,
        closed: p.closed@,
        deleted: p.deleted@,
        reactions: reaction_events_view(p.reactions@),
        votes: vote_events_view(p.votes@),
    }
}

/// `s` with `x` added at the end unless it is there already.
pub open spec fn add_unique<T>(s: Seq<T>, x: T) -> Seq<T> {
    if s.contains(x) {
        s
    } else {
        s.push(x)
    }
}

/// The address a reaction or vote came from; the empty text when unknown.
pub open spec fn ip_text(ip: Option<String>) -> Seq<char> {
    match ip {
        Some(s) => s@,
        None => Seq::empty(),
    }
}

/// The key of a text: the BLAKE2b digest of its UTF-8 bytes.
pub open spec fn text_hash(t: String) -> Seq<u8> {
    blake2b256_of(encode_utf8(t@))
}

/// The icons of a board after the reactions `rs`: each new icon is added once.
pub open spec fn icons_after(icons: Seq<Seq<u8>>, rs: Seq<DumpReaction>) -> Seq<Seq<u8>>
    decreases rs.len(),
{
    if rs.len() == 0 {
        icons
    } else {
        add_unique(icons_after(icons, rs.drop_last()), text_hash(rs.last().icon))
    }
}

/// The addresses that reacted, by first reaction.
pub open spec fn reaction_ips(rs: Seq<DumpReaction>) -> Seq<Seq<char>>
    decreases rs.len(),
{
    if rs.len() == 0 {
        Seq::empty()
    } else {
        add_unique(reaction_ips(rs.drop_last()), ip_text(rs.last().ip))
    }
}

/// The icon of the last reaction from `ip`, if any.
pub open spec fn last_icon(rs: Seq<DumpReaction>, ip: Seq<char>) -> Option<Seq<u8>>
    decreases rs.len(),
{
    if rs.len() == 0 {
        None
    } else if ip_text(rs.last().ip) == ip {
        Some(text_hash(rs.last().icon))
    } else {
        last_icon(rs.drop_last(), ip)
    }
}

/// The addresses that voted for one of the `n` answers, by first vote.
pub open spec fn vote_ips(vs: Seq<DumpVote>, n: nat) -> Seq<Seq<char>>
    decreases vs.len(),
{
    if vs.len() == 0 {
        Seq::empty()
    } else if vs.last().option < n {
        add_unique(vote_ips(vs.drop_last(), n), ip_text(vs.last().ip))
    } else {
        vote_ips(vs.drop_last(), n)
    }
}

/// The answers `ip` voted for, each once, by first vote.
pub open spec fn vote_options(vs: Seq<DumpVote>, answers: Seq<String>, ip: Seq<char>) -> Seq<Seq<u8>>
    decreases vs.len(),
{
    if vs.len() == 0 {
        Seq::empty()
    } else if vs.last().option < answers.len() && ip_text(vs.last().ip) == ip {
        add_unique(
            vote_options(vs.drop_last(), answers, ip),
            text_hash(answers[vs.last().option as int]),
        )
    } else {
        vote_options(vs.drop_last(), answers, ip)
    }
}

/// What one imported post adds to the replay: its thread pinned, closed or
/// deleted (an opening post only for the last two), its icons, one reaction
/// per address with that address's last icon, and one vote per address with
/// the answers it chose. A post not imported to `board` adds nothing.
pub open spec fn replay_step(v: ReplayView, p: ReplayPost, mapping: Map<u64, Mapping>, board: Address) -> ReplayView {
    if !mapping.contains_key(p.num) || mapping[p.num].board != board {
        v
    } else {
        let m = mapping[p.num];
        let rs = p.reactions@;
        let vs = p.poll_votes@;
        ReplayView {
            icons: icons_after(v.icons, rs),
            pinned: if p.sticky {
                add_unique(v.pinned, m.thread)
            } else {
                v.pinned
            },
            closed: if p.parent == 0 && p.closed {
                add_unique(v.closed, m.thread)
            } else {
                v.closed
            },
            deleted: if p.parent == 0 && p.deleted {
                add_unique(v.deleted, m.thread)
            } else {
                v.deleted
            },
            reactions: v.reactions + post_reactions(rs, m.post),
            votes: v.votes + post_votes(vs, p.answers@, m.post),
        }
    }
}

/// The replay of the posts `ps`, in that order.
pub open spec fn spec_replay(ps: Seq<ReplayPost>, mapping: Map<u64, Mapping>, board: Address) -> ReplayView
    decreases ps.len(),
{
    if ps.len() == 0 {
        ReplayView {
            icons: Seq::empty(),
            pinned: Seq::empty(),
            closed: Seq::empty(),
            deleted: Seq::empty(),
            reactions: Seq::empty(),
            votes: Seq::empty(),
        }
    } else {
        replay_step(spec_replay(ps.drop_last(), mapping, board), ps.last(), mapping, board)
    }
}

/// The numbers of some posts.
pub open spec fn post_numbers(ps: Seq<ReplayPost>) -> Seq<u64> {
    ps.map_values(|p: ReplayPost| p.num)
}

fn hash_text(t: &String) -> (r: Address)
    ensures
        r@ == text_hash(*t),
{
    blake2b256(t.as_str().as_bytes())
}

fn ip_of(ip: &Option<String>) -> (r: String)
    ensures
        r@ == ip_text(*ip),
{
    match ip {
        Some(s) => s.clone(),
        None => String::new(),
    }
}

fn push_unique(list: &mut Vec<Address>, x: Address)
    ensures
        final(list)@ == add_unique(old(list)@, x),
        views(final(list)@) == add_unique(views(old(list)@), x@),
{
    let mut i: usize = 0;
    while i < list.len()
        invariant
            i <= list@.len(),
            list@ == old(list)@,
            forall|j: int| 0 <= j < i ==> list@[j] != x && list@[j]@ != x@,
        decreases list@.len() - i,
    {
        if addr_eq(&list[i], &x) {
            proof {
                assert(list@.contains(x));
                assert(views(list@)[i as int] == x@);
                assert(views(list@).contains(x@));
            }
            return;
        }
        i = i + 1;
    }
    proof {
        assert(!list@.contains(x));
        assert(!views(list@).contains(x@)) by {
            if views(list@).contains(x@) {
                let w = choose|w: int| 0 <= w < views(list@).len() && views(list@)[w] == x@;
                assert(list@[w]@ == x@);
            }
        }
    }
    list.push(x);
    assert(views(final(list)@) =~= views(old(list)@).push(x@));
}

fn push_unique_text(list: &mut Vec<String>, x: String)
    ensures
        texts(final(list)@) == add_unique(texts(old(list)@), x@),
{
    let mut i: usize = 0;
    while i < list.len()
        invariant
            i <= list@.len(),
            list@ == old(list)@,
            forall|j: int| 0 <= j < i ==> list@[j]@ != x@,
        decreases list@.len() - i,
    {
        if str_eq(list[i].as_str(), x.as_str()) {
            proof {
                assert(texts(list@)[i as int] == x@);
                assert(texts(list@).contains(x@));
            }
            return;
        }
        i = i + 1;
    }
    proof {
        assert(!texts(list@).contains(x@)) by {
            if texts(list@).contains(x@) {
                let w = choose|w: int| 0 <= w < texts(list@).len() && texts(list@)[w] == x@;
                assert(list@[w]@ == x@);
            }
        }
    }
    list.push(x);
    assert(texts(final(list)@) =~= texts(old(list)@).push(final(list)@.last()@));
}

proof fn lemma_reacted_has_icon(rs: Seq<DumpReaction>, ip: Seq<char>)
    requires
        reaction_ips(rs).contains(ip),
    ensures
        last_icon(rs, ip) is Some,
    decreases rs.len(),
{
    if rs.len() > 0 && ip_text(rs.last().ip) != ip {
        let prev = reaction_ips(rs.drop_last());
        assert(prev.contains(ip)) by {
            if !prev.contains(ip_text(rs.last().ip)) {
                let w = choose|w: int| 0 <= w < prev.push(ip_text(rs.last().ip)).len() && prev.push(
                    ip_text(rs.last().ip),
                )[w] == ip;
                assert(w < prev.len());
                assert(prev[w] == ip);
            }
        }
        lemma_reacted_has_icon(rs.drop_last(), ip);
    }
}

fn add_post_icons(icons: &mut Vec<Address>, rs: &Vec<DumpReaction>)
    ensures
        views(final(icons)@) == icons_after(views(old(icons)@), rs@),
{
    let mut i: usize = 0;
    while i < rs.len()
        invariant
            i <= rs@.len(),
            views(icons@) == icons_after(views(old(icons)@), rs@.take(i as int)),
        decreases rs@.len() - i,
    {
        let h = hash_text(&rs[i].icon);
        push_unique(icons, h);
        assert(rs@.take(i as int + 1).drop_last() =~= rs@.take(i as int));
        i = i + 1;
    }
    assert(rs@.take(rs@.len() as int) =~= rs@);
}

fn reaction_ip_list(rs: &Vec<DumpReaction>) -> (r: Vec<String>)
    ensures
        texts(r@) == reaction_ips(rs@),
{
    let mut ips: Vec<String> = Vec::new();
    let mut i: usize = 0;
    assert(texts(ips@) =~= reaction_ips(rs@.take(0)));
    while i < rs.len()
        invariant
            i <= rs@.len(),
            texts(ips@) == reaction_ips(rs@.take(i as int)),
        decreases rs@.len() - i,
    {
        let ip = ip_of(&rs[i].ip);
        push_unique_text(&mut ips, ip);
        assert(rs@.take(i as int + 1).drop_last() =~= rs@.take(i as int));
        i = i + 1;
    }
    assert(rs@.take(rs@.len() as int) =~= rs@);
    ips
}

fn last_icon_of(rs: &Vec<DumpReaction>, ip: &String) -> (r: Option<Address>)
    ensures
        match r {
            Some(h) => last_icon(rs@, ip@) == Some(h@),
            None => last_icon(rs@, ip@) is None,
        },
{
    let mut found: Option<Address> = None;
    let mut i: usize = 0;
    while i < rs.len()
        invariant
            i <= rs@.len(),
            match found {
                Some(h) => last_icon(rs@.take(i as int), ip@) == Some(h@),
                None => last_icon(rs@.take(i as int), ip@) is None,
            },
        decreases rs@.len() - i,
    {
        let from = ip_of(&rs[i].ip);
        if str_eq(from.as_str(), ip.as_str()) {
            found = Some(hash_text(&rs[i].icon));
        }
        assert(rs@.take(i as int + 1).drop_last() =~= rs@.take(i as int));
        i = i + 1;
    }
    assert(rs@.take(rs@.len() as int) =~= rs@);
    found
}

/// The reactions of a post to replay, as views.
pub open spec fn post_reactions(rs: Seq<DumpReaction>, post: Address) -> Seq<(Address, Seq<u8>, Seq<char>)> {
    reaction_ips(rs).map_values(|ip: Seq<char>| (post, last_icon(rs, ip)->Some_0, ip))
}

fn push_reaction_events(out: &mut Vec<ReactionEvent>, rs: &Vec<DumpReaction>, post: Address)
    ensures
        reaction_events_view(final(out)@) == reaction_events_view(old(out)@) + post_reactions(rs@, post),
{
    let ips = reaction_ip_list(rs);
    let mut j: usize = 0;
    while j < ips.len()
        invariant
            j <= ips@.len(),
            texts(ips@) == reaction_ips(rs@),
            reaction_events_view(out@) == reaction_events_view(old(out)@) + post_reactions(rs@, post).take(
                j as int,
            ),
        decreases ips@.len() - j,
    {
        proof {
            assert(texts(ips@)[j as int] == ips@[j as int]@);
            lemma_reacted_has_icon(rs@, ips@[j as int]@);
        }
        let icon = match last_icon_of(rs, &ips[j]) {
            Some(h) => h,
            None => {
                proof {
                    assert(false);
                }
                [0u8; 32]
            },
        };
        let ghost before = out@;
        out.push(ReactionEvent { post, icon, ip: ips[j].clone() });
        assert(reaction_events_view(out@) =~= reaction_events_view(before).push(
            (post, icon@, ips@[j as int]@),
        ));
        assert(post_reactions(rs@, post).take(j as int + 1) =~= post_reactions(rs@, post).take(j as int).push(
            (post, icon@, ips@[j as int]@),
        ));
        j = j + 1;
    }
    assert(post_reactions(rs@, post).take(ips@.len() as int) =~= post_reactions(rs@, post));
}

fn vote_ip_list(vs: &Vec<DumpVote>, n: usize) -> (r: Vec<String>)
    ensures
        texts(r@) == vote_ips(vs@, n as nat),
{
    let mut ips: Vec<String> = Vec::new();
    let mut i: usize = 0;
    assert(texts(ips@) =~= vote_ips(vs@.take(0), n as nat));
    while i < vs.len()
        invariant
            i <= vs@.len(),
            texts(ips@) == vote_ips(vs@.take(i as int), n as nat),
        decreases vs@.len() - i,
    {
        if vs[i].option < n as u64 {
            let ip = ip_of(&vs[i].ip);
            push_unique_text(&mut ips, ip);
        }
        assert(vs@.take(i as int + 1).drop_last() =~= vs@.take(i as int));
        i = i + 1;
    }
    assert(vs@.take(vs@.len() as int) =~= vs@);
    ips
}

fn options_of(vs: &Vec<DumpVote>, answers: &Vec<String>, hashes: &Vec<Address>, ip: &String) -> (r: Vec<Address>)
    requires
        hashes@.len() == answers@.len(),
        forall|i: int| 0 <= i < answers@.len() ==> (#[trigger] hashes@[i])@ == text_hash(answers@[i]),
    ensures
        views(r@) == vote_options(vs@, answers@, ip@),
{
    let mut opts: Vec<Address> = Vec::new();
    let mut i: usize = 0;
    assert(views(opts@) =~= vote_options(vs@.take(0), answers@, ip@));
    while i < vs.len()
        invariant
            i <= vs@.len(),
            hashes@.len() == answers@.len(),
            forall|k: int| 0 <= k < answers@.len() ==> (#[trigger] hashes@[k])@ == text_hash(answers@[k]),
            views(opts@) == vote_options(vs@.take(i as int), answers@, ip@),
        decreases vs@.len() - i,
    {
        if vs[i].option < hashes.len() as u64 {
            let from = ip_of(&vs[i].ip);
            if str_eq(from.as_str(), ip.as_str()) {
                let k = vs[i].option as usize;
                push_unique(&mut opts, hashes[k]);
            }
        }
        assert(vs@.take(i as int + 1).drop_last() =~= vs@.take(i as int));
        i = i + 1;
    }
    assert(vs@.take(vs@.len() as int) =~= vs@);
    opts
}

/// The votes of a post to replay, as views.
pub open spec fn post_votes(vs: Seq<DumpVote>, answers: Seq<String>, post: Address) -> Seq<
    (Address, Seq<Seq<u8>>, Seq<char>),
> {
    vote_ips(vs, answers.len()).map_values(|ip: Seq<char>| (post, vote_options(vs, answers, ip), ip))
}

fn push_vote_events(out: &mut Vec<VoteEvent>, vs: &Vec<DumpVote>, answers: &Vec<String>, post: Address)
    ensures
        vote_events_view(final(out)@) == vote_events_view(old(out)@) + post_votes(vs@, answers@, post),
{
    let hashes = answer_keys(answers.as_slice());
    let ips = vote_ip_list(vs, answers.len());
    let mut j: usize = 0;
    while j < ips.len()
        invariant
            j <= ips@.len(),
            texts(ips@) == vote_ips(vs@, answers@.len()),
            hashes@.len() == answers@.len(),
            forall|k: int| 0 <= k < answers@.len() ==> (#[trigger] hashes@[k])@ == text_hash(answers@[k]),
            vote_events_view(out@) == vote_events_view(old(out)@) + post_votes(vs@, answers@, post).take(
                j as int,
            ),
        decreases ips@.len() - j,
    {
        assert(texts(ips@)[j as int] == ips@[j as int]@);
        let options = options_of(vs, answers, &hashes, &ips[j]);
        let ghost before = out@;
        let ghost opts = views(options@);
        out.push(VoteEvent { post, options, ip: ips[j].clone() });
        assert(vote_events_view(out@) =~= vote_events_view(before).push((post, opts, ips@[j as int]@)));
        assert(post_votes(vs@, answers@, post).take(j as int + 1) =~= post_votes(vs@, answers@, post).take(
            j as int,
        ).push((post, opts, ips@[j as int]@)));
        j = j + 1;
    }
    assert(post_votes(vs@, answers@, post).take(ips@.len() as int) =~= post_votes(vs@, answers@, post));
}

fn replay_post(plan: &mut ReplayPlan, p: &ReplayPost, mapping: &HashMap<u64, Mapping>, board: &Address)
    ensures
        plan_view(*final(plan)) == replay_step(plan_view(*old(plan)), *p, mapping@, *board),
{
    let m = match mapping.get(&p.num) {
        Some(m) => *m,
        None => {
            return ;
        },
    };
    if !addr_eq(&m.board, board) {
        return ;
    }
    if p.sticky {
        push_unique(&mut plan.pinned, m.thread);
    }
    if p.parent == 0 && p.closed {
        push_unique(&mut plan.closed, m.thread);
    }
    if p.parent == 0 && p.deleted {
        push_unique(&mut plan.deleted, m.thread);
    }
    add_post_icons(&mut plan.reaction_icons, &p.reactions);
    push_reaction_events(&mut plan.reactions, &p.reactions, m.post);
    push_vote_events(&mut plan.votes, &p.poll_votes, &p.answers, m.post);
}

/// What the import replays once all posts of a board are imported: the posts
/// taken by number, each that was imported to `board` contributing as
/// `replay_step` says.
pub fn replay_plan(posts: &[ReplayPost], mapping: &HashMap<u64, Mapping>, board: &Address) -> (r: ReplayPlan)
    ensures
        plan_view(r) == spec_replay(
            by_number(post_numbers(posts@)).map_values(|i: usize| posts@[i as int]),
            mapping@,
            *board,
        ),
{
    let mut nums: Vec<u64> = Vec::new();
    let mut i: usize = 0;
    while i < posts.len()
        invariant
            i <= posts@.len(),
            nums@ == post_numbers(posts@.take(i as int)),
        decreases posts@.len() - i,
    {
        nums.push(posts[i].num);
        assert(post_numbers(posts@.take(i as int + 1)) =~= post_numbers(posts@.take(i as int)).push(
            posts@[i as int].num,
        ));
        i = i + 1;
    }
    assert(posts@.take(posts@.len() as int) =~= posts@);
    let order = sorted_order(nums.as_slice());
    let n = nums.len();
    proof {
        lemma_by_number_sorts(nums@, n as nat);
    }
    let ghost ordered = order@.map_values(|k: usize| posts@[k as int]);
    let mut plan = ReplayPlan {
        reaction_icons: Vec::new(),
        pinned: Vec::new(),
        closed: Vec::new(),
        deleted: Vec::new(),
        reactions: Vec::new(),
        votes: Vec::new(),
    };
    assert(ordered.take(0) =~= Seq::<ReplayPost>::empty());
    assert(plan_view(plan) =~= spec_replay(ordered.take(0), mapping@, *board));
    let mut k: usize = 0;
    while k < order.len()
        invariant
            k <= order@.len(),
            order@.len() == posts@.len(),
            forall|a: int| 0 <= a < order@.len() ==> #[trigger] order@[a] < posts@.len(),
            ordered == order@.map_values(|x: usize| posts@[x as int]),
            plan_view(plan) == spec_replay(ordered.take(k as int), mapping@, *board),
        decreases order@.len() - k,
    {
        let idx = order[k];
        replay_post(&mut plan, &posts[idx], mapping, board);
        assert(ordered.take(k as int + 1).drop_last() =~= ordered.take(k as int));
        assert(ordered.take(k as int + 1).last() == posts@[idx as int]);
        k = k + 1;
    }
    assert(ordered.take(order@.len() as int) =~= ordered);
    plan
}

/// A board or thread event that a replay sends, in the order it sends them.
pub enum ReplaySend {
    SetReactions(Vec<Address>),
    SetPinned(Vec<Address>),
    SetClosed(Address),
    SetDeleted(Address),
}

/// A replay send by its contents.
pub enum SendView {
    SetReactions(Seq<Seq<u8>>),
    SetPinned(Seq<Address>),
    SetClosed(Address),
    SetDeleted(Address),
}

pub open spec fn send_view(s: ReplaySend) -> SendView {
    match s {
        ReplaySend::SetReactions(v) => SendView::SetReactions(views(v@)),
        ReplaySend::SetPinned(v) => SendView::SetPinned(v@),
        ReplaySend::SetClosed(t) => SendView::SetClosed(t),
        ReplaySend::SetDeleted(t) => SendView::SetDeleted(t),
    }
}

/// The board and thread events of a plan: the board's reaction icons and its
/// pinned threads, each only when there is one, then a close for each thread
/// to close and a delete for each thread to delete.
pub open spec fn spec_plan_sends(v: ReplayView) -> Seq<SendView> {
    (if v.icons.len() > 0 {
        seq![SendView::SetReactions(v.icons)]
    } else {
        Seq::empty()
    }) + (if v.pinned.len() > 0 {
        seq![SendView::SetPinned(v.pinned)]
    } else {
        Seq::empty()
    }) + v.closed.map_values(|t: Address| SendView::SetClosed(t)) + v.deleted.map_values(
        |t: Address| SendView::SetDeleted(t),
    )
}

fn copy_addresses(v: &Vec<Address>) -> (r: Vec<Address>)
    ensures
        r@ == v@,
{
    let mut out: Vec<Address> = Vec::new();
    let mut i: usize = 0;
    while i < v.len()
        invariant
            i <= v@.len(),
            out@ == v@.take(i as int),
        decreases v@.len() - i,
    {
        out.push(v[i]);
        assert(v@.take(i as int + 1) =~= v@.take(i as int).push(v@[i as int]));
        i = i + 1;
    }
    assert(v@.take(v@.len() as int) =~= v@);
    out
}

/// The board and thread events that a replay plan sends before its
/// reactions and votes.
pub fn plan_sends(plan: &ReplayPlan) -> (r: Vec<ReplaySend>)
    ensures
        r@.map_values(|s: ReplaySend| send_view(s)) == spec_plan_sends(plan_view(*plan)),
{
    let ghost v = plan_view(*plan);
    let mut out: Vec<ReplaySend> = Vec::new();
    if plan.reaction_icons.len() > 0 {
        out.push(ReplaySend::SetReactions(copy_addresses(&plan.reaction_icons)));
    }
    if plan.pinned.len() > 0 {
        out.push(ReplaySend::SetPinned(copy_addresses(&plan.pinned)));
    }
    let ghost head = (if v.icons.len() > 0 {
        seq![SendView::SetReactions(v.icons)]
    } else {
        Seq::empty()
    }) + (if v.pinned.len() > 0 {
        seq![SendView::SetPinned(v.pinned)]
    } else {
        Seq::empty()
    });
    assert(out@.map_values(|s: ReplaySend| send_view(s)) =~= head);
    let mut i: usize = 0;
    while i < plan.closed.len()
        invariant
            i <= plan.closed@.len(),
            v == plan_view(*plan),
            out@.map_values(|s: ReplaySend| send_view(s)) == head + v.closed.take(i as int).map_values(
                |t: Address| SendView::SetClosed(t),
            ),
        decreases plan.closed@.len() - i,
    {
        let ghost before = out@;
        out.push(ReplaySend::SetClosed(plan.closed[i]));
        assert(out@.map_values(|s: ReplaySend| send_view(s)) =~= before.map_values(
            |s: ReplaySend| send_view(s),
        ).push(SendView::SetClosed(v.closed[i as int])));
        assert(v.closed.take(i as int + 1).map_values(|t: Address| SendView::SetClosed(t))
            =~= v.closed.take(i as int).map_values(|t: Address| SendView::SetClosed(t)).push(
            SendView::SetClosed(v.closed[i as int]),
        ));
        assert(out@.map_values(|s: ReplaySend| send_view(s)) =~= head + v.closed.take(
            i as int + 1,
        ).map_values(|t: Address| SendView::SetClosed(t)));
        i = i + 1;
    }
    assert(v.closed.take(v.closed.len() as int) =~= v.closed);
    let ghost mid = head + v.closed.map_values(|t: Address| SendView::SetClosed(t));
    let mut j: usize = 0;
    while j < plan.deleted.len()
        invariant
            j <= plan.deleted@.len(),
            v == plan_view(*plan),
            out@.map_values(|s: ReplaySend| send_view(s)) == mid + v.deleted.take(j as int).map_values(
                |t: Address| SendView::SetDeleted(t),
            ),
        decreases plan.deleted@.len() - j,
    {
        let ghost before = out@;
        out.push(ReplaySend::SetDeleted(plan.deleted[j]));
        assert(out@.map_values(|s: ReplaySend| send_view(s)) =~= before.map_values(
            |s: ReplaySend| send_view(s),
        ).push(SendView::SetDeleted(v.deleted[j as int])));
        assert(v.deleted.take(j as int + 1).map_values(|t: Address| SendView::SetDeleted(t))
            =~= v.deleted.take(j as int).map_values(|t: Address| SendView::SetDeleted(t)).push(
            SendView::SetDeleted(v.deleted[j as int]),
        ));
        assert(out@.map_values(|s: ReplaySend| send_view(s)) =~= mid + v.deleted.take(
            j as int + 1,
        ).map_values(|t: Address| SendView::SetDeleted(t)));
        j = j + 1;
    }
    assert(v.deleted.take(v.deleted.len() as int) =~= v.deleted);
    out
}

proof fn lemma_add_unique_distinct<T>(s: Seq<T>, x: T)
    requires
        s.no_duplicates(),
    ensures
        add_unique(s, x).no_duplicates(),
{
    if !s.contains(x) {
        assert forall|a: int, b: int| 0 <= a < b < s.push(x).len() implies s.push(x)[a] != s.push(x)[b] by {
            if b == s.len() {
                assert(s[a] != x);
            }
        }
    }
}

proof fn lemma_icons_after_distinct(icons: Seq<Seq<u8>>, rs: Seq<DumpReaction>)
    requires
        icons.no_duplicates(),
    ensures
        icons_after(icons, rs).no_duplicates(),
    decreases rs.len(),
{
    if rs.len() > 0 {
        lemma_icons_after_distinct(icons, rs.drop_last());
        lemma_add_unique_distinct(icons_after(icons, rs.drop_last()), text_hash(rs.last().icon));
    }
}

/// Law: a replay sets each reaction icon once, and pins, closes and deletes
/// each thread at most once, whatever the posts.
pub proof fn lemma_replay_lists_distinct(ps: Seq<ReplayPost>, mapping: Map<u64, Mapping>, board: Address)
    ensures
        spec_replay(ps, mapping, board).icons.no_duplicates(),
        spec_replay(ps, mapping, board).pinned.no_duplicates(),
        spec_replay(ps, mapping, board).closed.no_duplicates(),
        spec_replay(ps, mapping, board).deleted.no_duplicates(),
    decreases ps.len(),
{
    if ps.len() > 0 {
        let prev = spec_replay(ps.drop_last(), mapping, board);
        lemma_replay_lists_distinct(ps.drop_last(), mapping, board);
        let p = ps.last();
        if mapping.contains_key(p.num) && mapping[p.num].board == board {
            let m = mapping[p.num];
            lemma_icons_after_distinct(prev.icons, p.reactions@);
            lemma_add_unique_distinct(prev.pinned, m.thread);
            lemma_add_unique_distinct(prev.closed, m.thread);
            lemma_add_unique_distinct(prev.deleted, m.thread);
        }
    }
}

/// A message naming a post by number: a fixed text, the number, a fixed text.
pub open spec fn number_text(before: Seq<char>, n: nat, after: Seq<char>) -> Seq<char> {
    before + decimal_chars(n) + after
}

fn number_message(before: &str, n: u64, after: &str) -> (r: String)
    ensures
        r@ == number_text(before@, n as nat, after@),
{
    let mut s = String::new();
    push_text(&mut s, before);
    push_decimal(&mut s, n);
    push_text(&mut s, after);
    s
}

/// Which signing key an imported post gets.
#[derive(Debug, Clone, Copy)]
pub enum SeedChoice {
    /// The key it was given on an earlier run.
    Kept([u8; 32]),
    /// A fresh random key, to be remembered for the post.
    Fresh,
}

/// The key of an imported post: the one it was given on an earlier run; else,
/// for a post marked as written by its thread's author, that author's key;
/// else a fresh one. Refused when the author's key is needed and unknown.
pub open spec fn spec_seed_choice(op: bool, parent: u64, num: u64, keys: Map<u64, [u8; 32]>) -> Result<
    SeedChoice,
    Seq<char>,
> {
    if op && parent != 0 {
        if !keys.contains_key(parent) {
            Err(number_text("thread OP key "@, parent as nat, " not found"@))
        } else if keys.contains_key(num) {
            Ok(SeedChoice::Kept(keys[num]))
        } else {
            Ok(SeedChoice::Kept(keys[parent]))
        }
    } else if keys.contains_key(num) {
        Ok(SeedChoice::Kept(keys[num]))
    } else {
        Ok(SeedChoice::Fresh)
    }
}

/// The signing key an imported post gets; whatever comes back is to be
/// remembered as that post's key.
pub fn seed_choice(op: bool, parent: u64, num: u64, keys: &HashMap<u64, [u8; 32]>) -> (r: Result<
    SeedChoice,
    RelayError,
>)
    ensures
        match spec_seed_choice(op, parent, num, keys@) {
            Ok(c) => r == Ok::<SeedChoice, RelayError>(c),
            Err(msg) => r matches Err(RelayError::Internal(m)) && m@ == msg,
        },
{
    if op && parent != 0 {
        let op_seed = match keys.get(&parent) {
            Some(k) => *k,
            None => {
                return Err(RelayError::Internal(number_message("thread OP key ", parent, " not found")));
            },
        };
        match keys.get(&num) {
            Some(k) => Ok(SeedChoice::Kept(*k)),
            None => Ok(SeedChoice::Kept(op_seed)),
        }
    } else {
        match keys.get(&num) {
            Some(k) => Ok(SeedChoice::Kept(*k)),
            None => Ok(SeedChoice::Fresh),
        }
    }
}

/// The thread a reply is imported into: the one its parent was imported
/// into; refused when the parent was not imported.
pub fn reply_thread(parent: u64, mapping: &HashMap<u64, Mapping>) -> (r: Result<Address, RelayError>)
    ensures
        mapping@.contains_key(parent) ==> r == Ok::<Address, RelayError>(mapping@[parent].thread),
        !mapping@.contains_key(parent) ==> (r matches Err(RelayError::Internal(m)) && m@ == number_text(
            "parent "@,
            parent as nat,
            " not migrated"@,
        )),
{
    match mapping.get(&parent) {
        Some(m) => Ok(m.thread),
        None => Err(RelayError::Internal(number_message("parent ", parent, " not migrated"))),
    }
}

/// The objects a created thread's transaction produced, as the import needs
/// them: the thread, its opening post and that post's number; refused,
/// naming the dump's post `old_num`, when one is missing.
pub fn created_thread(thread: Option<Address>, post: Option<Address>, post_num: Option<u64>, old_num: u64) -> (r:
    Result<(Address, Address, u64), RelayError>)
    ensures
        thread is None ==> (r matches Err(RelayError::Internal(m)) && m@ == number_text(
            "created thread not found for old#"@,
            old_num as nat,
            ""@,
        )),
        thread is Some && post is None ==> (r matches Err(RelayError::Internal(m)) && m@ == number_text(
            "created post not found for old#"@,
            old_num as nat,
            ""@,
        )),
        thread is Some && post is Some && post_num is None ==> (r matches Err(RelayError::Internal(m)) && m@
            == number_text("created post number not found for old#"@, old_num as nat, ""@)),
        thread is Some && post is Some && post_num is Some ==> r == Ok::<(Address, Address, u64), RelayError>(
            (thread->Some_0, post->Some_0, post_num->Some_0),
        ),
{
    let t = match thread {
        Some(t) => t,
        None => {
            return Err(RelayError::Internal(number_message("created thread not found for old#", old_num, "")));
        },
    };
    let (p, n) = match created_post(post, post_num, old_num) {
        Ok(x) => x,
        Err(e) => {
            return Err(e);
        },
    };
    Ok((t, p, n))
}

/// The post a created reply's transaction produced and its number; refused,
/// naming the dump's post `old_num`, when one is missing.
pub fn created_post(post: Option<Address>, post_num: Option<u64>, old_num: u64) -> (r: Result<(Address, u64), RelayError>)
    ensures
        post is None ==> (r matches Err(RelayError::Internal(m)) && m@ == number_text(
            "created post not found for old#"@,
            old_num as nat,
            ""@,
        )),
        post is Some && post_num is None ==> (r matches Err(RelayError::Internal(m)) && m@ == number_text(
            "created post number not found for old#"@,
            old_num as nat,
            ""@,
        )),
        post is Some && post_num is Some ==> r == Ok::<(Address, u64), RelayError>(
            (post->Some_0, post_num->Some_0),
        ),
{
    match (post, post_num) {
        (Some(p), Some(n)) => Ok((p, n)),
        (None, _) => Err(RelayError::Internal(number_message("created post not found for old#", old_num, ""))),
        (Some(_), None) => Err(
            RelayError::Internal(number_message("created post number not found for old#", old_num, "")),
        ),
    }
}

} // verus!
