use vstd::prelude::*;

use crate::codec::{address_text, address_to_string};
use crate::event::{event_tag_bounds, split_event};
use crate::intent::{obj_at, object_indexes, spec_obj_at, spec_object_indexes, Address, IntentV2};
use crate::text::{push_text, str_eq};
use vstd::utf8::{decode_utf8, valid_utf8};

verus! {

/// What the caches must drop after a batch of intents was executed: either
/// everything, or generation counters to bump, keys and key patterns to
/// delete in the shared cache, and key prefixes that every relay drops from
/// its local cache.
#[derive(Debug, Clone)]
pub struct InvalidationPlan {
    pub flush: bool,
    pub gens: Vec<String>,
    pub dels: Vec<String>,
    pub patterns: Vec<String>,
    pub scopes: Vec<String>,
}

/// The texts of a list of strings.
pub open spec fn texts(v: Seq<String>) -> Seq<Seq<char>> {
    v.map_values(|s: String| s@)
}

/// The same lists, as texts.
pub struct PlanView {
    pub flush: bool,
    pub gens: Seq<Seq<char>>,
    pub dels: Seq<Seq<char>>,
    pub patterns: Seq<Seq<char>>,
    pub scopes: Seq<Seq<char>>,
}

pub open spec fn plan_view(p: InvalidationPlan) -> PlanView {
    PlanView {
        flush: p.flush,
        gens: texts(p.gens@),
        dels: texts(p.dels@),
        patterns: texts(p.patterns@),
        scopes: texts(p.scopes@),
    }
}

/// The tag of an encoded event, when the event splits and its tag is UTF-8.
pub open spec fn event_tag(payload: Seq<u8>) -> Option<Seq<char>> {
    match event_tag_bounds(payload) {
        Some((a, b)) => if valid_utf8(payload.subrange(a, b)) {
            Some(decode_utf8(payload.subrange(a, b)))
        } else {
            None
        },
        None => None,
    }
}

/// `v:{kind}:{address}`.
pub open spec fn scope_key(kind: Seq<char>, a: Address) -> Seq<char> {
    "v:"@ + kind + ":"@ + address_text(a@)
}

/// `v:{kind}:{address}:*`: every key under a scope.
pub open spec fn scope_pattern(kind: Seq<char>, a: Address) -> Seq<char> {
    scope_key(kind, a) + ":*"@
}

/// `gen:{kind}:{address}`: the generation counter of a listing.
pub open spec fn gen_key(kind: Seq<char>, a: Address) -> Seq<char> {
    "gen:"@ + kind + ":"@ + address_text(a@)
}

/// `v:reactions:{post}:{sender}`: a sender's reactions to a post.
pub open spec fn reactions_key(p: Address, sender: Address) -> Seq<char> {
    scope_key("reactions"@, p) + ":"@ + address_text(sender@)
}

/// Events after which everything cached may be stale.
pub open spec fn flushes(tag: Seq<char>) -> bool {
    ||| tag == "set_closed"@
    ||| tag == "set_admin"@
    ||| tag == "add_moderator"@
    ||| tag == "del_moderator"@
    ||| tag == "set_deleted"@
    ||| tag == "upgrade"@
    ||| tag == "new_board"@
    ||| tag == "set_description"@
    ||| tag == "set_pinned"@
    ||| tag == "set_max_media"@
    ||| tag == "set_bump_limit"@
    ||| tag == "set_ignore_forum_bans"@
    ||| tag == "set_reactions"@
    ||| tag == "set_timestamp_precision"@
}

/// Events that create a thread or a post.
pub open spec fn creates(tag: Seq<char>) -> bool {
    tag == "new_post_v2"@ || tag == "new_post_migrate_v2"@ || tag == "new_thread_v2"@ || tag
        == "new_thread_migrate_v2"@
}

/// Events that react or vote on a post.
pub open spec fn reacts(tag: Seq<char>) -> bool {
    tag == "set_reaction_v2"@ || tag == "vote_v2"@
}

/// Events that change a post as shown.
pub open spec fn edits_post(tag: Seq<char>) -> bool {
    tag == "post_set_text"@ || tag == "post_set_deleted"@ || tag == "ban_media"@ || tag
        == "unban_media"@
}

/// The level whose ban list a ban through entry point `f` changes.
pub open spec fn ban_level(
    f: Seq<char>,
    forum: Option<Address>,
    board: Option<Address>,
    thread: Option<Address>,
) -> Option<Address> {
    if f == "forum_apply_post_intent_uid"@ {
        forum
    } else if f == "board_apply_post_intent_uid"@ {
        board
    } else if f == "thread_apply_post_intent_uid"@ {
        thread
    } else {
        None
    }
}

/// The plan after one more executed intent.
pub open spec fn plan_step(p: PlanView, i: IntentV2) -> PlanView {
    match event_tag(i.payload@) {
        None => p,
        Some(tag) => {
            let (fi, bi, ti, pi) = spec_object_indexes(i.function@);
            let forum = spec_obj_at(i.objects@, fi);
            let board = spec_obj_at(i.objects@, bi);
            let thread = spec_obj_at(i.objects@, ti);
            let post = spec_obj_at(i.objects@, pi);
            if creates(tag) {
                PlanView {
                    dels: p.dels.push("v:forum"@),
                    scopes: p.scopes.push("v:forum"@),
                    ..p
                }
            } else if reacts(tag) {
                match (board, thread, post) {
                    (Some(b), Some(t), Some(q)) => PlanView {
                        gens: p.gens.push(gen_key("thread"@, t)).push(gen_key("board"@, b)),
                        dels: p.dels.push(scope_key("post"@, q)).push(
                            reactions_key(q, i.public_key),
                        ),
                        scopes: p.scopes.push(scope_key("post"@, q)).push(
                            reactions_key(q, i.public_key),
                        ),
                        ..p
                    },
                    _ => p,
                }
            } else if tag == "set_topic"@ {
                let p1 = match thread {
                    Some(t) => PlanView {
                        patterns: p.patterns.push(scope_pattern("thread"@, t)),
                        scopes: p.scopes.push(scope_key("thread"@, t)),
                        ..p
                    },
                    None => p,
                };
                match board {
                    Some(b) => PlanView {
                        patterns: p1.patterns.push(scope_pattern("board"@, b)),
                        scopes: p1.scopes.push(scope_key("board"@, b)),
                        ..p1
                    },
                    None => p1,
                }
            } else if edits_post(tag) {
                match (board, thread, post) {
                    (Some(b), Some(t), Some(q)) => PlanView {
                        dels: p.dels.push(scope_key("post"@, q)),
                        patterns: p.patterns.push(scope_pattern("thread"@, t)).push(
                            scope_pattern("board"@, b),
                        ),
                        scopes: p.scopes.push(scope_key("post"@, q)).push(
                            scope_key("thread"@, t),
                        ).push(scope_key("board"@, b)),
                        ..p
                    },
                    _ => p,
                }
            } else if tag == "ban"@ || tag == "unban"@ {
                match ban_level(i.function@, forum, board, thread) {
                    Some(l) => PlanView {
                        patterns: p.patterns.push(scope_pattern("bans"@, l)),
                        scopes: p.scopes.push(scope_key("bans"@, l)),
                        ..p
                    },
                    None => p,
                }
            } else if flushes(tag) {
                PlanView { flush: true, ..p }
            } else {
                p
            }
        },
    }
}

/// The plan of a batch of intents, taken in order.
pub open spec fn spec_plan(intents: Seq<IntentV2>) -> PlanView
    decreases intents.len(),
{
    if intents.len() == 0 {
        PlanView {
            flush: false,
            gens: Seq::empty(),
            dels: Seq::empty(),
            patterns: Seq::empty(),
            scopes: Seq::empty(),
        }
    } else {
        plan_step(spec_plan(intents.drop_last()), intents.last())
    }
}

fn push_key(v: &mut Vec<String>, s: String)
    ensures
        texts(final(v)@) == texts(old(v)@).push(s@),
{
    v.push(s);
    assert(texts(final(v)@) =~= texts(old(v)@).push(s@));
}

fn make_scope_key(kind: &str, a: &Address) -> (r: String)
    ensures
        r@ == scope_key(kind@, *a),
{
    let mut s = "v:".to_string();
    push_text(&mut s, kind);
    push_text(&mut s, ":");
    let t = address_to_string(a);
    push_text(&mut s, t.as_str());
    s
}

fn make_scope_pattern(kind: &str, a: &Address) -> (r: String)
    ensures
        r@ == scope_pattern(kind@, *a),
{
    let mut s = make_scope_key(kind, a);
    push_text(&mut s, ":*");
    s
}

fn make_gen_key(kind: &str, a: &Address) -> (r: String)
    ensures
        r@ == gen_key(kind@, *a),
{
    let mut s = "gen:".to_string();
    push_text(&mut s, kind);
    push_text(&mut s, ":");
    let t = address_to_string(a);
    push_text(&mut s, t.as_str());
    s
}

fn make_reactions_key(p: &Address, sender: &Address) -> (r: String)
    ensures
        r@ == reactions_key(*p, *sender),
{
    let mut s = make_scope_key("reactions", p);
    push_text(&mut s, ":");
    let t = address_to_string(sender);
    push_text(&mut s, t.as_str());
    s
}

fn flush_event(tag: &str) -> (r: bool)
    ensures
        r == flushes(tag@),
{
    str_eq(tag, "set_closed") || str_eq(tag, "set_admin") || str_eq(tag, "add_moderator")
        || str_eq(tag, "del_moderator") || str_eq(tag, "set_deleted") || str_eq(tag, "upgrade")
        || str_eq(tag, "new_board") || str_eq(tag, "set_description") || str_eq(tag, "set_pinned")
        || str_eq(tag, "set_max_media") || str_eq(tag, "set_bump_limit") || str_eq(
        tag,
        "set_ignore_forum_bans",
    ) || str_eq(tag, "set_reactions") || str_eq(tag, "set_timestamp_precision")
}

fn level_of(
    f: &str,
    forum: Option<Address>,
    board: Option<Address>,
    thread: Option<Address>,
) -> (r: Option<Address>)
    ensures
        r == ban_level(f@, forum, board, thread),
{
    if str_eq(f, "forum_apply_post_intent_uid") {
        forum
    } else if str_eq(f, "board_apply_post_intent_uid") {
        board
    } else if str_eq(f, "thread_apply_post_intent_uid") {
        thread
    } else {
        None
    }
}

fn apply_step(plan: &mut InvalidationPlan, intent: &IntentV2)
    ensures
        plan_view(*final(plan)) == plan_step(plan_view(*old(plan)), *intent),
{
    let tag = match split_event(intent.payload.as_slice()) {
        Ok((tag, _)) => tag,
        Err(_) => {
            return;
        },
    };
    let tag = tag.as_str();
    let (fi, bi, ti, pi) = object_indexes(intent.function.as_str());
    let forum = obj_at(intent.objects.as_slice(), fi);
    let board = obj_at(intent.objects.as_slice(), bi);
    let thread = obj_at(intent.objects.as_slice(), ti);
    let post = obj_at(intent.objects.as_slice(), pi);
    if str_eq(tag, "new_post_v2") || str_eq(tag, "new_post_migrate_v2") || str_eq(
        tag,
        "new_thread_v2",
    ) || str_eq(tag, "new_thread_migrate_v2") {
        push_key(&mut plan.dels, "v:forum".to_string());
        push_key(&mut plan.scopes, "v:forum".to_string());
    } else if str_eq(tag, "set_reaction_v2") || str_eq(tag, "vote_v2") {
        if let (Some(b), Some(t), Some(q)) = (board, thread, post) {
            push_key(&mut plan.gens, make_gen_key("thread", &t));
            push_key(&mut plan.gens, make_gen_key("board", &b));
            push_key(&mut plan.dels, make_scope_key("post", &q));
            push_key(&mut plan.dels, make_reactions_key(&q, &intent.public_key));
            push_key(&mut plan.scopes, make_scope_key("post", &q));
            push_key(&mut plan.scopes, make_reactions_key(&q, &intent.public_key));
        }
    } else if str_eq(tag, "set_topic") {
        if let Some(t) = thread {
            push_key(&mut plan.patterns, make_scope_pattern("thread", &t));
            push_key(&mut plan.scopes, make_scope_key("thread", &t));
        }
        if let Some(b) = board {
            push_key(&mut plan.patterns, make_scope_pattern("board", &b));
            push_key(&mut plan.scopes, make_scope_key("board", &b));
        }
    } else if str_eq(tag, "post_set_text") || str_eq(tag, "post_set_deleted") || str_eq(
        tag,
        "ban_media",
    ) || str_eq(tag, "unban_media") {
        if let (Some(b), Some(t), Some(q)) = (board, thread, post) {
            push_key(&mut plan.dels, make_scope_key("post", &q));
            push_key(&mut plan.patterns, make_scope_pattern("thread", &t));
            push_key(&mut plan.patterns, make_scope_pattern("board", &b));
            push_key(&mut plan.scopes, make_scope_key("post", &q));
            push_key(&mut plan.scopes, make_scope_key("thread", &t));
            push_key(&mut plan.scopes, make_scope_key("board", &b));
        }
    } else if str_eq(tag, "ban") || str_eq(tag, "unban") {
        if let Some(l) = level_of(intent.function.as_str(), forum, board, thread) {
            push_key(&mut plan.patterns, make_scope_pattern("bans", &l));
            push_key(&mut plan.scopes, make_scope_key("bans", &l));
        }
    } else if flush_event(tag) {
        plan.flush = true;
    }
}

/// What the caches must drop after the given intents were executed, in the
/// order of the intents.
pub fn invalidation_plan(intents: &[IntentV2]) -> (r: InvalidationPlan)
    ensures
        plan_view(r) == spec_plan(intents@),
{
    let mut plan = InvalidationPlan {
        flush: false,
        gens: Vec::new(),
        dels: Vec::new(),
        patterns: Vec::new(),
        scopes: Vec::new(),
    };
    assert(texts(plan.gens@) =~= Seq::<Seq<char>>::empty());
    assert(texts(plan.dels@) =~= Seq::<Seq<char>>::empty());
    assert(texts(plan.patterns@) =~= Seq::<Seq<char>>::empty());
    assert(texts(plan.scopes@) =~= Seq::<Seq<char>>::empty());
    assert(plan_view(plan) == spec_plan(intents@.take(0)));
    let mut i: usize = 0;
    while i < intents.len()
        invariant
            i <= intents@.len(),
            plan_view(plan) == spec_plan(intents@.take(i as int)),
        decreases intents.len() - i,
    {
        apply_step(&mut plan, &intents[i]);
        assert(intents@.take(i + 1).drop_last() =~= intents@.take(i as int));
        i = i + 1;
    }
    assert(intents@.take(i as int) =~= intents@);
    plan
}

/// Every key deleted from the shared cache is also a scope dropped from the
/// local caches, and every deleted pattern is a dropped scope followed by
/// `:*`.
pub open spec fn scopes_cover(p: PlanView) -> bool {
    &&& forall|i: int| 0 <= i < p.dels.len() ==> p.scopes.contains(#[trigger] p.dels[i])
    &&& forall|i: int| 0 <= i < p.patterns.len() ==> pattern_of(#[trigger] p.patterns[i], p.scopes)
}

/// Whether a pattern is one of the scopes followed by `:*`.
pub open spec fn pattern_of(pat: Seq<char>, scopes: Seq<Seq<char>>) -> bool {
    exists|j: int| 0 <= j < scopes.len() && pat == #[trigger] scopes[j] + ":*"@
}

proof fn lemma_step_covers(p: PlanView, intent: IntentV2)
    requires
        scopes_cover(p),
    ensures
        scopes_cover(plan_step(p, intent)),
{
    let q = plan_step(p, intent);
    assert forall|i: int| 0 <= i < q.dels.len() implies q.scopes.contains(#[trigger] q.dels[i]) by {
        if i < p.dels.len() {
            let j = choose|j: int| 0 <= j < p.scopes.len() && p.scopes[j] == p.dels[i];
            assert(q.scopes[j] == p.scopes[j]);
        } else {
            let k = i - p.dels.len();
            if q.dels.len() == p.dels.len() + 1 {
                assert(q.scopes[p.scopes.len() as int] == q.dels[i]);
            } else {
                assert(q.scopes[p.scopes.len() + k] == q.dels[i]);
            }
        }
    }
    let off = (q.scopes.len() - p.scopes.len()) - (q.patterns.len() - p.patterns.len());
    assert forall|i: int| 0 <= i < q.patterns.len() implies pattern_of(#[trigger] q.patterns[i], q.scopes) by {
        if i < p.patterns.len() {
            let j = choose|j: int| 0 <= j < p.scopes.len() && p.patterns[i] == p.scopes[j] + ":*"@;
            assert(q.scopes.len() >= p.scopes.len());
            assert(q.scopes[j] == p.scopes[j]);
            assert(q.patterns[i] == p.patterns[i]);
            assert(q.patterns[i] == q.scopes[j] + ":*"@);
        } else {
            let j = p.scopes.len() + off + (i - p.patterns.len());
            match event_tag(intent.payload@) {
                None => {},
                Some(tag) => {
                    if creates(tag) || reacts(tag) {
                    } else if tag == "set_topic"@ {
                        assert(q.patterns[i] == q.scopes[j] + ":*"@);
                    } else if edits_post(tag) {
                        assert(q.patterns[i] == q.scopes[j] + ":*"@);
                    } else if tag == "ban"@ || tag == "unban"@ {
                        assert(q.patterns[i] == q.scopes[j] + ":*"@);
                    }
                },
            }
        }
    }
}

/// Whatever a batch of intents deletes from the shared cache, every relay
/// also drops from its local cache: each deleted key is a dropped scope and
/// each deleted pattern covers exactly a dropped scope.
pub proof fn lemma_plan_scopes_cover(intents: Seq<IntentV2>)
    ensures
        scopes_cover(spec_plan(intents)),
    decreases intents.len(),
{
    if intents.len() > 0 {
        lemma_plan_scopes_cover(intents.drop_last());
        lemma_step_covers(spec_plan(intents.drop_last()), intents.last());
    }
}

/// Whether `a` is a prefix of `b`.
pub open spec fn prefix_of(a: Seq<Seq<char>>, b: Seq<Seq<char>>) -> bool {
    a.len() <= b.len() && b.subrange(0, a.len() as int) == a
}

proof fn lemma_prefix_push(a: Seq<Seq<char>>, x: Seq<char>)
    ensures
        prefix_of(a, a.push(x)),
{
    assert(a.push(x).subrange(0, a.len() as int) =~= a);
}

proof fn lemma_prefix_trans(a: Seq<Seq<char>>, b: Seq<Seq<char>>, c: Seq<Seq<char>>)
    requires
        prefix_of(a, b),
        prefix_of(b, c),
    ensures
        prefix_of(a, c),
{
    assert(c.subrange(0, a.len() as int) =~= c.subrange(0, b.len() as int).subrange(0, a.len() as int));
}

proof fn lemma_prefix_refl(a: Seq<Seq<char>>)
    ensures
        prefix_of(a, a),
{
    assert(a.subrange(0, a.len() as int) =~= a);
}

/// One more intent only adds to what the plan deletes and drops.
proof fn lemma_step_grows(p: PlanView, i: IntentV2)
    ensures
        p.flush ==> plan_step(p, i).flush,
        prefix_of(p.gens, plan_step(p, i).gens),
        prefix_of(p.dels, plan_step(p, i).dels),
        prefix_of(p.patterns, plan_step(p, i).patterns),
        prefix_of(p.scopes, plan_step(p, i).scopes),
{
    lemma_prefix_refl(p.gens);
    lemma_prefix_refl(p.dels);
    lemma_prefix_refl(p.patterns);
    lemma_prefix_refl(p.scopes);
    assert forall|a: Seq<Seq<char>>, x: Seq<char>| prefix_of(a, #[trigger] a.push(x)) by {
        lemma_prefix_push(a, x);
    }
    assert forall|a: Seq<Seq<char>>, x: Seq<char>, y: Seq<char>| prefix_of(a, #[trigger] a.push(x).push(y)) by {
        lemma_prefix_push(a, x);
        lemma_prefix_push(a.push(x), y);
        lemma_prefix_trans(a, a.push(x), a.push(x).push(y));
    }
    assert forall|a: Seq<Seq<char>>, x: Seq<char>, y: Seq<char>, z: Seq<char>| prefix_of(
        a,
        #[trigger] a.push(x).push(y).push(z),
    ) by {
        lemma_prefix_push(a, x);
        lemma_prefix_push(a.push(x), y);
        lemma_prefix_push(a.push(x).push(y), z);
        lemma_prefix_trans(a, a.push(x), a.push(x).push(y));
        lemma_prefix_trans(a, a.push(x).push(y), a.push(x).push(y).push(z));
    }
}

/// The plan of the first intents of a batch is where the batch's plan
/// starts: its lists begin with theirs.
proof fn lemma_plan_prefix(intents: Seq<IntentV2>, j: int)
    requires
        0 <= j <= intents.len(),
    ensures
        prefix_of(spec_plan(intents.take(j)).dels, spec_plan(intents).dels),
        prefix_of(spec_plan(intents.take(j)).patterns, spec_plan(intents).patterns),
        prefix_of(spec_plan(intents.take(j)).scopes, spec_plan(intents).scopes),
        prefix_of(spec_plan(intents.take(j)).gens, spec_plan(intents).gens),
        spec_plan(intents.take(j)).flush ==> spec_plan(intents).flush,
    decreases intents.len() - j,
{
    if j == intents.len() {
        assert(intents.take(j) =~= intents);
        lemma_prefix_refl(spec_plan(intents).dels);
        lemma_prefix_refl(spec_plan(intents).patterns);
        lemma_prefix_refl(spec_plan(intents).scopes);
        lemma_prefix_refl(spec_plan(intents).gens);
    } else {
        lemma_plan_prefix(intents, j + 1);
        let a = spec_plan(intents.take(j));
        assert(intents.take(j + 1).drop_last() =~= intents.take(j));
        let b = spec_plan(intents.take(j + 1));
        assert(b == plan_step(a, intents[j]));
        lemma_step_grows(a, intents[j]);
        let c = spec_plan(intents);
        lemma_prefix_trans(a.dels, b.dels, c.dels);
        lemma_prefix_trans(a.patterns, b.patterns, c.patterns);
        lemma_prefix_trans(a.scopes, b.scopes, c.scopes);
        lemma_prefix_trans(a.gens, b.gens, c.gens);
    }
}

proof fn lemma_prefix_contains(a: Seq<Seq<char>>, b: Seq<Seq<char>>, x: Seq<char>)
    requires
        prefix_of(a, b),
        a.contains(x),
    ensures
        b.contains(x),
{
    let k = choose|k: int| 0 <= k < a.len() && a[k] == x;
    assert(b.subrange(0, a.len() as int)[k] == b[k]);
}

/// Law: after a batch in which an intent edits a post (its text, its
/// deletion, or the ban of one of its media) and names its board, thread and
/// post, the shared cache deletes the post's view `v:post:{post}`, every
/// relay drops it and the thread's and board's views, and the keys under
/// the thread and the board are deleted.
pub proof fn lemma_edited_post_dropped(intents: Seq<IntentV2>, k: int)
    requires
        0 <= k < intents.len(),
        event_tag(intents[k].payload@) matches Some(tag) && (tag == "post_set_text"@ || tag
            == "post_set_deleted"@ || tag == "ban_media"@ || tag == "unban_media"@),
        spec_obj_at(intents[k].objects@, spec_object_indexes(intents[k].function@).1) is Some,
        spec_obj_at(intents[k].objects@, spec_object_indexes(intents[k].function@).2) is Some,
        spec_obj_at(intents[k].objects@, spec_object_indexes(intents[k].function@).3) is Some,
    ensures
        ({
            let i = intents[k];
            let (_, bi, ti, pi) = spec_object_indexes(i.function@);
            let b = spec_obj_at(i.objects@, bi)->Some_0;
            let t = spec_obj_at(i.objects@, ti)->Some_0;
            let q = spec_obj_at(i.objects@, pi)->Some_0;
            let plan = spec_plan(intents);
            &&& plan.dels.contains("v:post:"@ + address_text(q@))
            &&& plan.scopes.contains("v:post:"@ + address_text(q@))
            &&& plan.scopes.contains("v:thread:"@ + address_text(t@))
            &&& plan.scopes.contains("v:board:"@ + address_text(b@))
            &&& plan.patterns.contains("v:thread:"@ + address_text(t@) + ":*"@)
            &&& plan.patterns.contains("v:board:"@ + address_text(b@) + ":*"@)
        }),
{
    let i = intents[k];
    let tag = event_tag(i.payload@)->Some_0;
    let (_, bi, ti, pi) = spec_object_indexes(i.function@);
    let b = spec_obj_at(i.objects@, bi)->Some_0;
    let t = spec_obj_at(i.objects@, ti)->Some_0;
    let q = spec_obj_at(i.objects@, pi)->Some_0;
    reveal_strlit("post_set_text");
    reveal_strlit("post_set_deleted");
    reveal_strlit("ban_media");
    reveal_strlit("unban_media");
    reveal_strlit("new_post_v2");
    reveal_strlit("new_post_migrate_v2");
    reveal_strlit("new_thread_v2");
    reveal_strlit("new_thread_migrate_v2");
    reveal_strlit("set_reaction_v2");
    reveal_strlit("vote_v2");
    reveal_strlit("set_topic");
    reveal_strlit("v:");
    reveal_strlit(":");
    reveal_strlit(":*");
    reveal_strlit("post");
    reveal_strlit("thread");
    reveal_strlit("board");
    reveal_strlit("v:post:");
    reveal_strlit("v:thread:");
    reveal_strlit("v:board:");
    assert(tag.len() > 0 && (tag[0] == 'p' || tag[0] == 'b' || tag[0] == 'u'));
    assert("new_post_v2"@[0] == 'n' && "new_post_migrate_v2"@[0] == 'n');
    assert("new_thread_v2"@[0] == 'n' && "new_thread_migrate_v2"@[0] == 'n');
    assert("set_reaction_v2"@[0] == 's' && "vote_v2"@[0] == 'v');
    assert(!creates(tag));
    assert(!reacts(tag));
    assert(tag != "set_topic"@);
    assert(edits_post(tag));
    let kq = "v:post:"@ + address_text(q@);
    let kt = "v:thread:"@ + address_text(t@);
    let kb = "v:board:"@ + address_text(b@);
    assert(scope_key("post"@, q) =~= kq);
    assert(scope_key("thread"@, t) =~= kt);
    assert(scope_key("board"@, b) =~= kb);
    assert(scope_pattern("thread"@, t) =~= kt + ":*"@);
    assert(scope_pattern("board"@, b) =~= kb + ":*"@);
    let before = spec_plan(intents.take(k));
    assert(intents.take(k + 1).drop_last() =~= intents.take(k));
    let after = spec_plan(intents.take(k + 1));
    assert(after == plan_step(before, i));
    assert(after.dels == before.dels.push(kq));
    assert(after.dels[after.dels.len() - 1] == kq);
    let sc = after.scopes;
    assert(sc == before.scopes.push(kq).push(kt).push(kb));
    assert(sc[sc.len() - 3] == kq);
    assert(sc[sc.len() - 2] == kt);
    assert(sc[sc.len() - 1] == kb);
    let pt = after.patterns;
    assert(pt[pt.len() - 2] == kt + ":*"@);
    assert(pt[pt.len() - 1] == kb + ":*"@);
    lemma_plan_prefix(intents, k + 1);
    let plan = spec_plan(intents);
    lemma_prefix_contains(after.dels, plan.dels, kq);
    lemma_prefix_contains(sc, plan.scopes, kq);
    lemma_prefix_contains(sc, plan.scopes, kt);
    lemma_prefix_contains(sc, plan.scopes, kb);
    lemma_prefix_contains(pt, plan.patterns, kt + ":*"@);
    lemma_prefix_contains(pt, plan.patterns, kb + ":*"@);
}

proof fn lemma_reacting_tag(tag: Seq<char>)
    requires
        tag == "set_reaction_v2"@ || tag == "vote_v2"@,
    ensures
        !creates(tag),
        reacts(tag),
{
    reveal_strlit("new_post_migrate_v2");
    reveal_strlit("new_post_v2");
    reveal_strlit("new_thread_migrate_v2");
    reveal_strlit("new_thread_v2");
    reveal_strlit("set_reaction_v2");
    reveal_strlit("vote_v2");
    assert("set_reaction_v2"@[0] != "new_post_v2"@[0]);
    assert("set_reaction_v2"@[0] != "new_post_migrate_v2"@[0]);
    assert("set_reaction_v2"@[0] != "new_thread_v2"@[0]);
    assert("set_reaction_v2"@[0] != "new_thread_migrate_v2"@[0]);
    assert("vote_v2"@[0] != "new_post_v2"@[0]);
    assert("vote_v2"@[0] != "new_post_migrate_v2"@[0]);
    assert("vote_v2"@[0] != "new_thread_v2"@[0]);
    assert("vote_v2"@[0] != "new_thread_migrate_v2"@[0]);
}

proof fn lemma_flushing_tag(tag: Seq<char>)
    requires
        tag == "set_closed"@ || tag == "set_admin"@ || tag == "add_moderator"@ || tag == "del_moderator"@ || tag == "set_deleted"@ || tag == "upgrade"@ || tag == "new_board"@ || tag == "set_description"@ || tag == "set_pinned"@ || tag == "set_max_media"@ || tag == "set_bump_limit"@ || tag == "set_ignore_forum_bans"@ || tag == "set_reactions"@ || tag == "set_timestamp_precision"@,
    ensures
        !creates(tag),
        !reacts(tag),
        tag != "set_topic"@,
        !edits_post(tag),
        tag != "ban"@,
        tag != "unban"@,
        flushes(tag),
{
    reveal_strlit("add_moderator");
    reveal_strlit("ban");
    reveal_strlit("ban_media");
    reveal_strlit("del_moderator");
    reveal_strlit("new_board");
    reveal_strlit("new_post_migrate_v2");
    reveal_strlit("new_post_v2");
    reveal_strlit("new_thread_migrate_v2");
    reveal_strlit("new_thread_v2");
    reveal_strlit("post_set_deleted");
    reveal_strlit("post_set_text");
    reveal_strlit("set_admin");
    reveal_strlit("set_bump_limit");
    reveal_strlit("set_closed");
    reveal_strlit("set_deleted");
    reveal_strlit("set_description");
    reveal_strlit("set_ignore_forum_bans");
    reveal_strlit("set_max_media");
    reveal_strlit("set_pinned");
    reveal_strlit("set_reaction_v2");
    reveal_strlit("set_reactions");
    reveal_strlit("set_timestamp_precision");
    reveal_strlit("set_topic");
    reveal_strlit("unban");
    reveal_strlit("unban_media");
    reveal_strlit("upgrade");
    reveal_strlit("vote_v2");
    assert("set_closed"@[0] != "new_post_v2"@[0]);
    assert("set_closed"@[0] != "new_post_migrate_v2"@[0]);
    assert("set_closed"@[0] != "new_thread_v2"@[0]);
    assert("set_closed"@[0] != "new_thread_migrate_v2"@[0]);
    assert("set_closed"@[4] != "set_reaction_v2"@[4]);
    assert("set_closed"@[0] != "vote_v2"@[0]);
    assert("set_closed"@[4] != "set_topic"@[4]);
    assert("set_closed"@[0] != "post_set_text"@[0]);
    assert("set_closed"@[0] != "post_set_deleted"@[0]);
    assert("set_closed"@[0] != "ban_media"@[0]);
    assert("set_closed"@[0] != "unban_media"@[0]);
    assert("set_closed"@[0] != "ban"@[0]);
    assert("set_closed"@[0] != "unban"@[0]);
    assert("set_admin"@[0] != "new_post_v2"@[0]);
    assert("set_admin"@[0] != "new_post_migrate_v2"@[0]);
    assert("set_admin"@[0] != "new_thread_v2"@[0]);
    assert("set_admin"@[0] != "new_thread_migrate_v2"@[0]);
    assert("set_admin"@[4] != "set_reaction_v2"@[4]);
    assert("set_admin"@[0] != "vote_v2"@[0]);
    assert("set_admin"@[4] != "set_topic"@[4]);
    assert("set_admin"@[0] != "post_set_text"@[0]);
    assert("set_admin"@[0] != "post_set_deleted"@[0]);
    assert("set_admin"@[0] != "ban_media"@[0]);
    assert("set_admin"@[0] != "unban_media"@[0]);
    assert("set_admin"@[0] != "ban"@[0]);
    assert("set_admin"@[0] != "unban"@[0]);
    assert("add_moderator"@[0] != "new_post_v2"@[0]);
    assert("add_moderator"@[0] != "new_post_migrate_v2"@[0]);
    assert("add_moderator"@[0] != "new_thread_v2"@[0]);
    assert("add_moderator"@[0] != "new_thread_migrate_v2"@[0]);
    assert("add_moderator"@[0] != "set_reaction_v2"@[0]);
    assert("add_moderator"@[0] != "vote_v2"@[0]);
    assert("add_moderator"@[0] != "set_topic"@[0]);
    assert("add_moderator"@[0] != "post_set_text"@[0]);
    assert("add_moderator"@[0] != "post_set_deleted"@[0]);
    assert("add_moderator"@[0] != "ban_media"@[0]);
    assert("add_moderator"@[0] != "unban_media"@[0]);
    assert("add_moderator"@[0] != "ban"@[0]);
    assert("add_moderator"@[0] != "unban"@[0]);
    assert("del_moderator"@[0] != "new_post_v2"@[0]);
    assert("del_moderator"@[0] != "new_post_migrate_v2"@[0]);
    assert("del_moderator"@[0] != "new_thread_v2"@[0]);
    assert("del_moderator"@[0] != "new_thread_migrate_v2"@[0]);
    assert("del_moderator"@[0] != "set_reaction_v2"@[0]);
    assert("del_moderator"@[0] != "vote_v2"@[0]);
    assert("del_moderator"@[0] != "set_topic"@[0]);
    assert("del_moderator"@[0] != "post_set_text"@[0]);
    assert("del_moderator"@[0] != "post_set_deleted"@[0]);
    assert("del_moderator"@[0] != "ban_media"@[0]);
    assert("del_moderator"@[0] != "unban_media"@[0]);
    assert("del_moderator"@[0] != "ban"@[0]);
    assert("del_moderator"@[0] != "unban"@[0]);
    assert("set_deleted"@[0] != "new_post_v2"@[0]);
    assert("set_deleted"@[0] != "new_post_migrate_v2"@[0]);
    assert("set_deleted"@[0] != "new_thread_v2"@[0]);
    assert("set_deleted"@[0] != "new_thread_migrate_v2"@[0]);
    assert("set_deleted"@[4] != "set_reaction_v2"@[4]);
    assert("set_deleted"@[0] != "vote_v2"@[0]);
    assert("set_deleted"@[4] != "set_topic"@[4]);
    assert("set_deleted"@[0] != "post_set_text"@[0]);
    assert("set_deleted"@[0] != "post_set_deleted"@[0]);
    assert("set_deleted"@[0] != "ban_media"@[0]);
    assert("set_deleted"@[0] != "unban_media"@[0]);
    assert("set_deleted"@[0] != "ban"@[0]);
    assert("set_deleted"@[0] != "unban"@[0]);
    assert("upgrade"@[0] != "new_post_v2"@[0]);
    assert("upgrade"@[0] != "new_post_migrate_v2"@[0]);
    assert("upgrade"@[0] != "new_thread_v2"@[0]);
    assert("upgrade"@[0] != "new_thread_migrate_v2"@[0]);
    assert("upgrade"@[0] != "set_reaction_v2"@[0]);
    assert("upgrade"@[0] != "vote_v2"@[0]);
    assert("upgrade"@[0] != "set_topic"@[0]);
    assert("upgrade"@[0] != "post_set_text"@[0]);
    assert("upgrade"@[0] != "post_set_deleted"@[0]);
    assert("upgrade"@[0] != "ban_media"@[0]);
    assert("upgrade"@[1] != "unban_media"@[1]);
    assert("upgrade"@[0] != "ban"@[0]);
    assert("upgrade"@[1] != "unban"@[1]);
    assert("new_board"@[4] != "new_post_v2"@[4]);
    assert("new_board"@[4] != "new_post_migrate_v2"@[4]);
    assert("new_board"@[4] != "new_thread_v2"@[4]);
    assert("new_board"@[4] != "new_thread_migrate_v2"@[4]);
    assert("new_board"@[0] != "set_reaction_v2"@[0]);
    assert("new_board"@[0] != "vote_v2"@[0]);
    assert("new_board"@[0] != "set_topic"@[0]);
    assert("new_board"@[0] != "post_set_text"@[0]);
    assert("new_board"@[0] != "post_set_deleted"@[0]);
    assert("new_board"@[0] != "ban_media"@[0]);
    assert("new_board"@[0] != "unban_media"@[0]);
    assert("new_board"@[0] != "ban"@[0]);
    assert("new_board"@[0] != "unban"@[0]);
    assert("set_description"@[0] != "new_post_v2"@[0]);
    assert("set_description"@[0] != "new_post_migrate_v2"@[0]);
    assert("set_description"@[0] != "new_thread_v2"@[0]);
    assert("set_description"@[0] != "new_thread_migrate_v2"@[0]);
    assert("set_description"@[4] != "set_reaction_v2"@[4]);
    assert("set_description"@[0] != "vote_v2"@[0]);
    assert("set_description"@[4] != "set_topic"@[4]);
    assert("set_description"@[0] != "post_set_text"@[0]);
    assert("set_description"@[0] != "post_set_deleted"@[0]);
    assert("set_description"@[0] != "ban_media"@[0]);
    assert("set_description"@[0] != "unban_media"@[0]);
    assert("set_description"@[0] != "ban"@[0]);
    assert("set_description"@[0] != "unban"@[0]);
    assert("set_pinned"@[0] != "new_post_v2"@[0]);
    assert("set_pinned"@[0] != "new_post_migrate_v2"@[0]);
    assert("set_pinned"@[0] != "new_thread_v2"@[0]);
    assert("set_pinned"@[0] != "new_thread_migrate_v2"@[0]);
    assert("set_pinned"@[4] != "set_reaction_v2"@[4]);
    assert("set_pinned"@[0] != "vote_v2"@[0]);
    assert("set_pinned"@[4] != "set_topic"@[4]);
    assert("set_pinned"@[0] != "post_set_text"@[0]);
    assert("set_pinned"@[0] != "post_set_deleted"@[0]);
    assert("set_pinned"@[0] != "ban_media"@[0]);
    assert("set_pinned"@[0] != "unban_media"@[0]);
    assert("set_pinned"@[0] != "ban"@[0]);
    assert("set_pinned"@[0] != "unban"@[0]);
    assert("set_max_media"@[0] != "new_post_v2"@[0]);
    assert("set_max_media"@[0] != "new_post_migrate_v2"@[0]);
    assert("set_max_media"@[0] != "new_thread_v2"@[0]);
    assert("set_max_media"@[0] != "new_thread_migrate_v2"@[0]);
    assert("set_max_media"@[4] != "set_reaction_v2"@[4]);
    assert("set_max_media"@[0] != "vote_v2"@[0]);
    assert("set_max_media"@[4] != "set_topic"@[4]);
    assert("set_max_media"@[0] != "post_set_text"@[0]);
    assert("set_max_media"@[0] != "post_set_deleted"@[0]);
    assert("set_max_media"@[0] != "ban_media"@[0]);
    assert("set_max_media"@[0] != "unban_media"@[0]);
    assert("set_max_media"@[0] != "ban"@[0]);
    assert("set_max_media"@[0] != "unban"@[0]);
    assert("set_bump_limit"@[0] != "new_post_v2"@[0]);
    assert("set_bump_limit"@[0] != "new_post_migrate_v2"@[0]);
    assert("set_bump_limit"@[0] != "new_thread_v2"@[0]);
    assert("set_bump_limit"@[0] != "new_thread_migrate_v2"@[0]);
    assert("set_bump_limit"@[4] != "set_reaction_v2"@[4]);
    assert("set_bump_limit"@[0] != "vote_v2"@[0]);
    assert("set_bump_limit"@[4] != "set_topic"@[4]);
    assert("set_bump_limit"@[0] != "post_set_text"@[0]);
    assert("set_bump_limit"@[0] != "post_set_deleted"@[0]);
    assert("set_bump_limit"@[0] != "ban_media"@[0]);
    assert("set_bump_limit"@[0] != "unban_media"@[0]);
    assert("set_bump_limit"@[0] != "ban"@[0]);
    assert("set_bump_limit"@[0] != "unban"@[0]);
    assert("set_ignore_forum_bans"@[0] != "new_post_v2"@[0]);
    assert("set_ignore_forum_bans"@[0] != "new_post_migrate_v2"@[0]);
    assert("set_ignore_forum_bans"@[0] != "new_thread_v2"@[0]);
    assert("set_ignore_forum_bans"@[0] != "new_thread_migrate_v2"@[0]);
    assert("set_ignore_forum_bans"@[4] != "set_reaction_v2"@[4]);
    assert("set_ignore_forum_bans"@[0] != "vote_v2"@[0]);
    assert("set_ignore_forum_bans"@[4] != "set_topic"@[4]);
    assert("set_ignore_forum_bans"@[0] != "post_set_text"@[0]);
    assert("set_ignore_forum_bans"@[0] != "post_set_deleted"@[0]);
    assert("set_ignore_forum_bans"@[0] != "ban_media"@[0]);
    assert("set_ignore_forum_bans"@[0] != "unban_media"@[0]);
    assert("set_ignore_forum_bans"@[0] != "ban"@[0]);
    assert("set_ignore_forum_bans"@[0] != "unban"@[0]);
    assert("set_reactions"@[0] != "new_post_v2"@[0]);
    assert("set_reactions"@[0] != "new_post_migrate_v2"@[0]);
    assert("set_reactions"@[0] != "new_thread_v2"@[0]);
    assert("set_reactions"@[0] != "new_thread_migrate_v2"@[0]);
    assert("set_reactions"@[12] != "set_reaction_v2"@[12]);
    assert("set_reactions"@[0] != "vote_v2"@[0]);
    assert("set_reactions"@[4] != "set_topic"@[4]);
    assert("set_reactions"@[0] != "post_set_text"@[0]);
    assert("set_reactions"@[0] != "post_set_deleted"@[0]);
    assert("set_reactions"@[0] != "ban_media"@[0]);
    assert("set_reactions"@[0] != "unban_media"@[0]);
    assert("set_reactions"@[0] != "ban"@[0]);
    assert("set_reactions"@[0] != "unban"@[0]);
    assert("set_timestamp_precision"@[0] != "new_post_v2"@[0]);
    assert("set_timestamp_precision"@[0] != "new_post_migrate_v2"@[0]);
    assert("set_timestamp_precision"@[0] != "new_thread_v2"@[0]);
    assert("set_timestamp_precision"@[0] != "new_thread_migrate_v2"@[0]);
    assert("set_timestamp_precision"@[4] != "set_reaction_v2"@[4]);
    assert("set_timestamp_precision"@[0] != "vote_v2"@[0]);
    assert("set_timestamp_precision"@[5] != "set_topic"@[5]);
    assert("set_timestamp_precision"@[0] != "post_set_text"@[0]);
    assert("set_timestamp_precision"@[0] != "post_set_deleted"@[0]);
    assert("set_timestamp_precision"@[0] != "ban_media"@[0]);
    assert("set_timestamp_precision"@[0] != "unban_media"@[0]);
    assert("set_timestamp_precision"@[0] != "ban"@[0]);
    assert("set_timestamp_precision"@[0] != "unban"@[0]);
}

/// The plan after intent `k` of a batch is where the batch's plan starts:
/// the batch's lists begin with its lists, and a flush stays.
proof fn lemma_step_in_plan(intents: Seq<IntentV2>, k: int)
    requires
        0 <= k < intents.len(),
    ensures
        ({
            let after = plan_step(spec_plan(intents.take(k)), intents[k]);
            let plan = spec_plan(intents);
            &&& prefix_of(after.dels, plan.dels)
            &&& prefix_of(after.scopes, plan.scopes)
            &&& prefix_of(after.patterns, plan.patterns)
            &&& prefix_of(after.gens, plan.gens)
            &&& after.flush ==> plan.flush
        }),
{
    assert(intents.take(k + 1).drop_last() =~= intents.take(k));
    lemma_plan_prefix(intents, k + 1);
}

/// Law: after a batch that creates a thread or a post, the forum's view
/// `v:forum` is deleted from the shared cache and dropped by every relay.
pub proof fn lemma_new_content_drops_forum(intents: Seq<IntentV2>, k: int)
    requires
        0 <= k < intents.len(),
        event_tag(intents[k].payload@) matches Some(tag) && (tag == "new_post_v2"@ || tag
            == "new_post_migrate_v2"@ || tag == "new_thread_v2"@ || tag == "new_thread_migrate_v2"@),
    ensures
        spec_plan(intents).dels.contains("v:forum"@),
        spec_plan(intents).scopes.contains("v:forum"@),
{
    let after = plan_step(spec_plan(intents.take(k)), intents[k]);
    lemma_step_in_plan(intents, k);
    assert(after.dels[after.dels.len() - 1] == "v:forum"@);
    assert(after.scopes[after.scopes.len() - 1] == "v:forum"@);
    lemma_prefix_contains(after.dels, spec_plan(intents).dels, "v:forum"@);
    lemma_prefix_contains(after.scopes, spec_plan(intents).scopes, "v:forum"@);
}

/// Law: after a batch with a reaction or a vote on a post whose board,
/// thread and post it names, the post's view and the sender's reactions to
/// it are deleted and dropped, and the thread's and board's listings get new
/// generations.
pub proof fn lemma_reaction_drops_post(intents: Seq<IntentV2>, k: int)
    requires
        0 <= k < intents.len(),
        event_tag(intents[k].payload@) matches Some(tag) && (tag == "set_reaction_v2"@ || tag
            == "vote_v2"@),
        spec_obj_at(intents[k].objects@, spec_object_indexes(intents[k].function@).1) is Some,
        spec_obj_at(intents[k].objects@, spec_object_indexes(intents[k].function@).2) is Some,
        spec_obj_at(intents[k].objects@, spec_object_indexes(intents[k].function@).3) is Some,
    ensures
        ({
            let i = intents[k];
            let (_, bi, ti, pi) = spec_object_indexes(i.function@);
            let b = spec_obj_at(i.objects@, bi)->Some_0;
            let t = spec_obj_at(i.objects@, ti)->Some_0;
            let q = spec_obj_at(i.objects@, pi)->Some_0;
            let plan = spec_plan(intents);
            let kr = "v:reactions:"@ + address_text(q@) + ":"@ + address_text(i.public_key@);
            &&& plan.dels.contains("v:post:"@ + address_text(q@))
            &&& plan.dels.contains(kr)
            &&& plan.scopes.contains("v:post:"@ + address_text(q@))
            &&& plan.scopes.contains(kr)
            &&& plan.gens.contains("gen:thread:"@ + address_text(t@))
            &&& plan.gens.contains("gen:board:"@ + address_text(b@))
        }),
{
    let i = intents[k];
    let tag = event_tag(i.payload@)->Some_0;
    let (_, bi, ti, pi) = spec_object_indexes(i.function@);
    let b = spec_obj_at(i.objects@, bi)->Some_0;
    let t = spec_obj_at(i.objects@, ti)->Some_0;
    let q = spec_obj_at(i.objects@, pi)->Some_0;
    lemma_reacting_tag(tag);
    reveal_strlit("v:");
    reveal_strlit(":");
    reveal_strlit("gen:");
    reveal_strlit("post");
    reveal_strlit("thread");
    reveal_strlit("board");
    reveal_strlit("reactions");
    reveal_strlit("v:post:");
    reveal_strlit("v:reactions:");
    reveal_strlit("gen:thread:");
    reveal_strlit("gen:board:");
    let kq = "v:post:"@ + address_text(q@);
    let kr = "v:reactions:"@ + address_text(q@) + ":"@ + address_text(i.public_key@);
    let gt = "gen:thread:"@ + address_text(t@);
    let gb = "gen:board:"@ + address_text(b@);
    assert(scope_key("post"@, q) =~= kq);
    assert(reactions_key(q, i.public_key) =~= kr);
    assert(gen_key("thread"@, t) =~= gt);
    assert(gen_key("board"@, b) =~= gb);
    let after = plan_step(spec_plan(intents.take(k)), i);
    lemma_step_in_plan(intents, k);
    let plan = spec_plan(intents);
    assert(after.dels[after.dels.len() - 2] == kq);
    assert(after.dels[after.dels.len() - 1] == kr);
    assert(after.scopes[after.scopes.len() - 2] == kq);
    assert(after.scopes[after.scopes.len() - 1] == kr);
    assert(after.gens[after.gens.len() - 2] == gt);
    assert(after.gens[after.gens.len() - 1] == gb);
    lemma_prefix_contains(after.dels, plan.dels, kq);
    lemma_prefix_contains(after.dels, plan.dels, kr);
    lemma_prefix_contains(after.scopes, plan.scopes, kq);
    lemma_prefix_contains(after.scopes, plan.scopes, kr);
    lemma_prefix_contains(after.gens, plan.gens, gt);
    lemma_prefix_contains(after.gens, plan.gens, gb);
}

/// Law: after a batch with an event that changes what the whole forum may
/// show (closing, deleting, moderators and admins, upgrades, new boards,
/// board settings, pins, reaction sets, timestamp precision), the caches
/// are flushed.
pub proof fn lemma_forum_events_flush(intents: Seq<IntentV2>, k: int)
    requires
        0 <= k < intents.len(),
        event_tag(intents[k].payload@) matches Some(tag) && (tag == "set_closed"@ || tag == "set_admin"@ || tag == "add_moderator"@ || tag == "del_moderator"@ || tag == "set_deleted"@ || tag == "upgrade"@ || tag == "new_board"@ || tag == "set_description"@ || tag == "set_pinned"@ || tag == "set_max_media"@ || tag == "set_bump_limit"@ || tag == "set_ignore_forum_bans"@ || tag == "set_reactions"@ || tag == "set_timestamp_precision"@),
    ensures
        spec_plan(intents).flush,
{
    let tag = event_tag(intents[k].payload@)->Some_0;
    lemma_flushing_tag(tag);
    lemma_step_in_plan(intents, k);
}

proof fn lemma_topic_tag(tag: Seq<char>)
    requires
        tag == "set_topic"@,
    ensures
        !creates(tag),
        !reacts(tag),
{
    reveal_strlit("new_post_migrate_v2");
    reveal_strlit("new_post_v2");
    reveal_strlit("new_thread_migrate_v2");
    reveal_strlit("new_thread_v2");
    reveal_strlit("set_reaction_v2");
    reveal_strlit("set_topic");
    reveal_strlit("vote_v2");
    assert("set_topic"@[0] != "new_post_v2"@[0]);
    assert("set_topic"@[0] != "new_post_migrate_v2"@[0]);
    assert("set_topic"@[0] != "new_thread_v2"@[0]);
    assert("set_topic"@[0] != "new_thread_migrate_v2"@[0]);
    assert("set_topic"@[4] != "set_reaction_v2"@[4]);
    assert("set_topic"@[0] != "vote_v2"@[0]);
}

proof fn lemma_ban_tag(tag: Seq<char>)
    requires
        tag == "ban"@ || tag == "unban"@,
    ensures
        !creates(tag),
        !reacts(tag),
        tag != "set_topic"@,
        !edits_post(tag),
{
    reveal_strlit("ban");
    reveal_strlit("ban_media");
    reveal_strlit("new_post_migrate_v2");
    reveal_strlit("new_post_v2");
    reveal_strlit("new_thread_migrate_v2");
    reveal_strlit("new_thread_v2");
    reveal_strlit("post_set_deleted");
    reveal_strlit("post_set_text");
    reveal_strlit("set_reaction_v2");
    reveal_strlit("set_topic");
    reveal_strlit("unban");
    reveal_strlit("unban_media");
    reveal_strlit("vote_v2");
    assert("ban"@[0] != "new_post_v2"@[0]);
    assert("ban"@[0] != "new_post_migrate_v2"@[0]);
    assert("ban"@[0] != "new_thread_v2"@[0]);
    assert("ban"@[0] != "new_thread_migrate_v2"@[0]);
    assert("ban"@[0] != "set_reaction_v2"@[0]);
    assert("ban"@[0] != "vote_v2"@[0]);
    assert("ban"@[0] != "set_topic"@[0]);
    assert("ban"@[0] != "post_set_text"@[0]);
    assert("ban"@[0] != "post_set_deleted"@[0]);
    assert("ban"@.len() != "ban_media"@.len());
    assert("ban"@[0] != "unban_media"@[0]);
    assert("unban"@[0] != "new_post_v2"@[0]);
    assert("unban"@[0] != "new_post_migrate_v2"@[0]);
    assert("unban"@[0] != "new_thread_v2"@[0]);
    assert("unban"@[0] != "new_thread_migrate_v2"@[0]);
    assert("unban"@[0] != "set_reaction_v2"@[0]);
    assert("unban"@[0] != "vote_v2"@[0]);
    assert("unban"@[0] != "set_topic"@[0]);
    assert("unban"@[0] != "post_set_text"@[0]);
    assert("unban"@[0] != "post_set_deleted"@[0]);
    assert("unban"@[0] != "ban_media"@[0]);
    assert("unban"@.len() != "unban_media"@.len());
}

/// Law: after a batch that sets a thread's topic, the keys under the
/// thread and under its board are deleted and both views are dropped.
pub proof fn lemma_topic_drops_listings(intents: Seq<IntentV2>, k: int)
    requires
        0 <= k < intents.len(),
        event_tag(intents[k].payload@) == Some("set_topic"@),
    ensures
        ({
            let i = intents[k];
            let (_, bi, ti, _) = spec_object_indexes(i.function@);
            let plan = spec_plan(intents);
            &&& spec_obj_at(i.objects@, ti) matches Some(t) ==> plan.patterns.contains(
                "v:thread:"@ + address_text(t@) + ":*"@,
            ) && plan.scopes.contains("v:thread:"@ + address_text(t@))
            &&& spec_obj_at(i.objects@, bi) matches Some(b) ==> plan.patterns.contains(
                "v:board:"@ + address_text(b@) + ":*"@,
            ) && plan.scopes.contains("v:board:"@ + address_text(b@))
        }),
{
    let i = intents[k];
    lemma_topic_tag("set_topic"@);
    let (_, bi, ti, _) = spec_object_indexes(i.function@);
    reveal_strlit("v:");
    reveal_strlit(":");
    reveal_strlit(":*");
    reveal_strlit("thread");
    reveal_strlit("board");
    reveal_strlit("v:thread:");
    reveal_strlit("v:board:");
    let before = spec_plan(intents.take(k));
    let after = plan_step(before, i);
    lemma_step_in_plan(intents, k);
    let plan = spec_plan(intents);
    let p1 = match spec_obj_at(i.objects@, ti) {
        Some(t) => PlanView {
            patterns: before.patterns.push(scope_pattern("thread"@, t)),
            scopes: before.scopes.push(scope_key("thread"@, t)),
            ..before
        },
        None => before,
    };
    if spec_obj_at(i.objects@, ti) is Some {
        let t = spec_obj_at(i.objects@, ti)->Some_0;
        let kt = "v:thread:"@ + address_text(t@);
        assert(scope_key("thread"@, t) =~= kt);
        assert(scope_pattern("thread"@, t) =~= kt + ":*"@);
        assert(p1.patterns[p1.patterns.len() - 1] == kt + ":*"@);
        assert(p1.scopes[p1.scopes.len() - 1] == kt);
        assert(prefix_of(p1.patterns, after.patterns)) by {
            lemma_prefix_refl(p1.patterns);
            lemma_prefix_push(p1.patterns, scope_pattern("board"@, spec_obj_at(i.objects@, bi)->Some_0));
        }
        assert(prefix_of(p1.scopes, after.scopes)) by {
            lemma_prefix_refl(p1.scopes);
            lemma_prefix_push(p1.scopes, scope_key("board"@, spec_obj_at(i.objects@, bi)->Some_0));
        }
        lemma_prefix_trans(p1.patterns, after.patterns, plan.patterns);
        lemma_prefix_trans(p1.scopes, after.scopes, plan.scopes);
        lemma_prefix_contains(p1.patterns, plan.patterns, kt + ":*"@);
        lemma_prefix_contains(p1.scopes, plan.scopes, kt);
    }
    if spec_obj_at(i.objects@, bi) is Some {
        let b = spec_obj_at(i.objects@, bi)->Some_0;
        let kb = "v:board:"@ + address_text(b@);
        assert(scope_key("board"@, b) =~= kb);
        assert(scope_pattern("board"@, b) =~= kb + ":*"@);
        assert(after.patterns[after.patterns.len() - 1] == kb + ":*"@);
        assert(after.scopes[after.scopes.len() - 1] == kb);
        lemma_prefix_contains(after.patterns, plan.patterns, kb + ":*"@);
        lemma_prefix_contains(after.scopes, plan.scopes, kb);
    }
}

/// Law: after a batch with a ban or an unban, the ban list of the level it
/// was made at (the forum, board or thread, after the entry point) is
/// dropped: its keys are deleted and every relay drops its view.
pub proof fn lemma_ban_drops_ban_list(intents: Seq<IntentV2>, k: int)
    requires
        0 <= k < intents.len(),
        event_tag(intents[k].payload@) matches Some(tag) && (tag == "ban"@ || tag == "unban"@),
    ensures
        ({
            let i = intents[k];
            let f = i.function@;
            let (fi, bi, ti, _) = spec_object_indexes(f);
            let level = if f == "forum_apply_post_intent_uid"@ {
                spec_obj_at(i.objects@, fi)
            } else if f == "board_apply_post_intent_uid"@ {
                spec_obj_at(i.objects@, bi)
            } else if f == "thread_apply_post_intent_uid"@ {
                spec_obj_at(i.objects@, ti)
            } else {
                None
            };
            let plan = spec_plan(intents);
            level matches Some(l) ==> plan.patterns.contains(
                "v:bans:"@ + address_text(l@) + ":*"@,
            ) && plan.scopes.contains("v:bans:"@ + address_text(l@))
        }),
{
    let i = intents[k];
    let tag = event_tag(i.payload@)->Some_0;
    lemma_ban_tag(tag);
    reveal_strlit("v:");
    reveal_strlit(":");
    reveal_strlit(":*");
    reveal_strlit("bans");
    reveal_strlit("v:bans:");
    let after = plan_step(spec_plan(intents.take(k)), i);
    lemma_step_in_plan(intents, k);
    let (fi, bi, ti, _) = spec_object_indexes(i.function@);
    let lv = ban_level(i.function@, spec_obj_at(i.objects@, fi), spec_obj_at(i.objects@, bi), spec_obj_at(i.objects@, ti));
    if lv is Some {
        let l = lv->Some_0;
        let kl = "v:bans:"@ + address_text(l@);
        assert(scope_key("bans"@, l) =~= kl);
        assert(scope_pattern("bans"@, l) =~= kl + ":*"@);
        assert(after.patterns[after.patterns.len() - 1] == kl + ":*"@);
        assert(after.scopes[after.scopes.len() - 1] == kl);
        lemma_prefix_contains(after.patterns, spec_plan(intents).patterns, kl + ":*"@);
        lemma_prefix_contains(after.scopes, spec_plan(intents).scopes, kl);
    }
}

} // verus!
