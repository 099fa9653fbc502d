use std::collections::HashMap;
use vstd::prelude::*;

use crate::intent::Address;
use crate::text::{
    has_prefix, starts_with,
    chars_match_at, chars_of, decimal_chars, digits_value, is_digit, occurs_at, parse_digits_u64,
    push_char, push_decimal, string_of, str_eq,
};

verus! {

/// A styled span of a post.
#[derive(Debug, Clone, Copy, PartialEq, Eq, Structural)]
pub enum Style {
    Bold,
    Italic,
    Code,
    Underline,
    Overline,
    Spoiler,
    Strike,
    Sup,
    Sub,
}

/// One piece of a post's rich text.
#[derive(Debug)]
pub enum PostPart {
    Plain(String),
    ReplyTo(Address, Address, Address, String),
    Styled(Style, Vec<PostPart>),
    Link { url: String, children: Vec<PostPart> },
}

/// The mathematical value of a post part.
pub enum PartView {
    Plain(Seq<char>),
    ReplyTo(Address, Address, Address, Seq<char>),
    Styled(Style, Seq<PartView>),
    Link(Seq<char>, Seq<PartView>),
}

pub open spec fn part_view(p: PostPart) -> PartView
    decreases p,
{
    match p {
        PostPart::Plain(s) => PartView::Plain(s@),
        PostPart::ReplyTo(a, b, c, s) => PartView::ReplyTo(a, b, c, s@),
        PostPart::Styled(st, ch) => PartView::Styled(st, parts_view(ch@)),
        PostPart::Link { url, children } => PartView::Link(url@, parts_view(children@)),
    }
}

pub open spec fn parts_view(s: Seq<PostPart>) -> Seq<PartView>
    decreases s,
{
    if s.len() == 0 {
        Seq::empty()
    } else {
        parts_view(s.drop_last()).push(part_view(s.last()))
    }
}

proof fn lemma_parts_view_push(s: Seq<PostPart>, p: PostPart)
    ensures
        parts_view(s.push(p)) == parts_view(s).push(part_view(p)),
{
    assert(s.push(p).drop_last() =~= s);
}

/// Where an imported post was placed: its board, thread, post and number.
#[derive(Debug, Clone, Copy)]
pub struct Mapping {
    pub board: Address,
    pub thread: Address,
    pub post: Address,
    pub num: u64,
}

/// The style a span of the given name stands for.
pub open spec fn spec_style_of(variant: Seq<char>) -> Option<Style> {
    if variant == "bold"@ {
        Some(Style::Bold)
    } else if variant == "italic"@ {
        Some(Style::Italic)
    } else if variant == "code"@ {
        Some(Style::Code)
    } else if variant == "underline"@ {
        Some(Style::Underline)
    } else if variant == "overline"@ {
        Some(Style::Overline)
    } else if variant == "spoiler"@ {
        Some(Style::Spoiler)
    } else if variant == "strike"@ {
        Some(Style::Strike)
    } else if variant == "sup"@ {
        Some(Style::Sup)
    } else if variant == "sub"@ {
        Some(Style::Sub)
    } else {
        None
    }
}

/// The span name and closing tag of a simple BBCode tag.
pub open spec fn spec_simple_tag(tag: Seq<char>) -> Option<(Seq<char>, Seq<char>)> {
    if tag == "b"@ {
        Some(("bold"@, "[/b]"@))
    } else if tag == "i"@ {
        Some(("italic"@, "[/i]"@))
    } else if tag == "code"@ {
        Some(("code"@, "[/code]"@))
    } else if tag == "u"@ {
        Some(("underline"@, "[/u]"@))
    } else if tag == "o"@ {
        Some(("overline"@, "[/o]"@))
    } else if tag == "spoiler"@ {
        Some(("spoiler"@, "[/spoiler]"@))
    } else if tag == "s"@ {
        Some(("strike"@, "[/s]"@))
    } else if tag == "sup"@ {
        Some(("sup"@, "[/sup]"@))
    } else if tag == "sub"@ {
        Some(("sub"@, "[/sub]"@))
    } else {
        None
    }
}

pub fn simple_tag(tag: &str) -> (r: Option<(&'static str, &'static str)>)
    ensures
        spec_simple_tag(tag@) is None <==> r is None,
        r matches Some((v, c)) ==> spec_simple_tag(tag@) == Some((v@, c@)),
{
    if str_eq(tag, "b") {
        Some(("bold", "[/b]"))
    } else if str_eq(tag, "i") {
        Some(("italic", "[/i]"))
    } else if str_eq(tag, "code") {
        Some(("code", "[/code]"))
    } else if str_eq(tag, "u") {
        Some(("underline", "[/u]"))
    } else if str_eq(tag, "o") {
        Some(("overline", "[/o]"))
    } else if str_eq(tag, "spoiler") {
        Some(("spoiler", "[/spoiler]"))
    } else if str_eq(tag, "s") {
        Some(("strike", "[/s]"))
    } else if str_eq(tag, "sup") {
        Some(("sup", "[/sup]"))
    } else if str_eq(tag, "sub") {
        Some(("sub", "[/sub]"))
    } else {
        None
    }
}

proof fn lemma_tag_style(t: Seq<char>)
    ensures
        spec_simple_tag(t) is Some ==> {
            let st = spec_style_of(spec_simple_tag(t)->Some_0.0);
            ||| t == "b"@ && st == Some(Style::Bold)
            ||| t == "i"@ && st == Some(Style::Italic)
            ||| t == "code"@ && st == Some(Style::Code)
            ||| t == "u"@ && st == Some(Style::Underline)
            ||| t == "o"@ && st == Some(Style::Overline)
            ||| t == "spoiler"@ && st == Some(Style::Spoiler)
            ||| t == "s"@ && st == Some(Style::Strike)
            ||| t == "sup"@ && st == Some(Style::Sup)
            ||| t == "sub"@ && st == Some(Style::Sub)
        },
{
    reveal_strlit("b");
    reveal_strlit("i");
    reveal_strlit("code");
    reveal_strlit("u");
    reveal_strlit("o");
    reveal_strlit("spoiler");
    reveal_strlit("s");
    reveal_strlit("sup");
    reveal_strlit("sub");
    reveal_strlit("bold");
    reveal_strlit("italic");
    reveal_strlit("underline");
    reveal_strlit("overline");
    reveal_strlit("strike");
    assert("bold"@[0] == 'b' && "italic"@[0] == 'i' && "code"@[0] == 'c' && "underline"@[0] == 'u');
    assert("overline"@[0] == 'o' && "spoiler"@[1] == 'p' && "strike"@[1] == 't' && "sup"@[1] == 'u');
    assert("sub"@[2] == 'b' && "sup"@[2] == 'p');
    assert("spoiler"@[0] == 's' && "strike"@[0] == 's' && "sup"@[0] == 's' && "sub"@[0] == 's' && "sub"@[1] == 'u');
    assert("italic"@ != "bold"@);
    assert("code"@ != "bold"@);
    assert("code"@ != "italic"@);
    assert("underline"@ != "bold"@);
    assert("underline"@ != "italic"@);
    assert("underline"@ != "code"@);
    assert("overline"@ != "bold"@);
    assert("overline"@ != "italic"@);
    assert("overline"@ != "code"@);
    assert("overline"@ != "underline"@);
    assert("spoiler"@ != "bold"@);
    assert("spoiler"@ != "italic"@);
    assert("spoiler"@ != "code"@);
    assert("spoiler"@ != "underline"@);
    assert("spoiler"@ != "overline"@);
    assert("strike"@ != "bold"@);
    assert("strike"@ != "italic"@);
    assert("strike"@ != "code"@);
    assert("strike"@ != "underline"@);
    assert("strike"@ != "overline"@);
    assert("strike"@ != "spoiler"@);
    assert("sup"@ != "bold"@);
    assert("sup"@ != "italic"@);
    assert("sup"@ != "code"@);
    assert("sup"@ != "underline"@);
    assert("sup"@ != "overline"@);
    assert("sup"@ != "spoiler"@);
    assert("sup"@ != "strike"@);
    assert("sub"@ != "bold"@);
    assert("sub"@ != "italic"@);
    assert("sub"@ != "code"@);
    assert("sub"@ != "underline"@);
    assert("sub"@ != "overline"@);
    assert("sub"@ != "spoiler"@);
    assert("sub"@ != "strike"@);
    assert("sub"@ != "sup"@);
}

/// Law: a simple tag names a span whose name starts with the tag (`b` for
/// bold, `i` for italic, `u` for underline, `s` for strike, ...), is closed
/// by `[/` the tag `]`, and stands for a style; different tags stand for
/// different styles.
pub proof fn lemma_simple_tags_name_their_styles(t1: Seq<char>, t2: Seq<char>)
    ensures
        spec_simple_tag(t1) matches Some((v, c)) ==> has_prefix(v, t1) && c == "[/"@ + t1 + "]"@
            && spec_style_of(v) is Some,
        spec_simple_tag(t1) is Some && spec_simple_tag(t2) is Some && t1 != t2 ==> spec_style_of(
            spec_simple_tag(t1)->Some_0.0,
        ) != spec_style_of(spec_simple_tag(t2)->Some_0.0),
{
    reveal_strlit("b");
    reveal_strlit("i");
    reveal_strlit("code");
    reveal_strlit("u");
    reveal_strlit("o");
    reveal_strlit("spoiler");
    reveal_strlit("s");
    reveal_strlit("sup");
    reveal_strlit("sub");
    reveal_strlit("bold");
    reveal_strlit("italic");
    reveal_strlit("underline");
    reveal_strlit("overline");
    reveal_strlit("strike");
    reveal_strlit("[/b]");
    reveal_strlit("[/i]");
    reveal_strlit("[/code]");
    reveal_strlit("[/u]");
    reveal_strlit("[/o]");
    reveal_strlit("[/spoiler]");
    reveal_strlit("[/s]");
    reveal_strlit("[/sup]");
    reveal_strlit("[/sub]");
    reveal_strlit("[/");
    reveal_strlit("]");
    lemma_tag_style(t1);
    lemma_tag_style(t2);
    if spec_simple_tag(t1) is Some {
        let (v, c) = spec_simple_tag(t1)->Some_0;
        assert(v.take(t1.len() as int) =~= t1);
        assert(c =~= "[/"@ + t1 + "]"@);
    }
}

/// The part for a span of the given name around `children`; an empty plain
/// part for a name that is no span.
pub open spec fn spec_make_variant(variant: Seq<char>, children: Seq<PartView>) -> PartView {
    match spec_style_of(variant) {
        Some(st) => PartView::Styled(st, children),
        None => PartView::Plain(Seq::empty()),
    }
}

pub fn make_variant(variant: &str, children: Vec<PostPart>) -> (r: PostPart)
    ensures
        part_view(r) == spec_make_variant(variant@, parts_view(children@)),
{
    let st = if str_eq(variant, "bold") {
        Style::Bold
    } else if str_eq(variant, "italic") {
        Style::Italic
    } else if str_eq(variant, "code") {
        Style::Code
    } else if str_eq(variant, "underline") {
        Style::Underline
    } else if str_eq(variant, "overline") {
        Style::Overline
    } else if str_eq(variant, "spoiler") {
        Style::Spoiler
    } else if str_eq(variant, "strike") {
        Style::Strike
    } else if str_eq(variant, "sup") {
        Style::Sup
    } else if str_eq(variant, "sub") {
        Style::Sub
    } else {
        return PostPart::Plain(String::new());
    };
    PostPart::Styled(st, children)
}

/// The first `]` after position `start`.
pub open spec fn spec_find_close(c: Seq<char>, start: int) -> Option<int>
    decreases c.len() - start,
{
    if start + 1 >= c.len() {
        None
    } else if c[start + 1] == ']' {
        Some(start + 1)
    } else {
        spec_find_close(c, start + 1)
    }
}

pub fn find_close(chars: &[char], start: usize) -> (r: Option<usize>)
    requires
        start < chars@.len(),
    ensures
        r is Some <==> spec_find_close(chars@, start as int) is Some,
        r matches Some(j) ==> spec_find_close(chars@, start as int) == Some(j as int),
{
    let n = chars.len();
    let mut j = start + 1;
    while j < n
        invariant
            n == chars@.len(),
            start < j <= chars@.len(),
            spec_find_close(chars@, start as int) == spec_find_close(chars@, j - 1),
        decreases chars.len() - j,
    {
        if chars[j] == ']' {
            return Some(j);
        }
        j = j + 1;
    }
    None
}

/// Where `spec_find_close` finds a `]`, it lies after `start` in the text.
pub proof fn lemma_find_close_range(c: Seq<char>, start: int)
    ensures
        spec_find_close(c, start) matches Some(e) ==> start < e < c.len() && c[e] == ']',
    decreases c.len() - start,
{
    if start + 1 < c.len() && c[start + 1] != ']' {
        lemma_find_close_range(c, start + 1);
    }
}

/// The first occurrence of a non-empty `needle` at or after `start`.
pub open spec fn spec_find_str(c: Seq<char>, needle: Seq<char>, start: int) -> Option<int>
    decreases c.len() - start,
{
    if needle.len() == 0 || start < 0 || start + needle.len() > c.len() {
        None
    } else if occurs_at(c, needle, start) {
        Some(start)
    } else {
        spec_find_str(c, needle, start + 1)
    }
}

pub fn find_str(chars: &[char], needle: &str, start: usize) -> (r: Option<usize>)
    ensures
        r is Some <==> spec_find_str(chars@, needle@, start as int) is Some,
        r matches Some(j) ==> spec_find_str(chars@, needle@, start as int) == Some(j as int),
{
    let nd = chars_of(needle);
    if nd.len() == 0 {
        return None;
    }
    let n = chars.len();
    let mut j = start;
    while j <= n && n - j >= nd.len()
        invariant
            n == chars@.len(),
            nd@ == needle@,
            nd@.len() > 0,
            start <= j,
            spec_find_str(chars@, needle@, start as int) == spec_find_str(
                chars@,
                needle@,
                j as int,
            ),
        decreases n + 1 - j,
    {
        if chars_match_at(chars, nd.as_slice(), j) {
            return Some(j);
        }
        j = j + 1;
    }
    None
}

/// Where `spec_find_str` finds the needle, it lies after `start` in the text.
pub proof fn lemma_find_str_range(c: Seq<char>, needle: Seq<char>, start: int)
    ensures
        spec_find_str(c, needle, start) matches Some(j) ==> start <= j && j + needle.len()
            <= c.len() && needle.len() > 0 && occurs_at(c, needle, j),
    decreases c.len() - start,
{
    if !(needle.len() == 0 || start < 0 || start + needle.len() > c.len()) && !occurs_at(
        c,
        needle,
        start,
    ) {
        lemma_find_str_range(c, needle, start + 1);
    }
}

/// The position after the run of decimal digits starting at `j`.
pub open spec fn digit_run_end(c: Seq<char>, j: int) -> int
    decreases c.len() - j,
{
    if j < 0 || j >= c.len() || !is_digit(c[j]) {
        j
    } else {
        digit_run_end(c, j + 1)
    }
}

/// The number a run of digits denotes, read as `u64` with 0 where it does
/// not fit.
pub open spec fn reply_number(digits: Seq<char>) -> u64 {
    if digits_value(digits) <= u64::MAX {
        digits_value(digits) as u64
    } else {
        0
    }
}

/// Where a quoted post number leads: a post of this board that was imported.
pub open spec fn reply_target(mapping: Map<u64, Mapping>, board_id: Address, num: u64) -> Option<Mapping> {
    if mapping.contains_key(num) && mapping[num].board == board_id {
        Some(mapping[num])
    } else {
        None
    }
}

/// The plain part that pending text becomes, if any text is pending.
pub open spec fn flush(plain: Seq<char>) -> Seq<PartView> {
    if plain.len() == 0 {
        Seq::empty()
    } else {
        seq![PartView::Plain(plain)]
    }
}

/// What a parser working on post text gets to know about the board.
pub struct ParseContext {
    pub forum: Address,
    pub board_id: Address,
    pub slug: Seq<char>,
    pub mapping: Map<u64, Mapping>,
}

/// The parts of `c[i..]`, with `plain` the text read since the last part.
///
/// `>>N` that names an imported post of this board becomes a reply; `[t]..[/t]`
/// for a simple tag `t`, `[url=U]..[/url]` and `[link url=U]..[/link]` become
/// spans whose inside is parsed the same way; everything else is text.
pub open spec fn spec_parse(c: Seq<char>, i: int, plain: Seq<char>, ctx: ParseContext) -> Seq<PartView>
    decreases c.len(), c.len() - i,
{
    if i < 0 || i >= c.len() {
        flush(plain)
    } else if c[i] == '>' && i + 1 < c.len() && c[i + 1] == '>' {
        let j = digit_run_end(c, i + 2);
        if j > i + 2 && i + 2 <= j <= c.len()
            && reply_target(ctx.mapping, ctx.board_id, reply_number(c.subrange(i + 2, j))) is Some {
            let m = reply_target(ctx.mapping, ctx.board_id, reply_number(c.subrange(i + 2, j)))->0;
            flush(plain) + seq![PartView::ReplyTo(ctx.forum, m.board, m.post, ctx.slug + "/"@ + decimal_chars(m.num as nat))]
                + spec_parse(c, j, Seq::empty(), ctx)
        } else {
            spec_parse(c, i + 2, plain + ">>"@, ctx)
        }
    } else if c[i] == '[' && spec_find_close(c, i) is Some {
        let end = spec_find_close(c, i)->0;
        proof {
            lemma_find_close_range(c, i);
            reveal_strlit("[/url]");
            reveal_strlit("[/link]");
            lemma_find_str_range(c, "[/url]"@, end + 1);
            lemma_find_str_range(c, "[/link]"@, end + 1);
        }
        let tag = c.subrange(i + 1, end);
        match spec_simple_tag(tag) {
            Some((variant, close)) => {
                proof {
                    lemma_find_str_range(c, close, end + 1);
                }
                match spec_find_str(c, close, end + 1) {
                Some(ci) => {
                    flush(plain) + seq![spec_make_variant(variant, spec_parse(c.subrange(end + 1, ci), 0, Seq::empty(), ctx))]
                        + spec_parse(c, ci + close.len(), Seq::empty(), ctx)
                },
                None => spec_parse(c, i + 1, plain.push(c[i]), ctx),
                }
            },
            None => if has_prefix(tag, "url="@) {
                match spec_find_str(c, "[/url]"@, end + 1) {
                    Some(ci) => {
                        flush(plain) + seq![PartView::Link(tag.skip("url="@.len() as int), spec_parse(c.subrange(end + 1, ci), 0, Seq::empty(), ctx))]
                            + spec_parse(c, ci + "[/url]"@.len(), Seq::empty(), ctx)
                    },
                    None => spec_parse(c, i + 1, plain.push(c[i]), ctx),
                }
            } else if has_prefix(tag, "link url="@) {
                match spec_find_str(c, "[/link]"@, end + 1) {
                    Some(ci) => {
                        flush(plain) + seq![PartView::Link(tag.skip("link url="@.len() as int), spec_parse(c.subrange(end + 1, ci), 0, Seq::empty(), ctx))]
                            + spec_parse(c, ci + "[/link]"@.len(), Seq::empty(), ctx)
                    },
                    None => spec_parse(c, i + 1, plain.push(c[i]), ctx),
                }
            } else {
                spec_parse(c, i + 1, plain.push(c[i]), ctx)
            },
        }
    } else {
        spec_parse(c, i + 1, plain.push(c[i]), ctx)
    }
}


/// Whether a part is plain text.
pub open spec fn is_plain(p: PartView) -> bool {
    p is Plain
}

/// Whether a reply part links, on this forum and board, to an imported post
/// of the board under its label `slug/number`.
pub open spec fn reply_ok(f: Address, b: Address, post: Address, label: Seq<char>, ctx: ParseContext) -> bool {
    &&& f == ctx.forum
    &&& b == ctx.board_id
    &&& exists|n: u64|
        #![trigger ctx.mapping[n]]
        ctx.mapping.contains_key(n) && ctx.mapping[n].board == ctx.board_id && ctx.mapping[n].post
            == post && label == ctx.slug + "/"@ + decimal_chars(ctx.mapping[n].num as nat)
}

/// A well-formed part: plain text is not empty, a reply links as
/// `reply_ok` says, and the inside of a span or link is well-formed.
pub open spec fn part_wf(p: PartView, ctx: ParseContext) -> bool
    decreases p,
{
    match p {
        PartView::Plain(s) => s.len() > 0,
        PartView::ReplyTo(f, b, post, label) => reply_ok(f, b, post, label, ctx),
        PartView::Styled(_, ch) => parts_wf(ch, ctx),
        PartView::Link(_, ch) => parts_wf(ch, ctx),
    }
}

/// Well-formed parts: each is well-formed and no two plain parts are
/// neighbours.
pub open spec fn parts_wf(ps: Seq<PartView>, ctx: ParseContext) -> bool
    decreases ps,
{
    if ps.len() == 0 {
        true
    } else {
        &&& parts_wf(ps.drop_last(), ctx)
        &&& part_wf(ps.last(), ctx)
        &&& !(ps.len() >= 2 && is_plain(ps[ps.len() - 2]) && is_plain(ps.last()))
    }
}

proof fn lemma_parts_wf_single(x: PartView, ctx: ParseContext)
    requires
        part_wf(x, ctx),
    ensures
        parts_wf(seq![x], ctx),
{
    assert(seq![x].drop_last() =~= Seq::<PartView>::empty());
    reveal_with_fuel(parts_wf, 2);
}

proof fn lemma_flush_wf(plain: Seq<char>, ctx: ParseContext)
    ensures
        parts_wf(flush(plain), ctx),
{
    if plain.len() > 0 {
        lemma_parts_wf_single(PartView::Plain(plain), ctx);
    }
}

proof fn lemma_parts_wf_concat(a: Seq<PartView>, b: Seq<PartView>, ctx: ParseContext)
    requires
        parts_wf(a, ctx),
        parts_wf(b, ctx),
        !(a.len() > 0 && b.len() > 0 && is_plain(a.last()) && is_plain(b[0])),
    ensures
        parts_wf(a + b, ctx),
    decreases b.len(),
{
    if b.len() > 0 {
        lemma_parts_wf_concat(a, b.drop_last(), ctx);
        assert((a + b).drop_last() =~= a + b.drop_last());
        assert((a + b).last() == b.last());
        if b.len() >= 2 {
            assert((a + b)[(a + b).len() - 2] == b[b.len() - 2]);
        } else if a.len() > 0 {
            assert((a + b)[(a + b).len() - 2] == a.last());
        }
    }
}

/// The parts before and after a span or a reply fit together.
proof fn lemma_emit_wf(plain: Seq<char>, x: PartView, tail: Seq<PartView>, ctx: ParseContext)
    requires
        part_wf(x, ctx),
        !is_plain(x),
        parts_wf(tail, ctx),
    ensures
        parts_wf(flush(plain) + seq![x] + tail, ctx),
{
    let f = flush(plain);
    lemma_flush_wf(plain, ctx);
    lemma_parts_wf_single(x, ctx);
    lemma_parts_wf_concat(f, seq![x], ctx);
    lemma_parts_wf_concat(f + seq![x], tail, ctx);
}

/// Law: at every level of the parts read from post text, no plain part is
/// empty, no two plain parts are neighbours, and every reply links to an
/// imported post of this board on this forum, labelled with the board's slug
/// and the post's number.
pub proof fn lemma_parse_wf(c: Seq<char>, i: int, plain: Seq<char>, ctx: ParseContext)
    ensures
        parts_wf(spec_parse(c, i, plain, ctx), ctx),
    decreases c.len(), c.len() - i,
{
    if i < 0 || i >= c.len() {
        lemma_flush_wf(plain, ctx);
    } else if c[i] == '>' && i + 1 < c.len() && c[i + 1] == '>' {
        let j = digit_run_end(c, i + 2);
        if j > i + 2 && i + 2 <= j <= c.len()
            && reply_target(ctx.mapping, ctx.board_id, reply_number(c.subrange(i + 2, j))) is Some {
            let n = reply_number(c.subrange(i + 2, j));
            let m = reply_target(ctx.mapping, ctx.board_id, n)->0;
            let x = PartView::ReplyTo(ctx.forum, m.board, m.post, ctx.slug + "/"@ + decimal_chars(m.num as nat));
            assert(ctx.mapping[n] == m);
            lemma_parse_wf(c, j, Seq::empty(), ctx);
            lemma_emit_wf(plain, x, spec_parse(c, j, Seq::empty(), ctx), ctx);
        } else {
            lemma_parse_wf(c, i + 2, plain + ">>"@, ctx);
        }
    } else if c[i] == '[' && spec_find_close(c, i) is Some {
        let end = spec_find_close(c, i)->0;
        lemma_find_close_range(c, i);
        reveal_strlit("[/url]");
        reveal_strlit("[/link]");
        lemma_find_str_range(c, "[/url]"@, end + 1);
        lemma_find_str_range(c, "[/link]"@, end + 1);
        let tag = c.subrange(i + 1, end);
        match spec_simple_tag(tag) {
            Some((variant, close)) => {
                lemma_find_str_range(c, close, end + 1);
                match spec_find_str(c, close, end + 1) {
                    Some(ci) => {
                        let inner = c.subrange(end + 1, ci);
                        lemma_parse_wf(inner, 0, Seq::empty(), ctx);
                        lemma_parse_wf(c, ci + close.len(), Seq::empty(), ctx);
                        let x = spec_make_variant(variant, spec_parse(inner, 0, Seq::empty(), ctx));
                        assert(spec_style_of(variant) is Some);
                        lemma_emit_wf(plain, x, spec_parse(c, ci + close.len(), Seq::empty(), ctx), ctx);
                    },
                    None => lemma_parse_wf(c, i + 1, plain.push(c[i]), ctx),
                }
            },
            None => if has_prefix(tag, "url="@) {
                match spec_find_str(c, "[/url]"@, end + 1) {
                    Some(ci) => {
                        let inner = c.subrange(end + 1, ci);
                        lemma_parse_wf(inner, 0, Seq::empty(), ctx);
                        lemma_parse_wf(c, ci + "[/url]"@.len(), Seq::empty(), ctx);
                        let x = PartView::Link(tag.skip("url="@.len() as int), spec_parse(inner, 0, Seq::empty(), ctx));
                        lemma_emit_wf(plain, x, spec_parse(c, ci + "[/url]"@.len(), Seq::empty(), ctx), ctx);
                    },
                    None => lemma_parse_wf(c, i + 1, plain.push(c[i]), ctx),
                }
            } else if has_prefix(tag, "link url="@) {
                match spec_find_str(c, "[/link]"@, end + 1) {
                    Some(ci) => {
                        let inner = c.subrange(end + 1, ci);
                        lemma_parse_wf(inner, 0, Seq::empty(), ctx);
                        lemma_parse_wf(c, ci + "[/link]"@.len(), Seq::empty(), ctx);
                        let x = PartView::Link(tag.skip("link url="@.len() as int), spec_parse(inner, 0, Seq::empty(), ctx));
                        lemma_emit_wf(plain, x, spec_parse(c, ci + "[/link]"@.len(), Seq::empty(), ctx), ctx);
                    },
                    None => lemma_parse_wf(c, i + 1, plain.push(c[i]), ctx),
                }
            } else {
                lemma_parse_wf(c, i + 1, plain.push(c[i]), ctx);
            },
        }
    } else {
        lemma_parse_wf(c, i + 1, plain.push(c[i]), ctx);
    }
}

/// Text without markup (no `[` and no `>>`) is kept as it is: a single
/// plain part holding all of it, or no part for empty text.
pub proof fn lemma_plain_text_stays_plain(c: Seq<char>, i: int, plain: Seq<char>, ctx: ParseContext)
    requires
        0 <= i <= c.len(),
        forall|k: int| 0 <= k < c.len() ==> c[k] != '[',
        forall|k: int| 0 <= k < c.len() - 1 ==> !(#[trigger] c[k] == '>' && c[k + 1] == '>'),
    ensures
        spec_parse(c, i, plain, ctx) == flush(plain + c.skip(i)),
    decreases c.len() - i,
{
    if i == c.len() {
        assert(plain + c.skip(i) =~= plain);
    } else {
        assert(c[i] != '[');
        assert(!(c[i] == '>' && i + 1 < c.len() && c[i + 1] == '>'));
        lemma_plain_text_stays_plain(c, i + 1, plain.push(c[i]), ctx);
        assert(plain.push(c[i]) + c.skip(i + 1) =~= plain + c.skip(i));
    }
}

} // verus!

verus! {

broadcast use vstd::std_specs::hash::group_hash_axioms;

/// Whether two addresses are equal.
pub fn addr_eq(a: &Address, b: &Address) -> (r: bool)
    ensures
        r == (*a == *b),
        r == (a@ == b@),
{
    let mut i: usize = 0;
    while i < 32
        invariant
            i <= 32,
            forall|j: int| 0 <= j < i ==> a@[j] == b@[j],
        decreases 32 - i,
    {
        if a[i] != b[i] {
            assert(a@[i as int] != b@[i as int]);
            return false;
        }
        i = i + 1;
    }
    assert(*a =~= *b);
    true
}

fn flush_into(out: &mut Vec<PostPart>, plain: String)
    ensures
        parts_view(final(out)@) == parts_view(old(out)@) + flush(plain@),
{
    if !plain.as_str().is_empty() {
        proof {
            lemma_parts_view_push(out@, PostPart::Plain(plain));
        }
        out.push(PostPart::Plain(plain));
        assert(parts_view(out@) =~= parts_view(old(out)@) + flush(plain@));
    } else {
        assert(parts_view(out@) =~= parts_view(old(out)@) + flush(plain@));
    }
}

/// Ends the pending text and appends `part` after it.
fn emit(out: &mut Vec<PostPart>, plain: String, part: PostPart)
    ensures
        parts_view(final(out)@) == parts_view(old(out)@) + flush(plain@) + seq![part_view(part)],
{
    flush_into(out, plain);
    proof {
        lemma_parts_view_push(out@, part);
    }
    out.push(part);
}

proof fn lemma_emit_keeps(
    done: Seq<PartView>,
    plain: Seq<char>,
    x: Seq<PartView>,
    rest: Seq<PartView>,
    whole: Seq<PartView>,
    here: Seq<PartView>,
)
    requires
        here == flush(plain) + x + rest,
        done + here == whole,
    ensures
        done + flush(plain) + x + rest == whole,
{
    assert(done + flush(plain) + x + rest =~= done + (flush(plain) + x + rest));
}

/// The parts of a post's text, given as characters.
pub fn parse_parts(
    c: &[char],
    forum: Address,
    board_id: Address,
    slug: &str,
    mapping: &HashMap<u64, Mapping>,
) -> (r: Vec<PostPart>)
    ensures
        parts_view(r@) == spec_parse(
            c@,
            0,
            Seq::empty(),
            ParseContext { forum, board_id, slug: slug@, mapping: mapping@ },
        ),
    decreases c@.len(),
{
    let ghost ctx = ParseContext { forum, board_id, slug: slug@, mapping: mapping@ };
    let n = c.len();
    let mut out: Vec<PostPart> = Vec::new();
    let mut plain = String::new();
    let mut i: usize = 0;
    while i < n
        invariant
            n == c@.len(),
            i <= n,
            ctx == (ParseContext { forum, board_id, slug: slug@, mapping: mapping@ }),
            parts_view(out@) + spec_parse(c@, i as int, plain@, ctx) == spec_parse(
                c@,
                0,
                Seq::empty(),
                ctx,
            ),
        decreases n - i,
    {
        if c[i] == '>' && i + 1 < n && c[i + 1] == '>' {
            let mut j = i + 2;
            while j < n && c[j] >= '0' && c[j] <= '9'
                invariant
                    n == c@.len(),
                    i + 2 <= j <= n,
                    digit_run_end(c@, i + 2) == digit_run_end(c@, j as int),
                    forall|k: int| i + 2 <= k < j ==> is_digit(#[trigger] c@[k]),
                decreases n - j,
            {
                j = j + 1;
            }
            assert(digit_run_end(c@, j as int) == j);
            if j > i + 2 {
                let digits = &c[i + 2..j];
                assert(digits@ == c@.subrange(i + 2, j as int));
                let num: u64 = match parse_digits_u64(digits) {
                    Some(v) => v,
                    None => 0,
                };
                assert(num == reply_number(c@.subrange(i + 2, j as int)));
                match mapping.get(&num) {
                    Some(m) => {
                        if addr_eq(&m.board, &board_id) {
                            assert(reply_target(ctx.mapping, board_id, num) == Some(*m));
                            let mut label = slug.to_string();
                            label.append("/");
                            push_decimal(&mut label, m.num);
                            let part = PostPart::ReplyTo(forum, m.board, m.post, label);
                            let ghost out0 = out@;
                            let ghost plain0 = plain@;
                            let ghost x = seq![part_view(part)];
                            emit(&mut out, plain, part);
                            plain = String::new();
                            proof {
                                lemma_emit_keeps(
                                    parts_view(out0),
                                    plain0,
                                    x,
                                    spec_parse(c@, j as int, Seq::empty(), ctx),
                                    spec_parse(c@, 0, Seq::empty(), ctx),
                                    spec_parse(c@, i as int, plain0, ctx),
                                );
                            }
                            i = j;
                            continue;
                        }
                    },
                    None => {},
                }
            }
            let ghost plain0 = plain@;
            plain.append(">>");
            proof {
                assert(spec_parse(c@, i as int, plain0, ctx) == spec_parse(
                    c@,
                    i + 2,
                    plain0 + ">>"@,
                    ctx,
                ));
            }
            i = i + 2;
            continue;
        }
        if c[i] == '[' {
            if let Some(end) = find_close(c, i) {
                proof {
                    lemma_find_close_range(c@, i as int);
                }
                let tag_chars = &c[i + 1..end];
                let tag = string_of(tag_chars);
                assert(tag@ == c@.subrange(i + 1, end as int));
                match simple_tag(tag.as_str()) {
                    Some((variant, close)) => {
                        match find_str(c, close, end + 1) {
                            Some(ci) => {
                                proof {
                                    lemma_find_str_range(c@, close@, end + 1);
                                }
                                let inner = &c[end + 1..ci];
                                assert(inner@ == c@.subrange(end + 1, ci as int));
                                let children = parse_parts(inner, forum, board_id, slug, mapping);
                                let part = make_variant(variant, children);
                                let close_len = chars_of(close).len();
                                let ghost out0 = out@;
                                let ghost plain0 = plain@;
                                let ghost x = seq![part_view(part)];
                                emit(&mut out, plain, part);
                                plain = String::new();
                                proof {
                                    let next = (ci + close_len) as int;
                                    lemma_emit_keeps(
                                        parts_view(out0),
                                        plain0,
                                        x,
                                        spec_parse(c@, next, Seq::empty(), ctx),
                                        spec_parse(c@, 0, Seq::empty(), ctx),
                                        spec_parse(c@, i as int, plain0, ctx),
                                    );
                                }
                                i = ci + close_len;
                                continue;
                            },
                            None => {},
                        }
                    },
                    None => {
                        let url_tag = chars_of("url=");
                        let link_tag = chars_of("link url=");
                        if starts_with(tag.as_str(), "url=") {
                            let close_len = chars_of("[/url]").len();
                            if let Some(ci) = find_str(c, "[/url]", end + 1) {
                                proof {
                                    lemma_find_str_range(c@, "[/url]"@, end + 1);
                                }
                                let url = string_of(&c[i + 1 + url_tag.len()..end]);
                                assert(url@ =~= tag@.skip("url="@.len() as int));
                                let inner = &c[end + 1..ci];
                                assert(inner@ == c@.subrange(end + 1, ci as int));
                                let children = parse_parts(inner, forum, board_id, slug, mapping);
                                let part = PostPart::Link { url, children };
                                let ghost out0 = out@;
                                let ghost plain0 = plain@;
                                let ghost x = seq![part_view(part)];
                                emit(&mut out, plain, part);
                                plain = String::new();
                                proof {
                                    let next = (ci + close_len) as int;
                                    lemma_emit_keeps(
                                        parts_view(out0),
                                        plain0,
                                        x,
                                        spec_parse(c@, next, Seq::empty(), ctx),
                                        spec_parse(c@, 0, Seq::empty(), ctx),
                                        spec_parse(c@, i as int, plain0, ctx),
                                    );
                                }
                                i = ci + close_len;
                                continue;
                            }
                        } else if starts_with(tag.as_str(), "link url=") {
                            let close_len = chars_of("[/link]").len();
                            if let Some(ci) = find_str(c, "[/link]", end + 1) {
                                proof {
                                    lemma_find_str_range(c@, "[/link]"@, end + 1);
                                }
                                let url = string_of(&c[i + 1 + link_tag.len()..end]);
                                assert(url@ =~= tag@.skip("link url="@.len() as int));
                                let inner = &c[end + 1..ci];
                                assert(inner@ == c@.subrange(end + 1, ci as int));
                                let children = parse_parts(inner, forum, board_id, slug, mapping);
                                let part = PostPart::Link { url, children };
                                let ghost out0 = out@;
                                let ghost plain0 = plain@;
                                let ghost x = seq![part_view(part)];
                                emit(&mut out, plain, part);
                                plain = String::new();
                                proof {
                                    let next = (ci + close_len) as int;
                                    lemma_emit_keeps(
                                        parts_view(out0),
                                        plain0,
                                        x,
                                        spec_parse(c@, next, Seq::empty(), ctx),
                                        spec_parse(c@, 0, Seq::empty(), ctx),
                                        spec_parse(c@, i as int, plain0, ctx),
                                    );
                                }
                                i = ci + close_len;
                                continue;
                            }
                        }
                    },
                }
            }
        }
        let ghost plain0 = plain@;
        push_char(&mut plain, c[i]);
        proof {
            assert(spec_parse(c@, i as int, plain0, ctx) == spec_parse(
                c@,
                i + 1,
                plain0.push(c@[i as int]),
                ctx,
            ));
        }
        i = i + 1;
    }
    flush_into(&mut out, plain);
    out
}

} // verus!

verus! {

/// The parts of a post's BBCode text.
pub fn bbcode_to_parts(
    text: &str,
    forum: Address,
    board_id: Address,
    slug: &str,
    mapping: &HashMap<u64, Mapping>,
) -> (r: Vec<PostPart>)
    ensures
        parts_view(r@) == spec_parse(
            text@,
            0,
            Seq::empty(),
            ParseContext { forum, board_id, slug: slug@, mapping: mapping@ },
        ),
{
    let chars = chars_of(text);
    parse_parts(chars.as_slice(), forum, board_id, slug, mapping)
}

/// `s` with every `\r\n` replaced by `\n`, scanning from the left.
pub open spec fn crlf_to_lf(s: Seq<char>) -> Seq<char>
    decreases s.len(),
{
    if s.len() == 0 {
        s
    } else if s.len() >= 2 && s[0] == '\r' && s[1] == '\n' {
        seq!['\n'] + crlf_to_lf(s.skip(2))
    } else {
        seq![s[0]] + crlf_to_lf(s.skip(1))
    }
}

/// `s` with every `\r` replaced by `\n`.
pub open spec fn cr_to_lf(s: Seq<char>) -> Seq<char> {
    s.map_values(|ch: char| if ch == '\r' { '\n' } else { ch })
}

proof fn lemma_crlf_step(s: Seq<char>, i: int, k: int)
    requires
        0 <= i <= s.len(),
        k == 1 || k == 2,
        i + k <= s.len(),
    ensures
        s.skip(i).skip(k) == s.skip(i + k),
{
    assert(s.skip(i).skip(k) =~= s.skip(i + k));
}

/// Unifies line endings: `\r\n` and then lone `\r` become `\n`.
pub fn normalize_newlines(text: &str) -> (r: String)
    ensures
        r@ == cr_to_lf(crlf_to_lf(text@)),
{
    let c = chars_of(text);
    let n = c.len();
    let mut out = String::new();
    let mut i: usize = 0;
    assert(c@.skip(0) =~= c@);
    while i < n
        invariant
            n == c@.len(),
            i <= n,
            c@ == text@,
            out@ + cr_to_lf(crlf_to_lf(c@.skip(i as int))) == cr_to_lf(crlf_to_lf(c@)),
        decreases n - i,
    {
        let ghost rest = c@.skip(i as int);
        let ghost out0 = out@;
        if c[i] == '\r' && i + 1 < n && c[i + 1] == '\n' {
            push_char(&mut out, '\n');
            proof {
                lemma_crlf_step(c@, i as int, 2);
                assert(crlf_to_lf(rest) == seq!['\n'] + crlf_to_lf(rest.skip(2)));
                assert(cr_to_lf(seq!['\n'] + crlf_to_lf(rest.skip(2))) =~= seq!['\n'] + cr_to_lf(
                    crlf_to_lf(rest.skip(2)),
                ));
                assert(out0 + (seq!['\n'] + cr_to_lf(crlf_to_lf(rest.skip(2)))) =~= out@ + cr_to_lf(
                    crlf_to_lf(rest.skip(2)),
                ));
            }
            i = i + 2;
        } else {
            let ch = if c[i] == '\r' {
                '\n'
            } else {
                c[i]
            };
            push_char(&mut out, ch);
            proof {
                lemma_crlf_step(c@, i as int, 1);
                assert(crlf_to_lf(rest) == seq![rest[0]] + crlf_to_lf(rest.skip(1)));
                assert(cr_to_lf(seq![rest[0]] + crlf_to_lf(rest.skip(1))) =~= seq![ch] + cr_to_lf(
                    crlf_to_lf(rest.skip(1)),
                ));
                assert(out0 + (seq![ch] + cr_to_lf(crlf_to_lf(rest.skip(1)))) =~= out@ + cr_to_lf(
                    crlf_to_lf(rest.skip(1)),
                ));
            }
            i = i + 1;
        }
    }
    proof {
        assert(c@.skip(i as int) =~= Seq::<char>::empty());
        assert(cr_to_lf(Seq::<char>::empty()) =~= Seq::<char>::empty());
        assert(out@ + Seq::<char>::empty() =~= out@);
    }
    out
}

} // verus!
