use vstd::prelude::*;

use crate::bbcode::addr_eq;
use crate::codec::{address_text, address_to_string};
use crate::error::{error_message, RelayError};
use crate::intent::Address;
use crate::moderation::{le_bytes, le_bytes_of};
use crate::sui::{child_id_u64_key, dynamic_child_id};
use crate::text::{decimal_chars, push_decimal, push_text};

verus! {

/// How many threads a board page lists besides the pinned ones.
pub const PAGE_THREADS: usize = 20;

/// How many entries of the bump feed are read at a time.
pub const BUMP_CHUNK: u64 = 500;

/// Whether a sequence holds no address twice.
pub open spec fn distinct(s: Seq<Address>) -> bool {
    forall|i: int, j: int| 0 <= i < j < s.len() ==> s[i] != s[j]
}

/// The threads chosen so far for a board page, and the feed position below
/// which the bump feed is still to be read (counters `1..next`).
#[derive(Debug, Clone)]
pub struct PageSelection {
    pub threads: Vec<Address>,
    pub next: u64,
}

/// The addresses of `s` in order, each kept only at its first occurrence.
pub open spec fn dedup(s: Seq<Address>) -> Seq<Address>
    decreases s.len(),
{
    if s.len() == 0 {
        Seq::empty()
    } else {
        let d = dedup(s.drop_last());
        if d.contains(s.last()) {
            d
        } else {
            d.push(s.last())
        }
    }
}

/// Where a page starts reading the bump feed: at the cursor, but never past
/// the feed's end.
pub open spec fn page_end(cursor: Option<u64>, counter: u64) -> int {
    match cursor {
        Some(c) => if c > counter + 1 {
            counter + 1
        } else {
            c as int
        },
        None => counter + 1,
    }
}

fn contains_addr(s: &Vec<Address>, a: &Address) -> (r: bool)
    ensures
        r == s@.contains(*a),
{
    let mut i: usize = 0;
    while i < s.len()
        invariant
            i <= s@.len(),
            forall|j: int| 0 <= j < i ==> s@[j] != *a,
        decreases s.len() - i,
    {
        if addr_eq(&s[i], a) {
            assert(s@[i as int] == *a);
            return true;
        }
        i = i + 1;
    }
    false
}

proof fn lemma_dedup_distinct(s: Seq<Address>)
    ensures
        distinct(dedup(s)),
        forall|x: Address| dedup(s).contains(x) <==> s.contains(x),
    decreases s.len(),
{
    if s.len() > 0 {
        let d = dedup(s.drop_last());
        let l = s.last();
        lemma_dedup_distinct(s.drop_last());
        assert forall|x: Address| dedup(s).contains(x) <==> s.contains(x) by {
            if x == l {
                assert(s[s.len() - 1] == x);
                if !d.contains(x) {
                    assert(d.push(l)[d.len() as int] == x);
                }
            } else {
                if s.contains(x) {
                    let k = choose|k: int| 0 <= k < s.len() && s[k] == x;
                    assert(s.drop_last()[k] == x);
                }
                if s.drop_last().contains(x) {
                    let k = choose|k: int| 0 <= k < s.drop_last().len() && s.drop_last()[k] == x;
                    assert(s[k] == x);
                }
                if d.push(l).contains(x) {
                    let k = choose|k: int| 0 <= k < d.push(l).len() && d.push(l)[k] == x;
                    assert(d[k] == x);
                }
                if d.contains(x) {
                    let k = choose|k: int| 0 <= k < d.len() && d[k] == x;
                    assert(d.push(l)[k] == x);
                }
            }
        }
        if !d.contains(l) {
            assert forall|i: int, j: int| 0 <= i < j < d.push(l).len() implies d.push(l)[i]
                != d.push(l)[j] by {
                if j == d.len() {
                    assert(d.push(l)[i] == d[i]);
                }
            }
        }
    }
}

/// Starts a board page: the pinned threads first, each once.
pub fn page_start(pinned: &[Address], cursor: Option<u64>, counter: u64) -> (r: PageSelection)
    requires
        counter < u64::MAX,
    ensures
        r.threads@ == dedup(pinned@),
        r.next == page_end(cursor, counter),
        distinct(r.threads@),
{
    let end = match cursor {
        Some(c) => if c > counter + 1 {
            counter + 1
        } else {
            c
        },
        None => counter + 1,
    };
    let mut threads: Vec<Address> = Vec::new();
    let mut i: usize = 0;
    while i < pinned.len()
        invariant
            i <= pinned@.len(),
            threads@ == dedup(pinned@.take(i as int)),
        decreases pinned.len() - i,
    {
        assert(pinned@.take(i + 1).drop_last() =~= pinned@.take(i as int));
        if !contains_addr(&threads, &pinned[i]) {
            threads.push(pinned[i]);
        }
        i = i + 1;
    }
    assert(pinned@.take(i as int) =~= pinned@);
    proof {
        lemma_dedup_distinct(pinned@);
    }
    PageSelection { threads, next: end }
}

/// Opens a page of a loaded board: a deleted board is not found; any other
/// board starts its page as `page_start` does.
pub fn open_page(deleted: bool, pinned: &[Address], cursor: Option<u64>, counter: u64) -> (r: Result<
    PageSelection,
    RelayError,
>)
    requires
        counter < u64::MAX,
    ensures
        deleted ==> r is Err && r->Err_0 is NotFound && error_message(r->Err_0) == "board deleted"@,
        !deleted ==> r is Ok,
        r matches Ok(sel) ==> sel.threads@ == dedup(pinned@) && sel.next == page_end(cursor, counter)
            && distinct(sel.threads@),
{
    if deleted {
        return Err(RelayError::NotFound("board deleted".to_string()));
    }
    Ok(page_start(pinned, cursor, counter))
}

/// The part of the bump feed to read next, as counters `start..end`; `None`
/// once the page is full or the feed is exhausted.
pub open spec fn spec_next_chunk(threads_len: nat, next: u64) -> Option<(u64, u64)> {
    if threads_len < PAGE_THREADS && next > 1 {
        Some(
            (
                if next > BUMP_CHUNK {
                    (next - BUMP_CHUNK) as u64
                } else {
                    1
                },
                next,
            ),
        )
    } else {
        None
    }
}

pub fn next_chunk(sel: &PageSelection) -> (r: Option<(u64, u64)>)
    ensures
        r == spec_next_chunk(sel.threads@.len(), sel.next),
{
    if sel.threads.len() < PAGE_THREADS && sel.next > 1 {
        let start = if sel.next > BUMP_CHUNK {
            sel.next - BUMP_CHUNK
        } else {
            1
        };
        Some((start, sel.next))
    } else {
        None
    }
}

/// Takes the threads of a chunk of the bump feed, most recently bumped
/// first, skipping those already chosen, until the page is full; gives the
/// threads chosen and the counter of the entry that filled the page.
pub open spec fn absorb(threads: Seq<Address>, addrs: Seq<Address>, start: int) -> (Seq<Address>, Option<int>)
    decreases addrs.len(),
{
    if addrs.len() == 0 {
        (threads, None)
    } else {
        let a = addrs.last();
        if threads.contains(a) {
            absorb(threads, addrs.drop_last(), start)
        } else if threads.len() + 1 >= PAGE_THREADS {
            (threads.push(a), Some(start + addrs.len() - 1))
        } else {
            absorb(threads.push(a), addrs.drop_last(), start)
        }
    }
}

proof fn lemma_absorb_distinct(threads: Seq<Address>, addrs: Seq<Address>, start: int)
    requires
        distinct(threads),
    ensures
        distinct(absorb(threads, addrs, start).0),
        absorb(threads, addrs, start).1 matches Some(k) ==> start <= k < start + addrs.len(),
    decreases addrs.len(),
{
    if addrs.len() > 0 {
        let a = addrs.last();
        if !threads.contains(a) {
            assert(distinct(threads.push(a))) by {
                assert forall|i: int, j: int| 0 <= i < j < threads.push(a).len() implies threads.push(a)[i]
                    != threads.push(a)[j] by {
                    if j == threads.len() {
                        assert(threads.push(a)[i] == threads[i]);
                    }
                }
            }
            lemma_absorb_distinct(threads.push(a), addrs.drop_last(), start);
        } else {
            lemma_absorb_distinct(threads, addrs.drop_last(), start);
        }
    }
}

/// Reading more of the bump feed only appends: the threads already chosen
/// (the pinned ones first) keep their places.
pub proof fn lemma_absorb_keeps_prefix(threads: Seq<Address>, addrs: Seq<Address>, start: int)
    ensures
        absorb(threads, addrs, start).0.len() >= threads.len(),
        absorb(threads, addrs, start).0.subrange(0, threads.len() as int) == threads,
    decreases addrs.len(),
{
    if addrs.len() > 0 {
        let a = addrs.last();
        if threads.contains(a) {
            lemma_absorb_keeps_prefix(threads, addrs.drop_last(), start);
        } else if threads.len() + 1 >= PAGE_THREADS {
            assert(threads.push(a).subrange(0, threads.len() as int) =~= threads);
        } else {
            lemma_absorb_keeps_prefix(threads.push(a), addrs.drop_last(), start);
            let r = absorb(threads.push(a), addrs.drop_last(), start).0;
            assert(r.subrange(0, threads.len() as int) =~= r.subrange(0, threads.len() + 1int).subrange(
                0,
                threads.len() as int,
            ));
            assert(threads.push(a).subrange(0, threads.len() as int) =~= threads);
        }
    } else {
        assert(threads.subrange(0, threads.len() as int) =~= threads);
    }
}

/// Adds the threads of a chunk `chunk_start..sel.next` of the bump feed
/// (`addrs` in feed order) to the page, and moves the position to the entry
/// that filled the page, or else to the chunk's start.
pub fn absorb_chunk(sel: &mut PageSelection, chunk_start: u64, addrs: &[Address])
    requires
        distinct(old(sel).threads@),
        old(sel).threads@.len() < PAGE_THREADS,
        chunk_start as int + addrs@.len() <= u64::MAX,
    ensures
        final(sel).threads@ == absorb(old(sel).threads@, addrs@, chunk_start as int).0,
        final(sel).next == match absorb(old(sel).threads@, addrs@, chunk_start as int).1 {
            Some(k) => k,
            None => chunk_start as int,
        },
        distinct(final(sel).threads@),
{
    proof {
        lemma_absorb_distinct(old(sel).threads@, addrs@, chunk_start as int);
    }
    let ghost t0 = sel.threads@;
    let mut k: usize = addrs.len();
    let mut stop: Option<u64> = None;
    assert(addrs@.take(k as int) =~= addrs@);
    while k > 0
        invariant_except_break
            k <= addrs@.len(),
            stop is None,
            sel.threads@.len() < PAGE_THREADS,
            absorb(sel.threads@, addrs@.take(k as int), chunk_start as int) == absorb(
                t0,
                addrs@,
                chunk_start as int,
            ),
        invariant
            chunk_start as int + addrs@.len() <= u64::MAX,
        ensures
            stop is None ==> sel.threads@ == absorb(t0, addrs@, chunk_start as int).0 && absorb(
                t0,
                addrs@,
                chunk_start as int,
            ).1 is None,
            stop matches Some(s) ==> sel.threads@ == absorb(t0, addrs@, chunk_start as int).0
                && absorb(t0, addrs@, chunk_start as int).1 == Some(s as int),
        decreases k,
    {
        let a = addrs[k - 1];
        assert(addrs@.take(k as int).drop_last() =~= addrs@.take(k - 1));
        assert(addrs@.take(k as int).last() == a);
        if !contains_addr(&sel.threads, &a) {
            sel.threads.push(a);
            if sel.threads.len() >= PAGE_THREADS {
                stop = Some(chunk_start + (k - 1) as u64);
                break;
            }
        }
        k = k - 1;
    }
    proof {
        if stop is None {
            assert(addrs@.take(0) =~= Seq::<Address>::empty());
        }
    }
    sel.next = match stop {
        Some(s) => s,
        None => chunk_start,
    };
}

/// The cursor of the next page: the feed position reached, unless the feed
/// is exhausted.
pub fn next_cursor(next: u64) -> (r: Option<u64>)
    ensures
        r == (if next > 1 {
            Some(next)
        } else {
            None::<u64>
        }),
{
    if next > 1 {
        Some(next)
    } else {
        None
    }
}

/// `v:board:{board}:{posts}:{generation}:{cursor}`: the cache key of a board
/// page, which changes with every post and every reaction in the board.
pub open spec fn board_page_key(board: Address, posts: u64, generation: u64, cursor: u64) -> Seq<char> {
    "v:board:"@ + address_text(board@) + ":"@ + decimal_chars(posts as nat) + ":"@
        + decimal_chars(generation as nat) + ":"@ + decimal_chars(cursor as nat)
}

pub fn page_key(board: &Address, posts: u64, generation: u64, cursor: Option<u64>) -> (r: String)
    ensures
        r@ == board_page_key(
            *board,
            posts,
            generation,
            match cursor {
                Some(c) => c,
                None => 0,
            },
        ),
{
    let mut s = "v:board:".to_string();
    let a = address_to_string(board);
    push_text(&mut s, a.as_str());
    push_text(&mut s, ":");
    push_decimal(&mut s, posts);
    push_text(&mut s, ":");
    push_decimal(&mut s, generation);
    push_text(&mut s, ":");
    push_decimal(
        &mut s,
        match cursor {
            Some(c) => c,
            None => 0,
        },
    );
    s
}

/// `v:resolvethread:{board}:{number}` or `v:resolvepost:{board}:{number}`:
/// the cache key of the object a board's thread or post number resolves to.
pub open spec fn spec_resolve_key(thread: bool, board: Address, number: u64) -> Seq<char> {
    (if thread {
        "v:resolvethread:"@
    } else {
        "v:resolvepost:"@
    }) + address_text(board@) + ":"@ + decimal_chars(number as nat)
}

pub fn resolve_key(thread: bool, board: &Address, number: u64) -> (r: String)
    ensures
        r@ == spec_resolve_key(thread, *board, number),
{
    let mut s = if thread {
        "v:resolvethread:".to_string()
    } else {
        "v:resolvepost:".to_string()
    };
    let a = address_to_string(board);
    push_text(&mut s, a.as_str());
    push_text(&mut s, ":");
    push_decimal(&mut s, number);
    s
}

/// The id of the entry for key `number` of a table keyed by numbers (a
/// board's threads or posts by number, a ban registry's entries).
pub fn table_entry_id(table: &Address, number: u64) -> (r: Address)
    ensures
        r@ == dynamic_child_id(table@, "u64"@, le_bytes(number as nat)),
{
    let key = le_bytes_of(number);
    child_id_u64_key(table, key.as_slice())
}

} // verus!
