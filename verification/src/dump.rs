//! Board dumps of the old backend in CSV form: one row per post, each row
//! naming its board by slug. The rows are grouped into boards in the order
//! in which their slugs first appear.
use vstd::prelude::*;

use crate::error::{error_message, RelayError};
use crate::migrate::{
    csv_bool, csv_num, csv_opt, dump_timestamp_ms, json_blank, spec_csv_num, spec_csv_opt,
    spec_json_blank, truthy,
};
use crate::replay::{texts, DumpReaction, DumpVote};
use crate::text::{has_prefix, push_text, str_eq, trim, trim_text};

verus! {

/// The header row and the records of a CSV text, read with records of any
/// length, when the text reads as CSV.
pub uninterp spec fn csv_table(raw: Seq<u8>) -> Option<(Seq<Seq<char>>, Seq<Seq<Seq<char>>>)>;

/// The strings of a JSON array of strings, when the text is one.
pub uninterp spec fn json_string_list(text: Seq<char>) -> Option<Seq<Seq<char>>>;

/// The elements of a JSON array, each as its member named `member` where
/// that is a string and as itself where it is a string, when the text is an
/// array.
pub uninterp spec fn json_file_entries(text: Seq<char>, member: Seq<char>) -> Option<
    Seq<(Option<Seq<char>>, Option<Seq<char>>)>,
>;

/// Where reading CSV stopped: at the header row or at a record, with the
/// reader's reason.
pub enum CsvFault {
    Headers(String),
    Record(String),
}

/// Records by their contents.
pub open spec fn rows_view(rs: Seq<Vec<String>>) -> Seq<Seq<Seq<char>>> {
    rs.map_values(|r: Vec<String>| texts(r@))
}

/// An optional text by its contents.
pub open spec fn opt_text(o: Option<String>) -> Option<Seq<char>> {
    match o {
        Some(s) => Some(s@),
        None => None,
    }
}

/// An optional borrowed text by its contents.
pub open spec fn opt_str(o: Option<&str>) -> Option<Seq<char>> {
    match o {
        Some(s) => Some(s@),
        None => None,
    }
}

/// Element pairs of a JSON array by their contents.
pub open spec fn entries_view(v: Seq<(Option<String>, Option<String>)>) -> Seq<
    (Option<Seq<char>>, Option<Seq<char>>),
> {
    v.map_values(|e: (Option<String>, Option<String>)| (opt_text(e.0), opt_text(e.1)))
}

/// `csv::ReaderBuilder::new().flexible(true).from_reader(raw)`, then its
/// `headers()` and all its `records()`, each field as a string. Reading
/// depends on the bytes alone; it fails on the header row or on the first
/// record that does not read.
#[verifier::external_body]
fn csv_read(raw: &[u8]) -> (r: Result<(Vec<String>, Vec<Vec<String>>), CsvFault>)
    ensures
        r is Ok <==> csv_table(raw@) is Some,
        r matches Ok((h, rs)) ==> csv_table(raw@) == Some((texts(h@), rows_view(rs@))),
{
    let mut rdr = csv::ReaderBuilder::new().flexible(true).from_reader(raw);
    let headers: Vec<String> = match rdr.headers() {
        Ok(h) => h.iter().map(String::from).collect(),
        Err(e) => return Err(CsvFault::Headers(e.to_string())),
    };
    match rdr.records().map(|r| r.map(|x| x.iter().map(String::from).collect())).collect() {
        Ok(rows) => Ok((headers, rows)),
        Err(e) => Err(CsvFault::Record(e.to_string())),
    }
}

/// `serde_json::from_str::<Vec<String>>`.
#[verifier::external_body]
fn json_strings_parse(text: &str) -> (r: Option<Vec<String>>)
    ensures
        r is Some <==> json_string_list(text@) is Some,
        r matches Some(v) ==> json_string_list(text@) == Some(texts(v@)),
{
    serde_json::from_str::<Vec<String>>(text).ok()
}

/// `serde_json::from_str::<Vec<serde_json::Value>>`, each element taken as
/// the string of its member `member` (`Value::get`, `Value::as_str`) and as
/// its own string (`Value::as_str`).
#[verifier::external_body]
fn json_values_parse(text: &str, member: &str) -> (r: Option<Vec<(Option<String>, Option<String>)>>)
    ensures
        r is Some <==> json_file_entries(text@, member@) is Some,
        r matches Some(v) ==> json_file_entries(text@, member@) == Some(entries_view(v@)),
{
    let items = serde_json::from_str::<Vec<serde_json::Value>>(text).ok()?;
    Some(
        items.iter().map(
            |el| (el.get(member).and_then(|m| m.as_str()).map(String::from), el.as_str().map(String::from)),
        ).collect(),
    )
}

} // verus!

verus! {

/// A file of a dumped post, known by its MD5.
pub struct DumpFile {
    pub md5: String,
}

/// A post of a dump, as the import reads it.
pub struct DumpPost {
    pub num: u64,
    pub parent: u64,
    pub op: bool,
    pub timestamp_ms: u64,
    pub subject: Option<String>,
    pub comment: Option<String>,
    pub menu: Option<String>,
    pub answers: Vec<String>,
    pub trip_plain: Option<String>,
    pub ip: Option<String>,
    pub ip_country_code: Option<String>,
    pub force_geo: bool,
    pub sticky: bool,
    pub closed: bool,
    pub deleted: bool,
    pub enable_multiple_votes: bool,
    pub files: Vec<DumpFile>,
    pub reactions: Vec<DumpReaction>,
    pub poll_votes: Vec<DumpVote>,
}

/// A board of a dump and its posts.
pub struct DumpBoard {
    pub slug: String,
    pub max_media: u64,
    pub bump_limit: u64,
    pub description: Option<String>,
    pub posts: Vec<DumpPost>,
}

/// The header names of a dump: the header row, each name trimmed.
pub open spec fn header_names(hs: Seq<Seq<char>>) -> Seq<Seq<char>> {
    hs.map_values(|h: Seq<char>| trim(h))
}

/// The first column whose header is `name`.
pub open spec fn header_pos(hs: Seq<Seq<char>>, name: Seq<char>) -> Option<int>
    decreases hs.len(),
{
    if hs.len() == 0 {
        None
    } else {
        match header_pos(hs.drop_last(), name) {
            Some(i) => Some(i),
            None => if hs.last() == name {
                Some(hs.len() - 1)
            } else {
                None
            },
        }
    }
}

/// The cell of a row under the first column named `name`; `None` when no
/// column has that name or the row is shorter.
pub open spec fn spec_cell(hs: Seq<Seq<char>>, row: Seq<Seq<char>>, name: Seq<char>) -> Option<
    Seq<char>,
> {
    match header_pos(hs, name) {
        Some(i) => if i < row.len() {
            Some(row[i])
        } else {
            None
        },
        None => None,
    }
}

/// Whether the cell named `name` holds a true flag.
pub open spec fn cell_true(hs: Seq<Seq<char>>, row: Seq<Seq<char>>, name: Seq<char>) -> bool {
    spec_cell(hs, row, name) matches Some(s) && truthy(s)
}

/// A text cell, trimmed, or empty when missing.
pub open spec fn cell_text(v: Option<Seq<char>>) -> Seq<char> {
    trim(
        match v {
            Some(s) => s,
            None => Seq::empty(),
        },
    )
}

/// The strings of a cell holding a JSON array of strings; none when the
/// cell is blank, `null` or not such an array.
pub open spec fn spec_json_strings(v: Option<Seq<char>>) -> Seq<Seq<char>> {
    if spec_json_blank(v) {
        Seq::empty()
    } else {
        match json_string_list(cell_text(v)) {
            Some(l) => l,
            None => Seq::empty(),
        }
    }
}

/// The MD5s of the files a JSON array lists: an element's `md5` member, or
/// the element itself when it is a string; other elements are skipped.
pub open spec fn file_md5s(es: Seq<(Option<Seq<char>>, Option<Seq<char>>)>) -> Seq<Seq<char>>
    decreases es.len(),
{
    if es.len() == 0 {
        Seq::empty()
    } else {
        let prev = file_md5s(es.drop_last());
        match es.last() {
            (Some(m), _) => prev.push(m),
            (None, Some(s)) => prev.push(s),
            (None, None) => prev,
        }
    }
}

/// The files of a cell holding a JSON array; none when the cell is blank,
/// `null` or not an array.
pub open spec fn spec_json_files(v: Option<Seq<char>>) -> Seq<Seq<char>> {
    if spec_json_blank(v) {
        Seq::empty()
    } else {
        match json_file_entries(cell_text(v), "md5"@) {
            Some(es) => file_md5s(es),
            None => Seq::empty(),
        }
    }
}

/// Seconds as milliseconds, the largest number when they do not fit.
pub open spec fn millis(secs: u64) -> u64 {
    if secs * 1000 <= u64::MAX {
        (secs * 1000) as u64
    } else {
        u64::MAX
    }
}

/// A post is deleted when any deletion column of its row says so.
pub open spec fn row_deleted(hs: Seq<Seq<char>>, row: Seq<Seq<char>>) -> bool {
    ||| cell_true(hs, row, "deleted"@)
    ||| cell_true(hs, row, "deleted_by_thread_deletion"@)
    ||| cell_true(hs, row, "deleted_by_board_deletion"@)
    ||| cell_true(hs, row, "deleted_by_endless_excess"@)
    ||| cell_true(hs, row, "deleted_by_delall"@)
    ||| cell_true(hs, row, "deleted_by_owner"@)
    ||| cell_true(hs, row, "deleted_by_op"@)
    ||| cell_true(hs, row, "deleted_by_autodeletion"@)
}

/// The post that a row of a dump describes, under trimmed header names `hs`.
pub open spec fn post_of_row(p: DumpPost, hs: Seq<Seq<char>>, row: Seq<Seq<char>>) -> bool {
    &&& p.num == spec_csv_num(spec_cell(hs, row, "num"@))
    &&& p.parent == spec_csv_num(spec_cell(hs, row, "parent"@))
    &&& p.op == cell_true(hs, row, "op"@)
    &&& p.timestamp_ms == millis(spec_csv_num(spec_cell(hs, row, "timestamp"@)))
    &&& opt_text(p.subject) == spec_csv_opt(spec_cell(hs, row, "subject"@))
    &&& opt_text(p.comment) == spec_csv_opt(spec_cell(hs, row, "comment"@))
    &&& opt_text(p.menu) == spec_csv_opt(spec_cell(hs, row, "menu"@))
    &&& texts(p.answers@) == spec_json_strings(spec_cell(hs, row, "answers"@))
    &&& opt_text(p.trip_plain) == spec_csv_opt(spec_cell(hs, row, "trip_plain"@))
    &&& opt_text(p.ip) == spec_csv_opt(spec_cell(hs, row, "ip"@))
    &&& opt_text(p.ip_country_code) == spec_csv_opt(spec_cell(hs, row, "ip_country_code"@))
    &&& p.force_geo == cell_true(hs, row, "force_geo"@)
    &&& p.sticky == cell_true(hs, row, "sticky"@)
    &&& p.closed == cell_true(hs, row, "closed"@)
    &&& p.deleted == row_deleted(hs, row)
    &&& p.enable_multiple_votes == cell_true(hs, row, "enable_multiple_votes"@)
    &&& p.files@.map_values(|f: DumpFile| f.md5@) == spec_json_files(spec_cell(hs, row, "files"@))
    &&& p.reactions@.len() == 0
    &&& p.poll_votes@.len() == 0
}

/// The board slug of a row: its trimmed `board` cell.
pub open spec fn row_slug(hs: Seq<Seq<char>>, row: Seq<Seq<char>>) -> Seq<char> {
    cell_text(spec_cell(hs, row, "board"@))
}

/// The boards of a dump: the non-empty slugs of its rows, each once, in the
/// order in which they first appear.
pub open spec fn dump_slugs(hs: Seq<Seq<char>>, rows: Seq<Seq<Seq<char>>>) -> Seq<Seq<char>>
    decreases rows.len(),
{
    if rows.len() == 0 {
        Seq::empty()
    } else {
        let prev = dump_slugs(hs, rows.drop_last());
        let s = row_slug(hs, rows.last());
        if s.len() == 0 || prev.contains(s) {
            prev
        } else {
            prev.push(s)
        }
    }
}

/// The rows of a dump that belong to the board `slug`, in order.
pub open spec fn slug_rows(hs: Seq<Seq<char>>, rows: Seq<Seq<Seq<char>>>, slug: Seq<char>) -> Seq<
    Seq<Seq<char>>,
>
    decreases rows.len(),
{
    if rows.len() == 0 {
        Seq::empty()
    } else {
        let prev = slug_rows(hs, rows.drop_last(), slug);
        if row_slug(hs, rows.last()) == slug {
            prev.push(rows.last())
        } else {
            prev
        }
    }
}

/// The boards a dump's header row `headers` and rows give: one per slug of
/// `dump_slugs`, with no board settings, holding the posts of its rows.
pub open spec fn boards_of_rows(
    bs: Seq<DumpBoard>,
    headers: Seq<Seq<char>>,
    rows: Seq<Seq<Seq<char>>>,
) -> bool {
    let hs = header_names(headers);
    let slugs = dump_slugs(hs, rows);
    &&& bs.len() == slugs.len()
    &&& forall|b: int|
        0 <= b < bs.len() ==> {
            let mine = slug_rows(hs, rows, slugs[b]);
            &&& (#[trigger] bs[b]).slug@ == slugs[b]
            &&& bs[b].max_media == 0
            &&& bs[b].bump_limit == 0
            &&& bs[b].description is None
            &&& bs[b].posts@.len() == mine.len()
            &&& forall|k: int| 0 <= k < mine.len() ==> post_of_row(bs[b].posts@[k], hs, mine[k])
        }
}

fn cell<'a>(hs: &[String], row: &'a [String], name: &str) -> (r: Option<&'a str>)
    ensures
        opt_str(r) == spec_cell(texts(hs@), texts(row@), name@),
{
    let ghost h = texts(hs@);
    let mut i: usize = 0;
    while i < hs.len()
        invariant
            i <= hs@.len(),
            h == texts(hs@),
            header_pos(h.take(i as int), name@) is None,
        decreases hs@.len() - i,
    {
        assert(h.take(i as int + 1).drop_last() =~= h.take(i as int));
        if str_eq(hs[i].as_str(), name) {
            proof {
                lemma_header_pos_prefix(h, name@, i as int + 1);
            }
            if i < row.len() {
                return Some(row[i].as_str());
            } else {
                return None;
            }
        }
        i = i + 1;
    }
    assert(h.take(i as int) =~= h);
    None
}

/// A column found in a prefix of the header row is found there in the whole row.
proof fn lemma_header_pos_prefix(h: Seq<Seq<char>>, name: Seq<char>, n: int)
    requires
        0 <= n <= h.len(),
        header_pos(h.take(n), name) is Some,
    ensures
        header_pos(h, name) == header_pos(h.take(n), name),
    decreases h.len() - n,
{
    if n < h.len() {
        assert(h.take(n + 1).drop_last() =~= h.take(n));
        lemma_header_pos_prefix(h, name, n + 1);
    } else {
        assert(h.take(n) =~= h);
    }
}

fn cell_json_strings(v: Option<&str>) -> (r: Vec<String>)
    ensures
        texts(r@) == spec_json_strings(opt_str(v)),
{
    if json_blank(v) {
        return Vec::new();
    }
    let t = match v {
        Some(s) => trim_text(s),
        None => trim_text(""),
    };
    proof {
        reveal_strlit("");
        assert(t@ == cell_text(opt_str(v)));
    }
    match json_strings_parse(t.as_str()) {
        Some(l) => l,
        None => Vec::new(),
    }
}

fn cell_json_files(v: Option<&str>) -> (r: Vec<DumpFile>)
    ensures
        r@.map_values(|f: DumpFile| f.md5@) == spec_json_files(opt_str(v)),
{
    if json_blank(v) {
        let r: Vec<DumpFile> = Vec::new();
        assert(r@.map_values(|f: DumpFile| f.md5@) =~= Seq::<Seq<char>>::empty());
        return r;
    }
    let t = match v {
        Some(s) => trim_text(s),
        None => trim_text(""),
    };
    proof {
        reveal_strlit("");
        assert(t@ == cell_text(opt_str(v)));
    }
    let entries = match json_values_parse(t.as_str(), "md5") {
        Some(es) => es,
        None => {
            let r: Vec<DumpFile> = Vec::new();
            assert(r@.map_values(|f: DumpFile| f.md5@) =~= Seq::<Seq<char>>::empty());
            return r;
        },
    };
    let ghost es = entries_view(entries@);
    let mut out: Vec<DumpFile> = Vec::new();
    let mut i: usize = 0;
    while i < entries.len()
        invariant
            i <= entries@.len(),
            es == entries_view(entries@),
            out@.map_values(|f: DumpFile| f.md5@) == file_md5s(es.take(i as int)),
        decreases entries@.len() - i,
    {
        assert(es.take(i as int + 1).drop_last() =~= es.take(i as int));
        let ghost before = out@;
        match &entries[i].0 {
            Some(m) => {
                out.push(DumpFile { md5: m.clone() });
                assert(out@.map_values(|f: DumpFile| f.md5@) =~= before.map_values(
                    |f: DumpFile| f.md5@,
                ).push(m@));
            },
            None => match &entries[i].1 {
                Some(s) => {
                    out.push(DumpFile { md5: s.clone() });
                    assert(out@.map_values(|f: DumpFile| f.md5@) =~= before.map_values(
                        |f: DumpFile| f.md5@,
                    ).push(s@));
                },
                None => {},
            },
        }
        i = i + 1;
    }
    assert(es.take(i as int) =~= es);
    out
}

/// The post that a row of a dump describes; `hs` holds the trimmed header
/// names.
pub fn dump_post(hs: &[String], row: &[String]) -> (r: DumpPost)
    ensures
        post_of_row(r, texts(hs@), texts(row@)),
{
    let deleted = csv_bool(cell(hs, row, "deleted")) || csv_bool(
        cell(hs, row, "deleted_by_thread_deletion"),
    ) || csv_bool(cell(hs, row, "deleted_by_board_deletion")) || csv_bool(
        cell(hs, row, "deleted_by_endless_excess"),
    ) || csv_bool(cell(hs, row, "deleted_by_delall")) || csv_bool(
        cell(hs, row, "deleted_by_owner"),
    ) || csv_bool(cell(hs, row, "deleted_by_op")) || csv_bool(
        cell(hs, row, "deleted_by_autodeletion"),
    );
    let reactions: Vec<DumpReaction> = Vec::new();
    let poll_votes: Vec<DumpVote> = Vec::new();
    DumpPost {
        num: csv_num(cell(hs, row, "num")),
        parent: csv_num(cell(hs, row, "parent")),
        op: csv_bool(cell(hs, row, "op")),
        timestamp_ms: dump_timestamp_ms(csv_num(cell(hs, row, "timestamp"))),
        subject: csv_opt(cell(hs, row, "subject")),
        comment: csv_opt(cell(hs, row, "comment")),
        menu: csv_opt(cell(hs, row, "menu")),
        answers: cell_json_strings(cell(hs, row, "answers")),
        trip_plain: csv_opt(cell(hs, row, "trip_plain")),
        ip: csv_opt(cell(hs, row, "ip")),
        ip_country_code: csv_opt(cell(hs, row, "ip_country_code")),
        force_geo: csv_bool(cell(hs, row, "force_geo")),
        sticky: csv_bool(cell(hs, row, "sticky")),
        closed: csv_bool(cell(hs, row, "closed")),
        deleted,
        enable_multiple_votes: csv_bool(cell(hs, row, "enable_multiple_votes")),
        files: cell_json_files(cell(hs, row, "files")),
        reactions,
        poll_votes,
    }
}

fn contains_text(v: &Vec<String>, t: &str) -> (r: bool)
    ensures
        r == texts(v@).contains(t@),
{
    let mut i: usize = 0;
    while i < v.len()
        invariant
            i <= v@.len(),
            forall|j: int| 0 <= j < i ==> v@[j]@ != t@,
        decreases v@.len() - i,
    {
        if str_eq(v[i].as_str(), t) {
            assert(texts(v@)[i as int] == t@);
            return true;
        }
        i = i + 1;
    }
    proof {
        if texts(v@).contains(t@) {
            let j = choose|j: int| 0 <= j < texts(v@).len() && texts(v@)[j] == t@;
            assert(v@[j]@ == t@);
        }
    }
    false
}

/// Groups the rows of a CSV dump into boards: rows with an empty `board`
/// cell are skipped, each other slug gets one board, in the order in which
/// it first appears, holding the posts of its rows in order.
pub fn dump_boards(headers: &[String], records: &[Vec<String>]) -> (r: Vec<DumpBoard>)
    ensures
        boards_of_rows(r@, texts(headers@), rows_view(records@)),
{
    let ghost rows = rows_view(records@);
    let mut hs: Vec<String> = Vec::new();
    let mut i: usize = 0;
    while i < headers.len()
        invariant
            i <= headers@.len(),
            texts(hs@) == header_names(texts(headers@)).take(i as int),
        decreases headers@.len() - i,
    {
        let t = trim_text(headers[i].as_str());
        let ghost before = hs@;
        hs.push(t);
        assert(texts(hs@) =~= texts(before).push(t@));
        assert(header_names(texts(headers@)).take(i as int + 1) =~= header_names(
            texts(headers@),
        ).take(i as int).push(t@));
        i = i + 1;
    }
    assert(header_names(texts(headers@)).take(i as int) =~= header_names(texts(headers@)));
    let ghost h = texts(hs@);
    let mut row_slugs: Vec<String> = Vec::new();
    let mut slugs: Vec<String> = Vec::new();
    let mut k: usize = 0;
    while k < records.len()
        invariant
            k <= records@.len(),
            h == texts(hs@),
            rows == rows_view(records@),
            row_slugs@.len() == k,
            forall|j: int| 0 <= j < k ==> (#[trigger] row_slugs@[j])@ == row_slug(h, rows[j]),
            texts(slugs@) == dump_slugs(h, rows.take(k as int)),
        decreases records@.len() - k,
    {
        let row = records[k].as_slice();
        assert(texts(row@) == rows[k as int]);
        let c = cell(hs.as_slice(), row, "board");
        let slug = match c {
            Some(x) => trim_text(x),
            None => trim_text(""),
        };
        proof {
            reveal_strlit("");
            assert(slug@ == row_slug(h, rows[k as int]));
            assert(rows.take(k as int + 1).drop_last() =~= rows.take(k as int));
        }
        if !slug.as_str().is_empty() && !contains_text(&slugs, slug.as_str()) {
            let ghost before = slugs@;
            slugs.push(slug.clone());
            assert(texts(slugs@) =~= texts(before).push(slug@));
        }
        row_slugs.push(slug);
        k = k + 1;
    }
    assert(rows.take(k as int) =~= rows);
    let ghost all = dump_slugs(h, rows);
    let mut boards: Vec<DumpBoard> = Vec::new();
    let mut b: usize = 0;
    while b < slugs.len()
        invariant
            b <= slugs@.len(),
            h == texts(hs@),
            h == header_names(texts(headers@)),
            rows == rows_view(records@),
            row_slugs@.len() == records@.len(),
            forall|j: int| 0 <= j < records@.len() ==> (#[trigger] row_slugs@[j])@ == row_slug(h, rows[j]),
            texts(slugs@) == all,
            all == dump_slugs(h, rows),
            boards@.len() == b,
            forall|x: int|
                0 <= x < b ==> {
                    let mine = slug_rows(h, rows, all[x]);
                    &&& (#[trigger] boards@[x]).slug@ == all[x]
                    &&& boards@[x].max_media == 0
                    &&& boards@[x].bump_limit == 0
                    &&& boards@[x].description is None
                    &&& boards@[x].posts@.len() == mine.len()
                    &&& forall|q: int|
                        0 <= q < mine.len() ==> post_of_row(boards@[x].posts@[q], h, mine[q])
                },
        decreases slugs@.len() - b,
    {
        let slug = slugs[b].as_str();
        assert(slug@ == all[b as int]);
        let mut posts: Vec<DumpPost> = Vec::new();
        let mut j: usize = 0;
        while j < records.len()
            invariant
                j <= records@.len(),
                h == texts(hs@),
                rows == rows_view(records@),
                row_slugs@.len() == records@.len(),
                forall|y: int| 0 <= y < records@.len() ==> (#[trigger] row_slugs@[y])@ == row_slug(h, rows[y]),
                posts@.len() == slug_rows(h, rows.take(j as int), slug@).len(),
                forall|q: int|
                    0 <= q < posts@.len() ==> post_of_row(
                        posts@[q],
                        h,
                        slug_rows(h, rows.take(j as int), slug@)[q],
                    ),
            decreases records@.len() - j,
        {
            proof {
                assert(rows.take(j as int + 1).drop_last() =~= rows.take(j as int));
                assert(rows.take(j as int + 1).last() == rows[j as int]);
            }
            if str_eq(row_slugs[j].as_str(), slug) {
                let row = records[j].as_slice();
                assert(texts(row@) == rows[j as int]);
                let p = dump_post(hs.as_slice(), row);
                posts.push(p);
            }
            j = j + 1;
        }
        assert(rows.take(j as int) =~= rows);
        boards.push(
            DumpBoard {
                slug: slugs[b].clone(),
                max_media: 0,
                bump_limit: 0,
                description: None,
                posts,
            },
        );
        b = b + 1;
    }
    boards
}

/// Reads a board dump in CSV form: its header row names the columns, and
/// each record is a post of the board its `board` cell names.
pub fn parse_csv_dump(raw: &[u8]) -> (r: Result<Vec<DumpBoard>, RelayError>)
    ensures
        r is Ok <==> csv_table(raw@) is Some,
        r matches Ok(bs) ==> boards_of_rows(bs@, csv_table(raw@)->Some_0.0, csv_table(raw@)->Some_0.1),
        r matches Err(e) ==> e is Internal && (has_prefix(error_message(e), "csv headers: "@)
            || has_prefix(error_message(e), "csv record: "@)),
{
    match csv_read(raw) {
        Ok((headers, records)) => Ok(dump_boards(headers.as_slice(), records.as_slice())),
        Err(CsvFault::Headers(e)) => {
            let mut msg = "csv headers: ".to_string();
            push_text(&mut msg, e.as_str());
            proof {
                reveal_strlit("csv headers: ");
                assert(msg@.take(13) =~= "csv headers: "@);
            }
            Err(RelayError::Internal(msg))
        },
        Err(CsvFault::Record(e)) => {
            let mut msg = "csv record: ".to_string();
            push_text(&mut msg, e.as_str());
            proof {
                reveal_strlit("csv record: ");
                assert(msg@.take(12) =~= "csv record: "@);
            }
            Err(RelayError::Internal(msg))
        },
    }
}

/// Law: every row with a non-empty slug has its board, each board once, and
/// every board is named by some row.
pub proof fn lemma_dump_slugs(hs: Seq<Seq<char>>, rows: Seq<Seq<Seq<char>>>)
    ensures
        dump_slugs(hs, rows).no_duplicates(),
        forall|i: int|
            0 <= i < rows.len() && row_slug(hs, rows[i]).len() > 0 ==> dump_slugs(hs, rows).contains(
                row_slug(hs, #[trigger] rows[i]),
            ),
        forall|b: int|
            0 <= b < dump_slugs(hs, rows).len() ==> (#[trigger] dump_slugs(hs, rows)[b]).len() > 0
                && exists|i: int| 0 <= i < rows.len() && row_slug(hs, rows[i]) == dump_slugs(hs, rows)[b],
    decreases rows.len(),
{
    if rows.len() > 0 {
        let prev = rows.drop_last();
        lemma_dump_slugs(hs, prev);
        let ps = dump_slugs(hs, prev);
        let s = row_slug(hs, rows.last());
        let cur = dump_slugs(hs, rows);
        assert forall|i: int|
            0 <= i < rows.len() && row_slug(hs, rows[i]).len() > 0 implies cur.contains(
                row_slug(hs, #[trigger] rows[i]),
            ) by {
            if i < rows.len() - 1 {
                assert(rows[i] == prev[i]);
                assert(ps.contains(row_slug(hs, prev[i])));
                if !(s.len() == 0 || ps.contains(s)) {
                    let w = choose|w: int| 0 <= w < ps.len() && ps[w] == row_slug(hs, prev[i]);
                    assert(cur[w] == ps[w]);
                }
            } else if !(s.len() == 0 || ps.contains(s)) {
                assert(cur[cur.len() - 1] == s);
            }
        }
        assert forall|b: int| 0 <= b < cur.len() implies (#[trigger] cur[b]).len() > 0 && exists|i: int|
            0 <= i < rows.len() && row_slug(hs, rows[i]) == cur[b] by {
            if b < ps.len() {
                assert(cur[b] == ps[b]);
                let i = choose|i: int| 0 <= i < prev.len() && row_slug(hs, prev[i]) == ps[b];
                assert(rows[i] == prev[i]);
            } else {
                assert(row_slug(hs, rows[rows.len() - 1]) == cur[b]);
            }
        }
    }
}

} // verus!
