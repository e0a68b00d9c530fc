//! The extraction pipeline: three independent passes over one materials page,
//! turning marked table rows into typed records.
//!
//! Assignment rows, document rows (files and links) and discussion rows are
//! extracted separately and concatenated in that order; within a pass the
//! records follow document order. Record ids come from a link target or an
//! element id with a fixed-length site prefix stripped; a missing due date
//! becomes a literal placeholder; bodies start empty and are filled by the
//! per-item enrichment fetch.

use vstd::prelude::*;
use vstd::string::{StrSliceExecFns, StringExecFns};
use crate::codec::{material_model, material_models, MaterialModel};
use crate::data::{MaterialEntry, MaterialKind};
use crate::scrape::{
    attr_rows_of, first_inner_of, link_rows_of, scrape_attr_rows, scrape_first_inner,
    scrape_link_rows, view_opt,
};
use crate::strutil::{chars_vec, contains_seq, find_sub_from, is_match_at, string_from_chars, subvec};

verus! {

/// The characters of an optional string, empty when absent.
pub open spec fn or_empty(o: Option<Seq<char>>) -> Seq<char> {
    match o {
        Some(s) => s,
        None => Seq::empty(),
    }
}

/// A due date string, or the literal placeholder when the row has none.
pub open spec fn due_or_default(o: Option<Seq<char>>) -> Seq<char> {
    match o {
        Some(s) => s,
        None => "No Due Date Specified"@,
    }
}

/// `s` without its first `n` characters; empty when `s` is shorter than `n`.
pub open spec fn skip_or_empty(s: Seq<char>, n: int) -> Seq<char> {
    if s.len() >= n {
        s.skip(n)
    } else {
        Seq::empty()
    }
}

/// Index of the first occurrence of `p` in `s` (meaningful only when `p`
/// occurs).
pub open spec fn first_match_index(s: Seq<char>, p: Seq<char>) -> int
    decreases s.len(),
{
    if is_match_at(s, p, 0) {
        0
    } else if s.len() == 0 {
        0
    } else {
        1 + first_match_index(s.drop_first(), p)
    }
}

/// `s` cut at the first occurrence of `p`; all of `s` when `p` does not occur.
pub open spec fn prefix_before(s: Seq<char>, p: Seq<char>) -> Seq<char> {
    if contains_seq(s, p) {
        s.take(first_match_index(s, p))
    } else {
        s
    }
}

proof fn lemma_match_shift(s: Seq<char>, p: Seq<char>, i: int)
    requires
        s.len() > 0,
        i >= 0,
    ensures
        is_match_at(s, p, i + 1) == is_match_at(s.drop_first(), p, i),
{
    if i + 1 + p.len() <= s.len() {
        assert(s.drop_first().subrange(i, i + p.len()) =~= s.subrange(i + 1, i + 1 + p.len()));
    }
}

pub proof fn lemma_first_match_index_unique(s: Seq<char>, p: Seq<char>, i: int)
    requires
        is_match_at(s, p, i),
        forall|j: int| 0 <= j < i ==> !is_match_at(s, p, j),
    ensures
        first_match_index(s, p) == i,
    decreases s.len(),
{
    if is_match_at(s, p, 0) {
        assert(i == 0);
    } else {
        assert(i > 0);
        assert(s.len() > 0);
        lemma_match_shift(s, p, i - 1);
        assert forall|j: int| 0 <= j < i - 1 implies !is_match_at(s.drop_first(), p, j) by {
            lemma_match_shift(s, p, j);
        }
        lemma_first_match_index_unique(s.drop_first(), p, i - 1);
    }
}

/// Cut `s` at the first occurrence of `pat`, keeping the part before it.
pub fn cut_before(s: &str, pat: &str) -> (r: String)
    ensures
        r@ == prefix_before(s@, pat@),
{
    let v = chars_vec(s);
    let p = chars_vec(pat);
    match find_sub_from(&v, &p, 0) {
        Some(i) => {
            proof {
                lemma_first_match_index_unique(v@, p@, i as int);
            }
            let cut = subvec(&v, 0, i);
            proof {
                assert(v@.subrange(0, i as int) =~= v@.take(i as int));
            }
            string_from_chars(&cut)
        },
        None => s.to_owned(),
    }
}

/// Whether `pat` occurs in `s`.
pub fn str_contains(s: &str, pat: &str) -> (r: bool)
    ensures
        r == contains_seq(s@, pat@),
{
    let v = chars_vec(s);
    let p = chars_vec(pat);
    crate::strutil::contains_sub(&v, &p)
}

fn opt_or_empty(o: &Option<String>) -> (r: String)
    ensures
        r@ == or_empty(view_opt(*o)),
{
    match o {
        Some(s) => s.clone(),
        None => String::new(),
    }
}

fn due_or_default_exec(o: &Option<String>) -> (r: String)
    ensures
        r@ == due_or_default(view_opt(*o)),
{
    match o {
        Some(s) => s.clone(),
        None => String::from_str("No Due Date Specified"),
    }
}

/// Drop the first `n` characters of `s`; empty when `s` is shorter.
pub fn skip_chars(s: &str, n: usize) -> (r: String)
    ensures
        r@ == skip_or_empty(s@, n as int),
{
    let len = s.unicode_len();
    if len >= n {
        let rest = s.substring_char(n, len);
        proof {
            assert(rest@ =~= s@.skip(n as int));
        }
        String::from_str(rest)
    } else {
        String::new()
    }
}

/// Length of the site prefix in front of the numeric id in an assignment or
/// discussion link target, and in a document row's element id.
pub const ID_PREFIX_LEN: usize = 12;

/// The assignment rows of a page, as the row adapter hands them out.
pub open spec fn spec_assignment_rows(page: Seq<char>) -> Seq<
    (Option<Seq<char>>, Option<Seq<char>>, Option<Seq<char>>),
> {
    link_rows_of(
        page,
        "tr.type-assignment"@,
        ".item-info .item-title>a"@,
        "href"@,
        ".item-info .item-subtitle>span"@,
    )
}

/// The record an assignment row becomes.
pub open spec fn spec_assignment_entry(
    row: (Option<Seq<char>>, Option<Seq<char>>, Option<Seq<char>>),
) -> MaterialModel {
    MaterialModel {
        id: skip_or_empty(or_empty(row.0), ID_PREFIX_LEN as int),
        kind: 0,
        title: or_empty(row.1),
        body: Seq::empty(),
        due: due_or_default(row.2),
    }
}

/// The records of the assignment pass.
pub open spec fn spec_assignment_entries(page: Seq<char>) -> Seq<MaterialModel> {
    spec_assignment_rows(page).map_values(
        |row: (Option<Seq<char>>, Option<Seq<char>>, Option<Seq<char>>)|
            spec_assignment_entry(row),
    )
}

/// Extract the assignment rows of a materials page, in document order.
pub fn assignment_data(page: &str) -> (r: Vec<MaterialEntry>)
    ensures
        material_models(r@) == spec_assignment_entries(page@),
{
    let rows = scrape_link_rows(
        page,
        "tr.type-assignment",
        ".item-info .item-title>a",
        "href",
        ".item-info .item-subtitle>span",
    );
    let ghost srows = spec_assignment_rows(page@);
    let mut out: Vec<MaterialEntry> = Vec::new();
    let mut i: usize = 0;
    while i < rows.len()
        invariant
            i <= rows@.len(),
            rows@.map_values(
                |t: (Option<String>, Option<String>, Option<String>)|
                    (view_opt(t.0), view_opt(t.1), view_opt(t.2)),
            ) == srows,
            out@.len() == i,
            forall|k: int|
                0 <= k < i ==> material_model(#[trigger] out@[k]) == spec_assignment_entry(
                    srows[k],
                ),
        decreases rows@.len() - i,
    {
        let row = &rows[i];
        proof {
            assert(srows[i as int] == (view_opt(rows@[i as int].0), view_opt(rows@[i as int].1), view_opt(rows@[i as int].2)));
        }
        let href_s = opt_or_empty(&row.0);
        let entry = MaterialEntry {
            id: skip_chars(href_s.as_str(), ID_PREFIX_LEN),
            kind: MaterialKind::Assignment,
            title: opt_or_empty(&row.1),
            body: String::new(),
            due: due_or_default_exec(&row.2),
        };
        out.push(entry);
        i = i + 1;
    }
    proof {
        assert(material_models(out@) =~= spec_assignment_entries(page@));
    }
    out
}

/// The document rows of a page, as the row adapter hands them out.
pub open spec fn spec_document_rows(page: Seq<char>) -> Seq<
    (Option<Seq<char>>, Seq<char>, Option<Seq<char>>, Option<Seq<char>>, Option<Seq<char>>),
> {
    attr_rows_of(
        page,
        "tr.type-document"@,
        "id"@,
        ".attachments-file-name a"@,
        ".attachments-file-name a>span"@,
        ".attachments-link>a"@,
    )
}

/// The record a document row becomes: a file when the row carries the
/// file-attachment marker, unwrapping one nested title level when the title
/// holds a further marked element; a link otherwise.
pub open spec fn spec_document_entry(
    row: (Option<Seq<char>>, Seq<char>, Option<Seq<char>>, Option<Seq<char>>, Option<Seq<char>>),
) -> MaterialModel {
    let id = skip_or_empty(or_empty(row.0), ID_PREFIX_LEN as int);
    if contains_seq(row.1, "attachments-file"@) {
        let raw = or_empty(row.2);
        let title = if contains_seq(raw, "<span "@) {
            prefix_before(or_empty(row.3), "<span "@)
        } else {
            raw
        };
        MaterialModel { id, kind: 2, title, body: Seq::empty(), due: "No Due Date Specified"@ }
    } else {
        MaterialModel {
            id,
            kind: 3,
            title: or_empty(row.4),
            body: Seq::empty(),
            due: "No Due Date Specified"@,
        }
    }
}

/// The records of the file-and-link pass.
pub open spec fn spec_document_entries(page: Seq<char>) -> Seq<MaterialModel> {
    spec_document_rows(page).map_values(
        |row: (
            Option<Seq<char>>,
            Seq<char>,
            Option<Seq<char>>,
            Option<Seq<char>>,
            Option<Seq<char>>,
        )|
            spec_document_entry(row),
    )
}

/// Extract the file and link rows of a materials page, in document order.
pub fn file_data(page: &str) -> (r: Vec<MaterialEntry>)
    ensures
        material_models(r@) == spec_document_entries(page@),
{
    let rows = scrape_attr_rows(
        page,
        "tr.type-document",
        "id",
        ".attachments-file-name a",
        ".attachments-file-name a>span",
        ".attachments-link>a",
    );
    let ghost srows = spec_document_rows(page@);
    let mut out: Vec<MaterialEntry> = Vec::new();
    let mut i: usize = 0;
    while i < rows.len()
        invariant
            i <= rows@.len(),
            rows@.map_values(
                |t: (Option<String>, String, Option<String>, Option<String>, Option<String>)|
                    (view_opt(t.0), t.1@, view_opt(t.2), view_opt(t.3), view_opt(t.4)),
            ) == srows,
            out@.len() == i,
            forall|k: int|
                0 <= k < i ==> material_model(#[trigger] out@[k]) == spec_document_entry(srows[k]),
        decreases rows@.len() - i,
    {
        let row = &rows[i];
        proof {
            assert(srows[i as int] == (
                view_opt(rows@[i as int].0),
                rows@[i as int].1@,
                view_opt(rows@[i as int].2),
                view_opt(rows@[i as int].3),
                view_opt(rows@[i as int].4),
            ));
        }
        let id_s = opt_or_empty(&row.0);
        let id = skip_chars(id_s.as_str(), ID_PREFIX_LEN);
        let entry = if str_contains(row.1.as_str(), "attachments-file") {
            let raw = opt_or_empty(&row.2);
            let title = if str_contains(raw.as_str(), "<span ") {
                let nested = opt_or_empty(&row.3);
                cut_before(nested.as_str(), "<span ")
            } else {
                raw
            };
            MaterialEntry {
                id,
                kind: MaterialKind::File,
                title,
                body: String::new(),
                due: String::from_str("No Due Date Specified"),
            }
        } else {
            MaterialEntry {
                id,
                kind: MaterialKind::Link,
                title: opt_or_empty(&row.4),
                body: String::new(),
                due: String::from_str("No Due Date Specified"),
            }
        };
        out.push(entry);
        i = i + 1;
    }
    proof {
        assert(material_models(out@) =~= spec_document_entries(page@));
    }
    out
}

/// The discussion rows of a page, as the row adapter hands them out.
pub open spec fn spec_discussion_rows(page: Seq<char>) -> Seq<
    (Option<Seq<char>>, Option<Seq<char>>, Option<Seq<char>>),
> {
    link_rows_of(
        page,
        "tr.type-discussion"@,
        ".item-info .item-title>a"@,
        "href"@,
        ""@,
    )
}

/// The record a discussion row becomes.
pub open spec fn spec_discussion_entry(
    row: (Option<Seq<char>>, Option<Seq<char>>, Option<Seq<char>>),
) -> MaterialModel {
    MaterialModel {
        id: skip_or_empty(or_empty(row.0), ID_PREFIX_LEN as int),
        kind: 1,
        title: or_empty(row.1),
        body: Seq::empty(),
        due: "No Due Date Specified"@,
    }
}

/// The records of the discussion pass.
pub open spec fn spec_discussion_entries(page: Seq<char>) -> Seq<MaterialModel> {
    spec_discussion_rows(page).map_values(
        |row: (Option<Seq<char>>, Option<Seq<char>>, Option<Seq<char>>)|
            spec_discussion_entry(row),
    )
}

/// Extract the discussion rows of a materials page, in document order.
pub fn discussion_data(page: &str) -> (r: Vec<MaterialEntry>)
    ensures
        material_models(r@) == spec_discussion_entries(page@),
{
    let rows = scrape_link_rows(
        page,
        "tr.type-discussion",
        ".item-info .item-title>a",
        "href",
        "",
    );
    let ghost srows = spec_discussion_rows(page@);
    let mut out: Vec<MaterialEntry> = Vec::new();
    let mut i: usize = 0;
    while i < rows.len()
        invariant
            i <= rows@.len(),
            rows@.map_values(
                |t: (Option<String>, Option<String>, Option<String>)|
                    (view_opt(t.0), view_opt(t.1), view_opt(t.2)),
            ) == srows,
            out@.len() == i,
            forall|k: int|
                0 <= k < i ==> material_model(#[trigger] out@[k]) == spec_discussion_entry(
                    srows[k],
                ),
        decreases rows@.len() - i,
    {
        let row = &rows[i];
        proof {
            assert(srows[i as int] == (view_opt(rows@[i as int].0), view_opt(rows@[i as int].1), view_opt(rows@[i as int].2)));
        }
        let href_s = opt_or_empty(&row.0);
        let entry = MaterialEntry {
            id: skip_chars(href_s.as_str(), ID_PREFIX_LEN),
            kind: MaterialKind::Discussion,
            title: opt_or_empty(&row.1),
            body: String::new(),
            due: String::from_str("No Due Date Specified"),
        };
        out.push(entry);
        i = i + 1;
    }
    proof {
        assert(material_models(out@) =~= spec_discussion_entries(page@));
    }
    out
}

/// All records of one materials page: the assignment pass, then the file and
/// link pass, then the discussion pass, each in document order.
pub open spec fn spec_class_materials(page: Seq<char>) -> Seq<MaterialModel> {
    spec_assignment_entries(page) + spec_document_entries(page) + spec_discussion_entries(page)
}

/// Run the three extraction passes over one materials page and concatenate
/// their records in pass order.
pub fn parse_class_materials(page: &str) -> (r: Vec<MaterialEntry>)
    ensures
        material_models(r@) == spec_class_materials(page@),
{
    let mut out = assignment_data(page);
    let mut files = file_data(page);
    let mut discussions = discussion_data(page);
    let ghost a = out@;
    let ghost f = files@;
    let ghost d = discussions@;
    out.append(&mut files);
    out.append(&mut discussions);
    proof {
        assert(out@ == a + f + d);
        assert(material_models(out@) =~= material_models(a) + material_models(f)
            + material_models(d));
    }
    out
}

/// Whether a record's detail page is fetched to fill its body: files and
/// discussions are enriched, assignments are not.
pub open spec fn spec_needs_enrichment(k: MaterialKind) -> bool {
    k == MaterialKind::File || k == MaterialKind::Discussion
}

impl MaterialEntry {
    /// Whether this record's detail page is fetched to fill its body.
    pub fn needs_enrichment(&self) -> (r: bool)
        ensures
            r == spec_needs_enrichment(self.kind),
    {
        match self.kind {
            MaterialKind::File => true,
            MaterialKind::Discussion => true,
            _ => false,
        }
    }
}

/// The body text a detail page yields: the content container's inner HTML,
/// or empty when the container is absent.
pub open spec fn spec_detail_body(page: Seq<char>) -> Seq<char> {
    or_empty(first_inner_of(page, ".info-body"@))
}

/// Read a record's body text from its detail page, defaulting to empty.
pub fn body_from_detail(page: &str) -> (r: String)
    ensures
        r@ == spec_detail_body(page@),
{
    match scrape_first_inner(page, ".info-body") {
        Some(b) => b,
        None => String::new(),
    }
}

} // verus!
