//! Trusted adapters around the `scraper` crate.
//!
//! Each adapter parses an HTML document and reads plain values out of the
//! elements a CSS selector picks, in document order. What each returns is a
//! pure function of its string arguments, named by an uninterpreted
//! specification function; the extraction logic on top of these is verified.

use vstd::prelude::*;

verus! {

/// Option of a string, viewed.
pub open spec fn view_opt(o: Option<String>) -> Option<Seq<char>> {
    match o {
        Some(s) => Some(s@),
        None => None,
    }
}

/// For each element of `page` matching `row_sel`, in document order: the
/// value of attribute `attr` on the row's first `link_sel` descendant, that
/// descendant's inner HTML, and the inner HTML of the row's first `extra_sel`
/// descendant.
pub uninterp spec fn link_rows_of(
    page: Seq<char>,
    row_sel: Seq<char>,
    link_sel: Seq<char>,
    attr: Seq<char>,
    extra_sel: Seq<char>,
) -> Seq<(Option<Seq<char>>, Option<Seq<char>>, Option<Seq<char>>)>;

/// Relies on `scraper::Html::parse_document`, `scraper::Selector::parse` and
/// `scraper::ElementRef`'s `attr`/`inner_html`: reads, for each row matched by
/// `row_sel`, the named attribute and inner HTML of its first `link_sel`
/// descendant and the inner HTML of its first `extra_sel` descendant.
#[verifier::external_body]
pub fn scrape_link_rows(page: &str, row_sel: &str, link_sel: &str, attr: &str, extra_sel: &str) -> (r:
    Vec<(Option<String>, Option<String>, Option<String>)>)
    ensures
        r@.map_values(
            |t: (Option<String>, Option<String>, Option<String>)|
                (view_opt(t.0), view_opt(t.1), view_opt(t.2)),
        ) == link_rows_of(page@, row_sel@, link_sel@, attr@, extra_sel@),
{
    let doc = scraper::Html::parse_document(page);
    let rs = match scraper::Selector::parse(row_sel) { Ok(s) => s, Err(_) => return Vec::new() };
    let inner = |sel: &str, row: scraper::ElementRef| {
        let s = scraper::Selector::parse(sel).ok()?;
        Some(row.select(&s).next()?.inner_html())
    };
    let link_attr = |row: scraper::ElementRef| {
        let s = scraper::Selector::parse(link_sel).ok()?;
        Some(row.select(&s).next()?.value().attr(attr)?.to_string())
    };
    doc.select(&rs).map(|row| (
        link_attr(row), inner(link_sel, row), inner(extra_sel, row),
    )).collect()
}

/// For each element of `page` matching `row_sel`, in document order: the
/// value of attribute `attr` on the row itself, the row's inner HTML, and the
/// inner HTML of the row's first descendant matching each of the three
/// selectors `a_sel`, `b_sel`, `c_sel`.
pub uninterp spec fn attr_rows_of(
    page: Seq<char>,
    row_sel: Seq<char>,
    attr: Seq<char>,
    a_sel: Seq<char>,
    b_sel: Seq<char>,
    c_sel: Seq<char>,
) -> Seq<(Option<Seq<char>>, Seq<char>, Option<Seq<char>>, Option<Seq<char>>, Option<Seq<char>>)>;

/// Relies on `scraper::Html::parse_document`, `scraper::Selector::parse` and
/// `scraper::ElementRef`'s `attr`/`inner_html`: reads, for each row matched by
/// `row_sel`, the row's own named attribute, its inner HTML, and the inner
/// HTML of its first descendant for each of three selectors.
#[verifier::external_body]
pub fn scrape_attr_rows(
    page: &str,
    row_sel: &str,
    attr: &str,
    a_sel: &str,
    b_sel: &str,
    c_sel: &str,
) -> (r: Vec<(Option<String>, String, Option<String>, Option<String>, Option<String>)>)
    ensures
        r@.map_values(
            |t: (Option<String>, String, Option<String>, Option<String>, Option<String>)|
                (view_opt(t.0), t.1@, view_opt(t.2), view_opt(t.3), view_opt(t.4)),
        ) == attr_rows_of(page@, row_sel@, attr@, a_sel@, b_sel@, c_sel@),
{
    let doc = scraper::Html::parse_document(page);
    let rs = match scraper::Selector::parse(row_sel) { Ok(s) => s, Err(_) => return Vec::new() };
    let inner = |sel: &str, row: scraper::ElementRef| {
        let s = scraper::Selector::parse(sel).ok()?;
        Some(row.select(&s).next()?.inner_html())
    };
    doc.select(&rs).map(|row| (
        row.value().attr(attr).map(str::to_string),
        row.inner_html(),
        inner(a_sel, row), inner(b_sel, row), inner(c_sel, row),
    )).collect()
}

/// The inner HTML of the first element of `page` matching `sel`.
pub uninterp spec fn first_inner_of(page: Seq<char>, sel: Seq<char>) -> Option<Seq<char>>;

/// Relies on `scraper::Html::parse_document`, `scraper::Selector::parse` and
/// `scraper::ElementRef::inner_html`: the inner HTML of the first match of
/// `sel` in the document.
#[verifier::external_body]
pub fn scrape_first_inner(page: &str, sel: &str) -> (r: Option<String>)
    ensures
        view_opt(r) == first_inner_of(page@, sel@),
{
    let doc = scraper::Html::parse_document(page);
    let s = match scraper::Selector::parse(sel) {
        Ok(s) => s,
        Err(_) => return None,
    };
    doc.select(&s).next().map(|e| e.inner_html())
}

/// The last form of `page` matching `form_sel`: its `method` and `action`
/// attributes, and for each of its `input_sel` descendants the `name` and
/// `value` attributes, in document order. `None` when no form matches.
pub uninterp spec fn login_form_of(page: Seq<char>, form_sel: Seq<char>, input_sel: Seq<char>) -> Option<
    (Option<Seq<char>>, Option<Seq<char>>, Seq<(Option<Seq<char>>, Option<Seq<char>>)>),
>;

/// Relies on `scraper::Html::parse_document`, `scraper::Selector::parse` and
/// `scraper::ElementRef`'s `attr`: reads the declared method and action of the
/// last form matching `form_sel`, and the name and value of each of its
/// inputs.
#[verifier::external_body]
pub fn scrape_login_form(page: &str, form_sel: &str, input_sel: &str) -> (r: Option<
    (Option<String>, Option<String>, Vec<(Option<String>, Option<String>)>),
>)
    ensures
        (match r {
            Some(t) => Some(
                (
                    view_opt(t.0),
                    view_opt(t.1),
                    t.2@.map_values(
                        |p: (Option<String>, Option<String>)| (view_opt(p.0), view_opt(p.1)),
                    ),
                ),
            ),
            None => None,
        }) == login_form_of(page@, form_sel@, input_sel@),
{
    let doc = scraper::Html::parse_document(page);
    let fs = scraper::Selector::parse(form_sel).ok()?;
    let is = scraper::Selector::parse(input_sel).ok()?;
    let form = doc.select(&fs).last()?;
    let inputs = form.select(&is).map(
        |e| (e.value().attr("name").map(str::to_string), e.value().attr("value").map(str::to_string)),
    ).collect();
    Some((form.value().attr("method").map(str::to_string), form.value().attr("action").map(str::to_string), inputs))
}

} // verus!
