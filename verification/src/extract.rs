use vstd::prelude::*;

use crate::text::{join_texts, joined};

verus! {

/// Declares scraper's parsed HTML tree so that a page can hold one; the
/// document is opaque here and is only read through the trusted queries below.
#[verifier::external_type_specification]
#[verifier::external_body]
pub struct ExHtml(scraper::Html);

/// Whether `scraper::Selector::parse` accepts a selector string as valid CSS.
/// Parsing is a function of the string alone.
pub uninterp spec fn selector_ok(selector: Seq<char>) -> bool;

/// What querying a page for the first match of a valid selector yields:
/// `None` when no element of the document parsed from `html` matches
/// `selector`, and otherwise the text of the descendant text nodes of the
/// first matching element in document order. Parsing, matching and text
/// traversal are functions of the page text and the selector alone.
pub uninterp spec fn first_match_texts(html: Seq<char>, selector: Seq<char>) -> Option<
    Seq<Seq<char>>,
>;

/// The sentinel stored for a field whose selector is not valid CSS.
pub open spec fn invalid_selector_text() -> Seq<char> {
    "Invalid CSS Selector"@
}

/// A fetched page, parsed once into a document that every selector of the
/// request is then evaluated against.
pub struct Page {
    html: String,
    doc: scraper::Html,
}

impl View for Page {
    type V = Seq<char>;

    closed spec fn view(&self) -> Seq<char> {
        self.html@
    }
}

/// The outcome of evaluating one selector against a page.
enum Selection {
    InvalidSelector,
    NoMatch,
    Found(Vec<String>),
}

impl Page {
    /// Relies on scraper::Html::parse_document: it parses any string leniently
    /// (malformed markup fills the tree as best it can instead of failing),
    /// and the document depends on the input text alone.
    #[verifier::external_body]
    pub fn parse(html: &str) -> (page: Page)
        ensures
            page@ == html@,
    {
        Page { html: html.to_string(), doc: scraper::Html::parse_document(html) }
    }
}

/// Relies on scraper::Selector::parse, scraper::Html::select and
/// scraper::ElementRef::text: parsing fails exactly on invalid CSS; `select`
/// walks the document tree in document order, so `next` yields the first
/// matching element; `text` lists the descendant text nodes of that element
/// in document order.
#[verifier::external_body]
fn query_first(page: &Page, selector: &str) -> (r: Selection)
    ensures
        !(r is InvalidSelector) <==> selector_ok(selector@),
        selector_ok(selector@) ==> match first_match_texts(page@, selector@) {
            Option::None => r is NoMatch,
            Option::Some(texts) => r matches Selection::Found(pieces) && pieces.deep_view()
                == texts,
        },
{
    let compiled = match scraper::Selector::parse(selector) {
        Ok(compiled) => compiled,
        Err(_) => return Selection::InvalidSelector,
    };
    match page.doc.select(&compiled).next() {
        None => Selection::NoMatch,
        Some(element) => Selection::Found(element.text().map(|t| t.to_string()).collect()),
    }
}

/// The value extracted for one field: the invalid-selector sentinel when the
/// selector is not valid CSS, the empty string when no element matches, and
/// otherwise the trimmed, space-joined text of the first matching element.
pub open spec fn field_value(html: Seq<char>, selector: Seq<char>) -> Seq<char> {
    if !selector_ok(selector) {
        invalid_selector_text()
    } else {
        match first_match_texts(html, selector) {
            Option::None => Seq::empty(),
            Option::Some(texts) => joined(texts),
        }
    }
}

/// Evaluate one selector against a page and produce the field's value.
pub fn extract_field(page: &Page, selector: &str) -> (r: String)
    ensures
        r@ == field_value(page@, selector@),
{
    match query_first(page, selector) {
        Selection::InvalidSelector => String::from_str("Invalid CSS Selector"),
        Selection::NoMatch => String::new(),
        Selection::Found(pieces) => join_texts(&pieces),
    }
}

/// The full extraction result: one entry per selector entry, same field name
/// in the same position, value as `field_value` gives it.
pub open spec fn extraction_of(html: Seq<char>, selectors: Seq<(Seq<char>, Seq<char>)>) -> Seq<
    (Seq<char>, Seq<char>),
> {
    selectors.map_values(|entry: (Seq<char>, Seq<char>)| (entry.0, field_value(html, entry.1)))
}

/// Parse the page text once and evaluate every selector against it.
pub fn extract(html: &str, selectors: &Vec<(String, String)>) -> (r: Vec<(String, String)>)
    ensures
        r.deep_view() == extraction_of(html@, selectors.deep_view()),
{
    let page = Page::parse(html);
    let mut out: Vec<(String, String)> = Vec::new();
    let mut i: usize = 0;
    while i < selectors.len()
        invariant
            0 <= i <= selectors.len(),
            page@ == html@,
            out.len() == i,
            forall|j: int|
                0 <= j < i ==> #[trigger] out.deep_view()[j] == (
                    selectors.deep_view()[j].0,
                    field_value(html@, selectors.deep_view()[j].1),
                ),
        decreases selectors.len() - i,
    {
        let value = extract_field(&page, selectors[i].1.as_str());
        let key = selectors[i].0.clone();
        let ghost entry_view: (Seq<char>, Seq<char>) = (key@, value@);
        let ghost prev = out@;
        let ghost prev_dv = out.deep_view();
        out.push((key, value));
        proof {
            assert forall|j: int| 0 <= j < i implies #[trigger] out.deep_view()[j]
                == prev_dv[j] by {
                assert(out@[j] == prev[j]);
                assert(out.deep_view()[j] == out@[j].deep_view());
                assert(prev_dv[j] == prev[j].deep_view());
            }
            assert(out@[i as int].deep_view() == entry_view);
            assert(out.deep_view()[i as int] == entry_view);
            assert(selectors.deep_view()[i as int] == (
                selectors@[i as int].0@,
                selectors@[i as int].1@,
            ));
            assert(entry_view == (
                selectors.deep_view()[i as int].0,
                field_value(html@, selectors.deep_view()[i as int].1),
            ));
        }
        i += 1;
    }
    proof {
        assert(out.deep_view() =~= extraction_of(html@, selectors.deep_view()));
    }
    out
}

/// Total coverage: extraction never omits a field. The result has exactly one
/// entry per selector entry, carrying the same field name in the same
/// position, and hence the same key set as the selectors.
pub proof fn lemma_total_coverage(html: Seq<char>, selectors: Seq<(Seq<char>, Seq<char>)>)
    ensures
        extraction_of(html, selectors).len() == selectors.len(),
        forall|j: int|
            0 <= j < selectors.len() ==> #[trigger] extraction_of(html, selectors)[j].0
                == selectors[j].0,
        extraction_of(html, selectors).map_values(|entry: (Seq<char>, Seq<char>)| entry.0).to_set()
            == selectors.map_values(|entry: (Seq<char>, Seq<char>)| entry.0).to_set(),
{
    assert(extraction_of(html, selectors).map_values(|entry: (Seq<char>, Seq<char>)| entry.0)
        =~= selectors.map_values(|entry: (Seq<char>, Seq<char>)| entry.0));
}

/// Whether a selector list carries pairwise distinct field names, as a JSON
/// mapping hands them over.
pub open spec fn distinct_fields(selectors: Seq<(Seq<char>, Seq<char>)>) -> bool {
    forall|i: int, j: int|
        0 <= i < j < selectors.len() ==> #[trigger] selectors[i].0 != #[trigger] selectors[j].0
}

/// When the requested field names are distinct, the extracted data is a
/// genuine mapping as well: exactly one entry per requested field, under a
/// field name that no other entry carries.
pub proof fn lemma_extraction_keeps_fields_distinct(
    html: Seq<char>,
    selectors: Seq<(Seq<char>, Seq<char>)>,
)
    requires
        distinct_fields(selectors),
    ensures
        distinct_fields(extraction_of(html, selectors)),
{
    lemma_total_coverage(html, selectors);
}

/// Fields are independent: the value extracted for a field depends only on
/// the page and on that field's own entry, never on the other selectors of
/// the request, so an invalid selector leaves every other field untouched and
/// fields may be evaluated in any order.
pub proof fn lemma_field_independence(
    html: Seq<char>,
    some_selectors: Seq<(Seq<char>, Seq<char>)>,
    other_selectors: Seq<(Seq<char>, Seq<char>)>,
    j: int,
)
    requires
        0 <= j < some_selectors.len(),
        0 <= j < other_selectors.len(),
        some_selectors[j] == other_selectors[j],
    ensures
        extraction_of(html, some_selectors)[j] == extraction_of(html, other_selectors)[j],
{
}

/// Extraction has no hidden state: the data is a function of the page text
/// and the selectors alone, so evaluating an unchanged page twice with the
/// same selectors yields identical data.
pub proof fn lemma_extraction_deterministic(
    html: Seq<char>,
    selectors: Seq<(Seq<char>, Seq<char>)>,
    first: Seq<(Seq<char>, Seq<char>)>,
    second: Seq<(Seq<char>, Seq<char>)>,
)
    requires
        first == extraction_of(html, selectors),
        second == extraction_of(html, selectors),
    ensures
        first == second,
{
}

} // verus!
