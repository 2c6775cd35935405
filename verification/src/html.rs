//! Queries on HTML documents, answered by the `scraper` crate.
use vstd::prelude::*;

verus! {

/// For each element matching a CSS selector, in document order, the values
/// of the named attributes; `None` when the selector does not parse.
pub uninterp spec fn html_select_attrs(
    html: Seq<char>,
    selector: Seq<char>,
    attrs: Seq<Seq<char>>,
) -> Option<Seq<Seq<Option<Seq<char>>>>>;

/// For each element matching a CSS selector, in document order, its text
/// (all descendant text nodes concatenated); `None` when the selector does
/// not parse.
pub uninterp spec fn html_select_texts(html: Seq<char>, selector: Seq<char>) -> Option<
    Seq<Seq<char>>,
>;

pub open spec fn opt_view(o: Option<String>) -> Option<Seq<char>> {
    match o {
        Some(s) => Some(s@),
        None => None,
    }
}

pub open spec fn row_view(r: Vec<Option<String>>) -> Seq<Option<Seq<char>>> {
    r@.map_values(|o: Option<String>| opt_view(o))
}

pub open spec fn rows_view(r: Seq<Vec<Option<String>>>) -> Seq<Seq<Option<Seq<char>>>> {
    r.map_values(|row: Vec<Option<String>>| row_view(row))
}

pub open spec fn strs_view(a: Seq<&str>) -> Seq<Seq<char>> {
    a.map_values(|s: &str| s@)
}

pub open spec fn strings_view(a: Seq<String>) -> Seq<Seq<char>> {
    a.map_values(|s: String| s@)
}

/// `scraper::Html::parse_document`, then `select` with a parsed
/// `scraper::Selector`, reading the named attributes of each element.
#[verifier::external_body]
pub(crate) fn select_attrs(html: &str, selector: &str, attrs: &[&str]) -> (r: Result<
    Vec<Vec<Option<String>>>,
    String,
>)
    ensures
        match r {
            Ok(rows) => html_select_attrs(html@, selector@, strs_view(attrs@)) == Some(
                rows_view(rows@),
            ) && forall|i: int| 0 <= i < rows@.len() ==> (#[trigger] rows@[i])@.len() == attrs@.len(),
            Err(_) => html_select_attrs(html@, selector@, strs_view(attrs@)) is None,
        },
{
    let document = scraper::Html::parse_document(html);
    match scraper::Selector::parse(selector) {
        Ok(sel) => Ok(document.select(&sel).map(|element| {
            attrs.iter().map(|name| element.value().attr(name).map(String::from)).collect()
        }).collect()),
        Err(error) => Err(error.to_string()),
    }
}

/// `scraper::Html::parse_document`, then `select`, collecting the text of
/// each matching element.
#[verifier::external_body]
pub(crate) fn select_texts(html: &str, selector: &str) -> (r: Result<Vec<String>, String>)
    ensures
        match r {
            Ok(texts) => html_select_texts(html@, selector@) == Some(strings_view(texts@)),
            Err(_) => html_select_texts(html@, selector@) is None,
        },
{
    let document = scraper::Html::parse_document(html);
    match scraper::Selector::parse(selector) {
        Ok(sel) => Ok(document.select(&sel).map(|element| element.text().collect()).collect()),
        Err(error) => Err(error.to_string()),
    }
}

} // verus!
