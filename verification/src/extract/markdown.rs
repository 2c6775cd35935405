//! HTML to Markdown conversion, done by the `htmd` crate.
use vstd::prelude::*;

verus! {

/// What `htmd` makes of an HTML fragment: the Markdown, or the I/O error's
/// message.
pub uninterp spec fn markdown_conversion(html: Seq<char>) -> Result<Seq<char>, Seq<char>>;

/// `htmd::HtmlToMarkdown::new().convert`. Claimed: the outcome is a function
/// of the HTML alone; what Markdown it is, is not stated.
#[verifier::external_body]
pub fn html_to_markdown(html: &str) -> (r: Result<String, String>)
    ensures
        match r {
            Ok(md) => markdown_conversion(html@) == Ok::<Seq<char>, Seq<char>>(md@),
            Err(e) => markdown_conversion(html@) == Err::<Seq<char>, Seq<char>>(e@),
        },
{
    htmd::HtmlToMarkdown::new().convert(html).map_err(|error| error.to_string())
}

} // verus!
