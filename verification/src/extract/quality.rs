//! The quality gate for extracted articles.
use vstd::prelude::*;
use crate::text::{contains, contains_any, contains_seq, chars_of, lower, lowercase};

verus! {

#[derive(Debug, Clone, Copy, PartialEq, Eq, Structural)]
pub enum ExtractionQuality {
    Passed,
    NeedsReview,
}

/// Fewer words than this always need review.
pub const MIN_WORDS: usize = 40;

/// Phrases of pages that only render with JavaScript.
pub open spec fn js_shell_markers() -> Seq<Seq<char>> {
    seq![
        "enable javascript"@,
        "enable js"@,
        "requires javascript"@,
        "you need to enable javascript"@,
        "this page requires javascript"@,
    ]
}

/// The verdict on an extraction: too few words, a JavaScript shell, or an
/// empty single-page-app mount point (with fewer than 80 words) need review.
pub open spec fn quality_of(raw_html: Seq<char>, text: Seq<char>, word_count: nat) -> ExtractionQuality {
    if word_count < 40 {
        ExtractionQuality::NeedsReview
    } else if exists|i: int|
        0 <= i < js_shell_markers().len() && contains(lower(text), #[trigger] js_shell_markers()[i]) {
        ExtractionQuality::NeedsReview
    } else if contains(lower(raw_html), "id=\"root\""@) && !contains(lower(raw_html), "<article"@)
        && word_count < 80 {
        ExtractionQuality::NeedsReview
    } else {
        ExtractionQuality::Passed
    }
}

pub fn assess_quality(raw_html: &str, text: &str, word_count: usize) -> (r: ExtractionQuality)
    ensures
        r == quality_of(raw_html@, text@, word_count as nat),
{
    if word_count < MIN_WORDS {
        return ExtractionQuality::NeedsReview;
    }
    let text_chars = chars_of(text);
    let lower_text = lowercase(text_chars.as_slice());
    let markers: [&str; 5] = [
        "enable javascript",
        "enable js",
        "requires javascript",
        "you need to enable javascript",
        "this page requires javascript",
    ];
    proof {
        reveal_strlit("enable javascript");
        reveal_strlit("enable js");
        reveal_strlit("requires javascript");
        reveal_strlit("you need to enable javascript");
        reveal_strlit("this page requires javascript");
    }
    assert(markers@.map_values(|s: &str| s@) =~= js_shell_markers());
    if contains_any(lower_text.as_slice(), &markers) {
        proof {
            let i = choose|i: int| 0 <= i < markers@.len() && contains(lower_text@, markers@[i]@);
            assert(js_shell_markers()[i] == markers@[i]@);
        }
        return ExtractionQuality::NeedsReview;
    }
    proof {
        assert forall|i: int| 0 <= i < js_shell_markers().len() implies !contains(
            lower(text@),
            #[trigger] js_shell_markers()[i],
        ) by {
            assert(js_shell_markers()[i] == markers@[i]@);
        }
    }
    let html_chars = chars_of(raw_html);
    let lower_html = lowercase(html_chars.as_slice());
    let root = chars_of("id=\"root\"");
    let article = chars_of("<article");
    let empty_spa = contains_seq(lower_html.as_slice(), root.as_slice()) && !contains_seq(
        lower_html.as_slice(),
        article.as_slice(),
    ) && word_count < 80;
    if empty_spa {
        return ExtractionQuality::NeedsReview;
    }
    ExtractionQuality::Passed
}

} // verus!
