//! Highlights: TextQuote anchors around the highlighted text, and the copy
//! of each highlight kept in article frontmatter.
use vstd::prelude::*;
use vstd::string::StringSliceAdditionalSpecFns;
use vstd::utf8::{encode_utf8, is_char_boundary, valid_utf8};
use crate::error::TidyError;
use crate::extract::metadata::{copy_opt, filled_opt};
use crate::fetch::writer::FrontMatterHighlight;
use crate::html::opt_view;
use crate::index::HighlightRow;
use crate::text::{chars_of, string_of, trim, trimmed};

verus! {

/// Characters (bytes) of context kept on each side of a highlight.
pub const CONTEXT_CHARS: usize = 32;

#[derive(Debug, Clone)]
pub struct HighlightInput {
    pub text: String,
    pub note: Option<String>,
    pub prefix: Option<String>,
    pub suffix: Option<String>,
}

pub open spec fn bytes_occur_at(h: Seq<u8>, n: Seq<u8>, i: int) -> bool {
    0 <= i && i + n.len() <= h.len() && h.subrange(i, i + n.len()) == n
}

/// `i` is the first byte position at which `n` occurs in `h` (`str::find`).
pub open spec fn first_bytes_occurrence(h: Seq<u8>, n: Seq<u8>, i: int) -> bool {
    bytes_occur_at(h, n, i) && forall|j: int| 0 <= j < i ==> !bytes_occur_at(h, n, j)
}

fn bytes_match_at(h: &[u8], n: &[u8], i: usize) -> (r: bool)
    ensures
        r == bytes_occur_at(h@, n@, i as int),
{
    if i > h.len() || n.len() > h.len() - i {
        return false;
    }
    let mut k: usize = 0;
    while k < n.len()
        invariant
            i + n@.len() <= h.len(),
            k <= n@.len(),
            forall|j: int| 0 <= j < k ==> h@[i + j] == n@[j],
        decreases n.len() - k,
    {
        if h[i + k] != n[k] {
            assert(h@.subrange(i as int, i + n@.len())[k as int] != n@[k as int]);
            return false;
        }
        k = k + 1;
    }
    assert(h@.subrange(i as int, i + n@.len()) =~= n@);
    true
}

fn find_bytes(h: &[u8], n: &[u8]) -> (r: Option<usize>)
    ensures
        r matches Some(i) ==> first_bytes_occurrence(h@, n@, i as int),
        r is None ==> forall|j: int| !bytes_occur_at(h@, n@, j),
{
    let mut i: usize = 0;
    while i < h.len()
        invariant
            i <= h@.len(),
            forall|j: int| 0 <= j < i ==> !bytes_occur_at(h@, n@, j),
        decreases h.len() - i,
    {
        if bytes_match_at(h, n, i) {
            return Some(i);
        }
        i = i + 1;
    }
    if bytes_match_at(h, n, i) {
        return Some(i);
    }
    None
}

/// The text of `s` between two byte positions that end characters.
fn byte_range_text(s: &str, a: usize, b: usize) -> (r: String)
    requires
        a <= b <= s.spec_bytes().len(),
        is_char_boundary(s.spec_bytes(), a as int),
        is_char_boundary(s.spec_bytes(), b as int),
    ensures
        encode_utf8(r@) == s.spec_bytes().subrange(a as int, b as int),
{
    let ghost bytes = s.spec_bytes();
    proof {
        broadcast use vstd::utf8::encode_utf8_valid_utf8;
        assert(valid_utf8(bytes));
    }
    let (left, _right) = s.split_at(b);
    proof {
        broadcast use vstd::utf8::valid_utf8_split;
        broadcast use vstd::utf8::is_char_boundary_start_end_of_seq;
        broadcast use vstd::utf8::is_char_boundary_iff_not_is_continuation_byte;
        let lb = left.spec_bytes();
        assert(lb =~= bytes.subrange(0, b as int));
        assert(valid_utf8(bytes.subrange(0, b as int)));
        if a < b {
            assert(lb[a as int] == bytes[a as int]);
            assert(is_char_boundary(bytes, a as int) <==> !vstd::utf8::is_continuation_byte(bytes[a as int]));
            assert(is_char_boundary(lb, a as int) <==> !vstd::utf8::is_continuation_byte(lb[a as int]));
        } else {
            assert(is_char_boundary(lb, lb.len() as int));
        }
    }
    let (_head, tail) = left.split_at(a);
    let r = tail.to_owned();
    proof {
        broadcast use vstd::utf8::encode_utf8_decode_utf8;
        assert(tail.spec_bytes() =~= bytes.subrange(a as int, b as int));
    }
    r
}

/// Valid UTF-8 that begins with valid UTF-8 goes on with valid UTF-8.
proof fn lemma_valid_utf8_suffix(n: Seq<u8>, r: Seq<u8>)
    requires
        valid_utf8(n),
        valid_utf8(n + r),
    ensures
        valid_utf8(r),
    decreases n.len(),
{
    if n.len() == 0 {
        assert(n + r =~= r);
    } else {
        let nr = n + r;
        let k = vstd::utf8::length_of_first_scalar(n);
        assert(nr[0] == n[0]);
        assert(vstd::utf8::length_of_first_scalar(nr) == k);
        assert(k <= n.len());
        let rest = vstd::utf8::pop_first_scalar(n);
        assert(vstd::utf8::pop_first_scalar(nr) =~= rest + r);
        lemma_valid_utf8_suffix(rest, r);
    }
}

/// The first match of whole UTF-8 text inside UTF-8 text starts and ends on
/// character boundaries.
proof fn lemma_match_on_boundaries(h: Seq<u8>, n: Seq<u8>, i: int)
    requires
        valid_utf8(h),
        valid_utf8(n),
        first_bytes_occurrence(h, n, i),
    ensures
        is_char_boundary(h, i),
        is_char_boundary(h, i + n.len()),
{
    broadcast use vstd::utf8::is_char_boundary_start_end_of_seq;
    broadcast use vstd::utf8::is_char_boundary_iff_not_is_continuation_byte;
    let j = i + n.len();
    if n.len() == 0 {
        assert(bytes_occur_at(h, n, 0)) by {
            assert(h.subrange(0, 0) =~= n);
        }
        assert(i == 0);
        assert(is_char_boundary(h, 0));
    } else {
        assert(h.subrange(i, j)[0] == h[i]);
        assert(is_char_boundary(n, 0));
        assert(!vstd::utf8::is_continuation_byte(n[0]));
        assert(is_char_boundary(h, i) <==> !vstd::utf8::is_continuation_byte(h[i]));
        assert(is_char_boundary(h, i));
        if j == h.len() {
            assert(is_char_boundary(h, h.len() as int));
        } else {
            let tail = h.subrange(i, h.len() as int);
            let r = h.subrange(j, h.len() as int);
            vstd::utf8::valid_utf8_split(h, i);
            assert(tail =~= n + r);
            lemma_valid_utf8_suffix(n, r);
            assert(is_char_boundary(r, 0));
            assert(!vstd::utf8::is_continuation_byte(r[0]));
            assert(r[0] == h[j]);
            assert(is_char_boundary(h, j) <==> !vstd::utf8::is_continuation_byte(h[j]));
        }
    }
}

/// Where the context around the first occurrence of `exact` at byte `i`
/// begins and ends: up to 32 bytes before it and after it.
pub open spec fn context_bounds(body_len: int, exact_len: int, i: int) -> (int, int) {
    (
        if i >= 32 { i - 32 } else { 0 },
        if i + exact_len + 32 <= body_len { i + exact_len + 32 } else { body_len },
    )
}

/// The context bytes around the first occurrence fall on character
/// boundaries (else slicing them out panics).
pub open spec fn context_defined(body: Seq<char>, exact: Seq<char>) -> bool {
    let h = encode_utf8(body);
    let n = encode_utf8(exact);
    forall|i: int|
        first_bytes_occurrence(h, n, i) ==> {
            let (a, b) = context_bounds(h.len() as int, n.len() as int, i);
            &&& is_char_boundary(h, a)
            &&& is_char_boundary(h, b)
        }
}

/// Derive TextQuote-style prefix/suffix from the markdown body: the bytes
/// just before and after the first occurrence of the exact text (at most 32
/// each); two empty strings when it does not occur.
pub fn quote_context(body: &str, exact: &str) -> (r: (String, String))
    requires
        context_defined(body@, exact@),
    ensures
        forall|i: int|
            first_bytes_occurrence(encode_utf8(body@), encode_utf8(exact@), i) ==> {
                let h = encode_utf8(body@);
                let n = encode_utf8(exact@);
                let (a, b) = context_bounds(h.len() as int, n.len() as int, i);
                &&& encode_utf8(r.0@) == h.subrange(a, i)
                &&& encode_utf8(r.1@) == h.subrange(i + n.len(), b)
            },
        (forall|i: int| !bytes_occur_at(encode_utf8(body@), encode_utf8(exact@), i)) ==> r.0@.len()
            == 0 && r.1@.len() == 0,
{
    let h = body.as_bytes();
    let n = exact.as_bytes();
    match find_bytes(h, n) {
        Some(index) => {
            let prefix_start: usize = if index >= CONTEXT_CHARS { index - CONTEXT_CHARS } else { 0 };
            assert(first_bytes_occurrence(h@, n@, index as int));
            assert(index + n@.len() <= h@.len());
            assert(n@.len() == n.len() && h@.len() == h.len());
            let after: usize = index + n.len();
            let suffix_end: usize = if h.len() >= CONTEXT_CHARS && after <= h.len() - CONTEXT_CHARS {
                after + CONTEXT_CHARS
            } else {
                h.len()
            };
            proof {
                broadcast use vstd::utf8::encode_utf8_valid_utf8;
                broadcast use vstd::utf8::is_char_boundary_iff_not_is_continuation_byte;
                broadcast use vstd::utf8::is_char_boundary_start_end_of_seq;
                assert(first_bytes_occurrence(h@, n@, index as int));
                lemma_match_on_boundaries(h@, n@, index as int);
                let (a, b) = context_bounds(h@.len() as int, n@.len() as int, index as int);
                assert(a == prefix_start && b == suffix_end);
                assert forall|i: int| first_bytes_occurrence(h@, n@, i) implies i == index by {
                    if i < index {
                    } else if i > index {
                    }
                }
            }
            let p = byte_range_text(body, prefix_start, index);
            let s = byte_range_text(body, after, suffix_end);
            (p, s)
        },
        None => (String::new(), String::new()),
    }
}

} // verus!

verus! {

pub open spec fn row_matches_item(row: HighlightRow, article_id: i64, item: FrontMatterHighlight) -> bool {
    &&& row.id@ == item.id@
    &&& row.article_id == article_id
    &&& row.text@ == item.text@
    &&& opt_view(row.note) == opt_view(item.note)
    &&& row.prefix@ == item.prefix@
    &&& row.suffix@ == item.suffix@
    &&& row.created_at@ == item.created_at@
}

/// The frontmatter copy of a stored highlight.
pub fn to_frontmatter(row: &HighlightRow) -> (r: FrontMatterHighlight)
    ensures
        row_matches_item(*row, row.article_id, r),
{
    FrontMatterHighlight {
        id: row.id.clone(),
        text: row.text.clone(),
        note: copy_opt(&row.note),
        prefix: row.prefix.clone(),
        suffix: row.suffix.clone(),
        created_at: row.created_at.clone(),
    }
}

/// The stored highlight of an article for a frontmatter entry.
pub fn from_frontmatter(article_id: i64, item: &FrontMatterHighlight) -> (r: HighlightRow)
    ensures
        row_matches_item(r, article_id, *item),
{
    HighlightRow {
        id: item.id.clone(),
        article_id,
        text: item.text.clone(),
        note: copy_opt(&item.note),
        prefix: item.prefix.clone(),
        suffix: item.suffix.clone(),
        created_at: item.created_at.clone(),
    }
}

/// A highlight survives the trip into frontmatter and back: every field of
/// the row read back equals the row written.
pub proof fn lemma_highlight_roundtrip(
    row: HighlightRow,
    item: FrontMatterHighlight,
    back: HighlightRow,
)
    requires
        row_matches_item(row, row.article_id, item),
        row_matches_item(back, row.article_id, item),
    ensures
        back.id@ == row.id@,
        back.article_id == row.article_id,
        back.text@ == row.text@,
        opt_view(back.note) == opt_view(row.note),
        back.prefix@ == row.prefix@,
        back.suffix@ == row.suffix@,
        back.created_at@ == row.created_at@,
{
}

/// A note as stored: trimmed, and none when blank.
pub fn normalize_note(note: Option<String>) -> (r: Option<String>)
    ensures
        opt_view(r) == filled_opt(opt_view(note)),
{
    match note {
        Some(n) => crate::extract::metadata::non_empty(n.as_str()),
        None => None,
    }
}

/// The fields of a new highlight: the trimmed text (which must not be
/// blank), the normalized note, and the given TextQuote context, or the
/// context found in the body when either side is missing.
pub fn highlight_fields(body: &str, input: HighlightInput) -> (r: Result<
    (String, Option<String>, String, String),
    TidyError,
>)
    requires
        trim(input.text@).len() > 0 && (input.prefix is None || input.suffix is None) ==> context_defined(
            body@,
            trim(input.text@),
        ),
    ensures
        trim(input.text@).len() == 0 ==> (r matches Err(TidyError::Message(m)) && m@
            == "highlight text is required"@),
        trim(input.text@).len() > 0 ==> (r matches Ok((text, note, prefix, suffix)) && {
            &&& text@ == trim(input.text@)
            &&& opt_view(note) == filled_opt(opt_view(input.note))
            &&& match (input.prefix, input.suffix) {
                (Some(p), Some(s)) => prefix@ == p@ && suffix@ == s@,
                _ => forall|i: int|
                    first_bytes_occurrence(encode_utf8(body@), encode_utf8(text@), i) ==> {
                        let h = encode_utf8(body@);
                        let n = encode_utf8(text@);
                        let (a, b) = context_bounds(h.len() as int, n.len() as int, i);
                        &&& encode_utf8(prefix@) == h.subrange(a, i)
                        &&& encode_utf8(suffix@) == h.subrange(i + n.len(), b)
                    },
            }
        }),
{
    let t = trimmed(chars_of(input.text.as_str()).as_slice());
    if t.len() == 0 {
        proof {
            reveal_strlit("highlight text is required");
        }
        return Err(TidyError::Message("highlight text is required".to_owned()));
    }
    let text = string_of(t.as_slice());
    let (prefix, suffix) = match (input.prefix, input.suffix) {
        (Some(p), Some(s)) => (p, s),
        _ => quote_context(body, text.as_str()),
    };
    let note = normalize_note(input.note);
    Ok((text, note, prefix, suffix))
}

} // verus!
