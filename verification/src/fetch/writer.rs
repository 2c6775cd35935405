//! Markdown documents with YAML frontmatter: the fences around the YAML,
//! finding the YAML and the body again, and where an article file goes.
use vstd::prelude::*;
use crate::error::TidyError;
use crate::fetch::slug::{short_hash, short_hash_of};
use crate::text::{
    chars_eq, chars_of, concat_vec, contains, first_occurrence, find, has_prefix, matches_at, occurs_at,
    slice_vec, starts_with, string_of, trim_end, trim_end_index, trim_start, trim_start_index,
};

verus! {

/// Durable highlight stored in article frontmatter (TextQuote-style anchors).
#[derive(Debug, Clone, PartialEq, Eq)]
pub struct FrontMatterHighlight {
    pub id: String,
    pub text: String,
    pub note: Option<String>,
    pub prefix: String,
    pub suffix: String,
    pub created_at: String,
}

#[derive(Debug, Clone)]
pub struct ExtractionInfo {
    pub engine: String,
    pub quality: String,
}

/// The frontmatter of an article file.
#[derive(Debug, Clone)]
pub struct ArticleFrontMatter {
    pub title: String,
    pub url: String,
    pub source: String,
    pub author: Option<String>,
    pub published: Option<String>,
    pub fetched: String,
    pub tags: Vec<String>,
    pub word_count: u32,
    pub reading_time: u32,
    pub lang: Option<String>,
    pub excerpt: String,
    pub state: String,
    pub starred: bool,
    pub archived: bool,
    pub highlights: Vec<FrontMatterHighlight>,
    pub content_hash: String,
    pub revision: u32,
    pub extraction: ExtractionInfo,
}

#[derive(Debug, Clone, Copy, PartialEq, Eq, Structural)]
pub enum WriteOutcomeStatus {
    Created,
    Updated,
    Unchanged,
}

#[derive(Debug, Clone)]
pub struct WriteOutcome {
    pub relative_path: String,
    pub absolute_path: String,
    pub status: WriteOutcomeStatus,
}

/// `s` with every leading copy of `p` removed (`str::trim_start_matches`).
pub open spec fn strip_repeated(s: Seq<char>, p: Seq<char>) -> Seq<char>
    decreases s.len(),
{
    if p.len() > 0 && starts_with(s, p) {
        strip_repeated(s.skip(p.len() as int), p)
    } else {
        s
    }
}

/// The YAML as it stands between the fences: leading `---\n` lines and
/// trailing whitespace removed.
pub open spec fn fenced_yaml(yaml: Seq<char>) -> Seq<char> {
    trim_end(strip_repeated(yaml, "---\n"@))
}

/// The document: YAML between `---` fences, a blank line, the body without
/// trailing whitespace, a final newline.
pub open spec fn document_of(yaml: Seq<char>, body: Seq<char>) -> Seq<char> {
    "---\n"@ + fenced_yaml(yaml) + "\n---\n\n"@ + trim_end(body) + "\n"@
}

fn strip_repeated_index(s: &[char], p: &[char]) -> (r: usize)
    ensures
        r <= s@.len(),
        strip_repeated(s@, p@) == s@.skip(r as int),
{
    let mut i: usize = 0;
    assert(s@.skip(0) =~= s@);
    while p.len() > 0 && matches_at(s, p, i)
        invariant
            i <= s@.len(),
            strip_repeated(s@, p@) == strip_repeated(s@.skip(i as int), p@),
        decreases s.len() - i,
    {
        assert(s@.skip(i as int).take(p@.len() as int) =~= s@.subrange(i as int, i + p@.len()));
        assert(s@.skip(i as int).skip(p@.len() as int) =~= s@.skip(i + p@.len()));
        i = i + p.len();
    }
    proof {
        if p@.len() > 0 && i + p@.len() <= s@.len() {
            assert(s@.skip(i as int).take(p@.len() as int) =~= s@.subrange(i as int, i + p@.len()));
        }
    }
    i
}

/// Wrap YAML (as a serializer writes it) and a Markdown body into a document.
pub fn render_document(yaml: &str, markdown_body: &str) -> (r: String)
    ensures
        r@ == document_of(yaml@, markdown_body@),
{
    let y = chars_of(yaml);
    let fence = chars_of("---\n");
    let close = chars_of("\n---\n\n");
    let nl = chars_of("\n");
    proof {
        reveal_strlit("---\n");
        reveal_strlit("\n---\n\n");
        reveal_strlit("\n");
    }
    let a = strip_repeated_index(y.as_slice(), fence.as_slice());
    let rest = slice_vec(y.as_slice(), a, y.len());
    assert(rest@ =~= y@.skip(a as int));
    let e = trim_end_index(rest.as_slice());
    let inner = slice_vec(rest.as_slice(), 0, e);
    let b = chars_of(markdown_body);
    let be = trim_end_index(b.as_slice());
    let body = slice_vec(b.as_slice(), 0, be);
    let d1 = concat_vec(fence.as_slice(), inner.as_slice());
    let d2 = concat_vec(d1.as_slice(), close.as_slice());
    let d3 = concat_vec(d2.as_slice(), body.as_slice());
    let d4 = concat_vec(d3.as_slice(), nl.as_slice());
    string_of(d4.as_slice())
}

/// What follows the opening `---` of a text that starts (after leading
/// whitespace) with one.
pub open spec fn after_fence(text: Seq<char>) -> Seq<char> {
    trim_start(text).skip(3)
}

pub open spec fn has_fence(text: Seq<char>) -> bool {
    starts_with(trim_start(text), "---"@)
}

/// The YAML block of a document: `Ok(None)` when the text does not open with
/// `---`; the text up to the first closing `\n---`; an error when there is
/// none.
pub fn parse_frontmatter(text: &str) -> (r: Result<Option<String>, TidyError>)
    ensures
        !has_fence(text@) ==> r matches Ok(None),
        has_fence(text@) ==> match r {
            Ok(Some(y)) => exists|i: int|
                first_occurrence(after_fence(text@), "\n---"@, i) && y@ == after_fence(
                    text@,
                ).take(i),
            Err(TidyError::Message(m)) => !contains(after_fence(text@), "\n---"@) && m@
                == "unterminated frontmatter"@,
            _ => false,
        },
{
    let cs = chars_of(text);
    let a = trim_start_index(cs.as_slice());
    let trimmed = slice_vec(cs.as_slice(), a, cs.len());
    assert(trimmed@ =~= trim_start(text@));
    let fence = chars_of("---");
    proof {
        reveal_strlit("---");
        reveal_strlit("\n---");
        reveal_strlit("unterminated frontmatter");
    }
    if !has_prefix(trimmed.as_slice(), fence.as_slice()) {
        return Ok(None);
    }
    let rest = slice_vec(trimmed.as_slice(), 3, trimmed.len());
    assert(rest@ =~= after_fence(text@));
    let close = chars_of("\n---");
    match find(rest.as_slice(), close.as_slice()) {
        Some(end) => {
            let y = slice_vec(rest.as_slice(), 0, end);
            assert(y@ =~= rest@.take(end as int));
            Ok(Some(string_of(y.as_slice())))
        },
        None => Err(TidyError::Message("unterminated frontmatter".to_owned())),
    }
}

/// The body of a document: after the closing fence and one newline; the text
/// itself when it has no frontmatter or no closing fence.
pub open spec fn body_after(text: Seq<char>, i: int) -> Seq<char> {
    let after = after_fence(text).skip(i + 4);
    if after.len() > 0 && after[0] == '\n' {
        after.skip(1)
    } else {
        after
    }
}

pub fn strip_frontmatter_body(text: &str) -> (r: String)
    ensures
        !has_fence(text@) ==> r@ == text@,
        has_fence(text@) && !contains(after_fence(text@), "\n---"@) ==> r@ == text@,
        has_fence(text@) ==> forall|i: int|
            first_occurrence(after_fence(text@), "\n---"@, i) ==> r@ == body_after(text@, i),
{
    let cs = chars_of(text);
    let a = trim_start_index(cs.as_slice());
    let trimmed = slice_vec(cs.as_slice(), a, cs.len());
    assert(trimmed@ =~= trim_start(text@));
    let fence = chars_of("---");
    proof {
        reveal_strlit("---");
        reveal_strlit("\n---");
    }
    if !has_prefix(trimmed.as_slice(), fence.as_slice()) {
        return string_of(cs.as_slice());
    }
    let rest = slice_vec(trimmed.as_slice(), 3, trimmed.len());
    assert(rest@ =~= after_fence(text@));
    let close = chars_of("\n---");
    match find(rest.as_slice(), close.as_slice()) {
        Some(end) => {
            let after = slice_vec(rest.as_slice(), end + 4, rest.len());
            assert(after@ =~= after_fence(text@).skip(end + 4));
            proof {
                assert forall|i: int| first_occurrence(after_fence(text@), "\n---"@, i) implies i
                    == end by {
                    if i < end {
                    } else if i > end {
                    }
                }
            }
            if after.len() > 0 && after[0] == '\n' {
                let b = slice_vec(after.as_slice(), 1, after.len());
                assert(b@ =~= after@.skip(1));
                string_of(b.as_slice())
            } else {
                string_of(after.as_slice())
            }
        },
        None => string_of(cs.as_slice()),
    }
}

/// `Sources/<source>/<stem>.md`, or with `-<short hash of the URL>` before
/// the extension when that file already belongs to another URL.
pub open spec fn article_path_of(
    source_slug: Seq<char>,
    stem: Seq<char>,
    url: Seq<char>,
    occupant_url: Option<Seq<char>>,
) -> Seq<char> {
    match occupant_url {
        Some(u) if u != url => "Sources/"@ + source_slug + "/"@ + stem + "-"@ + short_hash_of(url)
            + ".md"@,
        _ => "Sources/"@ + source_slug + "/"@ + stem + ".md"@,
    }
}

/// Where an article file is written, relative to the vault root, given the
/// URL in the frontmatter of a file already at the default place, if any:
/// the article's place in the vault, which the caller then writes.
pub fn write_article_file(
    source_slug: &str,
    stem: &str,
    url: &str,
    occupant_url: Option<&str>,
) -> (r: String)
    ensures
        r@ == article_path_of(
            source_slug@,
            stem@,
            url@,
            match occupant_url {
                Some(u) => Some(u@),
                None => None,
            },
        ),
{
    let sources = chars_of("Sources/");
    let slash = chars_of("/");
    let md = chars_of(".md");
    let dash = chars_of("-");
    proof {
        reveal_strlit("Sources/");
        reveal_strlit("/");
        reveal_strlit(".md");
        reveal_strlit("-");
    }
    let s1 = concat_vec(sources.as_slice(), chars_of(source_slug).as_slice());
    let s2 = concat_vec(s1.as_slice(), slash.as_slice());
    let s3 = concat_vec(s2.as_slice(), chars_of(stem).as_slice());
    let url_chars = chars_of(url);
    let collides = match occupant_url {
        Some(u) => !chars_eq(chars_of(u).as_slice(), url_chars.as_slice()),
        None => false,
    };
    let s4 = if collides {
        let with_dash = concat_vec(s3.as_slice(), dash.as_slice());
        let h = short_hash(url);
        concat_vec(with_dash.as_slice(), chars_of(h.as_str()).as_slice())
    } else {
        s3
    };
    let s5 = concat_vec(s4.as_slice(), md.as_slice());
    string_of(s5.as_slice())
}

/// The outcome of writing a document where `current` is the file's text when
/// it already existed: unchanged when equal, else updated; created when new.
pub fn write_status(current: Option<&str>, document: &str) -> (r: WriteOutcomeStatus)
    ensures
        r == match current {
            Some(c) => if c@ == document@ {
                WriteOutcomeStatus::Unchanged
            } else {
                WriteOutcomeStatus::Updated
            },
            None => WriteOutcomeStatus::Created,
        },
{
    match current {
        Some(c) => if chars_eq(chars_of(c).as_slice(), chars_of(document).as_slice()) {
            WriteOutcomeStatus::Unchanged
        } else {
            WriteOutcomeStatus::Updated
        },
        None => WriteOutcomeStatus::Created,
    }
}

} // verus!

verus! {

/// Reading back a rendered document: when the YAML holds no line that starts
/// with `---`, the closing fence found is the one rendering wrote, so the
/// block read back is a newline and the fenced YAML, and the body read back
/// is a newline, the body without trailing whitespace, and a newline.
pub proof fn lemma_document_roundtrip(yaml: Seq<char>, body: Seq<char>)
    requires
        !contains("\n"@ + fenced_yaml(yaml), "\n---"@),
    ensures
        has_fence(document_of(yaml, body)),
        first_occurrence(
            after_fence(document_of(yaml, body)),
            "\n---"@,
            fenced_yaml(yaml).len() + 1int,
        ),
        after_fence(document_of(yaml, body)).take(fenced_yaml(yaml).len() + 1int) == "\n"@
            + fenced_yaml(yaml),
        body_after(document_of(yaml, body), fenced_yaml(yaml).len() + 1int) == "\n"@ + trim_end(body)
            + "\n"@,
{
    reveal_strlit("---\n");
    reveal_strlit("\n---\n\n");
    reveal_strlit("\n");
    reveal_strlit("---");
    reveal_strlit("\n---");
    reveal_strlit("\n\n");
    let y = fenced_yaml(yaml);
    let b = trim_end(body);
    let doc = document_of(yaml, body);
    assert(doc[0] == '-');
    assert(trim_start(doc) == doc);
    assert(doc.take(3) =~= "---"@);
    let rest = after_fence(doc);
    let head = "\n"@ + y;
    let k: int = y.len() + 1int;
    assert(rest =~= head + "\n---\n\n"@ + b + "\n"@);
    assert(rest.subrange(k, k + 4) =~= "\n---"@);
    assert(rest.take(k) =~= head);
    assert forall|j: int| 0 <= j < k implies !occurs_at(rest, "\n---"@, j) by {
        if occurs_at(rest, "\n---"@, j) {
            if j + 4 <= k {
                assert(head.subrange(j, j + 4) =~= rest.subrange(j, j + 4));
                assert(occurs_at(head, "\n---"@, j));
            } else {
                assert(rest[k] == '\n');
                assert(rest.subrange(j, j + 4)[k - j] == rest[k]);
                assert("\n---"@[k - j] == '-');
            }
        }
    }
    let after = rest.skip(k + 4);
    assert(after =~= "\n\n"@ + b + "\n"@);
    assert(after[0] == '\n');
    assert(after.skip(1) =~= "\n"@ + b + "\n"@);
}

} // verus!
