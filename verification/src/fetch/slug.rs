//! File-system names for sources and articles.
use vstd::prelude::*;
use crate::digest::{digest_chars, text_digest};
use crate::text::{
    chars_of, concat_vec, is_ascii_alnum, is_ascii_alphanumeric, lower, lower_char, lowercase,
    slice_vec, string_of, to_ascii_lower, trim, trim_char, trimmed, trimmed_char,
};
use crate::weburl::{UrlView, WebUrl};

verus! {

/// A character that survives in a slug as it is (lower-cased).
pub open spec fn slug_char(c: char) -> bool {
    is_ascii_alnum(c) || c == '-' || c == '_'
}

/// The left-to-right scan of `sanitize_slug`: kept characters lower-cased,
/// each run of other characters replaced by one dash (none right after a
/// dash); with whether the output last ended in a dash.
pub open spec fn slug_scan(s: Seq<char>) -> (Seq<char>, bool)
    decreases s.len(),
{
    if s.len() == 0 {
        (Seq::empty(), false)
    } else {
        let (out, prev_dash) = slug_scan(s.drop_last());
        let c = s.last();
        if slug_char(c) {
            (out.push(lower_char(c)), c == '-')
        } else if !prev_dash {
            (out.push('-'), true)
        } else {
            (out, prev_dash)
        }
    }
}

/// The first `max` characters.
pub open spec fn truncated(s: Seq<char>, max: nat) -> Seq<char> {
    if s.len() <= max {
        s
    } else {
        s.take(max as int)
    }
}

/// A file-system safe slug: dashes trimmed, "source" when nothing is left,
/// at most 80 characters.
pub open spec fn sanitized(s: Seq<char>) -> Seq<char> {
    let t = trim_char(slug_scan(s).0, '-');
    if t.len() == 0 {
        "source"@
    } else {
        truncated(t, 80)
    }
}

/// Every character replaced by `to` where it equals `from`.
pub open spec fn replace_char(s: Seq<char>, from: char, to: char) -> Seq<char> {
    s.map_values(|c: char| if c == from { to } else { c })
}

/// The slug of a source directory: the lower-cased host (or "source"), then
/// the path without its outer slashes, slashes made dashes, lower-cased.
pub open spec fn source_slug_of(prefix: UrlView) -> Seq<char> {
    let host = lower(
        match prefix.host {
            Some(h) => h,
            None => "source"@,
        },
    );
    let path = lower(replace_char(trim_char(prefix.path, '/'), '/', '-'));
    sanitized(if path.len() == 0 { host } else { host + "-"@ + path })
}

pub fn truncate(input: &[char], max: usize) -> (r: Vec<char>)
    ensures
        r@ == truncated(input@, max as nat),
{
    if input.len() <= max {
        slice_vec(input, 0, input.len())
    } else {
        slice_vec(input, 0, max)
    }
}

pub fn sanitize_slug(input: &[char]) -> (r: Vec<char>)
    ensures
        r@ == sanitized(input@),
{
    let mut out: Vec<char> = Vec::new();
    let mut prev_dash = false;
    let mut i: usize = 0;
    while i < input.len()
        invariant
            i <= input@.len(),
            (out@, prev_dash) == slug_scan(input@.take(i as int)),
        decreases input.len() - i,
    {
        assert(input@.take(i + 1).drop_last() =~= input@.take(i as int));
        let ch = input[i];
        let ok = is_ascii_alphanumeric(ch) || ch == '-' || ch == '_';
        if ok {
            out.push(to_ascii_lower(ch));
            prev_dash = ch == '-';
        } else if !prev_dash {
            out.push('-');
            prev_dash = true;
        }
        i = i + 1;
    }
    assert(input@.take(input@.len() as int) =~= input@);
    let t = trimmed_char(out.as_slice(), '-');
    if t.len() == 0 {
        proof {
            reveal_strlit("source");
        }
        chars_of("source")
    } else {
        truncate(t.as_slice(), 80)
    }
}

fn replace_slashes(s: &[char]) -> (r: Vec<char>)
    ensures
        r@ == replace_char(s@, '/', '-'),
{
    let mut out: Vec<char> = Vec::new();
    let mut i: usize = 0;
    while i < s.len()
        invariant
            i <= s@.len(),
            out@ == replace_char(s@.take(i as int), '/', '-'),
        decreases s.len() - i,
    {
        let c = s[i];
        out.push(if c == '/' { '-' } else { c });
        assert(out@ =~= replace_char(s@.take(i + 1), '/', '-'));
        i = i + 1;
    }
    assert(s@.take(s@.len() as int) =~= s@);
    out
}

/// Build a file-system safe source directory slug from a URL prefix.
pub fn source_slug(prefix: &WebUrl) -> (r: String)
    ensures
        r@ == source_slug_of(prefix@),
{
    let host_chars = match prefix.host() {
        Some(h) => lowercase(h),
        None => {
            let s = chars_of("source");
            proof {
                reveal_strlit("source");
            }
            lowercase(s.as_slice())
        },
    };
    let inner = trimmed_char(prefix.path(), '/');
    let dashed = replace_slashes(inner.as_slice());
    let path = lowercase(dashed.as_slice());
    let raw = if path.len() == 0 {
        host_chars
    } else {
        let dash = chars_of("-");
        proof {
            reveal_strlit("-");
        }
        let with_dash = concat_vec(host_chars.as_slice(), dash.as_slice());
        concat_vec(with_dash.as_slice(), path.as_slice())
    };
    let s = sanitize_slug(raw.as_slice());
    string_of(s.as_slice())
}

/// The UTF-8 bytes of the trimmed value.
pub open spec fn trimmed_bytes(value: Seq<char>) -> Seq<u8> {
    vstd::utf8::encode_utf8(trim(value))
}

/// `parse_date_prefix` slices the first ten bytes of the trimmed value: it is
/// defined when the value is shorter or ten bytes end a character.
pub open spec fn date_prefix_defined(value: Seq<char>) -> bool {
    trimmed_bytes(value).len() < 10 || vstd::utf8::is_char_boundary(trimmed_bytes(value), 10)
}

/// The bytes begin with `YYYY-MM-DD`: dashes at 4 and 7, ASCII digits at the
/// other eight of the first ten.
pub open spec fn date_shaped(b: Seq<u8>) -> bool {
    &&& b.len() >= 10
    &&& b[4] == 45u8 && b[7] == 45u8
    &&& forall|i: int| 0 <= i < 10 && i != 4 && i != 7 ==> 48u8 <= #[trigger] b[i] <= 57u8
}

/// The first ten bytes of the trimmed value, when they read `YYYY-MM-DD`.
pub open spec fn date_prefix_of(value: Seq<char>) -> Option<Seq<char>> {
    let b = trimmed_bytes(value);
    if date_shaped(b) {
        Some(vstd::utf8::decode_utf8(b.take(10)))
    } else {
        None
    }
}

fn is_digit(b: u8) -> (r: bool)
    ensures
        r == (48u8 <= b <= 57u8),
{
    48u8 <= b && b <= 57u8
}

pub fn parse_date_prefix(value: &str) -> (r: Option<String>)
    requires
        date_prefix_defined(value@),
    ensures
        match (r, date_prefix_of(value@)) {
            (Some(d), Some(e)) => d@ == e,
            (None, None) => true,
            _ => false,
        },
{
    let cs = chars_of(value);
    let t = string_of(trimmed(cs.as_slice()).as_slice());
    let ts: &str = t.as_str();
    let bytes = ts.as_bytes();
    assert(bytes@ == trimmed_bytes(value@));
    if bytes.len() >= 10 {
        if bytes[4] == 45u8 && bytes[7] == 45u8 && is_digit(bytes[0]) && is_digit(bytes[1])
            && is_digit(bytes[2]) && is_digit(bytes[3]) && is_digit(bytes[5]) && is_digit(bytes[6])
            && is_digit(bytes[8]) && is_digit(bytes[9]) {
            assert(date_shaped(bytes@));
            let (head, _tail) = ts.split_at(10);
            let d = head.to_owned();
            proof {
                broadcast use vstd::utf8::encode_utf8_decode_utf8;
                assert(vstd::utf8::encode_utf8(d@) == bytes@.take(10));
                assert(vstd::utf8::decode_utf8(vstd::utf8::encode_utf8(d@)) == d@);
            }
            return Some(d);
        }
    }
    None
}

/// `slug::slugify` of a text.
pub uninterp spec fn slugified(s: Seq<char>) -> Seq<char>;

/// The shape the `slug` crate documents for its output: only `a-z`, `0-9`
/// and `-`, never two `-` in a row, and no `-` at either end.
pub open spec fn slug_shaped(s: Seq<char>) -> bool {
    &&& forall|i: int|
        0 <= i < s.len() ==> ('a' <= #[trigger] s[i] <= 'z' || '0' <= s[i] <= '9' || s[i] == '-')
    &&& forall|i: int| 0 <= i < s.len() - 1 ==> !(#[trigger] s[i] == '-' && s[i + 1] == '-')
    &&& (s.len() > 0 ==> s[0] != '-' && s.last() != '-')
}

/// `slug::slugify`. Claimed: the slug is a function of the text alone, and
/// has the documented shape.
#[verifier::external_body]
fn slugify(s: &str) -> (r: String)
    ensures
        r@ == slugified(s@),
        slug_shaped(r@),
{
    slug::slugify(s)
}

/// The first eight hexadecimal digits of the SHA-256 digest of the text.
pub open spec fn short_hash_of(input: Seq<char>) -> Seq<char> {
    text_digest(input).take(8)
}

pub fn short_hash(input: &str) -> (r: String)
    ensures
        r@ == short_hash_of(input@),
{
    let d = digest_chars(input);
    string_of(slice_vec(d.as_slice(), 0, 8).as_slice())
}

/// The slug part of an article file name: the title's slug, else the slug of
/// the URL path (slashes as dashes), else the URL's short hash; at most 80
/// characters.
pub open spec fn stem_slug(title: Seq<char>, url: UrlView) -> Seq<char> {
    let a = slugified(title);
    let b = replace_char(slugified(url.path), '/', '-');
    truncated(
        if a.len() > 0 {
            a
        } else if b.len() > 0 {
            b
        } else {
            short_hash_of(url.href)
        },
        80,
    )
}

/// `YYYY-MM-DD-<slug>`: the published date prefix, or 1970-01-01.
pub open spec fn article_stem_of(title: Seq<char>, url: UrlView, published: Option<Seq<char>>) -> Seq<
    char,
> {
    let date = match published {
        Some(p) => match date_prefix_of(p) {
            Some(d) => d,
            None => "1970-01-01"@,
        },
        None => "1970-01-01"@,
    };
    date + "-"@ + stem_slug(title, url)
}

/// `YYYY-MM-DD-<slug>` stem for an article markdown file (without extension).
pub fn article_stem(title: &str, url: &WebUrl, published: Option<&str>) -> (r: String)
    requires
        published matches Some(p) ==> date_prefix_defined(p@),
    ensures
        r@ == article_stem_of(
            title@,
            url@,
            match published {
                Some(p) => Some(p@),
                None => None,
            },
        ),
{
    let parsed = match published {
        Some(p) => parse_date_prefix(p),
        None => None,
    };
    let date = match parsed {
        Some(d) => chars_of(d.as_str()),
        None => {
            proof {
                reveal_strlit("1970-01-01");
            }
            chars_of("1970-01-01")
        },
    };
    let mut slug = chars_of(slugify(title).as_str());
    if slug.len() == 0 {
        let p = string_of(url.path());
        let s = chars_of(slugify(p.as_str()).as_str());
        slug = replace_slashes(s.as_slice());
    }
    if slug.len() == 0 {
        let h = url.as_str();
        slug = chars_of(short_hash(h.as_str()).as_str());
    }
    let slug = truncate(slug.as_slice(), 80);
    let dash = chars_of("-");
    proof {
        reveal_strlit("-");
    }
    let head = concat_vec(date.as_slice(), dash.as_slice());
    let all = concat_vec(head.as_slice(), slug.as_slice());
    string_of(all.as_slice())
}

} // verus!

verus! {

proof fn lemma_scan_chars(s: Seq<char>)
    ensures
        forall|i: int|
            0 <= i < slug_scan(s).0.len() ==> slug_char(#[trigger] slug_scan(s).0[i])
                && !('A' <= slug_scan(s).0[i] && slug_scan(s).0[i] <= 'Z'),
    decreases s.len(),
{
    if s.len() > 0 {
        lemma_scan_chars(s.drop_last());
        let c = s.last();
        let (out, prev) = slug_scan(s.drop_last());
        if slug_char(c) {
            let x = lower_char(c);
            if 'A' <= c && c <= 'Z' {
                assert(x == ((c as u32) + 32) as char);
                assert('a' <= x && x <= 'z');
            } else {
                assert(x == c);
            }
            assert(slug_scan(s).0 == out.push(x));
            assert forall|i: int| 0 <= i < out.push(x).len() implies slug_char(#[trigger] out.push(x)[i])
                && !('A' <= out.push(x)[i] && out.push(x)[i] <= 'Z') by {
                if i < out.len() {
                    assert(out.push(x)[i] == out[i]);
                }
            }
        } else if !prev {
            assert(slug_scan(s).0 == out.push('-'));
            assert forall|i: int| 0 <= i < out.push('-').len() implies slug_char(#[trigger] out.push('-')[i])
                && !('A' <= out.push('-')[i] && out.push('-')[i] <= 'Z') by {
                if i < out.len() {
                    assert(out.push('-')[i] == out[i]);
                }
            }
        } else {
            assert(slug_scan(s).0 == out);
        }
    }
}

proof fn lemma_trim_char_sub(s: Seq<char>, c: char)
    ensures
        exists|a: int, b: int| 0 <= a <= b <= s.len() && trim_char(s, c) == s.subrange(a, b),
        trim_char(s, c).len() > 0 ==> trim_char(s, c)[0] != c && trim_char(s, c).last() != c,
{
    let a = crate::text::trim_start_char(s, c);
    lemma_trim_start_sub(s, c);
    lemma_trim_end_sub(a, c);
    let i = choose|i: int| 0 <= i <= s.len() && a == s.skip(i);
    let j = choose|j: int| 0 <= j <= a.len() && crate::text::trim_end_char(a, c) == a.take(j);
    assert(trim_char(s, c) =~= s.subrange(i, i + j));
}

proof fn lemma_trim_start_sub(s: Seq<char>, c: char)
    ensures
        exists|i: int| 0 <= i <= s.len() && crate::text::trim_start_char(s, c) == s.skip(i),
        crate::text::trim_start_char(s, c).len() > 0 ==> crate::text::trim_start_char(s, c)[0] != c,
    decreases s.len(),
{
    if s.len() > 0 && s[0] == c {
        lemma_trim_start_sub(s.drop_first(), c);
        let i = choose|i: int| 0 <= i <= s.drop_first().len() && crate::text::trim_start_char(s.drop_first(), c) == s.drop_first().skip(i);
        assert(s.drop_first().skip(i) =~= s.skip(i + 1));
    } else {
        assert(s.skip(0) =~= s);
    }
}

proof fn lemma_trim_end_sub(s: Seq<char>, c: char)
    ensures
        exists|j: int| 0 <= j <= s.len() && crate::text::trim_end_char(s, c) == s.take(j),
        crate::text::trim_end_char(s, c).len() > 0 ==> crate::text::trim_end_char(s, c).last() != c,
        crate::text::trim_end_char(s, c).len() > 0 && s.len() > 0 && s[0] != c ==> crate::text::trim_end_char(s, c)[0] != c,
    decreases s.len(),
{
    if s.len() > 0 && s.last() == c {
        lemma_trim_end_sub(s.drop_last(), c);
        let j = choose|j: int| 0 <= j <= s.drop_last().len() && crate::text::trim_end_char(s.drop_last(), c) == s.drop_last().take(j);
        assert(s.drop_last().take(j) =~= s.take(j));
    } else {
        assert(s.take(s.len() as int) =~= s);
    }
}

/// A sanitized slug is safe as a directory name: it is not empty, holds at
/// most 80 characters, all of them lower-case ASCII letters, digits, `-` or
/// `_`, and neither starts nor ends with a dash.
pub proof fn lemma_sanitized_shape(s: Seq<char>)
    ensures
        0 < sanitized(s).len() <= 80,
        forall|i: int|
            0 <= i < sanitized(s).len() ==> slug_char(#[trigger] sanitized(s)[i]) && !(
            'A' <= sanitized(s)[i] && sanitized(s)[i] <= 'Z'),
        sanitized(s)[0] != '-',
{
    reveal_strlit("source");
    let scan = slug_scan(s).0;
    lemma_scan_chars(s);
    lemma_trim_char_sub(scan, '-');
    let t = trim_char(scan, '-');
    let (a, b) = choose|a: int, b: int| 0 <= a <= b <= scan.len() && t == scan.subrange(a, b);
    assert forall|i: int| 0 <= i < t.len() implies slug_char(#[trigger] t[i]) && !('A' <= t[i] && t[i] <= 'Z') by {
        assert(t[i] == scan[a + i]);
    }
    if t.len() > 0 {
        let out = truncated(t, 80);
        assert forall|i: int| 0 <= i < out.len() implies slug_char(#[trigger] out[i]) && !('A' <= out[i] && out[i] <= 'Z') by {
            assert(out[i] == t[i]);
        }
        assert(out[0] == t[0]);
    }
}

} // verus!
