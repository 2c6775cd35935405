//! Images referenced by article Markdown: finding `![alt](url)`, and the
//! names and places of downloaded copies.
use vstd::prelude::*;
use vstd::string::StringSliceAdditionalSpecFns;
use crate::discover::prefix::{after_last, after_last_exec};
use crate::error::TidyError;
use crate::fetch::slug::{short_hash, short_hash_of};
use crate::text::{
    chars_eq, chars_of, concat_vec, decimal, decimal_chars, has_prefix, is_ascii_alnum,
    is_ascii_alphanumeric, lower, lowercase, starts_with, string_of, trim, trimmed,
};
use crate::weburl::{join_url, url_join_result, UrlView, WebUrl};

verus! {

/// Byte positions of an image reference `![alt](url)` in Markdown.
#[derive(Debug, Clone, Copy, PartialEq, Eq, Structural)]
pub struct ImageMatch {
    pub start: usize,
    pub end: usize,
    pub alt_end: usize,
    pub url_start: usize,
    pub url_end: usize,
}

/// The first position at or after `from` holding byte `c`.
pub open spec fn first_byte_from(b: Seq<u8>, from: int, c: u8) -> Option<int>
    decreases b.len() - from,
{
    if from < 0 || from >= b.len() {
        None
    } else if b[from] == c {
        Some(from)
    } else {
        first_byte_from(b, from + 1, c)
    }
}

/// The image reference starting at byte `i`: `![`, the alt text up to the
/// first `]`, which `(` must follow, and the URL up to the next `)`.
pub open spec fn image_at(b: Seq<u8>, i: int) -> Option<ImageMatch> {
    if 0 <= i && i + 1 < b.len() && b[i] == 33u8 && b[i + 1] == 91u8 {
        match first_byte_from(b, i + 2, 93u8) {
            Some(p) => if p + 1 < b.len() && b[p + 1] == 40u8 {
                match first_byte_from(b, p + 2, 41u8) {
                    Some(q) => Some(
                        ImageMatch {
                            start: i as usize,
                            end: (q + 1) as usize,
                            alt_end: p as usize,
                            url_start: (p + 2) as usize,
                            url_end: q as usize,
                        },
                    ),
                    None => None,
                }
            } else {
                None
            },
            None => None,
        }
    } else {
        None
    }
}

pub proof fn lemma_first_byte_from(b: Seq<u8>, from: int, c: u8)
    ensures
        first_byte_from(b, from, c) matches Some(k) ==> from <= k < b.len() && b[k] == c,
    decreases b.len() - from,
{
    if 0 <= from < b.len() && b[from] != c {
        lemma_first_byte_from(b, from + 1, c);
    }
}

fn find_byte_from(b: &[u8], from: usize, c: u8) -> (r: Option<usize>)
    requires
        from <= b@.len(),
    ensures
        match r {
            Some(k) => first_byte_from(b@, from as int, c) == Some(k as int) && from <= k < b@.len(),
            None => first_byte_from(b@, from as int, c) is None,
        },
{
    let mut k: usize = from;
    while k < b.len()
        invariant
            from <= k <= b@.len(),
            first_byte_from(b@, from as int, c) == first_byte_from(b@, k as int, c),
        decreases b.len() - k,
    {
        if b[k] == c {
            return Some(k);
        }
        k = k + 1;
    }
    None
}

/// The first image reference in the Markdown (byte positions).
pub fn find_markdown_image(input: &str) -> (r: Option<ImageMatch>)
    ensures
        match r {
            Some(m) => image_at(input.spec_bytes(), m.start as int) == Some(m) && forall|j: int|
                0 <= j < m.start ==> image_at(input.spec_bytes(), j) is None,
            None => forall|j: int| image_at(input.spec_bytes(), j) is None,
        },
{
    let b = input.as_bytes();
    assert(b@ == input.spec_bytes());
    let mut i: usize = 0;
    while i < b.len() && i + 1 < b.len()
        invariant
            i <= b@.len(),
            b@ == input.spec_bytes(),
            forall|j: int| 0 <= j < i ==> image_at(b@, j) is None,
        decreases b.len() - i,
    {
        if b[i] == 33u8 && b[i + 1] == 91u8 {
            match find_byte_from(b, i + 2, 93u8) {
                Some(p) => {
                    if p + 1 < b.len() && b[p + 1] == 40u8 {
                        match find_byte_from(b, p + 2, 41u8) {
                            Some(q) => {
                                let m = ImageMatch { start: i, end: q + 1, alt_end: p, url_start: p + 2, url_end: q };
                                assert(m.start as int == i && m.end as int == q + 1 && m.alt_end as int == p
                                    && m.url_start as int == p + 2 && m.url_end as int == q);
                                assert(image_at(b@, i as int) == Some(m));
                                assert(forall|j: int| 0 <= j < m.start ==> image_at(b@, j) is None);
                                assert(b@ == input.spec_bytes());
                                return Some(m);
                            },
                            None => {},
                        }
                    }
                },
                None => {},
            }
        }
        i = i + 1;
    }
    assert forall|j: int| image_at(b@, j) is None by {
        if 0 <= j < i {
        }
    }
    None
}

} // verus!

verus! {

/// Each character kept when alphanumeric or one of `-_.`, else a dash.
pub open spec fn sanitized_filename(s: Seq<char>) -> Seq<char> {
    s.map_values(|c: char| if is_ascii_alnum(c) || c == '-' || c == '_' || c == '.' { c } else { '-' })
}

pub fn sanitize_filename(input: &str) -> (r: String)
    ensures
        r@ == sanitized_filename(input@),
{
    let cs = chars_of(input);
    let mut out: Vec<char> = Vec::new();
    let mut i: usize = 0;
    while i < cs.len()
        invariant
            i <= cs@.len(),
            cs@ == input@,
            out@ == sanitized_filename(cs@.take(i as int)),
        decreases cs.len() - i,
    {
        let c = cs[i];
        out.push(if is_ascii_alphanumeric(c) || c == '-' || c == '_' || c == '.' { c } else { '-' });
        assert(out@ =~= sanitized_filename(cs@.take(i + 1)));
        i = i + 1;
    }
    assert(cs@.take(cs@.len() as int) =~= cs@);
    string_of(out.as_slice())
}

/// The part of a text before its first occurrence of `c`.
pub open spec fn before_first(s: Seq<char>, c: char) -> Seq<char>
    decreases s.len(),
{
    if s.len() == 0 || s[0] == c {
        Seq::empty()
    } else {
        seq![s[0]] + before_first(s.drop_first(), c)
    }
}

pub fn before_first_exec(s: &[char], c: char) -> (r: Vec<char>)
    ensures
        r@ == before_first(s@, c),
{
    let mut k: usize = 0;
    while k < s.len() && s[k] != c
        invariant
            k <= s@.len(),
            forall|j: int| 0 <= j < k ==> s@[j] != c,
        decreases s.len() - k,
    {
        k = k + 1;
    }
    proof {
        lemma_before_first(s@, c, k as int);
    }
    crate::text::slice_vec(s, 0, k)
}

proof fn lemma_before_first(s: Seq<char>, c: char, k: int)
    requires
        0 <= k <= s.len(),
        forall|j: int| 0 <= j < k ==> s[j] != c,
        k == s.len() || s[k] == c,
    ensures
        before_first(s, c) == s.take(k),
    decreases s.len(),
{
    if s.len() == 0 || s[0] == c {
        assert(s.take(k) =~= Seq::<char>::empty());
    } else {
        lemma_before_first(s.drop_first(), c, k - 1);
        assert(s.take(k) =~= seq![s[0]] + s.drop_first().take(k - 1));
    }
}

/// The file extension for a downloaded image: from the content type's MIME
/// type when it is a known image type, else from the URL path's last
/// `.`-part when that is a known image extension (`jpeg` as `jpg`), else
/// `bin`.
pub open spec fn mime_extension(mime: Seq<char>) -> Option<Seq<char>> {
    if mime == "image/jpeg"@ || mime == "image/jpg"@ {
        Some("jpg"@)
    } else if mime == "image/png"@ {
        Some("png"@)
    } else if mime == "image/gif"@ {
        Some("gif"@)
    } else if mime == "image/webp"@ {
        Some("webp"@)
    } else if mime == "image/svg+xml"@ {
        Some("svg"@)
    } else if mime == "image/avif"@ {
        Some("avif"@)
    } else {
        None
    }
}

pub open spec fn path_extension(ext: Seq<char>) -> Option<Seq<char>> {
    if ext == "jpg"@ || ext == "jpeg"@ {
        Some("jpg"@)
    } else if ext == "png"@ || ext == "gif"@ || ext == "webp"@ || ext == "svg"@ || ext == "avif"@
        || ext == "bmp"@ {
        Some(ext)
    } else {
        None
    }
}

pub open spec fn extension_of(url: UrlView, content_type: Option<Seq<char>>) -> Seq<char> {
    let from_type = match content_type {
        Some(t) => mime_extension(lower(trim(before_first(t, ';')))),
        None => None,
    };
    match from_type {
        Some(e) => e,
        None => match path_extension(lower(after_last(url.path, '.'))) {
            Some(e) => e,
            None => "bin"@,
        },
    }
}

/// The stored extension follows the image's type: for a content type (its
/// part before `;`, trimmed, ignoring ASCII case) `image/X` with `X` one of
/// `png`, `gif`, `webp`, `avif` the extension is `X`; `image/jpeg` and
/// `image/jpg` give `jpg`, `image/svg+xml` gives `svg`. Without a content
/// type, a path ending in `.X` (ignoring ASCII case) with `X` one of `png`,
/// `gif`, `webp`, `svg`, `avif`, `bmp` gives `X`, and `.jpeg` or `.jpg`
/// give `jpg`.
pub proof fn lemma_extension_follows_type(url: UrlView, content_type: Option<Seq<char>>, x: Seq<char>)
    ensures
        content_type matches Some(t) && lower(trim(before_first(t, ';'))) == "image/"@ + x && (x
            == "png"@ || x == "gif"@ || x == "webp"@ || x == "avif"@) ==> extension_of(
            url,
            content_type,
        ) == x,
        content_type matches Some(t) && (lower(trim(before_first(t, ';'))) == "image/"@ + "jpeg"@
            || lower(trim(before_first(t, ';'))) == "image/"@ + "jpg"@) ==> extension_of(
            url,
            content_type,
        ) == "jpg"@,
        content_type matches Some(t) && lower(trim(before_first(t, ';'))) == "image/"@ + "svg+xml"@
            ==> extension_of(url, content_type) == "svg"@,
        content_type is None && lower(after_last(url.path, '.')) == x && (x == "png"@ || x == "gif"@
            || x == "webp"@ || x == "svg"@ || x == "avif"@ || x == "bmp"@) ==> extension_of(
            url,
            content_type,
        ) == x,
        content_type is None && (lower(after_last(url.path, '.')) == "jpeg"@ || lower(
            after_last(url.path, '.'),
        ) == "jpg"@) ==> extension_of(url, content_type) == "jpg"@,
{
    reveal_strlit("image/");
    reveal_strlit("png");
    reveal_strlit("gif");
    reveal_strlit("webp");
    reveal_strlit("avif");
    reveal_strlit("jpeg");
    reveal_strlit("jpg");
    reveal_strlit("svg+xml");
    reveal_strlit("svg");
    reveal_strlit("bmp");
    reveal_strlit("image/png");
    reveal_strlit("image/gif");
    reveal_strlit("image/webp");
    reveal_strlit("image/avif");
    reveal_strlit("image/jpeg");
    reveal_strlit("image/jpg");
    reveal_strlit("image/svg+xml");
    assert("image/"@ + "png"@ =~= "image/png"@);
    assert("image/"@ + "gif"@ =~= "image/gif"@);
    assert("image/"@ + "webp"@ =~= "image/webp"@);
    assert("image/"@ + "avif"@ =~= "image/avif"@);
    assert("image/"@ + "jpeg"@ =~= "image/jpeg"@);
    assert("image/"@ + "jpg"@ =~= "image/jpg"@);
    assert("image/"@ + "svg+xml"@ =~= "image/svg+xml"@);
    // Literals of one length differ at a position: at 6 for `image/...`, at 0
    // (or 1) for the bare extensions.
    assert("image/png"@[6] != "image/jpg"@[6]);
    assert("image/gif"@[6] != "image/jpg"@[6] && "image/gif"@[6] != "image/png"@[6]);
    assert("image/webp"@[6] != "image/jpeg"@[6]);
    assert("image/avif"@[6] != "image/jpeg"@[6] && "image/avif"@[6] != "image/webp"@[6]);
    assert("png"@[0] != "jpg"@[0] && "gif"@[0] != "jpg"@[0] && "svg"@[0] != "jpg"@[0] && "bmp"@[0]
        != "jpg"@[0]);
    assert("webp"@[0] != "jpeg"@[0] && "avif"@[0] != "jpeg"@[0]);
}

fn eq_lit(s: &[char], lit: &str) -> (r: bool)
    ensures
        r == (s@ == lit@),
{
    chars_eq(s, chars_of(lit).as_slice())
}

fn mime_ext(mime: &[char]) -> (r: Option<&'static str>)
    ensures
        match r {
            Some(e) => mime_extension(mime@) == Some(e@),
            None => mime_extension(mime@) is None,
        },
{
    if eq_lit(mime, "image/jpeg") || eq_lit(mime, "image/jpg") {
        Some("jpg")
    } else if eq_lit(mime, "image/png") {
        Some("png")
    } else if eq_lit(mime, "image/gif") {
        Some("gif")
    } else if eq_lit(mime, "image/webp") {
        Some("webp")
    } else if eq_lit(mime, "image/svg+xml") {
        Some("svg")
    } else if eq_lit(mime, "image/avif") {
        Some("avif")
    } else {
        None
    }
}

fn path_ext(ext: &[char]) -> (r: Option<String>)
    ensures
        match r {
            Some(e) => path_extension(ext@) == Some(e@),
            None => path_extension(ext@) is None,
        },
{
    if eq_lit(ext, "jpg") || eq_lit(ext, "jpeg") {
        Some("jpg".to_owned())
    } else if eq_lit(ext, "png") || eq_lit(ext, "gif") || eq_lit(ext, "webp") || eq_lit(ext, "svg")
        || eq_lit(ext, "avif") || eq_lit(ext, "bmp") {
        Some(string_of(ext))
    } else {
        None
    }
}

pub fn extension_for(url: &WebUrl, content_type: Option<&str>) -> (r: String)
    ensures
        r@ == extension_of(
            url@,
            match content_type {
                Some(t) => Some(t@),
                None => None,
            },
        ),
{
    if let Some(ctype) = content_type {
        let head = before_first_exec(chars_of(ctype).as_slice(), ';');
        let mime = lowercase(trimmed(head.as_slice()).as_slice());
        if let Some(e) = mime_ext(mime.as_slice()) {
            return e.to_owned();
        }
    }
    let ext = lowercase(after_last_exec(url.path(), '.').as_slice());
    match path_ext(ext.as_slice()) {
        Some(e) => e,
        None => {
            proof {
                reveal_strlit("bin");
            }
            "bin".to_owned()
        },
    }
}

/// Where an image reference points: the trimmed reference resolved against
/// the page; data URIs, references that do not resolve and non-HTTP schemes
/// are refused.
pub fn image_target(page_url: &WebUrl, raw_url: &str) -> (r: Result<WebUrl, TidyError>)
    ensures
        starts_with(trim(raw_url@), "data:"@) ==> (r matches Err(TidyError::Message(m)) && m@
            == "skip data URI"@),
        !starts_with(trim(raw_url@), "data:"@) ==> match url_join_result(page_url@, trim(raw_url@)) {
            None => r matches Err(TidyError::Message(_)),
            Some(u) => if u.scheme == "http"@ || u.scheme == "https"@ {
                r matches Ok(t) && t@ == u
            } else {
                r matches Err(TidyError::Message(m)) && m@ == "unsupported image scheme"@
            },
        },
{
    let t = trimmed(chars_of(raw_url).as_slice());
    proof {
        reveal_strlit("skip data URI");
        reveal_strlit("unsupported image scheme");
    }
    if has_prefix(t.as_slice(), chars_of("data:").as_slice()) {
        return Err(TidyError::Message("skip data URI".to_owned()));
    }
    let absolute = match join_url(page_url, t.as_slice()) {
        Ok(u) => u,
        Err(e) => return Err(TidyError::Message(e)),
    };
    if !eq_lit(absolute.scheme(), "http") && !eq_lit(absolute.scheme(), "https") {
        return Err(TidyError::Message("unsupported image scheme".to_owned()));
    }
    Ok(absolute)
}

/// `Path::file_stem` of a single file name: none for `.` and `..`; the name
/// before its last `.`, unless that is empty (or there is no `.`).
pub open spec fn file_stem_of(name: Seq<char>) -> Option<Seq<char>> {
    if name.len() == 0 || name == "."@ || name == ".."@ {
        None
    } else {
        let after = after_last(name, '.');
        if after.len() == name.len() {
            Some(name)
        } else {
            let before = name.take(name.len() - after.len() - 1);
            if before.len() == 0 {
                Some(name)
            } else {
                Some(before)
            }
        }
    }
}

/// The file stem of a downloaded image: the sanitized last path segment
/// without its extension (`image-<n>` when the segment sanitizes to nothing,
/// `image` when it has no stem), then a dash and the URL's short hash.
pub open spec fn image_file_stem_of(last_segment: Seq<char>, image_index: nat, href: Seq<char>) -> Seq<char> {
    let cleaned = sanitized_filename(last_segment);
    let base = if cleaned.len() == 0 {
        "image-"@ + decimal(image_index)
    } else {
        match file_stem_of(cleaned) {
            Some(s) => s,
            None => "image"@,
        }
    };
    base + "-"@ + short_hash_of(href)
}

pub proof fn lemma_after_last_len(s: Seq<char>, c: char)
    ensures
        after_last(s, c).len() <= s.len(),
        after_last(s, c).len() < s.len() ==> s[s.len() - after_last(s, c).len() - 1] == c,
        after_last(s, c) == s.skip(s.len() - after_last(s, c).len()),
    decreases s.len(),
{
    if s.len() > 0 && s.last() != c {
        lemma_after_last_len(s.drop_last(), c);
        assert(s.skip(s.len() - after_last(s, c).len()) =~= s.drop_last().skip(
            s.drop_last().len() - after_last(s.drop_last(), c).len(),
        ).push(s.last()));
    } else if s.len() > 0 {
        assert(s.skip(s.len() as int) =~= Seq::<char>::empty());
    } else {
        assert(s.skip(0) =~= s);
    }
}

pub fn image_file_stem(last_segment: &str, image_index: u64, href: &str) -> (r: String)
    ensures
        r@ == image_file_stem_of(last_segment@, image_index as nat, href@),
{
    let cleaned = chars_of(sanitize_filename(last_segment).as_str());
    proof {
        reveal_strlit("image-");
        reveal_strlit("image");
        reveal_strlit("-");
        reveal_strlit(".");
        reveal_strlit("..");
    }
    let base: Vec<char> = if cleaned.len() == 0 {
        concat_vec(chars_of("image-").as_slice(), decimal_chars(image_index).as_slice())
    } else if eq_lit(cleaned.as_slice(), ".") || eq_lit(cleaned.as_slice(), "..") {
        chars_of("image")
    } else {
        let after = after_last_exec(cleaned.as_slice(), '.');
        proof {
            lemma_after_last_len(cleaned@, '.');
        }
        if after.len() == cleaned.len() {
            cleaned
        } else {
            let before = crate::text::slice_vec(cleaned.as_slice(), 0, cleaned.len() - after.len() - 1);
            assert(before@ =~= cleaned@.take(cleaned@.len() - after@.len() - 1));
            if before.len() == 0 {
                cleaned
            } else {
                before
            }
        }
    };
    let with_dash = concat_vec(base.as_slice(), chars_of("-").as_slice());
    let h = short_hash(href);
    string_of(concat_vec(with_dash.as_slice(), chars_of(h.as_str()).as_slice()).as_slice())
}

} // verus!

verus! {

/// The first position at or after `from` holding character `c`.
pub open spec fn first_char_from(s: Seq<char>, from: int, c: char) -> Option<int>
    decreases s.len() - from,
{
    if from < 0 || from >= s.len() {
        None
    } else if s[from] == c {
        Some(from)
    } else {
        first_char_from(s, from + 1, c)
    }
}

pub proof fn lemma_first_char_from(s: Seq<char>, from: int, c: char)
    ensures
        first_char_from(s, from, c) matches Some(k) ==> from <= k < s.len() && s[k] == c,
    decreases s.len() - from,
{
    if 0 <= from < s.len() && s[from] != c {
        lemma_first_char_from(s, from + 1, c);
    }
}

/// An image reference `![alt](url)` starting at character `i`: positions of
/// the closing `]`, of the `(`'s successor and of the `)`.
pub open spec fn image_ref_at(s: Seq<char>, i: int) -> Option<(int, int)> {
    if 0 <= i && i + 1 < s.len() && s[i] == '!' && s[i + 1] == '[' {
        match first_char_from(s, i + 2, ']') {
            Some(p) => if p + 1 < s.len() && s[p + 1] == '(' {
                match first_char_from(s, p + 2, ')') {
                    Some(q) => Some((p, q)),
                    None => None,
                }
            } else {
                None
            },
            None => None,
        }
    } else {
        None
    }
}

/// The first image reference at or after `from`.
pub open spec fn next_image_from(s: Seq<char>, from: int) -> Option<int>
    decreases s.len() - from,
{
    if from < 0 || from + 1 >= s.len() {
        None
    } else if image_ref_at(s, from) is Some {
        Some(from)
    } else {
        next_image_from(s, from + 1)
    }
}

pub proof fn lemma_image_ref_at(s: Seq<char>, i: int)
    ensures
        image_ref_at(s, i) matches Some((p, q)) ==> 0 <= i && i + 2 <= p && p + 2 <= q < s.len()
            && s[p] == ']' && s[p + 1] == '(' && s[q] == ')',
{
    lemma_first_char_from(s, i + 2, ']');
    if let Some(p) = first_char_from(s, i + 2, ']') {
        lemma_first_char_from(s, p + 2, ')');
    }
}

pub proof fn lemma_next_image_from(s: Seq<char>, from: int)
    ensures
        next_image_from(s, from) matches Some(i) ==> from <= i && image_ref_at(s, i) is Some,
    decreases s.len() - from,
{
    if 0 <= from && from + 1 < s.len() && image_ref_at(s, from) is None {
        lemma_next_image_from(s, from + 1);
    }
}

/// The Markdown with each image reference found (scanning on after each)
/// replaced, where its local copy is known, by `![alt](local)`; the
/// references without a local copy, and the text between, are kept.
pub open spec fn rewritten_from(s: Seq<char>, from: int, locals: Seq<Option<Seq<char>>>, k: int) -> Seq<char>
    decreases s.len() - from,
{
    if from < 0 || from >= s.len() {
        Seq::empty()
    } else {
        match next_image_from(s, from) {
            None => s.skip(from),
            Some(i) => match image_ref_at(s, i) {
                Some((p, q)) => {
                    proof {
                        lemma_next_image_from(s, from);
                        lemma_image_ref_at(s, i);
                    }
                    let replaced = if 0 <= k < locals.len() && locals[k] is Some {
                        "!["@ + s.subrange(i + 2, p) + "]("@ + locals[k]->0 + ")"@
                    } else {
                        s.subrange(i, q + 1)
                    };
                    s.subrange(from, i) + replaced + if q + 1 > from {
                        rewritten_from(s, q + 1, locals, k + 1)
                    } else {
                        Seq::empty()
                    }
                },
                None => Seq::empty(),
            },
        }
    }
}

/// The (alt text, URL) of each image reference, scanning on after each.
pub open spec fn references_from(s: Seq<char>, from: int) -> Seq<(Seq<char>, Seq<char>)>
    decreases s.len() - from,
{
    if from < 0 || from >= s.len() {
        Seq::empty()
    } else {
        match next_image_from(s, from) {
            None => Seq::empty(),
            Some(i) => match image_ref_at(s, i) {
                Some((p, q)) => {
                    proof {
                        lemma_next_image_from(s, from);
                        lemma_image_ref_at(s, i);
                    }
                    seq![(s.subrange(i + 2, p), s.subrange(p + 2, q))] + if q + 1 > from {
                        references_from(s, q + 1)
                    } else {
                        Seq::empty()
                    }
                },
                None => Seq::empty(),
            },
        }
    }
}

fn find_char_from(s: &[char], from: usize, c: char) -> (r: Option<usize>)
    requires
        from <= s@.len(),
    ensures
        match r {
            Some(k) => first_char_from(s@, from as int, c) == Some(k as int) && from <= k < s@.len(),
            None => first_char_from(s@, from as int, c) is None,
        },
{
    let mut k: usize = from;
    while k < s.len()
        invariant
            from <= k <= s@.len(),
            first_char_from(s@, from as int, c) == first_char_from(s@, k as int, c),
        decreases s.len() - k,
    {
        if s[k] == c {
            return Some(k);
        }
        k = k + 1;
    }
    None
}

fn image_ref_exec(s: &[char], i: usize) -> (r: Option<(usize, usize)>)
    requires
        i + 1 < s@.len(),
    ensures
        match r {
            Some((p, q)) => image_ref_at(s@, i as int) == Some((p as int, q as int)),
            None => image_ref_at(s@, i as int) is None,
        },
{
    if s[i] == '!' && s[i + 1] == '[' {
        if let Some(p) = find_char_from(s, i + 2, ']') {
            if p + 1 < s.len() && s[p + 1] == '(' {
                if let Some(q) = find_char_from(s, p + 2, ')') {
                    return Some((p, q));
                }
            }
        }
    }
    None
}

fn next_image_exec(s: &[char], from: usize) -> (r: Option<(usize, usize, usize)>)
    requires
        from <= s@.len(),
    ensures
        match r {
            Some((i, p, q)) => next_image_from(s@, from as int) == Some(i as int) && image_ref_at(
                s@,
                i as int,
            ) == Some((p as int, q as int)),
            None => next_image_from(s@, from as int) is None,
        },
{
    let mut i: usize = from;
    while i < s.len() && i + 1 < s.len()
        invariant
            from <= i <= s@.len(),
            next_image_from(s@, from as int) == next_image_from(s@, i as int),
        decreases s.len() - i,
    {
        if let Some((p, q)) = image_ref_exec(s, i) {
            return Some((i, p, q));
        }
        i = i + 1;
    }
    None
}

/// Replace each image reference of the Markdown whose local copy is known
/// (`locals[k]` for the k-th reference) by a reference to that copy.
pub fn rewrite_images(markdown: &str, locals: &[Option<String>]) -> (r: String)
    ensures
        r@ == rewritten_from(
            markdown@,
            0,
            locals@.map_values(|o: Option<String>| crate::html::opt_view(o)),
            0,
        ),
{
    let s = chars_of(markdown);
    let ghost lv = locals@.map_values(|o: Option<String>| crate::html::opt_view(o));
    let mut out: Vec<char> = Vec::new();
    let mut from: usize = 0;
    let mut k: usize = 0;
    while from < s.len()
        invariant
            from <= s@.len(),
            s@ == markdown@,
            lv == locals@.map_values(|o: Option<String>| crate::html::opt_view(o)),
            k <= from,
            out@ + rewritten_from(s@, from as int, lv, k as int) == rewritten_from(s@, 0, lv, 0),
        decreases s.len() - from,
    {
        match next_image_exec(s.as_slice(), from) {
            None => {
                let rest = crate::text::slice_vec(s.as_slice(), from, s.len());
                assert(rest@ =~= s@.skip(from as int));
                crate::text::extend_vec(&mut out, rest.as_slice());
                from = s.len();
            },
            Some((i, p, q)) => {
                proof {
                    lemma_next_image_from(s@, from as int);
                    lemma_image_ref_at(s@, i as int);
                }
                let before = crate::text::slice_vec(s.as_slice(), from, i);
                crate::text::extend_vec(&mut out, before.as_slice());
                let replaced: Vec<char> = if k < locals.len() && locals[k].is_some() {
                    let mut r = chars_of("![");
                    let alt = crate::text::slice_vec(s.as_slice(), i + 2, p);
                    crate::text::extend_vec(&mut r, alt.as_slice());
                    crate::text::extend_vec(&mut r, chars_of("](").as_slice());
                    match &locals[k] {
                        Some(l) => crate::text::extend_vec(&mut r, chars_of(l.as_str()).as_slice()),
                        None => {},
                    }
                    crate::text::extend_vec(&mut r, chars_of(")").as_slice());
                    assert(lv[k as int] == crate::html::opt_view(locals@[k as int]));
                    r
                } else {
                    crate::text::slice_vec(s.as_slice(), i, q + 1)
                };
                crate::text::extend_vec(&mut out, replaced.as_slice());
                from = q + 1;
                k = k + 1;
            },
        }
    }
    string_of(out.as_slice())
}

} // verus!

verus! {

/// The alt text and URL of each image reference of the Markdown, in order.
pub fn image_references(markdown: &str) -> (r: Vec<(String, String)>)
    ensures
        r@.map_values(|p: (String, String)| (p.0@, p.1@)) == references_from(markdown@, 0),
{
    let s = chars_of(markdown);
    let mut out: Vec<(String, String)> = Vec::new();
    let mut from: usize = 0;
    while from < s.len()
        invariant
            from <= s@.len(),
            s@ == markdown@,
            out@.map_values(|p: (String, String)| (p.0@, p.1@)) + references_from(s@, from as int)
                == references_from(s@, 0),
        decreases s.len() - from,
    {
        match next_image_exec(s.as_slice(), from) {
            None => {
                from = s.len();
            },
            Some((i, p, q)) => {
                proof {
                    lemma_next_image_from(s@, from as int);
                    lemma_image_ref_at(s@, i as int);
                }
                let alt = string_of(crate::text::slice_vec(s.as_slice(), i + 2, p).as_slice());
                let url = string_of(crate::text::slice_vec(s.as_slice(), p + 2, q).as_slice());
                let ghost before = out@;
                out.push((alt, url));
                assert(out@.map_values(|p: (String, String)| (p.0@, p.1@)) =~= before.map_values(
                    |p: (String, String)| (p.0@, p.1@),
                ).push((s@.subrange(i + 2, p as int), s@.subrange(p + 2, q as int))));
                from = q + 1;
            },
        }
    }
    out
}

} // verus!
