//! Reader settings kept in the `[reader]` table of the vault's config file.
//! The config is read line by line; `line_height` values are handed back as
//! text (it is a floating-point setting, read outside the library).
use vstd::prelude::*;
use crate::text::{chars_eq, chars_of, is_ascii_digit, string_of, trim, trim_char, trimmed, trimmed_char};
use crate::fetch::images::{before_first, before_first_exec};

verus! {

/// The parts of `s` between occurrences of `c` (`str::split`).
pub open spec fn split_at_char(s: Seq<char>, c: char) -> Seq<Seq<char>>
    decreases s.len(),
{
    if s.len() == 0 {
        seq![Seq::empty()]
    } else {
        let w = split_at_char(s.drop_last(), c);
        if s.last() == c {
            w.push(Seq::empty())
        } else {
            w.update(w.len() - 1, w.last().push(s.last()))
        }
    }
}


/// The text after the first occurrence of `c` (empty when there is none).
pub open spec fn after_first(s: Seq<char>, c: char) -> Seq<char>
    decreases s.len(),
{
    if s.len() == 0 {
        Seq::empty()
    } else if s[0] == c {
        s.drop_first()
    } else {
        after_first(s.drop_first(), c)
    }
}

pub open spec fn has_char(s: Seq<char>, c: char) -> bool {
    exists|i: int| 0 <= i < s.len() && s[i] == c
}

/// The value of decimal digits.
pub open spec fn digits_value(s: Seq<char>) -> nat
    decreases s.len(),
{
    if s.len() == 0 {
        0
    } else {
        digits_value(s.drop_last()) * 10 + ((s.last() as u32) - 48) as nat
    }
}

/// `u32::from_str`: an optional `+`, then at least one decimal digit, with
/// a value that fits.
/// The digits of a number: without a leading `+` when more follows.
pub open spec fn unsigned_digits(s: Seq<char>) -> Seq<char> {
    if s.len() > 1 && s[0] == '+' { s.drop_first() } else { s }
}

pub open spec fn parse_u32_of(s: Seq<char>) -> Option<u32> {
    let d = unsigned_digits(s);
    if d.len() == 0 || exists|i: int| 0 <= i < d.len() && !is_ascii_digit(d[i]) {
        None
    } else if digits_value(d) > u32::MAX {
        None
    } else {
        Some(digits_value(d) as u32)
    }
}

proof fn lemma_digits_monotone(s: Seq<char>, k: int)
    requires
        0 <= k <= s.len(),
        forall|i: int| 0 <= i < s.len() ==> is_ascii_digit(s[i]),
    ensures
        digits_value(s.take(k)) <= digits_value(s),
    decreases s.len() - k,
{
    if k < s.len() {
        lemma_digits_monotone(s, k + 1);
        assert(s.take(k + 1).drop_last() =~= s.take(k));
    } else {
        assert(s.take(k) =~= s);
    }
}

pub fn parse_u32(s: &[char]) -> (r: Option<u32>)
    ensures
        r == parse_u32_of(s@),
{
    let start: usize = if s.len() > 1 && s[0] == '+' { 1 } else { 0 };
    let ghost d = unsigned_digits(s@);
    assert(d =~= s@.skip(start as int));
    if start == s.len() {
        return None;
    }
    let mut k: usize = start;
    while k < s.len()
        invariant
            start <= k <= s@.len(),
            d == s@.skip(start as int),
            d == unsigned_digits(s@),
            forall|i: int| start <= i < k ==> is_ascii_digit(s@[i]),
        decreases s.len() - k,
    {
        if !('0' <= s[k] && s[k] <= '9') {
            assert(d[k - start] == s@[k as int]);
            assert(0 <= k - start < d.len() && !is_ascii_digit(d[k - start]));
            return None;
        }
        k = k + 1;
    }
    let mut value: u64 = 0;
    let mut j: usize = start;
    while j < s.len()
        invariant
            start <= j <= s@.len(),
            d == s@.skip(start as int),
            d == unsigned_digits(s@),
            forall|i: int| 0 <= i < d.len() ==> is_ascii_digit(d[i]),
            value == digits_value(d.take(j - start)),
            value <= u32::MAX,
        decreases s.len() - j,
    {
        assert(d[j - start] == s@[j as int]);
        assert(is_ascii_digit(s@[j as int]));
        let digit: u64 = (s[j] as u32 - 48) as u64;
        assert(d.take(j - start + 1).drop_last() =~= d.take(j - start));
        assert(d.take(j - start + 1).last() == s@[j as int]);
        let next: u64 = value * 10 + digit;
        assert(next == digits_value(d.take(j - start + 1)));
        if next > 0xffff_ffffu64 {
            proof {
                lemma_digits_monotone(d, j - start + 1);
            }
            return None;
        }
        value = next;
        j = j + 1;
    }
    assert(d.take(d.len() as int) =~= d);
    Some(value as u32)
}

/// What the reader table says so far, and whether the current table is
/// `[reader]`.
pub struct ReaderView {
    pub theme: Seq<char>,
    pub font: Seq<char>,
    pub font_size: u32,
    pub line_heights: Seq<Seq<char>>,
    pub measure: Seq<char>,
    pub in_reader: bool,
}

pub open spec fn reader_defaults() -> ReaderView {
    ReaderView {
        theme: "paper"@,
        font: "serif"@,
        font_size: 20,
        line_heights: Seq::empty(),
        measure: "narrow"@,
        in_reader: false,
    }
}

/// A value: trimmed, then double and single quotes trimmed off its ends.
pub open spec fn config_value(raw: Seq<char>) -> Seq<char> {
    trim_char(trim_char(trim(raw), '"'), '\'')
}

/// One line of the config: blank lines and comments are skipped, a table
/// header says whether the reader table follows, and inside it a `key =
/// value` line sets a known key (a font size only when it parses).
pub open spec fn reader_step(st: ReaderView, line: Seq<char>) -> ReaderView {
    let t = trim(line);
    if t.len() == 0 || t[0] == '#' {
        st
    } else if t[0] == '[' {
        ReaderView { in_reader: t == "[reader]"@, ..st }
    } else if !st.in_reader || !has_char(t, '=') {
        st
    } else {
        let key = trim(before_first(t, '='));
        let value = config_value(after_first(t, '='));
        if key == "theme"@ {
            ReaderView { theme: value, ..st }
        } else if key == "font"@ {
            ReaderView { font: value, ..st }
        } else if key == "font_size"@ {
            match parse_u32_of(value) {
                Some(n) => ReaderView { font_size: n, ..st },
                None => st,
            }
        } else if key == "line_height"@ {
            ReaderView { line_heights: st.line_heights.push(value), ..st }
        } else if key == "measure"@ {
            ReaderView { measure: value, ..st }
        } else {
            st
        }
    }
}

pub open spec fn reader_fold(lines: Seq<Seq<char>>) -> ReaderView
    decreases lines.len(),
{
    if lines.len() == 0 {
        reader_defaults()
    } else {
        reader_step(reader_fold(lines.drop_last()), lines.last())
    }
}

/// The reader settings read from a config file, with every `line_height`
/// value given, in order.
#[derive(Debug, Clone)]
pub struct ReaderFields {
    pub theme: String,
    pub font: String,
    pub font_size: u32,
    pub line_heights: Vec<String>,
    pub measure: String,
}

pub open spec fn strings_view(v: Seq<String>) -> Seq<Seq<char>> {
    v.map_values(|s: String| s@)
}

fn after_first_exec(s: &[char], c: char) -> (r: Vec<char>)
    ensures
        r@ == after_first(s@, c),
{
    let mut k: usize = 0;
    assert(s@.skip(0) =~= s@);
    while k < s.len() && s[k] != c
        invariant
            k <= s@.len(),
            after_first(s@, c) == after_first(s@.skip(k as int), c),
        decreases s.len() - k,
    {
        assert(s@.skip(k as int).drop_first() =~= s@.skip(k + 1));
        k = k + 1;
    }
    if k < s.len() {
        assert(s@.skip(k as int).drop_first() =~= s@.skip(k + 1));
        let r = crate::text::slice_vec(s, k + 1, s.len());
        assert(r@ =~= s@.skip(k + 1));
        r
    } else {
        assert(s@.skip(k as int).len() == 0);
        Vec::new()
    }
}

fn has_char_exec(s: &[char], c: char) -> (r: bool)
    ensures
        r == has_char(s@, c),
{
    let mut k: usize = 0;
    while k < s.len()
        invariant
            k <= s@.len(),
            forall|i: int| 0 <= i < k ==> s@[i] != c,
        decreases s.len() - k,
    {
        if s[k] == c {
            return true;
        }
        k = k + 1;
    }
    false
}

fn eq_lit(s: &[char], lit: &str) -> (r: bool)
    ensures
        r == (s@ == lit@),
{
    chars_eq(s, chars_of(lit).as_slice())
}

fn apply_line(
    fields: &mut ReaderFields,
    in_reader: &mut bool,
    line: &[char],
)
    ensures
        ({
            let st = ReaderView {
                theme: old(fields).theme@,
                font: old(fields).font@,
                font_size: old(fields).font_size,
                line_heights: strings_view(old(fields).line_heights@),
                measure: old(fields).measure@,
                in_reader: *old(in_reader),
            };
            let n = reader_step(st, line@);
            &&& final(fields).theme@ == n.theme
            &&& final(fields).font@ == n.font
            &&& final(fields).font_size == n.font_size
            &&& strings_view(final(fields).line_heights@) == n.line_heights
            &&& final(fields).measure@ == n.measure
            &&& *final(in_reader) == n.in_reader
        }),
{
    let t = trimmed(line);
    if t.len() == 0 || t[0] == '#' {
        return;
    }
    if t[0] == '[' {
        *in_reader = eq_lit(t.as_slice(), "[reader]");
        return;
    }
    if !*in_reader || !has_char_exec(t.as_slice(), '=') {
        return;
    }
    let key = trimmed(before_first_exec(t.as_slice(), '=').as_slice());
    let raw = after_first_exec(t.as_slice(), '=');
    let v1 = trimmed(raw.as_slice());
    let v2 = trimmed_char(v1.as_slice(), '"');
    let value = trimmed_char(v2.as_slice(), '\'');
    if eq_lit(key.as_slice(), "theme") {
        fields.theme = string_of(value.as_slice());
    } else if eq_lit(key.as_slice(), "font") {
        fields.font = string_of(value.as_slice());
    } else if eq_lit(key.as_slice(), "font_size") {
        if let Some(n) = parse_u32(value.as_slice()) {
            fields.font_size = n;
        }
    } else if eq_lit(key.as_slice(), "line_height") {
        let ghost before = fields.line_heights@;
        fields.line_heights.push(string_of(value.as_slice()));
        assert(strings_view(fields.line_heights@) =~= strings_view(before).push(value@));
    } else if eq_lit(key.as_slice(), "measure") {
        fields.measure = string_of(value.as_slice());
    }
}

/// Read the reader settings of a config file.
pub fn parse_reader_from_toml(text: &str) -> (r: ReaderFields)
    ensures
        ({
            let v = reader_fold(split_at_char(text@, '\n'));
            &&& r.theme@ == v.theme
            &&& r.font@ == v.font
            &&& r.font_size == v.font_size
            &&& strings_view(r.line_heights@) == v.line_heights
            &&& r.measure@ == v.measure
        }),
{
    proof {
        reveal_strlit("paper");
        reveal_strlit("serif");
        reveal_strlit("narrow");
    }
    let mut fields = ReaderFields {
        theme: "paper".to_owned(),
        font: "serif".to_owned(),
        font_size: 20,
        line_heights: Vec::new(),
        measure: "narrow".to_owned(),
    };
    let mut in_reader = false;
    let cs = chars_of(text);
    let mut line: Vec<char> = Vec::new();
    let mut done: Vec<Vec<char>> = Vec::new();
    let mut i: usize = 0;
    assert(strings_view(fields.line_heights@) =~= Seq::<Seq<char>>::empty());
    assert(split_at_char(cs@.take(0), '\n') =~= seq![Seq::<char>::empty()]);
    while i < cs.len()
        invariant
            i <= cs@.len(),
            cs@ == text@,
            split_at_char(cs@.take(i as int), '\n') == crate::text::seqs_view(done@).push(line@),
            ({
                let v = reader_fold(crate::text::seqs_view(done@));
                &&& fields.theme@ == v.theme
                &&& fields.font@ == v.font
                &&& fields.font_size == v.font_size
                &&& strings_view(fields.line_heights@) == v.line_heights
                &&& fields.measure@ == v.measure
                &&& in_reader == v.in_reader
            }),
        decreases cs.len() - i,
    {
        let c = cs[i];
        let ghost t = cs@.take(i + 1);
        assert(t.drop_last() =~= cs@.take(i as int));
        if c == '\n' {
            apply_line(&mut fields, &mut in_reader, line.as_slice());
            let ghost prev = crate::text::seqs_view(done@);
            let finished = line;
            line = Vec::new();
            done.push(finished);
            assert(crate::text::seqs_view(done@) =~= prev.push(finished@));
            assert(crate::text::seqs_view(done@).drop_last() =~= prev);
            assert(split_at_char(t, '\n') =~= crate::text::seqs_view(done@).push(line@));
        } else {
            let ghost before = line@;
            line.push(c);
            assert(split_at_char(t, '\n') =~= crate::text::seqs_view(done@).push(line@));
        }
        i = i + 1;
    }
    assert(cs@.take(cs@.len() as int) =~= cs@);
    apply_line(&mut fields, &mut in_reader, line.as_slice());
    proof {
        let all = crate::text::seqs_view(done@).push(line@);
        assert(all.drop_last() =~= crate::text::seqs_view(done@));
    }
    fields
}

} // verus!
