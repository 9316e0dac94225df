//! Character-level text utilities.
//!
//! Every string in this crate is reasoned about through its view, a
//! `Seq<char>`. The executable helpers here copy a string into a `Vec<char>`
//! once and then work by index, so that scanning, splitting and number
//! parsing are ordinary verified loops.

use vstd::prelude::*;

verus! {

/// `String::push` of the standard library: appends one character to the end
/// of the string and changes nothing else.
pub assume_specification[ String::push ](s: &mut String, c: char)
    ensures
        final(s)@ == old(s)@.push(c),
;

/// The characters of `s`, in order.
pub fn chars_of(s: &str) -> (out: Vec<char>)
    ensures
        out@ == s@,
{
    let mut out: Vec<char> = Vec::new();
    for c in it: s.chars()
        invariant
            out@ == it.seq().take(it.index() as int),
            it.seq() == s@,
    {
        out.push(c);
    }
    out
}

/// The string made of `chars[from..to]`.
pub(crate) fn string_of_range(chars: &Vec<char>, from: usize, to: usize) -> (out: String)
    requires
        from <= to <= chars.len(),
    ensures
        out@ == chars@.subrange(from as int, to as int),
{
    let mut out = String::new();
    let mut i: usize = from;
    while i < to
        invariant
            from <= i <= to <= chars.len(),
            out@ == chars@.subrange(from as int, i as int),
        decreases to - i,
    {
        out.push(chars[i]);
        i += 1;
    }
    out
}

/// The string made of all of `chars`.
pub fn string_of(chars: &Vec<char>) -> (out: String)
    ensures
        out@ == chars@,
{
    let out = string_of_range(chars, 0, chars.len());
    assert(chars@.subrange(0, chars.len() as int) == chars@);
    out
}

/// Whether two character vectors hold the same text.
pub fn chars_eq(a: &Vec<char>, b: &Vec<char>) -> (r: bool)
    ensures
        r == (a@ == b@),
{
    if a.len() != b.len() {
        return false;
    }
    let mut i: usize = 0;
    while i < a.len()
        invariant
            a.len() == b.len(),
            0 <= i <= a.len(),
            forall|j: int| 0 <= j < i ==> a@[j] == b@[j],
        decreases a.len() - i,
    {
        if a[i] != b[i] {
            return false;
        }
        i += 1;
    }
    assert(a@ =~= b@);
    true
}

/// Whether two strings hold the same text.
pub fn text_eq(a: &str, b: &str) -> (r: bool)
    ensures
        r == (a@ == b@),
{
    let av = chars_of(a);
    let bv = chars_of(b);
    chars_eq(&av, &bv)
}

/// `pat` occurs in `s` starting at index `at`.
pub open spec fn occurs_at(s: Seq<char>, pat: Seq<char>, at: int) -> bool {
    0 <= at && at + pat.len() <= s.len() && s.subrange(at, at + pat.len()) == pat
}

/// `s` begins with `prefix`.
pub open spec fn has_prefix(s: Seq<char>, prefix: Seq<char>) -> bool {
    occurs_at(s, prefix, 0)
}

/// `s` ends with `suffix`.
pub open spec fn has_suffix(s: Seq<char>, suffix: Seq<char>) -> bool {
    occurs_at(s, suffix, s.len() - suffix.len())
}

/// `pat` occurs somewhere in `s`.
pub open spec fn contains_text(s: Seq<char>, pat: Seq<char>) -> bool {
    exists|at: int| occurs_at(s, pat, at)
}

/// Whether `pat` occurs in `s` at index `at`.
pub fn chars_occur_at(s: &Vec<char>, pat: &Vec<char>, at: usize) -> (r: bool)
    ensures
        r == occurs_at(s@, pat@, at as int),
{
    if at > s.len() || pat.len() > s.len() - at {
        return false;
    }
    let mut i: usize = 0;
    while i < pat.len()
        invariant
            at + pat.len() <= s.len(),
            0 <= i <= pat.len(),
            forall|j: int| 0 <= j < i ==> s@[at + j] == pat@[j],
        decreases pat.len() - i,
    {
        if s[at + i] != pat[i] {
            assert(s@.subrange(at as int, at + pat.len())[i as int] == s@[at + i]);
            return false;
        }
        i += 1;
    }
    assert(s@.subrange(at as int, at + pat.len()) =~= pat@);
    true
}

/// Whether `pat` occurs somewhere in `s`.
pub fn chars_contain(s: &Vec<char>, pat: &Vec<char>) -> (r: bool)
    ensures
        r == contains_text(s@, pat@),
{
    if pat.len() > s.len() {
        assert forall|at: int| !occurs_at(s@, pat@, at) by {}
        return false;
    }
    let last: usize = s.len() - pat.len();
    let mut at: usize = 0;
    loop
        invariant
            last == s.len() - pat.len(),
            0 <= at <= last,
            forall|k: int| 0 <= k < at ==> !occurs_at(s@, pat@, k),
        decreases last - at,
    {
        if chars_occur_at(s, pat, at) {
            return true;
        }
        if at == last {
            assert forall|k: int| !occurs_at(s@, pat@, k) by {}
            return false;
        }
        at += 1;
    }
}

/// Whether `s` begins with `prefix`.
pub fn starts_with(s: &str, prefix: &str) -> (r: bool)
    ensures
        r == has_prefix(s@, prefix@),
{
    let sv = chars_of(s);
    let pv = chars_of(prefix);
    chars_occur_at(&sv, &pv, 0)
}

/// Whether `s` ends with `suffix`.
pub fn ends_with(s: &str, suffix: &str) -> (r: bool)
    ensures
        r == has_suffix(s@, suffix@),
{
    let sv = chars_of(s);
    let pv = chars_of(suffix);
    if pv.len() > sv.len() {
        return false;
    }
    chars_occur_at(&sv, &pv, sv.len() - pv.len())
}

/// Whether `pat` occurs somewhere in `s`.
pub fn contains(s: &str, pat: &str) -> (r: bool)
    ensures
        r == contains_text(s@, pat@),
{
    let sv = chars_of(s);
    let pv = chars_of(pat);
    chars_contain(&sv, &pv)
}

/// The first index at or after `from` where `s` holds `c`; `s.len()` where it
/// holds none.
pub open spec fn find_from(s: Seq<char>, c: char, from: int) -> int
    decreases s.len() - from,
{
    if from >= s.len() {
        s.len() as int
    } else if s[from] == c {
        from
    } else {
        find_from(s, c, from + 1)
    }
}

/// `find_from` never moves backwards and never passes the end.
pub proof fn lemma_find_from_bounds(s: Seq<char>, c: char, from: int)
    requires
        0 <= from <= s.len(),
    ensures
        from <= find_from(s, c, from) <= s.len(),
        find_from(s, c, from) < s.len() ==> s[find_from(s, c, from)] == c,
        forall|j: int| from <= j < find_from(s, c, from) ==> s[j] != c,
    decreases s.len() - from,
{
    if from < s.len() && s[from] != c {
        lemma_find_from_bounds(s, c, from + 1);
    }
}

/// The first index at or after `from` where `chars` holds `c`, or
/// `chars.len()`.
pub(crate) fn find_char(chars: &Vec<char>, c: char, from: usize) -> (at: usize)
    requires
        from <= chars.len(),
    ensures
        at == find_from(chars@, c, from as int),
        from <= at <= chars.len(),
{
    let mut i: usize = from;
    while i < chars.len()
        invariant
            from <= i <= chars.len(),
            find_from(chars@, c, from as int) == find_from(chars@, c, i as int),
        decreases chars.len() - i,
    {
        if chars[i] == c {
            return i;
        }
        i += 1;
    }
    i
}

/// The pieces of `s` from index `from` on, cut at every `sep`. There is
/// always at least one piece; two separators in a row give an empty piece.
pub open spec fn split_from(s: Seq<char>, sep: char, from: int) -> Seq<Seq<char>>
    decreases s.len() - from,
{
    let at = find_from(s, sep, from);
    if from < 0 || from > s.len() || at < from {
        seq![]
    } else if at >= s.len() {
        seq![s.subrange(from, s.len() as int)]
    } else {
        seq![s.subrange(from, at)] + split_from(s, sep, at + 1)
    }
}

/// The pieces of `s`, cut at every `sep`.
pub open spec fn split(s: Seq<char>, sep: char) -> Seq<Seq<char>> {
    split_from(s, sep, 0)
}

/// The views of a list of strings.
pub open spec fn texts(v: Seq<String>) -> Seq<Seq<char>> {
    v.map_values(|s: String| s@)
}

/// Cuts `s` at every `sep`.
pub fn split_chars(chars: &Vec<char>, sep: char) -> (pieces: Vec<String>)
    ensures
        texts(pieces@) == split(chars@, sep),
        pieces.len() >= 1,
{
    let mut pieces: Vec<String> = Vec::new();
    let mut from: usize = 0;
    loop
        invariant
            0 <= from <= chars.len(),
            split(chars@, sep) == texts(pieces@) + split_from(chars@, sep, from as int),
        decreases chars.len() - from,
    {
        let at = find_char(chars, sep, from);
        let piece = string_of_range(chars, from, at);
        let ghost before = pieces@;
        pieces.push(piece);
        assert(texts(pieces@) == texts(before).push(piece@)) by {
            assert(texts(pieces@) =~= texts(before).push(piece@));
        }
        if at >= chars.len() {
            assert(texts(before) + seq![piece@] =~= texts(before).push(piece@));
            return pieces;
        }
        assert(texts(before) + (seq![piece@] + split_from(chars@, sep, at + 1)) =~= texts(
            pieces@,
        ) + split_from(chars@, sep, at + 1));
        from = at + 1;
    }
}

/// Removes one trailing carriage return, if there is one.
pub open spec fn strip_cr(s: Seq<char>) -> Seq<char> {
    if s.len() > 0 && s.last() == '\r' {
        s.drop_last()
    } else {
        s
    }
}

/// The lines of `s` from index `from` on. A line ends at a line feed, or at
/// a carriage return directly followed by one; the terminator is not part
/// of the line. Text after the last line feed is a line of its own, unless
/// it is empty.
pub open spec fn lines_from(s: Seq<char>, from: int) -> Seq<Seq<char>>
    decreases s.len() - from,
{
    let at = find_from(s, '\n', from);
    if from < 0 || from >= s.len() || at < from {
        seq![]
    } else if at >= s.len() {
        seq![s.subrange(from, s.len() as int)]
    } else {
        seq![strip_cr(s.subrange(from, at))] + lines_from(s, at + 1)
    }
}

/// The lines of `s`.
pub open spec fn lines(s: Seq<char>) -> Seq<Seq<char>> {
    lines_from(s, 0)
}

/// Cuts `chars` into its lines.
pub fn split_lines(chars: &Vec<char>) -> (out: Vec<String>)
    ensures
        texts(out@) == lines(chars@),
{
    let mut out: Vec<String> = Vec::new();
    let mut from: usize = 0;
    while from < chars.len()
        invariant
            0 <= from <= chars.len(),
            lines(chars@) == texts(out@) + lines_from(chars@, from as int),
        decreases chars.len() - from,
    {
        let at = find_char(chars, '\n', from);
        let ghost before = out@;
        if at >= chars.len() {
            let line = string_of_range(chars, from, at);
            out.push(line);
            assert(texts(out@) =~= texts(before).push(line@));
            assert(texts(before) + seq![line@] =~= texts(out@));
            return out;
        }
        let end: usize = if at > from && chars[at - 1] == '\r' {
            at - 1
        } else {
            at
        };
        let line = string_of_range(chars, from, end);
        assert(line@ == strip_cr(chars@.subrange(from as int, at as int))) by {
            let whole = chars@.subrange(from as int, at as int);
            if at > from && chars@[at - 1] == '\r' {
                assert(whole.last() == '\r');
                assert(whole.drop_last() =~= chars@.subrange(from as int, end as int));
            }
        }
        out.push(line);
        assert(texts(out@) =~= texts(before).push(line@));
        assert(texts(before) + (seq![line@] + lines_from(chars@, at + 1)) =~= texts(out@)
            + lines_from(chars@, at + 1));
        from = at + 1;
    }
    assert(texts(out@) + Seq::<Seq<char>>::empty() =~= texts(out@));
    out
}

/// Cuts `s` into its lines.
pub fn lines_of(s: &str) -> (out: Vec<String>)
    ensures
        texts(out@) == lines(s@),
{
    let chars = chars_of(s);
    split_lines(&chars)
}

/// An ASCII letter or digit.
pub open spec fn is_ascii_alphanumeric(c: char) -> bool {
    ('0' <= c && c <= '9') || ('a' <= c && c <= 'z') || ('A' <= c && c <= 'Z')
}

/// A character with the Unicode `White_Space` property.
pub open spec fn is_whitespace(c: char) -> bool {
    ('\u{9}' <= c && c <= '\u{d}') || c == ' ' || c == '\u{85}' || c == '\u{a0}' || c
        == '\u{1680}' || ('\u{2000}' <= c && c <= '\u{200a}') || c == '\u{2028}' || c
        == '\u{2029}' || c == '\u{202f}' || c == '\u{205f}' || c == '\u{3000}'
}

/// Whether `c` is an ASCII letter or digit.
pub fn char_is_ascii_alphanumeric(c: char) -> (r: bool)
    ensures
        r == is_ascii_alphanumeric(c),
{
    (c >= '0' && c <= '9') || (c >= 'a' && c <= 'z') || (c >= 'A' && c <= 'Z')
}

/// Whether `c` is white space.
pub fn char_is_whitespace(c: char) -> (r: bool)
    ensures
        r == is_whitespace(c),
{
    (c >= '\u{9}' && c <= '\u{d}') || c == ' ' || c == '\u{85}' || c == '\u{a0}' || c
        == '\u{1680}' || (c >= '\u{2000}' && c <= '\u{200a}') || c == '\u{2028}' || c
        == '\u{2029}' || c == '\u{202f}' || c == '\u{205f}' || c == '\u{3000}'
}

/// `s` holds nothing but white space.
pub open spec fn is_blank(s: Seq<char>) -> bool {
    forall|i: int| 0 <= i < s.len() ==> is_whitespace(#[trigger] s[i])
}

/// Whether `s` holds nothing but white space.
pub fn blank(s: &str) -> (r: bool)
    ensures
        r == is_blank(s@),
{
    let chars = chars_of(s);
    let mut i: usize = 0;
    while i < chars.len()
        invariant
            0 <= i <= chars.len(),
            chars@ == s@,
            forall|j: int| 0 <= j < i ==> is_whitespace(#[trigger] chars@[j]),
        decreases chars.len() - i,
    {
        if !char_is_whitespace(chars[i]) {
            return false;
        }
        i += 1;
    }
    true
}

/// The first index at or after `from` that holds no white space, or
/// `s.len()`.
pub open spec fn skip_whitespace(s: Seq<char>, from: int) -> int
    decreases s.len() - from,
{
    if from >= s.len() {
        s.len() as int
    } else if !is_whitespace(s[from]) {
        from
    } else {
        skip_whitespace(s, from + 1)
    }
}

/// The end of the text that is left of `s[..to]` once trailing white space
/// is dropped.
pub open spec fn drop_whitespace(s: Seq<char>, to: int) -> int
    decreases to,
{
    if to <= 0 {
        0
    } else if to > s.len() || !is_whitespace(s[to - 1]) {
        to
    } else {
        drop_whitespace(s, to - 1)
    }
}

/// `s` without its leading and trailing white space.
pub open spec fn trimmed(s: Seq<char>) -> Seq<char> {
    let from = skip_whitespace(s, 0);
    let to = drop_whitespace(s, s.len() as int);
    if from < to {
        s.subrange(from, to)
    } else {
        Seq::empty()
    }
}

/// `chars` without its leading and trailing white space.
pub fn trim_chars(chars: &Vec<char>) -> (out: Vec<char>)
    ensures
        out@ == trimmed(chars@),
{
    let mut from: usize = 0;
    while from < chars.len() && char_is_whitespace(chars[from])
        invariant
            0 <= from <= chars.len(),
            skip_whitespace(chars@, 0) == skip_whitespace(chars@, from as int),
        decreases chars.len() - from,
    {
        from += 1;
    }
    let mut to: usize = chars.len();
    while to > 0 && char_is_whitespace(chars[to - 1])
        invariant
            0 <= to <= chars.len(),
            drop_whitespace(chars@, chars.len() as int) == drop_whitespace(chars@, to as int),
        decreases to,
    {
        to -= 1;
    }
    let mut out: Vec<char> = Vec::new();
    if from < to {
        let mut i: usize = from;
        while i < to
            invariant
                from <= i <= to <= chars.len(),
                out@ == chars@.subrange(from as int, i as int),
            decreases to - i,
        {
            out.push(chars[i]);
            i += 1;
        }
    }
    out
}

/// An ASCII decimal digit.
pub open spec fn is_digit(c: char) -> bool {
    '0' <= c && c <= '9'
}

/// Every character of `s` is a decimal digit.
pub open spec fn all_digits(s: Seq<char>) -> bool {
    forall|i: int| 0 <= i < s.len() ==> is_digit(#[trigger] s[i])
}

/// The number that the digits `s` write in base ten.
pub open spec fn digits_value(s: Seq<char>) -> nat
    decreases s.len(),
{
    if s.len() == 0 {
        0
    } else {
        (digits_value(s.drop_last()) * 10 + (s.last() as nat - '0' as nat)) as nat
    }
}

/// The digits of a number written as text: `s` itself, or `s` without a
/// leading plus sign.
pub open spec fn unsigned_digits(s: Seq<char>) -> Seq<char> {
    if s.len() > 0 && s[0] == '+' {
        s.subrange(1, s.len() as int)
    } else {
        s
    }
}

/// The unsigned number that `s` writes in base ten, if it is at most `max`.
/// The text is one or more digits, with an optional plus sign in front.
pub open spec fn parsed_unsigned(s: Seq<char>, max: nat) -> Option<nat> {
    let digits = unsigned_digits(s);
    if digits.len() > 0 && all_digits(digits) && digits_value(digits) <= max {
        Some(digits_value(digits))
    } else {
        None
    }
}

/// A longer run of digits never writes a smaller number.
pub proof fn lemma_digits_value_grows(s: Seq<char>, k: int)
    requires
        0 <= k <= s.len(),
        all_digits(s),
    ensures
        digits_value(s.take(k)) <= digits_value(s),
    decreases s.len() - k,
{
    if k < s.len() {
        let next = s.take(k + 1);
        assert(next.drop_last() =~= s.take(k));
        assert(is_digit(s[k]));
        assert(next.last() == s[k]);
        lemma_digits_value_grows(s, k + 1);
    } else {
        assert(s.take(k) =~= s);
    }
}

/// Reads an unsigned 64-bit number written in base ten.
pub fn parse_u64(chars: &Vec<char>) -> (r: Option<u64>)
    ensures
        match r {
            Some(v) => parsed_unsigned(chars@, u64::MAX as nat) == Some(v as nat),
            None => parsed_unsigned(chars@, u64::MAX as nat) is None,
        },
{
    let start: usize = if chars.len() > 0 && chars[0] == '+' {
        1
    } else {
        0
    };
    let ghost digits = unsigned_digits(chars@);
    assert(digits == chars@.subrange(start as int, chars.len() as int)) by {
        if start == 0 {
            assert(chars@.subrange(0, chars.len() as int) =~= chars@);
        }
    }
    if start == chars.len() {
        return None;
    }
    let mut value: u64 = 0;
    let mut i: usize = start;
    while i < chars.len()
        invariant
            start <= i <= chars.len(),
            digits == chars@.subrange(start as int, chars.len() as int),
            digits == unsigned_digits(chars@),
            all_digits(digits.take(i - start)),
            value == digits_value(digits.take(i - start)),
        decreases chars.len() - i,
    {
        let c = chars[i];
        let ghost seen = digits.take(i - start);
        let ghost next = digits.take(i - start + 1);
        assert(next.drop_last() =~= seen);
        assert(next.last() == c);
        if !(c >= '0' && c <= '9') {
            assert(!is_digit(digits[i - start]));
            return None;
        }
        let d: u64 = (c as u32 - '0' as u32) as u64;
        assert forall|j: int| 0 <= j < next.len() implies is_digit(#[trigger] next[j]) by {
            if j < seen.len() {
                assert(next[j] == seen[j]);
            }
        }
        if value > (u64::MAX - d) / 10 {
            proof {
                if all_digits(digits) {
                    lemma_digits_value_grows(digits, i - start + 1);
                }
            }
            return None;
        }
        value = value * 10 + d;
        i += 1;
    }
    assert(digits.take(i - start) =~= digits);
    Some(value)
}

/// Reads an unsigned 32-bit number written in base ten.
pub fn parse_u32(chars: &Vec<char>) -> (r: Option<u32>)
    ensures
        match r {
            Some(v) => parsed_unsigned(chars@, u32::MAX as nat) == Some(v as nat),
            None => parsed_unsigned(chars@, u32::MAX as nat) is None,
        },
{
    match parse_u64(chars) {
        Some(v) => if v <= 0xffff_ffff {
            Some(v as u32)
        } else {
            None
        },
        None => {
            proof {
                let digits = unsigned_digits(chars@);
                if digits.len() > 0 && all_digits(digits) {
                    assert(digits_value(digits) > u64::MAX);
                }
            }
            None
        },
    }
}

/// The character that writes the digit `d` in base sixteen, lower case.
pub open spec fn digit_char(d: nat) -> char {
    if d < 10 {
        ('0' as nat + d) as char
    } else {
        ('a' as nat + d - 10) as char
    }
}

/// `n` written in base ten with the fewest digits, zero as `0`.
pub open spec fn decimal(n: nat) -> Seq<char>
    decreases n,
{
    if n < 10 {
        seq![digit_char(n)]
    } else {
        decimal(n / 10).push(digit_char(n % 10))
    }
}

/// `n` written in base sixteen, lower case, with the fewest digits.
pub open spec fn hex(n: nat) -> Seq<char>
    decreases n,
{
    if n < 16 {
        seq![digit_char(n)]
    } else {
        hex(n / 16).push(digit_char(n % 16))
    }
}

/// The character for one digit below sixteen.
fn digit_to_char(d: u8) -> (c: char)
    requires
        d < 16,
    ensures
        c == digit_char(d as nat),
{
    if d < 10 {
        (48u8 + d) as char
    } else {
        (87u8 + d) as char
    }
}

/// Appends `n` in base ten to `out`.
pub fn push_decimal(out: &mut String, n: u64)
    ensures
        final(out)@ == old(out)@ + decimal(n as nat),
    decreases n,
{
    if n >= 10 {
        push_decimal(out, n / 10);
    }
    let d: u8 = (n % 10) as u8;
    out.push(digit_to_char(d));
    proof {
        let head = old(out)@;
        if n >= 10 {
            let upper = decimal(n as nat / 10);
            assert(head + upper.push(digit_char(n as nat % 10)) =~= (head + upper).push(
                digit_char(n as nat % 10),
            ));
        } else {
            assert(head + seq![digit_char(n as nat)] =~= head.push(digit_char(n as nat)));
        }
    }
}

/// Appends `n` in base sixteen to `out`.
pub fn push_hex(out: &mut String, n: u64)
    ensures
        final(out)@ == old(out)@ + hex(n as nat),
    decreases n,
{
    if n >= 16 {
        push_hex(out, n / 16);
    }
    let d: u8 = (n % 16) as u8;
    out.push(digit_to_char(d));
    proof {
        let head = old(out)@;
        if n >= 16 {
            let upper = hex(n as nat / 16);
            assert(head + upper.push(digit_char(n as nat % 16)) =~= (head + upper).push(
                digit_char(n as nat % 16),
            ));
        } else {
            assert(head + seq![digit_char(n as nat)] =~= head.push(digit_char(n as nat)));
        }
    }
}

/// The lowest `width` digits of `n` in base sixteen, lower case, most
/// significant first: `n` padded with zeros to `width` digits, for an `n`
/// that fits them.
pub open spec fn fixed_hex(n: nat, width: nat) -> Seq<char>
    decreases width,
{
    if width == 0 {
        Seq::empty()
    } else {
        fixed_hex(n / 16, (width - 1) as nat).push(digit_char(n % 16))
    }
}

/// Appends the lowest `width` hex digits of `n` to `out`.
pub fn push_fixed_hex(out: &mut String, n: u64, width: u8)
    ensures
        final(out)@ == old(out)@ + fixed_hex(n as nat, width as nat),
    decreases width,
{
    if width > 0 {
        push_fixed_hex(out, n / 16, width - 1);
        let d: u8 = (n % 16) as u8;
        out.push(digit_to_char(d));
        proof {
            let head = old(out)@;
            let upper = fixed_hex(n as nat / 16, (width - 1) as nat);
            assert(head + upper.push(digit_char(n as nat % 16)) =~= (head + upper).push(
                digit_char(n as nat % 16),
            ));
        }
    } else {
        assert(old(out)@ + Seq::<char>::empty() =~= old(out)@);
    }
}

/// Appends the text of `s` to `out`.
pub fn push_text(out: &mut String, s: &str)
    ensures
        final(out)@ == old(out)@ + s@,
{
    out.append(s);
}

/// A character that may stand in a path component: an ASCII letter or
/// digit, a hyphen or an underscore.
pub open spec fn is_path_safe_char(c: char) -> bool {
    is_ascii_alphanumeric(c) || c == '-' || c == '_'
}

/// Every character of `s` may stand in a path component.
pub open spec fn all_path_safe(s: Seq<char>) -> bool {
    forall|i: int| 0 <= i < s.len() ==> is_path_safe_char(#[trigger] s[i])
}

/// Whether every character of `chars` may stand in a path component.
pub fn chars_all_path_safe(chars: &Vec<char>) -> (r: bool)
    ensures
        r == all_path_safe(chars@),
{
    let mut i: usize = 0;
    while i < chars.len()
        invariant
            0 <= i <= chars.len(),
            forall|j: int| 0 <= j < i ==> is_path_safe_char(#[trigger] chars@[j]),
        decreases chars.len() - i,
    {
        let c = chars[i];
        if !(char_is_ascii_alphanumeric(c) || c == '-' || c == '_') {
            return false;
        }
        i += 1;
    }
    true
}

/// A copy of `chars[from..to]`.
pub(crate) fn chars_range(chars: &Vec<char>, from: usize, to: usize) -> (out: Vec<char>)
    requires
        from <= to <= chars.len(),
    ensures
        out@ == chars@.subrange(from as int, to as int),
{
    let mut out: Vec<char> = Vec::new();
    let mut i: usize = from;
    while i < to
        invariant
            from <= i <= to <= chars.len(),
            out@ == chars@.subrange(from as int, i as int),
        decreases to - i,
    {
        out.push(chars[i]);
        i += 1;
    }
    out
}

/// Whether `chars` begins with the text `prefix`.
pub fn chars_start_with(chars: &Vec<char>, prefix: &str) -> (r: bool)
    ensures
        r == has_prefix(chars@, prefix@),
{
    let pv = chars_of(prefix);
    chars_occur_at(chars, &pv, 0)
}

/// A character that may stand in the name of an owner or of a repository:
/// an ASCII letter or digit, a hyphen, an underscore or a dot.
pub open spec fn is_name_char(c: char) -> bool {
    is_path_safe_char(c) || c == '.'
}

/// Every character of `s` may stand in a name.
pub open spec fn all_name_chars(s: Seq<char>) -> bool {
    forall|i: int| 0 <= i < s.len() ==> is_name_char(#[trigger] s[i])
}

/// Whether every character of `chars` may stand in a name.
pub fn chars_all_name_chars(chars: &Vec<char>) -> (r: bool)
    ensures
        r == all_name_chars(chars@),
{
    let mut i: usize = 0;
    while i < chars.len()
        invariant
            0 <= i <= chars.len(),
            forall|j: int| 0 <= j < i ==> is_name_char(#[trigger] chars@[j]),
        decreases chars.len() - i,
    {
        let c = chars[i];
        if !(char_is_ascii_alphanumeric(c) || c == '-' || c == '_' || c == '.') {
            return false;
        }
        i += 1;
    }
    true
}

/// `s` holds the character `c`.
pub open spec fn has_char(s: Seq<char>, c: char) -> bool {
    find_from(s, c, 0) < s.len()
}

/// `s` holds `c` exactly where some index of `s` does.
pub proof fn lemma_has_char(s: Seq<char>, c: char)
    ensures
        has_char(s, c) <==> s.contains(c),
{
    lemma_find_from_bounds(s, c, 0);
    if has_char(s, c) {
        assert(s[find_from(s, c, 0)] == c);
    }
}

/// Whether `chars` holds the character `c`.
pub fn chars_have(chars: &Vec<char>, c: char) -> (r: bool)
    ensures
        r == has_char(chars@, c),
{
    find_char(chars, c, 0) < chars.len()
}

/// A path made of `base` and the component `name`: the two joined by one
/// slash, which is left out where `base` is empty or ends in one.
pub open spec fn joined(base: Seq<char>, name: Seq<char>) -> Seq<char> {
    if base.len() == 0 || base.last() == '/' {
        base + name
    } else {
        base + "/"@ + name
    }
}

/// Joins a path and one more component.
pub fn join_path(base: &str, name: &str) -> (out: String)
    ensures
        out@ == joined(base@, name@),
{
    let chars = chars_of(base);
    let mut out = String::from_str(base);
    if chars.len() > 0 && chars[chars.len() - 1] != '/' {
        push_text(&mut out, "/");
    }
    push_text(&mut out, name);
    out
}

/// A hex digit may stand in a path component.
pub proof fn lemma_digit_char_safe(d: nat)
    requires
        d < 16,
    ensures
        is_path_safe_char(digit_char(d)),
{
}

/// Every character of a number in base sixteen may stand in a path
/// component.
pub proof fn lemma_hex_safe(n: nat)
    ensures
        all_path_safe(hex(n)),
        hex(n).len() > 0,
    decreases n,
{
    if n >= 16 {
        lemma_hex_safe(n / 16);
        lemma_digit_char_safe(n % 16);
        let upper = hex(n / 16);
        assert forall|i: int| 0 <= i < hex(n).len() implies is_path_safe_char(
            #[trigger] hex(n)[i],
        ) by {
            if i < upper.len() {
                assert(hex(n)[i] == upper[i]);
            }
        }
    } else {
        lemma_digit_char_safe(n);
    }
}

/// Every character of a run of hex digits may stand in a path component.
pub proof fn lemma_fixed_hex_safe(n: nat, width: nat)
    ensures
        all_path_safe(fixed_hex(n, width)),
    decreases width,
{
    if width > 0 {
        lemma_fixed_hex_safe(n / 16, (width - 1) as nat);
        lemma_digit_char_safe(n % 16);
        let upper = fixed_hex(n / 16, (width - 1) as nat);
        assert forall|i: int| 0 <= i < fixed_hex(n, width).len() implies is_path_safe_char(
            #[trigger] fixed_hex(n, width)[i],
        ) by {
            if i < upper.len() {
                assert(fixed_hex(n, width)[i] == upper[i]);
            }
        }
    }
}

/// A character that an escaped text holds as it is: an ASCII letter or
/// digit, or a hyphen.
pub open spec fn is_literal_char(c: char) -> bool {
    is_ascii_alphanumeric(c) || c == '-'
}

/// One character, escaped: a literal character as it is, any other as an
/// underscore and the six hex digits of its code point.
pub open spec fn escaped_char(c: char) -> Seq<char> {
    if is_literal_char(c) {
        seq![c]
    } else {
        seq!['_'] + fixed_hex(c as u32 as nat, 6)
    }
}

/// A text, escaped character by character. The result holds only ASCII
/// letters and digits, hyphens and underscores, and no two texts give the
/// same result.
pub open spec fn escaped(s: Seq<char>) -> Seq<char>
    decreases s.len(),
{
    if s.len() == 0 {
        Seq::empty()
    } else {
        escaped_char(s[0]) + escaped(s.drop_first())
    }
}

/// Sixteen to the power `k`.
pub open spec fn pow16(k: nat) -> nat
    decreases k,
{
    if k == 0 {
        1
    } else {
        16 * pow16((k - 1) as nat)
    }
}

/// A run of hex digits is as long as its width.
pub proof fn lemma_fixed_hex_len(n: nat, width: nat)
    ensures
        fixed_hex(n, width).len() == width,
    decreases width,
{
    if width > 0 {
        lemma_fixed_hex_len(n / 16, (width - 1) as nat);
    }
}

/// Two numbers that fit `width` hex digits and are written alike are the
/// same number.
pub proof fn lemma_fixed_hex_injective(n: nat, m: nat, width: nat)
    requires
        n < pow16(width),
        m < pow16(width),
        fixed_hex(n, width) == fixed_hex(m, width),
    ensures
        n == m,
    decreases width,
{
    if width > 0 {
        let a = fixed_hex(n / 16, (width - 1) as nat);
        let b = fixed_hex(m / 16, (width - 1) as nat);
        let x = digit_char(n % 16);
        let y = digit_char(m % 16);
        assert(a.push(x).drop_last() =~= a);
        assert(b.push(y).drop_last() =~= b);
        assert(a.push(x).last() == x);
        assert(b.push(y).last() == y);
        assert(a == b);
        assert(x == y);
        assert(n % 16 == m % 16);
        lemma_fixed_hex_injective(n / 16, m / 16, (width - 1) as nat);
    }
}

/// An escaped text holds only characters that may stand in a path
/// component.
pub proof fn lemma_escaped_safe(s: Seq<char>)
    ensures
        all_path_safe(escaped(s)),
    decreases s.len(),
{
    if s.len() > 0 {
        lemma_escaped_safe(s.drop_first());
        lemma_fixed_hex_safe(s[0] as u32 as nat, 6);
        let head = escaped_char(s[0]);
        let tail = escaped(s.drop_first());
        let hex6 = fixed_hex(s[0] as u32 as nat, 6);
        assert forall|i: int| 0 <= i < escaped(s).len() implies is_path_safe_char(
            #[trigger] escaped(s)[i],
        ) by {
            if i < head.len() {
                assert(escaped(s)[i] == head[i]);
                if !is_literal_char(s[0]) && i > 0 {
                    assert(head[i] == hex6[i - 1]);
                }
            } else {
                assert(escaped(s)[i] == tail[i - head.len()]);
            }
        }
    }
}

/// The code point of a character fits six hex digits, and tells the
/// character.
pub proof fn lemma_code_point(c: char, d: char)
    ensures
        c as u32 <= 0x10_ffff,
        c as u32 == d as u32 ==> c == d,
{
}

/// No two texts are escaped alike.
pub proof fn lemma_escaped_injective(a: Seq<char>, b: Seq<char>)
    requires
        escaped(a) == escaped(b),
    ensures
        a == b,
    decreases a.len(),
{
    if a.len() == 0 {
        if b.len() > 0 {
            lemma_fixed_hex_len(b[0] as u32 as nat, 6);
            assert(escaped_char(b[0]).len() > 0);
        }
        assert(a =~= b);
    } else if b.len() == 0 {
        lemma_fixed_hex_len(a[0] as u32 as nat, 6);
        assert(escaped_char(a[0]).len() > 0);
    } else {
        let x = a[0];
        let y = b[0];
        let hx = fixed_hex(x as u32 as nat, 6);
        let hy = fixed_hex(y as u32 as nat, 6);
        lemma_fixed_hex_len(x as u32 as nat, 6);
        lemma_fixed_hex_len(y as u32 as nat, 6);
        let ea = escaped(a);
        let eb = escaped(b);
        let ta = escaped(a.drop_first());
        let tb = escaped(b.drop_first());
        assert(ea[0] == escaped_char(x)[0]);
        assert(eb[0] == escaped_char(y)[0]);
        if is_literal_char(x) {
            assert(ea[0] == x);
            assert(is_literal_char(y));
            assert(x == y);
            assert(ta =~= ea.subrange(1, ea.len() as int));
            assert(tb =~= eb.subrange(1, eb.len() as int));
        } else {
            assert(ea[0] == '_');
            assert(!is_literal_char(y));
            assert(hx =~= ea.subrange(1, 7));
            assert(hy =~= eb.subrange(1, 7));
            assert(ta =~= ea.subrange(7, ea.len() as int));
            assert(tb =~= eb.subrange(7, eb.len() as int));
            reveal_with_fuel(pow16, 7);
            assert(pow16(6) == 0x100_0000);
            lemma_code_point(x, y);
            lemma_code_point(y, x);
            lemma_fixed_hex_injective(x as u32 as nat, y as u32 as nat, 6);
            assert(x as u32 == y as u32);
            assert(x == y);
        }
        lemma_escaped_injective(a.drop_first(), b.drop_first());
        assert(a =~= seq![x] + a.drop_first());
        assert(b =~= seq![y] + b.drop_first());
    }
}

/// Appends `s`, escaped, to `out`.
pub fn push_escaped(out: &mut String, s: &str)
    ensures
        final(out)@ == old(out)@ + escaped(s@),
{
    let chars = chars_of(s);
    let mut i: usize = 0;
    assert(chars@.skip(0) =~= chars@);
    while i < chars.len()
        invariant
            0 <= i <= chars.len(),
            chars@ == s@,
            out@ + escaped(chars@.skip(i as int)) == old(out)@ + escaped(s@),
        decreases chars.len() - i,
    {
        let c = chars[i];
        let ghost before = out@;
        let ghost rest = chars@.skip(i as int);
        assert(rest[0] == c);
        assert(rest.drop_first() =~= chars@.skip(i + 1));
        if char_is_ascii_alphanumeric(c) || c == '-' {
            out.push(c);
            assert(out@ =~= before + escaped_char(c));
        } else {
            out.push('_');
            let code: u32 = c as u32;
            push_fixed_hex(out, code as u64, 6);
            assert(out@ =~= before + escaped_char(c));
        }
        assert(out@ + escaped(chars@.skip(i + 1)) =~= before + escaped(rest));
        i += 1;
    }
    assert(chars@.skip(i as int) =~= Seq::<char>::empty());
    assert(out@ + Seq::<char>::empty() =~= out@);
}

/// A file name that stays in the directory it is joined to: it is not
/// empty and holds no slash, no backslash and no two dots in a row.
pub open spec fn is_plain_file_name(name: Seq<char>) -> bool {
    name.len() > 0 && !has_char(name, '/') && !has_char(name, '\\') && !contains_text(
        name,
        ".."@,
    )
}

/// A name made of characters that may stand in a path component, with the
/// extension `.json`, stays in the directory it is joined to.
pub proof fn lemma_json_name_is_plain(stem: Seq<char>)
    requires
        all_path_safe(stem),
    ensures
        is_plain_file_name(stem + ".json"@),
{
    reveal_strlit(".json");
    reveal_strlit("..");
    let ext = ".json"@;
    let name = stem + ext;
    assert forall|i: int| 0 <= i < name.len() implies #[trigger] name[i] != '/' && name[i]
        != '\\' && (name[i] == '.' ==> i == stem.len()) by {
        if i < stem.len() {
            assert(name[i] == stem[i]);
            assert(is_path_safe_char(stem[i]));
        } else {
            assert(name[i] == ext[i - stem.len()]);
        }
    }
    lemma_find_from_bounds(name, '/', 0);
    lemma_find_from_bounds(name, '\\', 0);
    assert forall|at: int| !occurs_at(name, ".."@, at) by {
        if occurs_at(name, ".."@, at) {
            let two = name.subrange(at, at + 2);
            assert(two[0] == name[at]);
            assert(two[1] == name[at + 1]);
            assert(".."@[0] == '.' && ".."@[1] == '.');
        }
    }
}

} // verus!
