//! Text primitives shared by the normalizer, the ingestion pipeline and the
//! search engine. Every function here is specified over `Seq<char>`, the view
//! of `str` and `String`.

use crate::views::lemma_vec_pushed;
use vstd::prelude::*;
use vstd::slice::slice_subrange;

verus! {

/// Whether `char::is_whitespace` holds of a character, that is whether the
/// character has the Unicode property `White_Space`.
pub uninterp spec fn white_space(c: char) -> bool;

/// The text that `str::to_lowercase` returns for a text.
pub uninterp spec fn lowercased(text: Seq<char>) -> Seq<char>;

/// Calls `char::is_whitespace`. The result is the Unicode property
/// `White_Space` of the character, which this library names `white_space`.
#[verifier::external_body]
pub(crate) fn is_whitespace(c: char) -> (b: bool)
    ensures
        b == white_space(c),
{
    c.is_whitespace()
}

/// Calls `str::to_lowercase`. The result depends on the text alone; this
/// library names it `lowercased`.
#[verifier::external_body]
pub(crate) fn to_lowercase(text: &str) -> (lower: String)
    ensures
        lower@ == lowercased(text@),
{
    text.to_lowercase()
}

/// Collects characters into a `String` through `String::from_iter`: the string
/// holds exactly the characters of the slice, in order.
#[verifier::external_body]
pub(crate) fn string_from_chars(chars: &[char]) -> (text: String)
    ensures
        text@ == chars@,
{
    chars.iter().collect()
}

/// Whether two string slices hold the same characters.
pub fn str_eq(a: &str, b: &str) -> (same: bool)
    ensures
        same == (a@ == b@),
{
    let left = a.as_bytes();
    let right = b.as_bytes();
    let n = left.len();
    if n != right.len() {
        return false;
    }
    let mut i: usize = 0;
    while i < n
        invariant
            i <= n,
            n == left@.len(),
            n == right@.len(),
            left@ == vstd::utf8::encode_utf8(a@),
            right@ == vstd::utf8::encode_utf8(b@),
            forall|j: int| 0 <= j < i ==> left@[j] == right@[j],
        decreases n - i,
    {
        if left[i] != right[i] {
            return false;
        }
        i = i + 1;
    }
    proof {
        assert(left@ =~= right@);
        vstd::utf8::encode_utf8_decode_utf8(a@);
        vstd::utf8::encode_utf8_decode_utf8(b@);
    }
    true
}

/// The characters of a string slice, in order.
pub fn chars_of(text: &str) -> (chars: Vec<char>)
    ensures
        chars@ == text@,
{
    let mut chars: Vec<char> = Vec::new();
    for c in it: text.chars()
        invariant
            chars@ == it.seq().take(it.index() as int),
            it.seq() == text@,
    {
        chars.push(c);
    }
    chars
}

/// Number of whitespace characters at the start of `s`.
pub open spec fn leading_space(s: Seq<char>) -> nat
    decreases s.len(),
{
    if s.len() > 0 && white_space(s[0]) {
        1 + leading_space(s.drop_first())
    } else {
        0
    }
}

/// Number of whitespace characters at the end of `s`.
pub open spec fn trailing_space(s: Seq<char>) -> nat
    decreases s.len(),
{
    if s.len() > 0 && white_space(s.last()) {
        1 + trailing_space(s.drop_last())
    } else {
        0
    }
}

/// `s` without its leading whitespace.
pub open spec fn trimmed_start(s: Seq<char>) -> Seq<char> {
    s.skip(leading_space(s) as int)
}

/// `s` without its leading and trailing whitespace.
pub open spec fn trimmed(s: Seq<char>) -> Seq<char> {
    let t = trimmed_start(s);
    t.take(t.len() - trailing_space(t))
}

/// No more whitespace leads a text than the text has characters.
proof fn lemma_leading_space_bound(s: Seq<char>)
    ensures
        leading_space(s) <= s.len(),
    decreases s.len(),
{
    if s.len() > 0 && white_space(s[0]) {
        lemma_leading_space_bound(s.drop_first());
    }
}

/// No more whitespace ends a text than the text has characters.
proof fn lemma_trailing_space_bound(s: Seq<char>)
    ensures
        trailing_space(s) <= s.len(),
    decreases s.len(),
{
    if s.len() > 0 && white_space(s.last()) {
        lemma_trailing_space_bound(s.drop_last());
    }
}

/// Index of the first character of `chars[from..to]` that is not whitespace,
/// or `to` when there is none.
fn skip_space(chars: &[char], from: usize, to: usize) -> (at: usize)
    requires
        from <= to <= chars@.len(),
    ensures
        at == from + leading_space(chars@.subrange(from as int, to as int)),
        from <= at <= to,
{
    let mut at: usize = from;
    proof {
        lemma_leading_space_bound(chars@.subrange(from as int, to as int));
    }
    while at < to && is_whitespace(chars[at])
        invariant
            from <= at <= to <= chars@.len(),
            from + leading_space(chars@.subrange(from as int, to as int)) == at + leading_space(
                chars@.subrange(at as int, to as int),
            ),
        decreases to - at,
    {
        proof {
            let cur = chars@.subrange(at as int, to as int);
            assert(cur[0] == chars@[at as int]);
            assert(cur.drop_first() =~= chars@.subrange(at + 1, to as int));
        }
        at = at + 1;
    }
    proof {
        let cur = chars@.subrange(at as int, to as int);
        if at < to {
            assert(cur[0] == chars@[at as int]);
        }
    }
    at
}

/// One past the index of the last character of `chars[from..to]` that is not
/// whitespace, or `from` when there is none.
fn skip_space_back(chars: &[char], from: usize, to: usize) -> (at: usize)
    requires
        from <= to <= chars@.len(),
    ensures
        at == to - trailing_space(chars@.subrange(from as int, to as int)),
        from <= at <= to,
{
    let mut at: usize = to;
    proof {
        lemma_trailing_space_bound(chars@.subrange(from as int, to as int));
    }
    while at > from && is_whitespace(chars[at - 1])
        invariant
            from <= at <= to <= chars@.len(),
            to - trailing_space(chars@.subrange(from as int, to as int)) == at - trailing_space(
                chars@.subrange(from as int, at as int),
            ),
        decreases at - from,
    {
        proof {
            let cur = chars@.subrange(from as int, at as int);
            assert(cur.last() == chars@[at - 1]);
            assert(cur.drop_last() =~= chars@.subrange(from as int, at - 1));
        }
        at = at - 1;
    }
    proof {
        let cur = chars@.subrange(from as int, at as int);
        if at > from {
            assert(cur.last() == chars@[at - 1]);
        }
    }
    at
}

/// The bounds of `chars` without leading and trailing whitespace.
pub fn trim_bounds(chars: &[char]) -> (bounds: (usize, usize))
    ensures
        bounds.0 <= bounds.1 <= chars@.len(),
        chars@.subrange(bounds.0 as int, bounds.1 as int) == trimmed(chars@),
{
    let n = chars.len();
    let start = skip_space(chars, 0, n);
    let end = skip_space_back(chars, start, n);
    proof {
        assert(chars@.subrange(0, n as int) =~= chars@);
        assert(chars@.subrange(start as int, n as int) =~= trimmed_start(chars@));
        assert(chars@.subrange(start as int, end as int) =~= trimmed(chars@));
    }
    (start, end)
}

/// `text` without its leading and trailing whitespace.
pub fn trim(text: &str) -> (out: String)
    ensures
        out@ == trimmed(text@),
{
    let chars = chars_of(text);
    let (start, end) = trim_bounds(chars.as_slice());
    string_from_chars(slice_subrange(chars.as_slice(), start, end))
}

/// Whether `needle` occurs in `s` as a run of consecutive characters.
pub open spec fn has_substring(s: Seq<char>, needle: Seq<char>) -> bool {
    exists|i: int| 0 <= i && i + needle.len() <= s.len() && #[trigger] s.subrange(i, i + needle.len()) == needle
}

/// `parts` joined with `sep` between consecutive parts.
pub open spec fn joined(parts: Seq<Seq<char>>, sep: Seq<char>) -> Seq<char>
    decreases parts.len(),
{
    if parts.len() == 0 {
        Seq::empty()
    } else if parts.len() == 1 {
        parts[0]
    } else {
        joined(parts.drop_last(), sep) + sep + parts.last()
    }
}

/// The decimal digit for `d`, which is below ten.
pub open spec fn digit_char(d: nat) -> char {
    (48 + d) as u8 as char
}

/// `n` in decimal notation, without leading zeros.
pub open spec fn decimal(n: nat) -> Seq<char>
    decreases n,
{
    if n < 10 {
        seq![digit_char(n)]
    } else {
        decimal(n / 10).push(digit_char(n % 10))
    }
}

/// The first `limit` characters of `s`, or all of `s` when it is shorter.
pub open spec fn prefix_chars(s: Seq<char>, limit: nat) -> Seq<char> {
    if s.len() <= limit {
        s
    } else {
        s.take(limit as int)
    }
}

/// The lower-case form of an ASCII capital; any other character unchanged.
pub open spec fn ascii_lower(c: char) -> char {
    if 'A' <= c && c <= 'Z' {
        ((c as u8) + 32) as u8 as char
    } else {
        c
    }
}

/// Whether two texts are equal once ASCII capitals are lowered.
pub open spec fn eq_ignoring_ascii_case(a: Seq<char>, b: Seq<char>) -> bool {
    &&& a.len() == b.len()
    &&& forall|i: int| 0 <= i < a.len() ==> ascii_lower(#[trigger] a[i]) == ascii_lower(b[i])
}

/// Lexicographic order of texts by code point.
pub open spec fn text_lt(a: Seq<char>, b: Seq<char>) -> bool
    decreases a.len(),
{
    if b.len() == 0 {
        false
    } else if a.len() == 0 {
        true
    } else if a[0] != b[0] {
        (a[0] as u32) < (b[0] as u32)
    } else {
        text_lt(a.drop_first(), b.drop_first())
    }
}

/// Whether `text` holds the character `c`.
pub fn contains_char(text: &str, c: char) -> (found: bool)
    ensures
        found == text@.contains(c),
{
    let chars = chars_of(text);
    let mut i: usize = 0;
    while i < chars.len()
        invariant
            i <= chars@.len(),
            chars@ == text@,
            forall|j: int| 0 <= j < i ==> chars@[j] != c,
        decreases chars@.len() - i,
    {
        if chars[i] == c {
            return true;
        }
        i = i + 1;
    }
    false
}

/// Whether `chars[at..]` starts with `needle`.
pub(crate) fn starts_with_at(chars: &[char], at: usize, needle: &[char]) -> (yes: bool)
    requires
        at <= chars@.len(),
    ensures
        yes == (at + needle@.len() <= chars@.len() && chars@.subrange(
            at as int,
            at + needle@.len(),
        ) == needle@),
{
    let n = chars.len();
    if needle.len() > n - at {
        return false;
    }
    let mut i: usize = 0;
    while i < needle.len()
        invariant
            i <= needle@.len(),
            at + needle@.len() <= chars@.len(),
            n == chars@.len(),
            forall|j: int| 0 <= j < i ==> chars@[at + j] == needle@[j],
        decreases needle@.len() - i,
    {
        if chars[at + i] != needle[i] {
            proof {
                let window = chars@.subrange(at as int, at + needle@.len());
                assert(window[i as int] != needle@[i as int]);
            }
            return false;
        }
        i = i + 1;
    }
    proof {
        assert(chars@.subrange(at as int, at + needle@.len()) =~= needle@);
    }
    true
}

/// Whether `text` starts with `prefix`.
pub fn starts_with(text: &str, prefix: &str) -> (yes: bool)
    ensures
        yes == prefix@.is_prefix_of(text@),
{
    let chars = chars_of(text);
    let needle = chars_of(prefix);
    starts_with_at(chars.as_slice(), 0, needle.as_slice())
}

/// Whether `text` ends with `suffix`.
pub fn ends_with(text: &str, suffix: &str) -> (yes: bool)
    ensures
        yes == suffix@.is_suffix_of(text@),
{
    let chars = chars_of(text);
    let needle = chars_of(suffix);
    if needle.len() > chars.len() {
        return false;
    }
    let at = chars.len() - needle.len();
    let yes = starts_with_at(chars.as_slice(), at, needle.as_slice());
    proof {
        assert(text@.subrange(text@.len() - suffix@.len(), text@.len() as int) == chars@.subrange(
            at as int,
            at + needle@.len(),
        ));
    }
    yes
}

/// Whether `needle` occurs in `text`.
pub fn contains_text(text: &str, needle: &str) -> (found: bool)
    ensures
        found == has_substring(text@, needle@),
{
    let chars = chars_of(text);
    let pattern = chars_of(needle);
    let n = chars.len();
    if pattern.len() == 0 {
        proof {
            assert(text@.subrange(0int, 0int + needle@.len()) =~= needle@);
        }
        return true;
    }
    if pattern.len() > n {
        return false;
    }
    let last = n - pattern.len();
    let mut i: usize = 0;
    while i <= last
        invariant
            i <= last + 1,
            last + pattern@.len() == chars@.len(),
            n == chars@.len(),
            pattern@.len() >= 1,
            chars@ == text@,
            pattern@ == needle@,
            forall|j: int| 0 <= j < i ==> #[trigger] chars@.subrange(j, j + pattern@.len()) != pattern@,
        decreases last + 1 - i,
    {
        if starts_with_at(chars.as_slice(), i, pattern.as_slice()) {
            return true;
        }
        i = i + 1;
    }
    false
}

/// `parts` joined with `sep` between consecutive parts.
pub fn join(parts: &Vec<String>, sep: &str) -> (out: String)
    ensures
        out@ == joined(parts.deep_view(), sep@),
{
    let mut out = String::new();
    let mut i: usize = 0;
    while i < parts.len()
        invariant
            i <= parts@.len(),
            out@ == joined(parts.deep_view().take(i as int), sep@),
        decreases parts@.len() - i,
    {
        proof {
            let next = parts.deep_view().take(i + 1);
            assert(next.drop_last() =~= parts.deep_view().take(i as int));
            assert(next.last() == parts@[i as int]@);
            if i == 0 {
                assert(out@ =~= Seq::<char>::empty());
                assert(Seq::<char>::empty() + parts@[i as int]@ =~= parts@[i as int]@);
            }
        }
        if i > 0 {
            out.append(sep);
        }
        out.append(parts[i].as_str());
        i = i + 1;
    }
    proof {
        assert(parts.deep_view().take(parts@.len() as int) =~= parts.deep_view());
    }
    out
}

/// Appends `n` in decimal notation to `out`.
fn push_decimal(n: u64, out: &mut Vec<char>)
    ensures
        final(out)@ == old(out)@ + decimal(n as nat),
    decreases n,
{
    if n >= 10 {
        push_decimal(n / 10, out);
    }
    let d: u8 = (n % 10) as u8;
    out.push((48u8 + d) as char);
    proof {
        assert(final(out)@ =~= old(out)@ + decimal(n as nat));
    }
}

/// `n` in decimal notation.
pub fn decimal_string(n: u64) -> (out: String)
    ensures
        out@ == decimal(n as nat),
{
    let mut digits: Vec<char> = Vec::new();
    push_decimal(n, &mut digits);
    proof {
        assert(Seq::<char>::empty() + decimal(n as nat) =~= decimal(n as nat));
    }
    string_from_chars(digits.as_slice())
}

/// The first `limit` characters of `text`.
pub fn take_chars(text: &str, limit: usize) -> (out: String)
    ensures
        out@ == prefix_chars(text@, limit as nat),
{
    let chars = chars_of(text);
    if chars.len() <= limit {
        string_from_chars(chars.as_slice())
    } else {
        string_from_chars(slice_subrange(chars.as_slice(), 0, limit))
    }
}

/// The lower-case form of an ASCII capital; any other character unchanged.
fn lower_ascii(c: char) -> (out: char)
    ensures
        out == ascii_lower(c),
{
    if 'A' <= c && c <= 'Z' {
        ((c as u8) + 32) as char
    } else {
        c
    }
}

/// Whether two texts are equal once ASCII capitals are lowered.
pub fn eq_ignore_ascii_case(a: &str, b: &str) -> (same: bool)
    ensures
        same == eq_ignoring_ascii_case(a@, b@),
{
    let left = chars_of(a);
    let right = chars_of(b);
    if left.len() != right.len() {
        return false;
    }
    let mut i: usize = 0;
    while i < left.len()
        invariant
            i <= left@.len(),
            left@.len() == right@.len(),
            left@ == a@,
            right@ == b@,
            forall|j: int| 0 <= j < i ==> ascii_lower(#[trigger] left@[j]) == ascii_lower(right@[j]),
        decreases left@.len() - i,
    {
        if lower_ascii(left[i]) != lower_ascii(right[i]) {
            return false;
        }
        i = i + 1;
    }
    true
}

/// Whether `a` comes before `b` in the lexicographic order by code point.
pub fn text_less(a: &str, b: &str) -> (less: bool)
    ensures
        less == text_lt(a@, b@),
{
    let left = chars_of(a);
    let right = chars_of(b);
    let mut i: usize = 0;
    proof {
        assert(left@.skip(0) =~= left@);
        assert(right@.skip(0) =~= right@);
    }
    loop
        invariant
            i <= left@.len(),
            i <= right@.len(),
            left@ == a@,
            right@ == b@,
            text_lt(a@, b@) == text_lt(left@.skip(i as int), right@.skip(i as int)),
        decreases left@.len() - i,
    {
        if i >= right.len() {
            return false;
        }
        if i >= left.len() {
            return true;
        }
        proof {
            assert(left@.skip(i as int).drop_first() =~= left@.skip(i + 1));
            assert(right@.skip(i as int).drop_first() =~= right@.skip(i + 1));
        }
        if left[i] != right[i] {
            return (left[i] as u32) < (right[i] as u32);
        }
        i = i + 1;
    }
}

/// Number of leading characters of `s` that are not whitespace.
pub open spec fn leading_word(s: Seq<char>) -> nat
    decreases s.len(),
{
    if s.len() > 0 && !white_space(s[0]) {
        1 + leading_word(s.drop_first())
    } else {
        0
    }
}

/// The first whitespace-delimited token of `s`, if it has one.
pub open spec fn first_token(s: Seq<char>) -> Option<Seq<char>> {
    let t = trimmed_start(s);
    if t.len() == 0 {
        None
    } else {
        Some(t.take(leading_word(t) as int))
    }
}

/// Whether a whitespace-delimited token of `s` starts at index `i`.
pub open spec fn is_token_start(s: Seq<char>, i: int) -> bool {
    !white_space(s[i]) && (i == 0 || white_space(s[i - 1]))
}

/// Number of tokens of `s` that start before index `n`.
pub open spec fn token_starts(s: Seq<char>, n: nat) -> nat
    decreases n,
{
    if n == 0 {
        0
    } else {
        token_starts(s, (n - 1) as nat) + if is_token_start(s, n - 1) {
            1nat
        } else {
            0nat
        }
    }
}

/// Number of whitespace-delimited tokens of `s`.
pub open spec fn token_count(s: Seq<char>) -> nat {
    token_starts(s, s.len())
}

/// The first token of a text is no longer than the text.
proof fn lemma_leading_word_bound(s: Seq<char>)
    ensures
        leading_word(s) <= s.len(),
    decreases s.len(),
{
    if s.len() > 0 && !white_space(s[0]) {
        lemma_leading_word_bound(s.drop_first());
    }
}

/// Index of the first whitespace character of `chars[from..to]`, or `to` when
/// there is none.
fn skip_word(chars: &[char], from: usize, to: usize) -> (at: usize)
    requires
        from <= to <= chars@.len(),
    ensures
        at == from + leading_word(chars@.subrange(from as int, to as int)),
        from <= at <= to,
{
    let mut at: usize = from;
    proof {
        lemma_leading_word_bound(chars@.subrange(from as int, to as int));
    }
    while at < to && !is_whitespace(chars[at])
        invariant
            from <= at <= to <= chars@.len(),
            from + leading_word(chars@.subrange(from as int, to as int)) == at + leading_word(
                chars@.subrange(at as int, to as int),
            ),
        decreases to - at,
    {
        proof {
            let cur = chars@.subrange(at as int, to as int);
            assert(cur[0] == chars@[at as int]);
            assert(cur.drop_first() =~= chars@.subrange(at + 1, to as int));
        }
        at = at + 1;
    }
    proof {
        let cur = chars@.subrange(at as int, to as int);
        if at < to {
            assert(cur[0] == chars@[at as int]);
        }
    }
    at
}

/// The first whitespace-delimited token of `text`, if it has one.
pub fn first_token_of(text: &str) -> (token: Option<String>)
    ensures
        token.deep_view() == first_token(text@),
{
    let chars = chars_of(text);
    let n = chars.len();
    let start = skip_space(chars.as_slice(), 0, n);
    proof {
        assert(chars@.subrange(0, n as int) =~= chars@);
        assert(chars@.subrange(start as int, n as int) =~= trimmed_start(chars@));
    }
    if start == n {
        None
    } else {
        let end = skip_word(chars.as_slice(), start, n);
        let token = string_from_chars(slice_subrange(chars.as_slice(), start, end));
        proof {
            assert(chars@.subrange(start as int, end as int) =~= trimmed_start(chars@).take(
                end - start,
            ));
        }
        Some(token)
    }
}

/// Number of whitespace-delimited tokens of `chars`.
pub fn count_tokens(chars: &[char]) -> (count: usize)
    ensures
        count == token_count(chars@),
{
    let n = chars.len();
    let mut count: usize = 0;
    let mut i: usize = 0;
    while i < n
        invariant
            i <= n,
            n == chars@.len(),
            count == token_starts(chars@, i as nat),
            count <= i,
        decreases n - i,
    {
        let starts = !is_whitespace(chars[i]) && (i == 0 || is_whitespace(chars[i - 1]));
        if starts {
            count = count + 1;
        }
        i = i + 1;
    }
    count
}

/// Length of the first line of `s`: the index of its first line feed, or the
/// length of `s` when it has none.
pub open spec fn line_len(s: Seq<char>) -> nat
    decreases s.len(),
{
    if s.len() > 0 && s[0] != '\n' {
        1 + line_len(s.drop_first())
    } else {
        0
    }
}

/// `s` without one trailing carriage return.
pub open spec fn without_cr(s: Seq<char>) -> Seq<char> {
    if s.len() > 0 && s.last() == '\r' {
        s.drop_last()
    } else {
        s
    }
}

/// The lines of `s`. A line ends at a line feed, or at a carriage return
/// directly followed by one; the terminator is not part of the line, and a
/// terminator at the very end opens no further line.
pub open spec fn lines_of(s: Seq<char>) -> Seq<Seq<char>>
    decreases s.len(),
{
    if s.len() == 0 {
        Seq::empty()
    } else {
        let n = line_len(s);
        if n < s.len() {
            seq![without_cr(s.take(n as int))] + lines_of(s.skip(n as int + 1))
        } else {
            seq![s]
        }
    }
}

/// The first line of a text ends at a line feed or at the end of the text.
proof fn lemma_line_len_bound(s: Seq<char>)
    ensures
        line_len(s) <= s.len(),
        line_len(s) < s.len() ==> s[line_len(s) as int] == '\n',
    decreases s.len(),
{
    if s.len() > 0 && s[0] != '\n' {
        lemma_line_len_bound(s.drop_first());
    }
}

/// Index of the first line feed of `chars[from..]`, or the length of `chars`.
fn find_line_end(chars: &[char], from: usize) -> (at: usize)
    requires
        from <= chars@.len(),
    ensures
        at == from + line_len(chars@.skip(from as int)),
        from <= at <= chars@.len(),
{
    let n = chars.len();
    let mut at: usize = from;
    proof {
        lemma_line_len_bound(chars@.skip(from as int));
    }
    while at < n && chars[at] != '\n'
        invariant
            from <= at <= n,
            n == chars@.len(),
            from + line_len(chars@.skip(from as int)) == at + line_len(chars@.skip(at as int)),
        decreases n - at,
    {
        proof {
            assert(chars@.skip(at as int).drop_first() =~= chars@.skip(at + 1));
        }
        at = at + 1;
    }
    at
}

/// The lines of `text`.
pub fn split_lines(text: &str) -> (lines: Vec<String>)
    ensures
        lines.deep_view() == lines_of(text@),
{
    let chars = chars_of(text);
    let n = chars.len();
    let mut lines: Vec<String> = Vec::new();
    let mut pos: usize = 0;
    proof {
        assert(chars@.skip(0) =~= chars@);
        assert(lines.deep_view() =~= Seq::<Seq<char>>::empty());
        assert(Seq::<Seq<char>>::empty() + lines_of(chars@) =~= lines_of(chars@));
    }
    while pos < n
        invariant
            pos <= n,
            n == chars@.len(),
            chars@ == text@,
            lines_of(chars@) == lines.deep_view() + lines_of(chars@.skip(pos as int)),
        decreases n - pos,
    {
        let end = find_line_end(chars.as_slice(), pos);
        let ghost rest = chars@.skip(pos as int);
        let ghost before = lines@;
        let ghost before_view = lines.deep_view();
        if end < n {
            let stop = if end > pos && chars[end - 1] == '\r' {
                end - 1
            } else {
                end
            };
            let line = string_from_chars(slice_subrange(chars.as_slice(), pos, stop));
            proof {
                assert(rest.take(end - pos) =~= chars@.subrange(pos as int, end as int));
                assert(line@ =~= without_cr(rest.take(end - pos)));
                assert(rest.skip(end - pos + 1) =~= chars@.skip(end + 1));
            }
            lines.push(line);
            proof {
                lemma_vec_pushed(before, lines, line);
                assert(lines.deep_view() =~= before_view.push(line@));
                assert(before_view + (seq![line@] + lines_of(chars@.skip(end + 1)))
                    =~= before_view.push(line@) + lines_of(chars@.skip(end + 1)));
            }
            pos = end + 1;
        } else {
            let line = string_from_chars(slice_subrange(chars.as_slice(), pos, n));
            proof {
                assert(line@ =~= rest);
            }
            lines.push(line);
            proof {
                lemma_vec_pushed(before, lines, line);
                assert(lines.deep_view() =~= before_view.push(line@));
                assert(chars@.skip(n as int) =~= Seq::<char>::empty());
                assert(before_view + seq![rest] =~= before_view.push(line@) + lines_of(
                    chars@.skip(n as int),
                ));
            }
            pos = n;
        }
    }
    proof {
        assert(chars@.skip(n as int) =~= Seq::<char>::empty());
        assert(lines.deep_view() + Seq::<Seq<char>>::empty() =~= lines.deep_view());
    }
    lines
}

/// No text comes before itself, and of two texts at most one comes before
/// the other.
pub proof fn lemma_text_lt_asymmetric(a: Seq<char>, b: Seq<char>)
    requires
        text_lt(a, b),
    ensures
        !text_lt(b, a),
        a != b,
    decreases a.len(),
{
    if a.len() > 0 && b.len() > 0 && a[0] == b[0] {
        lemma_text_lt_asymmetric(a.drop_first(), b.drop_first());
    }
}

/// Of two different texts one comes before the other.
pub proof fn lemma_text_lt_connected(a: Seq<char>, b: Seq<char>)
    ensures
        a == b || text_lt(a, b) || text_lt(b, a),
    decreases a.len(),
{
    if a.len() == 0 || b.len() == 0 {
        if a.len() == 0 && b.len() == 0 {
            assert(a =~= b);
        }
    } else if a[0] == b[0] {
        lemma_text_lt_connected(a.drop_first(), b.drop_first());
        if a.drop_first() == b.drop_first() {
            assert(a =~= seq![a[0]] + a.drop_first());
            assert(b =~= seq![b[0]] + b.drop_first());
        }
    } else {
        vstd::utf8::char_u32_cast(a[0], a[0] as u32);
        vstd::utf8::char_u32_cast(b[0], b[0] as u32);
    }
}

/// The order of texts is transitive.
pub proof fn lemma_text_lt_transitive(a: Seq<char>, b: Seq<char>, c: Seq<char>)
    requires
        text_lt(a, b),
        text_lt(b, c),
    ensures
        text_lt(a, c),
    decreases a.len(),
{
    if a.len() > 0 && b.len() > 0 && c.len() > 0 {
        if a[0] == b[0] && b[0] == c[0] {
            lemma_text_lt_transitive(a.drop_first(), b.drop_first(), c.drop_first());
        }
    }
}

/// The texts of `parts` one after the other.
pub open spec fn concat_all(parts: Seq<Seq<char>>) -> Seq<char>
    decreases parts.len(),
{
    if parts.len() == 0 {
        Seq::empty()
    } else {
        concat_all(parts.drop_last()) + parts.last()
    }
}

/// The texts of `parts` one after the other.
pub fn concatenate(parts: &Vec<String>) -> (out: String)
    ensures
        out@ == concat_all(parts.deep_view()),
{
    let mut out = String::new();
    let mut i: usize = 0;
    while i < parts.len()
        invariant
            i <= parts@.len(),
            out@ == concat_all(parts.deep_view().take(i as int)),
        decreases parts@.len() - i,
    {
        proof {
            let next = parts.deep_view().take(i + 1);
            assert(next.drop_last() =~= parts.deep_view().take(i as int));
            assert(next.last() == parts@[i as int]@);
        }
        out.append(parts[i].as_str());
        i = i + 1;
    }
    proof {
        assert(parts.deep_view().take(parts@.len() as int) =~= parts.deep_view());
    }
    out
}

/// A text, or the empty text where there is none.
pub open spec fn or_empty(text: Option<Seq<char>>) -> Seq<char> {
    match text {
        Some(t) => t,
        None => Seq::empty(),
    }
}

/// A string slice, or the empty one where there is none.
pub fn str_or_empty<'a>(text: Option<&'a str>) -> (out: &'a str)
    ensures
        out@ == or_empty(text.deep_view()),
{
    match text {
        Some(t) => t,
        None => {
            proof {
                reveal_strlit("");
                assert(""@ =~= Seq::<char>::empty());
            }
            ""
        },
    }
}

} // verus!
