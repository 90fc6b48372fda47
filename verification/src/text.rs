//! Character-level text primitives.
//!
//! Strings are viewed as sequences of characters (`Seq<char>`); positions are
//! character positions, never byte offsets.

use vstd::prelude::*;

verus! {

/// Whether two string slices hold the same characters.
///
/// Trusted: `==` on `str` is true exactly when both slices hold the same
/// characters in the same order.
#[verifier::external_body]
pub(crate) fn str_eq(a: &str, b: &str) -> (r: bool)
    ensures
        r == (a@ == b@),
{
    a == b
}

/// Appends one character to a string.
///
/// Trusted: `String::push` adds exactly the given character at the end.
#[verifier::external_body]
pub(crate) fn push_char(s: &mut String, c: char)
    ensures
        final(s)@ == old(s)@.push(c),
{
    s.push(c)
}

/// The characters of an optional text.
pub open spec fn text_view(text: Option<&str>) -> Option<Seq<char>> {
    match text {
        Some(t) => Some(t@),
        None => None,
    }
}

/// The characters of a string, in order.
pub fn to_chars(s: &str) -> (v: Vec<char>)
    ensures
        v@ == s@,
{
    let mut v: Vec<char> = Vec::new();
    for c in it: s.chars()
        invariant
            it.seq() == s@,
            v@ == s@.take(it.index() as int),
    {
        v.push(c);
    }
    v
}

/// The string made of the given characters.
pub fn from_chars(v: &Vec<char>) -> (s: String)
    ensures
        s@ == v@,
{
    let mut s = String::new();
    let mut i: usize = 0;
    while i < v.len()
        invariant
            i <= v.len(),
            s@ == v@.take(i as int),
        decreases v.len() - i,
    {
        push_char(&mut s, v[i]);
        i += 1;
    }
    s
}

/// Appends the characters of `s` to `out`.
pub fn append_str(out: &mut Vec<char>, s: &str)
    ensures
        final(out)@ == old(out)@ + s@,
{
    for c in it: s.chars()
        invariant
            it.seq() == s@,
            out@ == old(out)@ + s@.take(it.index() as int),
    {
        out.push(c);
    }
}

/// Appends the characters `src[from..to]` to `out`.
pub fn append_range(out: &mut Vec<char>, src: &Vec<char>, from: usize, to: usize)
    requires
        from <= to <= src.len(),
    ensures
        final(out)@ == old(out)@ + src@.subrange(from as int, to as int),
{
    let mut i: usize = from;
    while i < to
        invariant
            from <= i <= to <= src.len(),
            out@ == old(out)@ + src@.subrange(from as int, i as int),
        decreases to - i,
    {
        out.push(src[i]);
        i += 1;
    }
}

/// Appends all of `src` to `out`.
pub fn append_chars(out: &mut Vec<char>, src: &Vec<char>)
    ensures
        final(out)@ == old(out)@ + src@,
{
    append_range(out, src, 0, src.len());
    assert(src@.subrange(0, src.len() as int) == src@);
}

/// A copy of `src[from..to]`.
pub fn slice(src: &Vec<char>, from: usize, to: usize) -> (r: Vec<char>)
    requires
        from <= to <= src.len(),
    ensures
        r@ == src@.subrange(from as int, to as int),
{
    let mut r: Vec<char> = Vec::new();
    append_range(&mut r, src, from, to);
    r
}

/// `needle` occurs in `hay` starting at position `i`.
pub open spec fn matches_at(hay: Seq<char>, needle: Seq<char>, i: int) -> bool {
    0 <= i && i + needle.len() <= hay.len() && hay.subrange(i, i + needle.len()) == needle
}

/// The first position at or after `from` where `needle` occurs in `hay`.
pub open spec fn find_from(hay: Seq<char>, needle: Seq<char>, from: int) -> Option<int>
    decreases hay.len() + 1 - from,
{
    if from < 0 || from + needle.len() > hay.len() {
        None
    } else if matches_at(hay, needle, from) {
        Some(from)
    } else {
        find_from(hay, needle, from + 1)
    }
}

/// `needle` occurs somewhere in `hay`.
pub open spec fn contains_sub(hay: Seq<char>, needle: Seq<char>) -> bool {
    find_from(hay, needle, 0) is Some
}

/// `s` begins with `prefix`.
pub open spec fn has_prefix(s: Seq<char>, prefix: Seq<char>) -> bool {
    matches_at(s, prefix, 0)
}

/// `find_from` returns the least matching position, and `None` only when
/// there is no match at or after `from`.
pub proof fn lemma_find_from(hay: Seq<char>, needle: Seq<char>, from: int)
    requires
        0 <= from,
    ensures
        match find_from(hay, needle, from) {
            Some(i) => from <= i && matches_at(hay, needle, i) && forall|j: int|
                from <= j < i ==> !matches_at(hay, needle, j),
            None => forall|j: int| from <= j ==> !matches_at(hay, needle, j),
        },
    decreases hay.len() + 1 - from,
{
    if from + needle.len() > hay.len() {
    } else if matches_at(hay, needle, from) {
    } else {
        lemma_find_from(hay, needle, from + 1);
    }
}

/// Whether `needle` occurs in `hay` at position `i`.
pub fn is_match_at(hay: &Vec<char>, needle: &Vec<char>, i: usize) -> (r: bool)
    ensures
        r == matches_at(hay@, needle@, i as int),
{
    if needle.len() > hay.len() || i > hay.len() - needle.len() {
        return false;
    }
    let mut k: usize = 0;
    while k < needle.len()
        invariant
            k <= needle.len(),
            i + needle.len() <= hay.len(),
            forall|j: int| 0 <= j < k ==> hay@[i + j] == needle@[j],
        decreases needle.len() - k,
    {
        if hay[i + k] != needle[k] {
            assert(hay@.subrange(i as int, i + needle.len())[k as int] != needle@[k as int]);
            return false;
        }
        k += 1;
    }
    assert(hay@.subrange(i as int, i + needle.len()) =~= needle@);
    true
}

/// The first position at or after `from` where `needle` occurs in `hay`.
pub fn find(hay: &Vec<char>, needle: &Vec<char>, from: usize) -> (r: Option<usize>)
    ensures
        match r {
            Some(i) => find_from(hay@, needle@, from as int) == Some(i as int) && from <= i
                && i + needle.len() <= hay.len(),
            None => find_from(hay@, needle@, from as int) is None,
        },
{
    if needle.len() > hay.len() {
        return None;
    }
    let last: usize = hay.len() - needle.len();
    if from > last {
        return None;
    }
    let mut i: usize = from;
    loop
        invariant
            from <= i <= last,
            last == hay.len() - needle.len(),
            needle.len() <= hay.len(),
            find_from(hay@, needle@, from as int) == find_from(hay@, needle@, i as int),
        decreases last - i,
    {
        if is_match_at(hay, needle, i) {
            return Some(i);
        }
        if i == last {
            assert(find_from(hay@, needle@, i + 1) is None);
            return None;
        }
        i += 1;
    }
}

/// Whether `needle` occurs somewhere in `hay`.
pub fn contains(hay: &Vec<char>, needle: &Vec<char>) -> (r: bool)
    ensures
        r == contains_sub(hay@, needle@),
{
    find(hay, needle, 0).is_some()
}

/// Whether `needle` occurs somewhere in `hay`.
pub fn str_contains(hay: &str, needle: &str) -> (r: bool)
    ensures
        r == contains_sub(hay@, needle@),
{
    let h = to_chars(hay);
    let n = to_chars(needle);
    contains(&h, &n)
}

/// Whether `s` begins with `prefix`.
pub fn str_starts_with(s: &str, prefix: &str) -> (r: bool)
    ensures
        r == has_prefix(s@, prefix@),
{
    let h = to_chars(s);
    let n = to_chars(prefix);
    is_match_at(&h, &n, 0)
}

/// `s` with every occurrence of `from` replaced by `to`, scanning left to
/// right and never rescanning what was written.  An empty `from` changes
/// nothing.
pub open spec fn replaced(s: Seq<char>, from: Seq<char>, to: Seq<char>) -> Seq<char>
    decreases s.len(),
{
    if from.len() == 0 {
        s
    } else {
        match find_from(s, from, 0) {
            Some(i) if 0 <= i <= s.len() - from.len() => s.subrange(0, i) + to + replaced(
                s.subrange(i + from.len(), s.len() as int),
                from,
                to,
            ),
            _ => s,
        }
    }
}

proof fn lemma_find_shift(hay: Seq<char>, needle: Seq<char>, base: int, from: int)
    requires
        0 <= base <= hay.len(),
        0 <= from,
    ensures
        find_from(hay, needle, base + from) == match find_from(
            hay.subrange(base, hay.len() as int),
            needle,
            from,
        ) {
            Some(i) => Some(base + i),
            None => None,
        },
    decreases hay.len() + 1 - base - from,
{
    let tail = hay.subrange(base, hay.len() as int);
    if from + needle.len() > tail.len() {
    } else {
        assert(tail.subrange(from, from + needle.len()) =~= hay.subrange(
            base + from,
            base + from + needle.len(),
        ));
        if matches_at(tail, needle, from) {
        } else {
            lemma_find_shift(hay, needle, base, from + 1);
        }
    }
}

/// `s` with every occurrence of `from` replaced by `to`.
pub fn replace(s: &Vec<char>, from: &Vec<char>, to: &Vec<char>) -> (r: Vec<char>)
    ensures
        r@ == replaced(s@, from@, to@),
{
    let mut out: Vec<char> = Vec::new();
    if from.len() == 0 {
        append_chars(&mut out, s);
        return out;
    }
    let mut pos: usize = 0;
    assert(s@.subrange(0, s.len() as int) == s@);
    loop
        invariant
            pos <= s.len(),
            from.len() > 0,
            replaced(s@, from@, to@) == out@ + replaced(
                s@.subrange(pos as int, s.len() as int),
                from@,
                to@,
            ),
        decreases s.len() - pos,
    {
        let ghost tail = s@.subrange(pos as int, s.len() as int);
        proof {
            lemma_find_shift(s@, from@, pos as int, 0);
        }
        match find(s, from, pos) {
            None => {
                append_range(&mut out, s, pos, s.len());
                return out;
            },
            Some(i) => {
                let ghost before = out@;
                append_range(&mut out, s, pos, i);
                append_chars(&mut out, to);
                proof {
                    let k = i - pos;
                    assert(tail.subrange(0, k) =~= s@.subrange(pos as int, i as int));
                    assert(tail.subrange(k + from.len(), tail.len() as int) =~= s@.subrange(
                        i + from.len(),
                        s.len() as int,
                    ));
                    assert(out@ =~= before + (tail.subrange(0, k) + to@));
                    assert(before + (tail.subrange(0, k) + to@ + replaced(
                        tail.subrange(k + from.len(), tail.len() as int),
                        from@,
                        to@,
                    )) =~= out@ + replaced(
                        s@.subrange(i + from.len(), s.len() as int),
                        from@,
                        to@,
                    ));
                }
                pos = i + from.len();
            },
        }
    }
}

/// The character for one decimal digit.
pub open spec fn digit_char(d: int) -> char {
    if d == 0 {
        '0'
    } else if d == 1 {
        '1'
    } else if d == 2 {
        '2'
    } else if d == 3 {
        '3'
    } else if d == 4 {
        '4'
    } else if d == 5 {
        '5'
    } else if d == 6 {
        '6'
    } else if d == 7 {
        '7'
    } else if d == 8 {
        '8'
    } else {
        '9'
    }
}

/// The decimal notation of a natural number, without leading zeros.
pub open spec fn decimal(n: nat) -> Seq<char>
    decreases n,
{
    if n < 10 {
        seq![digit_char(n as int)]
    } else {
        decimal(n / 10).push(digit_char((n % 10) as int))
    }
}

/// The decimal notation of an integer, with a leading `-` when negative.
pub open spec fn signed_decimal(n: int) -> Seq<char> {
    if n < 0 {
        seq!['-'] + decimal((-n) as nat)
    } else {
        decimal(n as nat)
    }
}

/// The decimal notation of an integer, padded with one leading zero when it
/// would otherwise be a single digit.
pub open spec fn decimal_pad2(n: int) -> Seq<char> {
    if 0 <= n < 10 {
        seq!['0'] + decimal(n as nat)
    } else {
        signed_decimal(n)
    }
}

fn digit(d: u8) -> (c: char)
    requires
        d < 10,
    ensures
        c == digit_char(d as int),
{
    if d == 0 {
        '0'
    } else if d == 1 {
        '1'
    } else if d == 2 {
        '2'
    } else if d == 3 {
        '3'
    } else if d == 4 {
        '4'
    } else if d == 5 {
        '5'
    } else if d == 6 {
        '6'
    } else if d == 7 {
        '7'
    } else if d == 8 {
        '8'
    } else {
        '9'
    }
}

/// Appends the decimal notation of `n` to `out`.
pub fn append_decimal(out: &mut Vec<char>, n: u128)
    ensures
        final(out)@ == old(out)@ + decimal(n as nat),
    decreases n,
{
    if n < 10 {
        out.push(digit(n as u8));
        assert(out@ =~= old(out)@ + decimal(n as nat));
    } else {
        append_decimal(out, n / 10);
        out.push(digit((n % 10) as u8));
        assert(out@ =~= old(out)@ + decimal(n as nat));
    }
}

/// Appends the decimal notation of `n`, signed, to `out`.
pub fn append_signed(out: &mut Vec<char>, n: i64)
    ensures
        final(out)@ == old(out)@ + signed_decimal(n as int),
{
    if n < 0 {
        out.push('-');
        let m: u128 = (-(n as i128)) as u128;
        append_decimal(out, m);
        assert(out@ =~= old(out)@ + signed_decimal(n as int));
    } else {
        append_decimal(out, n as u128);
    }
}

/// Appends the decimal notation of `n`, two characters wide at least, to `out`.
pub fn append_pad2(out: &mut Vec<char>, n: i64)
    ensures
        final(out)@ == old(out)@ + decimal_pad2(n as int),
{
    if 0 <= n && n < 10 {
        out.push('0');
        append_decimal(out, n as u128);
        assert(out@ =~= old(out)@ + decimal_pad2(n as int));
    } else {
        append_signed(out, n);
    }
}

/// The decimal notation of `n` as a string.
pub fn decimal_string(n: u64) -> (s: String)
    ensures
        s@ == decimal(n as nat),
{
    let mut out: Vec<char> = Vec::new();
    append_decimal(&mut out, n as u128);
    from_chars(&out)
}

/// Whether a character is white space.
pub uninterp spec fn is_space(c: char) -> bool;

/// A text in small letters.
pub uninterp spec fn lowercase(s: Seq<char>) -> Seq<char>;

/// Whether a character is white space.
///
/// Trusted: calls `char::is_whitespace`, which goes by the Unicode property
/// `White_Space`.  The contract only names the outcome.
#[verifier::external_body]
pub(crate) fn char_is_whitespace(c: char) -> (r: bool)
    ensures
        r == is_space(c),
{
    c.is_whitespace()
}

/// A text in small letters.
///
/// Trusted: calls `str::to_lowercase`, which goes by the Unicode property
/// `Lowercase`.  The contract only names the outcome.
#[verifier::external_body]
pub(crate) fn to_lowercase(s: &str) -> (r: String)
    ensures
        r@ == lowercase(s@),
{
    s.to_lowercase()
}

/// The first position at or after `from` that holds no white space; the
/// length of `s` where there is none.
pub open spec fn text_start(s: Seq<char>, from: int) -> int
    decreases s.len() - from,
{
    if from < 0 || from >= s.len() {
        s.len() as int
    } else if !is_space(s[from]) {
        from
    } else {
        text_start(s, from + 1)
    }
}

/// The position behind the last character before `to` that is no white
/// space; 0 where there is none.
pub open spec fn text_end(s: Seq<char>, to: int) -> int
    decreases to,
{
    if to <= 0 || to > s.len() {
        0
    } else if !is_space(s[to - 1]) {
        to
    } else {
        text_end(s, to - 1)
    }
}

/// `s` without the white space at its beginning and at its end.
pub open spec fn trimmed(s: Seq<char>) -> Seq<char> {
    let a = text_start(s, 0);
    let b = text_end(s, s.len() as int);
    if a <= b {
        s.subrange(a, b)
    } else {
        Seq::empty()
    }
}

/// `s` without the white space at its beginning and at its end.
pub fn trim(s: &Vec<char>) -> (r: Vec<char>)
    ensures
        r@ == trimmed(s@),
{
    let mut a: usize = 0;
    while a < s.len() && char_is_whitespace(s[a])
        invariant
            a <= s.len(),
            text_start(s@, 0) == text_start(s@, a as int),
        decreases s.len() - a,
    {
        a += 1;
    }
    let mut b: usize = s.len();
    while b > 0 && char_is_whitespace(s[b - 1])
        invariant
            b <= s.len(),
            text_end(s@, s.len() as int) == text_end(s@, b as int),
        decreases b,
    {
        b -= 1;
    }
    if a <= b {
        slice(s, a, b)
    } else {
        Vec::new()
    }
}

/// `s` without the white space at its beginning and at its end.
pub fn str_trim(s: &str) -> (r: String)
    ensures
        r@ == trimmed(s@),
{
    let chars = to_chars(s);
    let t = trim(&chars);
    from_chars(&t)
}

/// `s` without the white space at its end.
pub open spec fn trimmed_end(s: Seq<char>) -> Seq<char> {
    s.subrange(0, text_end(s, s.len() as int))
}

/// `s` without the white space at its end.
pub fn trim_end(s: &Vec<char>) -> (r: Vec<char>)
    ensures
        r@ == trimmed_end(s@),
{
    let mut b: usize = s.len();
    while b > 0 && char_is_whitespace(s[b - 1])
        invariant
            b <= s.len(),
            text_end(s@, s.len() as int) == text_end(s@, b as int),
        decreases b,
    {
        b -= 1;
    }
    slice(s, 0, b)
}

/// The position behind the last character before `to` that is not `c`.
pub open spec fn end_without(s: Seq<char>, c: char, to: int) -> int
    decreases to,
{
    if to <= 0 || to > s.len() {
        0
    } else if s[to - 1] != c {
        to
    } else {
        end_without(s, c, to - 1)
    }
}

/// `s` without the characters `c` at its end.
pub open spec fn trimmed_end_of(s: Seq<char>, c: char) -> Seq<char> {
    s.subrange(0, end_without(s, c, s.len() as int))
}

/// `s` without the characters `c` at its end.
pub fn trim_end_of(s: &Vec<char>, c: char) -> (r: Vec<char>)
    ensures
        r@ == trimmed_end_of(s@, c),
{
    let mut b: usize = s.len();
    while b > 0 && s[b - 1] == c
        invariant
            b <= s.len(),
            end_without(s@, c, s.len() as int) == end_without(s@, c, b as int),
        decreases b,
    {
        b -= 1;
    }
    slice(s, 0, b)
}

/// The position of the first line feed at or after `from`; the length of
/// `s` where there is none.
pub open spec fn line_end(s: Seq<char>, from: int) -> int
    decreases s.len() - from,
{
    if from < 0 || from >= s.len() {
        s.len() as int
    } else if s[from] == '\n' {
        from
    } else {
        line_end(s, from + 1)
    }
}

/// The lines of `s` from position `from` on.  A line ends at a line feed; the
/// line feed is no part of it, nor is a carriage return just before the line
/// feed.  What follows the last line feed is a line too, unless it is empty.
pub open spec fn lines_from(s: Seq<char>, from: int) -> Seq<Seq<char>>
    decreases s.len() - from,
{
    if from < 0 || from >= s.len() {
        Seq::empty()
    } else {
        let e = line_end(s, from);
        if from <= e < s.len() {
            let stop = if e > from && s[e - 1] == '\r' {
                e - 1
            } else {
                e
            };
            seq![s.subrange(from, stop)] + lines_from(s, e + 1)
        } else {
            seq![s.subrange(from, s.len() as int)]
        }
    }
}

/// The lines of `s`.
pub open spec fn lines_of(s: Seq<char>) -> Seq<Seq<char>> {
    lines_from(s, 0)
}

/// The lines of `s`.
pub fn lines(s: &Vec<char>) -> (r: Vec<Vec<char>>)
    ensures
        r@.map_values(|l: Vec<char>| l@) == lines_of(s@),
{
    let mut out: Vec<Vec<char>> = Vec::new();
    let mut pos: usize = 0;
    assert(out@.map_values(|l: Vec<char>| l@) =~= Seq::<Seq<char>>::empty());
    while pos < s.len()
        invariant
            pos <= s.len(),
            lines_of(s@) == out@.map_values(|l: Vec<char>| l@) + lines_from(s@, pos as int),
        decreases s.len() - pos,
    {
        let mut e: usize = pos;
        while e < s.len() && s[e] != '\n'
            invariant
                pos <= e <= s.len(),
                line_end(s@, pos as int) == line_end(s@, e as int),
            decreases s.len() - e,
        {
            e += 1;
        }
        let ghost before = out@.map_values(|l: Vec<char>| l@);
        if e < s.len() {
            let stop: usize = if e > pos && s[e - 1] == '\r' {
                e - 1
            } else {
                e
            };
            let line = slice(s, pos, stop);
            out.push(line);
            proof {
                let rest = lines_from(s@, e + 1);
                assert(out@.map_values(|l: Vec<char>| l@) =~= before.push(s@.subrange(pos as int, stop as int)));
                assert(before + (seq![s@.subrange(pos as int, stop as int)] + rest) =~= before.push(
                    s@.subrange(pos as int, stop as int),
                ) + rest);
            }
            pos = e + 1;
        } else {
            let line = slice(s, pos, s.len());
            out.push(line);
            proof {
                assert(out@.map_values(|l: Vec<char>| l@) =~= before.push(s@.subrange(pos as int, s.len() as int)));
                assert(before + seq![s@.subrange(pos as int, s.len() as int)] =~= before.push(
                    s@.subrange(pos as int, s.len() as int),
                ) + Seq::<Seq<char>>::empty());
            }
            pos = s.len();
        }
    }
    assert(lines_from(s@, pos as int) =~= Seq::<Seq<char>>::empty());
    out
}

/// The number of bytes that a character takes in UTF-8.
pub open spec fn utf8_width(c: char) -> nat {
    let n = c as int;
    if n < 0x80 {
        1
    } else if n < 0x800 {
        2
    } else if n < 0x10000 {
        3
    } else {
        4
    }
}

/// The number of bytes that a text takes in UTF-8.
pub open spec fn byte_len(s: Seq<char>) -> nat
    decreases s.len(),
{
    if s.len() == 0 {
        0
    } else {
        byte_len(s.drop_last()) + utf8_width(s.last())
    }
}

/// How many characters of `s`, from the beginning, take no more than `max`
/// bytes together.
pub open spec fn chars_within(s: Seq<char>, max: nat) -> nat
    decreases s.len(),
{
    if s.len() == 0 {
        0
    } else if byte_len(s) <= max {
        s.len()
    } else {
        chars_within(s.drop_last(), max)
    }
}

/// The longest beginning of `s` that takes no more than `max` bytes.
pub open spec fn truncated(s: Seq<char>, max: nat) -> Seq<char> {
    s.take(chars_within(s, max) as int)
}

proof fn lemma_byte_len_grows(s: Seq<char>, i: int)
    requires
        0 <= i <= s.len(),
    ensures
        byte_len(s.take(i)) <= byte_len(s),
        byte_len(s.take(i)) >= i,
    decreases s.len(),
{
    if i == s.len() {
        assert(s.take(i) =~= s);
        if s.len() > 0 {
            lemma_byte_len_grows(s.drop_last(), i - 1);
            assert(s.drop_last().take(i - 1) =~= s.drop_last());
        }
    } else {
        lemma_byte_len_grows(s.drop_last(), i);
        assert(s.drop_last().take(i) =~= s.take(i));
    }
}

proof fn lemma_chars_within(s: Seq<char>, max: nat, i: int)
    requires
        0 <= i <= s.len(),
        byte_len(s.take(i)) <= max,
        i == s.len() || byte_len(s.take(i + 1)) > max,
    ensures
        chars_within(s, max) == i,
    decreases s.len(),
{
    if s.len() == 0 {
    } else if i == s.len() {
        assert(s.take(i) =~= s);
    } else {
        lemma_byte_len_grows(s, i + 1);
        assert(s.drop_last().take(i) =~= s.take(i));
        if i + 1 <= s.len() - 1 {
            assert(s.drop_last().take(i + 1) =~= s.take(i + 1));
        }
        lemma_chars_within(s.drop_last(), max, i);
    }
}

fn char_bytes(c: char) -> (w: usize)
    ensures
        w == utf8_width(c),
{
    let n: u32 = c as u32;
    if n < 0x80 {
        1
    } else if n < 0x800 {
        2
    } else if n < 0x10000 {
        3
    } else {
        4
    }
}

/// No more characters fit than there are.
pub proof fn lemma_chars_within_bound(s: Seq<char>, max: nat)
    ensures
        chars_within(s, max) <= s.len(),
    decreases s.len(),
{
    if s.len() > 0 && byte_len(s) > max {
        lemma_chars_within_bound(s.drop_last(), max);
    }
}

/// The longest beginning of `s` that takes no more than `max` bytes.
pub fn truncate(s: &Vec<char>, max: usize) -> (r: Vec<char>)
    ensures
        r@ == truncated(s@, max as nat),
        r.len() <= s.len(),
        r.len() == s.len() ==> r@ == s@,
{
    proof {
        lemma_chars_within_bound(s@, max as nat);
        assert(s@.take(s.len() as int) =~= s@);
    }
    let mut i: usize = 0;
    let mut bytes: usize = 0;
    assert(s@.take(0) =~= Seq::<char>::empty());
    while i < s.len()
        invariant
            i <= s.len(),
            bytes == byte_len(s@.take(i as int)),
            bytes <= max,
        decreases s.len() - i,
    {
        let w = char_bytes(s[i]);
        assert(s@.take(i + 1).drop_last() =~= s@.take(i as int));
        if w > max - bytes {
            proof {
                lemma_chars_within(s@, max as nat, i as int);
            }
            return slice(s, 0, i);
        }
        bytes += w;
        i += 1;
    }
    proof {
        lemma_chars_within(s@, max as nat, i as int);
        assert(s@.subrange(0, i as int) =~= s@.take(i as int));
    }
    slice(s, 0, i)
}

/// The number that a text denotes as an `i32`: digits, with `+` or `-` before
/// them if any; `None` where the text is no such number or the number does
/// not fit.
pub uninterp spec fn i32_of(s: Seq<char>) -> Option<i32>;

/// The number that a text denotes as a `u32`.
pub uninterp spec fn u32_of(s: Seq<char>) -> Option<u32>;

/// The number that a text denotes as a `usize`.
pub uninterp spec fn usize_of(s: Seq<char>) -> Option<usize>;

/// Reads a number.
///
/// Trusted: calls `str::parse::<i32>`.  The contract only names the outcome.
#[verifier::external_body]
pub(crate) fn parse_i32(s: &str) -> (r: Option<i32>)
    ensures
        r == i32_of(s@),
{
    s.parse::<i32>().ok()
}

/// Reads a number.
///
/// Trusted: calls `str::parse::<u32>`.  The contract only names the outcome.
#[verifier::external_body]
pub(crate) fn parse_u32(s: &str) -> (r: Option<u32>)
    ensures
        r == u32_of(s@),
{
    s.parse::<u32>().ok()
}

/// Reads a number.
///
/// Trusted: calls `str::parse::<usize>`.  The contract only names the outcome.
#[verifier::external_body]
pub(crate) fn parse_usize(s: &str) -> (r: Option<usize>)
    ensures
        r == usize_of(s@),
{
    s.parse::<usize>().ok()
}

/// Whether a character is an ASCII character.
pub open spec fn is_ascii(c: char) -> bool {
    (c as int) < 128
}

/// Every character of `s` is an ASCII character.
pub open spec fn all_ascii(s: Seq<char>) -> bool {
    forall|i: int| 0 <= i < s.len() ==> is_ascii(#[trigger] s[i])
}

fn is_ascii_char(c: char) -> (r: bool)
    ensures
        r == is_ascii(c),
{
    (c as u32) < 128
}

/// Whether every character of `s` is an ASCII character.
pub fn is_all_ascii(s: &Vec<char>) -> (r: bool)
    ensures
        r == all_ascii(s@),
{
    let mut i: usize = 0;
    while i < s.len()
        invariant
            i <= s.len(),
            forall|k: int| 0 <= k < i ==> is_ascii(#[trigger] s@[k]),
        decreases s.len() - i,
    {
        if !is_ascii_char(s[i]) {
            return false;
        }
        i += 1;
    }
    true
}

} // verus!
