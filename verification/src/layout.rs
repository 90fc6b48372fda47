//! Fitting text into columns of a terminal.
//!
//! How many columns a character or a text takes is left to the
//! `unicode-width` crate; what is cut, padded and wrapped is decided here.

use crate::text::{
    append_chars, append_str, char_is_whitespace, from_chars, is_space, slice, text_start,
    to_chars,
};
use vstd::prelude::*;

verus! {

/// The number of columns that a character takes; `None` for a control character.
pub uninterp spec fn char_columns(c: char) -> Option<usize>;

/// The number of columns that a text takes.
pub uninterp spec fn text_columns(s: Seq<char>) -> usize;

/// The number of columns that a character takes.
///
/// Trusted: calls `unicode_width::UnicodeWidthChar::width`.  The contract
/// only names the outcome.
#[verifier::external_body]
pub(crate) fn char_width(c: char) -> (r: Option<usize>)
    ensures
        r == char_columns(c),
{
    unicode_width::UnicodeWidthChar::width(c)
}

/// The number of columns that a text takes.
///
/// Trusted: calls `unicode_width::UnicodeWidthStr::width`.  The contract
/// only names the outcome; it is not claimed to be the sum over the
/// characters.
#[verifier::external_body]
pub(crate) fn str_width(s: &str) -> (r: usize)
    ensures
        r == text_columns(s@),
{
    unicode_width::UnicodeWidthStr::width(s)
}

/// The number of columns that a character takes, none for a control character.
pub open spec fn columns(c: char) -> int {
    match char_columns(c) {
        Some(w) => w as int,
        None => 0,
    }
}

/// How far the characters of `s` from `from` on fit into `budget` columns
/// of which `used` are taken: the position of the first character that
/// does not fit, or the length of `s`.
pub open spec fn fit_end(s: Seq<char>, from: int, used: int, budget: int) -> int
    decreases s.len() - from,
{
    if from < 0 || from >= s.len() {
        s.len() as int
    } else if used + columns(s[from]) > budget {
        from
    } else {
        fit_end(s, from + 1, used + columns(s[from]), budget)
    }
}

/// The columns that are taken once the characters up to [`fit_end`] are in.
pub open spec fn fit_columns(s: Seq<char>, from: int, used: int, budget: int) -> int
    decreases s.len() - from,
{
    if from < 0 || from >= s.len() {
        used
    } else if used + columns(s[from]) > budget {
        used
    } else {
        fit_columns(s, from + 1, used + columns(s[from]), budget)
    }
}

/// A run of `n` spaces.
pub open spec fn spaces(n: int) -> Seq<char> {
    Seq::new(
        if n > 0 {
            n as nat
        } else {
            0
        },
        |i: int| ' ',
    )
}

/// The beginning of `s` that fits into `budget` columns, and the columns it takes.
fn fit(s: &Vec<char>, budget: usize) -> (r: (usize, usize))
    ensures
        r.0 == fit_end(s@, 0, 0, budget as int),
        r.1 == fit_columns(s@, 0, 0, budget as int),
        r.0 <= s.len(),
        r.1 <= budget,
{
    let mut i: usize = 0;
    let mut used: usize = 0;
    while i < s.len()
        invariant
            i <= s.len(),
            used <= budget,
            fit_end(s@, 0, 0, budget as int) == fit_end(s@, i as int, used as int, budget as int),
            fit_columns(s@, 0, 0, budget as int) == fit_columns(
                s@,
                i as int,
                used as int,
                budget as int,
            ),
        decreases s.len() - i,
    {
        let cw: usize = match char_width(s[i]) {
            Some(w) => w,
            None => 0,
        };
        if cw > budget - used {
            return (i, used);
        }
        used += cw;
        i += 1;
    }
    (i, used)
}

fn append_spaces(out: &mut Vec<char>, n: usize)
    ensures
        final(out)@ == old(out)@ + spaces(n as int),
{
    let mut k: usize = 0;
    assert(out@ =~= old(out)@ + spaces(0));
    while k < n
        invariant
            k <= n,
            out@ == old(out)@ + spaces(k as int),
        decreases n - k,
    {
        out.push(' ');
        assert(out@ =~= old(out)@ + spaces(k + 1));
        k += 1;
    }
}

/// A text cut to `max_len` columns: the text itself where it fits; else a
/// dot where `max_len` is below 2; else the beginning that fits into one
/// column less, and an ellipsis.
pub open spec fn cut(s: Seq<char>, max_len: usize) -> Seq<char> {
    if text_columns(s) <= max_len {
        s
    } else if max_len <= 1 {
        "."@
    } else {
        s.take(fit_end(s, 0, 0, max_len - 1)) + "…"@
    }
}

/// Cuts a text to `max_len` columns.
pub fn truncate_str(s: &str, max_len: usize) -> (r: String)
    ensures
        r@ == cut(s@, max_len),
{
    if str_width(s) <= max_len {
        s.to_owned()
    } else if max_len <= 1 {
        ".".to_owned()
    } else {
        let chars = to_chars(s);
        let (end, _) = fit(&chars, max_len - 1);
        let mut out = slice(&chars, 0, end);
        append_str(&mut out, "…");
        from_chars(&out)
    }
}

/// A text brought to exactly `width` columns: filled up with spaces where
/// it takes fewer; else cut to the beginning that fits, and filled up where
/// that takes fewer.
pub open spec fn padded(s: Seq<char>, width: usize) -> Seq<char> {
    if text_columns(s) >= width {
        s.take(fit_end(s, 0, 0, width as int)) + spaces(width - fit_columns(s, 0, 0, width as int))
    } else {
        s + spaces(width - text_columns(s))
    }
}

/// Brings a text to exactly `width` columns.
pub fn pad_str(s: &str, width: usize) -> (r: String)
    ensures
        r@ == padded(s@, width),
{
    let display_width = str_width(s);
    let chars = to_chars(s);
    if display_width >= width {
        let (end, used) = fit(&chars, width);
        let mut out = slice(&chars, 0, end);
        append_spaces(&mut out, width - used);
        from_chars(&out)
    } else {
        let mut out = chars;
        append_spaces(&mut out, width - display_width);
        from_chars(&out)
    }
}

/// The position of the first white space at or after `from`; the length
/// of `s` where there is none.
pub open spec fn word_end(s: Seq<char>, from: int) -> int
    decreases s.len() - from,
{
    if from < 0 || from >= s.len() {
        s.len() as int
    } else if is_space(s[from]) {
        from
    } else {
        word_end(s, from + 1)
    }
}

/// The words of `s` from position `from` on: the runs of characters
/// between white space.
pub open spec fn words_from(s: Seq<char>, from: int) -> Seq<Seq<char>>
    decreases s.len() - from,
{
    let start = text_start(s, from);
    let end = word_end(s, start);
    if 0 <= from <= start < end <= s.len() {
        seq![s.subrange(start, end)] + words_from(s, end)
    } else {
        Seq::empty()
    }
}

/// The characters of each of the given texts.
pub open spec fn line_views(lines: Seq<Vec<char>>) -> Seq<Seq<char>> {
    lines.map_values(|l: Vec<char>| l@)
}

/// The words of `s`.
pub fn words(s: &Vec<char>) -> (r: Vec<Vec<char>>)
    ensures
        line_views(r@) == words_from(s@, 0),
{
    let mut out: Vec<Vec<char>> = Vec::new();
    let mut pos: usize = 0;
    assert(line_views(out@) =~= Seq::<Seq<char>>::empty());
    loop
        invariant
            pos <= s.len(),
            words_from(s@, 0) == line_views(out@) + words_from(s@, pos as int),
        decreases s.len() - pos,
    {
        let mut start: usize = pos;
        while start < s.len() && char_is_whitespace(s[start])
            invariant
                pos <= start <= s.len(),
                text_start(s@, pos as int) == text_start(s@, start as int),
            decreases s.len() - start,
        {
            start += 1;
        }
        if start >= s.len() {
            assert(line_views(out@) + Seq::<Seq<char>>::empty() =~= line_views(out@));
            return out;
        }
        let mut end: usize = start + 1;
        assert(word_end(s@, start as int) == word_end(s@, start + 1));
        while end < s.len() && !char_is_whitespace(s[end])
            invariant
                start < end <= s.len(),
                word_end(s@, start as int) == word_end(s@, end as int),
            decreases s.len() - end,
        {
            end += 1;
        }
        let ghost before = line_views(out@);
        out.push(slice(s, start, end));
        proof {
            let word = s@.subrange(start as int, end as int);
            assert(line_views(out@) =~= before.push(word));
            assert(before + (seq![word] + words_from(s@, end as int)) =~= before.push(word)
                + words_from(s@, end as int));
        }
        pos = end;
    }
}

/// Where the filling of lines stands: the lines that are full, the line
/// that is being filled, and the columns it takes.
pub struct Filling {
    pub lines: Seq<Seq<char>>,
    pub current: Seq<char>,
    pub width: int,
}

/// The filling after the given words have been set: a word goes on the
/// current line, behind a space, where the line then takes no more than
/// `max_width` columns; else the line is full and the word begins the next.
pub open spec fn filled(words: Seq<Seq<char>>, max_width: int) -> Filling
    decreases words.len(),
{
    if words.len() == 0 {
        Filling { lines: Seq::empty(), current: Seq::empty(), width: 0 }
    } else {
        let before = filled(words.drop_last(), max_width);
        let word = words.last();
        let wide = text_columns(word) as int;
        if before.current.len() == 0 {
            Filling { lines: before.lines, current: word, width: wide }
        } else if before.width + 1 + wide <= max_width {
            Filling {
                lines: before.lines,
                current: before.current + " "@ + word,
                width: before.width + 1 + wide,
            }
        } else {
            Filling { lines: before.lines.push(before.current), current: word, width: wide }
        }
    }
}

/// A text set in lines of `max_width` columns at most, its words kept whole
/// and parted by one space; a word that is wider has a line of its own.
/// A text without words gives one empty line.  A width of 0 asks for no
/// wrapping: the text is the one line.
pub open spec fn wrapped(text: Seq<char>, max_width: usize) -> Seq<Seq<char>> {
    if max_width == 0 {
        seq![text]
    } else {
        let end = filled(words_from(text, 0), max_width as int);
        let lines = if end.current.len() > 0 {
            end.lines.push(end.current)
        } else {
            end.lines
        };
        if lines.len() == 0 {
            seq![Seq::<char>::empty()]
        } else {
            lines
        }
    }
}

/// The characters of each of the given strings.
pub open spec fn text_views(lines: Seq<String>) -> Seq<Seq<char>> {
    lines.map_values(|l: String| l@)
}

/// Sets a text in lines of `max_width` columns at most.
pub fn word_wrap(text: &str, max_width: usize) -> (r: Vec<String>)
    ensures
        text_views(r@) == wrapped(text@, max_width),
{
    let mut lines: Vec<String> = Vec::new();
    if max_width == 0 {
        lines.push(text.to_owned());
        assert(text_views(lines@) =~= seq![text@]);
        return lines;
    }
    let all = words(&to_chars(text));
    let ghost texts = line_views(all@);
    let mut current: Vec<char> = Vec::new();
    let mut current_width: usize = 0;
    let mut i: usize = 0;
    assert(texts.take(0) =~= Seq::empty());
    assert(text_views(lines@) =~= Seq::<Seq<char>>::empty());
    while i < all.len()
        invariant
            i <= all.len(),
            texts == line_views(all@),
            text_views(lines@) == filled(texts.take(i as int), max_width as int).lines,
            current@ == filled(texts.take(i as int), max_width as int).current,
            current_width == filled(texts.take(i as int), max_width as int).width,
        decreases all.len() - i,
    {
        assert(texts.take(i + 1).drop_last() =~= texts.take(i as int));
        assert(texts.take(i + 1).last() == all@[i as int]@);
        let word = &all[i];
        let word_width = str_width(from_chars(word).as_str());
        if current.len() == 0 {
            current = slice(word, 0, word.len());
            assert(current@ =~= word@);
            current_width = word_width;
        } else if current_width < max_width && word_width <= max_width - current_width - 1 {
            let ghost before = current@;
            current.push(' ');
            append_chars(&mut current, word);
            proof {
                reveal_strlit(" ");
                assert(" "@ =~= seq![' ']);
                assert(current@ =~= before + " "@ + word@);
            }
            current_width = current_width + 1 + word_width;
        } else {
            let ghost before = text_views(lines@);
            lines.push(from_chars(&current));
            assert(text_views(lines@) =~= before.push(current@));
            current = slice(word, 0, word.len());
            assert(current@ =~= word@);
            current_width = word_width;
        }
        i += 1;
    }
    assert(texts.take(all.len() as int) =~= texts);
    if current.len() > 0 {
        let ghost before = text_views(lines@);
        lines.push(from_chars(&current));
        assert(text_views(lines@) =~= before.push(current@));
    }
    if lines.len() == 0 {
        lines.push(String::new());
        assert(text_views(lines@) =~= seq![Seq::<char>::empty()]);
    }
    lines
}

} // verus!
