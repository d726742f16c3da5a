//! The size of the terminal's window, and what its answers to queries say.

use crate::decimal::{parse_number, parse_unsigned};
use crate::error::Error;
use crate::scan::{contains_run, find_from, has_run, position, trim_end, trimmed_end};
use crate::ESC;
use vstd::prelude::*;
use vstd::slice::slice_subrange;
use vstd::string::{StrSliceExecFns, StringSliceAdditionalSpecFns};

verus! {

/// The size of the terminal's window, in cells and in pixels.
#[derive(Debug, Clone, Copy, PartialEq, Eq, Structural)]
pub struct WindowSize {
    /// The number of rows.
    pub rows: u16,
    /// The number of columns.
    pub cols: u16,
    /// The width in pixels.
    pub width: u16,
    /// The height in pixels.
    pub height: u16,
}

/// `a` divided by `b`, rounded up.
pub open spec fn div_ceil(a: nat, b: nat) -> nat
    recommends
        b > 0,
{
    ((a + b - 1) / (b as int)) as nat
}

/// `a` divided by `b`, rounded up.
fn divide_up(a: u32, b: u32) -> (q: u32)
    requires
        b > 0,
    ensures
        q == div_ceil(a as nat, b as nat),
{
    let q = a / b;
    if a % b == 0 {
        assert(q == div_ceil(a as nat, b as nat)) by (nonlinear_arith)
            requires
                b > 0,
                q == a / b,
                a % b == 0,
        ;
        q
    } else {
        assert(q + 1 == div_ceil(a as nat, b as nat) && q < a) by (nonlinear_arith)
            requires
                b > 0,
                q == a / b,
                a % b != 0,
        ;
        q + 1
    }
}

impl WindowSize {
    /// The width of a cell in pixels, rounded down; zero where the window
    /// has no columns.
    pub open spec fn spec_cell_width(self) -> nat {
        if self.cols > 0 {
            (self.width / self.cols) as nat
        } else {
            0
        }
    }

    /// The height of a cell in pixels, rounded down; zero where the window
    /// has no rows.
    pub open spec fn spec_cell_height(self) -> nat {
        if self.rows > 0 {
            (self.height / self.rows) as nat
        } else {
            0
        }
    }

    /// The width of a cell in pixels.
    pub fn cell_width(&self) -> (w: u16)
        ensures
            w == self.spec_cell_width(),
    {
        if self.cols > 0 {
            self.width / self.cols
        } else {
            0
        }
    }

    /// The height of a cell in pixels.
    pub fn cell_height(&self) -> (h: u16)
        ensures
            h == self.spec_cell_height(),
    {
        if self.rows > 0 {
            self.height / self.rows
        } else {
            0
        }
    }

    /// The number of columns and of rows that an image of the given size in
    /// pixels covers: each dimension divided by that of a cell, rounded up.
    /// Where a cell has no width or no height, both are zero.
    pub fn cells_for_image(&self, img_width: u32, img_height: u32) -> (cells: (u32, u32))
        ensures
            self.spec_cell_width() == 0 || self.spec_cell_height() == 0 ==> cells == (0u32, 0u32),
            self.spec_cell_width() > 0 && self.spec_cell_height() > 0 ==> cells.0 == div_ceil(
                img_width as nat,
                self.spec_cell_width(),
            ) && cells.1 == div_ceil(img_height as nat, self.spec_cell_height()),
    {
        let cell_w = self.cell_width() as u32;
        let cell_h = self.cell_height() as u32;
        if cell_w == 0 || cell_h == 0 {
            return (0, 0);
        }
        (divide_up(img_width, cell_w), divide_up(img_height, cell_h))
    }
}

/// Whether `s` begins as the answer to a query for the window's size in
/// pixels does: the escape character and `[4;`.
pub open spec fn is_size_report(s: Seq<u8>) -> bool {
    s.len() >= 4 && s[0] == ESC && s[1] == '[' as u8 && s[2] == '4' as u8 && s[3] == ';' as u8
}

/// The height and the width in pixels that the answer `s` reports. The
/// answer is `ESC [ 4 ; height ; width t`: after the opening and without
/// the letters `t` at the end, the text up to the first semicolon is the
/// height, and what follows up to the next semicolon, or to the end, is the
/// width. Both must be numbers that fit in 16 bits.
pub open spec fn reported_size(s: Seq<u8>) -> Option<(u16, u16)> {
    let body = trim_end(s.subrange(4, s.len() as int), 't' as u8);
    let first = position(body, ';' as u8);
    let rest = body.subrange(first + 1, body.len() as int);
    let width = rest.subrange(0, position(rest, ';' as u8));
    if !is_size_report(s) || first >= body.len() {
        None
    } else {
        match (
            parse_unsigned(body.subrange(0, first), u16::MAX as nat),
            parse_unsigned(width, u16::MAX as nat),
        ) {
            (Some(h), Some(w)) => Some((h as u16, w as u16)),
            _ => None,
        }
    }
}

/// A number that is known to fit, as a `u16`.
fn to_u16(n: u64) -> (r: u16)
    requires
        n <= u16::MAX,
    ensures
        r == n,
{
    n as u16
}

/// Reads the answer to a query for the window's size in pixels, and gives
/// the height and the width. An answer of another form is rejected and
/// shown in the error.
pub fn parse_size_response(response: &str) -> (r: Result<(u16, u16), Error>)
    ensures
        match reported_size(response.spec_bytes()) {
            Some(size) => r == Ok::<(u16, u16), Error>(size),
            None => r matches Err(Error::InvalidResponse(shown)) && shown@ == response@,
        },
{
    let s = response.as_bytes();
    if s.len() < 4 || s[0] != ESC || s[1] != '[' as u8 || s[2] != '4' as u8 || s[3] != ';' as u8 {
        return Err(Error::InvalidResponse(response.to_owned()));
    }
    let end = trimmed_end(s, 4, 't' as u8);
    let body = slice_subrange(s, 4, end);
    let first = find_from(body, 0, ';' as u8);
    assert(body@.subrange(0, body@.len() as int) =~= body@);
    if first >= body.len() {
        return Err(Error::InvalidResponse(response.to_owned()));
    }
    let second = find_from(body, first + 1, ';' as u8);
    let ghost rest = body@.subrange(first + 1, body@.len() as int);
    let height = parse_number(slice_subrange(body, 0, first), 0xffff);
    let width_text = slice_subrange(body, first + 1, second);
    assert(width_text@ =~= rest.subrange(0, position(rest, ';' as u8)));
    let width = parse_number(width_text, 0xffff);
    match (height, width) {
        (Some(h), Some(w)) => Ok((to_u16(h), to_u16(w))),
        _ => Err(Error::InvalidResponse(response.to_owned())),
    }
}

/// Whether `c` is white space, as Unicode defines it.
pub open spec fn is_space(c: char) -> bool {
    ||| '\u{9}' <= c <= '\u{d}'
    ||| c == ' '
    ||| c == '\u{85}'
    ||| c == '\u{a0}'
    ||| c == '\u{1680}'
    ||| '\u{2000}' <= c <= '\u{200a}'
    ||| c == '\u{2028}'
    ||| c == '\u{2029}'
    ||| c == '\u{202f}'
    ||| c == '\u{205f}'
    ||| c == '\u{3000}'
}

/// Whether `c` is white space.
fn is_white(c: char) -> (r: bool)
    ensures
        r == is_space(c),
{
    ('\u{9}' <= c && c <= '\u{d}') || c == ' ' || c == '\u{85}' || c == '\u{a0}' || c
        == '\u{1680}' || ('\u{2000}' <= c && c <= '\u{200a}') || c == '\u{2028}' || c
        == '\u{2029}' || c == '\u{202f}' || c == '\u{205f}' || c == '\u{3000}'
}

/// Where the run of characters ends that begins at `from` and consists of
/// white space only, for `space`, or of none, otherwise.
pub open spec fn run_end(s: Seq<char>, from: int, space: bool) -> int
    decreases s.len() - from,
{
    if from < 0 || from >= s.len() || is_space(s[from]) != space {
        from
    } else {
        run_end(s, from + 1, space)
    }
}

/// The number that the characters `word` stand for, if they are ASCII and
/// make up a number of at most `max`.
pub open spec fn word_number(word: Seq<char>, max: nat) -> Option<nat> {
    if forall|i: int| 0 <= i < word.len() ==> (#[trigger] word[i]) as u32 <= 127 {
        parse_unsigned(Seq::new(word.len(), |i: int| word[i] as u8), max)
    } else {
        None
    }
}

/// The rows and the columns that the output of `stty size` reports: its
/// first two words, where white space separates words, each a number that
/// fits in 16 bits. What follows the second word does not count.
pub open spec fn stty_size(s: Seq<char>) -> Option<(u16, u16)> {
    let a = run_end(s, 0, true);
    let b = run_end(s, a, false);
    let c = run_end(s, b, true);
    let d = run_end(s, c, false);
    if a == b || c == d {
        None
    } else {
        match (
            word_number(s.subrange(a, b), u16::MAX as nat),
            word_number(s.subrange(c, d), u16::MAX as nat),
        ) {
            (Some(rows), Some(cols)) => Some((rows as u16, cols as u16)),
            _ => None,
        }
    }
}

/// Finds the end of the run that begins at `from`.
fn find_run_end(text: &str, len: usize, from: usize, space: bool) -> (end: usize)
    requires
        len == text@.len(),
        from <= len,
    ensures
        end == run_end(text@, from as int, space),
        from <= end <= len,
{
    let mut end: usize = from;
    while end < len && is_white(text.get_char(end)) == space
        invariant
            from <= end <= len == text@.len(),
            run_end(text@, end as int, space) == run_end(text@, from as int, space),
        decreases len - end,
    {
        end = end + 1;
    }
    end
}

/// Reads the word of `text` from `from` up to `to` as a number of at most
/// 16 bits.
fn read_word(text: &str, from: usize, to: usize) -> (r: Option<u16>)
    requires
        from <= to <= text@.len(),
    ensures
        match word_number(text@.subrange(from as int, to as int), u16::MAX as nat) {
            Some(n) => r == Some(n as u16),
            None => r is None,
        },
{
    let ghost word = text@.subrange(from as int, to as int);
    let mut bytes: Vec<u8> = Vec::new();
    let mut i: usize = from;
    while i < to
        invariant
            from <= i <= to <= text@.len(),
            word == text@.subrange(from as int, to as int),
            bytes@.len() == i - from,
            forall|j: int| 0 <= j < i - from ==> (#[trigger] word[j]) as u32 <= 127 && bytes@[j]
                == word[j] as u8,
        decreases to - i,
    {
        let c = text.get_char(i);
        if c as u32 > 127 {
            assert(word[i - from] == c);
            return None;
        }
        bytes.push(c as u8);
        i = i + 1;
    }
    assert(bytes@ =~= Seq::new(word.len(), |i: int| word[i] as u8));
    match parse_number(bytes.as_slice(), 0xffff) {
        Some(n) => Some(to_u16(n)),
        None => None,
    }
}

/// Reads the output of `stty size`, and gives the rows and the columns.
/// Output of another form is rejected and shown in the error.
pub fn parse_stty_size(output: &str) -> (r: Result<(u16, u16), Error>)
    ensures
        match stty_size(output@) {
            Some(size) => r == Ok::<(u16, u16), Error>(size),
            None => r matches Err(Error::InvalidResponse(shown)) && shown@ == output@,
        },
{
    let len = output.unicode_len();
    let a = find_run_end(output, len, 0, true);
    let b = find_run_end(output, len, a, false);
    let c = find_run_end(output, len, b, true);
    let d = find_run_end(output, len, c, false);
    if a == b || c == d {
        return Err(Error::InvalidResponse(output.to_owned()));
    }
    match (read_word(output, a, b), read_word(output, c, d)) {
        (Some(rows), Some(cols)) => Ok((rows, cols)),
        _ => Err(Error::InvalidResponse(output.to_owned())),
    }
}

/// The bytes that close a frame.
pub open spec fn terminator() -> Seq<u8> {
    seq![ESC, '\\' as u8]
}

/// Whether what was read so far holds the end of a frame, so that reading
/// can stop.
pub fn has_terminator(response: &[u8]) -> (r: bool)
    ensures
        r == contains_run(response@, terminator()),
{
    let pattern: Vec<u8> = vec![ESC, '\\' as u8];
    assert(pattern@ =~= terminator());
    has_run(response, pattern.as_slice())
}

/// Whether an answer shows that the terminal knows the graphics protocol:
/// it holds the opening of a graphics frame, and either `OK` or the
/// beginning of an error code, `ENO`.
pub open spec fn shows_support(response: Seq<u8>) -> bool {
    contains_run(response, seq![ESC, '_' as u8, 'G' as u8]) && (contains_run(
        response,
        seq!['O' as u8, 'K' as u8],
    ) || contains_run(response, seq!['E' as u8, 'N' as u8, 'O' as u8]))
}

/// Whether the answer to a query shows that the terminal knows the graphics
/// protocol.
pub fn indicates_support(response: &[u8]) -> (r: bool)
    ensures
        r == shows_support(response@),
{
    let opening: Vec<u8> = vec![ESC, '_' as u8, 'G' as u8];
    let ok: Vec<u8> = vec!['O' as u8, 'K' as u8];
    let eno: Vec<u8> = vec!['E' as u8, 'N' as u8, 'O' as u8];
    assert(opening@ =~= seq![ESC, '_' as u8, 'G' as u8]);
    assert(ok@ =~= seq!['O' as u8, 'K' as u8]);
    assert(eno@ =~= seq!['E' as u8, 'N' as u8, 'O' as u8]);
    has_run(response, opening.as_slice()) && (has_run(response, ok.as_slice()) || has_run(
        response,
        eno.as_slice(),
    ))
}

} // verus!
