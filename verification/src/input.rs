//! Reading what a player types: the number of a menu entry, and a move such
//! as `(2,3)`, a row and a column counted from 1 with a comma between them.

use crate::board::{Board, Cell};
use vstd::prelude::*;

verus! {

/// A character with the Unicode property `White_Space`.
pub open spec fn is_space(c: char) -> bool {
    ||| '\u{9}' <= c <= '\u{d}'
    ||| c == ' '
    ||| c == '\u{85}'
    ||| c == '\u{a0}'
    ||| c == '\u{1680}'
    ||| '\u{2000}' <= c <= '\u{200a}'
    ||| c == '\u{2028}'
    ||| c == '\u{2029}'
    ||| c == '\u{202f}'
    ||| c == '\u{205f}'
    ||| c == '\u{3000}'
}

/// A round bracket, opening or closing.
pub open spec fn is_paren(c: char) -> bool {
    c == '(' || c == ')'
}

/// Whether `c` is taken off the ends of a line: a round bracket where
/// `parens` is set, white space where it is not.
pub open spec fn strips(c: char, parens: bool) -> bool {
    if parens {
        is_paren(c)
    } else {
        is_space(c)
    }
}

/// `s` without the characters at its front that are to be taken off.
pub open spec fn strip_front(s: Seq<char>, parens: bool) -> Seq<char>
    decreases s.len(),
{
    if s.len() > 0 && strips(s[0], parens) {
        strip_front(s.drop_first(), parens)
    } else {
        s
    }
}

/// `s` without the characters at its back that are to be taken off.
pub open spec fn strip_back(s: Seq<char>, parens: bool) -> Seq<char>
    decreases s.len(),
{
    if s.len() > 0 && strips(s.last(), parens) {
        strip_back(s.drop_last(), parens)
    } else {
        s
    }
}

/// `s` without the characters at either end that are to be taken off.
pub open spec fn strip(s: Seq<char>, parens: bool) -> Seq<char> {
    strip_back(strip_front(s, parens), parens)
}

/// One of the ten decimal digits.
pub open spec fn is_digit(c: char) -> bool {
    '0' <= c <= '9'
}

/// The number that a string of decimal digits writes.
pub open spec fn decimal_value(digits: Seq<char>) -> int
    decreases digits.len(),
{
    if digits.len() == 0 {
        0
    } else {
        10 * decimal_value(digits.drop_last()) + (digits.last() as int - '0' as int)
    }
}

/// `text` without the `+` that may stand at its front.
pub open spec fn unsigned_part(text: Seq<char>) -> Seq<char> {
    if text.len() > 0 && text[0] == '+' {
        text.drop_first()
    } else {
        text
    }
}

/// The number that `text` writes, if it is `limit` at most: an optional `+`,
/// then one or more decimal digits.
pub open spec fn number(text: Seq<char>, limit: int) -> Option<int> {
    let digits = unsigned_part(text);
    if digits.len() > 0 && (forall|i: int| 0 <= i < digits.len() ==> is_digit(#[trigger] digits[i]))
        && decimal_value(digits) <= limit {
        Some(decimal_value(digits))
    } else {
        None
    }
}

/// A row or column as the player writes it, a number from 1 to 3. The result
/// counts from 0.
pub open spec fn coordinate(text: Seq<char>) -> Option<int> {
    match number(text, 3) {
        Some(n) => if n >= 1 {
            Some(n - 1)
        } else {
            None
        },
        None => None,
    }
}

/// The menu entry that a line of text picks: the number it writes between
/// white space, if that is 255 at most, and 0 for any other line.
pub open spec fn chosen_entry(line: Seq<char>) -> int {
    match number(strip(line, false), 255) {
        Some(n) => n,
        None => 0,
    }
}

/// Where the first comma of `s` stands; the length of `s` where it has none.
pub open spec fn first_comma(s: Seq<char>) -> int
    decreases s.len(),
{
    if s.len() == 0 || s[0] == ',' {
        0
    } else {
        1 + first_comma(s.drop_first())
    }
}

/// The square that a line of text names: white space and then round
/// brackets are taken off both ends, and what is left is a row, a comma and a
/// column.
pub open spec fn named_square(line: Seq<char>) -> Option<(int, int)> {
    let text = strip(strip(line, false), true);
    let comma = first_comma(text);
    if comma < text.len() {
        match (coordinate(text.take(comma)), coordinate(text.skip(comma + 1))) {
            (Some(row), Some(col)) => Some((row, col)),
            _ => None,
        }
    } else {
        None
    }
}

/// The move that a line of text asks for on `b`: the square it names, if it
/// names one and that square is empty.
pub open spec fn requested_move(line: Seq<char>, b: Board) -> Option<(int, int)> {
    match named_square(line) {
        Some((row, col)) => if b[row][col] == Cell::Empty {
            Some((row, col))
        } else {
            None
        },
        None => None,
    }
}

/// Taking a character off the front of a string that is to lose it anyway
/// changes nothing of what is left.
proof fn lemma_strip_front_step(s: Seq<char>, lo: int, hi: int, parens: bool)
    requires
        0 <= lo < hi <= s.len(),
        strips(s[lo], parens),
    ensures
        strip_front(s.subrange(lo, hi), parens) == strip_front(s.subrange(lo + 1, hi), parens),
{
    assert(s.subrange(lo, hi).drop_first() =~= s.subrange(lo + 1, hi));
}

/// The same at the back.
proof fn lemma_strip_back_step(s: Seq<char>, lo: int, hi: int, parens: bool)
    requires
        0 <= lo < hi <= s.len(),
        strips(s[hi - 1], parens),
    ensures
        strip_back(s.subrange(lo, hi), parens) == strip_back(s.subrange(lo, hi - 1), parens),
{
    assert(s.subrange(lo, hi).drop_last() =~= s.subrange(lo, hi - 1));
}

/// The first comma stands after every character that is none.
proof fn lemma_first_comma(s: Seq<char>, n: int)
    requires
        0 <= n <= s.len(),
        forall|i: int| 0 <= i < n ==> s[i] != ',',
        n < s.len() ==> s[n] == ',',
    ensures
        first_comma(s) == n,
    decreases s.len(),
{
    if n > 0 {
        lemma_first_comma(s.drop_first(), n - 1);
    }
}

/// Whether `c` is taken off the ends of a line.
fn is_stripped(c: char, parens: bool) -> (stripped: bool)
    ensures
        stripped == strips(c, parens),
{
    if parens {
        c == '(' || c == ')'
    } else {
        ('\u{9}' <= c && c <= '\u{d}') || c == ' ' || c == '\u{85}' || c == '\u{a0}' || c
            == '\u{1680}' || ('\u{2000}' <= c && c <= '\u{200a}') || c == '\u{2028}' || c
            == '\u{2029}' || c == '\u{202f}' || c == '\u{205f}' || c == '\u{3000}'
    }
}

/// The part of `chars[lo..hi]` that is left when the characters to be taken
/// off are gone from both ends.
fn strip_bounds(chars: &Vec<char>, lo: usize, hi: usize, parens: bool) -> (bounds: (usize, usize))
    requires
        lo <= hi <= chars.len(),
    ensures
        lo <= bounds.0 <= bounds.1 <= hi,
        chars@.subrange(bounds.0 as int, bounds.1 as int) == strip(
            chars@.subrange(lo as int, hi as int),
            parens,
        ),
{
    let mut start = lo;
    while start < hi && is_stripped(chars[start], parens)
        invariant
            lo <= start <= hi <= chars.len(),
            strip_front(chars@.subrange(lo as int, hi as int), parens) == strip_front(
                chars@.subrange(start as int, hi as int),
                parens,
            ),
        decreases hi - start,
    {
        proof {
            lemma_strip_front_step(chars@, start as int, hi as int, parens);
        }
        start += 1;
    }
    let mut end = hi;
    while start < end && is_stripped(chars[end - 1], parens)
        invariant
            lo <= start <= end <= hi <= chars.len(),
            strip(chars@.subrange(lo as int, hi as int), parens) == strip_back(
                chars@.subrange(start as int, end as int),
                parens,
            ),
        decreases end - start,
    {
        proof {
            lemma_strip_back_step(chars@, start as int, end as int, parens);
        }
        end -= 1;
    }
    (start, end)
}

/// Where the first comma of `chars[lo..hi]` stands, counted within `chars`;
/// `hi` where there is none.
fn find_comma(chars: &Vec<char>, lo: usize, hi: usize) -> (at: usize)
    requires
        lo <= hi <= chars.len(),
    ensures
        lo <= at <= hi,
        at - lo == first_comma(chars@.subrange(lo as int, hi as int)),
{
    let mut at = lo;
    while at < hi && chars[at] != ','
        invariant
            lo <= at <= hi <= chars.len(),
            forall|i: int| lo <= i < at ==> chars@[i] != ',',
        decreases hi - at,
    {
        at += 1;
    }
    proof {
        lemma_first_comma(chars@.subrange(lo as int, hi as int), at - lo);
    }
    at
}

/// The number that `chars[lo..hi]` writes, if it is `limit` at most.
fn read_number(chars: &Vec<char>, lo: usize, hi: usize, limit: usize) -> (found: Option<usize>)
    requires
        lo <= hi <= chars.len(),
        limit <= 255,
    ensures
        found matches Some(n) ==> number(chars@.subrange(lo as int, hi as int), limit as int)
            == Some(n as int),
        found is None ==> number(chars@.subrange(lo as int, hi as int), limit as int) is None,
{
    let start = if lo < hi && chars[lo] == '+' {
        lo + 1
    } else {
        lo
    };
    let ghost digits = chars@.subrange(start as int, hi as int);
    if start == hi {
        return None;
    }
    // The value read so far, or `limit + 1` for any value above `limit`.
    let mut value: usize = 0;
    let mut at = start;
    while at < hi
        invariant
            start <= at <= hi <= chars.len(),
            limit <= 255,
            digits == chars@.subrange(start as int, hi as int),
            digits == unsigned_part(chars@.subrange(lo as int, hi as int)),
            forall|i: int| start <= i < at ==> is_digit(chars@[i]),
            value <= limit + 1,
            value <= limit ==> value == decimal_value(chars@.subrange(start as int, at as int)),
            value > limit ==> decimal_value(chars@.subrange(start as int, at as int)) > limit,
        decreases hi - at,
    {
        let c = chars[at];
        if !('0' <= c && c <= '9') {
            assert(!is_digit(digits[at - start]));
            return None;
        }
        proof {
            let more = chars@.subrange(start as int, at + 1);
            assert(more.drop_last() =~= chars@.subrange(start as int, at as int));
        }
        let digit = (c as u32 - '0' as u32) as usize;
        value = value * 10 + digit;
        if value > limit {
            value = limit + 1;
        }
        at += 1;
    }
    if value <= limit {
        Some(value)
    } else {
        None
    }
}

/// The row or column that `chars[lo..hi]` writes, counted from 0.
fn read_coordinate(chars: &Vec<char>, lo: usize, hi: usize) -> (found: Option<usize>)
    requires
        lo <= hi <= chars.len(),
    ensures
        found matches Some(n) ==> coordinate(chars@.subrange(lo as int, hi as int)) == Some(
            n as int,
        ),
        found is None ==> coordinate(chars@.subrange(lo as int, hi as int)) is None,
{
    match read_number(chars, lo, hi, 3) {
        Some(n) => if n >= 1 {
            Some(n - 1)
        } else {
            None
        },
        None => None,
    }
}

/// The characters of `line`, one by one.
fn chars_of(line: &str) -> (chars: Vec<char>)
    ensures
        chars@ == line@,
{
    let mut chars: Vec<char> = Vec::new();
    for c in it: line.chars()
        invariant
            it.seq() == line@,
            chars@ == it.seq().take(it.index() as int),
    {
        chars.push(c);
    }
    chars
}

/// The move that `line` asks for on `board`: the row and the column that it
/// names, both counted from 0, if it names a square and that square is empty.
///
/// White space and then round brackets are taken off both ends of the line.
/// What is left must be a row, a comma and a column, each an optional `+`
/// and decimal digits that make 1, 2 or 3, with nothing else between them.
pub fn parse_move(line: &str, board: &Board) -> (found: Option<(usize, usize)>)
    ensures
        found matches Some((row, col)) ==> requested_move(line@, *board) == Some(
            (row as int, col as int),
        ),
        found is None ==> requested_move(line@, *board) is None,
        found matches Some((row, col)) ==> row < 3 && col < 3 && board[row as int][col as int]
            == Cell::Empty,
{
    let chars = chars_of(line);
    assert(chars@.subrange(0, chars@.len() as int) =~= line@);
    let (lo, hi) = strip_bounds(&chars, 0, chars.len(), false);
    let (lo, hi) = strip_bounds(&chars, lo, hi, true);
    let ghost text = chars@.subrange(lo as int, hi as int);
    let comma = find_comma(&chars, lo, hi);
    if comma == hi {
        return None;
    }
    assert(text.take(comma - lo) =~= chars@.subrange(lo as int, comma as int));
    assert(text.skip(comma - lo + 1) =~= chars@.subrange(comma + 1, hi as int));
    match (read_coordinate(&chars, lo, comma), read_coordinate(&chars, comma + 1, hi)) {
        (Some(row), Some(col)) => {
            if board[row][col] == Cell::Empty {
                Some((row, col))
            } else {
                None
            }
        },
        _ => None,
    }
}

/// The menu entry that `line` picks: the number that stands on it between
/// white space, an optional `+` and decimal digits that make 255 at most; 0
/// for any other line.
pub fn parse_choice(line: &str) -> (choice: u8)
    ensures
        choice == chosen_entry(line@),
{
    let chars = chars_of(line);
    assert(chars@.subrange(0, chars@.len() as int) =~= line@);
    let (lo, hi) = strip_bounds(&chars, 0, chars.len(), false);
    match read_number(&chars, lo, hi, 255) {
        Some(n) => n as u8,
        None => 0,
    }
}

} // verus!
