use vstd::prelude::*;
use crate::game::{Board, MoveError};

verus! {

/// What one line typed by a player asks for.
#[derive(Clone, Copy, Debug, PartialEq, Eq, Structural)]
pub enum Input {
    /// Fewer than two tokens: the line is ignored.
    TooFewTokens,
    /// One of the first two tokens is not a decimal `usize`.
    NotANumber,
    /// The first two tokens, as row and column.
    Coords(usize, usize),
}

/// What became of one typed line.
#[derive(Clone, Copy, Debug, PartialEq, Eq, Structural)]
pub enum LineOutcome {
    /// Fewer than two tokens: nothing was played.
    Ignored,
    /// A coordinate was not a number: nothing was played.
    NotANumber,
    /// The move was refused: nothing was played.
    Rejected(MoveError),
    /// The move was played.
    Played,
}

/// A whitespace character, as `char::is_whitespace` defines it (the Unicode
/// `White_Space` property).
pub open spec fn is_space(ch: char) -> bool {
    let u = ch as u32;
    ||| 0x09 <= u <= 0x0D
    ||| u == 0x20
    ||| u == 0x85
    ||| u == 0xA0
    ||| u == 0x1680
    ||| 0x2000 <= u <= 0x200A
    ||| u == 0x2028
    ||| u == 0x2029
    ||| u == 0x202F
    ||| u == 0x205F
    ||| u == 0x3000
}

/// The maximal runs of non-whitespace characters of `s`, in order.
pub open spec fn tokens(s: Seq<char>) -> Seq<Seq<char>>
    decreases s.len(),
{
    if s.len() == 0 {
        Seq::empty()
    } else {
        let init = tokens(s.drop_last());
        let ch = s.last();
        if is_space(ch) {
            init
        } else if init.len() > 0 && s.len() >= 2 && !is_space(s[s.len() - 2]) {
            init.update(init.len() - 1, init.last().push(ch))
        } else {
            init.push(seq![ch])
        }
    }
}

/// An ASCII decimal digit.
pub open spec fn is_digit(ch: char) -> bool {
    '0' <= ch <= '9'
}

/// The value of an ASCII decimal digit.
pub open spec fn digit_value(ch: char) -> nat {
    (ch as u32 - '0' as u32) as nat
}

/// Every character is an ASCII decimal digit.
pub open spec fn all_digits(d: Seq<char>) -> bool {
    forall|i: int| 0 <= i < d.len() ==> is_digit(#[trigger] d[i])
}

/// The number that a string of decimal digits spells.
pub open spec fn decimal_value(d: Seq<char>) -> nat
    decreases d.len(),
{
    if d.len() == 0 {
        0
    } else {
        decimal_value(d.drop_last()) * 10 + digit_value(d.last())
    }
}

/// A token without its leading `+`, if it has one.
pub open spec fn unsigned_digits(t: Seq<char>) -> Seq<char> {
    if t.len() > 0 && t[0] == '+' {
        t.drop_first()
    } else {
        t
    }
}

/// The `usize` that a token spells, as `str::parse::<usize>` reads it: an
/// optional `+`, then one or more decimal digits, with a value that fits.
pub open spec fn parse_decimal(t: Seq<char>) -> Option<usize> {
    let d = unsigned_digits(t);
    if d.len() > 0 && all_digits(d) && decimal_value(d) <= usize::MAX {
        Some(decimal_value(d) as usize)
    } else {
        None
    }
}

/// What a line asks for: its first two tokens as coordinates.
pub open spec fn input_of(line: Seq<char>) -> Input {
    let t = tokens(line);
    if t.len() < 2 {
        Input::TooFewTokens
    } else {
        match (parse_decimal(t[0]), parse_decimal(t[1])) {
            (Some(a), Some(b)) => Input::Coords(a, b),
            _ => Input::NotANumber,
        }
    }
}

/// A prefix of a string of digits spells no larger a number.
proof fn lemma_decimal_prefix_le(d: Seq<char>, k: int)
    requires
        0 <= k <= d.len(),
    ensures
        decimal_value(d.take(k)) <= decimal_value(d),
    decreases d.len() - k,
{
    if k < d.len() {
        lemma_decimal_prefix_le(d, k + 1);
        assert(d.take(k + 1).drop_last() =~= d.take(k));
    } else {
        assert(d.take(k) =~= d);
    }
}

/// Whether `ch` is whitespace (see `is_space`).
fn space(ch: char) -> (r: bool)
    ensures
        r == is_space(ch),
{
    let u = ch as u32;
    (0x09 <= u && u <= 0x0D) || u == 0x20 || u == 0x85 || u == 0xA0 || u == 0x1680 || (0x2000
        <= u && u <= 0x200A) || u == 0x2028 || u == 0x2029 || u == 0x202F || u == 0x205F || u
        == 0x3000
}

/// Reads a token as `str::parse::<usize>` does (see `parse_decimal`).
pub fn parse_number(tok: &[char]) -> (r: Option<usize>)
    ensures
        r == parse_decimal(tok@),
{
    let n = tok.len();
    let start: usize = if n > 0 && tok[0] == '+' { 1 } else { 0 };
    let ghost d = unsigned_digits(tok@);
    assert(d =~= tok@.subrange(start as int, n as int));
    if start == n {
        return None;
    }
    let mut acc: usize = 0;
    let mut i: usize = start;
    while i < n
        invariant
            start <= i <= n,
            n == tok@.len(),
            d == unsigned_digits(tok@),
            d == tok@.subrange(start as int, n as int),
            forall|j: int| start <= j < i ==> is_digit(#[trigger] tok@[j]),
            acc as nat == decimal_value(d.take(i - start)),
        decreases n - i,
    {
        let ch = tok[i];
        assert(d[i - start] == ch);
        if !('0' <= ch && ch <= '9') {
            assert(!is_digit(d[i - start]));
            return None;
        }
        let v = (ch as u32 - '0' as u32) as usize;
        assert(d.take(i + 1 - start).drop_last() =~= d.take(i - start));
        assert(d.take(i + 1 - start).last() == ch);
        assert(decimal_value(d.take(i + 1 - start)) == acc * 10 + v);
        proof {
            lemma_decimal_prefix_le(d, i + 1 - start);
        }
        match acc.checked_mul(10) {
            None => {
                return None;
            },
            Some(m) => match m.checked_add(v) {
                None => {
                    return None;
                },
                Some(s) => {
                    acc = s;
                },
            },
        }
        i += 1;
    }
    assert(d.take(n - start) =~= d);
    assert(all_digits(d));
    Some(acc)
}

/// Reads a typed line: fewer than two whitespace-separated tokens leave it
/// ignored; otherwise the first two must be decimal numbers, row then column.
#[verifier::rlimit(50)]
pub fn parse_input(line: &[char]) -> (r: Input)
    ensures
        r == input_of(line@),
{
    let mut first: Vec<char> = Vec::new();
    let mut second: Vec<char> = Vec::new();
    let mut count: usize = 0;
    let mut i: usize = 0;
    while i < line.len()
        invariant
            i <= line@.len(),
            count == tokens(line@.take(i as int)).len(),
            count >= 1 ==> first@ == tokens(line@.take(i as int))[0],
            count >= 2 ==> second@ == tokens(line@.take(i as int))[1],
            i > 0 && !is_space(line@[i - 1]) ==> count >= 1,
            count <= i,
            count == 0 ==> first@.len() == 0,
            count <= 1 ==> second@.len() == 0,
        decreases line@.len() - i,
    {
        let ghost s = line@.take(i + 1);
        assert(s.drop_last() =~= line@.take(i as int));
        let ch = line[i];
        if !space(ch) {
            if i > 0 && !space(line[i - 1]) {
                if count == 1 {
                    first.push(ch);
                } else if count == 2 {
                    second.push(ch);
                }
            } else {
                count += 1;
                if count == 1 {
                    first.push(ch);
                    assert(first@ =~= seq![ch]);
                } else if count == 2 {
                    second.push(ch);
                    assert(second@ =~= seq![ch]);
                }
            }
        }
        i += 1;
    }
    assert(line@.take(line@.len() as int) =~= line@);
    if count < 2 {
        return Input::TooFewTokens;
    }
    match (parse_number(first.as_slice()), parse_number(second.as_slice())) {
        (Some(a), Some(b)) => Input::Coords(a, b),
        _ => Input::NotANumber,
    }
}

impl Board {
    /// Handles one typed line: reads it, and plays the move that it names if
    /// the game is in progress and the cell is an empty one of the grid.
    pub fn handle_line(&mut self, line: &[char]) -> (r: LineOutcome)
        requires
            old(self)@.is_valid(),
        ensures
            final(self)@.is_valid(),
            match input_of(line@) {
                Input::TooFewTokens => r == LineOutcome::Ignored && *final(self) == *old(self),
                Input::NotANumber => r == LineOutcome::NotANumber && *final(self) == *old(self),
                Input::Coords(row, col) => match old(self)@.move_error(row as int, col as int) {
                    Some(e) => r == LineOutcome::Rejected(e) && *final(self) == *old(self),
                    None => r == LineOutcome::Played && final(self)@ == old(self)@.after_move(
                        row as int,
                        col as int,
                    ),
                },
            },
    {
        match parse_input(line) {
            Input::TooFewTokens => LineOutcome::Ignored,
            Input::NotANumber => LineOutcome::NotANumber,
            Input::Coords(row, col) => match self.try_move(row, col) {
                Ok(()) => LineOutcome::Played,
                Err(e) => LineOutcome::Rejected(e),
            },
        }
    }
}

} // verus!
