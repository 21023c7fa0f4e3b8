use vstd::prelude::*;
use crate::game::{Board, Player, State};

verus! {

/// The character that shows a cell: `O` for player 1, `X` for player 2, `.`
/// for an empty cell.
pub open spec fn symbol_of(p: Player) -> char {
    match p {
        Player::P1 => 'O',
        Player::P2 => 'X',
        Player::Empty => '.',
    }
}

/// The cell that a displayed character stands for, if any.
pub open spec fn player_of_symbol(ch: char) -> Option<Player> {
    if ch == 'O' {
        Some(Player::P1)
    } else if ch == 'X' {
        Some(Player::P2)
    } else if ch == '.' {
        Some(Player::Empty)
    } else {
        None
    }
}

/// One displayed row: three symbols and a line break.
pub open spec fn row_text(row: Seq<Player>) -> Seq<char> {
    seq![symbol_of(row[0]), symbol_of(row[1]), symbol_of(row[2]), '\n']
}

/// The displayed grid: its three rows, top to bottom.
pub open spec fn grid_text(cells: Seq<Seq<Player>>) -> Seq<char> {
    row_text(cells[0]) + row_text(cells[1]) + row_text(cells[2])
}

/// The nine cells of a grid, row by row.
pub open spec fn row_major(cells: Seq<Seq<Player>>) -> Seq<Player> {
    cells[0] + cells[1] + cells[2]
}

/// The line printed when a game ends: `stalemate`, or the winner's symbol
/// followed by ` wins`; nothing while the game goes on.
pub open spec fn outcome_text(status: State) -> Option<Seq<char>> {
    match status {
        State::Stalemate => Some(seq!['s', 't', 'a', 'l', 'e', 'm', 'a', 't', 'e']),
        State::Winner(p) => Some(seq![symbol_of(p), ' ', 'w', 'i', 'n', 's']),
        State::InProgress => None,
    }
}

/// The cells that a text shows, read one character at a time: line breaks
/// are skipped, a symbol gives its cell, and any other character makes the
/// text unreadable.
pub open spec fn cells_of_text(t: Seq<char>) -> Option<Seq<Player>>
    decreases t.len(),
{
    if t.len() == 0 {
        Some(Seq::empty())
    } else {
        match cells_of_text(t.drop_last()) {
            None => None,
            Some(prev) => {
                if t.last() == '\n' {
                    Some(prev)
                } else {
                    match player_of_symbol(t.last()) {
                        Some(p) => Some(prev.push(p)),
                        None => None,
                    }
                }
            },
        }
    }
}

impl Player {
    /// The character that shows this mark.
    pub fn symbol(&self) -> (r: char)
        ensures
            r == symbol_of(*self),
    {
        match self {
            Player::P1 => 'O',
            Player::P2 => 'X',
            Player::Empty => '.',
        }
    }

    /// The mark that a displayed character stands for, if any.
    pub fn from_symbol(ch: char) -> (r: Option<Player>)
        ensures
            r == player_of_symbol(ch),
    {
        if ch == 'O' {
            Some(Player::P1)
        } else if ch == 'X' {
            Some(Player::P2)
        } else if ch == '.' {
            Some(Player::Empty)
        } else {
            None
        }
    }
}

impl Board {
    /// The grid as text: one line per row, one symbol per cell, no separators.
    pub fn render(&self) -> (r: Vec<char>)
        ensures
            r@ == grid_text(self@.cells),
    {
        let mut out: Vec<char> = Vec::new();
        let mut i: usize = 0;
        while i < 3
            invariant
                i <= 3,
                out@ == if i == 0 {
                    Seq::<char>::empty()
                } else if i == 1 {
                    row_text(self@.cells[0])
                } else if i == 2 {
                    row_text(self@.cells[0]) + row_text(self@.cells[1])
                } else {
                    grid_text(self@.cells)
                },
            decreases 3 - i,
        {
            let ghost before = out@;
            out.push(self.grid[i][0].symbol());
            out.push(self.grid[i][1].symbol());
            out.push(self.grid[i][2].symbol());
            out.push('\n');
            assert(out@ =~= before + row_text(self@.cells[i as int]));
            i += 1;
        }
        out
    }

    /// The line to print once the game has ended (see `outcome_text`).
    pub fn outcome_line(&self) -> (r: Option<Vec<char>>)
        ensures
            match outcome_text(self.status) {
                Some(t) => r is Some && r->0@ == t,
                None => r is None,
            },
    {
        match self.status {
            State::Stalemate => {
                let v = vec!['s', 't', 'a', 'l', 'e', 'm', 'a', 't', 'e'];
                assert(v@ =~= seq!['s', 't', 'a', 'l', 'e', 'm', 'a', 't', 'e']);
                Some(v)
            },
            State::Winner(p) => {
                let v = vec![p.symbol(), ' ', 'w', 'i', 'n', 's'];
                assert(v@ =~= seq![symbol_of(p), ' ', 'w', 'i', 'n', 's']);
                Some(v)
            },
            State::InProgress => None,
        }
    }
}

/// Reads back the cells that a text shows, in order (see `cells_of_text`).
pub fn read_cells(text: &[char]) -> (r: Option<Vec<Player>>)
    ensures
        match cells_of_text(text@) {
            Some(s) => r is Some && r->0@ == s,
            None => r is None,
        },
{
    let mut out: Vec<Player> = Vec::new();
    let mut ok = true;
    let mut i: usize = 0;
    while i < text.len()
        invariant
            i <= text@.len(),
            ok ==> cells_of_text(text@.take(i as int)) == Some(out@),
            !ok ==> cells_of_text(text@.take(i as int)) is None,
        decreases text@.len() - i,
    {
        assert(text@.take(i + 1).drop_last() =~= text@.take(i as int));
        let ch = text[i];
        if ok && ch != '\n' {
            match Player::from_symbol(ch) {
                Some(p) => out.push(p),
                None => ok = false,
            }
        }
        i += 1;
    }
    assert(text@.take(text@.len() as int) =~= text@);
    if ok {
        Some(out)
    } else {
        None
    }
}

} // verus!
