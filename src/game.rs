use vstd::prelude::*;

verus! {

/// The mark held by a cell, or the player whose turn it is.
#[derive(Clone, Copy, Debug, PartialEq, Eq, Structural)]
pub enum Player {
    P1,
    P2,
    Empty,
}

/// Where a game stands.
#[derive(Clone, Copy, Debug, PartialEq, Eq, Structural)]
pub enum State {
    Stalemate,
    Winner(Player),
    InProgress,
}

/// Why a checked move was refused.
#[derive(Clone, Copy, Debug, PartialEq, Eq, Structural)]
pub enum MoveError {
    /// The game has already ended in a win or a stalemate.
    GameOver,
    /// A coordinate is not in `0..3`.
    OutOfRange,
    /// The cell already holds a mark.
    Occupied,
}

/// A 3x3 tic-tac-toe board, the player to move and the game status.
pub struct Board {
    pub grid: [[Player; 3]; 3],
    pub status: State,
    pub player_current: Player,
}

/// The abstract state of a game: rows of cells, status and player to move.
pub struct GameView {
    pub cells: Seq<Seq<Player>>,
    pub status: State,
    pub current: Player,
}

/// The player who moves after `p`; an empty mark has no opponent.
pub open spec fn opponent(p: Player) -> Player {
    match p {
        Player::P1 => Player::P2,
        Player::P2 => Player::P1,
        Player::Empty => Player::Empty,
    }
}

/// The three cells of winning line `k`, for `k` in `0..8`: the two diagonals,
/// then the three rows, then the three columns.
pub open spec fn win_line(k: int) -> ((int, int), (int, int), (int, int)) {
    if k == 0 {
        ((0, 0), (1, 1), (2, 2))
    } else if k == 1 {
        ((0, 2), (1, 1), (2, 0))
    } else if k == 2 {
        ((0, 0), (0, 1), (0, 2))
    } else if k == 3 {
        ((1, 0), (1, 1), (1, 2))
    } else if k == 4 {
        ((2, 0), (2, 1), (2, 2))
    } else if k == 5 {
        ((0, 0), (1, 0), (2, 0))
    } else if k == 6 {
        ((0, 1), (1, 1), (2, 1))
    } else {
        ((0, 2), (1, 2), (2, 2))
    }
}

/// All three cells of winning line `k` hold `p`.
pub open spec fn owns_line(cells: Seq<Seq<Player>>, p: Player, k: int) -> bool {
    let (a, b, c) = win_line(k);
    &&& cells[a.0][a.1] == p
    &&& cells[b.0][b.1] == p
    &&& cells[c.0][c.1] == p
}

/// Some winning line is held entirely by `p`.
pub open spec fn has_line(cells: Seq<Seq<Player>>, p: Player) -> bool {
    exists|k: int| 0 <= k < 8 && #[trigger] owns_line(cells, p, k)
}

/// No cell of the grid is empty.
pub open spec fn is_full(cells: Seq<Seq<Player>>) -> bool {
    forall|r: int, c: int| 0 <= r < 3 && 0 <= c < 3 ==> #[trigger] cells[r][c] != Player::Empty
}

/// The status of a grid right after `mover` has placed a mark on it.
pub open spec fn status_after(cells: Seq<Seq<Player>>, mover: Player) -> State {
    if has_line(cells, mover) {
        State::Winner(mover)
    } else if is_full(cells) {
        State::Stalemate
    } else {
        State::InProgress
    }
}

/// The grid as rows of cells.
pub open spec fn cells_of(grid: [[Player; 3]; 3]) -> Seq<Seq<Player>> {
    Seq::new(3, |r: int| grid[r]@)
}

/// A 3x3 grid of empty cells.
pub open spec fn empty_cells() -> Seq<Seq<Player>> {
    Seq::new(3, |r: int| Seq::new(3, |c: int| Player::Empty))
}

impl View for Board {
    type V = GameView;

    open spec fn view(&self) -> GameView {
        GameView { cells: cells_of(self.grid), status: self.status, current: self.player_current }
    }
}

impl GameView {
    /// A fresh game: empty grid, in progress, player 1 to move.
    pub open spec fn initial() -> GameView {
        GameView { cells: empty_cells(), status: State::InProgress, current: Player::P1 }
    }

    /// The player to move is one of the two players.
    pub open spec fn is_valid(self) -> bool {
        self.current is P1 || self.current is P2
    }

    /// The game has ended in a win or a stalemate.
    pub open spec fn is_terminal(self) -> bool {
        !(self.status is InProgress)
    }

    /// The grid once the player to move has marked cell (`r`, `c`).
    pub open spec fn placed(self, r: int, c: int) -> Seq<Seq<Player>> {
        self.cells.update(r, self.cells[r].update(c, self.current))
    }

    /// The game after the player to move marks cell (`r`, `c`): the status is recomputed for the mover, and the turn passes only while
    /// the game goes on.
    pub open spec fn after_move(self, r: int, c: int) -> GameView {
        let cells = self.placed(r, c);
        let status = status_after(cells, self.current);
        GameView {
            cells,
            status,
            current: if status is InProgress { opponent(self.current) } else { self.current },
        }
    }

    /// Why a checked move at (`r`, `c`) is refused, if it is.
    pub open spec fn move_error(self, r: int, c: int) -> Option<MoveError> {
        if self.is_terminal() {
            Some(MoveError::GameOver)
        } else if !(0 <= r < 3 && 0 <= c < 3) {
            Some(MoveError::OutOfRange)
        } else if self.cells[r][c] != Player::Empty {
            Some(MoveError::Occupied)
        } else {
            None
        }
    }
}

/// The cells of winning line `k`, for `k` in `0..8`.
fn line_coords(k: usize) -> (r: ((usize, usize), (usize, usize), (usize, usize)))
    requires
        k < 8,
    ensures
        r.0.0 == win_line(k as int).0.0,
        r.0.1 == win_line(k as int).0.1,
        r.1.0 == win_line(k as int).1.0,
        r.1.1 == win_line(k as int).1.1,
        r.2.0 == win_line(k as int).2.0,
        r.2.1 == win_line(k as int).2.1,
{
    match k {
        0 => ((0, 0), (1, 1), (2, 2)),
        1 => ((0, 2), (1, 1), (2, 0)),
        2 => ((0, 0), (0, 1), (0, 2)),
        3 => ((1, 0), (1, 1), (1, 2)),
        4 => ((2, 0), (2, 1), (2, 2)),
        5 => ((0, 0), (1, 0), (2, 0)),
        6 => ((0, 1), (1, 1), (2, 1)),
        _ => ((0, 2), (1, 2), (2, 2)),
    }
}

impl Board {
    /// A fresh game: every cell empty, in progress, player 1 to move.
    pub fn new() -> (r: Board)
        ensures
            r@ == GameView::initial(),
            r@.is_valid(),
    {
        let r = Board {
            grid: [[Player::Empty; 3]; 3],
            player_current: Player::P1,
            status: State::InProgress,
        };
        assert(r@.cells =~~= empty_cells());
        r
    }

    /// Whether the player to move holds a whole winning line.
    pub fn is_won(&self) -> (r: bool)
        ensures
            r == has_line(self@.cells, self.player_current),
    {
        let mut k: usize = 0;
        while k < 8
            invariant
                k <= 8,
                forall|j: int| 0 <= j < k ==> !#[trigger] owns_line(self@.cells, self.player_current, j),
            decreases 8 - k,
        {
            let (a, b, c) = line_coords(k);
            if self.grid[a.0][a.1] == self.player_current && self.grid[b.0][b.1] == self.player_current
                && self.grid[c.0][c.1] == self.player_current {
                assert(owns_line(self@.cells, self.player_current, k as int));
                return true;
            }
            k += 1;
        }
        false
    }

    /// Whether every cell holds a mark.
    pub fn stalemate(&self) -> (r: bool)
        ensures
            r == is_full(self@.cells),
    {
        let mut i: usize = 0;
        while i < 3
            invariant
                i <= 3,
                forall|r: int, c: int| 0 <= r < i && 0 <= c < 3 ==> #[trigger] self@.cells[r][c] != Player::Empty,
            decreases 3 - i,
        {
            let mut j: usize = 0;
            while j < 3
                invariant
                    i < 3,
                    j <= 3,
                    forall|r: int, c: int| 0 <= r < i && 0 <= c < 3 ==> #[trigger] self@.cells[r][c] != Player::Empty,
                    forall|c: int| 0 <= c < j ==> #[trigger] self@.cells[i as int][c] != Player::Empty,
                decreases 3 - j,
            {
                if self.grid[i][j] == Player::Empty {
                    return false;
                }
                j += 1;
            }
            i += 1;
        }
        true
    }

    /// Marks the empty cell (`mv[0]`, `mv[1]`) for the player to move while the
    /// game is in progress, then recomputes the status for that player and
    /// passes the turn while the game goes on.
    pub fn play_move(&mut self, mv: [usize; 2])
        requires
            old(self)@.is_valid(),
            old(self)@.move_error(mv[0] as int, mv[1] as int) is None,
        ensures
            final(self)@ == old(self)@.after_move(mv[0] as int, mv[1] as int),
            final(self)@.is_valid(),
    {
        let x = mv[0];
        let y = mv[1];
        self.grid[x][y] = self.player_current;
        assert(self@.cells =~~= old(self)@.placed(x as int, y as int));
        if self.is_won() {
            self.status = State::Winner(self.player_current);
        } else if self.stalemate() {
            self.status = State::Stalemate;
        } else {
            self.status = State::InProgress;
        }
        if self.status == State::InProgress {
            match self.player_current {
                Player::P1 => self.player_current = Player::P2,
                Player::P2 => self.player_current = Player::P1,
                Player::Empty => {},
            }
        }
    }

    /// Plays the move only if the game is in progress and (`row`, `col`) is an
    /// empty cell of the grid; otherwise leaves the board as it was.
    pub fn try_move(&mut self, row: usize, col: usize) -> (r: Result<(), MoveError>)
        requires
            old(self)@.is_valid(),
        ensures
            final(self)@.is_valid(),
            match old(self)@.move_error(row as int, col as int) {
                Some(e) => r == Err::<(), MoveError>(e) && *final(self) == *old(self),
                None => r is Ok && final(self)@ == old(self)@.after_move(row as int, col as int),
            },
    {
        if self.status != State::InProgress {
            return Err(MoveError::GameOver);
        }
        if row >= 3 || col >= 3 {
            return Err(MoveError::OutOfRange);
        }
        if self.grid[row][col] != Player::Empty {
            return Err(MoveError::Occupied);
        }
        self.play_move([row, col]);
        Ok(())
    }
}

} // verus!
