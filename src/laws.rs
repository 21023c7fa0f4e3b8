use vstd::prelude::*;
use crate::game::{Board, GameView, MoveError, Player, State, has_line, is_full, opponent};
use crate::text::{cells_of_text, grid_text, player_of_symbol, row_major, row_text, symbol_of};

verus! {

/// A grid of three rows of three cells.
pub open spec fn is_grid(cells: Seq<Seq<Player>>) -> bool {
    cells.len() == 3 && forall|r: int| 0 <= r < 3 ==> (#[trigger] cells[r]).len() == 3
}

/// A board's grid always has three rows of three cells.
pub proof fn lemma_board_is_grid(b: &Board)
    ensures
        is_grid(b@.cells),
{
}

/// A cell of the grid.
pub open spec fn on_grid(m: (int, int)) -> bool {
    0 <= m.0 < 3 && 0 <= m.1 < 3
}

/// The game after playing `moves` in order from `g`, each one as
/// `Board::play_move` plays it.
pub open spec fn play_all(g: GameView, moves: Seq<(int, int)>) -> GameView
    decreases moves.len(),
{
    if moves.len() == 0 {
        g
    } else {
        play_all(g, moves.drop_last()).after_move(moves.last().0, moves.last().1)
    }
}

/// No two moves target the same cell.
pub open spec fn distinct_cells(moves: Seq<(int, int)>) -> bool {
    forall|i: int, j: int| 0 <= i < j < moves.len() ==> moves[i] != moves[j]
}

/// Every move targets a cell of the grid.
pub open spec fn all_on_grid(moves: Seq<(int, int)>) -> bool {
    forall|i: int| 0 <= i < moves.len() ==> on_grid(#[trigger] moves[i])
}

/// One for a marked cell, zero for an empty one.
pub open spec fn marked(p: Player) -> nat {
    if p == Player::Empty {
        0
    } else {
        1
    }
}

/// How many cells of a row hold a mark.
pub open spec fn occupied_in_row(row: Seq<Player>) -> nat {
    marked(row[0]) + marked(row[1]) + marked(row[2])
}

/// How many cells of the grid hold a mark.
pub open spec fn occupied_count(cells: Seq<Seq<Player>>) -> nat {
    occupied_in_row(cells[0]) + occupied_in_row(cells[1]) + occupied_in_row(cells[2])
}

/// A move keeps the grid's shape, changes only the cell played, and keeps
/// the player to move a real player.
proof fn lemma_after_move_shape(g: GameView, r: int, c: int)
    requires
        is_grid(g.cells),
        on_grid((r, c)),
    ensures
        is_grid(g.after_move(r, c).cells),
        g.current != Player::Empty ==> g.after_move(r, c).current != Player::Empty,
        forall|r2: int, c2: int|
            on_grid((r2, c2)) ==> #[trigger] g.after_move(r, c).cells[r2][c2] == if r2 == r && c2
                == c {
                g.current
            } else {
                g.cells[r2][c2]
            },
{
}

/// Cells of the grid hold a mark exactly where a move was played, and the
/// player to move is never the empty mark.
proof fn lemma_play_all_marks(moves: Seq<(int, int)>)
    requires
        all_on_grid(moves),
    ensures
        is_grid(play_all(GameView::initial(), moves).cells),
        play_all(GameView::initial(), moves).current != Player::Empty,
        forall|r: int, c: int|
            on_grid((r, c)) ==> ((#[trigger] play_all(GameView::initial(), moves).cells[r][c]
                != Player::Empty) <==> moves.contains((r, c))),
    decreases moves.len(),
{
    let g0 = GameView::initial();
    if moves.len() == 0 {
        assert(is_grid(g0.cells));
    } else {
        let prev = moves.drop_last();
        assert(all_on_grid(prev)) by {
            assert forall|i: int| 0 <= i < prev.len() implies on_grid(#[trigger] prev[i]) by {
                assert(prev[i] == moves[i]);
            }
        }
        lemma_play_all_marks(prev);
        let m = moves.last();
        assert(on_grid(moves[moves.len() - 1]));
        lemma_after_move_shape(play_all(g0, prev), m.0, m.1);
        assert forall|r: int, c: int| on_grid((r, c)) implies ((#[trigger] play_all(
            g0,
            moves,
        ).cells[r][c] != Player::Empty) <==> moves.contains((r, c))) by {
            if moves.contains((r, c)) && (r, c) != m {
                let i = choose|i: int| 0 <= i < moves.len() && moves[i] == (r, c);
                assert(prev[i] == (r, c));
            }
            if prev.contains((r, c)) {
                let i = choose|i: int| 0 <= i < prev.len() && prev[i] == (r, c);
                assert(moves[i] == (r, c));
            }
            assert(moves[moves.len() - 1] == m);
        }
    }
}

/// A prefix of moves on distinct cells of the grid is such a sequence too.
proof fn lemma_take_keeps(moves: Seq<(int, int)>, n: int)
    requires
        0 <= n <= moves.len(),
        all_on_grid(moves),
        distinct_cells(moves),
    ensures
        all_on_grid(moves.take(n)),
        distinct_cells(moves.take(n)),
{
    let t = moves.take(n);
    assert forall|i: int| 0 <= i < t.len() implies on_grid(#[trigger] t[i]) by {
        assert(t[i] == moves[i]);
    }
    assert forall|i: int, j: int| 0 <= i < j < t.len() implies t[i] != t[j] by {
        assert(t[i] == moves[i] && t[j] == moves[j]);
    }
}

/// Moves on distinct cells of the grid mark one cell each.
proof fn lemma_count_after_distinct(moves: Seq<(int, int)>)
    requires
        all_on_grid(moves),
        distinct_cells(moves),
    ensures
        occupied_count(play_all(GameView::initial(), moves).cells) == moves.len(),
    decreases moves.len(),
{
    let g0 = GameView::initial();
    if moves.len() == 0 {
        assert(occupied_count(g0.cells) == 0);
    } else {
        let prev = moves.drop_last();
        lemma_take_keeps(moves, moves.len() - 1);
        assert(prev =~= moves.take(moves.len() - 1));
        lemma_count_after_distinct(prev);
        lemma_play_all_marks(prev);
        let m = moves.last();
        assert(on_grid(moves[moves.len() - 1]));
        assert(!prev.contains(m)) by {
            if prev.contains(m) {
                let i = choose|i: int| 0 <= i < prev.len() && prev[i] == m;
                assert(moves[i] == moves[moves.len() - 1]);
            }
        }
        let g = play_all(g0, prev);
        assert(g.cells[m.0][m.1] == Player::Empty);
        lemma_after_move_shape(g, m.0, m.1);
    }
}

/// Playing moves on distinct cells of the grid from a fresh game, the number of
/// marked cells after each move equals the number of moves played so far.
pub proof fn lemma_occupied_counts_moves(moves: Seq<(int, int)>)
    requires
        all_on_grid(moves),
        distinct_cells(moves),
        moves.len() <= 9,
    ensures
        forall|n: int|
            0 <= n <= moves.len() ==> occupied_count(
                #[trigger] play_all(GameView::initial(), moves.take(n)).cells,
            ) == n,
{
    assert forall|n: int| 0 <= n <= moves.len() implies occupied_count(
        #[trigger] play_all(GameView::initial(), moves.take(n)).cells,
    ) == n by {
        lemma_take_keeps(moves, n);
        lemma_count_after_distinct(moves.take(n));
    }
}

/// A move that completes a line for the player to move makes that player the
/// winner and ends the game: every further checked move is refused.
pub proof fn lemma_winning_move_ends_game(g: GameView, r: int, c: int)
    requires
        g.is_valid(),
        on_grid((r, c)),
        has_line(g.placed(r, c), g.current),
    ensures
        g.after_move(r, c).status == State::Winner(g.current),
        g.after_move(r, c).is_terminal(),
        forall|r2: int, c2: int|
            #[trigger] g.after_move(r, c).move_error(r2, c2) == Some(MoveError::GameOver),
{
}

/// Filling all nine cells by moves on distinct cells, with no line for either
/// player, ends in a stalemate.
pub proof fn lemma_full_board_without_line_is_stalemate(moves: Seq<(int, int)>)
    requires
        all_on_grid(moves),
        distinct_cells(moves),
        moves.len() == 9,
        !has_line(play_all(GameView::initial(), moves).cells, Player::P1),
        !has_line(play_all(GameView::initial(), moves).cells, Player::P2),
    ensures
        play_all(GameView::initial(), moves).status == State::Stalemate,
{
    let g0 = GameView::initial();
    let g = play_all(g0, moves);
    let prev = moves.drop_last();
    lemma_count_after_distinct(moves);
    lemma_play_all_marks(moves);
    assert(all_on_grid(prev)) by {
        assert forall|i: int| 0 <= i < prev.len() implies on_grid(#[trigger] prev[i]) by {
            assert(prev[i] == moves[i]);
        }
    }
    lemma_play_all_marks(prev);
    assert(is_full(g.cells)) by {
        assert forall|r: int, c: int| 0 <= r < 3 && 0 <= c < 3 implies #[trigger] g.cells[r][c]
            != Player::Empty by {
            assert(occupied_count(g.cells) == 9);
            assert(marked(g.cells[r][c]) == 1);
        }
    }
}

/// A move on the last empty cell of the grid that leaves no line for either
/// player ends in a stalemate.
pub proof fn lemma_filling_last_cell_is_stalemate(g: GameView, r: int, c: int)
    requires
        g.is_valid(),
        g.move_error(r, c) is None,
        is_full(g.placed(r, c)),
        !has_line(g.placed(r, c), Player::P1),
        !has_line(g.placed(r, c), Player::P2),
    ensures
        g.after_move(r, c).status == State::Stalemate,
{
}

/// While the game goes on, player 1 moves on odd-numbered moves and player 2
/// on even-numbered ones: after `n` moves, player 1 is to move if `n` is even,
/// player 2 if it is odd.
pub proof fn lemma_turn_parity(moves: Seq<(int, int)>)
    requires
        all_on_grid(moves),
        forall|n: int|
            1 <= n <= moves.len() ==> (#[trigger] play_all(
                GameView::initial(),
                moves.take(n),
            )).status is InProgress,
    ensures
        play_all(GameView::initial(), moves).current == if moves.len() % 2 == 0 {
            Player::P1
        } else {
            Player::P2
        },
    decreases moves.len(),
{
    let g0 = GameView::initial();
    if moves.len() > 0 {
        let prev = moves.drop_last();
        assert(all_on_grid(prev)) by {
            assert forall|i: int| 0 <= i < prev.len() implies on_grid(#[trigger] prev[i]) by {
                assert(prev[i] == moves[i]);
            }
        }
        assert forall|n: int| 1 <= n <= prev.len() implies (#[trigger] play_all(
            g0,
            prev.take(n),
        )).status is InProgress by {
            assert(prev.take(n) =~= moves.take(n));
        }
        lemma_turn_parity(prev);
        assert(moves.take(moves.len() as int) =~= moves);
        assert(play_all(g0, moves.take(moves.len() as int)).status is InProgress);
        let g = play_all(g0, prev);
        assert(opponent(g.current) == play_all(g0, moves).current);
    }
}

/// Reading two texts one after the other reads their concatenation.
proof fn lemma_cells_of_text_append(a: Seq<char>, b: Seq<char>)
    ensures
        cells_of_text(a + b) == match (cells_of_text(a), cells_of_text(b)) {
            (Some(x), Some(y)) => Some(x + y),
            _ => None,
        },
    decreases b.len(),
{
    if b.len() == 0 {
        assert(a + b =~= a);
        if let Some(x) = cells_of_text(a) {
            assert(x + Seq::<Player>::empty() =~= x);
        }
    } else {
        lemma_cells_of_text_append(a, b.drop_last());
        assert((a + b).drop_last() =~= a + b.drop_last());
        assert((a + b).last() == b.last());
        if let (Some(x), Some(y)) = (cells_of_text(a), cells_of_text(b.drop_last())) {
            if let Some(p) = player_of_symbol(b.last()) {
                assert(x + y.push(p) =~= (x + y).push(p));
            }
        }
    }
}

/// Each mark is read back from the character that shows it.
pub proof fn lemma_symbol_round_trip(p: Player)
    ensures
        player_of_symbol(symbol_of(p)) == Some(p),
{
}

/// Reading back one displayed row gives its three cells.
proof fn lemma_row_round_trip(row: Seq<Player>)
    requires
        row.len() == 3,
    ensures
        cells_of_text(row_text(row)) == Some(row),
{
    let t = row_text(row);
    lemma_symbol_round_trip(row[0]);
    lemma_symbol_round_trip(row[1]);
    lemma_symbol_round_trip(row[2]);
    assert(t.take(1).drop_last() =~= t.take(0));
    assert(t.take(2).drop_last() =~= t.take(1));
    assert(t.take(3).drop_last() =~= t.take(2));
    assert(t.take(4).drop_last() =~= t.take(3));
    assert(t.take(4) =~= t);
    assert(cells_of_text(t.take(0)) == Some(Seq::<Player>::empty()));
    assert(cells_of_text(t.take(1)) == Some(seq![row[0]]));
    assert(cells_of_text(t.take(2)) == Some(seq![row[0], row[1]]));
    assert(cells_of_text(t.take(3)) == Some(seq![row[0], row[1], row[2]]));
    assert(seq![row[0], row[1], row[2]] =~= row);
}

/// Reading back the displayed grid, one character at a time, gives its nine
/// cells in row order.
pub proof fn lemma_render_round_trip(cells: Seq<Seq<Player>>)
    requires
        is_grid(cells),
    ensures
        cells_of_text(grid_text(cells)) == Some(row_major(cells)),
{
    lemma_row_round_trip(cells[0]);
    lemma_row_round_trip(cells[1]);
    lemma_row_round_trip(cells[2]);
    lemma_cells_of_text_append(row_text(cells[0]), row_text(cells[1]));
    lemma_cells_of_text_append(row_text(cells[0]) + row_text(cells[1]), row_text(cells[2]));
}

} // verus!
