//! What holds of every game, proved from the definitions of the model.

use vstd::prelude::*;
use crate::player::Player;
use crate::board::{Cells, LINES, has_line, is_full, marks, occupied, owns_line};
use crate::position::{
    GameState,
    Position,
    all_legal,
    initial,
    legal,
    mover,
    outcome,
    place,
    reachable,
    replay,
};

verus! {

/// Replacing what a cell holds changes the count of a marker by what the
/// cell gains of it, less what it loses.
pub proof fn lemma_marks_update(cells: Cells, i: int, new: Option<Player>, p: Player)
    requires
        0 <= i < cells.len(),
    ensures
        marks(cells.update(i, new), p) + (if cells[i] == Some(p) {
            1nat
        } else {
            0nat
        }) == marks(cells, p) + (if new == Some(p) {
            1nat
        } else {
            0nat
        }),
    decreases cells.len(),
{
    let after = cells.update(i, new);
    if i == cells.len() - 1 {
        assert(after.drop_last() =~= cells.drop_last());
    } else {
        assert(after.drop_last() =~= cells.drop_last().update(i, new));
        lemma_marks_update(cells.drop_last(), i, new, p);
    }
}

/// A board of empty cells holds no marker.
pub proof fn lemma_no_marks(cells: Cells, p: Player)
    requires
        forall|i: int| 0 <= i < cells.len() ==> cells[i] is None,
    ensures
        marks(cells, p) == 0,
    decreases cells.len(),
{
    if cells.len() > 0 {
        lemma_no_marks(cells.drop_last(), p);
    }
}

/// The starting position holds no marker.
pub proof fn lemma_initial_has_no_marks()
    ensures
        marks(initial().cells, Player::Cross) == 0,
        marks(initial().cells, Player::Circle) == 0,
        occupied(initial().cells) == 0,
{
    lemma_no_marks(initial().cells, Player::Cross);
    lemma_no_marks(initial().cells, Player::Circle);
}

/// A legal move adds one marker of the player who makes it and none of the
/// other player.
pub proof fn lemma_marks_after_move(pos: Position, space: int)
    requires
        pos.cells.len() == 9,
        legal(pos, space),
    ensures
        marks(place(pos, space).cells, pos.to_move) == marks(pos.cells, pos.to_move) + 1,
        marks(place(pos, space).cells, pos.to_move.other()) == marks(
            pos.cells,
            pos.to_move.other(),
        ),
        occupied(place(pos, space).cells) == occupied(pos.cells) + 1,
{
    lemma_marks_update(pos.cells, space, Some(pos.to_move), Player::Cross);
    lemma_marks_update(pos.cells, space, Some(pos.to_move), Player::Circle);
}

/// No board holds more markers than it has cells, and it holds as many
/// exactly when it is full.
pub proof fn lemma_occupied_bounded(cells: Cells)
    ensures
        occupied(cells) <= cells.len(),
        occupied(cells) == cells.len() <==> is_full(cells),
    decreases cells.len(),
{
    if cells.len() > 0 {
        let front = cells.drop_last();
        let last = cells.last();
        lemma_occupied_bounded(front);
        match last {
            Some(Player::Cross) => {
                assert(last != Some(Player::Circle));
            },
            Some(Player::Circle) => {
                assert(last != Some(Player::Cross));
            },
            None => {},
        }
        assert(occupied(cells) == occupied(front) + if last is Some {
            1nat
        } else {
            0nat
        });
        if is_full(cells) {
            assert forall|i: int| 0 <= i < front.len() implies front[i] is Some by {
                assert(cells[i] is Some);
            }
            assert(is_full(front));
            assert(last is Some);
        }
        if occupied(cells) == cells.len() {
            assert(is_full(front));
            assert forall|i: int| 0 <= i < cells.len() implies cells[i] is Some by {
                if i < front.len() {
                    assert(front[i] is Some);
                }
            }
        }
    }
}

/// A prefix of a game played by the rules is played by the rules.
pub proof fn lemma_prefix_is_legal(moves: Seq<int>, n: int)
    requires
        all_legal(moves),
        0 <= n <= moves.len(),
    ensures
        all_legal(moves.take(n)),
{
    assert forall|k: int| 0 <= k < n implies legal(
        #[trigger] replay(moves.take(n).take(k)),
        moves.take(n)[k],
    ) by {
        assert(moves.take(n).take(k) =~= moves.take(k));
    }
}

/// After `k` legal moves from the start exactly `k` cells hold a marker,
/// Cross has made the moves with an even number and Circle the others, and
/// the turn is with the player who has made the fewer. No game has more than
/// nine moves.
pub proof fn lemma_moves_are_counted(moves: Seq<int>)
    requires
        all_legal(moves),
    ensures
        replay(moves).cells.len() == 9,
        occupied(replay(moves).cells) == moves.len(),
        marks(replay(moves).cells, Player::Cross) == (moves.len() + 1) / 2,
        marks(replay(moves).cells, Player::Circle) == moves.len() / 2,
        replay(moves).to_move == mover(moves.len() as int),
        moves.len() <= 9,
    decreases moves.len(),
{
    if moves.len() == 0 {
        lemma_initial_has_no_marks();
    } else {
        let before = moves.drop_last();
        assert(before =~= moves.take(moves.len() - 1));
        lemma_prefix_is_legal(moves, moves.len() - 1);
        lemma_moves_are_counted(before);
        lemma_marks_after_move(replay(before), moves.last());
    }
    lemma_occupied_bounded(replay(moves).cells);
}

/// A game played by the rules stays one when a legal move is added.
pub proof fn lemma_next_move_is_legal(moves: Seq<int>, space: int)
    requires
        all_legal(moves),
        legal(replay(moves), space),
    ensures
        all_legal(moves.push(space)),
        replay(moves.push(space)) == place(replay(moves), space),
{
    let longer = moves.push(space);
    assert(longer.drop_last() =~= moves);
    assert forall|k: int| 0 <= k < longer.len() implies legal(
        #[trigger] replay(longer.take(k)),
        longer[k],
    ) by {
        assert(longer.take(k) =~= moves.take(k));
        if k == moves.len() {
            assert(moves.take(k) =~= moves);
        }
    }
}

/// The start can be reached: by no move at all.
pub proof fn lemma_start_is_reachable()
    ensures
        reachable(initial()),
{
    assert(all_legal(Seq::<int>::empty()) && replay(Seq::<int>::empty()) == initial());
}

/// A legal move leads from a position that can be reached to another.
pub proof fn lemma_reachable_is_kept(pos: Position, space: int)
    requires
        reachable(pos),
        legal(pos, space),
    ensures
        reachable(place(pos, space)),
{
    let moves = choose|moves: Seq<int>| all_legal(moves) && replay(moves) == pos;
    lemma_next_move_is_legal(moves, space);
}

/// In a position that can be reached the turn matches the board: both
/// markers stand equally often when Cross is to move, Cross stands once more
/// when Circle is, and no more than nine cells are taken.
pub proof fn lemma_reachable_is_balanced(pos: Position)
    requires
        reachable(pos),
    ensures
        pos.cells.len() == 9,
        occupied(pos.cells) <= 9,
        pos.to_move == mover(occupied(pos.cells) as int),
        marks(pos.cells, Player::Cross) == marks(pos.cells, Player::Circle) + if pos.to_move
            == Player::Circle {
            1nat
        } else {
            0nat
        },
{
    let moves = choose|moves: Seq<int>| all_legal(moves) && replay(moves) == pos;
    lemma_moves_are_counted(moves);
}

/// In a game played by the rules no cell is marked twice: the cell of move
/// number `k` holds the marker of the player who made that move, whatever
/// was played afterwards, and the cells that hold a marker are exactly those
/// that a move has named.
pub proof fn lemma_marks_stay(moves: Seq<int>)
    requires
        all_legal(moves),
    ensures
        moves.no_duplicates(),
        forall|k: int|
            0 <= k < moves.len() ==> 0 <= #[trigger] moves[k] < 9 && replay(moves).cells[moves[k]]
                == Some(mover(k)),
        forall|i: int| 0 <= i < 9 ==> (replay(moves).cells[i] is Some <==> moves.contains(i)),
    decreases moves.len(),
{
    if moves.len() > 0 {
        let before = moves.drop_last();
        let last = moves.last();
        assert(before =~= moves.take(moves.len() - 1));
        lemma_prefix_is_legal(moves, moves.len() - 1);
        lemma_marks_stay(before);
        lemma_moves_are_counted(before);
        assert(legal(replay(before), last));
        assert forall|k: int| 0 <= k < moves.len() implies 0 <= #[trigger] moves[k] < 9 && replay(
            moves,
        ).cells[moves[k]] == Some(mover(k)) by {
            if k < before.len() {
                assert(moves[k] == before[k]);
            }
        }
        assert forall|i: int| 0 <= i < 9 implies (replay(moves).cells[i] is Some
            <==> moves.contains(i)) by {
            if i == last {
                assert(moves[moves.len() - 1] == i);
            } else if before.contains(i) {
                let k = choose|k: int| 0 <= k < before.len() && before[k] == i;
                assert(moves[k] == i);
            } else if moves.contains(i) {
                let k = choose|k: int| 0 <= k < moves.len() && moves[k] == i;
                assert(before[k] == i);
            }
        }
        assert forall|j: int, k: int| 0 <= j < moves.len() && 0 <= k < moves.len() && j
            != k implies moves[j] != moves[k] by {
            if j < before.len() && k < before.len() {
                assert(before[j] != before[k]);
            } else if j < before.len() {
                assert(before[j] == moves[j]);
            } else {
                assert(before[k] == moves[k]);
            }
        }
    } else {
        assert forall|i: int| 0 <= i < 9 implies !moves.contains(i) by {}
    }
}

/// The classification depends on the cells alone: asked twice of the same
/// board, or of two games with the same board, it is the same, whoever is to
/// move.
pub proof fn lemma_state_is_stable(first: Position, second: Position)
    requires
        first.cells == second.cells,
    ensures
        outcome(first.cells) == outcome(second.cells),
{
}

/// A marker that owns one of the eight lines has won, unless it is Circle
/// and Cross owns a line too: then Cross has.
pub proof fn lemma_line_wins(cells: Cells, p: Player, l: int)
    requires
        0 <= l < LINES,
        owns_line(cells, p, l),
    ensures
        has_line(cells, p),
        p == Player::Cross || !has_line(cells, Player::Cross) ==> outcome(cells)
            == GameState::Winner(p),
        outcome(cells) == GameState::Winner(p) || outcome(cells) == GameState::Winner(
            Player::Cross,
        ),
{
}

/// While the game is open, the move that completes a line is made by the
/// owner of that line, and it wins the game for that player.
pub proof fn lemma_completing_a_line_wins(pos: Position, space: int, p: Player, l: int)
    requires
        pos.cells.len() == 9,
        outcome(pos.cells) == GameState::Ongoing,
        legal(pos, space),
        0 <= l < LINES,
        owns_line(place(pos, space).cells, p, l),
    ensures
        p == pos.to_move,
        outcome(place(pos, space).cells) == GameState::Winner(p),
{
    let after = place(pos, space).cells;
    let rival = pos.to_move.other();
    assert forall|k: int| 0 <= k < LINES implies !owns_line(after, rival, k) by {
        if owns_line(after, rival, k) {
            assert(owns_line(pos.cells, rival, k));
        }
    }
    assert(has_line(after, p));
}

/// A full board on which neither marker owns a line is a draw, and a draw
/// is nothing else.
pub proof fn lemma_draw(cells: Cells)
    ensures
        outcome(cells) == GameState::Draw <==> is_full(cells) && !has_line(cells, Player::Cross)
            && !has_line(cells, Player::Circle),
{
}

/// A game that is classified as open has an empty cell, so the player to
/// move has a legal move.
pub proof fn lemma_open_game_has_a_move(pos: Position)
    requires
        pos.cells.len() == 9,
        outcome(pos.cells) == GameState::Ongoing,
    ensures
        exists|space: int| legal(pos, space),
{
    let space = choose|i: int| 0 <= i < pos.cells.len() && !(pos.cells[i] is Some);
    assert(legal(pos, space));
}

} // verus!
