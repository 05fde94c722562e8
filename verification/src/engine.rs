//! The turn engine: one player's dice-driven move, shortcut resolution,
//! clamping at the end of the track, win detection, and the turn pointer.

use vstd::prelude::*;

use crate::GameError;
use crate::board::Board;
use crate::board::Connection;
use crate::board::Pawn;
use crate::board::pawns_wf;
use crate::dice::roll;
use crate::resolver::get_position_after_connections;
use crate::resolver::lemma_resolve_path_in_range;
use crate::resolver::resolve_path;

verus! {

/// Counts the turns taken; the pawn to move next is the one at index
/// `turn % players`.
#[derive(Clone, Copy, Debug, PartialEq, Eq, Structural)]
pub struct TurnCounter {
    pub turn: i32,
}

impl TurnCounter {
    /// A counter at the first turn.
    pub fn new() -> (r: TurnCounter)
        ensures
            r.turn == 0,
    {
        TurnCounter { turn: 0 }
    }
}

/// The player of the first pawn that has reached the last tile, if any.
pub open spec fn spec_winning_player(pawns: Seq<Pawn>, num_tiles: int) -> Option<i32>
    decreases pawns.len(),
{
    if pawns.len() == 0 {
        None
    } else if pawns[0].position as int >= num_tiles - 1 {
        Some(pawns[0].player)
    } else {
        spec_winning_player(pawns.drop_first(), num_tiles)
    }
}

/// The absorbing ceiling at the last tile: a position past it is clamped to
/// it, never wrapped.
pub open spec fn clamp_to_last_tile(p: int, num_tiles: int) -> int {
    if p >= num_tiles - 1 {
        num_tiles - 1
    } else {
        p
    }
}

/// One turn of the game, as a mathematical step: from the pawns and the turn
/// pointer, with a given dice roll, to the pawns and pointer after the
/// move — or `None` when resolution runs into a cycle. A finished game is
/// left exactly as it is.
pub open spec fn spec_take_turn(
    num_tiles: int,
    cs: Seq<Connection>,
    pawns: Seq<Pawn>,
    turn: int,
    roll: int,
) -> Option<(Seq<Pawn>, int)> {
    if spec_winning_player(pawns, num_tiles) is Some {
        Some((pawns, turn))
    } else {
        let idx = turn % (pawns.len() as int);
        let mover = pawns[idx];
        let naive = clamp_to_last_tile(mover.position + roll, num_tiles);
        match resolve_path(cs, naive, cs.len()) {
            None => None,
            Some((resting, _)) => {
                let resolved = clamp_to_last_tile(resting, num_tiles);
                let moved = pawns.update(
                    idx,
                    Pawn { position: resolved as i32, player: mover.player },
                );
                let next_turn = if resolved >= num_tiles - 1 {
                    turn
                } else {
                    turn + 1
                };
                Some((moved, next_turn))
            },
        }
    }
}

/// What a turn-taking call must leave behind: on a cycle, the error and no
/// change; otherwise the pawns and turn pointer of `spec_take_turn`, and the
/// winner of the resulting position as the call's answer.
pub open spec fn turn_outcome_matches(
    num_tiles: int,
    cs: Seq<Connection>,
    pawns0: Seq<Pawn>,
    turn0: int,
    roll: int,
    pawns1: Seq<Pawn>,
    turn1: int,
    r: Result<Option<i32>, GameError>,
) -> bool {
    match spec_take_turn(num_tiles, cs, pawns0, turn0, roll) {
        None => r matches Err(e) && e == GameError::CycleDetected && pawns1 == pawns0 && turn1
            == turn0,
        Some((pawns2, turn2)) => r matches Ok(w) && pawns1 == pawns2 && turn1 == turn2 && w
            == spec_winning_player(pawns2, num_tiles),
    }
}

proof fn lemma_winning_player_found(pawns: Seq<Pawn>, num_tiles: int, i: int)
    requires
        0 <= i < pawns.len(),
        pawns[i].position as int >= num_tiles - 1,
        forall|j: int| 0 <= j < i ==> ((#[trigger] pawns[j]).position as int) < num_tiles - 1,
    ensures
        spec_winning_player(pawns, num_tiles) == Some(pawns[i].player),
    decreases i,
{
    if i > 0 {
        assert forall|j: int| 0 <= j < i - 1 implies ((#[trigger] pawns.drop_first()[j]).position
            as int) < num_tiles - 1 by {
            assert(pawns.drop_first()[j] == pawns[j + 1]);
        }
        lemma_winning_player_found(pawns.drop_first(), num_tiles, i - 1);
        assert(pawns.drop_first()[i - 1] == pawns[i]);
    }
}

proof fn lemma_winning_player_none(pawns: Seq<Pawn>, num_tiles: int)
    requires
        forall|j: int| 0 <= j < pawns.len() ==> ((#[trigger] pawns[j]).position as int)
            < num_tiles - 1,
    ensures
        spec_winning_player(pawns, num_tiles) is None,
    decreases pawns.len(),
{
    if pawns.len() > 0 {
        assert forall|j: int| 0 <= j < pawns.drop_first().len() implies ((#[trigger] pawns.drop_first()[j]).position
            as int) < num_tiles - 1 by {
            assert(pawns.drop_first()[j] == pawns[j + 1]);
        }
        lemma_winning_player_none(pawns.drop_first(), num_tiles);
    }
}

proof fn lemma_winning_player_after_update(pawns: Seq<Pawn>, num_tiles: int, idx: int, moved: Pawn)
    requires
        spec_winning_player(pawns, num_tiles) is None,
        0 <= idx < pawns.len(),
    ensures
        spec_winning_player(pawns.update(idx, moved), num_tiles) == if moved.position as int
            >= num_tiles - 1 {
            Some(moved.player)
        } else {
            None
        },
    decreases idx,
{
    let up = pawns.update(idx, moved);
    if idx == 0 {
        assert(up.drop_first() =~= pawns.drop_first());
    } else {
        assert(up[0] == pawns[0]);
        lemma_winning_player_after_update(pawns.drop_first(), num_tiles, idx - 1, moved);
        assert(up.drop_first() =~= pawns.drop_first().update(idx - 1, moved));
    }
}

/// The player of the first pawn that has reached the last tile, if any: the
/// game is then over and that player has won.
pub fn winning_player(pawns: &Vec<Pawn>, board: &Board) -> (r: Option<i32>)
    ensures
        r == spec_winning_player(pawns@, board.num_tiles as int),
{
    let mut i: usize = 0;
    while i < pawns.len()
        invariant
            i <= pawns@.len(),
            forall|j: int| 0 <= j < i ==> ((#[trigger] pawns@[j]).position as int)
                < board.num_tiles - 1,
        decreases pawns@.len() - i,
    {
        if pawns[i].position as i64 >= board.num_tiles as i64 - 1 {
            proof {
                lemma_winning_player_found(pawns@, board.num_tiles as int, i as int);
            }
            return Some(pawns[i].player);
        }
        i += 1;
    }
    proof {
        lemma_winning_player_none(pawns@, board.num_tiles as int);
    }
    None
}

/// One turn with a known dice roll: the pawn named by the turn pointer moves
/// forward by `roll`, is clamped at the last tile, follows chained
/// connections, and wins if it comes to rest on the last tile; otherwise the
/// turn pointer advances. A finished game is left untouched and its winner
/// returned. Fails with `CycleDetected`, changing nothing, when resolution
/// loops.
pub fn take_turn(
    board: &Board,
    pawns: &mut Vec<Pawn>,
    turn_counter: &mut TurnCounter,
    roll: i32,
) -> (r: Result<Option<i32>, GameError>)
    requires
        board.wf(),
        pawns_wf(old(pawns)@, board.num_tiles as int),
        old(pawns)@.len() >= 1,
        0 <= old(turn_counter).turn < i32::MAX,
        roll >= 0,
    ensures
        turn_outcome_matches(
            board.num_tiles as int,
            board.connections@,
            old(pawns)@,
            old(turn_counter).turn as int,
            roll as int,
            final(pawns)@,
            final(turn_counter).turn as int,
            r,
        ),
        final(pawns)@.len() == old(pawns)@.len(),
        pawns_wf(final(pawns)@, board.num_tiles as int),
        final(turn_counter).turn >= old(turn_counter).turn,
{
    let n = board.num_tiles;
    if let Some(w) = winning_player(pawns, board) {
        return Ok(Some(w));
    }
    let idx = (turn_counter.turn as usize) % pawns.len();
    let mover = pawns[idx];
    let naive: i32 = if mover.position as i64 >= n as i64 - 1 - roll as i64 {
        n - 1
    } else {
        mover.position + roll
    };
    match get_position_after_connections(naive, &board.connections) {
        Err(_) => Err(GameError::CycleDetected),
        Ok((resting, _)) => {
            proof {
                lemma_resolve_path_in_range(
                    board.connections@,
                    naive as int,
                    board.connections@.len(),
                    n as int,
                );
            }
            let resolved: i32 = if resting as i64 >= n as i64 - 1 {
                n - 1
            } else {
                resting
            };
            let moved = Pawn { position: resolved, player: mover.player };
            pawns.set(idx, moved);
            proof {
                lemma_winning_player_after_update(old(pawns)@, n as int, idx as int, moved);
            }
            if resolved as i64 >= n as i64 - 1 {
                Ok(Some(mover.player))
            } else {
                turn_counter.turn = turn_counter.turn + 1;
                Ok(None)
            }
        },
    }
}

/// One full turn: on a finished game, returns the winner without touching
/// the dice; otherwise rolls two six-sided dice and plays the turn with the
/// sum. Whatever the dice returned, the outcome is that of `take_turn` for
/// some roll between two and twelve.
pub fn take_turns(board: &Board, pawns: &mut Vec<Pawn>, turn_counter: &mut TurnCounter) -> (r:
    Result<Option<i32>, GameError>)
    requires
        board.wf(),
        pawns_wf(old(pawns)@, board.num_tiles as int),
        old(pawns)@.len() >= 1,
        0 <= old(turn_counter).turn < i32::MAX,
    ensures
        exists|rolled: int|
            2 <= rolled <= 12 && turn_outcome_matches(
                board.num_tiles as int,
                board.connections@,
                old(pawns)@,
                old(turn_counter).turn as int,
                rolled,
                final(pawns)@,
                final(turn_counter).turn as int,
                r,
            ),
        final(pawns)@.len() == old(pawns)@.len(),
        pawns_wf(final(pawns)@, board.num_tiles as int),
        final(turn_counter).turn >= old(turn_counter).turn,
{
    if let Some(w) = winning_player(pawns, board) {
        let result: Result<Option<i32>, GameError> = Ok(Some(w));
        assert(turn_outcome_matches(
            board.num_tiles as int,
            board.connections@,
            old(pawns)@,
            old(turn_counter).turn as int,
            2,
            pawns@,
            turn_counter.turn as int,
            result,
        ));
        return result;
    }
    match roll(6, 2) {
        Ok(rolled) => {
            let result = take_turn(board, pawns, turn_counter, rolled);
            assert(turn_outcome_matches(
                board.num_tiles as int,
                board.connections@,
                old(pawns)@,
                old(turn_counter).turn as int,
                rolled as int,
                pawns@,
                turn_counter.turn as int,
                result,
            ));
            result
        },
        Err(e) => Err(e),
    }
}

} // verus!
