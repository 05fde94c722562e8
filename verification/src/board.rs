//! The board's value types: tiles, directed connections (ladders and
//! slides), the board itself, and the pawns that move across it.

use vstd::prelude::*;

use crate::GameError;
use crate::resolver::get_position_after_connections;
use crate::resolver::resolve_path;

verus! {

/// A track position. Identity is the non-negative integer `position`.
#[derive(Clone, Copy, Debug, PartialEq, Eq, Structural)]
pub struct Tile {
    pub position: i32,
}

impl Tile {
    /// A tile at `position`; rejected if the position is negative.
    pub fn new(position: i32) -> (r: Result<Tile, GameError>)
        ensures
            r is Ok <==> position >= 0,
            r matches Ok(t) ==> t.position == position,
            r matches Err(e) ==> e == GameError::InvalidTile,
    {
        if position < 0 {
            Err(GameError::InvalidTile)
        } else {
            Ok(Tile { position })
        }
    }
}

/// The two kinds of shortcut: a ladder carries a pawn forward, a slide
/// carries it backward.
#[derive(Clone, Copy, Debug, PartialEq, Eq, Structural)]
pub enum ConnectionKind {
    Slide,
    Ladder,
}

/// A directed shortcut between two tile positions.
#[derive(Clone, Copy, Debug, PartialEq, Eq, Structural)]
pub struct Connection {
    pub start: i32,
    pub end: i32,
    pub kind: ConnectionKind,
}

/// A connection's endpoints agree with its kind: the tiles differ, a ladder
/// goes up the track and a slide goes down it.
pub open spec fn connection_direction_ok(kind: ConnectionKind, start: i32, end: i32) -> bool {
    &&& start != end
    &&& kind is Ladder ==> end > start
    &&& kind is Slide ==> end < start
}

/// A connection lies on a board of `num_tiles` tiles and respects its kind's
/// direction.
pub open spec fn valid_connection(c: Connection, num_tiles: int) -> bool {
    &&& 0 <= c.start < num_tiles
    &&& 0 <= c.end < num_tiles
    &&& connection_direction_ok(c.kind, c.start, c.end)
}

/// Two connections may coexist in one set: they share no start, share no
/// end, and neither is the reverse of the other.
pub open spec fn connections_compatible(a: Connection, b: Connection) -> bool {
    &&& a.start != b.start
    &&& a.end != b.end
    &&& !(a.start == b.end && a.end == b.start)
}

/// The connection-set invariant: every connection is valid for the board,
/// no two share a start, no two share an end, and no connection is the
/// mirror of another. Together these make the shortcut relation a partial
/// injective function with no two-step cycles.
pub open spec fn connection_set_wf(cs: Seq<Connection>, num_tiles: int) -> bool {
    &&& forall|i: int| 0 <= i < cs.len() ==> valid_connection(#[trigger] cs[i], num_tiles)
    &&& forall|i: int, j: int| #![trigger cs[i], cs[j]]
        0 <= i < cs.len() && 0 <= j < cs.len() && i != j ==> connections_compatible(cs[i], cs[j])
}

/// How many connections of the given kind the sequence holds.
pub open spec fn count_kind(cs: Seq<Connection>, kind: ConnectionKind) -> int
    decreases cs.len(),
{
    if cs.len() == 0 {
        0
    } else {
        count_kind(cs.drop_last(), kind) + if cs.last().kind == kind {
            1int
        } else {
            0int
        }
    }
}

impl Connection {
    /// A connection of the given kind between two tiles; rejected if it
    /// starts and ends at the same place or runs against its kind's
    /// direction.
    pub fn new(kind: ConnectionKind, start: Tile, end: Tile) -> (r: Result<Connection, GameError>)
        ensures
            r is Ok <==> connection_direction_ok(kind, start.position, end.position),
            r matches Ok(c) ==> c.kind == kind && c.start == start.position && c.end
                == end.position,
            r matches Err(e) ==> e == GameError::InvalidConnection,
    {
        if start.position == end.position {
            return Err(GameError::InvalidConnection);
        }
        let direction_ok = match kind {
            ConnectionKind::Ladder => end.position > start.position,
            ConnectionKind::Slide => end.position < start.position,
        };
        if !direction_ok {
            return Err(GameError::InvalidConnection);
        }
        Ok(Connection { start: start.position, end: end.position, kind })
    }
}

/// No connection leaves the last tile: it is the absorbing end of the track,
/// and a slide out of it could take the win back.
pub open spec fn no_connection_from_last_tile(cs: Seq<Connection>, num_tiles: int) -> bool {
    forall|i: int| 0 <= i < cs.len() ==> (#[trigger] cs[i]).start < num_tiles - 1
}

/// An immutable pairing of a tile range `0 .. num_tiles` and a generated
/// connection set, owned for the game's lifetime.
pub struct Board {
    pub num_tiles: i32,
    pub connections: Vec<Connection>,
}

/// The default policy's number of shortcuts on a track of `num_tiles`
/// tiles: a fifth of the floor(num_tiles / 2) pairs the track can hold.
pub open spec fn default_shortcut_total(num_tiles: int) -> int {
    (num_tiles / 2) / 5
}

/// The default policy's number of ladders: the larger half of the total.
pub open spec fn default_ladders(num_tiles: int) -> int {
    (default_shortcut_total(num_tiles) + 1) / 2
}

/// The default policy's number of slides: the smaller half of the total.
pub open spec fn default_slides(num_tiles: int) -> int {
    default_shortcut_total(num_tiles) / 2
}

impl Board {
    /// The board invariant: at least one tile, a well-formed connection set
    /// over the track, and no connection out of the last tile.
    pub open spec fn wf(self) -> bool {
        &&& self.num_tiles >= 1
        &&& connection_set_wf(self.connections@, self.num_tiles as int)
        &&& no_connection_from_last_tile(self.connections@, self.num_tiles as int)
    }

    /// A board of `num_tiles` tiles whose shortcuts follow the default
    /// policy, generated at random. Fails with `Configuration` exactly on an
    /// empty track, and with `GenerationTimeout` when the generator's
    /// rejection sampling exhausts its budget.
    pub fn new(num_tiles: i32) -> (r: Result<Board, GameError>)
        ensures
            num_tiles <= 0 <==> (r matches Err(e) && e == GameError::Configuration),
            r matches Err(e) ==> e == GameError::Configuration
                || e == GameError::GenerationTimeout,
            num_tiles > 0 && default_shortcut_total(num_tiles as int) == 0 ==> r is Ok,
            r matches Ok(b) ==> {
                &&& b.num_tiles == num_tiles
                &&& b.wf()
                &&& count_kind(b.connections@, ConnectionKind::Ladder) == default_ladders(
                    num_tiles as int,
                )
                &&& count_kind(b.connections@, ConnectionKind::Slide) == default_slides(
                    num_tiles as int,
                )
                &&& b.connections@.len() == default_shortcut_total(num_tiles as int)
            },
    {
        if num_tiles <= 0 {
            return Err(GameError::Configuration);
        }
        let max_connections = num_tiles / 2;
        let total_shortcuts = max_connections / 5;
        let ladders = (total_shortcuts + 1) / 2;
        let slides = total_shortcuts / 2;
        assert(total_shortcuts <= max_connections) by {
            vstd::arithmetic::div_mod::lemma_div_is_ordered_by_denominator(
                max_connections as int,
                1,
                5,
            );
        }
        match crate::generator::generate(num_tiles, ladders, slides) {
            Ok(connections) => Ok(Board { num_tiles, connections }),
            Err(e) => Err(e),
        }
    }
}

/// Every pawn stands on a tile of the track.
pub open spec fn pawns_wf(pawns: Seq<Pawn>, num_tiles: int) -> bool {
    forall|i: int| 0 <= i < pawns.len() ==> 0 <= (#[trigger] pawns[i]).position < num_tiles
}

/// A player's marker on the board: a mutable position and the number of the
/// player who owns it.
#[derive(Clone, Copy, Debug, PartialEq, Eq, Structural)]
pub struct Pawn {
    pub position: i32,
    pub player: i32,
}

impl Pawn {
    /// A pawn for `player`, placed at the start of the track.
    pub fn new(player: i32) -> (r: Pawn)
        ensures
            r.position == 0,
            r.player == player,
    {
        Pawn { position: 0, player }
    }

    /// Moves the pawn to `end_position` and then follows chained connections
    /// to the resting tile. Fails with `CycleDetected`, leaving the pawn
    /// where it was, when the connections loop.
    pub fn advance(&mut self, end_position: i32, connections: &Vec<Connection>) -> (r: Result<
        (),
        GameError,
    >)
        ensures
            final(self).player == old(self).player,
            match resolve_path(connections@, end_position as int, connections@.len()) {
                Some((q, _)) => r is Ok && final(self).position as int == q,
                None => r matches Err(e) && e == GameError::CycleDetected && final(self).position
                    == old(self).position,
            },
    {
        match get_position_after_connections(end_position, connections) {
            Ok((resting, _)) => {
                self.position = resting;
                Ok(())
            },
            Err(e) => Err(e),
        }
    }
}

} // verus!
