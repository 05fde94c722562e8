//! The connection generator: places a requested number of ladders and slides
//! on the track by rejection sampling, keeping the connection-set invariant
//! local to construction.

use vstd::prelude::*;

use crate::GameError;
use crate::board::Connection;
use crate::board::ConnectionKind;
use crate::board::connection_set_wf;
use crate::board::connections_compatible;
use crate::board::count_kind;
use crate::board::no_connection_from_last_tile;
use crate::board::valid_connection;
use crate::rng::rand_range;

verus! {

/// How many draws one shortcut placement may reject before generation gives
/// up with `GenerationTimeout` instead of looping forever.
pub const GENERATION_ATTEMPT_LIMIT: u32 = 100000;

/// Whether some connection already uses `p` as its start.
fn contains_start(connections: &Vec<Connection>, p: i32) -> (r: bool)
    ensures
        r == exists|i: int|
            0 <= i < connections@.len() && (#[trigger] connections@[i]).start == p,
{
    let mut i: usize = 0;
    while i < connections.len()
        invariant
            i <= connections@.len(),
            forall|j: int| 0 <= j < i ==> (#[trigger] connections@[j]).start != p,
        decreases connections@.len() - i,
    {
        if connections[i].start == p {
            return true;
        }
        i += 1;
    }
    false
}

/// Whether some connection already uses `p` as its end.
fn contains_end(connections: &Vec<Connection>, p: i32) -> (r: bool)
    ensures
        r == exists|i: int| 0 <= i < connections@.len() && (#[trigger] connections@[i]).end == p,
{
    let mut i: usize = 0;
    while i < connections.len()
        invariant
            i <= connections@.len(),
            forall|j: int| 0 <= j < i ==> (#[trigger] connections@[j]).end != p,
        decreases connections@.len() - i,
    {
        if connections[i].end == p {
            return true;
        }
        i += 1;
    }
    false
}

/// Whether some connection is the mirror of a candidate running from `start`
/// to `end`.
fn contains_mirror(connections: &Vec<Connection>, start: i32, end: i32) -> (r: bool)
    ensures
        r == exists|i: int|
            0 <= i < connections@.len() && (#[trigger] connections@[i]).start == end
                && connections@[i].end == start,
{
    let mut i: usize = 0;
    while i < connections.len()
        invariant
            i <= connections@.len(),
            forall|j: int|
                0 <= j < i ==> !((#[trigger] connections@[j]).start == end && connections@[j].end
                    == start),
        decreases connections@.len() - i,
    {
        if connections[i].start == end && connections[i].end == start {
            return true;
        }
        i += 1;
    }
    false
}

/// Draws one shortcut of the given kind that fits beside the existing
/// connections: its start is a fresh start off the last tile, its end a
/// fresh end, the pair runs in the kind's direction and mirrors nothing.
/// Rejected draws are retried up to `GENERATION_ATTEMPT_LIMIT` times.
fn generate_connection(kind: ConnectionKind, num_tiles: i32, existing: &Vec<Connection>) -> (r:
    Result<Connection, GameError>)
    requires
        num_tiles >= 2,
    ensures
        r matches Ok(c) ==> valid_connection(c, num_tiles as int) && c.kind == kind && (
        c.start as int) < num_tiles - 1 && forall|i: int|
            0 <= i < existing@.len() ==> connections_compatible(#[trigger] existing@[i], c),
        r matches Err(e) ==> e == GameError::GenerationTimeout,
{
    let mut attempts: u32 = 0;
    while attempts < GENERATION_ATTEMPT_LIMIT
        invariant
            num_tiles >= 2,
        decreases GENERATION_ATTEMPT_LIMIT - attempts,
    {
        attempts += 1;
        let start = rand_range(0, num_tiles - 1);
        if contains_start(existing, start) {
            continue;
        }
        let end = rand_range(0, num_tiles);
        if contains_end(existing, end) {
            continue;
        }
        if start == end {
            continue;
        }
        let direction_ok = match kind {
            ConnectionKind::Ladder => end > start,
            ConnectionKind::Slide => end < start,
        };
        if !direction_ok {
            continue;
        }
        if contains_mirror(existing, start, end) {
            continue;
        }
        let c = Connection { start, end, kind };
        return Ok(c);
    }
    Err(GameError::GenerationTimeout)
}

proof fn lemma_connection_set_push(cs: Seq<Connection>, c: Connection, num_tiles: int)
    requires
        connection_set_wf(cs, num_tiles),
        no_connection_from_last_tile(cs, num_tiles),
        valid_connection(c, num_tiles),
        (c.start as int) < num_tiles - 1,
        forall|i: int| 0 <= i < cs.len() ==> connections_compatible(#[trigger] cs[i], c),
    ensures
        connection_set_wf(cs.push(c), num_tiles),
        no_connection_from_last_tile(cs.push(c), num_tiles),
{
    let cs2 = cs.push(c);
    assert forall|i: int| 0 <= i < cs2.len() implies valid_connection(
        #[trigger] cs2[i],
        num_tiles,
    ) by {
        if i < cs.len() {
            assert(cs2[i] == cs[i]);
        } else {
            assert(cs2[i] == c);
        }
    }
    assert forall|a: int, b: int| #![trigger cs2[a], cs2[b]]
        0 <= a < cs2.len() && 0 <= b < cs2.len() && a != b implies connections_compatible(
        cs2[a],
        cs2[b],
    ) by {
        if a < cs.len() && b < cs.len() {
            assert(cs2[a] == cs[a] && cs2[b] == cs[b]);
        } else if a == cs.len() {
            assert(cs2[a] == c && cs2[b] == cs[b]);
            assert(connections_compatible(cs[b], c));
        } else {
            assert(cs2[b] == c && cs2[a] == cs[a]);
            assert(connections_compatible(cs[a], c));
        }
    }
    assert forall|i: int| 0 <= i < cs2.len() implies (#[trigger] cs2[i]).start < num_tiles
        - 1 by {
        if i < cs.len() {
            assert(cs2[i] == cs[i]);
        } else {
            assert(cs2[i] == c);
        }
    }
}

proof fn lemma_count_kind_push(cs: Seq<Connection>, c: Connection, kind: ConnectionKind)
    ensures
        count_kind(cs.push(c), kind) == count_kind(cs, kind) + if c.kind == kind {
            1int
        } else {
            0int
        },
{
    assert(cs.push(c).drop_last() =~= cs);
    assert(cs.push(c).last() == c);
}

/// Generates a validated connection set over a track of `num_tiles` tiles:
/// exactly `num_ladders` ladders followed by `num_slides` slides, no two
/// sharing a start or an end, none mirroring another, and none leaving the
/// last tile. Fails with `Configuration` exactly when the track cannot hold
/// that many shortcuts (each consumes a distinct start and a distinct end),
/// and with `GenerationTimeout` when rejection sampling exhausts its budget.
pub fn generate(num_tiles: i32, num_ladders: i32, num_slides: i32) -> (r: Result<
    Vec<Connection>,
    GameError,
>)
    ensures
        (num_tiles <= 0 || num_ladders < 0 || num_slides < 0 || num_ladders + num_slides
            > num_tiles as int / 2) <==> (r matches Err(e) && e == GameError::Configuration),
        r matches Err(e) ==> e == GameError::Configuration || e == GameError::GenerationTimeout,
        num_tiles > 0 && num_ladders == 0 && num_slides == 0 ==> r is Ok,
        r matches Ok(cs) ==> {
            &&& connection_set_wf(cs@, num_tiles as int)
            &&& no_connection_from_last_tile(cs@, num_tiles as int)
            &&& count_kind(cs@, ConnectionKind::Ladder) == num_ladders
            &&& count_kind(cs@, ConnectionKind::Slide) == num_slides
            &&& cs@.len() == num_ladders + num_slides
        },
{
    if num_tiles <= 0 || num_ladders < 0 || num_slides < 0 {
        return Err(GameError::Configuration);
    }
    let max_connections = num_tiles / 2;
    if num_ladders > max_connections || num_slides > max_connections - num_ladders {
        return Err(GameError::Configuration);
    }
    let mut connections: Vec<Connection> = Vec::new();
    let mut placed: i32 = 0;
    while placed < num_ladders
        invariant
            0 <= placed <= num_ladders,
            num_tiles >= 1,
            num_slides >= 0,
            num_ladders + num_slides <= num_tiles as int / 2,
            num_ladders >= 1 ==> num_tiles >= 2,
            connection_set_wf(connections@, num_tiles as int),
            no_connection_from_last_tile(connections@, num_tiles as int),
            count_kind(connections@, ConnectionKind::Ladder) == placed,
            count_kind(connections@, ConnectionKind::Slide) == 0,
            connections@.len() == placed,
        decreases num_ladders - placed,
    {
        match generate_connection(ConnectionKind::Ladder, num_tiles, &connections) {
            Err(e) => {
                return Err(e);
            },
            Ok(c) => {
                proof {
                    lemma_connection_set_push(connections@, c, num_tiles as int);
                    lemma_count_kind_push(connections@, c, ConnectionKind::Ladder);
                    lemma_count_kind_push(connections@, c, ConnectionKind::Slide);
                }
                connections.push(c);
                placed = placed + 1;
            },
        }
    }
    let mut placed_slides: i32 = 0;
    while placed_slides < num_slides
        invariant
            0 <= placed_slides <= num_slides,
            num_tiles >= 1,
            num_ladders >= 0,
            num_ladders + num_slides <= num_tiles as int / 2,
            num_slides >= 1 ==> num_tiles >= 2,
            connection_set_wf(connections@, num_tiles as int),
            no_connection_from_last_tile(connections@, num_tiles as int),
            count_kind(connections@, ConnectionKind::Ladder) == num_ladders,
            count_kind(connections@, ConnectionKind::Slide) == placed_slides,
            connections@.len() == num_ladders + placed_slides,
        decreases num_slides - placed_slides,
    {
        match generate_connection(ConnectionKind::Slide, num_tiles, &connections) {
            Err(e) => {
                return Err(e);
            },
            Ok(c) => {
                proof {
                    lemma_connection_set_push(connections@, c, num_tiles as int);
                    lemma_count_kind_push(connections@, c, ConnectionKind::Ladder);
                    lemma_count_kind_push(connections@, c, ConnectionKind::Slide);
                }
                connections.push(c);
                placed_slides = placed_slides + 1;
            },
        }
    }
    Ok(connections)
}

} // verus!
