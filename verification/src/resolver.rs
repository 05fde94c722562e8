//! The position resolver: follows chained connections from a landing tile to
//! its true resting tile, guarding against cycles in the connection set.

use vstd::prelude::*;

use crate::GameError;
use crate::board::Connection;
use crate::board::valid_connection;

verus! {

/// The first connection in the sequence whose start is `p`, if any. Because
/// a well-formed connection set gives each start to at most one connection,
/// "first" is then the only one.
pub open spec fn first_connection_from(cs: Seq<Connection>, p: int) -> Option<Connection>
    decreases cs.len(),
{
    if cs.len() == 0 {
        None
    } else if cs[0].start as int == p {
        Some(cs[0])
    } else {
        first_connection_from(cs.drop_first(), p)
    }
}

/// Follows connections from `p`, taking at most `fuel` of them: the resting
/// position together with the connections taken, in order, or `None` when
/// the walk has not come to rest within `fuel` steps. With `fuel` the number
/// of connections, `None` means the walk revisits a position and can never
/// come to rest.
pub open spec fn resolve_path(cs: Seq<Connection>, p: int, fuel: nat) -> Option<
    (int, Seq<Connection>),
>
    decreases fuel,
{
    match first_connection_from(cs, p) {
        None => Some((p, Seq::empty())),
        Some(c) => if fuel == 0 {
            None
        } else {
            match resolve_path(cs, c.end as int, (fuel - 1) as nat) {
                None => None,
                Some((q, rest)) => Some((q, seq![c] + rest)),
            }
        },
    }
}

/// Law: resolving on an empty connection set leaves any position unchanged
/// and takes no connections.
pub proof fn lemma_resolve_empty(p: int, fuel: nat)
    ensures
        resolve_path(Seq::empty(), p, fuel) == Some((p, Seq::<Connection>::empty())),
{
}

proof fn lemma_first_connection_from_found(cs: Seq<Connection>, p: int, i: int)
    requires
        0 <= i < cs.len(),
        cs[i].start as int == p,
        forall|j: int| 0 <= j < i ==> (#[trigger] cs[j]).start as int != p,
    ensures
        first_connection_from(cs, p) == Some(cs[i]),
    decreases i,
{
    if i > 0 {
        assert forall|j: int| 0 <= j < i - 1 implies (#[trigger] cs.drop_first()[j]).start as int
            != p by {
            assert(cs.drop_first()[j] == cs[j + 1]);
        }
        lemma_first_connection_from_found(cs.drop_first(), p, i - 1);
        assert(cs.drop_first()[i - 1] == cs[i]);
    }
}

proof fn lemma_first_connection_from_none(cs: Seq<Connection>, p: int)
    requires
        forall|j: int| 0 <= j < cs.len() ==> (#[trigger] cs[j]).start as int != p,
    ensures
        first_connection_from(cs, p) is None,
    decreases cs.len(),
{
    if cs.len() > 0 {
        assert forall|j: int| 0 <= j < cs.drop_first().len() implies (#[trigger] cs.drop_first()[j]).start
            as int != p by {
            assert(cs.drop_first()[j] == cs[j + 1]);
        }
        lemma_first_connection_from_none(cs.drop_first(), p);
    }
}

proof fn lemma_first_connection_from_mem(cs: Seq<Connection>, p: int)
    ensures
        first_connection_from(cs, p) matches Some(c) ==> cs.contains(c) && c.start as int == p,
    decreases cs.len(),
{
    if cs.len() > 0 {
        if cs[0].start as int == p {
            assert(cs.contains(cs[0]));
        } else {
            lemma_first_connection_from_mem(cs.drop_first(), p);
            if let Some(c) = first_connection_from(cs.drop_first(), p) {
                let k = choose|k: int| 0 <= k < cs.drop_first().len() && cs.drop_first()[k] == c;
                assert(cs[k + 1] == c);
                assert(cs.contains(c));
            }
        }
    }
}

/// A walk that comes to rest on a board of `num_tiles` tiles rests on one of
/// its tiles, provided every connection lies on the board.
pub proof fn lemma_resolve_path_in_range(cs: Seq<Connection>, p: int, fuel: nat, num_tiles: int)
    requires
        forall|i: int| 0 <= i < cs.len() ==> valid_connection(#[trigger] cs[i], num_tiles),
        0 <= p < num_tiles,
    ensures
        resolve_path(cs, p, fuel) matches Some((q, _)) ==> 0 <= q < num_tiles,
    decreases fuel,
{
    if let Some(c) = first_connection_from(cs, p) {
        lemma_first_connection_from_mem(cs, p);
        let i = choose|i: int| 0 <= i < cs.len() && cs[i] == c;
        assert(valid_connection(cs[i], num_tiles));
        if fuel > 0 {
            lemma_resolve_path_in_range(cs, c.end as int, (fuel - 1) as nat, num_tiles);
        }
    }
}

/// The first connection whose start equals `position`, searched in order.
pub fn find_connection_from(connections: &Vec<Connection>, position: i32) -> (r: Option<
    Connection,
>)
    ensures
        r == first_connection_from(connections@, position as int),
{
    let mut i: usize = 0;
    while i < connections.len()
        invariant
            i <= connections@.len(),
            forall|j: int| 0 <= j < i ==> (#[trigger] connections@[j]).start != position,
        decreases connections@.len() - i,
    {
        if connections[i].start == position {
            proof {
                lemma_first_connection_from_found(connections@, position as int, i as int);
            }
            return Some(connections[i]);
        }
        i += 1;
    }
    proof {
        lemma_first_connection_from_none(connections@, position as int);
    }
    None
}

/// Follows connections from `start_position` until none leads on, returning
/// the resting position and the connections traveled, in order. Fails with
/// `CycleDetected` when the walk revisits a position instead of coming to
/// rest: that signals a broken generator invariant, never a normal game
/// condition.
pub fn get_position_after_connections(start_position: i32, connections: &Vec<Connection>) -> (r:
    Result<(i32, Vec<Connection>), GameError>)
    ensures
        match resolve_path(connections@, start_position as int, connections@.len()) {
            Some((q, path)) => r matches Ok(p) && p.0 as int == q && p.1@ == path,
            None => r matches Err(e) && e == GameError::CycleDetected,
        },
{
    let mut current: i32 = start_position;
    let mut traveled: Vec<Connection> = Vec::new();
    proof {
        if let Some((q, rest)) = resolve_path(
            connections@,
            start_position as int,
            connections@.len(),
        ) {
            assert(Seq::<Connection>::empty() + rest =~= rest);
        }
    }
    loop
        invariant
            traveled@.len() <= connections@.len(),
            ({
                let rem = (connections@.len() - traveled@.len()) as nat;
                let total = resolve_path(
                    connections@,
                    start_position as int,
                    connections@.len(),
                );
                match resolve_path(connections@, current as int, rem) {
                    None => total is None,
                    Some((q, rest)) => total == Some((q, traveled@ + rest)),
                }
            }),
        decreases connections@.len() - traveled@.len(),
    {
        let ghost rem = (connections@.len() - traveled@.len()) as nat;
        match find_connection_from(connections, current) {
            None => {
                proof {
                    assert(resolve_path(connections@, current as int, rem) == Some(
                        (current as int, Seq::<Connection>::empty()),
                    ));
                    assert(traveled@ + Seq::<Connection>::empty() =~= traveled@);
                }
                return Ok((current, traveled));
            },
            Some(c) => {
                if traveled.len() == connections.len() {
                    return Err(GameError::CycleDetected);
                }
                proof {
                    if let Some((q, rest)) = resolve_path(
                        connections@,
                        c.end as int,
                        (rem - 1) as nat,
                    ) {
                        assert(traveled@ + (seq![c] + rest) =~= traveled@.push(c) + rest);
                    }
                }
                traveled.push(c);
                current = c.end;
            },
        }
    }
}

} // verus!
