use ladders_and_slides::GameError;
use ladders_and_slides::board::Board;
use ladders_and_slides::board::Connection;
use ladders_and_slides::board::ConnectionKind;
use ladders_and_slides::board::Pawn;
use ladders_and_slides::board::Tile;
use ladders_and_slides::generator::generate;

fn tile(position: i32) -> Tile {
    Tile::new(position).unwrap()
}

fn connection(kind: ConnectionKind, start: i32, end: i32) -> Connection {
    Connection::new(kind, tile(start), tile(end)).unwrap()
}

#[test]
fn tile_new_rejects_a_negative_position() {
    assert!(matches!(Tile::new(-1), Err(GameError::InvalidTile)));
}

#[test]
fn tile_new_accepts_the_first_position() {
    assert_eq!(Tile::new(0).unwrap().position, 0);
}

#[test]
fn connection_new_rejects_equal_start_and_end() {
    let t = tile(0);
    assert!(matches!(
        Connection::new(ConnectionKind::Slide, t, t),
        Err(GameError::InvalidConnection)
    ));
}

#[test]
fn connection_new_rejects_a_slide_that_goes_up() {
    assert!(matches!(
        Connection::new(ConnectionKind::Slide, tile(0), tile(1)),
        Err(GameError::InvalidConnection)
    ));
}

#[test]
fn connection_new_rejects_a_ladder_that_goes_down() {
    assert!(matches!(
        Connection::new(ConnectionKind::Ladder, tile(1), tile(0)),
        Err(GameError::InvalidConnection)
    ));
}

#[test]
fn moves_pawn_to_tile() {
    let mut pawn = Pawn::new(0);
    let connections: Vec<Connection> = Vec::new();
    pawn.advance(1, &connections).unwrap();
    assert_eq!(pawn.position, 1);
}

#[test]
fn follows_connections_until_they_stop() {
    let mut pawn = Pawn::new(0);
    let connections = vec![
        connection(ConnectionKind::Ladder, 1, 2),
        connection(ConnectionKind::Ladder, 2, 3),
    ];
    pawn.advance(1, &connections).unwrap();
    assert_eq!(pawn.position, 3);
}

#[test]
fn follows_ladder_and_slide_connections_until_they_stop() {
    let mut pawn = Pawn::new(0);
    let connections = vec![
        connection(ConnectionKind::Ladder, 1, 3),
        connection(ConnectionKind::Slide, 3, 2),
    ];
    pawn.advance(1, &connections).unwrap();
    assert_eq!(pawn.position, 2);
}

#[test]
fn returns_requested_number_of_ladders_and_slides() {
    for _ in 0..100 {
        let num_ladders: i32 = 2;
        let num_slides: i32 = 3;
        let received_connections = generate(10, num_ladders, num_slides).unwrap();
        let received_num_ladders = received_connections
            .iter()
            .filter(|conn| conn.kind == ConnectionKind::Ladder)
            .count() as i32;
        let received_num_slides = received_connections
            .iter()
            .filter(|conn| conn.kind == ConnectionKind::Slide)
            .count() as i32;
        assert_eq!(received_num_slides, num_slides);
        assert_eq!(received_num_ladders, num_ladders);
    }
}

#[test]
fn no_returned_connections_start_or_end_at_the_same_tile() {
    for _ in 0..100 {
        let num_ladders: i32 = 5;
        let num_slides: i32 = 5;
        let received_connections = generate(20, num_ladders, num_slides).unwrap();
        for position in 0..20 {
            let mut num_conn_starts: i32 = 0;
            let mut num_conn_ends: i32 = 0;
            for conn in &received_connections {
                if conn.start == position {
                    num_conn_starts += 1;
                }
                if conn.end == position {
                    num_conn_ends += 1;
                }
            }
            assert!(num_conn_starts < 2);
            assert!(num_conn_ends < 2);
        }
    }
}

#[test]
fn generate_rejects_more_connections_than_the_tiles_can_hold() {
    assert!(matches!(generate(2, 2, 0), Err(GameError::Configuration)));
}

#[test]
fn generate_rejects_a_negative_shortcut_count() {
    assert!(matches!(generate(10, -1, 0), Err(GameError::Configuration)));
    assert!(matches!(generate(10, 0, -1), Err(GameError::Configuration)));
}

#[test]
fn generate_times_out_when_no_valid_placement_exists() {
    // One slide on a two-tile track is within the feasibility bound, but a
    // slide can never start at the last tile, so every draw is rejected.
    assert!(matches!(generate(2, 0, 1), Err(GameError::GenerationTimeout)));
}

#[test]
fn board_new_rejects_an_empty_track() {
    assert!(matches!(Board::new(0), Err(GameError::Configuration)));
    assert!(matches!(Board::new(-3), Err(GameError::Configuration)));
}

#[test]
fn board_new_on_a_single_tile_has_no_connections() {
    let board = Board::new(1).unwrap();
    assert_eq!(board.num_tiles, 1);
    assert!(board.connections.is_empty());
}

#[test]
fn board_new_follows_the_default_shortcut_policy() {
    // 50 tiles hold at most 25 shortcuts; a fifth of that is 5, split into
    // 3 ladders and 2 slides.
    let board = Board::new(50).unwrap();
    let ladders = board
        .connections
        .iter()
        .filter(|conn| conn.kind == ConnectionKind::Ladder)
        .count();
    let slides = board
        .connections
        .iter()
        .filter(|conn| conn.kind == ConnectionKind::Slide)
        .count();
    assert_eq!(ladders, 3);
    assert_eq!(slides, 2);
    assert_eq!(board.num_tiles, 50);
}

#[test]
fn generate_with_no_shortcuts_requested_always_succeeds() {
    let connections = generate(5, 0, 0).unwrap();
    assert!(connections.is_empty());
}
