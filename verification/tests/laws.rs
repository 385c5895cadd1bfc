use std::collections::HashSet;

use achi::player::char_is_whitespace;
use achi::board::{adjacents_from_alignments, victory_alignments};
use achi::{
    define_player_domain, start_game_domain, BoardPhase, DomainError, Grid, IdentitySource, Player,
    PlayerSide, TokenPosition,
};

fn started() -> (Player, Player, Grid) {
    let mut ids = IdentitySource::new();
    let red = define_player_domain(PlayerSide::Red, "Red", &mut ids).unwrap();
    let black = define_player_domain(PlayerSide::Black, "Black", &mut ids).unwrap();
    let grid = start_game_domain(&red, &black).unwrap();
    (red, black, grid)
}

fn snapshot(grid: &Grid) -> (BoardPhase, PlayerSide, usize, Vec<Option<u8>>, Vec<Option<u8>>) {
    let red = (0..4).map(|i| grid.red_token_position(i).unwrap()).collect();
    let black = (0..4).map(|i| grid.black_token_position(i).unwrap()).collect();
    (grid.phase_value(), grid.active_player_value(), grid.placement_count(), red, black)
}

fn occupied_positions(grid: &Grid) -> Vec<u8> {
    let mut all = Vec::new();
    for i in 0..4 {
        if let Some(p) = grid.red_token_position(i).unwrap() {
            all.push(p);
        }
        if let Some(p) = grid.black_token_position(i).unwrap() {
            all.push(p);
        }
    }
    all
}

#[test]
fn refused_requests_leave_the_grid_unchanged() {
    let (red, black, mut grid) = started();
    grid.place_token(&red, 0, 4).unwrap();
    let before = snapshot(&grid);
    assert!(grid.place_token(&red, 1, 3).is_err());
    assert!(grid.place_token(&black, 0, 4).is_err());
    assert!(grid.place_token(&black, 0, 10).is_err());
    assert!(grid.place_token(&black, 9, 3).is_err());
    assert!(grid.move_token(&black, 0, 3).is_err());
    assert!(grid.change_grid_phase().is_err());
    assert!(grid.victory_achieved().is_err());
    assert_eq!(snapshot(&grid), before);
}

#[test]
fn turns_alternate_and_records_are_numbered_modulo_256() {
    let (red, black, mut grid) = started();
    // Red keeps re-placing its first token; black does the same with its
    // first token: 300 accepted turns in all.
    for n in 0..300usize {
        let (player, side) = if n % 2 == 0 {
            (&red, PlayerSide::Red)
        } else {
            (&black, PlayerSide::Black)
        };
        assert_eq!(grid.active_player_value(), side);
        let target = if n % 2 == 0 { (n / 2 % 4) as u8 } else { 4 + (n / 2 % 4) as u8 };
        let placement = grid.place_token(player, 0, target).unwrap();
        assert_eq!(placement.turn(), (n % 256) as u8);
        assert_eq!(placement.player_side(), side);
        assert_eq!(grid.placement_count(), n + 1);
    }
    assert_eq!(grid.placements()[256].turn(), 0);
    assert_eq!(grid.placements()[299].turn(), 43);
}

#[test]
fn tokens_never_share_a_position() {
    let (red, black, mut grid) = started();
    let mut seed: u32 = 12345;
    for _ in 0..400 {
        seed = seed.wrapping_mul(1103515245).wrapping_add(12345);
        let player = if grid.active_player_value() == PlayerSide::Red { &red } else { &black };
        let token = ((seed >> 8) % 5) as usize;
        let position = ((seed >> 16) % 10) as u8;
        let _ = if (seed >> 4) % 2 == 0 {
            grid.place_token(player, token, position)
        } else {
            grid.move_token(player, token, position)
        };
        let positions = occupied_positions(&grid);
        let distinct: HashSet<u8> = positions.iter().copied().collect();
        assert_eq!(distinct.len(), positions.len());
        assert!(positions.iter().all(|p| *p < 9));
    }
}

#[test]
fn adjacency_is_the_consecutive_pairs_of_the_alignments() {
    let alignments = victory_alignments();
    assert_eq!(alignments.len(), 8);
    let edges = adjacents_from_alignments(&alignments);
    let got: Vec<(u8, u8)> = edges.iter().map(|(a, b)| (a.value(), b.value())).collect();
    let expected = vec![
        (0, 1), (1, 2), (3, 4), (4, 5), (6, 7), (7, 8), (0, 3), (3, 6),
        (1, 4), (4, 7), (2, 5), (5, 8), (0, 4), (4, 8), (2, 4), (4, 6),
    ];
    assert_eq!(got, expected);
}

#[test]
fn repeated_pairs_are_kept_once() {
    let p = |v: u8| TokenPosition::try_from(v).unwrap();
    let alignments = vec![[p(0), p(1), p(2)], [p(2), p(1), p(0)], [p(1), p(2), p(5)]];
    let edges = adjacents_from_alignments(&alignments);
    let got: Vec<(u8, u8)> = edges.iter().map(|(a, b)| (a.value(), b.value())).collect();
    assert_eq!(got, vec![(0, 1), (1, 2), (2, 5)]);
}

#[test]
fn moves_follow_adjacency_in_both_directions() {
    let (red, black, mut grid) = started();
    grid.place_token(&red, 0, 0).unwrap();
    grid.place_token(&black, 0, 8).unwrap();
    // 0 and 4 are adjacent (diagonal), in both directions.
    grid.move_token(&red, 0, 4).unwrap();
    grid.move_token(&black, 0, 7).unwrap();
    grid.move_token(&red, 0, 0).unwrap();
    // 7 and 5 are not adjacent.
    grid.move_token(&black, 0, 8).unwrap();
    let err = grid.move_token(&red, 0, 5).unwrap_err();
    assert_eq!(err, DomainError::MovementNotAdjacent);
    assert_eq!(grid.move_token(&red, 0, 1).unwrap().position(), 1);
    assert_eq!(grid.move_token(&black, 0, 5).unwrap().position(), 5);
}

#[test]
fn phase_never_returns_to_placement() {
    let (red, black, mut grid) = started();
    let moves = [(0, 0), (0, 1), (1, 2), (1, 3), (2, 4), (2, 6), (3, 7), (3, 8)];
    for (n, (token, position)) in moves.iter().enumerate() {
        let player = if n % 2 == 0 { &red } else { &black };
        grid.place_token(player, *token, *position).unwrap();
    }
    grid.change_grid_phase().unwrap();
    grid.move_token(&red, 2, 5).unwrap();
    grid.place_token(&black, 0, 4).unwrap();
    assert_eq!(grid.phase_value(), BoardPhase::Movement);
    assert_eq!(grid.change_grid_phase().err().unwrap(), DomainError::WrongGridPhase);
}

#[test]
fn error_codes_are_distinct() {
    let all = [
        DomainError::InvalidPlayerLabel,
        DomainError::InvalidTokenPosition,
        DomainError::AdversarySamePlayer,
        DomainError::WrongPlayerTurn,
        DomainError::IllegalRedTokenPlacement,
        DomainError::IllegalBlackTokenPlacement,
        DomainError::IllegalRedTokenMovement,
        DomainError::IllegalBlackTokenMovement,
        DomainError::SamePositionNotAllowed,
        DomainError::MovementNotAdjacent,
        DomainError::RedPlayerUnsetTokens,
        DomainError::BlackPlayerUnsetTokens,
        DomainError::WrongGridPhase,
        DomainError::TokenNotOwnedByPlayer,
    ];
    let codes: HashSet<&str> = all.iter().map(|e| e.code()).collect();
    assert_eq!(codes.len(), all.len());
    assert_eq!(DomainError::SamePositionNotAllowed.code(), "same_position_not_allowed");
    assert_eq!(DomainError::TokenNotOwnedByPlayer.code(), "token_not_owned_by_player");
    assert_eq!(DomainError::IllegalBlackTokenMovement.code(), "illegal_black_token_movement");
}

#[test]
fn positions_are_validated() {
    for v in 0..9u8 {
        assert_eq!(TokenPosition::try_from(v).unwrap().value(), v);
    }
    for v in [9u8, 10, 200, 255] {
        assert_eq!(TokenPosition::try_from(v).unwrap_err(), DomainError::InvalidTokenPosition);
    }
}

#[test]
fn starting_copies_the_players() {
    let (red, black, mut grid) = started();
    grid.place_token(&red, 0, 2).unwrap();
    assert_eq!(red.token_position_js(0).unwrap(), None);
    assert_eq!(grid.red_player().token_position_js(0).unwrap(), Some(2));
    assert_eq!(grid.black_player().side_value(), black.side_value());
    assert_eq!(grid.red_player().token_position_js(4).unwrap_err(), DomainError::TokenNotOwnedByPlayer);
    assert_eq!(grid.black_token_position(4).unwrap_err(), DomainError::TokenNotOwnedByPlayer);
}

#[test]
fn victory_answer_is_coherent() {
    let (red, black, mut grid) = started();
    // red 0, 4, 8 (diagonal) and black 1, 2, 3, 5; red's fourth token at 6.
    let moves = [(0, 0), (0, 1), (1, 4), (1, 2), (2, 8), (2, 3), (3, 6), (3, 5)];
    for (n, (token, position)) in moves.iter().enumerate() {
        let player = if n % 2 == 0 { &red } else { &black };
        grid.place_token(player, *token, *position).unwrap();
    }
    let v = grid.victory_achieved().unwrap();
    assert_eq!(v.result, v.player.is_some());
    assert_eq!(v.player, Some(PlayerSide::Red));
}

#[test]
fn records_tell_placements_from_moves() {
    let (red, black, mut grid) = started();
    let placed = grid.place_token(&red, 0, 0).unwrap();
    assert_eq!(placed.mode(), BoardPhase::Placement);
    let moved = grid.move_token(&black, 0, 4).unwrap_err();
    assert_eq!(moved, DomainError::MovementNotAdjacent);
    grid.place_token(&black, 0, 8).unwrap();
    let moved = grid.move_token(&red, 0, 1).unwrap();
    assert_eq!(moved.mode(), BoardPhase::Movement);
    let modes: Vec<BoardPhase> = grid.placements().iter().map(|p| p.mode()).collect();
    assert_eq!(modes, vec![BoardPhase::Placement, BoardPhase::Placement, BoardPhase::Movement]);
}

#[test]
fn copies_are_equal_and_independent() {
    let (red, black, mut grid) = started();
    let red_copy = red.clone();
    assert_eq!(red_copy.label_value(), red.label_value());
    assert_eq!(red_copy.side_value(), red.side_value());
    let again = red.duplicate();
    assert_eq!(again.token_count(), 4);
    // The copy keeps the identity: it plays red's turn on the grid.
    grid.place_token(&red_copy, 0, 3).unwrap();
    let snapshot_copy = grid.clone();
    grid.place_token(&black, 0, 5).unwrap();
    assert_eq!(snapshot_copy.placement_count(), 1);
    assert_eq!(grid.placement_count(), 2);
    assert_eq!(snapshot_copy.red_token_position(0).unwrap(), Some(3));
    assert_eq!(snapshot_copy.black_token_position(0).unwrap(), None);
}

#[test]
fn whitespace_is_the_unicode_white_space_set() {
    for c in ['\t', '\n', '\u{0B}', '\u{0C}', '\r', ' ', '\u{85}', '\u{A0}', '\u{1680}', '\u{2000}',
        '\u{200A}', '\u{2028}', '\u{2029}', '\u{202F}', '\u{205F}', '\u{3000}'] {
        assert!(char_is_whitespace(c));
        assert_eq!(char_is_whitespace(c), c.is_whitespace());
    }
    for c in ['a', 'R', '0', '\u{200B}', '\u{180E}', '\u{FEFF}', '\u{1F}', '\u{2030}'] {
        assert!(!char_is_whitespace(c));
    }
    for v in 0u32..0x3100 {
        if let Some(c) = char::from_u32(v) {
            assert_eq!(char_is_whitespace(c), c.is_whitespace(), "{:x}", v);
        }
    }
}

#[test]
fn turns_alternate_and_history_explains_the_board() {
    let (red, black, mut grid) = started();
    let moves = [(0, 0), (0, 1), (1, 2), (1, 3), (2, 4), (2, 6), (3, 7), (3, 8)];
    for (n, (token, position)) in moves.iter().enumerate() {
        let player = if n % 2 == 0 { &red } else { &black };
        grid.place_token(player, *token, *position).unwrap();
    }
    grid.change_grid_phase().unwrap();
    grid.move_token(&red, 2, 5).unwrap();
    let _ = grid.move_token(&black, 0, 5);
    grid.move_token(&black, 2, 4).unwrap();
    for (k, record) in grid.placements().iter().enumerate() {
        let side = if k % 2 == 0 { PlayerSide::Red } else { PlayerSide::Black };
        assert_eq!(record.player_side(), side);
        assert_eq!(record.turn(), (k % 256) as u8);
    }
    let expected_active = if grid.placement_count() % 2 == 0 { PlayerSide::Red } else { PlayerSide::Black };
    assert_eq!(grid.active_player_value(), expected_active);
    for i in 0..4 {
        let last = |side: PlayerSide| {
            grid.placements()
                .iter()
                .rev()
                .find(|r| r.player_side() == side && r.token_index() == i)
                .map(|r| r.position())
        };
        assert_eq!(grid.red_token_position(i).unwrap(), last(PlayerSide::Red));
        assert_eq!(grid.black_token_position(i).unwrap(), last(PlayerSide::Black));
    }
}
