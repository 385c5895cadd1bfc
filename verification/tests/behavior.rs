use achi::player::label_accepted;
use achi::{
    define_player_domain, start_game_domain, BoardPhase, DomainError, Grid, IdentitySource, Player,
    PlayerSide,
};

fn players() -> (Player, Player) {
    let mut ids = IdentitySource::new();
    let red =
        define_player_domain(PlayerSide::Red, "Red", &mut ids).expect("red player can be defined");
    let black = define_player_domain(PlayerSide::Black, "Black", &mut ids)
        .expect("black player can be defined");
    (red, black)
}

fn started() -> (Player, Player, Grid) {
    let (red, black) = players();
    let grid = start_game_domain(&red, &black).expect("game can be started");
    (red, black, grid)
}

fn place_all(grid: &mut Grid, red: &Player, black: &Player, moves: [(usize, u8); 8]) {
    for (turn, (token, position)) in moves.iter().enumerate() {
        let player = if turn % 2 == 0 { red } else { black };
        grid.place_token(player, *token, *position).expect("token can be placed");
    }
}

fn filled_game_without_victory() -> (Player, Player, Grid) {
    let (red, black, mut grid) = started();
    place_all(
        &mut grid,
        &red,
        &black,
        [(0, 0), (0, 1), (1, 2), (1, 3), (2, 4), (2, 6), (3, 7), (3, 8)],
    );
    (red, black, grid)
}

fn game_where_red_has_victory_alignment() -> (Player, Player, Grid) {
    let (red, black, mut grid) = started();
    place_all(
        &mut grid,
        &red,
        &black,
        [(0, 0), (0, 3), (1, 1), (1, 4), (2, 2), (2, 6), (3, 5), (3, 7)],
    );
    (red, black, grid)
}

#[test]
fn defining_players_gives_sides_labels_and_unset_tokens() {
    let (red, black) = players();
    assert_eq!(red.side_value(), PlayerSide::Red);
    assert_eq!(black.side_value(), PlayerSide::Black);
    assert_eq!(red.label_value(), "Red");
    assert_eq!(black.label(), "Black".to_owned());
    assert_eq!(red.token_count(), 4);
    assert_eq!(black.token_count_js(), 4);
    for index in 0..red.token_count() {
        assert_eq!(red.token_position_js(index).unwrap(), None);
        assert_eq!(black.token_position_js(index).unwrap(), None);
    }
}

#[test]
fn blank_or_long_labels_are_refused() {
    for label in ["", "   ", "\t\n", "\u{3000}", &"x".repeat(36)] {
        let mut ids = IdentitySource::new();
        let err = define_player_domain(PlayerSide::Red, label, &mut ids).unwrap_err();
        assert_eq!(ids.next_identity(), 1);
        assert_eq!(err, DomainError::InvalidPlayerLabel);
        assert_eq!(err.code(), "invalid_player_label");
    }
    let longest = "y".repeat(35);
    let mut ids = IdentitySource::new();
    let p = define_player_domain(PlayerSide::Black, &longest, &mut ids).unwrap();
    assert_eq!(p.label_value(), longest);
    let padded = define_player_domain(PlayerSide::Red, "  Ann  ", &mut ids).unwrap();
    assert_eq!(padded.label_value(), "  Ann  ");
    let wide = "é".repeat(35);
    assert!(define_player_domain(PlayerSide::Red, &wide, &mut ids).is_ok());
}

#[test]
fn starting_a_game() {
    let (_, _, grid) = started();
    assert_eq!(grid.phase_value(), BoardPhase::Placement);
    assert_eq!(grid.phase(), BoardPhase::Placement);
    assert_eq!(grid.active_player_value(), PlayerSide::Red);
    assert_eq!(grid.active_player(), PlayerSide::Red);
    assert_eq!(grid.position_count(), 9);
    assert_eq!(grid.victory_alignment_count(), 8);
    assert_eq!(grid.placement_count(), 0);
    assert_eq!(grid.red_player().label_value(), "Red");
    assert_eq!(grid.black_player().label_value(), "Black");
    assert!(grid.placements().is_empty());
}

#[test]
fn same_player_as_both_adversaries_is_refused() {
    let (red, _) = players();
    let err = start_game_domain(&red, &red).err().unwrap();
    assert_eq!(err.code(), "adversary_same_player");
}

#[test]
fn placing_a_token_records_it_and_passes_the_turn() {
    let (red, _, mut grid) = started();
    let placement = grid.place_token(&red, 0, 4).unwrap();
    assert_eq!(placement.turn(), 0);
    assert_eq!(placement.mode(), BoardPhase::Placement);
    assert_eq!(placement.player_side(), PlayerSide::Red);
    assert_eq!(placement.token_index(), 0);
    assert_eq!(placement.position(), 4);
    assert_eq!(grid.red_token_position(0).unwrap(), Some(4));
    assert_eq!(grid.red_player().token_position_js(0).unwrap(), Some(4));
    assert_eq!(grid.active_player_value(), PlayerSide::Black);
    assert_eq!(grid.placement_count(), 1);
    assert_eq!(grid.placements()[0], placement);
}

#[test]
fn placing_out_of_turn_is_refused() {
    let (_, black, mut grid) = started();
    let err = grid.place_token(&black, 0, 4).unwrap_err();
    assert_eq!(err.code(), "wrong_player_turn");
}

#[test]
fn placing_on_an_occupied_position_is_refused() {
    let (red, black, mut grid) = started();
    grid.place_token(&red, 0, 4).unwrap();
    let err = grid.place_token(&black, 0, 4).unwrap_err();
    assert_eq!(err.code(), "illegal_red_token_placement");
    grid.place_token(&black, 0, 5).unwrap();
    let err = grid.place_token(&red, 1, 5).unwrap_err();
    assert_eq!(err.code(), "illegal_black_token_placement");
}

#[test]
fn placing_off_the_board_or_an_unknown_token_is_refused() {
    let (red, _, mut grid) = started();
    assert_eq!(grid.place_token(&red, 0, 9).unwrap_err().code(), "invalid_token_position");
    assert_eq!(grid.place_token(&red, 4, 3).unwrap_err().code(), "token_not_owned_by_player");
    let mut ids = IdentitySource::new();
    for _ in 0..5 {
        define_player_domain(PlayerSide::Black, "Other", &mut ids).unwrap();
    }
    let stranger = define_player_domain(PlayerSide::Red, "Stranger", &mut ids).unwrap();
    assert_eq!(
        grid.place_token(&stranger, 0, 3).unwrap_err().code(),
        "token_not_owned_by_player"
    );
}

#[test]
fn checking_victory_with_unset_tokens_is_refused() {
    let (_, _, grid) = started();
    assert_eq!(grid.victory_achieved().unwrap_err().code(), "red_player_unset_tokens");
}

#[test]
fn checking_victory_with_black_tokens_unset_is_refused() {
    let (red, black, mut grid) = started();
    grid.place_token(&red, 0, 0).unwrap();
    grid.place_token(&black, 0, 1).unwrap();
    grid.place_token(&red, 1, 2).unwrap();
    grid.place_token(&black, 1, 3).unwrap();
    grid.place_token(&red, 2, 4).unwrap();
    grid.place_token(&black, 2, 6).unwrap();
    grid.place_token(&red, 3, 7).unwrap();
    assert_eq!(grid.victory_achieved().unwrap_err().code(), "black_player_unset_tokens");
    assert_eq!(grid.change_grid_phase().err().unwrap().code(), "black_player_unset_tokens");
}

#[test]
fn red_victory_alignment_is_detected() {
    let (_, _, grid) = game_where_red_has_victory_alignment();
    let victory = grid.victory_achieved().unwrap();
    assert!(victory.result);
    assert_eq!(victory.player, Some(PlayerSide::Red));
    let numbered = grid.victory_achieved_js().unwrap();
    assert!(numbered.result());
    assert_eq!(numbered.player(), 0);
}

#[test]
fn filled_game_without_victory_has_no_winner() {
    let (_, _, grid) = filled_game_without_victory();
    let victory = grid.victory_achieved().unwrap();
    assert!(!victory.result);
    assert_eq!(victory.player, None);
    let numbered = grid.victory_achieved_js().unwrap();
    assert!(!numbered.result());
    assert_eq!(numbered.player(), -1);
}

#[test]
fn black_victory_alignment_is_detected() {
    let (red, black, mut grid) = started();
    place_all(
        &mut grid,
        &red,
        &black,
        [(0, 0), (0, 2), (1, 1), (1, 5), (2, 3), (2, 8), (3, 7), (3, 4)],
    );
    // black holds 2, 5, 8: the right column; red holds 0, 1, 3, 7.
    let victory = grid.victory_achieved().unwrap();
    assert_eq!(victory.player, Some(PlayerSide::Black));
    assert_eq!(grid.victory_achieved_js().unwrap().player(), 1);
}

#[test]
fn changing_the_phase() {
    let (_, _, mut started_grid) = started();
    assert_eq!(
        started_grid.change_grid_phase().err().unwrap().code(),
        "red_player_unset_tokens"
    );
    let (_, _, mut grid) = filled_game_without_victory();
    let phase = grid.change_grid_phase().unwrap().phase_value();
    assert_eq!(phase, BoardPhase::Movement);
    assert_eq!(grid.phase_value(), BoardPhase::Movement);
    assert_eq!(grid.change_grid_phase().err().unwrap().code(), "wrong_grid_phase");
}

#[test]
fn moving_a_token_to_an_adjacent_free_position() {
    let (red, _, mut grid) = filled_game_without_victory();
    grid.change_grid_phase().unwrap();
    // red token 2 stands at 4; position 5 is free and next to it.
    let placement = grid.move_token(&red, 2, 5).unwrap();
    assert_eq!(placement.turn(), 8);
    assert_eq!(placement.position(), 5);
    assert_eq!(placement.mode(), BoardPhase::Movement);
    assert_eq!(grid.placements().last(), Some(&placement));
    assert_eq!(grid.red_token_position(2).unwrap(), Some(5));
    assert_eq!(grid.active_player_value(), PlayerSide::Black);
}

#[test]
fn movement_errors() {
    let (red, black, mut grid) = filled_game_without_victory();
    // red: 0, 2, 4, 7; black: 1, 3, 6, 8; free: 5.
    assert_eq!(grid.move_token(&black, 0, 5).unwrap_err().code(), "wrong_player_turn");
    assert_eq!(grid.move_token(&red, 0, 5).unwrap_err().code(), "movement_not_adjacent");
    assert_eq!(grid.move_token(&red, 0, 0).unwrap_err().code(), "same_position_not_allowed");
    assert_eq!(grid.move_token(&red, 0, 4).unwrap_err().code(), "illegal_red_token_movement");
    assert_eq!(grid.move_token(&red, 0, 1).unwrap_err().code(), "illegal_black_token_movement");
    assert_eq!(grid.move_token(&red, 0, 12).unwrap_err().code(), "invalid_token_position");
    assert_eq!(grid.move_token(&red, 6, 5).unwrap_err().code(), "token_not_owned_by_player");
}

#[test]
fn moving_an_unplaced_token_is_refused() {
    let (red, _, mut grid) = started();
    assert_eq!(grid.move_token(&red, 0, 4).unwrap_err().code(), "movement_not_adjacent");
}

#[test]
fn labels_are_decided_by_their_white_space_flags() {
    assert!(!label_accepted(&vec![]));
    assert!(!label_accepted(&vec![true, true, true]));
    assert!(label_accepted(&vec![true, false, true]));
    assert!(label_accepted(&vec![false; 35]));
    assert!(!label_accepted(&vec![false; 36]));
}

#[test]
fn each_definition_takes_a_fresh_identity() {
    let mut ids = IdentitySource::new();
    assert_eq!(ids.next_identity(), 1);
    let a = define_player_domain(PlayerSide::Red, "Same", &mut ids).unwrap();
    assert_eq!(ids.next_identity(), 2);
    assert!(define_player_domain(PlayerSide::Red, " ", &mut ids).is_err());
    assert_eq!(ids.next_identity(), 2);
    let b = define_player_domain(PlayerSide::Red, "Same", &mut ids).unwrap();
    assert_eq!(ids.next_identity(), 3);
    // Same side and label, yet distinct players: they can play each other.
    assert!(start_game_domain(&a, &b).is_ok());
    assert!(start_game_domain(&b, &a).is_ok());
    assert_eq!(start_game_domain(&a, &a).err().unwrap(), DomainError::AdversarySamePlayer);
    let copy = a.clone();
    assert_eq!(start_game_domain(&a, &copy).err().unwrap(), DomainError::AdversarySamePlayer);
}
