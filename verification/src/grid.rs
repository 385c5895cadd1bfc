//! The Achi grid aggregate: turns, placement, movement, victory and phases.
use vstd::prelude::*;

use crate::board::{
    adjacent_in, adjacents_from_alignments, all_positions, alignments_model, edges_of,
    pairs_model, positions_model, standard_alignments, standard_positions,
    victory_alignments, BoardPhase, PlayerSide, TokenPosition, BOARD_POSITION_COUNT,
    TOKEN_COUNT_PER_PLAYER,
};
use crate::error::DomainError;
use crate::player::{all_set, fresh_tokens, occupied, Player, PlayerModel};

verus! {

/// The abstract content of a placement record.
pub struct PlacementModel {
    pub turn: u8,
    pub mode: BoardPhase,
    pub player_side: PlayerSide,
    pub token_index: usize,
    pub position: int,
}

/// A placement record produced when a token position changes.
#[derive(Clone, Copy, Debug, PartialEq, Eq, Structural)]
pub struct Placement {
    turn: u8,
    mode: BoardPhase,
    player_side: PlayerSide,
    token_index: usize,
    position: TokenPosition,
}

impl View for Placement {
    type V = PlacementModel;

    closed spec fn view(&self) -> PlacementModel {
        PlacementModel {
            turn: self.turn,
            mode: self.mode,
            player_side: self.player_side,
            token_index: self.token_index,
            position: self.position@,
        }
    }
}

impl Placement {
    /// A record of a token of `player_side` set to `position` at `turn`,
    /// by a placement or by a movement as `mode` says.
    pub(crate) fn new(turn: u8, mode: BoardPhase, player_side: PlayerSide, token_index: usize, position: TokenPosition) -> (p: Self)
        ensures
            p@ == (PlacementModel { turn, mode, player_side, token_index, position: position@ }),
    {
        Placement { turn, mode, player_side, token_index, position }
    }

    /// The turn number of this record.
    pub fn turn(&self) -> (t: u8)
        ensures
            t == self@.turn,
    {
        self.turn
    }

    /// How the token was set: `Placement` for a placement, `Movement` for
    /// a move.
    pub fn mode(&self) -> (m: BoardPhase)
        ensures
            m == self@.mode,
    {
        self.mode
    }

    /// The side whose token was set.
    pub fn player_side(&self) -> (s: PlayerSide)
        ensures
            s == self@.player_side,
    {
        self.player_side
    }

    /// The index of the token that was set.
    pub fn token_index(&self) -> (i: usize)
        ensures
            i == self@.token_index,
    {
        self.token_index
    }

    /// The position the token was set to.
    pub fn position(&self) -> (v: u8)
        ensures
            v == self@.position,
            v < BOARD_POSITION_COUNT,
    {
        self.position.value()
    }
}

/// Result of the `victoryAchieved` behavior.
#[derive(Clone, Debug, PartialEq, Eq, Structural)]
pub struct Victory {
    /// Whether any player currently has a victory alignment.
    pub result: bool,
    /// The winning player side when `result` is true.
    pub player: Option<PlayerSide>,
}

/// The number that stands for an optional winner in a [`VictoryResult`]:
/// red is 0, black is 1, no winner is -1.
pub open spec fn winner_code(player: Option<PlayerSide>) -> i8 {
    match player {
        Some(PlayerSide::Red) => 0i8,
        Some(PlayerSide::Black) => 1i8,
        None => -1i8,
    }
}

/// Result of the `victoryAchieved` behavior with the winner as a number.
#[derive(Clone, Debug, PartialEq, Eq, Structural)]
pub struct VictoryResult {
    result: bool,
    player: i8,
}

impl View for VictoryResult {
    type V = (bool, i8);

    closed spec fn view(&self) -> (bool, i8) {
        (self.result, self.player)
    }
}

impl VictoryResult {
    /// Whether a player has a victory alignment.
    pub fn result(&self) -> (r: bool)
        ensures
            r == self@.0,
    {
        self.result
    }

    /// The winner: 0 for red, 1 for black, -1 for none.
    pub fn player(&self) -> (p: i8)
        ensures
            p == self@.1,
    {
        self.player
    }
}

/// Whether the token positions `tokens` cover all three positions of some
/// alignment of `als`.
pub open spec fn aligned(tokens: Seq<Option<int>>, als: Seq<(int, int, int)>) -> bool {
    exists|k: int|
        0 <= k < als.len() && occupied(tokens, als[k].0) && occupied(tokens, als[k].1)
            && occupied(tokens, als[k].2)
}

/// The abstract state of a grid.
pub struct GridModel {
    pub positions: Seq<int>,
    pub phase: BoardPhase,
    pub active_player: PlayerSide,
    pub adjacents: Seq<(int, int)>,
    pub alignments: Seq<(int, int, int)>,
    pub red: PlayerModel,
    pub black: PlayerModel,
    pub placements: Seq<PlacementModel>,
}

/// The grid that a new game starts with, its adjacency held as `adjacents`.
pub open spec fn initial_grid(red: PlayerModel, black: PlayerModel, adjacents: Seq<(int, int)>) -> GridModel {
    GridModel {
        positions: standard_positions(),
        phase: BoardPhase::Placement,
        active_player: PlayerSide::Red,
        adjacents,
        alignments: standard_alignments(),
        red,
        black,
        placements: seq![],
    }
}

impl GridModel {
    /// The player of `side`.
    pub open spec fn player(self, side: PlayerSide) -> PlayerModel {
        match side {
            PlayerSide::Red => self.red,
            PlayerSide::Black => self.black,
        }
    }

    /// This grid with the player of `side` replaced by `p`.
    pub open spec fn with_player(self, side: PlayerSide, p: PlayerModel) -> GridModel {
        match side {
            PlayerSide::Red => GridModel { red: p, ..self },
            PlayerSide::Black => GridModel { black: p, ..self },
        }
    }

    /// The side whose token stands at `position`, red checked first.
    pub open spec fn occupant(self, position: int) -> Option<PlayerSide> {
        if occupied(self.red.tokens, position) {
            Some(PlayerSide::Red)
        } else if occupied(self.black.tokens, position) {
            Some(PlayerSide::Black)
        } else {
            None
        }
    }

    /// Whether `a` and `b` are adjacent on this grid.
    pub open spec fn adjacent(self, a: int, b: int) -> bool {
        adjacent_in(self.adjacents, a, b)
    }

    /// Whether the tokens of `side` cover a victory alignment.
    pub open spec fn has_alignment(self, side: PlayerSide) -> bool {
        aligned(self.player(side).tokens, self.alignments)
    }

    /// The side of this grid that `player` is: its side, when the grid's
    /// player of that side has its identity.
    pub open spec fn input_side(self, player: PlayerModel) -> Result<PlayerSide, DomainError> {
        match player.side {
            PlayerSide::Red => if self.red.id == player.id {
                Ok(PlayerSide::Red)
            } else {
                Err(DomainError::TokenNotOwnedByPlayer)
            },
            PlayerSide::Black => if self.black.id == player.id {
                Ok(PlayerSide::Black)
            } else {
                Err(DomainError::TokenNotOwnedByPlayer)
            },
        }
    }

    /// The placement rule: it must be `side`'s turn, and the target free.
    pub open spec fn place_rule(self, side: PlayerSide, position: int) -> Result<(), DomainError> {
        if self.active_player != side {
            Err(DomainError::WrongPlayerTurn)
        } else {
            match self.occupant(position) {
                Some(PlayerSide::Red) => Err(DomainError::IllegalRedTokenPlacement),
                Some(PlayerSide::Black) => Err(DomainError::IllegalBlackTokenPlacement),
                None => Ok(()),
            }
        }
    }

    /// The movement rule: it must be `side`'s turn; the token must exist and
    /// be placed; the target must differ from where it stands, be free, and
    /// be adjacent to where it stands.
    pub open spec fn move_rule(self, side: PlayerSide, token_index: int, position: int) -> Result<(), DomainError> {
        if self.active_player != side {
            Err(DomainError::WrongPlayerTurn)
        } else if !(0 <= token_index < self.player(side).tokens.len()) {
            Err(DomainError::TokenNotOwnedByPlayer)
        } else {
            match self.player(side).tokens[token_index] {
                None => Err(DomainError::MovementNotAdjacent),
                Some(current) => if current == position {
                    Err(DomainError::SamePositionNotAllowed)
                } else {
                    match self.occupant(position) {
                        Some(PlayerSide::Red) => Err(DomainError::IllegalRedTokenMovement),
                        Some(PlayerSide::Black) => Err(DomainError::IllegalBlackTokenMovement),
                        None => if self.adjacent(current, position) {
                            Ok(())
                        } else {
                            Err(DomainError::MovementNotAdjacent)
                        },
                    }
                },
            }
        }
    }

    /// What `placeToken` decides: the acting side, or the first rule broken.
    pub open spec fn place_outcome(self, player: PlayerModel, token_index: usize, position: u8) -> Result<PlayerSide, DomainError> {
        match self.input_side(player) {
            Err(e) => Err(e),
            Ok(side) => if position >= BOARD_POSITION_COUNT {
                Err(DomainError::InvalidTokenPosition)
            } else {
                match self.place_rule(side, position as int) {
                    Err(e) => Err(e),
                    Ok(_) => if token_index >= self.player(side).tokens.len() {
                        Err(DomainError::TokenNotOwnedByPlayer)
                    } else {
                        Ok(side)
                    },
                }
            },
        }
    }

    /// What `moveToken` decides: the acting side, or the first rule broken.
    pub open spec fn move_outcome(self, player: PlayerModel, token_index: usize, position: u8) -> Result<PlayerSide, DomainError> {
        match self.input_side(player) {
            Err(e) => Err(e),
            Ok(side) => if position >= BOARD_POSITION_COUNT {
                Err(DomainError::InvalidTokenPosition)
            } else {
                match self.move_rule(side, token_index as int, position as int) {
                    Err(e) => Err(e),
                    Ok(_) => Ok(side),
                }
            },
        }
    }

    /// The record of the next turn, made by a placement or a movement as
    /// `mode` says.
    pub open spec fn next_placement(self, side: PlayerSide, token_index: usize, position: int, mode: BoardPhase) -> PlacementModel {
        PlacementModel {
            turn: (self.placements.len() % 256) as u8,
            mode,
            player_side: side,
            token_index,
            position,
        }
    }

    /// The grid after `side` sets its token `token_index` to `position` by
    /// a placement or movement as `mode` says: the token moves, the turn is
    /// recorded and the opponent is active.
    pub open spec fn after_turn(self, side: PlayerSide, token_index: usize, position: int, mode: BoardPhase) -> GridModel {
        let p = self.player(side);
        let moved = PlayerModel { tokens: p.tokens.update(token_index as int, Some(position)), ..p };
        let g = self.with_player(side, moved);
        GridModel {
            active_player: side.opposite(),
            placements: self.placements.push(self.next_placement(side, token_index, position, mode)),
            ..g
        }
    }

    /// What `victoryAchieved` answers.
    pub open spec fn victory_outcome(self) -> Result<Victory, DomainError> {
        if !all_set(self.red.tokens) {
            Err(DomainError::RedPlayerUnsetTokens)
        } else if !all_set(self.black.tokens) {
            Err(DomainError::BlackPlayerUnsetTokens)
        } else if self.has_alignment(PlayerSide::Red) {
            Ok(Victory { result: true, player: Some(PlayerSide::Red) })
        } else if self.has_alignment(PlayerSide::Black) {
            Ok(Victory { result: true, player: Some(PlayerSide::Black) })
        } else {
            Ok(Victory { result: false, player: None })
        }
    }

    /// What `changeGridPhase` decides.
    pub open spec fn phase_change_outcome(self) -> Result<(), DomainError> {
        if self.phase != BoardPhase::Placement {
            Err(DomainError::WrongGridPhase)
        } else if !all_set(self.red.tokens) {
            Err(DomainError::RedPlayerUnsetTokens)
        } else if !all_set(self.black.tokens) {
            Err(DomainError::BlackPlayerUnsetTokens)
        } else {
            Ok(())
        }
    }
}

/// No two placed tokens of `tokens` share a position.
pub open spec fn apart_within(tokens: Seq<Option<int>>) -> bool {
    forall|i: int, j: int|
        0 <= i < tokens.len() && 0 <= j < tokens.len() && i != j && #[trigger] tokens[i] is Some
            ==> tokens[i] != #[trigger] tokens[j]
}

/// No placed token of `xs` shares a position with a token of `ys`.
pub open spec fn apart_between(xs: Seq<Option<int>>, ys: Seq<Option<int>>) -> bool {
    forall|i: int, j: int|
        0 <= i < xs.len() && 0 <= j < ys.len() && #[trigger] xs[i] is Some ==> xs[i]
            != #[trigger] ys[j]
}

/// Every placed token of `tokens` stands on one of the nine positions.
pub open spec fn on_board(tokens: Seq<Option<int>>) -> bool {
    forall|i: int|
        0 <= i < tokens.len() && #[trigger] tokens[i] is Some ==> 0 <= tokens[i]->0
            < BOARD_POSITION_COUNT
}

/// The board is consistent: every placed token stands on the board and no
/// two placed tokens, of either side, share a position.
pub open spec fn board_consistent(g: GridModel) -> bool {
    &&& apart_within(g.red.tokens)
    &&& apart_within(g.black.tokens)
    &&& apart_between(g.red.tokens, g.black.tokens)
    &&& on_board(g.red.tokens)
    &&& on_board(g.black.tokens)
}

/// The side to play after `n` recorded turns: red after an even number,
/// black after an odd one.
pub open spec fn side_to_play(n: nat) -> PlayerSide {
    if n % 2 == 0 {
        PlayerSide::Red
    } else {
        PlayerSide::Black
    }
}

/// Where the history `h` last set token `index` of `side`, if it ever did.
pub open spec fn recorded_position(h: Seq<PlacementModel>, side: PlayerSide, index: int) -> Option<int>
    decreases h.len(),
{
    if h.len() == 0 {
        None
    } else if h.last().player_side == side && h.last().token_index == index {
        Some(h.last().position)
    } else {
        recorded_position(h.drop_last(), side, index)
    }
}

/// The history explains the board: every token of each player stands where
/// the last record of it put it, and is unplaced when there is none.
pub open spec fn history_explains(g: GridModel) -> bool {
    &&& forall|i: int|
        0 <= i < g.red.tokens.len() ==> #[trigger] g.red.tokens[i] == recorded_position(
            g.placements,
            PlayerSide::Red,
            i,
        )
    &&& forall|i: int|
        0 <= i < g.black.tokens.len() ==> #[trigger] g.black.tokens[i] == recorded_position(
            g.placements,
            PlayerSide::Black,
            i,
        )
}

/// Turns alternate, red first: record `k` was made by the side to play
/// after `k` records, and the side to play now follows the number of
/// records.
pub open spec fn turns_alternate(g: GridModel) -> bool {
    &&& g.active_player == side_to_play(g.placements.len())
    &&& forall|k: int|
        0 <= k < g.placements.len() ==> #[trigger] g.placements[k].player_side == side_to_play(
            k as nat,
        )
}

/// Record `k` carries the turn number `k` modulo 256.
pub open spec fn records_numbered(g: GridModel) -> bool {
    forall|k: int| 0 <= k < g.placements.len() ==> #[trigger] g.placements[k].turn == (k % 256) as u8
}

impl GridModel {
    /// The shape every grid has: the nine positions in order, the eight
    /// victory alignments, the adjacency they induce, four tokens per player,
    /// and two players of distinct identities.
    pub open spec fn shaped(self) -> bool {
        &&& self.positions == standard_positions()
        &&& self.alignments == standard_alignments()
        &&& edges_of(self.adjacents, self.alignments)
        &&& self.red.tokens.len() == TOKEN_COUNT_PER_PLAYER
        &&& self.black.tokens.len() == TOKEN_COUNT_PER_PLAYER
        &&& self.red.id != self.black.id
    }

    /// A grid of a game begun by newly defined players: it is shaped, turns
    /// alternate, records are numbered in order, the board is consistent,
    /// and the history explains the board.
    pub open spec fn well_formed(self) -> bool {
        &&& self.shaped()
        &&& turns_alternate(self)
        &&& records_numbered(self)
        &&& board_consistent(self)
        &&& history_explains(self)
    }
}

/// The Achi grid aggregate.
///
/// The grid owns the active phase, active player, legal positions, adjacency
/// pairs, victory alignments, player snapshots, and placement history.
#[derive(Debug)]
pub struct Grid {
    positions: Vec<TokenPosition>,
    phase: BoardPhase,
    active_player: PlayerSide,
    adjacents: Vec<(TokenPosition, TokenPosition)>,
    victory_alignments: Vec<[TokenPosition; 3]>,
    red_player: Player,
    black_player: Player,
    placements: Vec<Placement>,
}

impl View for Grid {
    type V = GridModel;

    closed spec fn view(&self) -> GridModel {
        GridModel {
            positions: positions_model(self.positions@),
            phase: self.phase,
            active_player: self.active_player,
            adjacents: pairs_model(self.adjacents@),
            alignments: alignments_model(self.victory_alignments@),
            red: self.red_player@,
            black: self.black_player@,
            placements: self.placements@.map_values(|p: Placement| p@),
        }
    }
}

impl Grid {
    /// Every grid is shaped.
    #[verifier::type_invariant]
    spec fn is_shaped(self) -> bool {
        self@.shaped()
    }

    /// Returns the current grid phase.
    pub fn phase_value(&self) -> (p: BoardPhase)
        ensures
            self@.shaped(),
            p == self@.phase,
    {
        proof {
            use_type_invariant(self);
        }
        self.phase
    }

    /// Returns the side whose turn is currently active.
    pub fn active_player_value(&self) -> (s: PlayerSide)
        ensures
            self@.shaped(),
            s == self@.active_player,
    {
        proof {
            use_type_invariant(self);
        }
        self.active_player
    }

    /// Returns the red player associated with this grid.
    pub fn red_player(&self) -> (p: &Player)
        ensures
            self@.shaped(),
            p@ == self@.red,
    {
        proof {
            use_type_invariant(self);
        }
        &self.red_player
    }

    /// Returns the black player associated with this grid.
    pub fn black_player(&self) -> (p: &Player)
        ensures
            self@.shaped(),
            p@ == self@.black,
    {
        proof {
            use_type_invariant(self);
        }
        &self.black_player
    }

    /// Returns the placement history recorded by placement and movement.
    pub fn placements(&self) -> (h: &[Placement])
        ensures
            self@.shaped(),
            h@.map_values(|p: Placement| p@) == self@.placements,
    {
        proof {
            use_type_invariant(self);
        }
        self.placements.as_slice()
    }

    /// Returns the current grid phase.
    pub fn phase(&self) -> (p: BoardPhase)
        ensures
            self@.shaped(),
            p == self@.phase,
    {
        proof {
            use_type_invariant(self);
        }
        self.phase
    }

    /// Returns the side whose turn is currently active.
    pub fn active_player(&self) -> (s: PlayerSide)
        ensures
            self@.shaped(),
            s == self@.active_player,
    {
        proof {
            use_type_invariant(self);
        }
        self.active_player
    }

    /// Returns the number of positions of the grid.
    pub fn position_count(&self) -> (n: usize)
        ensures
            self@.shaped(),
            n == self@.positions.len(),
    {
        proof {
            use_type_invariant(self);
        }
        self.positions.len()
    }

    /// Returns the number of victory alignments of the grid.
    pub fn victory_alignment_count(&self) -> (n: usize)
        ensures
            self@.shaped(),
            n == self@.alignments.len(),
    {
        proof {
            use_type_invariant(self);
        }
        self.victory_alignments.len()
    }

    /// Returns the number of placement records.
    pub fn placement_count(&self) -> (n: usize)
        ensures
            self@.shaped(),
            n == self@.placements.len(),
    {
        proof {
            use_type_invariant(self);
        }
        self.placements.len()
    }

    /// The position of red token `index`, or `TokenNotOwnedByPlayer`.
    pub fn red_token_position(&self, index: usize) -> (r: Result<Option<u8>, DomainError>)
        ensures
            self@.shaped(),
            index < self@.red.tokens.len() ==> (r matches Ok(v) && crate::board::same_position(
                v,
                self@.red.tokens[index as int],
            )),
            index >= self@.red.tokens.len() ==> r == Err::<Option<u8>, DomainError>(
                DomainError::TokenNotOwnedByPlayer,
            ),
    {
        proof {
            use_type_invariant(self);
        }
        self.red_player.token_position_js(index)
    }

    /// The position of black token `index`, or `TokenNotOwnedByPlayer`.
    pub fn black_token_position(&self, index: usize) -> (r: Result<Option<u8>, DomainError>)
        ensures
            self@.shaped(),
            index < self@.black.tokens.len() ==> (r matches Ok(v) && crate::board::same_position(
                v,
                self@.black.tokens[index as int],
            )),
            index >= self@.black.tokens.len() ==> r == Err::<Option<u8>, DomainError>(
                DomainError::TokenNotOwnedByPlayer,
            ),
    {
        proof {
            use_type_invariant(self);
        }
        self.black_player.token_position_js(index)
    }

    /// The player of `side`.
    fn player(&self, side: PlayerSide) -> (p: &Player)
        ensures
            p@ == self@.player(side),
    {
        match side {
            PlayerSide::Red => &self.red_player,
            PlayerSide::Black => &self.black_player,
        }
    }

    /// The side of this grid that `player` is.
    fn player_from_input(&self, player: &Player) -> (r: Result<PlayerSide, DomainError>)
        ensures
            r == self@.input_side(player@),
    {
        match player.side_value() {
            PlayerSide::Red => if self.red_player.id() == player.id() {
                Ok(PlayerSide::Red)
            } else {
                Err(DomainError::TokenNotOwnedByPlayer)
            },
            PlayerSide::Black => if self.black_player.id() == player.id() {
                Ok(PlayerSide::Black)
            } else {
                Err(DomainError::TokenNotOwnedByPlayer)
            },
        }
    }

    /// The side whose token stands at `position`.
    fn is_occupied(&self, position: TokenPosition) -> (r: Option<PlayerSide>)
        ensures
            r == self@.occupant(position@),
    {
        if self.red_player.occupies(position) {
            Some(PlayerSide::Red)
        } else if self.black_player.occupies(position) {
            Some(PlayerSide::Black)
        } else {
            None
        }
    }

    /// Whether `from` and `to` are adjacent.
    fn is_adjacent(&self, from: TokenPosition, to: TokenPosition) -> (adj: bool)
        ensures
            adj == self@.adjacent(from@, to@),
    {
        let n = self.adjacents.len();
        for i in 0..n
            invariant
                n == self.adjacents@.len(),
                forall|k: int|
                    0 <= k < i ==> self@.adjacents[k] != (from@, to@) && self@.adjacents[k] != (
                        to@,
                        from@,
                    ),
        {
            let (a, b) = self.adjacents[i];
            if (a.value() == from.value() && b.value() == to.value()) || (a.value() == to.value()
                && b.value() == from.value()) {
                assert(self@.adjacents[i as int] == (a@, b@));
                return true;
            }
        }
        false
    }

    /// Records a turn of `side` and returns the record.
    fn append_placement(&mut self, side: PlayerSide, token_index: usize, position: TokenPosition, mode: BoardPhase) -> (p: Placement)
        ensures
            p@ == old(self)@.next_placement(side, token_index, position@, mode),
            final(self)@ == (GridModel {
                placements: old(self)@.placements.push(p@),
                ..old(self)@
            }),
    {
        proof {
            use_type_invariant(&*self);
        }
        let turn = (self.placements.len() % 256) as u8;
        let p = Placement::new(turn, mode, side, token_index, position);
        let mut history: Vec<Placement> = Vec::new();
        std::mem::swap(&mut history, &mut self.placements);
        history.push(p);
        self.placements = history;
        assert(self@.placements =~= old(self)@.placements.push(p@));
        p
    }

    /// Checks the placement rule for `side` at `position`.
    fn validate_place_token(&self, side: PlayerSide, position: TokenPosition) -> (r: Result<(), DomainError>)
        ensures
            r == self@.place_rule(side, position@),
    {
        if self.active_player != side {
            return Err(DomainError::WrongPlayerTurn);
        }
        match self.is_occupied(position) {
            Some(PlayerSide::Red) => Err(DomainError::IllegalRedTokenPlacement),
            Some(PlayerSide::Black) => Err(DomainError::IllegalBlackTokenPlacement),
            None => Ok(()),
        }
    }

    /// Checks the movement rule for token `token_index` of `side`.
    fn validate_move_token(&self, side: PlayerSide, token_index: usize, position: TokenPosition) -> (r: Result<(), DomainError>)
        ensures
            r == self@.move_rule(side, token_index as int, position@),
    {
        if self.active_player != side {
            return Err(DomainError::WrongPlayerTurn);
        }
        let token = match self.player(side).token(token_index) {
            Ok(t) => t,
            Err(e) => return Err(e),
        };
        let current = match token.current() {
            Some(c) => c,
            None => return Err(DomainError::MovementNotAdjacent),
        };
        if current.value() == position.value() {
            return Err(DomainError::SamePositionNotAllowed);
        }
        match self.is_occupied(position) {
            Some(PlayerSide::Red) => return Err(DomainError::IllegalRedTokenMovement),
            Some(PlayerSide::Black) => return Err(DomainError::IllegalBlackTokenMovement),
            None => {},
        }
        if !self.is_adjacent(current, position) {
            return Err(DomainError::MovementNotAdjacent);
        }
        Ok(())
    }

    /// Sets token `token_index` of `side` to `position`, or answers
    /// `TokenNotOwnedByPlayer` when that player has no such token.
    fn set_player_token(&mut self, side: PlayerSide, token_index: usize, position: TokenPosition) -> (r: Result<(), DomainError>)
        ensures
            token_index < old(self)@.player(side).tokens.len() ==> (r is Ok && final(self)@
                == old(self)@.with_player(
                side,
                PlayerModel {
                    tokens: old(self)@.player(side).tokens.update(
                        token_index as int,
                        Some(position@),
                    ),
                    ..old(self)@.player(side)
                },
            )),
            token_index >= old(self)@.player(side).tokens.len() ==> (r == Err::<(), DomainError>(
                DomainError::TokenNotOwnedByPlayer,
            ) && final(self)@ == old(self)@),
    {
        proof {
            use_type_invariant(&*self);
        }
        match side {
            PlayerSide::Red => {
                if token_index >= self.red_player.token_count() {
                    return Err(DomainError::TokenNotOwnedByPlayer);
                }
                self.red_player.set_token_position(token_index, position);
            },
            PlayerSide::Black => {
                if token_index >= self.black_player.token_count() {
                    return Err(DomainError::TokenNotOwnedByPlayer);
                }
                self.black_player.set_token_position(token_index, position);
            },
        }
        Ok(())
    }

    /// Implements the `placeToken` behavior.
    ///
    /// The behavior requires the active player's turn and an unoccupied target
    /// position, then records the placement, sets the token position, and
    /// advances the active player. A refused request changes nothing.
    pub fn place_token(&mut self, player: &Player, token_index: usize, position: u8) -> (r: Result<Placement, DomainError>)
        ensures
            (match old(self)@.place_outcome(player@, token_index, position) {
                Ok(side) => (r matches Ok(p) && p@ == old(self)@.next_placement(
                    side,
                    token_index,
                    position as int,
                    BoardPhase::Placement,
                ) && final(self)@ == old(self)@.after_turn(
                    side,
                    token_index,
                    position as int,
                    BoardPhase::Placement,
                )),
                Err(e) => r == Err::<Placement, DomainError>(e) && final(self)@ == old(self)@,
            }),
            final(self)@.shaped(),
            old(self)@.well_formed() ==> final(self)@.well_formed(),
            turns_alternate(old(self)@) ==> turns_alternate(final(self)@),
            records_numbered(old(self)@) ==> records_numbered(final(self)@),
            history_explains(old(self)@) ==> history_explains(final(self)@),
    {
        proof {
            use_type_invariant(&*self);
        }
        let side = match self.player_from_input(player) {
            Ok(s) => s,
            Err(e) => return Err(e),
        };
        let target = match TokenPosition::try_from(position) {
            Ok(p) => p,
            Err(e) => return Err(e),
        };
        match self.validate_place_token(side, target) {
            Ok(()) => {},
            Err(e) => return Err(e),
        }
        match self.set_player_token(side, token_index, target) {
            Ok(()) => {},
            Err(e) => return Err(e),
        }
        let placement = self.append_placement(side, token_index, target, BoardPhase::Placement);
        self.active_player = self.active_player.opponent();
        proof {
            assert(self@.placements =~= old(self)@.after_turn(side, token_index, target@, BoardPhase::Placement).placements);
            crate::laws::turn_keeps_shape(old(self)@, side, token_index, target@, BoardPhase::Placement);
            if records_numbered(old(self)@) {
                crate::laws::turn_keeps_numbering(old(self)@, side, token_index, target@, BoardPhase::Placement);
            }
            if turns_alternate(old(self)@) {
                crate::laws::turn_of_side_to_play_keeps_alternation(old(self)@, side, token_index, target@, BoardPhase::Placement);
            }
            if history_explains(old(self)@) {
                crate::laws::turn_keeps_history(old(self)@, side, token_index, target@, BoardPhase::Placement);
            }
            if old(self)@.well_formed() {
                crate::laws::placement_keeps_well_formed(old(self)@, player@, token_index, position, side);
            }
        }
        Ok(placement)
    }

    /// Implements the `moveToken` behavior.
    ///
    /// The behavior requires the active player's turn, an unoccupied target,
    /// a different position, and adjacency from the token's current position;
    /// the move is recorded with the mode `Movement`. A refused request
    /// changes nothing.
    pub fn move_token(&mut self, player: &Player, token_index: usize, position: u8) -> (r: Result<Placement, DomainError>)
        ensures
            (match old(self)@.move_outcome(player@, token_index, position) {
                Ok(side) => (r matches Ok(p) && p@ == old(self)@.next_placement(
                    side,
                    token_index,
                    position as int,
                    BoardPhase::Movement,
                ) && final(self)@ == old(self)@.after_turn(
                    side,
                    token_index,
                    position as int,
                    BoardPhase::Movement,
                )),
                Err(e) => r == Err::<Placement, DomainError>(e) && final(self)@ == old(self)@,
            }),
            final(self)@.shaped(),
            old(self)@.well_formed() ==> final(self)@.well_formed(),
            turns_alternate(old(self)@) ==> turns_alternate(final(self)@),
            records_numbered(old(self)@) ==> records_numbered(final(self)@),
            history_explains(old(self)@) ==> history_explains(final(self)@),
    {
        proof {
            use_type_invariant(&*self);
        }
        let side = match self.player_from_input(player) {
            Ok(s) => s,
            Err(e) => return Err(e),
        };
        let target = match TokenPosition::try_from(position) {
            Ok(p) => p,
            Err(e) => return Err(e),
        };
        match self.validate_move_token(side, token_index, target) {
            Ok(()) => {},
            Err(e) => return Err(e),
        }
        match self.set_player_token(side, token_index, target) {
            Ok(()) => {},
            Err(e) => return Err(e),
        }
        let placement = self.append_placement(side, token_index, target, BoardPhase::Movement);
        self.active_player = self.active_player.opponent();
        proof {
            assert(self@.placements =~= old(self)@.after_turn(side, token_index, target@, BoardPhase::Movement).placements);
            crate::laws::turn_keeps_shape(old(self)@, side, token_index, target@, BoardPhase::Movement);
            if records_numbered(old(self)@) {
                crate::laws::turn_keeps_numbering(old(self)@, side, token_index, target@, BoardPhase::Movement);
            }
            if turns_alternate(old(self)@) {
                crate::laws::turn_of_side_to_play_keeps_alternation(old(self)@, side, token_index, target@, BoardPhase::Movement);
            }
            if history_explains(old(self)@) {
                crate::laws::turn_keeps_history(old(self)@, side, token_index, target@, BoardPhase::Movement);
            }
            if old(self)@.well_formed() {
                crate::laws::movement_keeps_well_formed(old(self)@, player@, token_index, position, side);
            }
        }
        Ok(placement)
    }

    /// Implements the `victoryAchieved` behavior.
    ///
    /// The behavior requires all red and black tokens to have positions before
    /// evaluating the grid's victory alignments; red is checked first.
    pub fn victory_achieved(&self) -> (r: Result<Victory, DomainError>)
        ensures
            self@.shaped(),
            r == self@.victory_outcome(),
    {
        proof {
            use_type_invariant(self);
        }
        if self.red_player.any_token_unset() {
            return Err(DomainError::RedPlayerUnsetTokens);
        }
        if self.black_player.any_token_unset() {
            return Err(DomainError::BlackPlayerUnsetTokens);
        }
        if self.has_victory(PlayerSide::Red) {
            Ok(Victory { result: true, player: Some(PlayerSide::Red) })
        } else if self.has_victory(PlayerSide::Black) {
            Ok(Victory { result: true, player: Some(PlayerSide::Black) })
        } else {
            Ok(Victory { result: false, player: None })
        }
    }

    /// The `victoryAchieved` behavior with the winner given as a number:
    /// 0 for red, 1 for black, -1 for none.
    pub fn victory_achieved_js(&self) -> (r: Result<VictoryResult, DomainError>)
        ensures
            self@.shaped(),
            (match self@.victory_outcome() {
                Ok(v) => (r matches Ok(vr) && vr@ == (v.result, winner_code(v.player))),
                Err(e) => r == Err::<VictoryResult, DomainError>(e),
            }),
    {
        proof {
            use_type_invariant(self);
        }
        let victory = match self.victory_achieved() {
            Ok(v) => v,
            Err(e) => return Err(e),
        };
        let player: i8 = match victory.player {
            Some(PlayerSide::Red) => 0i8,
            Some(PlayerSide::Black) => 1i8,
            None => -1i8,
        };
        Ok(VictoryResult { result: victory.result, player })
    }

    /// Implements the `changeGridPhase` behavior.
    ///
    /// The behavior transitions the same grid from placement to movement after
    /// all player tokens have been positioned. A refused request changes
    /// nothing.
    pub fn change_grid_phase(&mut self) -> (r: Result<&Grid, DomainError>)
        ensures
            (match old(self)@.phase_change_outcome() {
                Ok(_) => (r matches Ok(g) && g@ == (GridModel {
                    phase: BoardPhase::Movement,
                    ..old(self)@
                })) && final(self)@ == (GridModel { phase: BoardPhase::Movement, ..old(self)@ }),
                Err(e) => r == Err::<&Grid, DomainError>(e) && final(self)@ == old(self)@,
            }),
            final(self)@.shaped(),
            old(self)@.well_formed() ==> final(self)@.well_formed(),
            turns_alternate(old(self)@) ==> turns_alternate(final(self)@),
            records_numbered(old(self)@) ==> records_numbered(final(self)@),
            history_explains(old(self)@) ==> history_explains(final(self)@),
    {
        proof {
            use_type_invariant(&*self);
        }
        if self.phase != BoardPhase::Placement {
            return Err(DomainError::WrongGridPhase);
        }
        if !self.red_player.all_tokens_set() {
            return Err(DomainError::RedPlayerUnsetTokens);
        }
        if !self.black_player.all_tokens_set() {
            return Err(DomainError::BlackPlayerUnsetTokens);
        }
        self.phase = BoardPhase::Movement;
        proof {
            if old(self)@.well_formed() {
                crate::laws::phase_change_keeps_well_formed(old(self)@);
            }
        }
        Ok(self)
    }

    /// Whether the tokens of `side` cover a victory alignment.
    fn has_victory(&self, side: PlayerSide) -> (won: bool)
        ensures
            won == self@.has_alignment(side),
    {
        let player = self.player(side);
        let n = self.victory_alignments.len();
        for i in 0..n
            invariant
                n == self.victory_alignments@.len(),
                player@ == self@.player(side),
                forall|k: int|
                    0 <= k < i ==> !(occupied(player@.tokens, self@.alignments[k].0) && occupied(
                        player@.tokens,
                        self@.alignments[k].1,
                    ) && occupied(player@.tokens, self@.alignments[k].2)),
        {
            let al = self.victory_alignments[i];
            if player.occupies(al[0]) && player.occupies(al[1]) && player.occupies(al[2]) {
                assert(self@.alignments[i as int] == (al@[0]@, al@[1]@, al@[2]@));
                return true;
            }
            assert(self@.alignments[i as int] == (al@[0]@, al@[1]@, al@[2]@));
        }
        false
    }
}

/// A copy of the vector `v`.
fn copy_vec<T: Copy>(v: &Vec<T>) -> (r: Vec<T>)
    ensures
        r@ == v@,
{
    let mut r: Vec<T> = Vec::new();
    let n = v.len();
    for i in 0..n
        invariant
            n == v@.len(),
            r@ == v@.take(i as int),
    {
        r.push(v[i]);
        assert(r@ =~= v@.take(i + 1));
    }
    assert(v@.take(n as int) =~= v@);
    r
}

impl Clone for Grid {
    /// A copy of this grid, equal to it.
    fn clone(&self) -> (g: Self)
        ensures
            g@ == self@,
    {
        proof {
            use_type_invariant(self);
        }
        Grid {
            positions: copy_vec(&self.positions),
            phase: self.phase,
            active_player: self.active_player,
            adjacents: copy_vec(&self.adjacents),
            victory_alignments: copy_vec(&self.victory_alignments),
            red_player: self.red_player.duplicate(),
            black_player: self.black_player.duplicate(),
            placements: copy_vec(&self.placements),
        }
    }
}

/// Implements the `startGame` behavior: a placement-phase grid, red to
/// play, for two players of distinct identities. The same player as both
/// adversaries is refused with `AdversarySamePlayer`.
pub fn start_game_domain(red_player: &Player, black_player: &Player) -> (r: Result<Grid, DomainError>)
    ensures
        red_player@.id == black_player@.id ==> r == Err::<Grid, DomainError>(
            DomainError::AdversarySamePlayer,
        ),
        red_player@.id != black_player@.id ==> (r matches Ok(g) && edges_of(
            g@.adjacents,
            standard_alignments(),
        ) && g@ == initial_grid(red_player@, black_player@, g@.adjacents)),
        r matches Ok(g) ==> g@.shaped() && turns_alternate(g@) && records_numbered(g@),
        r matches Ok(g) ==> (red_player@.tokens == fresh_tokens() && black_player@.tokens
            == fresh_tokens() ==> g@.well_formed()),
{
    if red_player.id() == black_player.id() {
        return Err(DomainError::AdversarySamePlayer);
    }
    let positions = all_positions();
    let victory_alignments = victory_alignments();
    let adjacents = adjacents_from_alignments(victory_alignments.as_slice());
    let g = Grid {
        positions,
        phase: BoardPhase::Placement,
        active_player: PlayerSide::Red,
        adjacents,
        victory_alignments,
        red_player: red_player.duplicate(),
        black_player: black_player.duplicate(),
        placements: Vec::new(),
    };
    assert(g@.placements =~= Seq::<PlacementModel>::empty());
    proof {
        if red_player@.tokens == fresh_tokens() && black_player@.tokens == fresh_tokens() {
            crate::laws::start_is_well_formed(red_player@, black_player@, g@.adjacents);
        }
    }
    Ok(g)
}

} // verus!
