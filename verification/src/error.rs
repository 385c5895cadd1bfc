//! Rule failures of the Achi engine and their stable string codes.
use vstd::prelude::*;

verus! {

/// Domain behavior failure codes.
///
/// Each variant names a rule that a request broke; the codes returned by
/// [`DomainError::code`] are the exception names of the domain.
#[derive(Clone, Copy, Debug, PartialEq, Eq, Structural)]
pub enum DomainError {
    InvalidPlayerLabel,
    InvalidTokenPosition,
    AdversarySamePlayer,
    WrongPlayerTurn,
    IllegalRedTokenPlacement,
    IllegalBlackTokenPlacement,
    IllegalRedTokenMovement,
    IllegalBlackTokenMovement,
    SamePositionNotAllowed,
    MovementNotAdjacent,
    RedPlayerUnsetTokens,
    BlackPlayerUnsetTokens,
    WrongGridPhase,
    TokenNotOwnedByPlayer,
}

/// The stable code of each error: the exception name in snake case.
pub open spec fn error_code(e: DomainError) -> Seq<char> {
    match e {
        DomainError::InvalidPlayerLabel => "invalid_player_label"@,
        DomainError::InvalidTokenPosition => "invalid_token_position"@,
        DomainError::AdversarySamePlayer => "adversary_same_player"@,
        DomainError::WrongPlayerTurn => "wrong_player_turn"@,
        DomainError::IllegalRedTokenPlacement => "illegal_red_token_placement"@,
        DomainError::IllegalBlackTokenPlacement => "illegal_black_token_placement"@,
        DomainError::IllegalRedTokenMovement => "illegal_red_token_movement"@,
        DomainError::IllegalBlackTokenMovement => "illegal_black_token_movement"@,
        DomainError::SamePositionNotAllowed => "same_position_not_allowed"@,
        DomainError::MovementNotAdjacent => "movement_not_adjacent"@,
        DomainError::RedPlayerUnsetTokens => "red_player_unset_tokens"@,
        DomainError::BlackPlayerUnsetTokens => "black_player_unset_tokens"@,
        DomainError::WrongGridPhase => "wrong_grid_phase"@,
        DomainError::TokenNotOwnedByPlayer => "token_not_owned_by_player"@,
    }
}

impl DomainError {
    /// Returns the stable string code of this error.
    pub fn code(self) -> (code: &'static str)
        ensures
            code@ == error_code(self),
    {
        match self {
            DomainError::InvalidPlayerLabel => "invalid_player_label",
            DomainError::InvalidTokenPosition => "invalid_token_position",
            DomainError::AdversarySamePlayer => "adversary_same_player",
            DomainError::WrongPlayerTurn => "wrong_player_turn",
            DomainError::IllegalRedTokenPlacement => "illegal_red_token_placement",
            DomainError::IllegalBlackTokenPlacement => "illegal_black_token_placement",
            DomainError::IllegalRedTokenMovement => "illegal_red_token_movement",
            DomainError::IllegalBlackTokenMovement => "illegal_black_token_movement",
            DomainError::SamePositionNotAllowed => "same_position_not_allowed",
            DomainError::MovementNotAdjacent => "movement_not_adjacent",
            DomainError::RedPlayerUnsetTokens => "red_player_unset_tokens",
            DomainError::BlackPlayerUnsetTokens => "black_player_unset_tokens",
            DomainError::WrongGridPhase => "wrong_grid_phase",
            DomainError::TokenNotOwnedByPlayer => "token_not_owned_by_player",
        }
    }
}

/// Distinct errors have distinct codes, so a code names its error.
pub proof fn error_codes_are_distinct(a: DomainError, b: DomainError)
    requires
        a != b,
    ensures
        error_code(a) != error_code(b),
{
    reveal_strlit("invalid_player_label");
    reveal_strlit("invalid_token_position");
    reveal_strlit("adversary_same_player");
    reveal_strlit("wrong_player_turn");
    reveal_strlit("illegal_red_token_placement");
    reveal_strlit("illegal_black_token_placement");
    reveal_strlit("illegal_red_token_movement");
    reveal_strlit("illegal_black_token_movement");
    reveal_strlit("same_position_not_allowed");
    reveal_strlit("movement_not_adjacent");
    reveal_strlit("red_player_unset_tokens");
    reveal_strlit("black_player_unset_tokens");
    reveal_strlit("wrong_grid_phase");
    reveal_strlit("token_not_owned_by_player");
    if error_code(a) == error_code(b) {
        assert(error_code(a).len() == error_code(b).len());
        assert(error_code(a)[0] == error_code(b)[0]);
        assert(error_code(a)[6] == error_code(b)[6]);
        assert(error_code(a)[8] == error_code(b)[8]);
        assert(error_code(a)[12] == error_code(b)[12]);
    }
}

} // verus!
