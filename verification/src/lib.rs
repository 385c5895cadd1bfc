//! Achi rules engine: players, tokens, the nine-position grid, placement,
//! movement, victory and phase changes, with their contracts proved by Verus.
use vstd::prelude::*;

pub mod board;
pub mod error;
pub mod grid;
pub mod laws;
pub mod player;

pub use board::{BoardPhase, PlayerSide, Token, TokenPosition};
pub use error::DomainError;
pub use grid::{start_game_domain, Grid, Placement, Victory, VictoryResult};
pub use player::{define_player_domain, IdentitySource, Player};

verus! {

} // verus!
