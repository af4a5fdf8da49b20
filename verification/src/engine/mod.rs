//! The rules of no-limit hold'em.
pub mod betting;
pub mod dealing;
pub mod events;
pub mod fair_play;
pub mod laws;
pub mod pots;
pub mod seats;
pub mod showdown;
pub mod state;

pub use showdown::{HandRank, ShowdownInput, ShowdownResult};
pub use betting::{EngineActionResult, EngineError, PokerEngine};
pub use state::{
    BettingRoundState, Card, DealingState, EngineState, HandState, PotLayer, PotState, SidePot,
};
