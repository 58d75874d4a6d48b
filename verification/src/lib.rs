pub mod engine;
pub mod hashing;
pub mod laws;
pub mod model;
pub mod types;

pub use engine::AppState;
pub use types::{Blocker, Config, Event, GameError, Player, Position, VariantCfg};
