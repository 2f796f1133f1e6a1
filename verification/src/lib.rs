//! Commit-reveal rock-paper-scissors: the match lifecycle engine.
//!
//! A game moves through the phases `Initiate`, `Choose`, `Reveal` and
//! `Finished`. Every phase waits for each player once; commitments bind a
//! player to a hidden weapon until the reveal, and the winner is folded out
//! of the revealed weapons in join order.

pub mod commitment;
pub mod error;
pub mod game;
pub mod intake;
pub mod pallet;
pub mod resolver;
pub mod table;
pub mod weapon;

pub use commitment::{hash_choice, verify_and_reveal, Choice, H256};
pub use error::Error;
pub use game::{AccountId, Game, MatchState, NO_PLAYER};
pub use intake::{MatchIntake, MAX_GAMES_PER_BLOCK};
pub use pallet::{Event, NonceDefault, Pallet};
pub use weapon::{game_logic, WeaponType};
