//! A commit-reveal randomness record and the guessing game that it gates.
//!
//! An authority commits to a seed and later reveals a proof; the randomness of
//! the session is derived from the two, and a player's guess against the number
//! that the randomness stands for decides the game. The records of a session
//! live in accounts of a host runtime; every operation loads them, applies one
//! step and stores them again, or fails and changes nothing.
//!
//! The module `wager` holds a second, smaller game on one account: stakes on
//! numbers that are drawn from a stored seed and can be checked against it.

pub mod account;
pub mod client;
pub mod codec;
pub mod entrypoint;
pub mod error;
pub mod instruction;
pub mod processor;
pub mod randomness;
pub mod state;
pub mod wager;

pub use crate::account::{AccountInfo, Pubkey};
pub use crate::entrypoint::process_instruction;
pub use crate::error::{DecodeError, ProgramError, VrfError};
pub use crate::instruction::{GameInstruction, VrfInstruction};
pub use crate::processor::{
    process_game_instruction, process_instruction as processor_process_instruction,
};
pub use crate::randomness::derive_randomness;
pub use crate::state::{
    calculate_game_number, GameAccountState, GameResult, GameState, VrfAccountState,
};
