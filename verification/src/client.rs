//! What the one who drives a session works out before anything is sent: the
//! bytes of each operation, whether a guess can win at all, and when to stop
//! waiting for a game to reach a phase.

use crate::entrypoint::{
    pack_game_instruction, pack_vrf_instruction, packed_game_instruction,
    packed_vrf_instruction,
};
use crate::instruction::{GameInstruction, VrfInstruction, VrfInstructionView};
use crate::state::GameState;
use vstd::prelude::*;

verus! {

/// How often a game record is looked at before the wait is given up.
pub const MAX_POLLS: u32 = 30;

/// The seconds to sleep between two looks.
pub const POLL_INTERVAL_SECS: u64 = 2;

/// The bytes that open a session.
pub fn initialize_vrf_data() -> (bytes: Vec<u8>)
    ensures
        bytes@ == packed_vrf_instruction(VrfInstructionView::Initialize),
{
    pack_vrf_instruction(&VrfInstruction::Initialize).unwrap()
}

/// The bytes that open a game.
pub fn initialize_game_data() -> (bytes: Vec<u8>)
    ensures
        bytes@ == packed_game_instruction(GameInstruction::InitializeGame),
{
    pack_game_instruction(&GameInstruction::InitializeGame)
}

/// The bytes that commit to `seed`; none where the seed is too long for its
/// length prefix.
pub fn request_randomness_data(seed: Vec<u8>) -> (r: Option<Vec<u8>>)
    ensures
        match r {
            Some(bytes) => seed@.len() <= crate::codec::MAX_LEN && bytes@
                == packed_vrf_instruction(VrfInstructionView::RequestRandomness { seed: seed@ }),
            None => seed@.len() > crate::codec::MAX_LEN,
        },
{
    pack_vrf_instruction(&VrfInstruction::RequestRandomness { seed })
}

/// The bytes that reveal `proof`.
pub fn fulfill_randomness_data(proof: [u8; 64]) -> (bytes: Vec<u8>)
    ensures
        bytes@ == packed_vrf_instruction(VrfInstructionView::FulfillRandomness { proof: proof@ }),
{
    pack_vrf_instruction(&VrfInstruction::FulfillRandomness { proof }).unwrap()
}

/// The bytes that play `guess`.
pub fn submit_guess_data(guess: u8) -> (bytes: Vec<u8>)
    ensures
        bytes@ == packed_game_instruction(GameInstruction::SubmitGuess { guess }),
{
    pack_game_instruction(&GameInstruction::SubmitGuess { guess })
}

/// Whether `guess` is a number that a game can come to: one of `0..100`.
pub fn guess_in_range(guess: u8) -> (valid: bool)
    ensures
        valid == (guess < 100),
{
    guess <= 99
}

/// What to do after a look at a game record.
#[derive(Clone, Copy, Debug, PartialEq, Eq, Structural)]
pub enum WaitStep {
    /// The game is in the awaited phase.
    Reached,
    /// Sleep for the interval and look again.
    Retry,
    /// Sleep for the interval and give up.
    TimedOut,
}

/// Decides how a wait for `expected` goes on after the look number `polls`
/// (counted from one) found the game in `observed`: the wait ends where the
/// phases agree, and is given up after `MAX_POLLS` looks.
pub fn wait_step(polls: u32, observed: GameState, expected: GameState) -> (step: WaitStep)
    ensures
        step == if observed == expected {
            WaitStep::Reached
        } else if polls < MAX_POLLS {
            WaitStep::Retry
        } else {
            WaitStep::TimedOut
        },
{
    if observed == expected {
        WaitStep::Reached
    } else if polls < MAX_POLLS {
        WaitStep::Retry
    } else {
        WaitStep::TimedOut
    }
}

} // verus!
