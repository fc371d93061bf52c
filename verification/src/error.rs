//! The failures that an operation can end in.

use vstd::prelude::*;

verus! {

/// What the protocol itself objects to.
#[derive(Clone, Copy, Debug, PartialEq, Eq, Structural)]
pub enum VrfError {
    /// The operation's bytes name no operation.
    InvalidInstruction,
    /// The proof was not accepted.
    InvalidProof,
    /// The acting identity is not the record's authority.
    InvalidAuthority,
    /// The game is not in the phase that the operation needs: a guess where none
    /// is awaited, or a reveal on a complete game.
    InvalidGameState,
    /// The game holds no randomness yet.
    RandomnessNotAvailable,
}

impl VrfError {
    /// The number under which the host reports the error: the variant's position.
    pub open spec fn spec_code(self) -> u32 {
        match self {
            VrfError::InvalidInstruction => 0,
            VrfError::InvalidProof => 1,
            VrfError::InvalidAuthority => 2,
            VrfError::InvalidGameState => 3,
            VrfError::RandomnessNotAvailable => 4,
        }
    }

    /// The number under which the host reports the error.
    #[verifier::when_used_as_spec(spec_code)]
    pub fn code(self) -> (code: u32)
        ensures
            code == self.spec_code(),
    {
        match self {
            VrfError::InvalidInstruction => 0,
            VrfError::InvalidProof => 1,
            VrfError::InvalidAuthority => 2,
            VrfError::InvalidGameState => 3,
            VrfError::RandomnessNotAvailable => 4,
        }
    }

    /// The error in words.
    pub fn message(&self) -> (text: String)
        ensures
            text@ == match *self {
                VrfError::InvalidInstruction => "Invalid instruction"@,
                VrfError::InvalidProof => "Invalid VRF proof"@,
                VrfError::InvalidAuthority => "Not a valid authority"@,
                VrfError::InvalidGameState => "Game is in an invalid state"@,
                VrfError::RandomnessNotAvailable => "Randomness not yet available"@,
            },
    {
        match self {
            VrfError::InvalidInstruction => "Invalid instruction".to_owned(),
            VrfError::InvalidProof => "Invalid VRF proof".to_owned(),
            VrfError::InvalidAuthority => "Not a valid authority".to_owned(),
            VrfError::InvalidGameState => "Game is in an invalid state".to_owned(),
            VrfError::RandomnessNotAvailable => "Randomness not yet available".to_owned(),
        }
    }
}

/// Stored bytes that are no record, or a record that has no encoding.
#[derive(Clone, Copy, Debug, PartialEq, Eq, Structural)]
pub struct DecodeError {}

/// The failures that the host runtime knows, as far as the operations use them.
#[derive(Clone, Copy, Debug, PartialEq, Eq, Structural)]
pub enum ProgramError {
    /// A failure of the protocol, by its number.
    Custom(u32),
    /// A reveal came before any commitment: there is no seed to derive from.
    InvalidArgument,
    /// The operation's bytes are not an operation.
    InvalidInstructionData,
    /// The balance does not cover the stake.
    InsufficientFunds,
    /// A record's storage belongs to another program.
    IncorrectProgramId,
    /// The acting identity has not signed.
    MissingRequiredSignature,
    /// The record was initialized before.
    AccountAlreadyInitialized,
    /// Fewer records were passed than the operation touches.
    NotEnoughAccountKeys,
    /// Stored bytes are no record, or a record cannot be encoded.
    BorshIoError,
    /// A counter or a balance left its range.
    ArithmeticOverflow,
}

impl From<VrfError> for ProgramError {
    fn from(e: VrfError) -> (error: ProgramError) {
        ProgramError::Custom(e.code())
    }
}

impl vstd::std_specs::convert::FromSpecImpl<VrfError> for ProgramError {
    open spec fn obeys_from_spec() -> bool {
        true
    }

    open spec fn from_spec(e: VrfError) -> ProgramError {
        ProgramError::Custom(e.spec_code())
    }
}

impl From<DecodeError> for ProgramError {
    fn from(e: DecodeError) -> (error: ProgramError) {
        ProgramError::BorshIoError
    }
}

impl vstd::std_specs::convert::FromSpecImpl<DecodeError> for ProgramError {
    open spec fn obeys_from_spec() -> bool {
        true
    }

    open spec fn from_spec(e: DecodeError) -> ProgramError {
        ProgramError::BorshIoError
    }
}

} // verus!
