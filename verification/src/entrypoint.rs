//! Where an operation comes in: its first byte names the domain, the game's or
//! the randomness record's; the bytes after it are the operation of that domain.

use crate::account::{accounts_view, AccountInfo, AccountView, Pubkey};
use crate::error::{ProgramError, VrfError};
use crate::instruction::{GameInstruction, VrfInstruction, VrfInstructionView};
use crate::processor::{
    invalid_instruction, outcome, process_game_instruction, process_game_instruction_result,
    process_instruction_result,
};
use vstd::prelude::*;

verus! {

/// The first byte of an operation on a game record.
pub const GAME_DOMAIN: u8 = 0;

/// The first byte of an operation on a randomness record.
pub const VRF_DOMAIN: u8 = 1;

/// What the operation `instruction_data` does to `accounts`: the step of the
/// domain that its first byte names, on the bytes after it. No bytes at all, and
/// a first byte that names no domain, are no operation.
pub open spec fn dispatch_result(
    program_id: Seq<u8>,
    accounts: Seq<AccountView>,
    instruction_data: Seq<u8>,
) -> Result<Seq<AccountView>, ProgramError> {
    if instruction_data.len() == 0 {
        Err(invalid_instruction())
    } else if instruction_data[0] == GAME_DOMAIN {
        process_game_instruction_result(program_id, accounts, instruction_data.skip(1))
    } else if instruction_data[0] == VRF_DOMAIN {
        process_instruction_result(program_id, accounts, instruction_data.skip(1))
    } else {
        Err(invalid_instruction())
    }
}

/// Runs the operation that `instruction_data` encodes on `accounts`. It is done
/// in full, or it fails and every account stays as it was.
pub fn process_instruction(
    program_id: &Pubkey,
    accounts: &mut Vec<AccountInfo>,
    instruction_data: &[u8],
) -> (r: Result<(), ProgramError>)
    ensures
        outcome(
            r,
            accounts_view(old(accounts)@),
            accounts_view(final(accounts)@),
            dispatch_result(program_id@, accounts_view(old(accounts)@), instruction_data@),
        ),
{
    if instruction_data.len() == 0 {
        return Err(ProgramError::from(VrfError::InvalidInstruction));
    }
    let domain = instruction_data[0];
    let rest = vstd::slice::slice_subrange(instruction_data, 1, instruction_data.len());
    if domain == GAME_DOMAIN {
        process_game_instruction(program_id, accounts, rest)
    } else if domain == VRF_DOMAIN {
        crate::processor::process_instruction(program_id, accounts, rest)
    } else {
        Err(ProgramError::from(VrfError::InvalidInstruction))
    }
}

/// An operation on a game record as it is sent: the domain byte, then the
/// operation.
pub open spec fn packed_game_instruction(instruction: GameInstruction) -> Seq<u8> {
    seq![GAME_DOMAIN] + instruction.encode()
}

/// An operation on a randomness record as it is sent: the domain byte, then the
/// operation.
pub open spec fn packed_vrf_instruction(instruction: VrfInstructionView) -> Seq<u8> {
    seq![VRF_DOMAIN] + instruction.encode()
}

/// The bytes to send for `instruction`.
pub fn pack_game_instruction(instruction: &GameInstruction) -> (bytes: Vec<u8>)
    ensures
        bytes@ == packed_game_instruction(*instruction),
{
    let mut bytes: Vec<u8> = Vec::new();
    bytes.push(GAME_DOMAIN);
    let mut body = instruction.to_vec();
    bytes.append(&mut body);
    assert(bytes@ =~= packed_game_instruction(*instruction));
    bytes
}

/// The bytes to send for `instruction`, unless its seed is too long for a
/// length prefix.
pub fn pack_vrf_instruction(instruction: &VrfInstruction) -> (r: Option<Vec<u8>>)
    ensures
        match r {
            Some(bytes) => instruction@.well_formed() && bytes@ == packed_vrf_instruction(
                instruction@,
            ),
            None => !instruction@.well_formed(),
        },
{
    match instruction.try_to_vec() {
        None => None,
        Some(mut body) => {
            let mut bytes: Vec<u8> = Vec::new();
            bytes.push(VRF_DOMAIN);
            bytes.append(&mut body);
            assert(bytes@ =~= packed_vrf_instruction(instruction@));
            Some(bytes)
        },
    }
}

/// A packed operation on a game record is run as that operation.
pub proof fn lemma_packed_game_instruction_runs(
    program_id: Seq<u8>,
    accounts: Seq<AccountView>,
    instruction: GameInstruction,
)
    ensures
        dispatch_result(program_id, accounts, packed_game_instruction(instruction))
            == process_game_instruction_result(program_id, accounts, instruction.encode()),
        GameInstruction::decode(instruction.encode()) == Some(instruction),
{
    assert(packed_game_instruction(instruction).skip(1) =~= instruction.encode());
    instruction.lemma_round_trip();
}

/// A packed operation on a randomness record is run as that operation.
pub proof fn lemma_packed_vrf_instruction_runs(
    program_id: Seq<u8>,
    accounts: Seq<AccountView>,
    instruction: VrfInstructionView,
)
    requires
        instruction.well_formed(),
    ensures
        dispatch_result(program_id, accounts, packed_vrf_instruction(instruction))
            == process_instruction_result(program_id, accounts, instruction.encode()),
        VrfInstructionView::decode(instruction.encode()) == Some(instruction),
{
    assert(packed_vrf_instruction(instruction).skip(1) =~= instruction.encode());
    instruction.lemma_round_trip();
}

} // verus!
