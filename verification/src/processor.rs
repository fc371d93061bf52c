//! The operations on the accounts of a session: each one checks who acts and whose
//! storage it touches, loads the records, applies the step and stores them again.
//! An operation that fails leaves every account as it was.
//!
//! What each operation does is stated once, as a function from the accounts
//! before to the accounts after or the error (`*_result`); the executable
//! operations are proved to do exactly that.

use crate::account::{accounts_view, store, AccountInfo, AccountView, Pubkey};
use crate::codec::MAX_LEN;
use crate::error::{ProgramError, VrfError};
use crate::instruction::{GameInstruction, VrfInstruction, VrfInstructionView};
use crate::randomness::spec_derive_randomness;
use crate::state::{
    invalid_authority, invalid_game_state, GameAccountState, GameAccountView, GameResult,
    GameState, VrfAccountState, VrfAccountView,
};
use vstd::prelude::*;

verus! {

/// The error of bytes that name no operation.
pub open spec fn invalid_instruction() -> ProgramError {
    ProgramError::Custom(VrfError::InvalidInstruction.spec_code())
}

/// An operation did what `expected` says: it succeeded with those accounts, or
/// it failed with that error and changed nothing.
pub open spec fn outcome(
    r: Result<(), ProgramError>,
    before: Seq<AccountView>,
    after: Seq<AccountView>,
    expected: Result<Seq<AccountView>, ProgramError>,
) -> bool {
    match expected {
        Ok(accounts) => r is Ok && after == accounts,
        Err(e) => r == Err::<(), ProgramError>(e) && after == before,
    }
}

/// The stored bytes are a randomness record that was initialized.
pub open spec fn holds_initialized_vrf(data: Seq<u8>) -> bool {
    VrfAccountView::decode(data) matches Some(record) && record.is_initialized
}

/// The stored bytes are a game record that was initialized.
pub open spec fn holds_initialized_game(data: Seq<u8>) -> bool {
    GameAccountView::decode(data) matches Some(record) && record.is_initialized
}

/// Opening a session. Accounts: the authority, the randomness record.
pub open spec fn initialize_vrf_result(program_id: Seq<u8>, accounts: Seq<AccountView>) -> Result<
    Seq<AccountView>,
    ProgramError,
> {
    if accounts.len() < 2 {
        Err(ProgramError::NotEnoughAccountKeys)
    } else if !accounts[0].is_signer {
        Err(ProgramError::MissingRequiredSignature)
    } else if accounts[1].owner != program_id {
        Err(ProgramError::IncorrectProgramId)
    } else if holds_initialized_vrf(accounts[1].data) {
        Err(ProgramError::AccountAlreadyInitialized)
    } else {
        Ok(accounts.update(1, accounts[1].with_data(VrfAccountView::fresh(accounts[0].key).encode())))
    }
}

/// The game record that a commitment resets: the stored one, or a new one of the
/// acting authority where nothing is stored yet.
pub open spec fn game_to_reset(authority: Seq<u8>, data: Seq<u8>) -> Option<GameAccountView> {
    if data.len() == 0 {
        Some(GameAccountView::fresh(authority))
    } else {
        GameAccountView::decode(data)
    }
}

/// Committing to a seed. Accounts: the authority, the randomness record, the game
/// record.
pub open spec fn request_randomness_result(
    program_id: Seq<u8>,
    accounts: Seq<AccountView>,
    seed: Seq<u8>,
) -> Result<Seq<AccountView>, ProgramError> {
    if accounts.len() < 3 {
        Err(ProgramError::NotEnoughAccountKeys)
    } else if !accounts[0].is_signer {
        Err(ProgramError::MissingRequiredSignature)
    } else if accounts[1].owner != program_id || accounts[2].owner != program_id {
        Err(ProgramError::IncorrectProgramId)
    } else {
        match VrfAccountView::decode(accounts[1].data) {
            None => Err(ProgramError::BorshIoError),
            Some(vrf) => if vrf.authority != accounts[0].key {
                Err(invalid_authority())
            } else {
                match game_to_reset(accounts[0].key, accounts[2].data) {
                    None => Err(ProgramError::BorshIoError),
                    Some(game) => if seed.len() > MAX_LEN {
                        Err(ProgramError::BorshIoError)
                    } else {
                        Ok(
                            accounts.update(
                                1,
                                accounts[1].with_data(vrf.committed(seed).encode()),
                            ).update(2, accounts[2].with_data(game.reset().encode())),
                        )
                    },
                }
            },
        }
    }
}

/// Revealing a proof. Accounts: the authority, the randomness record, the game
/// record. A game that is complete is not moved back: the reveal is refused and
/// both records stay as they were.
pub open spec fn fulfill_randomness_result(
    program_id: Seq<u8>,
    accounts: Seq<AccountView>,
    proof: Seq<u8>,
) -> Result<Seq<AccountView>, ProgramError> {
    if accounts.len() < 3 {
        Err(ProgramError::NotEnoughAccountKeys)
    } else if !accounts[0].is_signer {
        Err(ProgramError::MissingRequiredSignature)
    } else if accounts[1].owner != program_id || accounts[2].owner != program_id {
        Err(ProgramError::IncorrectProgramId)
    } else {
        match VrfAccountView::decode(accounts[1].data) {
            None => Err(ProgramError::BorshIoError),
            Some(vrf) => if vrf.authority != accounts[0].key {
                Err(invalid_authority())
            } else {
                match vrf.seed {
                    None => Err(ProgramError::InvalidArgument),
                    Some(seed) => match GameAccountView::decode(accounts[2].data) {
                        None => Err(ProgramError::BorshIoError),
                        Some(game) => {
                            let randomness = spec_derive_randomness(proof, seed);
                            match game.received(randomness) {
                                Err(e) => Err(e),
                                Ok(awaiting) => Ok(
                                    accounts.update(
                                        1,
                                        accounts[1].with_data(
                                            vrf.revealed(proof, randomness).encode(),
                                        ),
                                    ).update(2, accounts[2].with_data(awaiting.encode())),
                                ),
                            }
                        },
                    },
                }
            },
        }
    }
}

/// Opening a game. Accounts: the authority, the game record.
pub open spec fn initialize_game_result(program_id: Seq<u8>, accounts: Seq<AccountView>) -> Result<
    Seq<AccountView>,
    ProgramError,
> {
    if accounts.len() < 2 {
        Err(ProgramError::NotEnoughAccountKeys)
    } else if !accounts[0].is_signer {
        Err(ProgramError::MissingRequiredSignature)
    } else if accounts[1].owner != program_id {
        Err(ProgramError::IncorrectProgramId)
    } else if holds_initialized_game(accounts[1].data) {
        Err(ProgramError::AccountAlreadyInitialized)
    } else {
        Ok(
            accounts.update(
                1,
                accounts[1].with_data(GameAccountView::fresh(accounts[0].key).encode()),
            ),
        )
    }
}

/// Playing a guess. Accounts: the player, who has to be the game's authority;
/// the game record; the randomness record (whose storage has to be this
/// program's; what it holds is not read).
pub open spec fn submit_guess_result(
    program_id: Seq<u8>,
    accounts: Seq<AccountView>,
    guess: u8,
) -> Result<Seq<AccountView>, ProgramError> {
    if accounts.len() < 3 {
        Err(ProgramError::NotEnoughAccountKeys)
    } else if !accounts[0].is_signer {
        Err(ProgramError::MissingRequiredSignature)
    } else if accounts[1].owner != program_id || accounts[2].owner != program_id {
        Err(ProgramError::IncorrectProgramId)
    } else {
        match GameAccountView::decode(accounts[1].data) {
            None => Err(ProgramError::BorshIoError),
            Some(game) => match game.played(accounts[0].key, guess) {
                Err(e) => Err(e),
                Ok(complete) => Ok(accounts.update(1, accounts[1].with_data(complete.encode()))),
            },
        }
    }
}

/// An operation on a randomness record, from its bytes.
pub open spec fn process_instruction_result(
    program_id: Seq<u8>,
    accounts: Seq<AccountView>,
    instruction_data: Seq<u8>,
) -> Result<Seq<AccountView>, ProgramError> {
    match VrfInstructionView::decode(instruction_data) {
        None => Err(invalid_instruction()),
        Some(VrfInstructionView::Initialize) => initialize_vrf_result(program_id, accounts),
        Some(VrfInstructionView::RequestRandomness { seed }) => request_randomness_result(
            program_id,
            accounts,
            seed,
        ),
        Some(VrfInstructionView::FulfillRandomness { proof }) => fulfill_randomness_result(
            program_id,
            accounts,
            proof,
        ),
    }
}

/// An operation on a game record, from its bytes.
pub open spec fn process_game_instruction_result(
    program_id: Seq<u8>,
    accounts: Seq<AccountView>,
    instruction_data: Seq<u8>,
) -> Result<Seq<AccountView>, ProgramError> {
    match GameInstruction::decode(instruction_data) {
        None => Err(invalid_instruction()),
        Some(GameInstruction::InitializeGame) => initialize_game_result(program_id, accounts),
        Some(GameInstruction::SubmitGuess { guess }) => submit_guess_result(
            program_id,
            accounts,
            guess,
        ),
    }
}

/// Runs the operation on a randomness record that `instruction_data` encodes.
/// Bytes that are no operation are refused with `InvalidInstruction` before any
/// account is looked at.
pub fn process_instruction(
    program_id: &Pubkey,
    accounts: &mut Vec<AccountInfo>,
    instruction_data: &[u8],
) -> (r: Result<(), ProgramError>)
    ensures
        outcome(
            r,
            accounts_view(old(accounts)@),
            accounts_view(final(accounts)@),
            process_instruction_result(
                program_id@,
                accounts_view(old(accounts)@),
                instruction_data@,
            ),
        ),
{
    let instruction = match VrfInstruction::try_from_slice(instruction_data) {
        Ok(instruction) => instruction,
        Err(_) => {
            return Err(ProgramError::from(VrfError::InvalidInstruction));
        },
    };
    match instruction {
        VrfInstruction::Initialize => initialize_vrf(program_id, accounts),
        VrfInstruction::RequestRandomness { seed } => request_randomness(
            program_id,
            accounts,
            seed,
        ),
        VrfInstruction::FulfillRandomness { proof } => fulfill_randomness(
            program_id,
            accounts,
            proof,
        ),
    }
}

/// Opens a session: stores a new randomness record whose authority is the first
/// account, which has to sign. A record that was initialized before is not
/// overwritten.
pub fn initialize_vrf(program_id: &Pubkey, accounts: &mut Vec<AccountInfo>) -> (r: Result<
    (),
    ProgramError,
>)
    ensures
        outcome(
            r,
            accounts_view(old(accounts)@),
            accounts_view(final(accounts)@),
            initialize_vrf_result(program_id@, accounts_view(old(accounts)@)),
        ),
{
    if accounts.len() < 2 {
        return Err(ProgramError::NotEnoughAccountKeys);
    }
    if !accounts[0].is_signer {
        return Err(ProgramError::MissingRequiredSignature);
    }
    if accounts[1].owner != *program_id {
        return Err(ProgramError::IncorrectProgramId);
    }
    if let Ok(stored) = VrfAccountState::try_from_slice(accounts[1].data.as_slice()) {
        if stored.is_initialized {
            return Err(ProgramError::AccountAlreadyInitialized);
        }
    }
    let record = VrfAccountState::new(accounts[0].key);
    let bytes = record.try_to_vec().unwrap();
    store(accounts, 1, bytes);
    Ok(())
}

/// Commits the session to `seed` and starts a round of the game: the randomness
/// record takes the seed and drops what was revealed before, the game record
/// awaits randomness again. Both are written, or neither.
pub fn request_randomness(
    program_id: &Pubkey,
    accounts: &mut Vec<AccountInfo>,
    seed: Vec<u8>,
) -> (r: Result<(), ProgramError>)
    ensures
        outcome(
            r,
            accounts_view(old(accounts)@),
            accounts_view(final(accounts)@),
            request_randomness_result(program_id@, accounts_view(old(accounts)@), seed@),
        ),
{
    if accounts.len() < 3 {
        return Err(ProgramError::NotEnoughAccountKeys);
    }
    if !accounts[0].is_signer {
        return Err(ProgramError::MissingRequiredSignature);
    }
    if accounts[1].owner != *program_id || accounts[2].owner != *program_id {
        return Err(ProgramError::IncorrectProgramId);
    }
    let authority = accounts[0].key;
    let mut vrf_state = match VrfAccountState::try_from_slice(accounts[1].data.as_slice()) {
        Ok(record) => record,
        Err(_) => {
            return Err(ProgramError::BorshIoError);
        },
    };
    if let Err(e) = vrf_state.commit(seed, &authority) {
        return Err(e);
    }
    let mut game_state = if accounts[2].data_is_empty() {
        GameAccountState::new(authority)
    } else {
        match GameAccountState::try_from_slice(accounts[2].data.as_slice()) {
            Ok(record) => record,
            Err(_) => {
                return Err(ProgramError::BorshIoError);
            },
        }
    };
    game_state.reset();
    proof {
        VrfAccountView::lemma_decode_is_inverse(old(accounts)@[1].data@);
    }
    let vrf_bytes = match vrf_state.try_to_vec() {
        Some(bytes) => bytes,
        None => {
            return Err(ProgramError::BorshIoError);
        },
    };
    let game_bytes = game_state.to_vec();
    store(accounts, 1, vrf_bytes);
    assert(accounts@[2]@ == accounts_view(accounts@)[2]);
    store(accounts, 2, game_bytes);
    Ok(())
}

/// Reveals `proof`: derives the randomness from the proof and the committed seed,
/// stores proof and randomness in the randomness record, and hands the randomness
/// to the game record, which then awaits the player's guess. A complete game is
/// not reopened by a reveal (`InvalidGameState`): that takes a new commitment.
/// Both records are written, or neither.
pub fn fulfill_randomness(
    program_id: &Pubkey,
    accounts: &mut Vec<AccountInfo>,
    proof: [u8; 64],
) -> (r: Result<(), ProgramError>)
    ensures
        outcome(
            r,
            accounts_view(old(accounts)@),
            accounts_view(final(accounts)@),
            fulfill_randomness_result(program_id@, accounts_view(old(accounts)@), proof@),
        ),
{
    if accounts.len() < 3 {
        return Err(ProgramError::NotEnoughAccountKeys);
    }
    if !accounts[0].is_signer {
        return Err(ProgramError::MissingRequiredSignature);
    }
    if accounts[1].owner != *program_id || accounts[2].owner != *program_id {
        return Err(ProgramError::IncorrectProgramId);
    }
    let authority = accounts[0].key;
    let mut vrf_state = match VrfAccountState::try_from_slice(accounts[1].data.as_slice()) {
        Ok(record) => record,
        Err(_) => {
            return Err(ProgramError::BorshIoError);
        },
    };
    let randomness = match vrf_state.fulfill(proof, &authority) {
        Ok(randomness) => randomness,
        Err(e) => {
            return Err(e);
        },
    };
    let mut game_state = match GameAccountState::try_from_slice(accounts[2].data.as_slice()) {
        Ok(record) => record,
        Err(_) => {
            return Err(ProgramError::BorshIoError);
        },
    };
    if let Err(e) = game_state.receive_randomness(randomness) {
        return Err(e);
    }
    proof {
        VrfAccountView::lemma_decode_is_inverse(old(accounts)@[1].data@);
    }
    let vrf_bytes = vrf_state.try_to_vec().unwrap();
    let game_bytes = game_state.to_vec();
    store(accounts, 1, vrf_bytes);
    assert(accounts@[2]@ == accounts_view(accounts@)[2]);
    store(accounts, 2, game_bytes);
    Ok(())
}

/// Runs the operation on a game record that `instruction_data` encodes. Bytes
/// that are no operation are refused with `InvalidInstruction` before any account
/// is looked at.
pub fn process_game_instruction(
    program_id: &Pubkey,
    accounts: &mut Vec<AccountInfo>,
    instruction_data: &[u8],
) -> (r: Result<(), ProgramError>)
    ensures
        outcome(
            r,
            accounts_view(old(accounts)@),
            accounts_view(final(accounts)@),
            process_game_instruction_result(
                program_id@,
                accounts_view(old(accounts)@),
                instruction_data@,
            ),
        ),
{
    let instruction = match GameInstruction::try_from_slice(instruction_data) {
        Ok(instruction) => instruction,
        Err(_) => {
            return Err(ProgramError::from(VrfError::InvalidInstruction));
        },
    };
    match instruction {
        GameInstruction::InitializeGame => initialize_game(program_id, accounts),
        GameInstruction::SubmitGuess { guess } => submit_guess(program_id, accounts, guess),
    }
}

/// Opens a game: stores a new game record whose authority is the first account,
/// which has to sign. A record that was initialized before is not overwritten.
pub fn initialize_game(program_id: &Pubkey, accounts: &mut Vec<AccountInfo>) -> (r: Result<
    (),
    ProgramError,
>)
    ensures
        outcome(
            r,
            accounts_view(old(accounts)@),
            accounts_view(final(accounts)@),
            initialize_game_result(program_id@, accounts_view(old(accounts)@)),
        ),
{
    if accounts.len() < 2 {
        return Err(ProgramError::NotEnoughAccountKeys);
    }
    if !accounts[0].is_signer {
        return Err(ProgramError::MissingRequiredSignature);
    }
    if accounts[1].owner != *program_id {
        return Err(ProgramError::IncorrectProgramId);
    }
    if let Ok(stored) = GameAccountState::try_from_slice(accounts[1].data.as_slice()) {
        if stored.is_initialized {
            return Err(ProgramError::AccountAlreadyInitialized);
        }
    }
    let record = GameAccountState::new(accounts[0].key);
    let bytes = record.to_vec();
    store(accounts, 1, bytes);
    Ok(())
}

/// Plays the player's `guess` against the randomness that the game record holds
/// and stores the completed game. The player is the first account, has to sign
/// and has to be the game's authority (`InvalidAuthority` otherwise).
pub fn submit_guess(program_id: &Pubkey, accounts: &mut Vec<AccountInfo>, guess: u8) -> (r: Result<
    (),
    ProgramError,
>)
    ensures
        outcome(
            r,
            accounts_view(old(accounts)@),
            accounts_view(final(accounts)@),
            submit_guess_result(program_id@, accounts_view(old(accounts)@), guess),
        ),
{
    if accounts.len() < 3 {
        return Err(ProgramError::NotEnoughAccountKeys);
    }
    if !accounts[0].is_signer {
        return Err(ProgramError::MissingRequiredSignature);
    }
    if accounts[1].owner != *program_id || accounts[2].owner != *program_id {
        return Err(ProgramError::IncorrectProgramId);
    }
    let mut game_state = match GameAccountState::try_from_slice(accounts[1].data.as_slice()) {
        Ok(record) => record,
        Err(_) => {
            return Err(ProgramError::BorshIoError);
        },
    };
    let player = accounts[0].key;
    if let Err(e) = game_state.submit_guess(guess, &player) {
        return Err(e);
    }
    let bytes = game_state.to_vec();
    store(accounts, 1, bytes);
    Ok(())
}

// ---------------------------------------------------------------------------
// What the steps leave in storage
// ---------------------------------------------------------------------------

/// After a commitment the randomness record holds the seed and nothing revealed,
/// and the game record is back at the start of a round, whatever round it held:
/// it awaits randomness, and guess and result are gone.
pub proof fn lemma_request_randomness_effect(
    program_id: Seq<u8>,
    accounts: Seq<AccountView>,
    seed: Seq<u8>,
)
    requires
        request_randomness_result(program_id, accounts, seed) is Ok,
    ensures
        ({
            let after = request_randomness_result(program_id, accounts, seed).unwrap();
            let vrf = VrfAccountView::decode(accounts[1].data).unwrap();
            let game = game_to_reset(accounts[0].key, accounts[2].data).unwrap();
            &&& after.len() == accounts.len()
            &&& VrfAccountView::decode(after[1].data) == Some(vrf.committed(seed))
            &&& vrf.committed(seed).consistent()
            &&& GameAccountView::decode(after[2].data) == Some(game.reset())
            &&& game.reset().game_state == GameState::AwaitingRandomness
            &&& game.reset().player_guess is None
            &&& game.reset().result is None
            &&& game.reset().consistent()
        }),
{
    let vrf = VrfAccountView::decode(accounts[1].data).unwrap();
    let game = game_to_reset(accounts[0].key, accounts[2].data).unwrap();
    VrfAccountView::lemma_decode_is_inverse(accounts[1].data);
    GameAccountView::lemma_decode_is_inverse(accounts[2].data);
    vrf.committed(seed).lemma_round_trip();
    game.reset().lemma_round_trip();
}

/// A reveal is taken only while the game is not complete. After it the
/// randomness record holds the proof and the randomness derived from it and the
/// committed seed, and the game record holds the same randomness and awaits the
/// guess.
pub proof fn lemma_fulfill_randomness_effect(
    program_id: Seq<u8>,
    accounts: Seq<AccountView>,
    proof: Seq<u8>,
)
    requires
        proof.len() == 64,
        fulfill_randomness_result(program_id, accounts, proof) is Ok,
    ensures
        ({
            let after = fulfill_randomness_result(program_id, accounts, proof).unwrap();
            let vrf = VrfAccountView::decode(accounts[1].data).unwrap();
            let game = GameAccountView::decode(accounts[2].data).unwrap();
            let randomness = spec_derive_randomness(proof, vrf.seed.unwrap());
            &&& after.len() == accounts.len()
            &&& game.game_state != GameState::GameComplete
            &&& game.received(randomness) matches Ok(awaiting)
            &&& VrfAccountView::decode(after[1].data) == Some(vrf.revealed(proof, randomness))
            &&& GameAccountView::decode(after[2].data) == Some(awaiting)
            &&& awaiting.game_state == GameState::AwaitingPlayerGuess
            &&& awaiting.randomness == Some(randomness)
            &&& game.consistent() ==> awaiting.consistent()
            &&& vrf.revealed(proof, randomness).consistent()
        }),
{
    let vrf = VrfAccountView::decode(accounts[1].data).unwrap();
    let game = GameAccountView::decode(accounts[2].data).unwrap();
    let randomness = spec_derive_randomness(proof, vrf.seed.unwrap());
    VrfAccountView::lemma_decode_is_inverse(accounts[1].data);
    GameAccountView::lemma_decode_is_inverse(accounts[2].data);
    vrf.revealed(proof, randomness).lemma_round_trip();
    game.received(randomness).unwrap().lemma_round_trip();
}

/// A guess is taken only from the game's authority and only by a game that
/// awaits one, and completes it: the record then holds the guess and its result,
/// a win exactly where the guess is the game number of the randomness.
pub proof fn lemma_submit_guess_effect(program_id: Seq<u8>, accounts: Seq<AccountView>, guess: u8)
    requires
        submit_guess_result(program_id, accounts, guess) is Ok,
    ensures
        ({
            let after = submit_guess_result(program_id, accounts, guess).unwrap();
            let game = GameAccountView::decode(accounts[1].data).unwrap();
            let played = game.guessed(game.randomness.unwrap(), guess);
            &&& after.len() == accounts.len()
            &&& game.authority == accounts[0].key
            &&& game.game_state == GameState::AwaitingPlayerGuess
            &&& GameAccountView::decode(after[1].data) == Some(played)
            &&& played.game_state == GameState::GameComplete
            &&& played.player_guess == Some(guess)
            &&& played.result == Some(GameResult::Win) <==> guess == crate::state::game_number(
                game.randomness.unwrap(),
            )
            &&& played.result == Some(GameResult::Lose) <==> guess != crate::state::game_number(
                game.randomness.unwrap(),
            )
            &&& played.consistent()
        }),
{
    let game = GameAccountView::decode(accounts[1].data).unwrap();
    GameAccountView::lemma_decode_is_inverse(accounts[1].data);
    game.guessed(game.randomness.unwrap(), guess).lemma_round_trip();
}

/// A guess at a stored game in any other phase than the one that awaits it is
/// refused whoever plays it, and with `InvalidGameState` where the game's
/// authority plays it.
pub proof fn lemma_guess_outside_its_phase_is_refused(
    program_id: Seq<u8>,
    accounts: Seq<AccountView>,
    guess: u8,
)
    requires
        accounts.len() >= 3,
        accounts[0].is_signer,
        accounts[1].owner == program_id,
        accounts[2].owner == program_id,
        GameAccountView::decode(accounts[1].data) matches Some(game) && game.game_state
            != GameState::AwaitingPlayerGuess,
    ensures
        submit_guess_result(program_id, accounts, guess) is Err,
        GameAccountView::decode(accounts[1].data).unwrap().authority == accounts[0].key
            ==> submit_guess_result(program_id, accounts, guess) == Err::<
            Seq<AccountView>,
            ProgramError,
        >(invalid_game_state()),
{
}

/// A reveal on a stored game that is complete is refused with `InvalidGameState`:
/// a finished game is never taken back to the guess.
pub proof fn lemma_reveal_on_a_complete_game_is_refused(
    program_id: Seq<u8>,
    accounts: Seq<AccountView>,
    proof: Seq<u8>,
)
    requires
        accounts.len() >= 3,
        accounts[0].is_signer,
        accounts[1].owner == program_id,
        accounts[2].owner == program_id,
        VrfAccountView::decode(accounts[1].data) matches Some(vrf) && vrf.authority
            == accounts[0].key && vrf.seed is Some,
        GameAccountView::decode(accounts[2].data) matches Some(game) && game.game_state
            == GameState::GameComplete,
    ensures
        fulfill_randomness_result(program_id, accounts, proof) == Err::<
            Seq<AccountView>,
            ProgramError,
        >(invalid_game_state()),
{
}

/// A commitment or a reveal by a signer who is not the authority of the stored
/// randomness record, and a guess by a signer who is not the authority of the
/// stored game record, are refused with `InvalidAuthority`. The record in
/// question is the second account of the operation.
pub proof fn lemma_authority_is_enforced(
    program_id: Seq<u8>,
    accounts: Seq<AccountView>,
    seed: Seq<u8>,
    proof: Seq<u8>,
    guess: u8,
)
    requires
        accounts.len() >= 3,
        accounts[0].is_signer,
        accounts[1].owner == program_id,
        accounts[2].owner == program_id,
    ensures
        VrfAccountView::decode(accounts[1].data) matches Some(vrf) && vrf.authority
            != accounts[0].key ==> request_randomness_result(program_id, accounts, seed) == Err::<
            Seq<AccountView>,
            ProgramError,
        >(invalid_authority()),
        VrfAccountView::decode(accounts[1].data) matches Some(vrf) && vrf.authority
            != accounts[0].key ==> fulfill_randomness_result(program_id, accounts, proof) == Err::<
            Seq<AccountView>,
            ProgramError,
        >(invalid_authority()),
        GameAccountView::decode(accounts[1].data) matches Some(game) && game.authority
            != accounts[0].key ==> submit_guess_result(program_id, accounts, guess) == Err::<
            Seq<AccountView>,
            ProgramError,
        >(invalid_authority()),
{
}

/// A whole round, for every seed, proof and guess: on storage that holds no
/// initialized record, opening the session and the game, committing to `seed`,
/// revealing `proof` and playing `guess` all succeed, and leave a complete game
/// that holds the randomness derived from proof and seed, the guess, and a win
/// exactly where the guess is the game number of that randomness.
pub proof fn lemma_round_plays_out(
    program_id: Seq<u8>,
    actor: AccountView,
    vrf: AccountView,
    game: AccountView,
    seed: Seq<u8>,
    proof: Seq<u8>,
    guess: u8,
)
    requires
        actor.is_signer,
        actor.key.len() == 32,
        vrf.owner == program_id,
        game.owner == program_id,
        !holds_initialized_vrf(vrf.data),
        !holds_initialized_game(game.data),
        seed.len() <= MAX_LEN,
        proof.len() == 64,
    ensures
        ({
            let randomness = spec_derive_randomness(proof, seed);
            let opened_vrf = initialize_vrf_result(program_id, seq![actor, vrf]);
            let opened_game = initialize_game_result(program_id, seq![actor, game]);
            &&& opened_vrf is Ok
            &&& opened_game is Ok
            &&& {
                let committed = request_randomness_result(
                    program_id,
                    seq![actor, opened_vrf.unwrap()[1], opened_game.unwrap()[1]],
                    seed,
                );
                &&& committed is Ok
                &&& {
                    let revealed = fulfill_randomness_result(
                        program_id,
                        committed.unwrap(),
                        proof,
                    );
                    &&& revealed is Ok
                    &&& VrfAccountView::decode(revealed.unwrap()[1].data) == Some(
                        VrfAccountView::fresh(actor.key).committed(seed).revealed(
                            proof,
                            randomness,
                        ),
                    )
                    &&& {
                        let played = submit_guess_result(
                            program_id,
                            seq![actor, revealed.unwrap()[2], revealed.unwrap()[1]],
                            guess,
                        );
                        &&& played is Ok
                        &&& GameAccountView::decode(played.unwrap()[1].data) == Some(
                            GameAccountView {
                                authority: actor.key,
                                is_initialized: true,
                                randomness: Some(randomness),
                                game_state: GameState::GameComplete,
                                player_guess: Some(guess),
                                result: Some(GameAccountView::judge(randomness, guess)),
                            },
                        )
                    }
                }
            }
        }),
{
    let randomness = spec_derive_randomness(proof, seed);
    let new_vrf = VrfAccountView::fresh(actor.key);
    let new_game = GameAccountView::fresh(actor.key);
    new_vrf.lemma_round_trip();
    new_game.lemma_round_trip();
    let opened_vrf = initialize_vrf_result(program_id, seq![actor, vrf]).unwrap();
    let opened_game = initialize_game_result(program_id, seq![actor, game]).unwrap();
    let before_commit = seq![actor, opened_vrf[1], opened_game[1]];
    assert(new_game.encode().len() > 0) by {
        new_game.lemma_encoded_len();
    }
    assert(request_randomness_result(program_id, before_commit, seed) is Ok);
    lemma_request_randomness_effect(program_id, before_commit, seed);
    let committed = request_randomness_result(program_id, before_commit, seed).unwrap();
    assert(fulfill_randomness_result(program_id, committed, proof) is Ok);
    lemma_fulfill_randomness_effect(program_id, committed, proof);
    let revealed = fulfill_randomness_result(program_id, committed, proof).unwrap();
    let before_guess = seq![actor, revealed[2], revealed[1]];
    assert(submit_guess_result(program_id, before_guess, guess) is Ok);
    lemma_submit_guess_effect(program_id, before_guess, guess);
}

} // verus!
