use sha3::Digest;
use vrf_program::client::{
    fulfill_randomness_data, initialize_game_data, initialize_vrf_data, request_randomness_data,
    submit_guess_data,
};
use vrf_program::processor::{
    fulfill_randomness, initialize_game, initialize_vrf, request_randomness, submit_guess,
};
use vrf_program::state::{GameAccountState, GameResult, GameState, VrfAccountState};
use vrf_program::{
    derive_randomness, process_game_instruction, process_instruction,
    processor_process_instruction, AccountInfo, ProgramError, Pubkey,
};

const RANDOMNESS_A: [u8; 32] = [
    99, 188, 230, 119, 172, 13, 214, 179, 59, 15, 193, 187, 76, 168, 106, 154, 75, 236, 94, 60,
    27, 94, 193, 5, 233, 202, 67, 143, 75, 193, 207, 36,
];

fn program() -> Pubkey {
    Pubkey::new_from_array([42u8; 32])
}

fn authority_key() -> Pubkey {
    Pubkey::new_from_array([1u8; 32])
}

fn signer(key: Pubkey) -> AccountInfo {
    AccountInfo { key, is_signer: true, owner: Pubkey::new_from_array([0u8; 32]), data: Vec::new() }
}

fn stored(key: u8, data: &[u8]) -> AccountInfo {
    AccountInfo {
        key: Pubkey::new_from_array([key; 32]),
        is_signer: false,
        owner: program(),
        data: data.to_vec(),
    }
}

/// The storage of one session: what the randomness account and the game account hold.
struct Session {
    vrf: Vec<u8>,
    game: Vec<u8>,
}

impl Session {
    fn new() -> Session {
        Session { vrf: Vec::new(), game: Vec::new() }
    }

    fn vrf_record(&self) -> VrfAccountState {
        VrfAccountState::try_from_slice(&self.vrf).unwrap()
    }

    fn game_record(&self) -> GameAccountState {
        GameAccountState::try_from_slice(&self.game).unwrap()
    }

    /// Runs an operation whose accounts are the actor and the randomness record.
    fn on_vrf(&mut self, actor: Pubkey, data: &[u8]) -> Result<(), ProgramError> {
        let mut accounts = vec![signer(actor), stored(2, &self.vrf)];
        let result = process_instruction(&program(), &mut accounts, data);
        self.vrf = accounts[1].data.clone();
        result
    }

    /// Runs an operation whose accounts are the actor and the game record.
    fn on_game(&mut self, actor: Pubkey, data: &[u8]) -> Result<(), ProgramError> {
        let mut accounts = vec![signer(actor), stored(3, &self.game)];
        let result = process_instruction(&program(), &mut accounts, data);
        self.game = accounts[1].data.clone();
        result
    }

    /// Runs an operation whose accounts are the actor and both records, the
    /// randomness record first.
    fn on_both(&mut self, actor: Pubkey, data: &[u8]) -> Result<(), ProgramError> {
        let mut accounts = vec![signer(actor), stored(2, &self.vrf), stored(3, &self.game)];
        let result = process_instruction(&program(), &mut accounts, data);
        self.vrf = accounts[1].data.clone();
        self.game = accounts[2].data.clone();
        result
    }

    /// Runs a guess: the actor, the game record, the randomness record.
    fn guess(&mut self, actor: Pubkey, guess: u8) -> Result<(), ProgramError> {
        let mut accounts = vec![signer(actor), stored(3, &self.game), stored(2, &self.vrf)];
        let result = process_instruction(&program(), &mut accounts, &submit_guess_data(guess));
        self.game = accounts[1].data.clone();
        assert_eq!(accounts[2].data, self.vrf);
        result
    }

    /// A session after initialization, commitment to `[1, 2]` and reveal of sixty-four
    /// bytes `0xff`.
    fn revealed() -> Session {
        let mut session = Session::new();
        session.on_vrf(authority_key(), &initialize_vrf_data()).unwrap();
        session.on_game(authority_key(), &initialize_game_data()).unwrap();
        session.on_both(authority_key(), &request_randomness_data(vec![1, 2]).unwrap()).unwrap();
        session.on_both(authority_key(), &fulfill_randomness_data([0xff; 64])).unwrap();
        session
    }
}

#[test]
fn derived_randomness_is_the_sha3_256_digest_of_proof_and_seed() {
    assert_eq!(derive_randomness(&[0xff; 64], &[1, 2]), RANDOMNESS_A);
    let mut seed = [0u8; 32];
    for i in 0..32 {
        seed[i] = i as u8;
    }
    assert_eq!(
        derive_randomness(&[1; 64], &seed),
        [
            233, 154, 153, 42, 135, 235, 250, 96, 165, 94, 249, 193, 228, 147, 92, 232, 116, 247,
            15, 254, 62, 39, 83, 179, 225, 134, 153, 79, 125, 72, 154, 24
        ]
    );
    assert_eq!(
        derive_randomness(&[0; 64], &[]),
        [
            7, 15, 161, 171, 111, 204, 85, 126, 209, 77, 66, 148, 31, 25, 103, 105, 48, 72, 85,
            30, 185, 4, 42, 141, 10, 5, 122, 251, 215, 94, 129, 224
        ]
    );
}

#[test]
fn derived_randomness_agrees_with_an_independent_digest() {
    let proof = [0x3cu8; 64];
    let seed = [5u8, 4, 3, 2, 1, 0];
    let mut hasher = sha3::Sha3_256::new();
    hasher.update(&proof);
    hasher.update(&seed);
    let expected: [u8; 32] = hasher.finalize().into();
    assert_eq!(derive_randomness(&proof, &seed), expected);
}

#[test]
fn derived_randomness_is_the_same_on_every_call() {
    let first = derive_randomness(&[0xff; 64], &[1, 2]);
    for _ in 0..10 {
        assert_eq!(derive_randomness(&[0xff; 64], &[1, 2]), first);
    }
}

#[test]
fn derived_randomness_changes_with_any_bit_of_the_input() {
    let base = derive_randomness(&[0xff; 64], &[1, 2]);
    assert_ne!(derive_randomness(&[0xff; 64], &[1, 3]), base);
    assert_eq!(
        derive_randomness(&[0xff; 64], &[1, 3]),
        [
            16, 158, 1, 254, 56, 247, 103, 253, 53, 108, 109, 220, 110, 12, 91, 177, 231, 179, 252,
            35, 57, 101, 140, 154, 121, 27, 123, 43, 146, 184, 210, 230
        ]
    );
    assert_ne!(derive_randomness(&[0xff; 64], &[1]), base);
    assert_ne!(derive_randomness(&[0xff; 64], &[1, 2, 0]), base);
    for byte in [0usize, 17, 63] {
        for bit in 0..8 {
            let mut proof = [0xffu8; 64];
            proof[byte] ^= 1 << bit;
            assert_ne!(derive_randomness(&proof, &[1, 2]), base);
        }
    }
    for bit in 0..8 {
        assert_ne!(derive_randomness(&[0xff; 64], &[1 ^ (1 << bit), 2]), base);
    }
}

#[test]
fn initialization_stores_new_records() {
    let mut session = Session::new();
    assert_eq!(session.on_vrf(authority_key(), &initialize_vrf_data()), Ok(()));
    assert_eq!(session.on_game(authority_key(), &initialize_game_data()), Ok(()));
    let vrf = session.vrf_record();
    assert_eq!(vrf.authority, authority_key());
    assert!(vrf.is_initialized);
    assert_eq!(vrf.seed, None);
    assert_eq!(vrf.randomness, None);
    assert_eq!(vrf.proof, None);
    assert_eq!(vrf.public_key, [1u8; 32]);
    let game = session.game_record();
    assert_eq!(game.authority, authority_key());
    assert!(game.is_initialized);
    assert_eq!(game.randomness, None);
    assert_eq!(game.game_state, GameState::AwaitingRandomness);
    assert_eq!(game.player_guess, None);
    assert_eq!(game.result, None);
}

#[test]
fn initialization_is_refused_on_an_initialized_record() {
    let mut session = Session::revealed();
    let vrf_before = session.vrf.clone();
    let game_before = session.game.clone();
    assert_eq!(
        session.on_vrf(authority_key(), &initialize_vrf_data()),
        Err(ProgramError::AccountAlreadyInitialized)
    );
    assert_eq!(
        session.on_game(authority_key(), &initialize_game_data()),
        Err(ProgramError::AccountAlreadyInitialized)
    );
    assert_eq!(session.vrf, vrf_before);
    assert_eq!(session.game, game_before);
}

#[test]
fn initialization_takes_over_storage_that_holds_no_initialized_record() {
    let mut session = Session { vrf: vec![0u8; 200], game: vec![0u8; 37] };
    assert_eq!(session.on_vrf(authority_key(), &initialize_vrf_data()), Ok(()));
    assert_eq!(session.on_game(authority_key(), &initialize_game_data()), Ok(()));
    assert!(session.vrf_record().is_initialized);
    assert!(session.game_record().is_initialized);
    assert_eq!(session.vrf.len(), 68);
}

#[test]
fn scenario_commit_reveal_and_winning_guess() {
    let mut session = Session::new();
    session.on_vrf(authority_key(), &initialize_vrf_data()).unwrap();
    session.on_game(authority_key(), &initialize_game_data()).unwrap();

    assert_eq!(
        session.on_both(authority_key(), &request_randomness_data(vec![0x01, 0x02]).unwrap()),
        Ok(())
    );
    let vrf = session.vrf_record();
    assert_eq!(vrf.seed, Some(vec![0x01, 0x02]));
    assert_eq!(vrf.randomness, None);
    assert_eq!(vrf.proof, None);
    assert_eq!(session.game_record().game_state, GameState::AwaitingRandomness);

    assert_eq!(session.on_both(authority_key(), &fulfill_randomness_data([0xff; 64])), Ok(()));
    let vrf = session.vrf_record();
    assert_eq!(vrf.seed, Some(vec![0x01, 0x02]));
    assert_eq!(vrf.proof, Some([0xff; 64]));
    assert_eq!(vrf.randomness, Some(RANDOMNESS_A));
    let game = session.game_record();
    assert_eq!(game.game_state, GameState::AwaitingPlayerGuess);
    assert_eq!(game.randomness, Some(RANDOMNESS_A));
    assert_eq!(game.player_guess, None);
    assert_eq!(game.result, None);

    let guess = RANDOMNESS_A[0] % 100;
    assert_eq!(guess, 99);
    assert_eq!(session.guess(authority_key(), guess), Ok(()));
    let game = session.game_record();
    assert_eq!(game.game_state, GameState::GameComplete);
    assert_eq!(game.player_guess, Some(99));
    assert_eq!(game.result, Some(GameResult::Win));
    assert_eq!(game.randomness, Some(RANDOMNESS_A));
}

#[test]
fn scenario_commit_reveal_and_losing_guess() {
    let mut session = Session::revealed();
    let guess = (RANDOMNESS_A[0] % 100 + 1) % 100;
    assert_eq!(guess, 0);
    assert_eq!(session.guess(authority_key(), guess), Ok(()));
    let game = session.game_record();
    assert_eq!(game.game_state, GameState::GameComplete);
    assert_eq!(game.player_guess, Some(0));
    assert_eq!(game.result, Some(GameResult::Lose));
}

#[test]
fn every_guess_but_the_game_number_loses() {
    for guess in 0..=255u8 {
        let mut session = Session::revealed();
        assert_eq!(session.guess(authority_key(), guess), Ok(()));
        let game = session.game_record();
        assert_eq!(game.player_guess, Some(guess));
        let expected = if guess == 99 { GameResult::Win } else { GameResult::Lose };
        assert_eq!(game.result, Some(expected));
    }
}

#[test]
fn scenario_new_commitment_resets_the_game() {
    let mut session = Session::revealed();
    session.guess(authority_key(), 99).unwrap();
    assert_eq!(session.game_record().game_state, GameState::GameComplete);

    assert_eq!(
        session.on_both(authority_key(), &request_randomness_data(vec![9, 9, 9]).unwrap()),
        Ok(())
    );
    let game = session.game_record();
    assert_eq!(game.game_state, GameState::AwaitingRandomness);
    assert_eq!(game.player_guess, None);
    assert_eq!(game.result, None);
    assert_eq!(game.randomness, None);
    assert_eq!(game.authority, authority_key());
    let vrf = session.vrf_record();
    assert_eq!(vrf.seed, Some(vec![9, 9, 9]));
    assert_eq!(vrf.randomness, None);
    assert_eq!(vrf.proof, None);

    // and the next round plays on new randomness
    session.on_both(authority_key(), &fulfill_randomness_data([0xff; 64])).unwrap();
    let expected = derive_randomness(&[0xff; 64], &[9, 9, 9]);
    assert_ne!(expected, RANDOMNESS_A);
    assert_eq!(session.game_record().randomness, Some(expected));
    assert_eq!(session.game_record().game_state, GameState::AwaitingPlayerGuess);
}

#[test]
fn commitment_opens_a_game_where_none_is_stored() {
    let mut session = Session::new();
    session.on_vrf(authority_key(), &initialize_vrf_data()).unwrap();
    assert!(session.game.is_empty());
    session.on_both(authority_key(), &request_randomness_data(vec![5]).unwrap()).unwrap();
    let game = session.game_record();
    assert_eq!(game.authority, authority_key());
    assert!(game.is_initialized);
    assert_eq!(game.game_state, GameState::AwaitingRandomness);
}

#[test]
fn guess_outside_its_phase_is_refused() {
    // before any randomness
    let mut session = Session::new();
    session.on_game(authority_key(), &initialize_game_data()).unwrap();
    let before = session.game.clone();
    assert_eq!(session.guess(authority_key(), 5), Err(ProgramError::Custom(3)));
    assert_eq!(session.game, before);
    // after the game is complete
    let mut session = Session::revealed();
    session.guess(authority_key(), 5).unwrap();
    let before = session.game.clone();
    assert_eq!(session.guess(authority_key(), 99), Err(ProgramError::Custom(3)));
    assert_eq!(session.game, before);
    assert_eq!(session.game_record().player_guess, Some(5));
}

#[test]
fn guess_without_randomness_is_refused() {
    let record = GameAccountState {
        authority: authority_key(),
        is_initialized: true,
        randomness: None,
        game_state: GameState::AwaitingPlayerGuess,
        player_guess: None,
        result: None,
    };
    let mut session = Session { vrf: Vec::new(), game: record.to_vec() };
    let before = session.game.clone();
    assert_eq!(session.guess(authority_key(), 5), Err(ProgramError::Custom(4)));
    assert_eq!(session.game, before);
}

#[test]
fn commitment_and_reveal_by_another_identity_are_refused() {
    let stranger = Pubkey::new_from_array([66u8; 32]);
    let mut session = Session::new();
    session.on_vrf(authority_key(), &initialize_vrf_data()).unwrap();
    session.on_game(authority_key(), &initialize_game_data()).unwrap();
    let vrf_before = session.vrf.clone();
    let game_before = session.game.clone();
    assert_eq!(
        session.on_both(stranger, &request_randomness_data(vec![1, 2]).unwrap()),
        Err(ProgramError::Custom(2))
    );
    assert_eq!(session.vrf, vrf_before);
    assert_eq!(session.game, game_before);

    session.on_both(authority_key(), &request_randomness_data(vec![1, 2]).unwrap()).unwrap();
    let vrf_before = session.vrf.clone();
    let game_before = session.game.clone();
    assert_eq!(
        session.on_both(stranger, &fulfill_randomness_data([0xff; 64])),
        Err(ProgramError::Custom(2))
    );
    assert_eq!(session.vrf, vrf_before);
    assert_eq!(session.game, game_before);
}

#[test]
fn records_refuse_another_identity_and_stay_as_they_were() {
    let stranger = Pubkey::new_from_array([66u8; 32]);
    let mut record = VrfAccountState::new(authority_key());
    assert_eq!(record.commit(vec![1], &stranger), Err(ProgramError::Custom(2)));
    assert_eq!(record.seed, None);
    assert_eq!(record.commit(vec![1], &authority_key()), Ok(()));
    assert_eq!(record.seed, Some(vec![1]));
    assert_eq!(record.fulfill([7; 64], &stranger), Err(ProgramError::Custom(2)));
    assert_eq!(record.proof, None);
    assert_eq!(record.randomness, None);
    let randomness = record.fulfill([7; 64], &authority_key()).unwrap();
    assert_eq!(randomness, derive_randomness(&[7; 64], &[1]));
    assert_eq!(record.randomness, Some(randomness));
    assert_eq!(record.proof, Some([7; 64]));
    // a stranger is refused as a stranger whether or not a seed is there
    let mut empty = VrfAccountState::new(authority_key());
    assert_eq!(empty.fulfill([7; 64], &stranger), Err(ProgramError::Custom(2)));
}

#[test]
fn guess_by_another_identity_is_refused() {
    let stranger = Pubkey::new_from_array([66u8; 32]);
    let mut session = Session::revealed();
    let before = session.game.clone();
    assert_eq!(session.guess(stranger, 99), Err(ProgramError::Custom(2)));
    assert_eq!(session.game, before);
    let game = session.game_record();
    assert_eq!(game.game_state, GameState::AwaitingPlayerGuess);
    assert_eq!(game.player_guess, None);
    assert_eq!(game.result, None);
    // the authority can still play the round
    assert_eq!(session.guess(authority_key(), 99), Ok(()));
    assert_eq!(session.game_record().result, Some(GameResult::Win));
    // a stranger is refused as a stranger in every phase
    let before = session.game.clone();
    assert_eq!(session.guess(stranger, 99), Err(ProgramError::Custom(2)));
    assert_eq!(session.game, before);
    let mut unopened = Session::new();
    unopened.on_game(authority_key(), &initialize_game_data()).unwrap();
    assert_eq!(unopened.guess(stranger, 1), Err(ProgramError::Custom(2)));
}

#[test]
fn reveal_before_commitment_is_refused() {
    let mut session = Session::new();
    session.on_vrf(authority_key(), &initialize_vrf_data()).unwrap();
    session.on_game(authority_key(), &initialize_game_data()).unwrap();
    let vrf_before = session.vrf.clone();
    assert_eq!(
        session.on_both(authority_key(), &fulfill_randomness_data([0xff; 64])),
        Err(ProgramError::InvalidArgument)
    );
    assert_eq!(session.vrf, vrf_before);
    let mut record = VrfAccountState::new(authority_key());
    assert_eq!(record.fulfill([0xff; 64], &authority_key()), Err(ProgramError::InvalidArgument));
    assert!(record.committed_seed(&authority_key()).is_err());
}

#[test]
fn reveal_on_a_complete_game_is_refused() {
    let mut session = Session::revealed();
    session.guess(authority_key(), 12).unwrap();
    let vrf_before = session.vrf.clone();
    let game_before = session.game.clone();
    assert_eq!(
        session.on_both(authority_key(), &fulfill_randomness_data([0x11; 64])),
        Err(ProgramError::Custom(3))
    );
    assert_eq!(session.vrf, vrf_before);
    assert_eq!(session.game, game_before);
    let game = session.game_record();
    assert_eq!(game.game_state, GameState::GameComplete);
    assert_eq!(game.randomness, Some(RANDOMNESS_A));
    assert_eq!(game.player_guess, Some(12));
    assert_eq!(game.result, Some(GameResult::Lose));
    assert_eq!(session.vrf_record().proof, Some([0xff; 64]));
    // a new commitment reopens the round, and then a reveal is taken again
    session.on_both(authority_key(), &request_randomness_data(vec![4]).unwrap()).unwrap();
    assert_eq!(session.on_both(authority_key(), &fulfill_randomness_data([0x11; 64])), Ok(()));
    let game = session.game_record();
    assert_eq!(game.game_state, GameState::AwaitingPlayerGuess);
    assert_eq!(game.randomness, Some(derive_randomness(&[0x11; 64], &[4])));
    assert_eq!(game.player_guess, None);
    assert_eq!(game.result, None);
}

#[test]
fn a_second_reveal_before_the_guess_replaces_the_randomness() {
    let mut session = Session::revealed();
    assert_eq!(session.on_both(authority_key(), &fulfill_randomness_data([0x11; 64])), Ok(()));
    let expected = derive_randomness(&[0x11; 64], &[1, 2]);
    let game = session.game_record();
    assert_eq!(game.game_state, GameState::AwaitingPlayerGuess);
    assert_eq!(game.randomness, Some(expected));
    assert_eq!(game.player_guess, None);
    assert_eq!(game.result, None);
    assert_eq!(session.vrf_record().randomness, Some(expected));
    assert_eq!(session.vrf_record().proof, Some([0x11; 64]));
}

#[test]
fn a_game_only_moves_forward_within_a_round() {
    let rank = |phase: GameState| match phase {
        GameState::AwaitingRandomness => 0,
        GameState::AwaitingPlayerGuess => 1,
        GameState::GameComplete => 2,
    };
    let mut randomness = [0u8; 32];
    randomness[0] = 7;
    for start in [
        GameState::AwaitingRandomness,
        GameState::AwaitingPlayerGuess,
        GameState::GameComplete,
    ] {
        let build = || {
            let mut game = GameAccountState::new(authority_key());
            if start != GameState::AwaitingRandomness {
                game.receive_randomness([9; 32]).unwrap();
            }
            if start == GameState::GameComplete {
                game.submit_guess(55, &authority_key()).unwrap();
            }
            assert_eq!(game.game_state, start);
            game
        };
        let mut game = build();
        match game.receive_randomness(randomness) {
            Ok(()) => {
                assert_ne!(start, GameState::GameComplete);
                assert!(rank(game.game_state) >= rank(start));
                assert_eq!(game.game_state, GameState::AwaitingPlayerGuess);
            }
            Err(e) => {
                assert_eq!(start, GameState::GameComplete);
                assert_eq!(e, ProgramError::Custom(3));
                assert_eq!(game.game_state, GameState::GameComplete);
                assert_eq!(game.randomness, Some([9; 32]));
                assert_eq!(game.player_guess, Some(55));
                assert_eq!(game.result, Some(GameResult::Lose));
            }
        }
        let mut game = build();
        match game.submit_guess(3, &authority_key()) {
            Ok(_) => {
                assert_eq!(start, GameState::AwaitingPlayerGuess);
                assert_eq!(rank(game.game_state), rank(start) + 1);
            }
            Err(e) => {
                assert_ne!(start, GameState::AwaitingPlayerGuess);
                assert_eq!(e, ProgramError::Custom(3));
                assert_eq!(game.game_state, start);
            }
        }
    }
}

#[test]
fn operations_need_a_signature() {
    let mut unsigned = signer(authority_key());
    unsigned.is_signer = false;
    let mut accounts = vec![unsigned.clone(), stored(2, &[])];
    assert_eq!(
        initialize_vrf(&program(), &mut accounts),
        Err(ProgramError::MissingRequiredSignature)
    );
    assert!(accounts[1].data.is_empty());
    let mut accounts = vec![unsigned.clone(), stored(3, &[])];
    assert_eq!(
        initialize_game(&program(), &mut accounts),
        Err(ProgramError::MissingRequiredSignature)
    );
    let session = Session::revealed();
    let mut accounts = vec![unsigned.clone(), stored(2, &session.vrf), stored(3, &session.game)];
    assert_eq!(
        request_randomness(&program(), &mut accounts, vec![1]),
        Err(ProgramError::MissingRequiredSignature)
    );
    assert_eq!(
        fulfill_randomness(&program(), &mut accounts, [0; 64]),
        Err(ProgramError::MissingRequiredSignature)
    );
    assert_eq!(accounts[1].data, session.vrf);
    assert_eq!(accounts[2].data, session.game);
    let mut accounts = vec![unsigned, stored(3, &session.game), stored(2, &session.vrf)];
    assert_eq!(submit_guess(&program(), &mut accounts, 1), Err(ProgramError::MissingRequiredSignature));
    assert_eq!(accounts[1].data, session.game);
}

#[test]
fn operations_need_storage_of_this_program() {
    let session = Session::revealed();
    let foreign = |key: u8, data: &[u8]| {
        let mut account = stored(key, data);
        account.owner = Pubkey::new_from_array([43u8; 32]);
        account
    };
    let mut accounts = vec![signer(authority_key()), foreign(2, &[])];
    assert_eq!(initialize_vrf(&program(), &mut accounts), Err(ProgramError::IncorrectProgramId));
    assert_eq!(initialize_game(&program(), &mut accounts), Err(ProgramError::IncorrectProgramId));
    assert!(accounts[1].data.is_empty());

    let mut accounts =
        vec![signer(authority_key()), foreign(2, &session.vrf), stored(3, &session.game)];
    assert_eq!(
        request_randomness(&program(), &mut accounts, vec![1]),
        Err(ProgramError::IncorrectProgramId)
    );
    assert_eq!(
        fulfill_randomness(&program(), &mut accounts, [0; 64]),
        Err(ProgramError::IncorrectProgramId)
    );
    let mut accounts =
        vec![signer(authority_key()), stored(2, &session.vrf), foreign(3, &session.game)];
    assert_eq!(
        request_randomness(&program(), &mut accounts, vec![1]),
        Err(ProgramError::IncorrectProgramId)
    );
    assert_eq!(
        fulfill_randomness(&program(), &mut accounts, [0; 64]),
        Err(ProgramError::IncorrectProgramId)
    );
    assert_eq!(accounts[1].data, session.vrf);
    assert_eq!(accounts[2].data, session.game);

    let mut accounts =
        vec![signer(authority_key()), foreign(3, &session.game), stored(2, &session.vrf)];
    assert_eq!(submit_guess(&program(), &mut accounts, 1), Err(ProgramError::IncorrectProgramId));
    let mut accounts =
        vec![signer(authority_key()), stored(3, &session.game), foreign(2, &session.vrf)];
    assert_eq!(submit_guess(&program(), &mut accounts, 1), Err(ProgramError::IncorrectProgramId));
    assert_eq!(accounts[1].data, session.game);
    // what the randomness record holds is not looked at when a guess is played
    let mut accounts =
        vec![signer(authority_key()), stored(3, &session.game), stored(2, &[1, 2, 3])];
    assert_eq!(submit_guess(&program(), &mut accounts, 1), Ok(()));
    // whose storage it is comes before who plays
    let stranger = Pubkey::new_from_array([66u8; 32]);
    let mut accounts = vec![signer(stranger), foreign(3, &session.game), stored(2, &session.vrf)];
    assert_eq!(submit_guess(&program(), &mut accounts, 1), Err(ProgramError::IncorrectProgramId));
}

#[test]
fn operations_need_all_their_accounts() {
    let session = Session::revealed();
    let mut none: Vec<AccountInfo> = Vec::new();
    assert_eq!(initialize_vrf(&program(), &mut none), Err(ProgramError::NotEnoughAccountKeys));
    let mut one = vec![signer(authority_key())];
    assert_eq!(initialize_vrf(&program(), &mut one), Err(ProgramError::NotEnoughAccountKeys));
    assert_eq!(initialize_game(&program(), &mut one), Err(ProgramError::NotEnoughAccountKeys));
    let mut two = vec![signer(authority_key()), stored(2, &session.vrf)];
    assert_eq!(
        request_randomness(&program(), &mut two, vec![1]),
        Err(ProgramError::NotEnoughAccountKeys)
    );
    assert_eq!(
        fulfill_randomness(&program(), &mut two, [0; 64]),
        Err(ProgramError::NotEnoughAccountKeys)
    );
    let mut two = vec![signer(authority_key()), stored(3, &session.game)];
    assert_eq!(submit_guess(&program(), &mut two, 1), Err(ProgramError::NotEnoughAccountKeys));
    assert_eq!(two[1].data, session.game);
}

#[test]
fn stored_bytes_that_are_no_record_are_refused() {
    let session = Session::revealed();
    let mut broken = session.vrf.clone();
    broken.push(0);
    let mut accounts = vec![signer(authority_key()), stored(2, &broken), stored(3, &session.game)];
    assert_eq!(request_randomness(&program(), &mut accounts, vec![1]), Err(ProgramError::BorshIoError));
    assert_eq!(fulfill_randomness(&program(), &mut accounts, [0; 64]), Err(ProgramError::BorshIoError));
    assert_eq!(accounts[1].data, broken);

    let mut accounts = vec![signer(authority_key()), stored(2, &session.vrf), stored(3, &[1, 2, 3])];
    assert_eq!(request_randomness(&program(), &mut accounts, vec![1]), Err(ProgramError::BorshIoError));
    assert_eq!(fulfill_randomness(&program(), &mut accounts, [0; 64]), Err(ProgramError::BorshIoError));
    assert_eq!(accounts[1].data, session.vrf);
    assert_eq!(accounts[2].data, vec![1, 2, 3]);

    // a reveal does not open a game: an empty game account is no record
    let mut accounts = vec![signer(authority_key()), stored(2, &session.vrf), stored(3, &[])];
    assert_eq!(fulfill_randomness(&program(), &mut accounts, [0; 64]), Err(ProgramError::BorshIoError));

    let mut accounts = vec![signer(authority_key()), stored(3, &[]), stored(2, &session.vrf)];
    assert_eq!(submit_guess(&program(), &mut accounts, 1), Err(ProgramError::BorshIoError));
}

#[test]
fn bytes_that_are_no_operation_are_refused() {
    let session = Session::revealed();
    let run = |data: &[u8]| {
        let mut accounts =
            vec![signer(authority_key()), stored(2, &session.vrf), stored(3, &session.game)];
        let result = process_instruction(&program(), &mut accounts, data);
        assert_eq!(accounts[1].data, session.vrf);
        assert_eq!(accounts[2].data, session.game);
        result
    };
    assert_eq!(run(&[]), Err(ProgramError::Custom(0)));
    assert_eq!(run(&[0]), Err(ProgramError::Custom(0)));
    assert_eq!(run(&[1]), Err(ProgramError::Custom(0)));
    assert_eq!(run(&[2]), Err(ProgramError::Custom(0)));
    assert_eq!(run(&[2, 0]), Err(ProgramError::Custom(0)));
    assert_eq!(run(&[255, 0]), Err(ProgramError::Custom(0)));
    assert_eq!(run(&[0, 2]), Err(ProgramError::Custom(0)));
    assert_eq!(run(&[0, 1]), Err(ProgramError::Custom(0)));
    assert_eq!(run(&[0, 1, 2, 3]), Err(ProgramError::Custom(0)));
    assert_eq!(run(&[1, 3]), Err(ProgramError::Custom(0)));
    assert_eq!(run(&[1, 1, 2, 0, 0, 0, 1]), Err(ProgramError::Custom(0)));
    assert_eq!(run(&[1, 2, 0, 0]), Err(ProgramError::Custom(0)));
}

#[test]
fn the_domains_run_their_operations_without_the_domain_byte() {
    let mut accounts = vec![signer(authority_key()), stored(2, &[])];
    assert_eq!(processor_process_instruction(&program(), &mut accounts, &[0]), Ok(()));
    assert!(VrfAccountState::try_from_slice(&accounts[1].data).unwrap().is_initialized);
    assert_eq!(
        processor_process_instruction(&program(), &mut accounts, &[9]),
        Err(ProgramError::Custom(0))
    );
    let mut accounts = vec![signer(authority_key()), stored(3, &[])];
    assert_eq!(process_game_instruction(&program(), &mut accounts, &[0]), Ok(()));
    assert!(GameAccountState::try_from_slice(&accounts[1].data).unwrap().is_initialized);
    assert_eq!(
        process_game_instruction(&program(), &mut accounts, &[7]),
        Err(ProgramError::Custom(0))
    );
}

#[test]
fn record_steps_on_given_randomness() {
    let mut vrf = VrfAccountState::new(authority_key());
    vrf.commit(vec![1, 2], &authority_key()).unwrap();
    vrf.accept_reveal([5; 64], [6; 32]);
    assert_eq!(vrf.proof, Some([5; 64]));
    assert_eq!(vrf.randomness, Some([6; 32]));
    assert_eq!(vrf.seed, Some(vec![1, 2]));
    // a new commitment drops what was revealed
    vrf.commit(vec![3], &authority_key()).unwrap();
    assert_eq!(vrf.proof, None);
    assert_eq!(vrf.randomness, None);

    let mut game = GameAccountState::new(authority_key());
    let mut randomness = [0u8; 32];
    randomness[0] = 207;
    assert_eq!(game.receive_randomness(randomness), Ok(()));
    assert_eq!(game.game_state, GameState::AwaitingPlayerGuess);
    assert_eq!(game.randomness, Some(randomness));
    let stranger = Pubkey::new_from_array([66u8; 32]);
    assert_eq!(game.submit_guess(7, &stranger), Err(ProgramError::Custom(2)));
    assert_eq!(game.game_state, GameState::AwaitingPlayerGuess);
    assert_eq!(game.player_guess, None);
    assert_eq!(game.result, None);
    assert_eq!(game.submit_guess(7, &authority_key()), Ok(GameResult::Win));
    assert_eq!(game.game_state, GameState::GameComplete);
    assert_eq!(game.player_guess, Some(7));
    assert_eq!(game.result, Some(GameResult::Win));
    assert_eq!(game.submit_guess(7, &authority_key()), Err(ProgramError::Custom(3)));
    assert_eq!(game.submit_guess(7, &stranger), Err(ProgramError::Custom(2)));
    // a complete game takes no randomness and stays as it is
    assert_eq!(game.receive_randomness([1; 32]), Err(ProgramError::Custom(3)));
    assert_eq!(game.game_state, GameState::GameComplete);
    assert_eq!(game.randomness, Some(randomness));
    assert_eq!(game.player_guess, Some(7));
    assert_eq!(game.result, Some(GameResult::Win));
    game.reset();
    assert_eq!(game.game_state, GameState::AwaitingRandomness);
    assert_eq!(game.randomness, None);
    assert_eq!(game.player_guess, None);
    assert_eq!(game.result, None);
    assert_eq!(game.receive_randomness(randomness), Ok(()));
    assert_eq!(game.submit_guess(207, &authority_key()), Ok(GameResult::Lose));
}
