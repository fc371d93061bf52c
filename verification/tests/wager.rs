use rand::rngs::StdRng;
use rand::{Rng, SeedableRng};
use sha2::{Digest, Sha256};
use vrf_program::wager::{
    generate_random_number, process_instruction, verify_random_number, GameInstruction, GameState,
    VRFState, GAME_STATE_LEN, STARTING_BALANCE,
};
use vrf_program::{AccountInfo, ProgramError, Pubkey};

/// The first numbers that belong to a seed of zeros, by count.
const DRAWS: [u64; 5] = [
    11771540789564837203,
    17711318313233778085,
    11627089795383057319,
    14754611570639538242,
    8860637921356201701,
];

fn program() -> Pubkey {
    Pubkey::new_from_array([42u8; 32])
}

fn account(data: Vec<u8>) -> AccountInfo {
    AccountInfo {
        key: Pubkey::new_from_array([5u8; 32]),
        is_signer: false,
        owner: program(),
        data,
    }
}

fn expected_number(seed: &[u8; 32], counter: u64) -> u64 {
    let mut hasher = Sha256::new();
    hasher.update(seed);
    hasher.update(&counter.to_le_bytes());
    let hash = hasher.finalize();
    let mut rng = StdRng::from_seed(hash.into());
    rng.gen::<u64>()
}

#[test]
fn new_game_has_the_starting_balance() {
    let game = GameState::new();
    assert_eq!(STARTING_BALANCE, 1000);
    assert_eq!(game.player_balance, 1000);
    assert_eq!(game.last_random_number, 0);
    assert_eq!(game.vrf_state.seed, [0u8; 32]);
    assert_eq!(game.vrf_state.counter, 0);
}

#[test]
fn stored_game_has_exact_bytes() {
    let game = GameState {
        player_balance: 1000,
        last_random_number: 0x0102030405060708,
        vrf_state: VRFState { seed: [7u8; 32], counter: 258 },
    };
    let mut expected = vec![0xe8, 0x03, 0, 0, 0, 0, 0, 0];
    expected.extend_from_slice(&[8, 7, 6, 5, 4, 3, 2, 1]);
    expected.extend_from_slice(&[7u8; 32]);
    expected.extend_from_slice(&[2, 1, 0, 0, 0, 0, 0, 0]);
    assert_eq!(GAME_STATE_LEN, 56);
    assert_eq!(game.to_vec(), expected);
}

#[test]
fn stored_game_bytes_are_the_fields_in_borsh() {
    for balance in [0u64, 1, 255, 256, 0xffff_ffff, 0x1_0000_0000, u64::MAX] {
        let game = GameState {
            player_balance: balance,
            last_random_number: balance ^ 0x5555_5555_5555_5555,
            vrf_state: VRFState { seed: [9u8; 32], counter: balance.wrapping_mul(3) },
        };
        let mut expected = Vec::new();
        expected.extend(borsh::to_vec(&game.player_balance).unwrap());
        expected.extend(borsh::to_vec(&game.last_random_number).unwrap());
        expected.extend(borsh::to_vec(&game.vrf_state.seed).unwrap());
        expected.extend(borsh::to_vec(&game.vrf_state.counter).unwrap());
        assert_eq!(game.to_vec(), expected);
        let back = GameState::deserialize(&expected).unwrap();
        assert_eq!(back.player_balance, game.player_balance);
        assert_eq!(back.last_random_number, game.last_random_number);
        assert_eq!(back.vrf_state.seed, game.vrf_state.seed);
        assert_eq!(back.vrf_state.counter, game.vrf_state.counter);
    }
}

#[test]
fn stored_game_is_read_from_the_front() {
    let mut bytes = GameState::new().to_vec();
    bytes.extend_from_slice(&[0xee; 10]);
    let game = GameState::deserialize(&bytes).unwrap();
    assert_eq!(game.player_balance, 1000);
    assert!(GameState::deserialize(&bytes[..55]).is_err());
    assert!(GameState::deserialize(&[]).is_err());
    assert!(GameState::deserialize(&bytes[..56]).is_ok());
}

#[test]
fn wager_instructions_have_exact_bytes_and_round_trip() {
    assert_eq!(GameInstruction::Initialize.to_vec(), vec![0]);
    assert_eq!(GameInstruction::Play(100).to_vec(), vec![1, 100, 0, 0, 0, 0, 0, 0, 0]);
    assert_eq!(
        GameInstruction::Verify(0x1122334455667788).to_vec(),
        vec![2, 0x88, 0x77, 0x66, 0x55, 0x44, 0x33, 0x22, 0x11]
    );
    for instruction in [
        GameInstruction::Initialize,
        GameInstruction::Play(0),
        GameInstruction::Play(u64::MAX),
        GameInstruction::Verify(1 << 40),
    ] {
        assert_eq!(GameInstruction::try_from_slice(&instruction.to_vec()).unwrap(), instruction);
    }
}

#[test]
fn wager_instruction_decoding_refuses_what_is_no_operation() {
    assert!(GameInstruction::try_from_slice(&[]).is_err());
    assert!(GameInstruction::try_from_slice(&[3]).is_err());
    assert!(GameInstruction::try_from_slice(&[0, 0]).is_err());
    assert!(GameInstruction::try_from_slice(&[1]).is_err());
    assert!(GameInstruction::try_from_slice(&[1, 0, 0, 0, 0, 0, 0, 0]).is_err());
    assert!(GameInstruction::try_from_slice(&[2, 0, 0, 0, 0, 0, 0, 0, 0, 0]).is_err());
}

#[test]
fn drawn_numbers_are_known() {
    let mut state = VRFState { seed: [0u8; 32], counter: 0 };
    for (i, expected) in DRAWS.iter().enumerate() {
        assert_eq!(generate_random_number(&mut state), *expected);
        assert_eq!(state.counter, i as u64 + 1);
        assert_eq!(state.seed, [0u8; 32]);
    }
}

#[test]
fn drawn_numbers_agree_with_an_independent_draw() {
    let mut seed = [0u8; 32];
    for i in 0..32 {
        seed[i] = 3 * i as u8 + 1;
    }
    let mut state = VRFState { seed, counter: 0x0102_0304_0506_0708 };
    let number = generate_random_number(&mut state);
    assert_eq!(state.counter, 0x0102_0304_0506_0709);
    assert_eq!(number, expected_number(&seed, 0x0102_0304_0506_0709));
    assert_ne!(number, expected_number(&seed, 0x0102_0304_0506_0708));
}

#[test]
fn a_drawn_number_verifies_and_no_other() {
    let mut state = VRFState { seed: [0u8; 32], counter: 0 };
    let number = generate_random_number(&mut state);
    assert!(verify_random_number(&state, number));
    assert!(!verify_random_number(&state, number + 1));
    assert!(!verify_random_number(&state, 0));
    let next = generate_random_number(&mut state);
    assert!(verify_random_number(&state, next));
    assert!(!verify_random_number(&state, number));
    assert!(verify_random_number(&VRFState { seed: [0u8; 32], counter: 4 }, DRAWS[3]));
}

#[test]
fn settling_pays_on_even_and_takes_on_odd() {
    let mut game = GameState::new();
    assert_eq!(game.settle(100, 4), Ok(()));
    assert_eq!(game.player_balance, 1100);
    assert_eq!(game.last_random_number, 4);
    assert_eq!(game.settle(1100, 7), Ok(()));
    assert_eq!(game.player_balance, 0);
    assert_eq!(game.last_random_number, 7);
    assert_eq!(game.settle(0, 9), Ok(()));
    assert_eq!(game.player_balance, 0);
    assert_eq!(game.settle(1, 2), Err(ProgramError::InsufficientFunds));
    assert_eq!(game.last_random_number, 9);
    assert_eq!(game.vrf_state.counter, 0);
}

#[test]
fn a_win_that_the_balance_cannot_hold_is_refused() {
    let mut game = GameState::new();
    game.player_balance = u64::MAX - 5;
    assert_eq!(game.settle(6, 2), Err(ProgramError::ArithmeticOverflow));
    assert_eq!(game.player_balance, u64::MAX - 5);
    assert_eq!(game.last_random_number, 0);
    assert_eq!(game.settle(5, 2), Ok(()));
    assert_eq!(game.player_balance, u64::MAX);
}

#[test]
fn a_count_that_cannot_go_up_is_refused() {
    let mut game = GameState::new();
    game.vrf_state.counter = u64::MAX;
    assert_eq!(game.play(1), Err(ProgramError::ArithmeticOverflow));
    assert_eq!(game.vrf_state.counter, u64::MAX);
    assert_eq!(game.player_balance, 1000);
    assert_eq!(game.play(1001), Err(ProgramError::InsufficientFunds));
}

#[test]
fn playing_draws_and_settles() {
    // the numbers of a seed of zeros: odd, odd, odd, even, odd
    let mut game = GameState::new();
    let balances = [900u64, 800, 700, 800, 700];
    for round in 0..5 {
        assert_eq!(game.play(100), Ok(()));
        assert_eq!(game.last_random_number, DRAWS[round]);
        assert_eq!(game.vrf_state.counter, round as u64 + 1);
        assert_eq!(game.player_balance, balances[round]);
        assert!(verify_random_number(&game.vrf_state, game.last_random_number));
    }
    assert_eq!(game.play(701), Err(ProgramError::InsufficientFunds));
    assert_eq!(game.vrf_state.counter, 5);
    assert_eq!(game.player_balance, 700);
}

#[test]
fn operations_on_the_stored_game() {
    let mut accounts = vec![account(vec![0xaa; 60])];
    assert_eq!(
        process_instruction(&program(), &mut accounts, &GameInstruction::Initialize.to_vec()),
        Ok(())
    );
    assert_eq!(accounts[0].data.len(), 60);
    assert_eq!(&accounts[0].data[..56], &GameState::new().to_vec()[..]);
    assert_eq!(&accounts[0].data[56..], &[0xaa; 4]);

    assert_eq!(
        process_instruction(&program(), &mut accounts, &GameInstruction::Play(250).to_vec()),
        Ok(())
    );
    let game = GameState::deserialize(&accounts[0].data).unwrap();
    assert_eq!(game.player_balance, 750);
    assert_eq!(game.last_random_number, DRAWS[0]);
    assert_eq!(game.vrf_state.counter, 1);
    assert_eq!(&accounts[0].data[56..], &[0xaa; 4]);

    let before = accounts[0].data.clone();
    assert_eq!(
        process_instruction(&program(), &mut accounts, &GameInstruction::Verify(DRAWS[0]).to_vec()),
        Ok(())
    );
    assert_eq!(
        process_instruction(&program(), &mut accounts, &GameInstruction::Verify(1).to_vec()),
        Ok(())
    );
    assert_eq!(accounts[0].data, before);

    assert_eq!(
        process_instruction(&program(), &mut accounts, &GameInstruction::Play(751).to_vec()),
        Err(ProgramError::InsufficientFunds)
    );
    assert_eq!(accounts[0].data, before);
}

#[test]
fn operations_on_the_stored_game_that_fail() {
    let mut accounts = vec![account(vec![0; 56])];
    assert_eq!(
        process_instruction(&program(), &mut accounts, &[]),
        Err(ProgramError::InvalidInstructionData)
    );
    assert_eq!(
        process_instruction(&program(), &mut accounts, &[0, 0]),
        Err(ProgramError::InvalidInstructionData)
    );
    assert_eq!(
        process_instruction(&program(), &mut accounts, &[7]),
        Err(ProgramError::InvalidInstructionData)
    );
    assert_eq!(accounts[0].data, vec![0; 56]);

    let mut none: Vec<AccountInfo> = Vec::new();
    assert_eq!(
        process_instruction(&program(), &mut none, &[0]),
        Err(ProgramError::NotEnoughAccountKeys)
    );
    assert_eq!(
        process_instruction(&program(), &mut none, &[9]),
        Err(ProgramError::InvalidInstructionData)
    );

    let mut small = vec![account(vec![1; 55])];
    assert_eq!(process_instruction(&program(), &mut small, &[0]), Err(ProgramError::BorshIoError));
    assert_eq!(
        process_instruction(&program(), &mut small, &GameInstruction::Play(1).to_vec()),
        Err(ProgramError::BorshIoError)
    );
    assert_eq!(
        process_instruction(&program(), &mut small, &GameInstruction::Verify(1).to_vec()),
        Err(ProgramError::BorshIoError)
    );
    assert_eq!(small[0].data, vec![1; 55]);

    let mut rich = GameState::new();
    rich.player_balance = u64::MAX;
    rich.vrf_state.counter = 3;
    let mut accounts = vec![account(rich.to_vec())];
    // the fourth number of a seed of zeros is even: the stake would be won
    assert_eq!(
        process_instruction(&program(), &mut accounts, &GameInstruction::Play(1).to_vec()),
        Err(ProgramError::ArithmeticOverflow)
    );
    assert_eq!(accounts[0].data, rich.to_vec());
}
