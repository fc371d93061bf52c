use vrf_program::client::{
    fulfill_randomness_data, guess_in_range, initialize_game_data, initialize_vrf_data,
    request_randomness_data, submit_guess_data, wait_step, WaitStep, MAX_POLLS,
    POLL_INTERVAL_SECS,
};
use vrf_program::entrypoint::{pack_game_instruction, pack_vrf_instruction};
use vrf_program::state::GameState;
use vrf_program::{GameInstruction, VrfInstruction};

#[test]
fn operations_are_sent_with_their_domain_byte() {
    assert_eq!(initialize_vrf_data(), vec![1, 0]);
    assert_eq!(initialize_game_data(), vec![0, 0]);
    assert_eq!(request_randomness_data(vec![0xaa, 0xbb, 0xcc]).unwrap(), vec![1, 1, 3, 0, 0, 0, 0xaa, 0xbb, 0xcc]);
    assert_eq!(request_randomness_data(Vec::new()).unwrap(), vec![1, 1, 0, 0, 0, 0]);
    let mut reveal = vec![1u8, 2];
    reveal.extend_from_slice(&[0x31; 64]);
    assert_eq!(fulfill_randomness_data([0x31; 64]), reveal);
    assert_eq!(submit_guess_data(42), vec![0, 1, 42]);
}

#[test]
fn packing_puts_the_domain_before_the_operation() {
    assert_eq!(pack_game_instruction(&GameInstruction::SubmitGuess { guess: 3 }), vec![0, 1, 3]);
    assert_eq!(pack_game_instruction(&GameInstruction::InitializeGame), vec![0, 0]);
    assert_eq!(pack_vrf_instruction(&VrfInstruction::Initialize).unwrap(), vec![1, 0]);
    assert_eq!(
        pack_vrf_instruction(&VrfInstruction::RequestRandomness { seed: vec![8] }).unwrap(),
        vec![1, 1, 1, 0, 0, 0, 8]
    );
}

#[test]
fn guesses_are_the_numbers_below_100() {
    assert!(guess_in_range(0));
    assert!(guess_in_range(55));
    assert!(guess_in_range(99));
    assert!(!guess_in_range(100));
    assert!(!guess_in_range(255));
}

#[test]
fn waiting_ends_when_the_phase_is_reached_or_after_thirty_looks() {
    assert_eq!(MAX_POLLS, 30);
    assert_eq!(POLL_INTERVAL_SECS, 2);
    let awaited = GameState::AwaitingPlayerGuess;
    assert_eq!(wait_step(1, GameState::AwaitingPlayerGuess, awaited), WaitStep::Reached);
    assert_eq!(wait_step(30, GameState::AwaitingPlayerGuess, awaited), WaitStep::Reached);
    assert_eq!(wait_step(1, GameState::AwaitingRandomness, awaited), WaitStep::Retry);
    assert_eq!(wait_step(29, GameState::GameComplete, awaited), WaitStep::Retry);
    assert_eq!(wait_step(30, GameState::AwaitingRandomness, awaited), WaitStep::TimedOut);
    assert_eq!(wait_step(31, GameState::GameComplete, awaited), WaitStep::TimedOut);
    let mut looks = 0;
    let mut polls = 0u32;
    loop {
        polls += 1;
        looks += 1;
        match wait_step(polls, GameState::AwaitingRandomness, GameState::GameComplete) {
            WaitStep::Retry => {}
            other => {
                assert_eq!(other, WaitStep::TimedOut);
                break;
            }
        }
    }
    assert_eq!(looks, 30);
}
