//! A game of even and odd on one account: a player stakes part of a balance on a
//! number that is drawn from a seed and a counter, and anyone can check a drawn
//! number against the stored seed and counter.

use crate::account::{accounts_view, store, AccountInfo, AccountView, Pubkey};
use crate::codec::{
    encode_u64, encode_u8, lemma_fixed_accepts, lemma_fixed_read_back, lemma_u64_accepts,
    lemma_u64_read_back, lemma_u8_accepts, lemma_u8_read_back, parse_fixed, parse_u64, parse_u8,
    read_array, read_u64, read_u8, write_fixed, write_u64, write_u8,
};
use crate::error::{DecodeError, ProgramError};
use crate::processor::outcome;
use rand::rngs::StdRng;
use rand::{Rng, SeedableRng};
use sha2::{Digest, Sha256};
use vstd::prelude::*;

verus! {

/// The balance that a player starts with.
pub const STARTING_BALANCE: u64 = 1000;

/// The number of bytes that a stored game takes.
pub const GAME_STATE_LEN: usize = 56;

// ---------------------------------------------------------------------------
// Drawing a number
// ---------------------------------------------------------------------------

/// The SHA-256 digest of `data`, as the crate `sha2` computes it.
pub uninterp spec fn spec_sha256(data: Seq<u8>) -> [u8; 32];

/// The first `u64` that the standard generator of the crate `rand` gives after
/// it was seeded with `seed`.
pub uninterp spec fn spec_first_draw(seed: Seq<u8>) -> u64;

/// Calls `Sha256::digest` of the crate `sha2` on `data`. Trusted: the thirty-two
/// bytes that come back are the digest of `data`, a function of `data` alone, which
/// this library names `spec_sha256` and knows nothing more about.
#[verifier::external_body]
fn sha256(data: &[u8]) -> (digest: [u8; 32])
    ensures
        digest == spec_sha256(data@),
{
    Sha256::digest(data).into()
}

/// Seeds a `StdRng` of the crate `rand` with `seed` (`SeedableRng::from_seed`) and
/// draws one `u64` from it (`Rng::gen`). Trusted: the number is a function of the
/// seed alone, which this library names `spec_first_draw` and knows nothing more
/// about. The generator is deterministic; which algorithm it runs is a matter of
/// the crate's version, so the name stands for the version that is built in.
#[verifier::external_body]
fn first_draw(seed: [u8; 32]) -> (number: u64)
    ensures
        number == spec_first_draw(seed@),
{
    StdRng::from_seed(seed).gen::<u64>()
}

/// The number that belongs to `seed` and `counter`: the first draw of a generator
/// that is seeded with the digest of the seed followed by the counter's eight
/// bytes, lowest first.
pub open spec fn random_number(seed: Seq<u8>, counter: u64) -> u64 {
    spec_first_draw(spec_sha256(seed + encode_u64(counter))@)
}

fn draw(seed: &[u8; 32], counter: u64) -> (number: u64)
    ensures
        number == random_number(seed@, counter),
{
    let mut input: Vec<u8> = Vec::new();
    write_fixed(&mut input, seed.as_slice());
    write_u64(&mut input, counter);
    assert(input@ =~= seed@ + encode_u64(counter));
    first_draw(sha256(input.as_slice()))
}

// ---------------------------------------------------------------------------
// The stored game
// ---------------------------------------------------------------------------

/// The seed and the count of the numbers drawn from it.
#[derive(Clone, Copy, Debug)]
pub struct VRFState {
    pub seed: [u8; 32],
    pub counter: u64,
}

/// A player's game.
#[derive(Clone, Copy, Debug)]
pub struct GameState {
    pub player_balance: u64,
    pub last_random_number: u64,
    pub vrf_state: VRFState,
}

/// A game as mathematics.
pub struct GameStateView {
    pub player_balance: u64,
    pub last_random_number: u64,
    pub seed: Seq<u8>,
    pub counter: u64,
}

impl View for GameState {
    type V = GameStateView;

    open spec fn view(&self) -> GameStateView {
        GameStateView {
            player_balance: self.player_balance,
            last_random_number: self.last_random_number,
            seed: self.vrf_state.seed@,
            counter: self.vrf_state.counter,
        }
    }
}

impl GameStateView {
    /// The seed is thirty-two bytes.
    pub open spec fn well_formed(self) -> bool {
        self.seed.len() == 32
    }

    /// A game before its first stake.
    pub open spec fn fresh() -> GameStateView {
        GameStateView {
            player_balance: STARTING_BALANCE,
            last_random_number: 0,
            seed: Seq::new(32, |i: int| 0u8),
            counter: 0,
        }
    }

    /// The game as its bytes: the fields in their order, the numbers lowest byte
    /// first.
    pub open spec fn encode(self) -> Seq<u8> {
        encode_u64(self.player_balance) + encode_u64(self.last_random_number) + self.seed
            + encode_u64(self.counter)
    }

    /// Reads a game from the front of `s`; gives it with the bytes that follow.
    pub open spec fn parse(s: Seq<u8>) -> Option<(GameStateView, Seq<u8>)> {
        match parse_u64(s) {
            None => None,
            Some((player_balance, s1)) => match parse_u64(s1) {
                None => None,
                Some((last_random_number, s2)) => match parse_fixed(s2, 32) {
                    None => None,
                    Some((seed, s3)) => match parse_u64(s3) {
                        None => None,
                        Some((counter, rest)) => Some(
                            (
                                GameStateView { player_balance, last_random_number, seed, counter },
                                rest,
                            ),
                        ),
                    },
                },
            },
        }
    }

    /// The game after a stake of `bet` on the drawn `number`: an even number wins
    /// the stake, an odd one loses it. A stake above the balance is refused, and
    /// so is a win that the balance cannot hold.
    pub open spec fn settled(self, bet: u64, number: u64) -> Result<GameStateView, ProgramError> {
        if self.player_balance < bet {
            Err(ProgramError::InsufficientFunds)
        } else if number % 2 == 0 {
            if self.player_balance + bet > u64::MAX {
                Err(ProgramError::ArithmeticOverflow)
            } else {
                Ok(
                    GameStateView {
                        player_balance: (self.player_balance + bet) as u64,
                        last_random_number: number,
                        ..self
                    },
                )
            }
        } else {
            Ok(
                GameStateView {
                    player_balance: (self.player_balance - bet) as u64,
                    last_random_number: number,
                    ..self
                },
            )
        }
    }

    /// The game after a stake of `bet`: the count goes up, and the stake is settled
    /// on the number that belongs to the seed and the new count. A stake above the
    /// balance is refused before anything is drawn.
    pub open spec fn played(self, bet: u64) -> Result<GameStateView, ProgramError> {
        if self.player_balance < bet {
            Err(ProgramError::InsufficientFunds)
        } else if self.counter == u64::MAX {
            Err(ProgramError::ArithmeticOverflow)
        } else {
            let counter = (self.counter + 1) as u64;
            GameStateView { counter, ..self }.settled(bet, random_number(self.seed, counter))
        }
    }

    /// The number that a stake was settled on is the one that belongs to the seed
    /// and the count that the game then holds: whoever reads the game can check it.
    pub proof fn lemma_played_number_verifies(self, bet: u64)
        requires
            self.played(bet) is Ok,
        ensures
            ({
                let after = self.played(bet).unwrap();
                &&& after.counter == self.counter + 1
                &&& after.seed == self.seed
                &&& after.last_random_number == random_number(after.seed, after.counter)
                &&& after.last_random_number % 2 == 0 ==> after.player_balance
                    == self.player_balance + bet
                &&& after.last_random_number % 2 == 1 ==> after.player_balance
                    == self.player_balance - bet
            }),
    {
    }

    /// The parser reads back what `encode` wrote, whatever follows it.
    pub proof fn lemma_read_back(self, rest: Seq<u8>)
        requires
            self.well_formed(),
        ensures
            GameStateView::parse(self.encode() + rest) == Some((self, rest)),
    {
        let s3 = encode_u64(self.counter) + rest;
        let s2 = self.seed + s3;
        let s1 = encode_u64(self.last_random_number) + s2;
        assert(self.encode() + rest =~= encode_u64(self.player_balance) + s1);
        lemma_u64_read_back(self.player_balance, s1);
        lemma_u64_read_back(self.last_random_number, s2);
        lemma_fixed_read_back(self.seed, s3);
        lemma_u64_read_back(self.counter, rest);
    }

    /// What the parser accepts is a well-formed game's encoding and the rest.
    pub proof fn lemma_accepts(s: Seq<u8>)
        ensures
            GameStateView::parse(s) matches Some((game, rest)) ==> game.well_formed() && s
                == game.encode() + rest,
    {
        if let Some((game, rest)) = GameStateView::parse(s) {
            lemma_u64_accepts(s);
            let s1 = parse_u64(s).unwrap().1;
            lemma_u64_accepts(s1);
            let s2 = parse_u64(s1).unwrap().1;
            lemma_fixed_accepts(s2, 32);
            let s3 = parse_fixed(s2, 32).unwrap().1;
            lemma_u64_accepts(s3);
            assert(s =~= game.encode() + rest);
        }
    }
}

/// Draws the next number of `vrf_state`: counts up and gives the number that
/// belongs to the seed and the new count.
pub fn generate_random_number(vrf_state: &mut VRFState) -> (number: u64)
    requires
        old(vrf_state).counter < u64::MAX,
    ensures
        final(vrf_state).seed == old(vrf_state).seed,
        final(vrf_state).counter == old(vrf_state).counter + 1,
        number == random_number(final(vrf_state).seed@, final(vrf_state).counter),
{
    vrf_state.counter += 1;
    draw(&vrf_state.seed, vrf_state.counter)
}

/// Whether `number` is the number that belongs to the seed and the count of
/// `vrf_state`: the one that the last draw gave.
pub fn verify_random_number(vrf_state: &VRFState, number: u64) -> (verified: bool)
    ensures
        verified == (number == random_number(vrf_state.seed@, vrf_state.counter)),
{
    let expected_number = draw(&vrf_state.seed, vrf_state.counter);
    number == expected_number
}

impl GameState {
    /// A game before its first stake: the starting balance, a seed of zeros,
    /// nothing drawn.
    pub fn new() -> (game: GameState)
        ensures
            game@ == GameStateView::fresh(),
            game@.well_formed(),
    {
        let game = GameState {
            player_balance: 1000,
            last_random_number: 0,
            vrf_state: VRFState { seed: [0; 32], counter: 0 },
        };
        assert(game.vrf_state.seed@ =~= Seq::new(32, |i: int| 0u8));
        game
    }

    /// Reads a game from the front of `data`; what follows it is left alone.
    /// Fails exactly where `data` is shorter than a game.
    pub fn deserialize(data: &[u8]) -> (r: Result<GameState, DecodeError>)
        ensures
            match r {
                Ok(game) => GameStateView::parse(data@) matches Some((view, _)) && view == game@,
                Err(_) => GameStateView::parse(data@) is None,
            },
            r is Ok <==> data@.len() >= GAME_STATE_LEN,
    {
        proof {
            assert(data@.skip(0) =~= data@);
            Self::lemma_parse_needs_length(data@);
        }
        let Some((player_balance, pos1)) = read_u64(data, 0) else {
            return Err(DecodeError {  });
        };
        let Some((last_random_number, pos2)) = read_u64(data, pos1) else {
            return Err(DecodeError {  });
        };
        let Some((seed, pos3)) = read_array::<32>(data, pos2) else {
            return Err(DecodeError {  });
        };
        let Some((counter, _)) = read_u64(data, pos3) else {
            return Err(DecodeError {  });
        };
        Ok(GameState { player_balance, last_random_number, vrf_state: VRFState { seed, counter } })
    }

    /// A game is read from any bytes that are long enough, and from no others.
    pub proof fn lemma_parse_needs_length(s: Seq<u8>)
        ensures
            GameStateView::parse(s) is Some <==> s.len() >= GAME_STATE_LEN,
    {
        reveal(parse_u64);
        reveal(crate::codec::parse_u32);
        reveal(parse_fixed);
    }

    /// The game as its fifty-six bytes.
    pub fn to_vec(&self) -> (bytes: Vec<u8>)
        ensures
            bytes@ == self@.encode(),
            bytes@.len() == GAME_STATE_LEN,
    {
        let mut out: Vec<u8> = Vec::new();
        write_u64(&mut out, self.player_balance);
        write_u64(&mut out, self.last_random_number);
        write_fixed(&mut out, self.vrf_state.seed.as_slice());
        write_u64(&mut out, self.vrf_state.counter);
        assert(out@ =~= self@.encode());
        proof {
            reveal(encode_u64);
            reveal(crate::codec::encode_u32);
        }
        out
    }

    /// Settles a stake of `bet` on the drawn `number`. The game is left as it was
    /// where the stake is refused.
    pub fn settle(&mut self, bet: u64, number: u64) -> (r: Result<(), ProgramError>)
        ensures
            match old(self)@.settled(bet, number) {
                Ok(game) => r is Ok && final(self)@ == game,
                Err(e) => r == Err::<(), ProgramError>(e) && *final(self) == *old(self),
            },
    {
        if self.player_balance < bet {
            return Err(ProgramError::InsufficientFunds);
        }
        if number % 2 == 0 {
            match self.player_balance.checked_add(bet) {
                Some(balance) => {
                    self.player_balance = balance;
                },
                None => {
                    return Err(ProgramError::ArithmeticOverflow);
                },
            }
        } else {
            self.player_balance -= bet;
        }
        self.last_random_number = number;
        Ok(())
    }

    /// Stakes `bet` on the next number of the game: draws it and settles the
    /// stake. The game is left as it was where the stake is refused.
    pub fn play(&mut self, bet: u64) -> (r: Result<(), ProgramError>)
        ensures
            match old(self)@.played(bet) {
                Ok(game) => r is Ok && final(self)@ == game,
                Err(e) => r == Err::<(), ProgramError>(e) && *final(self) == *old(self),
            },
    {
        if self.player_balance < bet {
            return Err(ProgramError::InsufficientFunds);
        }
        if self.vrf_state.counter == u64::MAX {
            return Err(ProgramError::ArithmeticOverflow);
        }
        let mut next = *self;
        let number = generate_random_number(&mut next.vrf_state);
        match next.settle(bet, number) {
            Ok(_) => {
                *self = next;
                Ok(())
            },
            Err(e) => Err(e),
        }
    }
}

// ---------------------------------------------------------------------------
// The operations
// ---------------------------------------------------------------------------

/// What a player asks for.
#[derive(Clone, Copy, Debug, PartialEq, Eq, Structural)]
pub enum GameInstruction {
    /// Start over with a new game.
    Initialize,
    /// Stake this much on the next number.
    Play(u64),
    /// Check this number against the stored seed and count.
    Verify(u64),
}

impl GameInstruction {
    /// The operation as bytes: the byte that names it, then its number.
    pub open spec fn encode(self) -> Seq<u8> {
        match self {
            GameInstruction::Initialize => encode_u8(0),
            GameInstruction::Play(bet) => encode_u8(1) + encode_u64(bet),
            GameInstruction::Verify(number) => encode_u8(2) + encode_u64(number),
        }
    }

    /// The operation that `s` is, where `s` is one operation and nothing more.
    pub open spec fn decode(s: Seq<u8>) -> Option<GameInstruction> {
        match parse_u8(s) {
            None => None,
            Some((tag, rest)) => if tag == 0 {
                if rest.len() == 0 {
                    Some(GameInstruction::Initialize)
                } else {
                    None
                }
            } else if tag == 1 || tag == 2 {
                match parse_u64(rest) {
                    Some((number, after)) => if after.len() == 0 {
                        Some(
                            if tag == 1 {
                                GameInstruction::Play(number)
                            } else {
                                GameInstruction::Verify(number)
                            },
                        )
                    } else {
                        None
                    },
                    None => None,
                }
            } else {
                None
            },
        }
    }

    /// Decoding undoes encoding.
    pub proof fn lemma_round_trip(self)
        ensures
            GameInstruction::decode(self.encode()) == Some(self),
    {
        let empty = Seq::<u8>::empty();
        match self {
            GameInstruction::Initialize => {
                assert(self.encode() =~= encode_u8(0) + empty);
                lemma_u8_read_back(0, empty);
            },
            GameInstruction::Play(bet) => {
                assert(encode_u64(bet) =~= encode_u64(bet) + empty);
                lemma_u8_read_back(1, encode_u64(bet));
                lemma_u64_read_back(bet, empty);
            },
            GameInstruction::Verify(number) => {
                assert(encode_u64(number) =~= encode_u64(number) + empty);
                lemma_u8_read_back(2, encode_u64(number));
                lemma_u64_read_back(number, empty);
            },
        }
    }

    /// Only the encoding of an operation decodes to it.
    pub proof fn lemma_decode_is_inverse(s: Seq<u8>)
        ensures
            GameInstruction::decode(s) matches Some(instruction) ==> instruction.encode() == s,
    {
        if let Some(instruction) = GameInstruction::decode(s) {
            lemma_u8_accepts(s);
            let (tag, rest) = parse_u8(s).unwrap();
            if tag == 0 {
                assert(s =~= instruction.encode());
            } else {
                lemma_u64_accepts(rest);
                assert(s =~= instruction.encode());
            }
        }
    }

    /// Reads the operation that `data` is. Succeeds exactly on the encodings of
    /// operations.
    pub fn try_from_slice(data: &[u8]) -> (r: Result<GameInstruction, DecodeError>)
        ensures
            match r {
                Ok(instruction) => GameInstruction::decode(data@) == Some(instruction)
                    && instruction.encode() == data@,
                Err(_) => GameInstruction::decode(data@) is None && forall|v: GameInstruction|
                    v.encode() != data@,
            },
    {
        proof {
            GameInstruction::lemma_decode_is_inverse(data@);
            assert forall|v: GameInstruction| v.encode() == data@ implies GameInstruction::decode(
                data@,
            ) is Some by {
                v.lemma_round_trip();
            }
            assert(data@.skip(0) =~= data@);
        }
        let Some((tag, start)) = read_u8(data, 0) else {
            return Err(DecodeError {  });
        };
        if tag == 0 {
            if start != data.len() {
                return Err(DecodeError {  });
            }
            return Ok(GameInstruction::Initialize);
        }
        if tag != 1 && tag != 2 {
            return Err(DecodeError {  });
        }
        let Some((number, end)) = read_u64(data, start) else {
            return Err(DecodeError {  });
        };
        if end != data.len() {
            return Err(DecodeError {  });
        }
        if tag == 1 {
            Ok(GameInstruction::Play(number))
        } else {
            Ok(GameInstruction::Verify(number))
        }
    }

    /// The operation as bytes.
    pub fn to_vec(&self) -> (bytes: Vec<u8>)
        ensures
            bytes@ == self.encode(),
    {
        let mut out: Vec<u8> = Vec::new();
        match self {
            GameInstruction::Initialize => {
                write_u8(&mut out, 0);
            },
            GameInstruction::Play(bet) => {
                write_u8(&mut out, 1);
                write_u64(&mut out, *bet);
            },
            GameInstruction::Verify(number) => {
                write_u8(&mut out, 2);
                write_u64(&mut out, *number);
            },
        }
        assert(out@ =~= self.encode());
        out
    }
}

/// The account's bytes after `game` was written over their front; the account
/// has to be long enough to hold a game.
pub open spec fn stored(account: AccountView, game: GameStateView) -> Result<
    AccountView,
    ProgramError,
> {
    if account.data.len() < GAME_STATE_LEN {
        Err(ProgramError::BorshIoError)
    } else {
        Ok(account.with_data(game.encode() + account.data.skip(GAME_STATE_LEN as int)))
    }
}

/// What the operation `instruction_data` does to the game in the first account.
pub open spec fn process_instruction_result(
    accounts: Seq<AccountView>,
    instruction_data: Seq<u8>,
) -> Result<Seq<AccountView>, ProgramError> {
    match GameInstruction::decode(instruction_data) {
        None => Err(ProgramError::InvalidInstructionData),
        Some(instruction) => if accounts.len() == 0 {
            Err(ProgramError::NotEnoughAccountKeys)
        } else {
            match instruction {
                GameInstruction::Initialize => match stored(accounts[0], GameStateView::fresh()) {
                    Ok(account) => Ok(accounts.update(0, account)),
                    Err(e) => Err(e),
                },
                GameInstruction::Play(bet) => match GameStateView::parse(accounts[0].data) {
                    None => Err(ProgramError::BorshIoError),
                    Some((game, _)) => match game.played(bet) {
                        Err(e) => Err(e),
                        Ok(after) => match stored(accounts[0], after) {
                            Ok(account) => Ok(accounts.update(0, account)),
                            Err(e) => Err(e),
                        },
                    },
                },
                GameInstruction::Verify(number) => match GameStateView::parse(accounts[0].data) {
                    None => Err(ProgramError::BorshIoError),
                    Some(_) => Ok(accounts),
                },
            }
        },
    }
}

fn store_game(accounts: &mut Vec<AccountInfo>, game: &GameState) -> (r: Result<(), ProgramError>)
    requires
        old(accounts)@.len() > 0,
    ensures
        match stored(old(accounts)@[0]@, game@) {
            Ok(account) => r is Ok && accounts_view(final(accounts)@) == accounts_view(
                old(accounts)@,
            ).update(0, account),
            Err(e) => r == Err::<(), ProgramError>(e) && accounts_view(final(accounts)@)
                == accounts_view(old(accounts)@),
        },
{
    let len = accounts[0].data.len();
    if len < GAME_STATE_LEN {
        return Err(ProgramError::BorshIoError);
    }
    let mut bytes = game.to_vec();
    let tail = vstd::slice::slice_subrange(accounts[0].data.as_slice(), GAME_STATE_LEN, len);
    bytes.extend_from_slice(tail);
    assert(bytes@ =~= game@.encode() + accounts@[0]@.data.skip(GAME_STATE_LEN as int));
    store(accounts, 0, bytes);
    Ok(())
}

/// Runs the operation that `instruction_data` encodes on the game that is stored
/// at the front of the first account. It is done in full, or it fails and the
/// account stays as it was. A check of a number changes nothing and succeeds on
/// every stored game: whether the number is the drawn one is what
/// `verify_random_number` tells. Whose program runs is not looked at.
pub fn process_instruction(
    program_id: &Pubkey,
    accounts: &mut Vec<AccountInfo>,
    instruction_data: &[u8],
) -> (r: Result<(), ProgramError>)
    ensures
        outcome(
            r,
            accounts_view(old(accounts)@),
            accounts_view(final(accounts)@),
            process_instruction_result(accounts_view(old(accounts)@), instruction_data@),
        ),
{
    let instruction = match GameInstruction::try_from_slice(instruction_data) {
        Ok(instruction) => instruction,
        Err(_) => {
            return Err(ProgramError::InvalidInstructionData);
        },
    };
    if accounts.len() == 0 {
        return Err(ProgramError::NotEnoughAccountKeys);
    }
    match instruction {
        GameInstruction::Initialize => {
            let game_state = GameState::new();
            store_game(accounts, &game_state)
        },
        GameInstruction::Play(bet_amount) => {
            let mut game_state = match GameState::deserialize(accounts[0].data.as_slice()) {
                Ok(game) => game,
                Err(_) => {
                    return Err(ProgramError::BorshIoError);
                },
            };
            if let Err(e) = game_state.play(bet_amount) {
                return Err(e);
            }
            store_game(accounts, &game_state)
        },
        GameInstruction::Verify(_) => {
            match GameState::deserialize(accounts[0].data.as_slice()) {
                Ok(_) => Ok(()),
                Err(_) => Err(ProgramError::BorshIoError),
            }
        },
    }
}

} // verus!
