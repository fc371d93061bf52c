//! The two records of a session and the number a game is played against.

use crate::account::Pubkey;
use crate::codec::{
    encode_bool, encode_option_bytes, encode_option_fixed, encode_option_u8, lemma_bool_accepts,
    lemma_bool_read_back, lemma_fixed_accepts, lemma_fixed_read_back, lemma_option_bytes_accepts,
    lemma_option_bytes_read_back, lemma_option_fixed_accepts, lemma_option_fixed_read_back,
    lemma_option_u8_accepts, lemma_option_u8_read_back, option_array_view, option_fits,
    option_has_len, option_vec_view, parse_bool, parse_fixed, parse_option_bytes,
    parse_option_fixed, parse_option_u8, read_array, read_bool, read_option_array,
    read_option_bytes, read_option_u8, read_u8, write_bool, write_fixed, write_option_array,
    write_option_bytes, write_option_u8, write_u8, MAX_LEN,
};
use crate::error::{DecodeError, ProgramError, VrfError};
use crate::randomness::{derive_randomness, spec_derive_randomness};
use vstd::prelude::*;

verus! {

/// Where a game stands.
#[derive(Clone, Copy, Debug, PartialEq, Eq, Structural)]
pub enum GameState {
    AwaitingRandomness,
    AwaitingPlayerGuess,
    GameComplete,
}

/// How a finished game ended for the player.
#[derive(Clone, Copy, Debug, PartialEq, Eq, Structural)]
pub enum GameResult {
    Win,
    Lose,
}

/// The number that a guess has to hit: the first byte of the randomness, reduced modulo 100.
pub open spec fn game_number(randomness: Seq<u8>) -> int {
    randomness[0] as int % 100
}

/// The number in `0..100` that the randomness stands for.
pub fn calculate_game_number(randomness: &[u8; 32]) -> (number: u8)
    ensures
        number == game_number(randomness@),
        number < 100,
{
    randomness[0] % 100
}

/// The game number lies in `0..100` whatever the randomness.
pub proof fn lemma_game_number_in_range(randomness: Seq<u8>)
    ensures
        0 <= game_number(randomness) < 100,
{
}

/// The first bytes that give the game number `n` are `n`, `n + 100` and, while
/// it is a byte, `n + 200`: the numbers below 56 come from three bytes, the
/// others from two, so the low numbers are a little more likely.
pub proof fn lemma_game_number_bias(randomness: Seq<u8>, n: int)
    requires
        0 <= n < 100,
    ensures
        game_number(randomness) == n <==> randomness[0] == n || randomness[0] == n + 100
            || randomness[0] == n + 200,
        n + 200 <= u8::MAX <==> n < 56,
{
}

/// The bytes of a randomness record that holds none of its optional fields.
pub const VRF_ACCOUNT_MIN_LEN: usize = 68;

/// The bytes of a game record that holds none of its optional fields.
pub const GAME_ACCOUNT_MIN_LEN: usize = 37;

/// The bytes of a game record that holds all of its optional fields.
pub const GAME_ACCOUNT_MAX_LEN: usize = 71;

/// The bytes of a randomness record that holds all of its optional fields, with
/// a seed of `seed_len` bytes.
pub open spec fn spec_vrf_account_max_len(seed_len: u32) -> u64 {
    (168 + seed_len) as u64
}

/// The storage that holds a randomness record in every state, for seeds of up to
/// `seed_len` bytes.
#[verifier::when_used_as_spec(spec_vrf_account_max_len)]
pub fn vrf_account_max_len(seed_len: u32) -> (len: u64)
    ensures
        len == spec_vrf_account_max_len(seed_len),
        len == 168 + seed_len,
{
    168 + seed_len as u64
}

// ---------------------------------------------------------------------------
// The phase and the result as bytes
// ---------------------------------------------------------------------------

impl GameState {
    /// The byte that stands for the phase.
    pub open spec fn tag(self) -> u8 {
        match self {
            GameState::AwaitingRandomness => 0,
            GameState::AwaitingPlayerGuess => 1,
            GameState::GameComplete => 2,
        }
    }

    /// How far a game has come: a guess follows the randomness, the end follows the guess.
    pub open spec fn rank(self) -> int {
        self.tag() as int
    }

    /// The phase as its byte.
    pub open spec fn encode(self) -> Seq<u8> {
        seq![self.tag()]
    }

    /// Reads a phase: a byte that names one. Any other byte is refused.
    #[verifier::opaque]
    pub open spec fn parse(s: Seq<u8>) -> Option<(GameState, Seq<u8>)> {
        if s.len() >= 1 && s[0] <= 2 {
            let phase = if s[0] == 0 {
                GameState::AwaitingRandomness
            } else if s[0] == 1 {
                GameState::AwaitingPlayerGuess
            } else {
                GameState::GameComplete
            };
            Some((phase, s.skip(1)))
        } else {
            None
        }
    }

    /// Reading gives back the phase that was written, whatever follows it.
    pub proof fn lemma_read_back(self, rest: Seq<u8>)
        ensures
            GameState::parse(self.encode() + rest) == Some((self, rest)),
    {
        reveal(GameState::parse);
        assert((self.encode() + rest).skip(1) =~= rest);
    }

    /// What is read as a phase is its encoding, followed by the rest.
    pub proof fn lemma_accepts(s: Seq<u8>)
        ensures
            GameState::parse(s) matches Some((phase, rest)) ==> s == phase.encode() + rest,
    {
        reveal(GameState::parse);
        if let Some((phase, rest)) = GameState::parse(s) {
            assert(s =~= phase.encode() + rest);
        }
    }
}

impl GameResult {
    /// The byte that stands for the result.
    pub open spec fn tag(self) -> u8 {
        match self {
            GameResult::Win => 0,
            GameResult::Lose => 1,
        }
    }

    /// An optional result: a cleared flag, or a set flag and the result's byte.
    pub open spec fn encode_option(value: Option<GameResult>) -> Seq<u8> {
        match value {
            None => encode_bool(false),
            Some(result) => encode_bool(true) + seq![result.tag()],
        }
    }

    /// Reads an optional result. A byte that names no result is refused.
    #[verifier::opaque]
    pub open spec fn parse_option(s: Seq<u8>) -> Option<(Option<GameResult>, Seq<u8>)> {
        match parse_bool(s) {
            None => None,
            Some((false, rest)) => Some((None, rest)),
            Some((true, rest)) => if rest.len() >= 1 && rest[0] <= 1 {
                let result = if rest[0] == 0 {
                    GameResult::Win
                } else {
                    GameResult::Lose
                };
                Some((Some(result), rest.skip(1)))
            } else {
                None
            },
        }
    }

    /// Reading gives back the optional result that was written, whatever follows it.
    pub proof fn lemma_option_read_back(value: Option<GameResult>, rest: Seq<u8>)
        ensures
            GameResult::parse_option(GameResult::encode_option(value) + rest) == Some(
                (value, rest),
            ),
    {
        reveal(GameResult::parse_option);
        match value {
            None => {
                lemma_bool_read_back(false, rest);
            },
            Some(result) => {
                let tail = seq![result.tag()] + rest;
                assert(GameResult::encode_option(value) + rest =~= encode_bool(true) + tail);
                lemma_bool_read_back(true, tail);
                assert(tail.skip(1) =~= rest);
            },
        }
    }

    /// What is read as an optional result is its encoding, followed by the rest.
    pub proof fn lemma_option_accepts(s: Seq<u8>)
        ensures
            GameResult::parse_option(s) matches Some((value, rest)) ==> s
                == GameResult::encode_option(value) + rest,
    {
        reveal(GameResult::parse_option);
        if let Some((value, rest)) = GameResult::parse_option(s) {
            lemma_bool_accepts(s);
            let (flag, after) = parse_bool(s).unwrap();
            if flag {
                assert(after =~= seq![value.unwrap().tag()] + rest);
                assert(s =~= GameResult::encode_option(value) + rest);
            }
        }
    }
}

// ---------------------------------------------------------------------------
// The randomness record
// ---------------------------------------------------------------------------

/// What a randomness record holds, as mathematics.
pub struct VrfAccountView {
    pub authority: Seq<u8>,
    pub is_initialized: bool,
    pub seed: Option<Seq<u8>>,
    pub randomness: Option<Seq<u8>>,
    pub proof: Option<Seq<u8>>,
    pub public_key: Seq<u8>,
}

impl VrfAccountView {
    /// Every field has the length that its type gives it, and the seed is short
    /// enough for its length prefix.
    pub open spec fn well_formed(self) -> bool {
        &&& self.authority.len() == 32
        &&& option_fits(self.seed)
        &&& option_has_len(self.randomness, 32)
        &&& option_has_len(self.proof, 64)
        &&& self.public_key.len() == 32
    }

    /// Randomness and proof come together, and only after a seed.
    pub open spec fn consistent(self) -> bool {
        &&& self.randomness is Some <==> self.proof is Some
        &&& self.randomness is Some ==> self.seed is Some
    }

    /// The record as its bytes: the fields in their order.
    pub open spec fn encode(self) -> Seq<u8> {
        self.authority + encode_bool(self.is_initialized) + encode_option_bytes(self.seed)
            + encode_option_fixed(self.randomness) + encode_option_fixed(self.proof)
            + self.public_key
    }

    /// Reads a record from the front of `s`; gives it with the bytes that follow.
    pub open spec fn parse(s: Seq<u8>) -> Option<(VrfAccountView, Seq<u8>)> {
        match parse_fixed(s, 32) {
            None => None,
            Some((authority, s1)) => match parse_bool(s1) {
                None => None,
                Some((is_initialized, s2)) => match parse_option_bytes(s2) {
                    None => None,
                    Some((seed, s3)) => match parse_option_fixed(s3, 32) {
                        None => None,
                        Some((randomness, s4)) => match parse_option_fixed(s4, 64) {
                            None => None,
                            Some((proof, s5)) => match parse_fixed(s5, 32) {
                                None => None,
                                Some((public_key, rest)) => Some(
                                    (
                                        VrfAccountView {
                                            authority,
                                            is_initialized,
                                            seed,
                                            randomness,
                                            proof,
                                            public_key,
                                        },
                                        rest,
                                    ),
                                ),
                            },
                        },
                    },
                },
            },
        }
    }

    /// The record that `s` is, where `s` is one record and nothing more.
    pub open spec fn decode(s: Seq<u8>) -> Option<VrfAccountView> {
        match VrfAccountView::parse(s) {
            Some((record, rest)) => if rest.len() == 0 {
                Some(record)
            } else {
                None
            },
            None => None,
        }
    }

    /// A record right after its initialization by `authority`.
    pub open spec fn fresh(authority: Seq<u8>) -> VrfAccountView {
        VrfAccountView {
            authority,
            is_initialized: true,
            seed: None,
            randomness: None,
            proof: None,
            public_key: Seq::new(32, |i: int| 1u8),
        }
    }

    /// The record after a commitment to `seed`: what was revealed before is gone.
    pub open spec fn committed(self, seed: Seq<u8>) -> VrfAccountView {
        VrfAccountView { seed: Some(seed), randomness: None, proof: None, ..self }
    }

    /// Whether `acting` may reveal: the authority may, once a seed is committed.
    pub open spec fn may_reveal(self, acting: Seq<u8>) -> bool {
        acting == self.authority && self.seed is Some
    }

    /// The record after `proof` was revealed and gave `randomness`.
    pub open spec fn revealed(self, proof: Seq<u8>, randomness: Seq<u8>) -> VrfAccountView {
        VrfAccountView { proof: Some(proof), randomness: Some(randomness), ..self }
    }

    /// The number of bytes that the record takes.
    pub open spec fn encoded_len(self) -> nat {
        VRF_ACCOUNT_MIN_LEN as nat + match self.seed {
            Some(seed) => 4 + seed.len(),
            None => 0,
        } + match self.randomness {
            Some(_) => 32nat,
            None => 0,
        } + match self.proof {
            Some(_) => 64nat,
            None => 0,
        }
    }

    /// The encoding is as long as `encoded_len` says: a record with a seed of at
    /// most `seed_len` bytes fits into `vrf_account_max_len(seed_len)` bytes.
    pub proof fn lemma_encoded_len(self)
        requires
            self.well_formed(),
        ensures
            self.encode().len() == self.encoded_len(),
            forall|seed_len: u32|
                (self.seed matches Some(seed) ==> seed.len() <= seed_len) ==> self.encode().len()
                    <= #[trigger] spec_vrf_account_max_len(seed_len),
    {
        reveal(encode_option_bytes);
        reveal(crate::codec::encode_bytes);
        reveal(crate::codec::encode_u32);
        reveal(encode_option_fixed);
    }

    /// A commitment and a reveal keep the record consistent, and a new record is.
    pub proof fn lemma_steps_keep_consistent(self, seed: Seq<u8>, proof: Seq<u8>, randomness: Seq<u8>)
        ensures
            VrfAccountView::fresh(self.authority).consistent(),
            self.committed(seed).consistent(),
            self.seed is Some ==> self.revealed(proof, randomness).consistent(),
    {
    }

    /// The parser reads back what `encode` wrote, whatever follows it.
    pub proof fn lemma_read_back(self, rest: Seq<u8>)
        requires
            self.well_formed(),
        ensures
            VrfAccountView::parse(self.encode() + rest) == Some((self, rest)),
    {
        let s5 = self.public_key + rest;
        let s4 = encode_option_fixed(self.proof) + s5;
        let s3 = encode_option_fixed(self.randomness) + s4;
        let s2 = encode_option_bytes(self.seed) + s3;
        let s1 = encode_bool(self.is_initialized) + s2;
        assert(self.encode() + rest =~= self.authority + s1);
        lemma_fixed_read_back(self.authority, s1);
        lemma_bool_read_back(self.is_initialized, s2);
        lemma_option_bytes_read_back(self.seed, s3);
        lemma_option_fixed_read_back(self.randomness, 32, s4);
        lemma_option_fixed_read_back(self.proof, 64, s5);
        lemma_fixed_read_back(self.public_key, rest);
    }

    /// What the parser accepts is a well-formed record's encoding and the rest.
    pub proof fn lemma_accepts(s: Seq<u8>)
        ensures
            VrfAccountView::parse(s) matches Some((record, rest)) ==> record.well_formed() && s
                == record.encode() + rest,
    {
        if let Some((record, rest)) = VrfAccountView::parse(s) {
            lemma_fixed_accepts(s, 32);
            let s1 = parse_fixed(s, 32).unwrap().1;
            lemma_bool_accepts(s1);
            let s2 = parse_bool(s1).unwrap().1;
            lemma_option_bytes_accepts(s2);
            let s3 = parse_option_bytes(s2).unwrap().1;
            lemma_option_fixed_accepts(s3, 32);
            let s4 = parse_option_fixed(s3, 32).unwrap().1;
            lemma_option_fixed_accepts(s4, 64);
            let s5 = parse_option_fixed(s4, 64).unwrap().1;
            lemma_fixed_accepts(s5, 32);
            assert(s =~= record.encode() + rest);
        }
    }

    /// Decoding undoes encoding.
    pub proof fn lemma_round_trip(self)
        requires
            self.well_formed(),
        ensures
            VrfAccountView::decode(self.encode()) == Some(self),
    {
        self.lemma_read_back(Seq::empty());
        assert(self.encode() + Seq::<u8>::empty() =~= self.encode());
    }

    /// Only the encoding of a well-formed record decodes to it.
    pub proof fn lemma_decode_is_inverse(s: Seq<u8>)
        ensures
            VrfAccountView::decode(s) matches Some(record) ==> record.well_formed()
                && record.encode() == s,
    {
        if let Some(record) = VrfAccountView::decode(s) {
            VrfAccountView::lemma_accepts(s);
            let rest = VrfAccountView::parse(s).unwrap().1;
            assert(record.encode() + rest =~= record.encode());
        }
    }

    /// The bytes say which record they are: no two well-formed records share an
    /// encoding, so whether an optional field is there can always be told.
    pub proof fn lemma_encoding_is_unambiguous(self, other: VrfAccountView)
        requires
            self.well_formed(),
            other.well_formed(),
            self.encode() == other.encode(),
        ensures
            self == other,
    {
        self.lemma_round_trip();
        other.lemma_round_trip();
    }
}

// ---------------------------------------------------------------------------
// The game record
// ---------------------------------------------------------------------------

/// What a game record holds, as mathematics.
pub struct GameAccountView {
    pub authority: Seq<u8>,
    pub is_initialized: bool,
    pub randomness: Option<Seq<u8>>,
    pub game_state: GameState,
    pub player_guess: Option<u8>,
    pub result: Option<GameResult>,
}

impl GameAccountView {
    /// Every field has the length that its type gives it.
    pub open spec fn well_formed(self) -> bool {
        &&& self.authority.len() == 32
        &&& option_has_len(self.randomness, 32)
    }

    /// The optional fields are there exactly as the phase says: nothing while the
    /// randomness is awaited, the randomness alone while the guess is awaited, and
    /// guess and result once the game is complete.
    pub open spec fn consistent(self) -> bool {
        match self.game_state {
            GameState::AwaitingRandomness => self.randomness is None && self.player_guess is None
                && self.result is None,
            GameState::AwaitingPlayerGuess => self.randomness is Some && self.player_guess is None
                && self.result is None,
            GameState::GameComplete => self.player_guess is Some && self.result is Some,
        }
    }

    /// The record as its bytes: the fields in their order.
    pub open spec fn encode(self) -> Seq<u8> {
        self.authority + encode_bool(self.is_initialized) + encode_option_fixed(self.randomness)
            + self.game_state.encode() + encode_option_u8(self.player_guess)
            + GameResult::encode_option(self.result)
    }

    /// Reads a record from the front of `s`; gives it with the bytes that follow.
    pub open spec fn parse(s: Seq<u8>) -> Option<(GameAccountView, Seq<u8>)> {
        match parse_fixed(s, 32) {
            None => None,
            Some((authority, s1)) => match parse_bool(s1) {
                None => None,
                Some((is_initialized, s2)) => match parse_option_fixed(s2, 32) {
                    None => None,
                    Some((randomness, s3)) => match GameState::parse(s3) {
                        None => None,
                        Some((game_state, s4)) => match parse_option_u8(s4) {
                            None => None,
                            Some((player_guess, s5)) => match GameResult::parse_option(s5) {
                                None => None,
                                Some((result, rest)) => Some(
                                    (
                                        GameAccountView {
                                            authority,
                                            is_initialized,
                                            randomness,
                                            game_state,
                                            player_guess,
                                            result,
                                        },
                                        rest,
                                    ),
                                ),
                            },
                        },
                    },
                },
            },
        }
    }

    /// The record that `s` is, where `s` is one record and nothing more.
    pub open spec fn decode(s: Seq<u8>) -> Option<GameAccountView> {
        match GameAccountView::parse(s) {
            Some((record, rest)) => if rest.len() == 0 {
                Some(record)
            } else {
                None
            },
            None => None,
        }
    }

    /// A record right after its initialization by `authority`.
    pub open spec fn fresh(authority: Seq<u8>) -> GameAccountView {
        GameAccountView {
            authority,
            is_initialized: true,
            randomness: None,
            game_state: GameState::AwaitingRandomness,
            player_guess: None,
            result: None,
        }
    }

    /// The record at the start of a round: it awaits randomness and holds nothing
    /// of the round before.
    pub open spec fn reset(self) -> GameAccountView {
        GameAccountView {
            randomness: None,
            game_state: GameState::AwaitingRandomness,
            player_guess: None,
            result: None,
            ..self
        }
    }

    /// The record after `randomness` arrived: it awaits the player's guess. A
    /// complete game takes no randomness: only a new round reopens it.
    pub open spec fn received(self, randomness: Seq<u8>) -> Result<GameAccountView, ProgramError> {
        if self.game_state == GameState::GameComplete {
            Err(invalid_game_state())
        } else {
            Ok(
                GameAccountView {
                    randomness: Some(randomness),
                    game_state: GameState::AwaitingPlayerGuess,
                    ..self
                },
            )
        }
    }

    /// How `guess` fares against `randomness`.
    pub open spec fn judge(randomness: Seq<u8>, guess: u8) -> GameResult {
        if guess == game_number(randomness) {
            GameResult::Win
        } else {
            GameResult::Lose
        }
    }

    /// The record after the player guessed `guess` against `randomness`.
    pub open spec fn guessed(self, randomness: Seq<u8>, guess: u8) -> GameAccountView {
        GameAccountView {
            player_guess: Some(guess),
            result: Some(GameAccountView::judge(randomness, guess)),
            game_state: GameState::GameComplete,
            ..self
        }
    }

    /// The record after `acting` played `guess`. Only the game's authority may
    /// play, only while the game awaits a guess, and only against randomness that
    /// is there; the refusals come in this order.
    pub open spec fn played(self, acting: Seq<u8>, guess: u8) -> Result<
        GameAccountView,
        ProgramError,
    > {
        if acting != self.authority {
            Err(invalid_authority())
        } else if self.game_state != GameState::AwaitingPlayerGuess {
            Err(invalid_game_state())
        } else {
            match self.randomness {
                None => Err(randomness_not_available()),
                Some(randomness) => Ok(self.guessed(randomness, guess)),
            }
        }
    }

    /// The number of bytes that the record takes.
    pub open spec fn encoded_len(self) -> nat {
        GAME_ACCOUNT_MIN_LEN as nat + match self.randomness {
            Some(_) => 32nat,
            None => 0,
        } + match self.player_guess {
            Some(_) => 1nat,
            None => 0,
        } + match self.result {
            Some(_) => 1nat,
            None => 0,
        }
    }

    /// The encoding is as long as `encoded_len` says, and never longer than
    /// `GAME_ACCOUNT_MAX_LEN`.
    pub proof fn lemma_encoded_len(self)
        requires
            self.well_formed(),
        ensures
            self.encode().len() == self.encoded_len(),
            GAME_ACCOUNT_MIN_LEN <= self.encode().len() <= GAME_ACCOUNT_MAX_LEN,
    {
        reveal(encode_option_fixed);
        reveal(encode_option_u8);
    }

    /// Within a round a game only moves forward. Randomness that is taken never
    /// moves the phase back and leaves the game awaiting the guess; a guess that
    /// is taken moves the game one phase on, to its end; a consistent record
    /// stays consistent under both. Randomness is refused exactly by a complete
    /// game. Only the start of a new round goes back, to a consistent record that
    /// awaits randomness.
    pub proof fn lemma_phase_moves_forward(
        self,
        randomness: Seq<u8>,
        acting: Seq<u8>,
        guess: u8,
    )
        ensures
            self.received(randomness) is Err <==> self.game_state == GameState::GameComplete,
            self.received(randomness) matches Ok(after) ==> {
                &&& after.game_state.rank() >= self.game_state.rank()
                &&& after.game_state == GameState::AwaitingPlayerGuess
                &&& after.player_guess == self.player_guess
                &&& after.result == self.result
                &&& self.consistent() ==> after.consistent()
            },
            self.played(acting, guess) matches Ok(after) ==> {
                &&& after.game_state.rank() == self.game_state.rank() + 1
                &&& after.game_state == GameState::GameComplete
                &&& after.consistent()
            },
            self.reset().game_state == GameState::AwaitingRandomness,
            self.reset().consistent(),
    {
    }

    /// The parser reads back what `encode` wrote, whatever follows it.
    pub proof fn lemma_read_back(self, rest: Seq<u8>)
        requires
            self.well_formed(),
        ensures
            GameAccountView::parse(self.encode() + rest) == Some((self, rest)),
    {
        let s5 = GameResult::encode_option(self.result) + rest;
        let s4 = encode_option_u8(self.player_guess) + s5;
        let s3 = self.game_state.encode() + s4;
        let s2 = encode_option_fixed(self.randomness) + s3;
        let s1 = encode_bool(self.is_initialized) + s2;
        assert(self.encode() + rest =~= self.authority + s1);
        lemma_fixed_read_back(self.authority, s1);
        lemma_bool_read_back(self.is_initialized, s2);
        lemma_option_fixed_read_back(self.randomness, 32, s3);
        self.game_state.lemma_read_back(s4);
        lemma_option_u8_read_back(self.player_guess, s5);
        GameResult::lemma_option_read_back(self.result, rest);
    }

    /// What the parser accepts is a well-formed record's encoding and the rest.
    pub proof fn lemma_accepts(s: Seq<u8>)
        ensures
            GameAccountView::parse(s) matches Some((record, rest)) ==> record.well_formed() && s
                == record.encode() + rest,
    {
        if let Some((record, rest)) = GameAccountView::parse(s) {
            lemma_fixed_accepts(s, 32);
            let s1 = parse_fixed(s, 32).unwrap().1;
            lemma_bool_accepts(s1);
            let s2 = parse_bool(s1).unwrap().1;
            lemma_option_fixed_accepts(s2, 32);
            let s3 = parse_option_fixed(s2, 32).unwrap().1;
            GameState::lemma_accepts(s3);
            let s4 = GameState::parse(s3).unwrap().1;
            lemma_option_u8_accepts(s4);
            let s5 = parse_option_u8(s4).unwrap().1;
            GameResult::lemma_option_accepts(s5);
            assert(s =~= record.encode() + rest);
        }
    }

    /// Decoding undoes encoding.
    pub proof fn lemma_round_trip(self)
        requires
            self.well_formed(),
        ensures
            GameAccountView::decode(self.encode()) == Some(self),
    {
        self.lemma_read_back(Seq::empty());
        assert(self.encode() + Seq::<u8>::empty() =~= self.encode());
    }

    /// Only the encoding of a well-formed record decodes to it.
    pub proof fn lemma_decode_is_inverse(s: Seq<u8>)
        ensures
            GameAccountView::decode(s) matches Some(record) ==> record.well_formed()
                && record.encode() == s,
    {
        if let Some(record) = GameAccountView::decode(s) {
            GameAccountView::lemma_accepts(s);
            let rest = GameAccountView::parse(s).unwrap().1;
            assert(record.encode() + rest =~= record.encode());
        }
    }

    /// The bytes say which record they are: no two well-formed records share an
    /// encoding, so whether an optional field is there can always be told.
    pub proof fn lemma_encoding_is_unambiguous(self, other: GameAccountView)
        requires
            self.well_formed(),
            other.well_formed(),
            self.encode() == other.encode(),
        ensures
            self == other,
    {
        self.lemma_round_trip();
        other.lemma_round_trip();
    }
}

// ---------------------------------------------------------------------------
// The records as values
// ---------------------------------------------------------------------------

/// The record of one commitment session.
#[derive(Clone, Debug)]
pub struct VrfAccountState {
    /// Who may commit and reveal.
    pub authority: Pubkey,
    pub is_initialized: bool,
    /// The committed seed, from the commitment on.
    pub seed: Option<Vec<u8>>,
    /// What the proof and the seed gave, from the reveal on.
    pub randomness: Option<[u8; 32]>,
    /// The revealed proof.
    pub proof: Option<[u8; 64]>,
    /// The key that proofs are meant to be checked against.
    pub public_key: [u8; 32],
}

impl View for VrfAccountState {
    type V = VrfAccountView;

    open spec fn view(&self) -> VrfAccountView {
        VrfAccountView {
            authority: self.authority@,
            is_initialized: self.is_initialized,
            seed: option_vec_view(self.seed),
            randomness: option_array_view(self.randomness),
            proof: option_array_view(self.proof),
            public_key: self.public_key@,
        }
    }
}

/// The error that a failed authority check ends in.
pub open spec fn invalid_authority() -> ProgramError {
    ProgramError::Custom(VrfError::InvalidAuthority.spec_code())
}

impl VrfAccountState {
    /// The record of a session that `authority` has just opened.
    pub fn new(authority: Pubkey) -> (record: VrfAccountState)
        ensures
            record@ == VrfAccountView::fresh(authority@),
            record@.well_formed(),
            record@.consistent(),
    {
        let record = VrfAccountState {
            authority,
            is_initialized: true,
            seed: None,
            randomness: None,
            proof: None,
            public_key: [1u8; 32],
        };
        assert(record.public_key@ =~= Seq::new(32, |i: int| 1u8));
        record
    }

    /// Reads the record that `data` is. Succeeds exactly on the encodings of
    /// well-formed records, and gives the record that was encoded.
    pub fn try_from_slice(data: &[u8]) -> (r: Result<VrfAccountState, DecodeError>)
        ensures
            match r {
                Ok(record) => VrfAccountView::decode(data@) == Some(record@) && record@.encode()
                    == data@,
                Err(_) => VrfAccountView::decode(data@) is None && forall|v: VrfAccountView|
                    v.well_formed() ==> v.encode() != data@,
            },
    {
        proof {
            VrfAccountView::lemma_decode_is_inverse(data@);
            assert forall|v: VrfAccountView|
                v.well_formed() && v.encode() == data@ implies VrfAccountView::decode(data@)
                is Some by {
                v.lemma_round_trip();
            }
            assert(data@.skip(0) =~= data@);
        }
        let Some((authority, pos1)) = read_array::<32>(data, 0) else {
            return Err(DecodeError {  });
        };
        let Some((is_initialized, pos2)) = read_bool(data, pos1) else {
            return Err(DecodeError {  });
        };
        let Some((seed, pos3)) = read_option_bytes(data, pos2) else {
            return Err(DecodeError {  });
        };
        let Some((randomness, pos4)) = read_option_array::<32>(data, pos3) else {
            return Err(DecodeError {  });
        };
        let Some((proof, pos5)) = read_option_array::<64>(data, pos4) else {
            return Err(DecodeError {  });
        };
        let Some((public_key, end)) = read_array::<32>(data, pos5) else {
            return Err(DecodeError {  });
        };
        if end != data.len() {
            return Err(DecodeError {  });
        }
        Ok(
            VrfAccountState {
                authority: Pubkey { bytes: authority },
                is_initialized,
                seed,
                randomness,
                proof,
                public_key,
            },
        )
    }

    /// The record as bytes, unless its seed is too long for a length prefix.
    pub fn try_to_vec(&self) -> (r: Option<Vec<u8>>)
        ensures
            match r {
                Some(bytes) => self@.well_formed() && bytes@ == self@.encode() && bytes@.len()
                    == self@.encoded_len(),
                None => !self@.well_formed(),
            },
    {
        if let Some(seed) = &self.seed {
            if seed.len() > MAX_LEN {
                return None;
            }
        }
        let mut out: Vec<u8> = Vec::new();
        write_fixed(&mut out, self.authority.bytes.as_slice());
        write_bool(&mut out, self.is_initialized);
        write_option_bytes(&mut out, &self.seed);
        write_option_array::<32>(&mut out, &self.randomness);
        write_option_array::<64>(&mut out, &self.proof);
        write_fixed(&mut out, self.public_key.as_slice());
        assert(out@ =~= self@.encode());
        proof {
            self@.lemma_encoded_len();
        }
        Some(out)
    }

    /// Commits the session to `seed` on behalf of `acting`. Only the authority may:
    /// anyone else is refused and the record stays as it was. A commitment discards
    /// what an earlier reveal left.
    pub fn commit(&mut self, seed: Vec<u8>, acting: &Pubkey) -> (r: Result<(), ProgramError>)
        ensures
            match r {
                Ok(_) => {
                    &&& acting@ == old(self)@.authority
                    &&& final(self)@ == old(self)@.committed(seed@)
                    &&& final(self)@.consistent()
                },
                Err(e) => {
                    &&& acting@ != old(self)@.authority
                    &&& e == invalid_authority()
                    &&& *final(self) == *old(self)
                },
            },
    {
        if self.authority != *acting {
            return Err(ProgramError::from(VrfError::InvalidAuthority));
        }
        self.seed = Some(seed);
        self.randomness = None;
        self.proof = None;
        Ok(())
    }

    /// The seed that a reveal by `acting` would be derived from: refused with
    /// `InvalidAuthority` where `acting` is not the authority, else with
    /// `InvalidArgument` where nothing was committed.
    pub fn committed_seed(&self, acting: &Pubkey) -> (r: Result<&Vec<u8>, ProgramError>)
        ensures
            match r {
                Ok(seed) => self@.may_reveal(acting@) && self@.seed == Some(seed@),
                Err(e) => !self@.may_reveal(acting@) && e == if acting@ != self@.authority {
                    invalid_authority()
                } else {
                    ProgramError::InvalidArgument
                },
            },
    {
        if self.authority != *acting {
            return Err(ProgramError::from(VrfError::InvalidAuthority));
        }
        match &self.seed {
            Some(seed) => Ok(seed),
            None => Err(ProgramError::InvalidArgument),
        }
    }

    /// Stores a revealed `proof` with the `randomness` that it gave.
    pub fn accept_reveal(&mut self, proof: [u8; 64], randomness: [u8; 32])
        ensures
            final(self)@ == old(self)@.revealed(proof@, randomness@),
            old(self)@.seed is Some ==> final(self)@.consistent(),
    {
        self.proof = Some(proof);
        self.randomness = Some(randomness);
    }

    /// Reveals `proof` on behalf of `acting`: derives the randomness from the proof
    /// and the committed seed, stores both and gives the randomness. Refused, with
    /// the record unchanged, where `acting` is not the authority (`InvalidAuthority`)
    /// or nothing was committed (`InvalidArgument`).
    pub fn fulfill(&mut self, proof: [u8; 64], acting: &Pubkey) -> (r: Result<
        [u8; 32],
        ProgramError,
    >)
        ensures
            match r {
                Ok(randomness) => {
                    &&& acting@ == old(self)@.authority
                    &&& old(self)@.seed matches Some(seed)
                    &&& randomness@ == spec_derive_randomness(proof@, seed)
                    &&& final(self)@ == old(self)@.revealed(proof@, randomness@)
                    &&& final(self)@.consistent()
                },
                Err(e) => {
                    &&& *final(self) == *old(self)
                    &&& e == if acting@ != old(self)@.authority {
                        invalid_authority()
                    } else {
                        ProgramError::InvalidArgument
                    }
                    &&& acting@ != old(self)@.authority || old(self)@.seed is None
                },
            },
    {
        let randomness = match self.committed_seed(acting) {
            Ok(seed) => derive_randomness(&proof, seed.as_slice()),
            Err(e) => {
                return Err(e);
            },
        };
        self.accept_reveal(proof, randomness);
        Ok(randomness)
    }
}

fn read_game_state(data: &[u8], pos: usize) -> (r: Option<(GameState, usize)>)
    requires
        pos <= data@.len(),
    ensures
        match r {
            Some((phase, next)) => pos <= next <= data@.len() && GameState::parse(
                data@.skip(pos as int),
            ) == Some((phase, data@.skip(next as int))),
            None => GameState::parse(data@.skip(pos as int)) is None,
        },
{
    proof {
        reveal(GameState::parse);
        crate::codec::lemma_u8_accepts(data@.skip(pos as int));
        reveal(crate::codec::parse_u8);
    }
    match read_u8(data, pos) {
        Some((0, next)) => Some((GameState::AwaitingRandomness, next)),
        Some((1, next)) => Some((GameState::AwaitingPlayerGuess, next)),
        Some((2, next)) => Some((GameState::GameComplete, next)),
        _ => None,
    }
}

fn read_option_result(data: &[u8], pos: usize) -> (r: Option<(Option<GameResult>, usize)>)
    requires
        pos <= data@.len(),
    ensures
        match r {
            Some((value, next)) => pos <= next <= data@.len() && GameResult::parse_option(
                data@.skip(pos as int),
            ) == Some((value, data@.skip(next as int))),
            None => GameResult::parse_option(data@.skip(pos as int)) is None,
        },
{
    proof {
        reveal(GameResult::parse_option);
        reveal(crate::codec::parse_u8);
    }
    match read_bool(data, pos) {
        None => None,
        Some((false, next)) => Some((None, next)),
        Some((true, start)) => match read_u8(data, start) {
            Some((0, next)) => Some((Some(GameResult::Win), next)),
            Some((1, next)) => Some((Some(GameResult::Lose), next)),
            _ => None,
        },
    }
}

/// The record of one game.
#[derive(Clone, Debug)]
pub struct GameAccountState {
    /// Who opened the game.
    pub authority: Pubkey,
    pub is_initialized: bool,
    /// The session's randomness, from the reveal on.
    pub randomness: Option<[u8; 32]>,
    pub game_state: GameState,
    pub player_guess: Option<u8>,
    pub result: Option<GameResult>,
}

impl View for GameAccountState {
    type V = GameAccountView;

    open spec fn view(&self) -> GameAccountView {
        GameAccountView {
            authority: self.authority@,
            is_initialized: self.is_initialized,
            randomness: option_array_view(self.randomness),
            game_state: self.game_state,
            player_guess: self.player_guess,
            result: self.result,
        }
    }
}

/// The error of a step that comes in the wrong phase: a guess where none is
/// awaited, randomness on a complete game.
pub open spec fn invalid_game_state() -> ProgramError {
    ProgramError::Custom(VrfError::InvalidGameState.spec_code())
}

/// The error of a guess at a game that holds no randomness.
pub open spec fn randomness_not_available() -> ProgramError {
    ProgramError::Custom(VrfError::RandomnessNotAvailable.spec_code())
}

impl GameAccountState {
    /// The record of a game that `authority` has just opened.
    pub fn new(authority: Pubkey) -> (record: GameAccountState)
        ensures
            record@ == GameAccountView::fresh(authority@),
            record@.well_formed(),
            record@.consistent(),
    {
        GameAccountState {
            authority,
            is_initialized: true,
            randomness: None,
            game_state: GameState::AwaitingRandomness,
            player_guess: None,
            result: None,
        }
    }

    /// Reads the record that `data` is. Succeeds exactly on the encodings of
    /// well-formed records, and gives the record that was encoded.
    pub fn try_from_slice(data: &[u8]) -> (r: Result<GameAccountState, DecodeError>)
        ensures
            match r {
                Ok(record) => GameAccountView::decode(data@) == Some(record@) && record@.encode()
                    == data@,
                Err(_) => GameAccountView::decode(data@) is None && forall|v: GameAccountView|
                    v.well_formed() ==> v.encode() != data@,
            },
    {
        proof {
            GameAccountView::lemma_decode_is_inverse(data@);
            assert forall|v: GameAccountView|
                v.well_formed() && v.encode() == data@ implies GameAccountView::decode(data@)
                is Some by {
                v.lemma_round_trip();
            }
            assert(data@.skip(0) =~= data@);
        }
        let Some((authority, pos1)) = read_array::<32>(data, 0) else {
            return Err(DecodeError {  });
        };
        let Some((is_initialized, pos2)) = read_bool(data, pos1) else {
            return Err(DecodeError {  });
        };
        let Some((randomness, pos3)) = read_option_array::<32>(data, pos2) else {
            return Err(DecodeError {  });
        };
        let Some((game_state, pos4)) = read_game_state(data, pos3) else {
            return Err(DecodeError {  });
        };
        let Some((player_guess, pos5)) = read_option_u8(data, pos4) else {
            return Err(DecodeError {  });
        };
        let Some((result, end)) = read_option_result(data, pos5) else {
            return Err(DecodeError {  });
        };
        if end != data.len() {
            return Err(DecodeError {  });
        }
        Ok(
            GameAccountState {
                authority: Pubkey { bytes: authority },
                is_initialized,
                randomness,
                game_state,
                player_guess,
                result,
            },
        )
    }

    /// The record as bytes.
    pub fn to_vec(&self) -> (bytes: Vec<u8>)
        ensures
            bytes@ == self@.encode(),
            self@.well_formed(),
            GAME_ACCOUNT_MIN_LEN <= bytes@.len() == self@.encoded_len() <= GAME_ACCOUNT_MAX_LEN,
    {
        let mut out: Vec<u8> = Vec::new();
        write_fixed(&mut out, self.authority.bytes.as_slice());
        write_bool(&mut out, self.is_initialized);
        write_option_array::<32>(&mut out, &self.randomness);
        write_u8(
            &mut out,
            match self.game_state {
                GameState::AwaitingRandomness => 0,
                GameState::AwaitingPlayerGuess => 1,
                GameState::GameComplete => 2,
            },
        );
        write_option_u8(&mut out, self.player_guess);
        write_option_u8(
            &mut out,
            match self.result {
                None => None,
                Some(GameResult::Win) => Some(0),
                Some(GameResult::Lose) => Some(1),
            },
        );
        proof {
            reveal(crate::codec::encode_option_u8);
        }
        assert(out@ =~= self@.encode());
        proof {
            self@.lemma_encoded_len();
        }
        out
    }

    /// Starts a round: the game awaits randomness and forgets the round before.
    pub fn reset(&mut self)
        ensures
            final(self)@ == old(self)@.reset(),
            final(self)@.consistent(),
    {
        self.game_state = GameState::AwaitingRandomness;
        self.randomness = None;
        self.player_guess = None;
        self.result = None;
    }

    /// Takes in the session's randomness: the game now awaits the player's guess.
    /// A complete game is not moved back: it refuses the randomness with
    /// `InvalidGameState` and stays as it was.
    pub fn receive_randomness(&mut self, randomness: [u8; 32]) -> (r: Result<(), ProgramError>)
        ensures
            match r {
                Ok(_) => {
                    &&& old(self).game_state != GameState::GameComplete
                    &&& old(self)@.received(randomness@) == Ok::<GameAccountView, ProgramError>(
                        final(self)@,
                    )
                    &&& old(self)@.consistent() ==> final(self)@.consistent()
                },
                Err(e) => {
                    &&& old(self).game_state == GameState::GameComplete
                    &&& e == invalid_game_state()
                    &&& *final(self) == *old(self)
                },
            },
    {
        if self.game_state == GameState::GameComplete {
            return Err(ProgramError::from(VrfError::InvalidGameState));
        }
        self.randomness = Some(randomness);
        self.game_state = GameState::AwaitingPlayerGuess;
        Ok(())
    }

    /// Plays `guess` on behalf of `acting`. Only the game's authority may play
    /// (`InvalidAuthority` otherwise), only a game that awaits a guess takes one
    /// (`InvalidGameState`), and only with randomness to play against
    /// (`RandomnessNotAvailable`). The guess wins where it equals the game number
    /// of the randomness. A refused guess leaves the record as it was.
    pub fn submit_guess(&mut self, guess: u8, acting: &Pubkey) -> (r: Result<
        GameResult,
        ProgramError,
    >)
        ensures
            match r {
                Ok(result) => {
                    &&& acting@ == old(self)@.authority
                    &&& old(self).game_state == GameState::AwaitingPlayerGuess
                    &&& old(self)@.randomness matches Some(randomness)
                    &&& result == GameAccountView::judge(randomness, guess)
                    &&& final(self)@ == old(self)@.guessed(randomness, guess)
                    &&& old(self)@.played(acting@, guess) == Ok::<GameAccountView, ProgramError>(
                        final(self)@,
                    )
                    &&& final(self)@.consistent()
                },
                Err(e) => {
                    &&& *final(self) == *old(self)
                    &&& old(self)@.played(acting@, guess) == Err::<GameAccountView, ProgramError>(e)
                    &&& e == if acting@ != old(self)@.authority {
                        invalid_authority()
                    } else if old(self).game_state != GameState::AwaitingPlayerGuess {
                        invalid_game_state()
                    } else {
                        randomness_not_available()
                    }
                },
            },
    {
        if self.authority != *acting {
            return Err(ProgramError::from(VrfError::InvalidAuthority));
        }
        if self.game_state != GameState::AwaitingPlayerGuess {
            return Err(ProgramError::from(VrfError::InvalidGameState));
        }
        let randomness = match self.randomness {
            Some(randomness) => randomness,
            None => {
                return Err(ProgramError::from(VrfError::RandomnessNotAvailable));
            },
        };
        let game_number = calculate_game_number(&randomness);
        let result = if guess == game_number {
            GameResult::Win
        } else {
            GameResult::Lose
        };
        self.player_guess = Some(guess);
        self.result = Some(result);
        self.game_state = GameState::GameComplete;
        Ok(result)
    }
}

} // verus!
