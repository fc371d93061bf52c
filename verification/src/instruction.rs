//! The operations and their bytes: one byte that names the operation, then what
//! the operation carries.

use crate::codec::{
    encode_bytes, encode_u8, lemma_bytes_accepts, lemma_bytes_read_back, lemma_fixed_accepts,
    lemma_fixed_read_back, lemma_u8_accepts, lemma_u8_read_back, parse_bytes, parse_fixed,
    parse_u8, read_array, read_bytes, read_u8, same_bytes, write_bytes, write_fixed, write_u8,
    MAX_LEN,
};
use crate::error::DecodeError;
use vstd::prelude::*;

verus! {

/// An operation on a randomness record.
#[derive(Clone, Debug)]
pub enum VrfInstruction {
    /// Opens a session. Records: the authority, who signs; the randomness record.
    Initialize,
    /// Commits to a seed. Records: the authority, who signs; the randomness
    /// record; the game record that will play on the outcome.
    RequestRandomness { seed: Vec<u8> },
    /// Reveals the proof. Records: the authority, who signs; the randomness
    /// record; the game record that plays on the outcome.
    FulfillRandomness { proof: [u8; 64] },
}

/// What an operation on a randomness record says, as mathematics.
pub enum VrfInstructionView {
    Initialize,
    RequestRandomness { seed: Seq<u8> },
    FulfillRandomness { proof: Seq<u8> },
}

impl View for VrfInstruction {
    type V = VrfInstructionView;

    open spec fn view(&self) -> VrfInstructionView {
        match *self {
            VrfInstruction::Initialize => VrfInstructionView::Initialize,
            VrfInstruction::RequestRandomness { seed } => VrfInstructionView::RequestRandomness {
                seed: seed@,
            },
            VrfInstruction::FulfillRandomness { proof } => VrfInstructionView::FulfillRandomness {
                proof: proof@,
            },
        }
    }
}

impl PartialEq for VrfInstruction {
    fn eq(&self, other: &VrfInstruction) -> (same: bool) {
        match (self, other) {
            (VrfInstruction::Initialize, VrfInstruction::Initialize) => true,
            (
                VrfInstruction::RequestRandomness { seed: mine },
                VrfInstruction::RequestRandomness { seed: theirs },
            ) => same_bytes(mine.as_slice(), theirs.as_slice()),
            (
                VrfInstruction::FulfillRandomness { proof: mine },
                VrfInstruction::FulfillRandomness { proof: theirs },
            ) => same_bytes(mine.as_slice(), theirs.as_slice()),
            _ => false,
        }
    }
}

impl vstd::std_specs::cmp::PartialEqSpecImpl for VrfInstruction {
    open spec fn obeys_eq_spec() -> bool {
        true
    }

    open spec fn eq_spec(&self, other: &VrfInstruction) -> bool {
        self@ == other@
    }
}

impl VrfInstructionView {
    /// A seed is short enough for its length prefix, a proof is sixty-four bytes.
    pub open spec fn well_formed(self) -> bool {
        match self {
            VrfInstructionView::Initialize => true,
            VrfInstructionView::RequestRandomness { seed } => seed.len() <= MAX_LEN,
            VrfInstructionView::FulfillRandomness { proof } => proof.len() == 64,
        }
    }

    /// The operation as bytes.
    pub open spec fn encode(self) -> Seq<u8> {
        match self {
            VrfInstructionView::Initialize => encode_u8(0),
            VrfInstructionView::RequestRandomness { seed } => encode_u8(1) + encode_bytes(seed),
            VrfInstructionView::FulfillRandomness { proof } => encode_u8(2) + proof,
        }
    }

    /// Reads an operation from the front of `s`; gives it with the bytes that follow.
    pub open spec fn parse(s: Seq<u8>) -> Option<(VrfInstructionView, Seq<u8>)> {
        match parse_u8(s) {
            None => None,
            Some((tag, rest)) => if tag == 0 {
                Some((VrfInstructionView::Initialize, rest))
            } else if tag == 1 {
                match parse_bytes(rest) {
                    Some((seed, after)) => Some(
                        (VrfInstructionView::RequestRandomness { seed }, after),
                    ),
                    None => None,
                }
            } else if tag == 2 {
                match parse_fixed(rest, 64) {
                    Some((proof, after)) => Some(
                        (VrfInstructionView::FulfillRandomness { proof }, after),
                    ),
                    None => None,
                }
            } else {
                None
            },
        }
    }

    /// The operation that `s` is, where `s` is one operation and nothing more.
    pub open spec fn decode(s: Seq<u8>) -> Option<VrfInstructionView> {
        match VrfInstructionView::parse(s) {
            Some((instruction, rest)) => if rest.len() == 0 {
                Some(instruction)
            } else {
                None
            },
            None => None,
        }
    }

    /// The parser reads back what `encode` wrote, whatever follows it.
    pub proof fn lemma_read_back(self, rest: Seq<u8>)
        requires
            self.well_formed(),
        ensures
            VrfInstructionView::parse(self.encode() + rest) == Some((self, rest)),
    {
        match self {
            VrfInstructionView::Initialize => {
                lemma_u8_read_back(0, rest);
            },
            VrfInstructionView::RequestRandomness { seed } => {
                assert(self.encode() + rest =~= encode_u8(1) + (encode_bytes(seed) + rest));
                lemma_u8_read_back(1, encode_bytes(seed) + rest);
                lemma_bytes_read_back(seed, rest);
            },
            VrfInstructionView::FulfillRandomness { proof } => {
                assert(self.encode() + rest =~= encode_u8(2) + (proof + rest));
                lemma_u8_read_back(2, proof + rest);
                lemma_fixed_read_back(proof, rest);
            },
        }
    }

    /// What the parser accepts is a well-formed operation's encoding and the rest.
    pub proof fn lemma_accepts(s: Seq<u8>)
        ensures
            VrfInstructionView::parse(s) matches Some((instruction, rest))
                ==> instruction.well_formed() && s == instruction.encode() + rest,
    {
        if let Some((instruction, rest)) = VrfInstructionView::parse(s) {
            lemma_u8_accepts(s);
            let (tag, after) = parse_u8(s).unwrap();
            if tag == 1 {
                lemma_bytes_accepts(after);
            } else if tag == 2 {
                lemma_fixed_accepts(after, 64);
            }
            assert(s =~= instruction.encode() + rest);
        }
    }

    /// Decoding undoes encoding.
    pub proof fn lemma_round_trip(self)
        requires
            self.well_formed(),
        ensures
            VrfInstructionView::decode(self.encode()) == Some(self),
    {
        self.lemma_read_back(Seq::empty());
        assert(self.encode() + Seq::<u8>::empty() =~= self.encode());
    }

    /// Only the encoding of a well-formed operation decodes to it.
    pub proof fn lemma_decode_is_inverse(s: Seq<u8>)
        ensures
            VrfInstructionView::decode(s) matches Some(instruction) ==> instruction.well_formed()
                && instruction.encode() == s,
    {
        if let Some(instruction) = VrfInstructionView::decode(s) {
            VrfInstructionView::lemma_accepts(s);
            let rest = VrfInstructionView::parse(s).unwrap().1;
            assert(instruction.encode() + rest =~= instruction.encode());
        }
    }
}

impl VrfInstruction {
    /// Reads the operation that `data` is. Succeeds exactly on the encodings of
    /// well-formed operations; an unknown first byte, a cut-off payload and bytes
    /// left over are all refused.
    pub fn try_from_slice(data: &[u8]) -> (r: Result<VrfInstruction, DecodeError>)
        ensures
            match r {
                Ok(instruction) => VrfInstructionView::decode(data@) == Some(instruction@)
                    && instruction@.encode() == data@,
                Err(_) => VrfInstructionView::decode(data@) is None && forall|
                    v: VrfInstructionView,
                | v.well_formed() ==> v.encode() != data@,
            },
    {
        proof {
            VrfInstructionView::lemma_decode_is_inverse(data@);
            assert forall|v: VrfInstructionView|
                v.well_formed() && v.encode() == data@ implies VrfInstructionView::decode(data@)
                is Some by {
                v.lemma_round_trip();
            }
            assert(data@.skip(0) =~= data@);
        }
        let Some((tag, start)) = read_u8(data, 0) else {
            return Err(DecodeError {  });
        };
        let (instruction, end) = if tag == 0 {
            (VrfInstruction::Initialize, start)
        } else if tag == 1 {
            let Some((seed, end)) = read_bytes(data, start) else {
                return Err(DecodeError {  });
            };
            (VrfInstruction::RequestRandomness { seed }, end)
        } else if tag == 2 {
            let Some((proof, end)) = read_array::<64>(data, start) else {
                return Err(DecodeError {  });
            };
            (VrfInstruction::FulfillRandomness { proof }, end)
        } else {
            return Err(DecodeError {  });
        };
        if end != data.len() {
            return Err(DecodeError {  });
        }
        Ok(instruction)
    }

    /// The operation as bytes, unless its seed is too long for a length prefix.
    pub fn try_to_vec(&self) -> (r: Option<Vec<u8>>)
        ensures
            match r {
                Some(bytes) => self@.well_formed() && bytes@ == self@.encode(),
                None => !self@.well_formed(),
            },
    {
        let mut out: Vec<u8> = Vec::new();
        match self {
            VrfInstruction::Initialize => {
                write_u8(&mut out, 0);
            },
            VrfInstruction::RequestRandomness { seed } => {
                if seed.len() > MAX_LEN {
                    return None;
                }
                write_u8(&mut out, 1);
                write_bytes(&mut out, seed.as_slice());
            },
            VrfInstruction::FulfillRandomness { proof } => {
                write_u8(&mut out, 2);
                write_fixed(&mut out, proof.as_slice());
            },
        }
        assert(out@ =~= self@.encode());
        Some(out)
    }
}

/// An operation on a game record.
#[derive(Clone, Copy, Debug, PartialEq, Eq, Structural)]
pub enum GameInstruction {
    /// Opens a game. Records: the authority, who signs; the game record.
    InitializeGame,
    /// Plays a guess. Records: the player, who signs and is the game's
    /// authority; the game record; the randomness record, which is not written.
    SubmitGuess { guess: u8 },
}

impl GameInstruction {
    /// The operation as bytes.
    pub open spec fn encode(self) -> Seq<u8> {
        match self {
            GameInstruction::InitializeGame => encode_u8(0),
            GameInstruction::SubmitGuess { guess } => encode_u8(1) + encode_u8(guess),
        }
    }

    /// Reads an operation from the front of `s`; gives it with the bytes that follow.
    pub open spec fn parse(s: Seq<u8>) -> Option<(GameInstruction, Seq<u8>)> {
        match parse_u8(s) {
            None => None,
            Some((tag, rest)) => if tag == 0 {
                Some((GameInstruction::InitializeGame, rest))
            } else if tag == 1 {
                match parse_u8(rest) {
                    Some((guess, after)) => Some((GameInstruction::SubmitGuess { guess }, after)),
                    None => None,
                }
            } else {
                None
            },
        }
    }

    /// The operation that `s` is, where `s` is one operation and nothing more.
    pub open spec fn decode(s: Seq<u8>) -> Option<GameInstruction> {
        match GameInstruction::parse(s) {
            Some((instruction, rest)) => if rest.len() == 0 {
                Some(instruction)
            } else {
                None
            },
            None => None,
        }
    }

    /// The parser reads back what `encode` wrote, whatever follows it.
    pub proof fn lemma_read_back(self, rest: Seq<u8>)
        ensures
            GameInstruction::parse(self.encode() + rest) == Some((self, rest)),
    {
        match self {
            GameInstruction::InitializeGame => {
                lemma_u8_read_back(0, rest);
            },
            GameInstruction::SubmitGuess { guess } => {
                assert(self.encode() + rest =~= encode_u8(1) + (encode_u8(guess) + rest));
                lemma_u8_read_back(1, encode_u8(guess) + rest);
                lemma_u8_read_back(guess, rest);
            },
        }
    }

    /// What the parser accepts is an operation's encoding and the rest.
    pub proof fn lemma_accepts(s: Seq<u8>)
        ensures
            GameInstruction::parse(s) matches Some((instruction, rest)) ==> s
                == instruction.encode() + rest,
    {
        if let Some((instruction, rest)) = GameInstruction::parse(s) {
            lemma_u8_accepts(s);
            let (tag, after) = parse_u8(s).unwrap();
            if tag == 1 {
                lemma_u8_accepts(after);
            }
            assert(s =~= instruction.encode() + rest);
        }
    }

    /// Decoding undoes encoding.
    pub proof fn lemma_round_trip(self)
        ensures
            GameInstruction::decode(self.encode()) == Some(self),
    {
        self.lemma_read_back(Seq::empty());
        assert(self.encode() + Seq::<u8>::empty() =~= self.encode());
    }

    /// Only the encoding of an operation decodes to it.
    pub proof fn lemma_decode_is_inverse(s: Seq<u8>)
        ensures
            GameInstruction::decode(s) matches Some(instruction) ==> instruction.encode() == s,
    {
        if let Some(instruction) = GameInstruction::decode(s) {
            GameInstruction::lemma_accepts(s);
            let rest = GameInstruction::parse(s).unwrap().1;
            assert(instruction.encode() + rest =~= instruction.encode());
        }
    }

    /// Reads the operation that `data` is. Succeeds exactly on the encodings of
    /// operations.
    pub fn try_from_slice(data: &[u8]) -> (r: Result<GameInstruction, DecodeError>)
        ensures
            match r {
                Ok(instruction) => GameInstruction::decode(data@) == Some(instruction)
                    && instruction.encode() == data@,
                Err(_) => GameInstruction::decode(data@) is None && forall|v: GameInstruction|
                    v.encode() != data@,
            },
    {
        proof {
            GameInstruction::lemma_decode_is_inverse(data@);
            assert forall|v: GameInstruction| v.encode() == data@ implies GameInstruction::decode(
                data@,
            ) is Some by {
                v.lemma_round_trip();
            }
            assert(data@.skip(0) =~= data@);
        }
        let Some((tag, start)) = read_u8(data, 0) else {
            return Err(DecodeError {  });
        };
        let (instruction, end) = if tag == 0 {
            (GameInstruction::InitializeGame, start)
        } else if tag == 1 {
            let Some((guess, end)) = read_u8(data, start) else {
                return Err(DecodeError {  });
            };
            (GameInstruction::SubmitGuess { guess }, end)
        } else {
            return Err(DecodeError {  });
        };
        if end != data.len() {
            return Err(DecodeError {  });
        }
        Ok(instruction)
    }

    /// The operation as bytes.
    pub fn to_vec(&self) -> (bytes: Vec<u8>)
        ensures
            bytes@ == self.encode(),
    {
        let mut out: Vec<u8> = Vec::new();
        match self {
            GameInstruction::InitializeGame => {
                write_u8(&mut out, 0);
            },
            GameInstruction::SubmitGuess { guess } => {
                write_u8(&mut out, 1);
                write_u8(&mut out, *guess);
            },
        }
        assert(out@ =~= self.encode());
        out
    }
}

} // verus!
