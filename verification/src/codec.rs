//! The building blocks of the byte formats: single bytes, flags, little-endian
//! integers, byte strings of a fixed or a stated length, and optional values.
//!
//! Each block has an encoder (`encode_*`) and a parser (`parse_*`) on sequences.
//! A parser takes the bytes that are left and gives the value together with
//! the bytes that follow it. Two lemmas tie each pair together: the parser reads
//! back what the encoder wrote, whatever follows, and whatever the parser
//! accepts is an encoding followed by the rest.

use vstd::prelude::*;

verus! {

/// The largest length that a length prefix can state.
pub const MAX_LEN: usize = 0xffff_ffff;

// ---------------------------------------------------------------------------
// One byte
// ---------------------------------------------------------------------------

/// A byte as itself.
pub open spec fn encode_u8(x: u8) -> Seq<u8> {
    seq![x]
}

/// Reads one byte.
#[verifier::opaque]
pub open spec fn parse_u8(s: Seq<u8>) -> Option<(u8, Seq<u8>)> {
    if s.len() >= 1 {
        Some((s[0], s.skip(1)))
    } else {
        None
    }
}

/// Reading gives back a byte that was written, whatever follows it.
pub proof fn lemma_u8_read_back(x: u8, rest: Seq<u8>)
    ensures
        parse_u8(encode_u8(x) + rest) == Some((x, rest)),
{
    reveal(parse_u8);
    assert((encode_u8(x) + rest).skip(1) =~= rest);
}

/// What is read as a byte is its encoding, followed by the rest.
pub proof fn lemma_u8_accepts(s: Seq<u8>)
    ensures
        parse_u8(s) matches Some((x, rest)) ==> s == encode_u8(x) + rest,
{
    reveal(parse_u8);
    if let Some((x, rest)) = parse_u8(s) {
        assert(s =~= encode_u8(x) + rest);
    }
}

// ---------------------------------------------------------------------------
// A flag: one byte, 0 or 1
// ---------------------------------------------------------------------------

/// A flag as one byte: 1 where it is set, 0 where it is not.
pub open spec fn encode_bool(b: bool) -> Seq<u8> {
    seq![if b { 1u8 } else { 0u8 }]
}

/// Reads a flag: a byte that is 0 or 1. Any other byte is refused.
#[verifier::opaque]
pub open spec fn parse_bool(s: Seq<u8>) -> Option<(bool, Seq<u8>)> {
    if s.len() >= 1 && s[0] <= 1 {
        Some((s[0] == 1, s.skip(1)))
    } else {
        None
    }
}

/// Reading gives back a flag that was written, whatever follows it.
pub proof fn lemma_bool_read_back(b: bool, rest: Seq<u8>)
    ensures
        parse_bool(encode_bool(b) + rest) == Some((b, rest)),
{
    reveal(parse_bool);
    assert((encode_bool(b) + rest).skip(1) =~= rest);
}

/// What is read as a flag is its encoding, followed by the rest.
pub proof fn lemma_bool_accepts(s: Seq<u8>)
    ensures
        parse_bool(s) matches Some((b, rest)) ==> s == encode_bool(b) + rest,
{
    reveal(parse_bool);
    if let Some((b, rest)) = parse_bool(s) {
        assert(s =~= encode_bool(b) + rest);
    }
}

// ---------------------------------------------------------------------------
// Little-endian integers
// ---------------------------------------------------------------------------

/// A number as four bytes, lowest first.
#[verifier::opaque]
pub open spec fn encode_u32(x: u32) -> Seq<u8> {
    seq![
        (x % 256) as u8,
        (x / 256 % 256) as u8,
        (x / 65536 % 256) as u8,
        (x / 16777216) as u8,
    ]
}

/// The number that four bytes spell, lowest byte first.
pub open spec fn u32_from_le(s: Seq<u8>) -> int {
    s[0] + 256 * s[1] + 65536 * s[2] + 16777216 * s[3]
}

/// Reads four bytes as a number, lowest byte first.
#[verifier::opaque]
pub open spec fn parse_u32(s: Seq<u8>) -> Option<(u32, Seq<u8>)> {
    if s.len() >= 4 {
        Some((u32_from_le(s) as u32, s.skip(4)))
    } else {
        None
    }
}

/// Four bytes spell a number below 2^32 whose base-256 digits they are.
pub proof fn lemma_le_digits(b0: u8, b1: u8, b2: u8, b3: u8)
    ensures
        ({
            let x = b0 + 256 * b1 + 65536 * b2 + 16777216 * b3;
            &&& 0 <= x <= u32::MAX
            &&& x % 256 == b0
            &&& x / 256 % 256 == b1
            &&& x / 65536 % 256 == b2
            &&& x / 16777216 == b3
        }),
{
    let x = b0 + 256 * b1 + 65536 * b2 + 16777216 * b3;
    let q1 = b1 + 256 * b2 + 65536 * b3;
    let q2 = b2 + 256 * b3;
    assert(x == b0 + 256 * q1);
    assert(x / 256 == q1);
    assert(q1 == b1 + 256 * q2);
    assert(x / 65536 == q2);
    assert(x / 16777216 == b3);
}

/// A number below 2^32 is spelt by its four base-256 digits.
pub proof fn lemma_le_sum(x: u32)
    ensures
        x == x % 256 + 256 * (x / 256 % 256) + 65536 * (x / 65536 % 256) + 16777216 * (x
            / 16777216),
        x / 16777216 < 256,
{
    let q1 = x / 256;
    let q2 = x / 65536;
    let q3 = x / 16777216;
    assert(q2 == q1 / 256);
    assert(q3 == q2 / 256);
}

/// Reading gives back a number of four bytes that was written, whatever follows it.
pub proof fn lemma_u32_read_back(x: u32, rest: Seq<u8>)
    ensures
        parse_u32(encode_u32(x) + rest) == Some((x, rest)),
{
    reveal(parse_u32);
    reveal(encode_u32);
    let s = encode_u32(x) + rest;
    assert(s.skip(4) =~= rest);
    lemma_le_sum(x);
}

/// What is read as a number of four bytes is its encoding, followed by the rest.
pub proof fn lemma_u32_accepts(s: Seq<u8>)
    ensures
        parse_u32(s) matches Some((x, rest)) ==> s == encode_u32(x) + rest,
{
    reveal(parse_u32);
    reveal(encode_u32);
    if let Some((x, rest)) = parse_u32(s) {
        lemma_le_digits(s[0], s[1], s[2], s[3]);
        assert(s =~= encode_u32(x) + rest);
    }
}

/// A number as eight bytes, lowest first.
#[verifier::opaque]
pub open spec fn encode_u64(x: u64) -> Seq<u8> {
    encode_u32((x % 0x1_0000_0000) as u32) + encode_u32((x / 0x1_0000_0000) as u32)
}

/// Reads eight bytes as a number, lowest byte first.
#[verifier::opaque]
pub open spec fn parse_u64(s: Seq<u8>) -> Option<(u64, Seq<u8>)> {
    match parse_u32(s) {
        Some((low, rest)) => match parse_u32(rest) {
            Some((high, after)) => Some(((low + 0x1_0000_0000 * high) as u64, after)),
            None => None,
        },
        None => None,
    }
}

/// Two numbers below 2^32 are the halves of the number that they spell together.
pub proof fn lemma_le_halves(low: u32, high: u32)
    ensures
        ({
            let x = low + 0x1_0000_0000 * high;
            &&& 0 <= x <= u64::MAX
            &&& x % 0x1_0000_0000 == low
            &&& x / 0x1_0000_0000 == high
        }),
{
}

/// Reading gives back a number of eight bytes that was written, whatever follows it.
pub proof fn lemma_u64_read_back(x: u64, rest: Seq<u8>)
    ensures
        parse_u64(encode_u64(x) + rest) == Some((x, rest)),
{
    reveal(parse_u64);
    reveal(encode_u64);
    let low = (x % 0x1_0000_0000) as u32;
    let high = (x / 0x1_0000_0000) as u32;
    assert(encode_u64(x) + rest =~= encode_u32(low) + (encode_u32(high) + rest));
    lemma_u32_read_back(low, encode_u32(high) + rest);
    lemma_u32_read_back(high, rest);
}

/// What is read as a number of eight bytes is its encoding, followed by the rest.
pub proof fn lemma_u64_accepts(s: Seq<u8>)
    ensures
        parse_u64(s) matches Some((x, rest)) ==> s == encode_u64(x) + rest,
{
    reveal(parse_u64);
    reveal(encode_u64);
    if let Some((x, rest)) = parse_u64(s) {
        lemma_u32_accepts(s);
        let (low, middle) = parse_u32(s).unwrap();
        lemma_u32_accepts(middle);
        let (high, after) = parse_u32(middle).unwrap();
        lemma_le_halves(low, high);
        assert(encode_u64(x) == encode_u32(low) + encode_u32(high));
        assert(s =~= encode_u64(x) + rest);
    }
}

// ---------------------------------------------------------------------------
// A byte string of a length that the format fixes
// ---------------------------------------------------------------------------

/// Reads `n` bytes as they are.
#[verifier::opaque]
pub open spec fn parse_fixed(s: Seq<u8>, n: nat) -> Option<(Seq<u8>, Seq<u8>)> {
    if s.len() >= n {
        Some((s.take(n as int), s.skip(n as int)))
    } else {
        None
    }
}

/// Reading gives back a byte string of a fixed length that was written, whatever follows it.
pub proof fn lemma_fixed_read_back(bytes: Seq<u8>, rest: Seq<u8>)
    ensures
        parse_fixed(bytes + rest, bytes.len()) == Some((bytes, rest)),
{
    reveal(parse_fixed);
    let s = bytes + rest;
    assert(s.take(bytes.len() as int) =~= bytes);
    assert(s.skip(bytes.len() as int) =~= rest);
}

/// What is read as a byte string of a fixed length is its encoding, followed by the rest.
pub proof fn lemma_fixed_accepts(s: Seq<u8>, n: nat)
    ensures
        parse_fixed(s, n) matches Some((bytes, rest)) ==> bytes.len() == n && s == bytes + rest,
{
    reveal(parse_fixed);
    if let Some((bytes, rest)) = parse_fixed(s, n) {
        assert(s =~= bytes + rest);
    }
}

// ---------------------------------------------------------------------------
// A byte string that states its own length in four bytes
// ---------------------------------------------------------------------------

/// A byte string as its length in four bytes, then its bytes.
#[verifier::opaque]
pub open spec fn encode_bytes(bytes: Seq<u8>) -> Seq<u8> {
    encode_u32(bytes.len() as u32) + bytes
}

/// Reads a length in four bytes, then as many bytes as it says.
#[verifier::opaque]
pub open spec fn parse_bytes(s: Seq<u8>) -> Option<(Seq<u8>, Seq<u8>)> {
    match parse_u32(s) {
        Some((n, rest)) => parse_fixed(rest, n as nat),
        None => None,
    }
}

/// Reading gives back a byte string that states its length that was written, whatever follows it.
pub proof fn lemma_bytes_read_back(bytes: Seq<u8>, rest: Seq<u8>)
    requires
        bytes.len() <= MAX_LEN,
    ensures
        parse_bytes(encode_bytes(bytes) + rest) == Some((bytes, rest)),
{
    reveal(parse_bytes);
    reveal(encode_bytes);
    let n = bytes.len() as u32;
    assert(encode_bytes(bytes) + rest =~= encode_u32(n) + (bytes + rest));
    lemma_u32_read_back(n, bytes + rest);
    lemma_fixed_read_back(bytes, rest);
}

/// What is read as a byte string that states its length is its encoding, followed by the rest.
pub proof fn lemma_bytes_accepts(s: Seq<u8>)
    ensures
        parse_bytes(s) matches Some((bytes, rest)) ==> bytes.len() <= MAX_LEN && s == encode_bytes(
            bytes,
        ) + rest,
{
    reveal(parse_bytes);
    reveal(encode_bytes);
    if let Some((bytes, rest)) = parse_bytes(s) {
        lemma_u32_accepts(s);
        let (n, after) = parse_u32(s).unwrap();
        lemma_fixed_accepts(after, n as nat);
        assert(s =~= encode_bytes(bytes) + rest);
    }
}

// ---------------------------------------------------------------------------
// Optional values: a flag, then the value where the flag is set
// ---------------------------------------------------------------------------

/// An optional byte: a cleared flag, or a set flag and the byte.
#[verifier::opaque]
pub open spec fn encode_option_u8(value: Option<u8>) -> Seq<u8> {
    match value {
        None => encode_bool(false),
        Some(x) => encode_bool(true) + encode_u8(x),
    }
}

/// Reads an optional byte.
#[verifier::opaque]
pub open spec fn parse_option_u8(s: Seq<u8>) -> Option<(Option<u8>, Seq<u8>)> {
    match parse_bool(s) {
        None => None,
        Some((false, rest)) => Some((None, rest)),
        Some((true, rest)) => match parse_u8(rest) {
            Some((x, after)) => Some((Some(x), after)),
            None => None,
        },
    }
}

/// Reading gives back an optional byte that was written, whatever follows it.
pub proof fn lemma_option_u8_read_back(value: Option<u8>, rest: Seq<u8>)
    ensures
        parse_option_u8(encode_option_u8(value) + rest) == Some((value, rest)),
{
    reveal(parse_option_u8);
    reveal(encode_option_u8);
    match value {
        None => {
            lemma_bool_read_back(false, rest);
        },
        Some(x) => {
            assert(encode_option_u8(value) + rest =~= encode_bool(true) + (encode_u8(x) + rest));
            lemma_bool_read_back(true, encode_u8(x) + rest);
            lemma_u8_read_back(x, rest);
        },
    }
}

/// What is read as an optional byte is its encoding, followed by the rest.
pub proof fn lemma_option_u8_accepts(s: Seq<u8>)
    ensures
        parse_option_u8(s) matches Some((value, rest)) ==> s == encode_option_u8(value) + rest,
{
    reveal(parse_option_u8);
    reveal(encode_option_u8);
    if let Some((value, rest)) = parse_option_u8(s) {
        lemma_bool_accepts(s);
        let (flag, after) = parse_bool(s).unwrap();
        if flag {
            lemma_u8_accepts(after);
            assert(s =~= encode_option_u8(value) + rest);
        }
    }
}

/// An optional byte string of a fixed length: a cleared flag, or a set flag
/// and the bytes.
#[verifier::opaque]
pub open spec fn encode_option_fixed(value: Option<Seq<u8>>) -> Seq<u8> {
    match value {
        None => encode_bool(false),
        Some(bytes) => encode_bool(true) + bytes,
    }
}

/// Reads an optional byte string of `n` bytes.
#[verifier::opaque]
pub open spec fn parse_option_fixed(s: Seq<u8>, n: nat) -> Option<(Option<Seq<u8>>, Seq<u8>)> {
    match parse_bool(s) {
        None => None,
        Some((false, rest)) => Some((None, rest)),
        Some((true, rest)) => match parse_fixed(rest, n) {
            Some((bytes, after)) => Some((Some(bytes), after)),
            None => None,
        },
    }
}

/// An optional byte string is of length `n` where it is there.
pub open spec fn option_has_len(value: Option<Seq<u8>>, n: nat) -> bool {
    value matches Some(bytes) ==> bytes.len() == n
}

/// Reading gives back an optional byte string of a fixed length that was written, whatever follows it.
pub proof fn lemma_option_fixed_read_back(value: Option<Seq<u8>>, n: nat, rest: Seq<u8>)
    requires
        option_has_len(value, n),
    ensures
        parse_option_fixed(encode_option_fixed(value) + rest, n) == Some((value, rest)),
{
    reveal(parse_option_fixed);
    reveal(encode_option_fixed);
    match value {
        None => {
            lemma_bool_read_back(false, rest);
        },
        Some(bytes) => {
            assert(encode_option_fixed(value) + rest =~= encode_bool(true) + (bytes + rest));
            lemma_bool_read_back(true, bytes + rest);
            lemma_fixed_read_back(bytes, rest);
        },
    }
}

/// What is read as an optional byte string of a fixed length is its encoding, followed by the rest.
pub proof fn lemma_option_fixed_accepts(s: Seq<u8>, n: nat)
    ensures
        parse_option_fixed(s, n) matches Some((value, rest)) ==> option_has_len(value, n) && s
            == encode_option_fixed(value) + rest,
{
    reveal(parse_option_fixed);
    reveal(encode_option_fixed);
    if let Some((value, rest)) = parse_option_fixed(s, n) {
        lemma_bool_accepts(s);
        let (flag, after) = parse_bool(s).unwrap();
        if flag {
            lemma_fixed_accepts(after, n);
            assert(s =~= encode_option_fixed(value) + rest);
        }
    }
}

/// An optional byte string that states its length: a cleared flag, or a set
/// flag, the length and the bytes.
#[verifier::opaque]
pub open spec fn encode_option_bytes(value: Option<Seq<u8>>) -> Seq<u8> {
    match value {
        None => encode_bool(false),
        Some(bytes) => encode_bool(true) + encode_bytes(bytes),
    }
}

/// Reads an optional byte string that states its length.
#[verifier::opaque]
pub open spec fn parse_option_bytes(s: Seq<u8>) -> Option<(Option<Seq<u8>>, Seq<u8>)> {
    match parse_bool(s) {
        None => None,
        Some((false, rest)) => Some((None, rest)),
        Some((true, rest)) => match parse_bytes(rest) {
            Some((bytes, after)) => Some((Some(bytes), after)),
            None => None,
        },
    }
}

/// An optional byte string is short enough for its length prefix where it is there.
pub open spec fn option_fits(value: Option<Seq<u8>>) -> bool {
    value matches Some(bytes) ==> bytes.len() <= MAX_LEN
}

/// Reading gives back an optional byte string that states its length that was written, whatever follows it.
pub proof fn lemma_option_bytes_read_back(value: Option<Seq<u8>>, rest: Seq<u8>)
    requires
        option_fits(value),
    ensures
        parse_option_bytes(encode_option_bytes(value) + rest) == Some((value, rest)),
{
    reveal(parse_option_bytes);
    reveal(encode_option_bytes);
    match value {
        None => {
            lemma_bool_read_back(false, rest);
        },
        Some(bytes) => {
            assert(encode_option_bytes(value) + rest =~= encode_bool(true) + (encode_bytes(bytes)
                + rest));
            lemma_bool_read_back(true, encode_bytes(bytes) + rest);
            lemma_bytes_read_back(bytes, rest);
        },
    }
}

/// What is read as an optional byte string that states its length is its encoding, followed by the rest.
pub proof fn lemma_option_bytes_accepts(s: Seq<u8>)
    ensures
        parse_option_bytes(s) matches Some((value, rest)) ==> option_fits(value) && s
            == encode_option_bytes(value) + rest,
{
    reveal(parse_option_bytes);
    reveal(encode_option_bytes);
    if let Some((value, rest)) = parse_option_bytes(s) {
        lemma_bool_accepts(s);
        let (flag, after) = parse_bool(s).unwrap();
        if flag {
            lemma_bytes_accepts(after);
            assert(s =~= encode_option_bytes(value) + rest);
        }
    }
}

// ---------------------------------------------------------------------------
// Reading from a buffer at a position
// ---------------------------------------------------------------------------

/// Whether two byte strings are the same.
pub(crate) fn same_bytes(a: &[u8], b: &[u8]) -> (same: bool)
    ensures
        same == (a@ == b@),
{
    if a.len() != b.len() {
        return false;
    }
    let mut i: usize = 0;
    while i < a.len()
        invariant
            i <= a@.len() == b@.len(),
            forall|k: int| 0 <= k < i ==> a@[k] == b@[k],
        decreases a@.len() - i,
    {
        if a[i] != b[i] {
            return false;
        }
        i += 1;
    }
    assert(a@ =~= b@);
    true
}

/// The view of an optional array.
pub open spec fn option_array_view<const N: usize>(value: Option<[u8; N]>) -> Option<Seq<u8>> {
    match value {
        Some(bytes) => Some(bytes@),
        None => None,
    }
}

/// The view of an optional vector.
pub open spec fn option_vec_view(value: Option<Vec<u8>>) -> Option<Seq<u8>> {
    match value {
        Some(bytes) => Some(bytes@),
        None => None,
    }
}

/// Reads a byte at `pos`; gives it with the position after it.
pub(crate) fn read_u8(data: &[u8], pos: usize) -> (r: Option<(u8, usize)>)
    requires
        pos <= data@.len(),
    ensures
        match r {
            Some((x, next)) => pos <= next <= data@.len() && parse_u8(data@.skip(pos as int))
                == Some((x, data@.skip(next as int))),
            None => parse_u8(data@.skip(pos as int)) is None,
        },
{
    proof {
        reveal(parse_u8);
    }
    if pos < data.len() {
        assert(data@.skip(pos as int).skip(1) =~= data@.skip(pos + 1));
        Some((data[pos], pos + 1))
    } else {
        None
    }
}

/// Reads a flag at `pos`; gives it with the position after it.
pub(crate) fn read_bool(data: &[u8], pos: usize) -> (r: Option<(bool, usize)>)
    requires
        pos <= data@.len(),
    ensures
        match r {
            Some((b, next)) => pos <= next <= data@.len() && parse_bool(data@.skip(pos as int))
                == Some((b, data@.skip(next as int))),
            None => parse_bool(data@.skip(pos as int)) is None,
        },
{
    proof {
        reveal(parse_bool);
    }
    if pos < data.len() && data[pos] <= 1 {
        assert(data@.skip(pos as int).skip(1) =~= data@.skip(pos + 1));
        Some((data[pos] == 1, pos + 1))
    } else {
        None
    }
}

/// Reads a number of four bytes at `pos`; gives it with the position after it.
pub(crate) fn read_u32(data: &[u8], pos: usize) -> (r: Option<(u32, usize)>)
    requires
        pos <= data@.len(),
    ensures
        match r {
            Some((x, next)) => pos <= next <= data@.len() && parse_u32(data@.skip(pos as int))
                == Some((x, data@.skip(next as int))),
            None => parse_u32(data@.skip(pos as int)) is None,
        },
{
    proof {
        reveal(parse_u32);
    }
    if data.len() - pos < 4 {
        return None;
    }
    let b0 = data[pos];
    let b1 = data[pos + 1];
    let b2 = data[pos + 2];
    let b3 = data[pos + 3];
    proof {
        lemma_le_digits(b0, b1, b2, b3);
        assert(data@.skip(pos as int).skip(4) =~= data@.skip(pos + 4));
    }
    let x: u32 = b0 as u32 + 256 * (b1 as u32) + 65536 * (b2 as u32) + 16777216 * (b3 as u32);
    Some((x, pos + 4))
}

/// Reads a number of eight bytes at `pos`; gives it with the position after it.
pub(crate) fn read_u64(data: &[u8], pos: usize) -> (r: Option<(u64, usize)>)
    requires
        pos <= data@.len(),
    ensures
        match r {
            Some((x, next)) => pos <= next <= data@.len() && parse_u64(data@.skip(pos as int))
                == Some((x, data@.skip(next as int))),
            None => parse_u64(data@.skip(pos as int)) is None,
        },
{
    proof {
        reveal(parse_u64);
    }
    match read_u32(data, pos) {
        None => None,
        Some((low, middle)) => match read_u32(data, middle) {
            None => None,
            Some((high, next)) => {
                proof {
                    lemma_le_halves(low, high);
                }
                Some((low as u64 + 0x1_0000_0000 * (high as u64), next))
            },
        },
    }
}

/// Reads a byte string of a fixed length at `pos`; gives it with the position after it.
pub(crate) fn read_array<const N: usize>(data: &[u8], pos: usize) -> (r: Option<([u8; N], usize)>)
    requires
        pos <= data@.len(),
    ensures
        match r {
            Some((bytes, next)) => pos <= next <= data@.len() && parse_fixed(
                data@.skip(pos as int),
                N as nat,
            ) == Some((bytes@, data@.skip(next as int))),
            None => parse_fixed(data@.skip(pos as int), N as nat) is None,
        },
{
    proof {
        reveal(parse_fixed);
    }
    if data.len() - pos < N {
        return None;
    }
    let mut bytes = [0u8; N];
    let mut i: usize = 0;
    while i < N
        invariant
            i <= N,
            pos + N <= data@.len() <= usize::MAX,
            forall|k: int| 0 <= k < i ==> bytes@[k] == data@[pos + k],
        decreases N - i,
    {
        bytes[i] = data[pos + i];
        i += 1;
    }
    proof {
        assert(bytes@ =~= data@.skip(pos as int).take(N as int));
        assert(data@.skip(pos as int).skip(N as int) =~= data@.skip(pos + N));
    }
    Some((bytes, pos + N))
}

/// Reads a byte string that states its length at `pos`; gives it with the position after it.
pub(crate) fn read_bytes(data: &[u8], pos: usize) -> (r: Option<(Vec<u8>, usize)>)
    requires
        pos <= data@.len(),
    ensures
        match r {
            Some((bytes, next)) => pos <= next <= data@.len() && parse_bytes(data@.skip(pos as int))
                == Some((bytes@, data@.skip(next as int))),
            None => parse_bytes(data@.skip(pos as int)) is None,
        },
{
    proof {
        reveal(parse_bytes);
        reveal(parse_fixed);
    }
    match read_u32(data, pos) {
        None => None,
        Some((n, start)) => {
            if data.len() - start < n as usize {
                return None;
            }
            let end = start + n as usize;
            let bytes = vstd::slice::slice_to_vec(vstd::slice::slice_subrange(data, start, end));
            proof {
                assert(bytes@ =~= data@.skip(start as int).take(n as int));
                assert(data@.skip(start as int).skip(n as int) =~= data@.skip(end as int));
            }
            Some((bytes, end))
        },
    }
}

/// Reads an optional byte at `pos`; gives it with the position after it.
pub(crate) fn read_option_u8(data: &[u8], pos: usize) -> (r: Option<(Option<u8>, usize)>)
    requires
        pos <= data@.len(),
    ensures
        match r {
            Some((value, next)) => pos <= next <= data@.len() && parse_option_u8(
                data@.skip(pos as int),
            ) == Some((value, data@.skip(next as int))),
            None => parse_option_u8(data@.skip(pos as int)) is None,
        },
{
    proof {
        reveal(parse_option_u8);
    }
    match read_bool(data, pos) {
        None => None,
        Some((false, next)) => Some((None, next)),
        Some((true, start)) => match read_u8(data, start) {
            None => None,
            Some((x, next)) => Some((Some(x), next)),
        },
    }
}

/// Reads an optional byte string of a fixed length at `pos`; gives it with the position after it.
pub(crate) fn read_option_array<const N: usize>(data: &[u8], pos: usize) -> (r: Option<
    (Option<[u8; N]>, usize),
>)
    requires
        pos <= data@.len(),
    ensures
        match r {
            Some((value, next)) => pos <= next <= data@.len() && parse_option_fixed(
                data@.skip(pos as int),
                N as nat,
            ) == Some((option_array_view(value), data@.skip(next as int))),
            None => parse_option_fixed(data@.skip(pos as int), N as nat) is None,
        },
{
    proof {
        reveal(parse_option_fixed);
    }
    match read_bool(data, pos) {
        None => None,
        Some((false, next)) => Some((None, next)),
        Some((true, start)) => match read_array::<N>(data, start) {
            None => None,
            Some((bytes, next)) => Some((Some(bytes), next)),
        },
    }
}

/// Reads an optional byte string that states its length at `pos`; gives it with the position after it.
pub(crate) fn read_option_bytes(data: &[u8], pos: usize) -> (r: Option<(Option<Vec<u8>>, usize)>)
    requires
        pos <= data@.len(),
    ensures
        match r {
            Some((value, next)) => pos <= next <= data@.len() && parse_option_bytes(
                data@.skip(pos as int),
            ) == Some((option_vec_view(value), data@.skip(next as int))),
            None => parse_option_bytes(data@.skip(pos as int)) is None,
        },
{
    proof {
        reveal(parse_option_bytes);
    }
    match read_bool(data, pos) {
        None => None,
        Some((false, next)) => Some((None, next)),
        Some((true, start)) => match read_bytes(data, start) {
            None => None,
            Some((bytes, next)) => Some((Some(bytes), next)),
        },
    }
}

// ---------------------------------------------------------------------------
// Writing at the end of a buffer
// ---------------------------------------------------------------------------

/// Appends a byte to `out`.
pub(crate) fn write_u8(out: &mut Vec<u8>, x: u8)
    ensures
        final(out)@ == old(out)@ + encode_u8(x),
{
    out.push(x);
    assert(out@ =~= old(out)@ + encode_u8(x));
}

/// Appends a flag to `out`.
pub(crate) fn write_bool(out: &mut Vec<u8>, b: bool)
    ensures
        final(out)@ == old(out)@ + encode_bool(b),
{
    out.push(if b { 1 } else { 0 });
    assert(out@ =~= old(out)@ + encode_bool(b));
}

/// Appends a number of four bytes to `out`.
pub(crate) fn write_u32(out: &mut Vec<u8>, x: u32)
    ensures
        final(out)@ == old(out)@ + encode_u32(x),
{
    proof {
        reveal(encode_u32);
    }
    out.push((x % 256) as u8);
    out.push((x / 256 % 256) as u8);
    out.push((x / 65536 % 256) as u8);
    out.push((x / 16777216) as u8);
    assert(out@ =~= old(out)@ + encode_u32(x));
}

/// Appends a number of eight bytes to `out`.
pub(crate) fn write_u64(out: &mut Vec<u8>, x: u64)
    ensures
        final(out)@ == old(out)@ + encode_u64(x),
{
    proof {
        reveal(encode_u64);
    }
    write_u32(out, (x % 0x1_0000_0000) as u32);
    write_u32(out, (x / 0x1_0000_0000) as u32);
    assert(out@ =~= old(out)@ + encode_u64(x));
}

/// Appends a byte string of a fixed length to `out`.
pub(crate) fn write_fixed(out: &mut Vec<u8>, bytes: &[u8])
    ensures
        final(out)@ == old(out)@ + bytes@,
{
    out.extend_from_slice(bytes);
}

/// Appends a byte string that states its length to `out`.
pub(crate) fn write_bytes(out: &mut Vec<u8>, bytes: &[u8])
    requires
        bytes@.len() <= MAX_LEN,
    ensures
        final(out)@ == old(out)@ + encode_bytes(bytes@),
{
    proof {
        reveal(encode_bytes);
    }
    write_u32(out, bytes.len() as u32);
    out.extend_from_slice(bytes);
    assert(out@ =~= old(out)@ + encode_bytes(bytes@));
}

/// Appends an optional byte to `out`.
pub(crate) fn write_option_u8(out: &mut Vec<u8>, value: Option<u8>)
    ensures
        final(out)@ == old(out)@ + encode_option_u8(value),
{
    proof {
        reveal(encode_option_u8);
    }
    match value {
        None => write_bool(out, false),
        Some(x) => {
            write_bool(out, true);
            write_u8(out, x);
            assert(out@ =~= old(out)@ + encode_option_u8(value));
        },
    }
}

/// Appends an optional byte string of a fixed length to `out`.
pub(crate) fn write_option_array<const N: usize>(out: &mut Vec<u8>, value: &Option<[u8; N]>)
    ensures
        final(out)@ == old(out)@ + encode_option_fixed(option_array_view(*value)),
{
    proof {
        reveal(encode_option_fixed);
    }
    match value {
        None => write_bool(out, false),
        Some(bytes) => {
            write_bool(out, true);
            write_fixed(out, bytes.as_slice());
            assert(out@ =~= old(out)@ + encode_option_fixed(option_array_view(*value)));
        },
    }
}

/// Appends an optional byte string that states its length to `out`.
pub(crate) fn write_option_bytes(out: &mut Vec<u8>, value: &Option<Vec<u8>>)
    requires
        option_fits(option_vec_view(*value)),
    ensures
        final(out)@ == old(out)@ + encode_option_bytes(option_vec_view(*value)),
{
    proof {
        reveal(encode_option_bytes);
    }
    match value {
        None => write_bool(out, false),
        Some(bytes) => {
            write_bool(out, true);
            write_bytes(out, bytes.as_slice());
            assert(out@ =~= old(out)@ + encode_option_bytes(option_vec_view(*value)));
        },
    }
}

} // verus!
