//! The varint (LEB128) decoding that the harness replays, modelled as spec
//! functions, and the checked decoder of `varint_simd` behind contracts.
use vstd::prelude::*;

verus! {

/// Why a checked decode refused the bytes in front of it.
#[derive(Clone, Copy, Debug, PartialEq, Eq, Structural)]
pub enum DecodeError {
    /// The encoding is longer than the target width allows, or its last byte
    /// carries bits that do not fit.
    Overflow,
    /// The input ends before the encoding does.
    NotEnoughBytes,
}

/// Longest encoding of a `u8`, in bytes.
pub const U8_MAX_BYTES: usize = 2;

/// Largest last byte of a `u8` encoding of full length.
pub const U8_MAX_LAST_BYTE: u8 = 1;

/// Longest encoding of a `u16`, in bytes.
pub const U16_MAX_BYTES: usize = 3;

/// Largest last byte of a `u16` encoding of full length.
pub const U16_MAX_LAST_BYTE: u8 = 3;

/// The byte at `i` exists and has its continuation bit set.
pub open spec fn continues(s: Seq<u8>, i: int) -> bool {
    0 <= i < s.len() && s[i] >= 128
}

/// Length of the encoding at the start of `s`, looking at no more than `max`
/// bytes: `max + 1` when all of those carry a continuation bit. Bytes past the
/// end of `s` count as ending the encoding.
pub open spec fn varint_len(s: Seq<u8>, max: nat) -> nat
    decreases max,
{
    if max == 0 || !continues(s, 0) {
        1
    } else {
        1 + varint_len(s.drop_first(), (max - 1) as nat)
    }
}

/// Value of the first `len` bytes of `s`, seven bits per byte, least
/// significant group first.
pub open spec fn varint_value(s: Seq<u8>, len: nat) -> nat
    decreases len,
{
    if len == 0 || s.len() == 0 {
        0
    } else {
        (s[0] % 128) as nat + 128 * varint_value(s.drop_first(), (len - 1) as nat)
    }
}

/// What a checked decode of the varint at the start of `s` gives, for a
/// target whose encodings have at most `max` bytes and whose full-length
/// encodings end in a byte of at most `max_last`: the value and the number
/// of bytes it took.
pub open spec fn decode_spec(s: Seq<u8>, max: nat, max_last: u8) -> Result<(nat, nat), DecodeError> {
    let l = varint_len(s, max);
    if s.len() == 0 {
        Err(DecodeError::NotEnoughBytes)
    } else if l > max {
        Err(DecodeError::Overflow)
    } else if l == max && s.len() >= max && s[max - 1] > max_last {
        Err(DecodeError::Overflow)
    } else if l > s.len() {
        Err(DecodeError::NotEnoughBytes)
    } else {
        Ok((varint_value(s, l), l))
    }
}

/// A checked `u8` decode of the start of `s`.
pub open spec fn decode_u8_spec(s: Seq<u8>) -> Result<(u8, usize), DecodeError> {
    match decode_spec(s, U8_MAX_BYTES as nat, U8_MAX_LAST_BYTE) {
        Ok((v, l)) => Ok((v as u8, l as usize)),
        Err(e) => Err(e),
    }
}

/// A checked `u16` decode of the start of `s`.
pub open spec fn decode_u16_spec(s: Seq<u8>) -> Result<(u16, usize), DecodeError> {
    match decode_spec(s, U16_MAX_BYTES as nat, U16_MAX_LAST_BYTE) {
        Ok((v, l)) => Ok((v as u16, l as usize)),
        Err(e) => Err(e),
    }
}

/// Relies on `varint_simd::decode::<u8>`: it finds the first byte without a
/// continuation bit (bytes past the slice read as zero), refuses an encoding
/// longer than two bytes or a two-byte one whose last byte exceeds 1, refuses
/// one that runs past the slice, and otherwise returns the seven-bit groups
/// joined and the length.
#[verifier::external_body]
fn checked_decode_u8(bytes: &[u8]) -> (r: Result<(u8, usize), DecodeError>)
    ensures
        r == decode_u8_spec(bytes@),
{
    match varint_simd::decode::<u8>(bytes) {
        Ok(d) => Ok(d),
        Err(varint_simd::VarIntDecodeError::Overflow) => Err(DecodeError::Overflow),
        Err(varint_simd::VarIntDecodeError::NotEnoughBytes) => Err(DecodeError::NotEnoughBytes),
    }
}

/// Relies on `varint_simd::decode::<u16>`, as `checked_decode_u8` does, with
/// encodings of at most three bytes whose full-length last byte is at most 3.
#[verifier::external_body]
fn checked_decode_u16(bytes: &[u8]) -> (r: Result<(u16, usize), DecodeError>)
    ensures
        r == decode_u16_spec(bytes@),
{
    match varint_simd::decode::<u16>(bytes) {
        Ok(d) => Ok(d),
        Err(varint_simd::VarIntDecodeError::Overflow) => Err(DecodeError::Overflow),
        Err(varint_simd::VarIntDecodeError::NotEnoughBytes) => Err(DecodeError::NotEnoughBytes),
    }
}

/// Decodes one `u8` varint at the start of `bytes`, checking the bounds.
pub fn decode_u8(bytes: &[u8]) -> (r: Result<(u8, usize), DecodeError>)
    ensures
        r == decode_u8_spec(bytes@),
        r matches Ok((v, l)) ==> 1 <= l <= U8_MAX_BYTES && l <= bytes@.len()
            && v as nat == varint_value(bytes@, l as nat),
{
    let r = checked_decode_u8(bytes);
    proof {
        lemma_decode_u8_bounds(bytes@);
    }
    r
}

/// Decodes one `u16` varint at the start of `bytes`, checking the bounds.
pub fn decode_u16(bytes: &[u8]) -> (r: Result<(u16, usize), DecodeError>)
    ensures
        r == decode_u16_spec(bytes@),
        r matches Ok((v, l)) ==> 1 <= l <= U16_MAX_BYTES && l <= bytes@.len()
            && v as nat == varint_value(bytes@, l as nat),
{
    let r = checked_decode_u16(bytes);
    proof {
        lemma_decode_u16_bounds(bytes@);
    }
    r
}

/// A successful `u8` decode takes one or two bytes of `s`, and its value
/// fits in a `u8`.
pub proof fn lemma_decode_u8_bounds(s: Seq<u8>)
    ensures
        decode_spec(s, 2, 1) matches Ok((v, l)) ==> 1 <= l <= 2 && l <= s.len() && v < 256,
{
    reveal_with_fuel(varint_len, 3);
    reveal_with_fuel(varint_value, 3);
    if let Ok((v, l)) = decode_spec(s, 2, 1) {
        if l == 2 {
            assert(s[1] <= 1);
            assert(v == (s[0] % 128) as nat + 128 * ((s[1] % 128) as nat));
        }
    }
}

/// A successful `u16` decode takes one to three bytes of `s`, and its value
/// fits in a `u16`.
pub proof fn lemma_decode_u16_bounds(s: Seq<u8>)
    ensures
        decode_spec(s, 3, 3) matches Ok((v, l)) ==> 1 <= l <= 3 && l <= s.len() && v < 65536,
{
    reveal_with_fuel(varint_len, 4);
    reveal_with_fuel(varint_value, 4);
    if let Ok((v, l)) = decode_spec(s, 3, 3) {
        let a = (s[0] % 128) as nat;
        if l == 2 {
            assert(v == a + 128 * ((s[1] % 128) as nat));
        } else if l == 3 {
            assert(s[2] <= 3);
            assert(v == a + 128 * ((s[1] % 128) as nat + 128 * ((s[2] % 128) as nat)));
        }
    }
}

/// The integer width that a scenario decodes into.
#[derive(Clone, Copy, Debug, PartialEq, Eq, Structural)]
pub enum ScenarioKind {
    U8,
    U16,
}

impl ScenarioKind {
    /// Longest encoding of the width, in bytes.
    pub open spec fn max_bytes(self) -> nat {
        match self {
            ScenarioKind::U8 => U8_MAX_BYTES as nat,
            ScenarioKind::U16 => U16_MAX_BYTES as nat,
        }
    }

    /// Largest last byte of an encoding of full length.
    pub open spec fn max_last_byte(self) -> u8 {
        match self {
            ScenarioKind::U8 => U8_MAX_LAST_BYTE,
            ScenarioKind::U16 => U16_MAX_LAST_BYTE,
        }
    }
}

/// A checked decode of the start of `s` at the given width.
pub open spec fn decode_kind(s: Seq<u8>, kind: ScenarioKind) -> Result<(nat, nat), DecodeError> {
    decode_spec(s, kind.max_bytes(), kind.max_last_byte())
}

/// Decodes one varint of the given width at the start of `bytes`, checking
/// the bounds, and widens the value to `u64`.
pub fn decode_value(kind: ScenarioKind, bytes: &[u8]) -> (r: Result<(u64, usize), DecodeError>)
    ensures
        match decode_kind(bytes@, kind) {
            Ok((v, l)) => r == Ok::<(u64, usize), DecodeError>((v as u64, l as usize)),
            Err(e) => r == Err::<(u64, usize), DecodeError>(e),
        },
        r matches Ok((v, l)) ==> 1 <= l <= kind.max_bytes() && l <= bytes@.len()
            && decode_kind(bytes@, kind) == Ok::<(nat, nat), DecodeError>((v as nat, l as nat)),
{
    proof {
        lemma_decode_u8_bounds(bytes@);
        lemma_decode_u16_bounds(bytes@);
    }
    match kind {
        ScenarioKind::U8 => match decode_u8(bytes) {
            Ok((v, l)) => Ok((v as u64, l)),
            Err(e) => Err(e),
        },
        ScenarioKind::U16 => match decode_u16(bytes) {
            Ok((v, l)) => Ok((v as u64, l)),
            Err(e) => Err(e),
        },
    }
}

/// Outcome of decoding `n` values one after another from the start of `s`:
/// the bytes consumed, the values and the length of each encoding; or the
/// error of the first decode that failed.
pub open spec fn decode_run(s: Seq<u8>, n: nat, kind: ScenarioKind) -> Result<
    (nat, Seq<nat>, Seq<nat>),
    DecodeError,
>
    decreases n,
{
    if n == 0 {
        Ok((0, Seq::empty(), Seq::empty()))
    } else {
        match decode_run(s, (n - 1) as nat, kind) {
            Err(e) => Err(e),
            Ok((off, vs, ls)) => match decode_kind(s.skip(off as int), kind) {
                Err(e) => Err(e),
                Ok((v, l)) => Ok((off + l, vs.push(v), ls.push(l))),
            },
        }
    }
}

/// `n` values decode one after another from `s` and take exactly its bytes.
pub open spec fn well_formed(s: Seq<u8>, n: nat, kind: ScenarioKind) -> bool {
    decode_run(s, n, kind) matches Ok((off, _, _)) && off == s.len()
}

/// Sum of a sequence of lengths.
pub open spec fn total_len(ls: Seq<nat>) -> nat
    decreases ls.len(),
{
    if ls.len() == 0 {
        0
    } else {
        total_len(ls.drop_last()) + ls.last()
    }
}

/// A run that decoded `n` values holds `n` values and `n` lengths, each
/// length at least one byte, and has consumed their sum, which lies within
/// `s`.
pub proof fn lemma_decode_run_shape(s: Seq<u8>, n: nat, kind: ScenarioKind)
    ensures
        decode_run(s, n, kind) matches Ok((off, vs, ls)) ==> {
            &&& vs.len() == n
            &&& ls.len() == n
            &&& off == total_len(ls)
            &&& n <= off <= s.len()
            &&& forall|i: int| 0 <= i < n ==> 1 <= #[trigger] ls[i] <= kind.max_bytes()
        },
    decreases n,
{
    if n > 0 {
        lemma_decode_run_shape(s, (n - 1) as nat, kind);
        if let Ok((off, vs, ls)) = decode_run(s, (n - 1) as nat, kind) {
            let t = s.skip(off as int);
            lemma_decode_u8_bounds(t);
            lemma_decode_u16_bounds(t);
            if let Ok((v, l)) = decode_kind(t, kind) {
                assert(ls.push(l).drop_last() =~= ls);
            }
        }
    }
}

/// Once a run fails, decoding more values fails with the same error.
pub proof fn lemma_decode_run_stays_failed(s: Seq<u8>, k: nat, n: nat, kind: ScenarioKind)
    requires
        k <= n,
        decode_run(s, k, kind) is Err,
    ensures
        decode_run(s, n, kind) == decode_run(s, k, kind),
    decreases n - k,
{
    if k < n {
        lemma_decode_run_stays_failed(s, k, (n - 1) as nat, kind);
    }
}

/// Decoding the declared number of values from a well-formed stream consumes
/// exactly its bytes: one length per value, and the lengths add up to the
/// length of the stream.
pub proof fn lemma_well_formed_consumes_exactly(s: Seq<u8>, n: nat, kind: ScenarioKind)
    requires
        well_formed(s, n, kind),
    ensures
        decode_run(s, n, kind) matches Ok((_, vs, ls)) && vs.len() == n && ls.len() == n
            && total_len(ls) == s.len(),
        n <= s.len(),
{
    lemma_decode_run_shape(s, n, kind);
}

} // verus!
