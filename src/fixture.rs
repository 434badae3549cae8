//! Fixture files: an eight-byte little-endian value count followed by the
//! encoded values, loaded into a buffer with zero padding behind them.
use vstd::prelude::*;

verus! {

/// Bytes of zero padding kept behind the encoded values, so that a decoder
/// that reads a fixed-width chunk never leaves the buffer.
pub const PADDING: usize = 16;

/// Bytes of the header that gives the number of encoded values.
pub const HEADER_LEN: usize = 8;

/// Little-endian value of the bytes of `s`.
pub open spec fn le_value(s: Seq<u8>) -> nat
    decreases s.len(),
{
    if s.len() == 0 {
        0
    } else {
        s[0] as nat + 256 * le_value(s.drop_first())
    }
}

pub open spec fn pow256(n: nat) -> nat
    decreases n,
{
    if n == 0 {
        1
    } else {
        256 * pow256((n - 1) as nat)
    }
}

proof fn lemma_le_value_bound(s: Seq<u8>)
    ensures
        le_value(s) < pow256(s.len()),
    decreases s.len(),
{
    if s.len() > 0 {
        lemma_le_value_bound(s.drop_first());
        assert(le_value(s) == s[0] as nat + 256 * le_value(s.drop_first()));
        assert(pow256(s.len()) == 256 * pow256(s.drop_first().len()));
    }
}

/// Reads the first eight bytes of `b` as a little-endian `u64`.
pub fn read_le_u64(b: &[u8]) -> (r: u64)
    requires
        b@.len() >= HEADER_LEN,
    ensures
        r as nat == le_value(b@.subrange(0, HEADER_LEN as int)),
{
    let mut v: u64 = 0;
    let mut i: usize = HEADER_LEN;
    proof {
        reveal_with_fuel(pow256, 9);
    }
    while i > 0
        invariant
            i <= HEADER_LEN <= b@.len(),
            v as nat == le_value(b@.subrange(i as int, HEADER_LEN as int)),
            v < pow256((HEADER_LEN - i) as nat),
            pow256(HEADER_LEN as nat) == 0x1_0000_0000_0000_0000,
        decreases i,
    {
        let ghost tail = b@.subrange(i as int, HEADER_LEN as int);
        let ghost next = b@.subrange(i - 1, HEADER_LEN as int);
        proof {
            assert(next.drop_first() =~= tail);
            assert(le_value(next) == next[0] as nat + 256 * le_value(tail));
            lemma_le_value_bound(next);
            lemma_pow256_mono((HEADER_LEN - i + 1) as nat, HEADER_LEN as nat);
        }
        v = v * 256 + b[i - 1] as u64;
        i = i - 1;
    }
    v
}

proof fn lemma_pow256_mono(a: nat, b: nat)
    requires
        a <= b,
    ensures
        pow256(a) <= pow256(b),
    decreases b - a,
{
    if a < b {
        lemma_pow256_mono(a, (b - 1) as nat);
        assert(pow256(b) == 256 * pow256((b - 1) as nat));
    }
}

/// Why a fixture file could not be read.
#[derive(Clone, Copy, Debug, PartialEq, Eq, Structural)]
pub enum FixtureError {
    /// The file is shorter than its header.
    TruncatedHeader,
}

/// An encoded stream in memory: the encoded values, followed by zero padding
/// that no decode counts as data, and the number of values the header
/// declared.
pub struct EncodedStream {
    data: Vec<u8>,
    logical_length: usize,
    declared_value_count: u64,
}

impl EncodedStream {
    /// The buffer holds the encoded values and then exactly the padding, all
    /// zero.
    pub open spec fn wf(&self) -> bool {
        &&& self.buffer().len() == self.spec_logical_length() + PADDING
        &&& forall|i: int|
            self.spec_logical_length() <= i < self.buffer().len() ==> #[trigger] self.buffer()[i]
                == 0
    }

    pub closed spec fn buffer(&self) -> Seq<u8> {
        self.data@
    }

    pub closed spec fn spec_logical_length(&self) -> nat {
        self.logical_length as nat
    }

    pub closed spec fn spec_declared_value_count(&self) -> nat {
        self.declared_value_count as nat
    }

    /// The encoded values without the padding.
    pub open spec fn payload(&self) -> Seq<u8> {
        self.buffer().subrange(0, self.spec_logical_length() as int)
    }

    /// The whole buffer, padding included.
    pub fn data(&self) -> (r: &[u8])
        ensures
            r@ == self.buffer(),
    {
        self.data.as_slice()
    }

    /// Bytes of encoded values, without the padding.
    pub fn logical_length(&self) -> (r: usize)
        ensures
            r as nat == self.spec_logical_length(),
    {
        self.logical_length
    }

    /// Number of values that the header declared.
    pub fn declared_value_count(&self) -> (r: u64)
        ensures
            r as nat == self.spec_declared_value_count(),
    {
        self.declared_value_count
    }
}

/// Builds the in-memory stream from the bytes of a fixture file: the count
/// from the header, the rest as the encoded values, then the zero padding.
pub fn load_stream(file: &[u8]) -> (r: Result<EncodedStream, FixtureError>)
    ensures
        file@.len() < HEADER_LEN <==> r is Err,
        r matches Ok(st) ==> {
            &&& st.wf()
            &&& st.spec_declared_value_count() == le_value(file@.subrange(0, HEADER_LEN as int))
            &&& st.spec_logical_length() == file@.len() - HEADER_LEN
            &&& st.payload() == file@.subrange(HEADER_LEN as int, file@.len() as int)
        },
{
    if file.len() < HEADER_LEN {
        return Err(FixtureError::TruncatedHeader);
    }
    let count = read_le_u64(file);
    let logical_length = file.len() - HEADER_LEN;
    let mut data: Vec<u8> = Vec::new();
    let mut i: usize = HEADER_LEN;
    while i < file.len()
        invariant
            HEADER_LEN <= i <= file@.len(),
            data@ == file@.subrange(HEADER_LEN as int, i as int),
        decreases file@.len() - i,
    {
        data.push(file[i]);
        i = i + 1;
    }
    let mut k: usize = 0;
    while k < PADDING
        invariant
            k <= PADDING,
            HEADER_LEN <= file@.len(),
            logical_length == file@.len() - HEADER_LEN,
            data@.len() == logical_length + k,
            data@.subrange(0, logical_length as int) == file@.subrange(
                HEADER_LEN as int,
                file@.len() as int,
            ),
            forall|j: int| logical_length <= j < data@.len() ==> #[trigger] data@[j] == 0,
        decreases PADDING - k,
    {
        data.push(0);
        k = k + 1;
        assert(data@.subrange(0, logical_length as int) =~= file@.subrange(
            HEADER_LEN as int,
            file@.len() as int,
        ));
    }
    Ok(EncodedStream { data, logical_length, declared_value_count: count })
}

/// The loaded buffer is the encoded values followed by exactly the padding,
/// all of it zero.
pub proof fn lemma_loaded_buffer_padded(st: &EncodedStream)
    requires
        st.wf(),
    ensures
        st.buffer().len() == st.spec_logical_length() + PADDING,
        st.buffer().subrange(st.spec_logical_length() as int, st.buffer().len() as int)
            == Seq::new(PADDING as nat, |i: int| 0u8),
{
    assert(st.buffer().subrange(st.spec_logical_length() as int, st.buffer().len() as int)
        =~= Seq::new(PADDING as nat, |i: int| 0u8));
}

} // verus!
