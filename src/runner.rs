//! The timed decode loop and the totals it accumulates.
use vstd::prelude::*;
use vstd::slice::slice_subrange;
use crate::fixture::EncodedStream;
use crate::varint::{
    decode_run, decode_value, lemma_decode_run_stays_failed, DecodeError, ScenarioKind,
};

verus! {

/// A reading of std's monotonic clock, carried through without a view.
#[verifier::external_type_specification]
#[verifier::external_body]
pub struct ExInstant(std::time::Instant);

/// Relies on `std::time::Instant::now`: a reading of the monotonic clock, of
/// which nothing is known here.
#[verifier::external_body]
fn start_timer() -> std::time::Instant {
    std::time::Instant::now()
}

/// Relies on `std::time::Instant::elapsed`: the time since `t`, of which
/// nothing is known here.
#[verifier::external_body]
fn elapsed(t: &std::time::Instant) -> std::time::Duration {
    t.elapsed()
}

/// Relies on `std::time::Duration::as_nanos`: the whole nanoseconds of `d`;
/// any value may come back.
#[verifier::external_body]
fn as_nanos(d: &std::time::Duration) -> u128 {
    d.as_nanos()
}

/// Relies on `std::hint::black_box`: marks `v` as observed, so that the
/// decodes that produced it are not optimised away.
#[verifier::external_body]
fn observe(v: u64) {
    std::hint::black_box(v);
}

/// `a + b`, held at `u64::MAX`.
pub open spec fn sat_add(a: nat, b: nat) -> nat {
    if a + b > u64::MAX {
        u64::MAX as nat
    } else {
        a + b
    }
}

/// Bytes counted after `iterations` passes over `logical_length` bytes, held
/// at `u64::MAX`.
pub open spec fn total_bytes_for(logical_length: nat, iterations: nat) -> nat {
    if logical_length * iterations > u64::MAX {
        u64::MAX as nat
    } else {
        logical_length * iterations
    }
}

/// Totals of one run of one strategy over one stream.
#[derive(Clone, Copy, Debug, PartialEq, Eq, Structural)]
pub struct RunAccumulator {
    pub total_elapsed_ns: u64,
    pub total_bytes_consumed: u64,
}

impl RunAccumulator {
    /// Totals before the first pass.
    pub fn new() -> (r: RunAccumulator)
        ensures
            r.total_elapsed_ns == 0,
            r.total_bytes_consumed == 0,
    {
        RunAccumulator { total_elapsed_ns: 0, total_bytes_consumed: 0 }
    }

    /// Adds one pass: its time and the bytes it covered, both saturating.
    pub fn record_iteration(&mut self, elapsed_ns: u64, bytes: usize)
        ensures
            final(self).total_elapsed_ns == sat_add(
                old(self).total_elapsed_ns as nat,
                elapsed_ns as nat,
            ),
            final(self).total_bytes_consumed == sat_add(
                old(self).total_bytes_consumed as nat,
                bytes as nat,
            ),
    {
        self.total_elapsed_ns = self.total_elapsed_ns.saturating_add(elapsed_ns);
        self.total_bytes_consumed = self.total_bytes_consumed.saturating_add(bytes as u64);
    }
}

/// Where a pass stands in the buffer, and the sink that every decoded value
/// is folded into.
#[derive(Clone, Copy, Debug, PartialEq, Eq, Structural)]
pub struct DecodeCursor {
    pub offset: usize,
    pub sink: u64,
}

impl DecodeCursor {
    /// A cursor at the start of the buffer, carrying on from `sink`.
    pub fn start(sink: u64) -> (r: DecodeCursor)
        ensures
            r.offset == 0,
            r.sink == sink,
    {
        DecodeCursor { offset: 0, sink }
    }

    /// Folds a decoded value into the sink, wrapping, and moves past its
    /// `len` bytes.
    pub fn advance(&mut self, value: u64, len: usize)
        requires
            old(self).offset + len <= usize::MAX,
        ensures
            final(self).offset == old(self).offset + len,
            final(self).sink == (old(self).sink as nat + value as nat) % 0x1_0000_0000_0000_0000,
    {
        self.sink = self.sink.wrapping_add(value);
        self.offset = self.offset + len;
    }
}

/// One pass of the checked strategy: decodes the declared number of values
/// one after another from the start of the stream, folding them into `sink`.
/// Gives the new sink, or the error of the first decode that failed.
fn decode_pass(stream: &EncodedStream, kind: ScenarioKind, sink: u64) -> (r: Result<u64, DecodeError>)
    requires
        stream.wf(),
    ensures
        r is Ok <==> decode_run(stream.payload(), stream.spec_declared_value_count(), kind) is Ok,
        r matches Err(e) ==> decode_run(
            stream.payload(),
            stream.spec_declared_value_count(),
            kind,
        ) == Err::<(nat, Seq<nat>, Seq<nat>), DecodeError>(e),
{
    let data = stream.data();
    let limit = stream.logical_length();
    let count = stream.declared_value_count();
    let ghost payload = stream.payload();
    let mut cursor = DecodeCursor::start(sink);
    let mut j: u64 = 0;
    while j < count
        invariant
            stream.wf(),
            data@ == stream.buffer(),
            limit == stream.spec_logical_length(),
            count == stream.spec_declared_value_count(),
            payload == stream.payload(),
            j <= count,
            cursor.offset <= limit,
            decode_run(payload, j as nat, kind) matches Ok((off, _, _)) && off == cursor.offset,
        decreases count - j,
    {
        let window = slice_subrange(data, cursor.offset, limit);
        proof {
            assert(window@ =~= payload.skip(cursor.offset as int));
        }
        match decode_value(kind, window) {
            Ok((v, l)) => {
                cursor.advance(v, l);
            },
            Err(e) => {
                proof {
                    lemma_decode_run_stays_failed(payload, (j + 1) as nat, count as nat, kind);
                }
                return Err(e);
            },
        }
        j = j + 1;
    }
    Ok(cursor.sink)
}

/// What a checked run of `iterations` passes over `stream` gives: the error
/// of the first failed decode, exactly when there is a pass and the stream
/// does not hold the declared number of values; otherwise totals that count
/// the stream's bytes once per pass.
pub open spec fn checked_run_outcome(
    stream: &EncodedStream,
    kind: ScenarioKind,
    iterations: nat,
    r: Result<RunAccumulator, DecodeError>,
) -> bool {
    let run = decode_run(stream.payload(), stream.spec_declared_value_count(), kind);
    &&& (r is Err <==> iterations > 0 && run is Err)
    &&& (r matches Err(e) ==> run == Err::<(nat, Seq<nat>, Seq<nat>), DecodeError>(e))
    &&& (r matches Ok(acc) ==> acc.total_bytes_consumed == total_bytes_for(
        stream.spec_logical_length(),
        iterations,
    ))
}

/// Runs the checked strategy over `stream` `iterations` times, timing each
/// pass. Fails with the first decode error when the stream does not hold the
/// declared number of values; otherwise counts the stream's bytes once per
/// pass.
pub fn bench_decode_checked(stream: &EncodedStream, kind: ScenarioKind, iterations: usize) -> (r:
    Result<RunAccumulator, DecodeError>)
    requires
        stream.wf(),
    ensures
        checked_run_outcome(stream, kind, iterations as nat, r),
{
    let limit = stream.logical_length();
    let mut acc = RunAccumulator::new();
    let mut sink: u64 = 0;
    let mut it: usize = 0;
    while it < iterations
        invariant
            stream.wf(),
            limit == stream.spec_logical_length(),
            it <= iterations,
            it > 0 ==> decode_run(stream.payload(), stream.spec_declared_value_count(), kind) is Ok,
            acc.total_bytes_consumed == total_bytes_for(limit as nat, it as nat),
        decreases iterations - it,
    {
        let t0 = start_timer();
        match decode_pass(stream, kind, sink) {
            Ok(s) => {
                sink = s;
            },
            Err(e) => {
                return Err(e);
            },
        }
        let ns = as_nanos(&elapsed(&t0)) as u64;
        proof {
            lemma_total_bytes_step(limit as nat, it as nat);
        }
        acc.record_iteration(ns, limit);
        it = it + 1;
    }
    observe(sink);
    Ok(acc)
}

proof fn lemma_total_bytes_step(l: nat, k: nat)
    ensures
        total_bytes_for(l, k + 1) == sat_add(total_bytes_for(l, k), l),
{
    assert(l * (k + 1) == l * k + l) by (nonlinear_arith);
}

/// Runs the checked `u8` decoder over `stream` `iterations` times.
pub fn bench_decode_u8_safe(stream: &EncodedStream, iterations: usize) -> (r: Result<
    RunAccumulator,
    DecodeError,
>)
    requires
        stream.wf(),
    ensures
        checked_run_outcome(stream, ScenarioKind::U8, iterations as nat, r),
{
    bench_decode_checked(stream, ScenarioKind::U8, iterations)
}

/// Runs the checked `u16` decoder over `stream` `iterations` times.
pub fn bench_decode_u16_safe(stream: &EncodedStream, iterations: usize) -> (r: Result<
    RunAccumulator,
    DecodeError,
>)
    requires
        stream.wf(),
    ensures
        checked_run_outcome(stream, ScenarioKind::U16, iterations as nat, r),
{
    bench_decode_checked(stream, ScenarioKind::U16, iterations)
}

} // verus!
