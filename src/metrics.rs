//! The integer totals that the reported rates are derived from.
use vstd::prelude::*;
use crate::fixture::EncodedStream;
use crate::runner::{total_bytes_for, RunAccumulator};
use crate::varint::{lemma_well_formed_consumes_exactly, well_formed, ScenarioKind};

verus! {

/// The totals of one finished run, with the number of values it decoded.
/// Time per value is `total_elapsed_ns / total_values`, bytes per value
/// `total_bytes_consumed / total_values`, and throughput in GiB/s
/// `total_bytes_consumed * 10^9 / (2^30 * total_elapsed_ns)`.
#[derive(Clone, Copy, Debug, PartialEq, Eq, Structural)]
pub struct BenchmarkResult {
    pub total_values: u64,
    pub total_elapsed_ns: u64,
    pub total_bytes_consumed: u64,
}

/// Values decoded by `iterations` passes over a stream of `declared_value_count`.
pub open spec fn total_values_for(declared_value_count: nat, iterations: nat) -> nat {
    declared_value_count * iterations
}

/// Gathers the totals of a finished run: the values decoded are the declared
/// count once per pass.
pub fn report(acc: &RunAccumulator, declared_value_count: u64, iterations: usize) -> (r:
    BenchmarkResult)
    requires
        declared_value_count * iterations <= u64::MAX,
    ensures
        r.total_values == total_values_for(declared_value_count as nat, iterations as nat),
        r.total_elapsed_ns == acc.total_elapsed_ns,
        r.total_bytes_consumed == acc.total_bytes_consumed,
{
    BenchmarkResult {
        total_values: declared_value_count * (iterations as u64),
        total_elapsed_ns: acc.total_elapsed_ns,
        total_bytes_consumed: acc.total_bytes_consumed,
    }
}

/// For a well-formed stream, once time has passed and values were decoded,
/// time per value and throughput are positive: every numerator and
/// denominator of those rates is.
pub proof fn lemma_rates_positive(
    stream: &EncodedStream,
    kind: ScenarioKind,
    iterations: nat,
    res: BenchmarkResult,
)
    requires
        stream.wf(),
        well_formed(stream.payload(), stream.spec_declared_value_count(), kind),
        res.total_values == total_values_for(stream.spec_declared_value_count(), iterations),
        res.total_bytes_consumed == total_bytes_for(stream.spec_logical_length(), iterations),
        res.total_elapsed_ns > 0,
        res.total_values > 0,
    ensures
        res.total_bytes_consumed > 0,
        res.total_elapsed_ns > 0,
        res.total_values > 0,
{
    lemma_well_formed_consumes_exactly(stream.payload(), stream.spec_declared_value_count(), kind);
    let n = stream.spec_declared_value_count();
    let l = stream.spec_logical_length();
    assert(n > 0 && iterations > 0) by (nonlinear_arith)
        requires
            n * iterations > 0,
    ;
    assert(l * iterations > 0) by (nonlinear_arith)
        requires
            l >= n,
            n > 0,
            iterations > 0,
    ;
}

/// Doubling the passes doubles the values decoded and leaves the bytes per
/// value unchanged, as long as the byte total does not saturate.
pub proof fn lemma_metrics_linear(declared_value_count: nat, logical_length: nat, iterations: nat)
    requires
        logical_length * (2 * iterations) <= u64::MAX,
    ensures
        total_values_for(declared_value_count, 2 * iterations) == 2 * total_values_for(
            declared_value_count,
            iterations,
        ),
        total_bytes_for(logical_length, 2 * iterations) * total_values_for(
            declared_value_count,
            iterations,
        ) == total_bytes_for(logical_length, iterations) * total_values_for(
            declared_value_count,
            2 * iterations,
        ),
{
    let n = declared_value_count;
    let l = logical_length;
    let k = iterations;
    assert(l * k <= l * (2 * k)) by (nonlinear_arith);
    assert(n * (2 * k) == 2 * (n * k)) by (nonlinear_arith);
    assert((l * (2 * k)) * (n * k) == (l * k) * (n * (2 * k))) by (nonlinear_arith);
}

} // verus!
