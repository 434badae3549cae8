//! Decoding a whole stream outside the timed region, to compare strategies
//! and to hold a fixture to its header before it is benchmarked.
use vstd::prelude::*;
use vstd::slice::slice_subrange;
use crate::fixture::EncodedStream;
use crate::varint::{
    decode_run, decode_value, lemma_decode_run_stays_failed, well_formed, DecodeError,
    ScenarioKind,
};

verus! {

/// Every value of a stream, decoded in order, with the length of each
/// encoding and the bytes consumed in all.
pub struct DecodedValues {
    pub values: Vec<u64>,
    pub lengths: Vec<usize>,
    pub consumed: usize,
}

/// `d` holds the values, lengths and consumed bytes of a run.
pub open spec fn matches_run(d: &DecodedValues, off: nat, vs: Seq<nat>, ls: Seq<nat>) -> bool {
    &&& d.consumed as nat == off
    &&& d.values@.len() == vs.len()
    &&& d.lengths@.len() == ls.len()
    &&& forall|i: int| 0 <= i < vs.len() ==> #[trigger] d.values@[i] as nat == vs[i]
    &&& forall|i: int| 0 <= i < ls.len() ==> #[trigger] d.lengths@[i] as nat == ls[i]
}

/// Decodes the declared number of values one after another from the start
/// of the stream, with bounds checks.
pub fn decode_all(stream: &EncodedStream, kind: ScenarioKind) -> (r: Result<DecodedValues, DecodeError>)
    requires
        stream.wf(),
    ensures
        match decode_run(stream.payload(), stream.spec_declared_value_count(), kind) {
            Ok((off, vs, ls)) => r matches Ok(d) && matches_run(&d, off, vs, ls),
            Err(e) => r matches Err(e2) && e2 == e,
        },
{
    let data = stream.data();
    let limit = stream.logical_length();
    let count = stream.declared_value_count();
    let ghost payload = stream.payload();
    let mut values: Vec<u64> = Vec::new();
    let mut lengths: Vec<usize> = Vec::new();
    let mut offset: usize = 0;
    let mut j: u64 = 0;
    while j < count
        invariant
            stream.wf(),
            data@ == stream.buffer(),
            limit == stream.spec_logical_length(),
            count == stream.spec_declared_value_count(),
            payload == stream.payload(),
            j <= count,
            offset <= limit,
            decode_run(payload, j as nat, kind) matches Ok((off, vs, ls)) && matches_run(
                &DecodedValues { values, lengths, consumed: offset },
                off,
                vs,
                ls,
            ),
        decreases count - j,
    {
        let window = slice_subrange(data, offset, limit);
        proof {
            assert(window@ =~= payload.skip(offset as int));
        }
        let ghost prev = decode_run(payload, j as nat, kind);
        let ghost prev_values = values@;
        let ghost prev_lengths = lengths@;
        match decode_value(kind, window) {
            Ok((v, l)) => {
                values.push(v);
                lengths.push(l);
                offset = offset + l;
                proof {
                    let (off, vs, ls) = prev->Ok_0;
                    assert(values@ == prev_values.push(v));
                    assert(lengths@ == prev_lengths.push(l));
                    assert forall|i: int| 0 <= i < vs.len() + 1 implies #[trigger] values@[i] as nat
                        == vs.push(v as nat)[i] by {
                        if i < vs.len() {
                            assert(values@[i] == prev_values[i]);
                        }
                    }
                    assert forall|i: int| 0 <= i < ls.len() + 1 implies #[trigger] lengths@[i] as nat
                        == ls.push(l as nat)[i] by {
                        if i < ls.len() {
                            assert(lengths@[i] == prev_lengths[i]);
                        }
                    }
                }
            },
            Err(e) => {
                proof {
                    lemma_decode_run_stays_failed(payload, (j + 1) as nat, count as nat, kind);
                }
                return Err(e);
            },
        }
        j = j + 1;
    }
    Ok(DecodedValues { values, lengths, consumed: offset })
}

/// Whether the declared number of values decode one after another and take
/// exactly the stream's encoded bytes.
pub fn is_well_formed(stream: &EncodedStream, kind: ScenarioKind) -> (r: bool)
    requires
        stream.wf(),
    ensures
        r == well_formed(stream.payload(), stream.spec_declared_value_count(), kind),
{
    match decode_all(stream, kind) {
        Ok(d) => d.consumed == stream.logical_length(),
        Err(_) => false,
    }
}

} // verus!
