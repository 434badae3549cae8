use varint_bench::config::read_env_size;
use varint_bench::fixture::{load_stream, read_le_u64, EncodedStream, FixtureError, PADDING};
use varint_bench::metrics::report;
use varint_bench::runner::{
    bench_decode_checked, bench_decode_u16_safe, bench_decode_u8_safe, DecodeCursor,
    RunAccumulator,
};
use varint_bench::validate::{decode_all, is_well_formed};
use varint_bench::varint::{decode_u16, decode_u8, decode_value, DecodeError, ScenarioKind};

fn fixture(count: u64, payload: &[u8]) -> Vec<u8> {
    let mut file = count.to_le_bytes().to_vec();
    file.extend_from_slice(payload);
    file
}

fn stream(count: u64, payload: &[u8]) -> EncodedStream {
    load_stream(&fixture(count, payload)).unwrap()
}

#[test]
fn narrow_single_byte_values() {
    let st = stream(4, &[0, 1, 2, 3]);
    assert_eq!(st.declared_value_count(), 4);
    let d = decode_all(&st, ScenarioKind::U8).unwrap();
    assert_eq!(d.values, vec![0, 1, 2, 3]);
    assert_eq!(d.lengths, vec![1, 1, 1, 1]);
    assert_eq!(d.consumed, 4);
    assert!(is_well_formed(&st, ScenarioKind::U8));
}

#[test]
fn narrow_two_byte_values() {
    // 128 = 0x80 0x01, 200 = 0xc8 0x01
    let st = stream(2, &[0x80, 0x01, 0xc8, 0x01]);
    let d = decode_all(&st, ScenarioKind::U8).unwrap();
    assert_eq!(d.values, vec![128, 200]);
    assert_eq!(d.lengths, vec![2, 2]);
    assert_eq!(d.consumed, 4);
    assert!(is_well_formed(&st, ScenarioKind::U8));
}

#[test]
fn wide_two_byte_values() {
    // 300 = 0xac 0x02, 16383 = 0xff 0x7f
    let st = stream(2, &[0xac, 0x02, 0xff, 0x7f]);
    let d = decode_all(&st, ScenarioKind::U16).unwrap();
    assert_eq!(d.values, vec![300, 16383]);
    assert_eq!(d.lengths, vec![2, 2]);
    assert!(is_well_formed(&st, ScenarioKind::U16));
}

#[test]
fn wide_three_byte_value() {
    // 65535 = 0xff 0xff 0x03
    let st = stream(1, &[0xff, 0xff, 0x03]);
    let d = decode_all(&st, ScenarioKind::U16).unwrap();
    assert_eq!(d.values, vec![65535]);
    assert_eq!(d.lengths, vec![3]);
}

#[test]
fn header_claims_more_values_than_payload_holds() {
    let st = stream(5, &[0, 1, 2, 3]);
    assert_eq!(bench_decode_u8_safe(&st, 3), Err(DecodeError::NotEnoughBytes));
    assert!(matches!(decode_all(&st, ScenarioKind::U8), Err(DecodeError::NotEnoughBytes)));
    assert!(!is_well_formed(&st, ScenarioKind::U8));
}

#[test]
fn truncated_last_value_fails_checked_run() {
    let st = stream(2, &[0x05, 0x80]);
    assert_eq!(bench_decode_u8_safe(&st, 1), Err(DecodeError::NotEnoughBytes));
}

#[test]
fn leftover_bytes_are_not_well_formed() {
    let st = stream(2, &[1, 2, 3]);
    assert!(decode_all(&st, ScenarioKind::U8).is_ok());
    assert!(!is_well_formed(&st, ScenarioKind::U8));
}

#[test]
fn zero_declared_values() {
    let st = stream(0, &[]);
    let d = decode_all(&st, ScenarioKind::U8).unwrap();
    assert!(d.values.is_empty());
    assert!(is_well_formed(&st, ScenarioKind::U8));
    let acc = bench_decode_u16_safe(&st, 4).unwrap();
    assert_eq!(acc.total_bytes_consumed, 0);
}

#[test]
fn loaded_buffer_is_padded_with_zeros() {
    let st = stream(3, &[0x81, 0x01, 7, 9]);
    assert_eq!(st.logical_length(), 4);
    assert_eq!(st.data().len(), 4 + PADDING);
    assert_eq!(PADDING, 16);
    assert_eq!(&st.data()[..4], &[0x81, 0x01, 7, 9]);
    assert!(st.data()[4..].iter().all(|b| *b == 0));
}

#[test]
fn empty_payload_is_padded() {
    let st = stream(0, &[]);
    assert_eq!(st.logical_length(), 0);
    assert_eq!(st.data(), &[0u8; 16][..]);
}

#[test]
fn short_header_is_refused() {
    assert!(matches!(load_stream(&[1, 0, 0, 0, 0, 0, 0]), Err(FixtureError::TruncatedHeader)));
    assert!(matches!(load_stream(&[]), Err(FixtureError::TruncatedHeader)));
}

#[test]
fn header_is_little_endian() {
    assert_eq!(read_le_u64(&[1, 2, 0, 0, 0, 0, 0, 0, 99]), 513);
    assert_eq!(read_le_u64(&[0xff; 8]), u64::MAX);
    let st = load_stream(&[0, 0, 0, 0, 0, 0, 0, 1]).unwrap();
    assert_eq!(st.declared_value_count(), 1u64 << 56);
}

#[test]
fn u8_decode_errors() {
    assert_eq!(decode_u8(&[]), Err(DecodeError::NotEnoughBytes));
    assert_eq!(decode_u8(&[0x80]), Err(DecodeError::NotEnoughBytes));
    assert_eq!(decode_u8(&[0x80, 0x80, 0x01]), Err(DecodeError::Overflow));
    assert_eq!(decode_u8(&[0x80, 0x80]), Err(DecodeError::Overflow));
    assert_eq!(decode_u8(&[0x80, 0x02]), Err(DecodeError::Overflow));
    assert_eq!(decode_u8(&[0xff, 0x01, 0x55]), Ok((255, 2)));
    assert_eq!(decode_u8(&[0x7f, 0xff]), Ok((127, 1)));
}

#[test]
fn u16_decode_errors() {
    assert_eq!(decode_u16(&[]), Err(DecodeError::NotEnoughBytes));
    assert_eq!(decode_u16(&[0x80, 0x80]), Err(DecodeError::NotEnoughBytes));
    assert_eq!(decode_u16(&[0x80, 0x80, 0x80, 0x01]), Err(DecodeError::Overflow));
    assert_eq!(decode_u16(&[0x80, 0x80, 0x04]), Err(DecodeError::Overflow));
    assert_eq!(decode_u16(&[0x80, 0x01]), Ok((128, 2)));
}

#[test]
fn decode_with_long_input() {
    let mut bytes = vec![0xac, 0x02];
    bytes.extend_from_slice(&[0xff; 20]);
    assert_eq!(decode_value(ScenarioKind::U16, &bytes), Ok((300, 2)));
    assert_eq!(decode_value(ScenarioKind::U8, &bytes), Err(DecodeError::Overflow));
}

#[test]
fn checked_strategy_counts_bytes_per_pass() {
    let st = stream(4, &[0, 1, 2, 3]);
    let acc = bench_decode_u8_safe(&st, 5).unwrap();
    assert_eq!(acc.total_bytes_consumed, 20);
    let acc = bench_decode_checked(&st, ScenarioKind::U16, 0).unwrap();
    assert_eq!(acc.total_bytes_consumed, 0);
    assert_eq!(acc.total_elapsed_ns, 0);
}

#[test]
fn zero_iterations_do_not_decode() {
    let st = stream(5, &[0]);
    assert!(bench_decode_u8_safe(&st, 0).is_ok());
}

#[test]
fn report_totals() {
    let acc = RunAccumulator { total_elapsed_ns: 1000, total_bytes_consumed: 40 };
    let r = report(&acc, 4, 10);
    assert_eq!(r.total_values, 40);
    assert_eq!(r.total_elapsed_ns, 1000);
    assert_eq!(r.total_bytes_consumed, 40);
    assert!(r.total_values > 0 && r.total_elapsed_ns > 0 && r.total_bytes_consumed > 0);
}

#[test]
fn doubling_iterations_doubles_values() {
    let st = stream(2, &[0x80, 0x01, 0xc8, 0x01]);
    let a = bench_decode_u8_safe(&st, 3).unwrap();
    let b = bench_decode_u8_safe(&st, 6).unwrap();
    let ra = report(&a, 2, 3);
    let rb = report(&b, 2, 6);
    assert_eq!(rb.total_values, 2 * ra.total_values);
    assert_eq!(
        rb.total_bytes_consumed * ra.total_values,
        ra.total_bytes_consumed * rb.total_values
    );
    assert_eq!(ra.total_bytes_consumed as f64 / ra.total_values as f64, 2.0);
    assert_eq!(rb.total_bytes_consumed as f64 / rb.total_values as f64, 2.0);
}

#[test]
fn accumulator_saturates() {
    let mut acc = RunAccumulator::new();
    acc.record_iteration(u64::MAX - 1, 3);
    acc.record_iteration(5, 4);
    assert_eq!(acc.total_elapsed_ns, u64::MAX);
    assert_eq!(acc.total_bytes_consumed, 7);
}

#[test]
fn cursor_sink_wraps() {
    let mut c = DecodeCursor::start(u64::MAX);
    c.advance(2, 3);
    assert_eq!(c.sink, 1);
    assert_eq!(c.offset, 3);
}

#[test]
fn iteration_setting() {
    assert_eq!(read_env_size(None, 20), 20);
    assert_eq!(read_env_size(Some("35"), 20), 35);
    assert_eq!(read_env_size(Some("+7"), 20), 7);
    assert_eq!(read_env_size(Some("0"), 20), 20);
    assert_eq!(read_env_size(Some("-3"), 20), 20);
    assert_eq!(read_env_size(Some("abc"), 20), 20);
    assert_eq!(read_env_size(Some(""), 20), 20);
    assert_eq!(read_env_size(Some(" 5"), 20), 20);
    assert_eq!(read_env_size(Some("18446744073709551616"), 20), 20);
    assert_eq!(read_env_size(Some("18446744073709551615"), 20), usize::MAX);
}
