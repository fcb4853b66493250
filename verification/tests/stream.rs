//! Recording, comparing and replaying hash-event streams.

use hasheq::ConsumeHasherDatum;
use hasheq::DatumHasher;
use hasheq::EqTestAcc;
use hasheq::EqTestCmp;
use hasheq::HashWrite;
use hasheq::HasherDatum;
use hasheq::StdHasher;
use std::collections::hash_map::DefaultHasher;
use std::hash::Hash;
use std::hash::Hasher;

/// Presents a recording `DatumHasher` as a standard hasher so that a
/// type's ordinary `Hash` implementation can drive it.
struct Recorder<C: ConsumeHasherDatum> {
    inner: DatumHasher<C>,
}

impl<C: ConsumeHasherDatum> Hasher for Recorder<C> {
    fn finish(&self) -> u64 {
        panic!("Cannot finish() a ConsumeHasherDatum")
    }

    fn write(&mut self, bytes: &[u8]) {
        self.inner.write(bytes);
    }

    fn write_usize(&mut self, v: usize) {
        self.inner.write_usize(v);
    }

    fn write_u8(&mut self, v: u8) {
        self.inner.write_u8(v);
    }

    fn write_u16(&mut self, v: u16) {
        self.inner.write_u16(v);
    }

    fn write_u32(&mut self, v: u32) {
        self.inner.write_u32(v);
    }

    fn write_u64(&mut self, v: u64) {
        self.inner.write_u64(v);
    }

    fn write_u128(&mut self, v: u128) {
        self.inner.write_u128(v);
    }

    fn write_isize(&mut self, v: isize) {
        self.inner.write_isize(v);
    }

    fn write_i8(&mut self, v: i8) {
        self.inner.write_i8(v);
    }

    fn write_i16(&mut self, v: i16) {
        self.inner.write_i16(v);
    }

    fn write_i32(&mut self, v: i32) {
        self.inner.write_i32(v);
    }

    fn write_i64(&mut self, v: i64) {
        self.inner.write_i64(v);
    }

    fn write_i128(&mut self, v: i128) {
        self.inner.write_i128(v);
    }
}

/// Records the full event stream of one run of `value`'s hashing
/// routine.
fn record<T: Hash>(value: &T) -> Vec<HasherDatum> {
    let mut r = Recorder { inner: DatumHasher::new(EqTestAcc::new()) };
    value.hash(&mut r);
    r.inner.into_inner().into_events()
}

/// Replays a recorded stream into a fresh default hasher and returns
/// the resulting hash.
fn replayed_hash(stream: &Vec<HasherDatum>) -> u64 {
    assert!(HasherDatum::is_wf_stream(stream));
    let mut h = StdHasher::new();
    HasherDatum::hash_data(stream, &mut h);
    h.finish()
}

/// Hashes a value directly with a fresh default hasher.
fn direct_hash<T: Hash>(value: &T) -> u64 {
    let mut h = DefaultHasher::new();
    value.hash(&mut h);
    h.finish()
}

/// Drives a second value's hashing routine against the stream
/// recorded for a first one and reports whether they matched.
fn streams_match<A: Hash, B: Hash>(a: &A, b: &B) -> bool {
    let mut first = Recorder { inner: DatumHasher::new(EqTestAcc::new()) };
    a.hash(&mut first);
    let acc = first.inner.into_inner();
    let mut second = Recorder { inner: DatumHasher::new(EqTestCmp::from(acc)) };
    b.hash(&mut second);
    second.inner.into_inner().result()
}

#[test]
fn records_u32_as_single_scalar_event() {
    let stream = record(&12345u32);
    assert_eq!(stream, vec![HasherDatum::U32(12345)]);
}

#[test]
fn records_slice_as_frame_of_bytes() {
    let mut r = DatumHasher::new(EqTestAcc::new());
    r.write(&[1u8, 2, 3]);
    let stream = r.into_inner().into_events();
    assert_eq!(
        stream,
        vec![
            HasherDatum::StartSlice,
            HasherDatum::Byte(1),
            HasherDatum::Byte(2),
            HasherDatum::Byte(3),
        ]
    );
}

#[test]
fn records_every_scalar_width() {
    let mut r = DatumHasher::new(EqTestAcc::new());
    r.write_usize(1);
    r.write_u8(2);
    r.write_u16(3);
    r.write_u32(4);
    r.write_u64(5);
    r.write_u128(6);
    r.write_isize(-1);
    r.write_i8(-2);
    r.write_i16(-3);
    r.write_i32(-4);
    r.write_i64(-5);
    r.write_i128(-6);
    let stream = r.into_inner().into_events();
    assert_eq!(
        stream,
        vec![
            HasherDatum::Usize(1),
            HasherDatum::U8(2),
            HasherDatum::U16(3),
            HasherDatum::U32(4),
            HasherDatum::U64(5),
            HasherDatum::U128(6),
            HasherDatum::Isize(-1),
            HasherDatum::I8(-2),
            HasherDatum::I16(-3),
            HasherDatum::I32(-4),
            HasherDatum::I64(-5),
            HasherDatum::I128(-6),
        ]
    );
}

#[test]
fn recording_is_deterministic() {
    let value = (42u64, String::from("abc"), -7i16);
    assert_eq!(record(&value), record(&value));
}

#[test]
fn comparing_stream_with_itself_matches() {
    let value = (1u8, 300u16, String::from("xyz"));
    assert!(streams_match(&value, &value));
}

#[test]
fn comparing_scalar_stream_with_itself_matches() {
    assert!(streams_match(&12345u32, &12345u32));
}

#[test]
fn comparing_different_values_mismatches() {
    assert!(!streams_match(&1u32, &2u32));
}

#[test]
fn comparing_different_widths_mismatches() {
    assert!(!streams_match(&1u32, &1u64));
}

#[test]
fn comparing_scalar_stream_with_slice_stream_mismatches() {
    let mut first = DatumHasher::new(EqTestAcc::new());
    first.write_u32(12345);
    let acc = first.into_inner();
    let mut second = DatumHasher::new(EqTestCmp::from(acc));
    second.write(&[1u8, 2, 3]);
    assert!(!second.into_inner().result());
}

#[test]
fn live_prefix_of_recorded_stream_mismatches() {
    assert!(!streams_match(&(1u32, 2u32), &1u32));
}

#[test]
fn live_extension_of_recorded_stream_mismatches() {
    assert!(!streams_match(&1u32, &(1u32, 2u32)));
}

#[test]
fn replay_matches_direct_hash_for_every_width() {
    assert_eq!(replayed_hash(&record(&7usize)), direct_hash(&7usize));
    assert_eq!(replayed_hash(&record(&7u8)), direct_hash(&7u8));
    assert_eq!(replayed_hash(&record(&7u16)), direct_hash(&7u16));
    assert_eq!(replayed_hash(&record(&7u32)), direct_hash(&7u32));
    assert_eq!(replayed_hash(&record(&7u64)), direct_hash(&7u64));
    assert_eq!(replayed_hash(&record(&7u128)), direct_hash(&7u128));
    assert_eq!(replayed_hash(&record(&-7isize)), direct_hash(&-7isize));
    assert_eq!(replayed_hash(&record(&-7i8)), direct_hash(&-7i8));
    assert_eq!(replayed_hash(&record(&-7i16)), direct_hash(&-7i16));
    assert_eq!(replayed_hash(&record(&-7i32)), direct_hash(&-7i32));
    assert_eq!(replayed_hash(&record(&-7i64)), direct_hash(&-7i64));
    assert_eq!(replayed_hash(&record(&-7i128)), direct_hash(&-7i128));
}

#[test]
fn replay_matches_direct_hash_for_byte_sequences() {
    let cases: Vec<Vec<u8>> = vec![vec![], vec![9], vec![1, 2, 3, 4, 5]];
    let mut case: usize = 0;
    while case < cases.len() {
        let bytes = &cases[case];
        let mut r = DatumHasher::new(EqTestAcc::new());
        r.write(bytes.as_slice());
        let stream = r.into_inner().into_events();

        let mut direct = DefaultHasher::new();
        direct.write(bytes.as_slice());

        assert_eq!(replayed_hash(&stream), direct.finish());
        case += 1;
    }
}

#[test]
fn replay_matches_direct_hash_for_mixed_stream() {
    let value = (String::from("key"), 5u32, vec![1u8, 2, 3]);
    assert_eq!(replayed_hash(&record(&value)), direct_hash(&value));
}

#[test]
fn byte_without_open_slice_is_rejected() {
    assert!(!HasherDatum::is_wf_stream(&vec![HasherDatum::Byte(1)]));
    assert!(!HasherDatum::is_wf_stream(&vec![
        HasherDatum::U32(1),
        HasherDatum::Byte(1),
    ]));
    assert!(HasherDatum::is_wf_stream(&vec![
        HasherDatum::StartSlice,
        HasherDatum::Byte(1),
        HasherDatum::Byte(2),
        HasherDatum::U32(1),
    ]));
    assert!(HasherDatum::is_wf_stream(&vec![HasherDatum::StartSlice]));
    assert!(HasherDatum::is_wf_stream(&vec![]));
}

#[test]
fn self_comparison_reports_match_for_any_stream() {
    assert!(hasheq::hash_cmp::self_comparison_matches(&vec![]));
    assert!(hasheq::hash_cmp::self_comparison_matches(&vec![
        HasherDatum::U32(12345)
    ]));
    assert!(hasheq::hash_cmp::self_comparison_matches(&record(&(
        1u8,
        String::from("abc"),
        -9i64,
    ))));
}

#[test]
fn default_accumulator_is_empty() {
    let acc = EqTestAcc::default();
    assert!(acc.into_events().is_empty());
}
