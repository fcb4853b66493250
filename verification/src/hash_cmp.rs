//! The hash-stream model: the vocabulary of values a hashing routine
//! can feed into a hasher, a recording hasher that captures that
//! stream as discrete events, and two sinks that consume it — one
//! accumulating the full stream, one comparing a live stream against
//! a previously accumulated one.

use vstd::assert_by_contradiction;
use vstd::prelude::*;

verus! {

/// One unit of the data stream a hashing routine emits: either the
/// start of an opaque byte sequence, one byte belonging to the byte
/// sequence currently open, or a fixed-width integer written through
/// the width-specific hasher method.
#[derive(Clone, Copy, PartialEq, Eq, Structural, Debug)]
pub enum HasherDatum {
    /// Marks the beginning of a byte sequence written as a slice.
    StartSlice,
    /// One byte of the byte sequence opened by the last `StartSlice`.
    Byte(u8),
    /// A pointer-sized unsigned integer.
    Usize(usize),
    /// An 8-bit unsigned integer.
    U8(u8),
    /// A 16-bit unsigned integer.
    U16(u16),
    /// A 32-bit unsigned integer.
    U32(u32),
    /// A 64-bit unsigned integer.
    U64(u64),
    /// A 128-bit unsigned integer.
    U128(u128),
    /// A pointer-sized signed integer.
    Isize(isize),
    /// An 8-bit signed integer.
    I8(i8),
    /// A 16-bit signed integer.
    I16(i16),
    /// A 32-bit signed integer.
    I32(i32),
    /// A 64-bit signed integer.
    I64(i64),
    /// A 128-bit signed integer.
    I128(i128),
}

/// The events that one byte sequence contributes to a recorded
/// stream, not counting the `StartSlice` that opens it: one `Byte`
/// event per byte, in order.
pub open spec fn byte_events(bytes: Seq<u8>) -> Seq<HasherDatum> {
    bytes.map_values(|b: u8| HasherDatum::Byte(b))
}

/// The events that writing one byte sequence as a slice contributes
/// to a recorded stream: a single `StartSlice` followed by one `Byte`
/// event per byte, in order.
pub open spec fn slice_events(bytes: Seq<u8>) -> Seq<HasherDatum> {
    seq![HasherDatum::StartSlice] + byte_events(bytes)
}

/// Writing a byte sequence of length `n` contributes exactly one
/// `StartSlice` followed by exactly `n` `Byte` events, in order,
/// with nothing else — in particular no scalar event — in between.
pub proof fn lemma_slice_framing(bytes: Seq<u8>)
    ensures
        slice_events(bytes).len() == bytes.len() + 1,
        slice_events(bytes)[0] == HasherDatum::StartSlice,
        forall|i: int|
            1 <= i < slice_events(bytes).len() ==> #[trigger] slice_events(bytes)[i]
                == HasherDatum::Byte(bytes[i - 1]),
{
}

/// A stream is well formed when every `Byte` event immediately
/// follows either a `StartSlice` or another `Byte`, so that each byte
/// belongs to an open byte sequence. A `Byte` with no open sequence
/// means the sink was driven by hand rather than through a recording
/// hasher; replaying such a stream is not supported.
pub open spec fn wf_stream(s: Seq<HasherDatum>) -> bool {
    forall|i: int|
        0 <= i < s.len() && (#[trigger] s[i]) is Byte ==> i > 0 && (s[i - 1] is Byte || s[i - 1]
            is StartSlice)
}

/// A sink that receives the events of a hashing process one at a
/// time, as `HasherDatum` values handed over by a [`DatumHasher`].
///
/// A real hasher could also be asked for a 64-bit summary, but these
/// sinks keep the full stream precisely because it cannot be
/// collapsed into 64 bits without losing what they exist to preserve;
/// a hashing routine that asks its hasher for a summary mid-stream is
/// not supported, and the unverified hasher adapter aborts on that
/// path.
pub trait ConsumeHasherDatum: Sized {
    /// The internal consistency of the sink; established by its
    /// constructors and preserved by `consume`.
    spec fn inv(&self) -> bool;

    /// The events this sink has consumed so far, oldest first.
    spec fn events(&self) -> Seq<HasherDatum>;

    /// Consume one event from the hasher.
    fn consume(&mut self, datum: HasherDatum)
        ensures
            final(self).events() == old(self).events().push(datum),
            old(self).inv() ==> final(self).inv(),
    ;
}

/// Consumes events and accumulates them, in order, into a full
/// recorded stream for later comparison by [`EqTestCmp`].
pub struct EqTestAcc {
    data: Vec<HasherDatum>,
}

impl ConsumeHasherDatum for EqTestAcc {
    open spec fn inv(&self) -> bool {
        true
    }

    closed spec fn events(&self) -> Seq<HasherDatum> {
        self.data@
    }

    fn consume(&mut self, datum: HasherDatum) {
        self.data.push(datum);
    }
}

impl EqTestAcc {
    /// An accumulator that has recorded nothing yet.
    pub fn new() -> (r: Self)
        ensures
            r.events() == Seq::<HasherDatum>::empty(),
    {
        EqTestAcc { data: Vec::new() }
    }

    /// Hands the accumulated stream over to the caller; the
    /// accumulator is consumed and the stream is final.
    pub fn into_events(self) -> (r: Vec<HasherDatum>)
        ensures
            r@ == self.events(),
    {
        self.data
    }
}

impl Default for EqTestAcc {
    fn default() -> (r: Self)
        ensures
            r.events() == Seq::<HasherDatum>::empty(),
    {
        EqTestAcc::new()
    }
}

/// The interface of a hasher as a hashing routine drives it: one
/// method per supported scalar width plus one for an opaque byte
/// sequence. Its model is the event stream the calls made so far
/// correspond to, so a real hasher, wrapped outside the verified
/// library, and the recording [`DatumHasher`] can both stand behind
/// it.
pub trait HashWrite: Sized {
    /// The internal consistency of the hasher; preserved by every
    /// write.
    spec fn inv(&self) -> bool;

    /// The stream of events corresponding to the writes made so far,
    /// oldest first.
    spec fn hashed(&self) -> Seq<HasherDatum>;

    /// Write an opaque byte sequence: one `StartSlice` and then each
    /// byte in order.
    fn write(&mut self, data: &[u8])
        ensures
            final(self).hashed() == old(self).hashed() + slice_events(data@),
            old(self).inv() ==> final(self).inv(),
    ;

    /// Write one pointer-sized unsigned integer.
    fn write_usize(&mut self, v: usize)
        ensures
            final(self).hashed() == old(self).hashed().push(HasherDatum::Usize(v)),
            old(self).inv() ==> final(self).inv(),
    ;

    /// Write one 8-bit unsigned integer.
    fn write_u8(&mut self, v: u8)
        ensures
            final(self).hashed() == old(self).hashed().push(HasherDatum::U8(v)),
            old(self).inv() ==> final(self).inv(),
    ;

    /// Write one 16-bit unsigned integer.
    fn write_u16(&mut self, v: u16)
        ensures
            final(self).hashed() == old(self).hashed().push(HasherDatum::U16(v)),
            old(self).inv() ==> final(self).inv(),
    ;

    /// Write one 32-bit unsigned integer.
    fn write_u32(&mut self, v: u32)
        ensures
            final(self).hashed() == old(self).hashed().push(HasherDatum::U32(v)),
            old(self).inv() ==> final(self).inv(),
    ;

    /// Write one 64-bit unsigned integer.
    fn write_u64(&mut self, v: u64)
        ensures
            final(self).hashed() == old(self).hashed().push(HasherDatum::U64(v)),
            old(self).inv() ==> final(self).inv(),
    ;

    /// Write one 128-bit unsigned integer.
    fn write_u128(&mut self, v: u128)
        ensures
            final(self).hashed() == old(self).hashed().push(HasherDatum::U128(v)),
            old(self).inv() ==> final(self).inv(),
    ;

    /// Write one pointer-sized signed integer.
    fn write_isize(&mut self, v: isize)
        ensures
            final(self).hashed() == old(self).hashed().push(HasherDatum::Isize(v)),
            old(self).inv() ==> final(self).inv(),
    ;

    /// Write one 8-bit signed integer.
    fn write_i8(&mut self, v: i8)
        ensures
            final(self).hashed() == old(self).hashed().push(HasherDatum::I8(v)),
            old(self).inv() ==> final(self).inv(),
    ;

    /// Write one 16-bit signed integer.
    fn write_i16(&mut self, v: i16)
        ensures
            final(self).hashed() == old(self).hashed().push(HasherDatum::I16(v)),
            old(self).inv() ==> final(self).inv(),
    ;

    /// Write one 32-bit signed integer.
    fn write_i32(&mut self, v: i32)
        ensures
            final(self).hashed() == old(self).hashed().push(HasherDatum::I32(v)),
            old(self).inv() ==> final(self).inv(),
    ;

    /// Write one 64-bit signed integer.
    fn write_i64(&mut self, v: i64)
        ensures
            final(self).hashed() == old(self).hashed().push(HasherDatum::I64(v)),
            old(self).inv() ==> final(self).inv(),
    ;

    /// Write one 128-bit signed integer.
    fn write_i128(&mut self, v: i128)
        ensures
            final(self).hashed() == old(self).hashed().push(HasherDatum::I128(v)),
            old(self).inv() ==> final(self).inv(),
    ;
}

/// A hasher that performs no hashing at all: it wraps each value it
/// receives in the matching [`HasherDatum`] variant and hands it to
/// the sink it was built around. Driving a value's hashing routine
/// against it records that routine's stream instead of digesting it.
///
/// Asking it for a 64-bit summary is not supported: the whole point
/// of the recording is that the stream has not been collapsed. The
/// unverified adapter that presents this type as a standard hasher
/// aborts if the routine under test asks for a summary.
pub struct DatumHasher<C> {
    consumer: C,
}

impl<C: ConsumeHasherDatum> DatumHasher<C> {
    /// Wraps a sink so that hasher writes reach it as events.
    pub fn new(consumer: C) -> (r: Self)
        ensures
            r.hashed() == consumer.events(),
            consumer.inv() ==> r.inv(),
    {
        DatumHasher { consumer }
    }

    /// Takes the sink back out, with everything it consumed.
    pub fn into_inner(self) -> (r: C)
        ensures
            r.events() == self.hashed(),
            self.inv() ==> r.inv(),
    {
        self.consumer
    }
}

impl<C: ConsumeHasherDatum> HashWrite for DatumHasher<C> {
    closed spec fn inv(&self) -> bool {
        self.consumer.inv()
    }

    closed spec fn hashed(&self) -> Seq<HasherDatum> {
        self.consumer.events()
    }

    fn write(&mut self, data: &[u8]) {
        let ghost evs0 = self.consumer.events();
        let ghost inv0 = self.consumer.inv();
        self.consumer.consume(HasherDatum::StartSlice);
        let mut i: usize = 0;
        while i < data.len()
            invariant
                i <= data@.len(),
                self.consumer.events() == evs0.push(HasherDatum::StartSlice) + byte_events(
                    data@.take(i as int),
                ),
                inv0 ==> self.consumer.inv(),
            decreases data@.len() - i,
        {
            proof {
                assert(self.consumer.events().push(HasherDatum::Byte(data@[i as int])) =~= evs0.push(
                    HasherDatum::StartSlice,
                ) + byte_events(data@.take(i + 1)));
            }
            self.consumer.consume(HasherDatum::Byte(data[i]));
            i = i + 1;
        }
        proof {
            assert(data@.take(data@.len() as int) =~= data@);
            assert(evs0.push(HasherDatum::StartSlice) + byte_events(data@) =~= evs0 + slice_events(
                data@,
            ));
        }
    }

    fn write_usize(&mut self, v: usize) {
        self.consumer.consume(HasherDatum::Usize(v));
    }

    fn write_u8(&mut self, v: u8) {
        self.consumer.consume(HasherDatum::U8(v));
    }

    fn write_u16(&mut self, v: u16) {
        self.consumer.consume(HasherDatum::U16(v));
    }

    fn write_u32(&mut self, v: u32) {
        self.consumer.consume(HasherDatum::U32(v));
    }

    fn write_u64(&mut self, v: u64) {
        self.consumer.consume(HasherDatum::U64(v));
    }

    fn write_u128(&mut self, v: u128) {
        self.consumer.consume(HasherDatum::U128(v));
    }

    fn write_isize(&mut self, v: isize) {
        self.consumer.consume(HasherDatum::Isize(v));
    }

    fn write_i8(&mut self, v: i8) {
        self.consumer.consume(HasherDatum::I8(v));
    }

    fn write_i16(&mut self, v: i16) {
        self.consumer.consume(HasherDatum::I16(v));
    }

    fn write_i32(&mut self, v: i32) {
        self.consumer.consume(HasherDatum::I32(v));
    }

    fn write_i64(&mut self, v: i64) {
        self.consumer.consume(HasherDatum::I64(v));
    }

    fn write_i128(&mut self, v: i128) {
        self.consumer.consume(HasherDatum::I128(v));
    }
}

/// A real hasher — std's default one — behind the writer interface,
/// so that a recorded stream can be replayed into it and the
/// resulting 64-bit hash taken. Its model is the stream of events
/// its writes correspond to, exactly as a recording hasher's is.
pub struct StdHasher {
    h: std::collections::hash_map::DefaultHasher,
    events: Ghost<Seq<HasherDatum>>,
}

impl StdHasher {
    /// A fresh default hasher that has received nothing.
    pub fn new() -> (r: Self)
        ensures
            r.inv(),
            r.hashed() == Seq::<HasherDatum>::empty(),
    {
        StdHasher {
            h: std::collections::hash_map::DefaultHasher::new(),
            events: Ghost(Seq::empty()),
        }
    }

    /// The 64-bit hash of everything written so far.
    ///
    /// Relies on std's `DefaultHasher::finish`; std leaves the value
    /// unspecified, so nothing is stated of it.
    #[verifier::external_body]
    pub fn finish(&self) -> u64 {
        std::hash::Hasher::finish(&self.h)
    }
}

impl StdHasher {
    /// Relies on std's `Hasher::write_usize` on a `DefaultHasher`: one
    /// write of one `usize` value; the ghost event view is exec-erased
    /// and so untouched by it.
    #[verifier::external_body]
    fn raw_write_usize(&mut self, v: usize)
        ensures
            final(self).events == old(self).events,
    {
        std::hash::Hasher::write_usize(&mut self.h, v)
    }

    /// Relies on std's `Hasher::write_u8` on a `DefaultHasher`: one
    /// write of one `u8` value; the ghost event view is exec-erased
    /// and so untouched by it.
    #[verifier::external_body]
    fn raw_write_u8(&mut self, v: u8)
        ensures
            final(self).events == old(self).events,
    {
        std::hash::Hasher::write_u8(&mut self.h, v)
    }

    /// Relies on std's `Hasher::write_u16` on a `DefaultHasher`: one
    /// write of one `u16` value; the ghost event view is exec-erased
    /// and so untouched by it.
    #[verifier::external_body]
    fn raw_write_u16(&mut self, v: u16)
        ensures
            final(self).events == old(self).events,
    {
        std::hash::Hasher::write_u16(&mut self.h, v)
    }

    /// Relies on std's `Hasher::write_u32` on a `DefaultHasher`: one
    /// write of one `u32` value; the ghost event view is exec-erased
    /// and so untouched by it.
    #[verifier::external_body]
    fn raw_write_u32(&mut self, v: u32)
        ensures
            final(self).events == old(self).events,
    {
        std::hash::Hasher::write_u32(&mut self.h, v)
    }

    /// Relies on std's `Hasher::write_u64` on a `DefaultHasher`: one
    /// write of one `u64` value; the ghost event view is exec-erased
    /// and so untouched by it.
    #[verifier::external_body]
    fn raw_write_u64(&mut self, v: u64)
        ensures
            final(self).events == old(self).events,
    {
        std::hash::Hasher::write_u64(&mut self.h, v)
    }

    /// Relies on std's `Hasher::write_u128` on a `DefaultHasher`: one
    /// write of one `u128` value; the ghost event view is exec-erased
    /// and so untouched by it.
    #[verifier::external_body]
    fn raw_write_u128(&mut self, v: u128)
        ensures
            final(self).events == old(self).events,
    {
        std::hash::Hasher::write_u128(&mut self.h, v)
    }

    /// Relies on std's `Hasher::write_isize` on a `DefaultHasher`: one
    /// write of one `isize` value; the ghost event view is exec-erased
    /// and so untouched by it.
    #[verifier::external_body]
    fn raw_write_isize(&mut self, v: isize)
        ensures
            final(self).events == old(self).events,
    {
        std::hash::Hasher::write_isize(&mut self.h, v)
    }

    /// Relies on std's `Hasher::write_i8` on a `DefaultHasher`: one
    /// write of one `i8` value; the ghost event view is exec-erased
    /// and so untouched by it.
    #[verifier::external_body]
    fn raw_write_i8(&mut self, v: i8)
        ensures
            final(self).events == old(self).events,
    {
        std::hash::Hasher::write_i8(&mut self.h, v)
    }

    /// Relies on std's `Hasher::write_i16` on a `DefaultHasher`: one
    /// write of one `i16` value; the ghost event view is exec-erased
    /// and so untouched by it.
    #[verifier::external_body]
    fn raw_write_i16(&mut self, v: i16)
        ensures
            final(self).events == old(self).events,
    {
        std::hash::Hasher::write_i16(&mut self.h, v)
    }

    /// Relies on std's `Hasher::write_i32` on a `DefaultHasher`: one
    /// write of one `i32` value; the ghost event view is exec-erased
    /// and so untouched by it.
    #[verifier::external_body]
    fn raw_write_i32(&mut self, v: i32)
        ensures
            final(self).events == old(self).events,
    {
        std::hash::Hasher::write_i32(&mut self.h, v)
    }

    /// Relies on std's `Hasher::write_i64` on a `DefaultHasher`: one
    /// write of one `i64` value; the ghost event view is exec-erased
    /// and so untouched by it.
    #[verifier::external_body]
    fn raw_write_i64(&mut self, v: i64)
        ensures
            final(self).events == old(self).events,
    {
        std::hash::Hasher::write_i64(&mut self.h, v)
    }

    /// Relies on std's `Hasher::write_i128` on a `DefaultHasher`: one
    /// write of one `i128` value; the ghost event view is exec-erased
    /// and so untouched by it.
    #[verifier::external_body]
    fn raw_write_i128(&mut self, v: i128)
        ensures
            final(self).events == old(self).events,
    {
        std::hash::Hasher::write_i128(&mut self.h, v)
    }
}

impl HashWrite for StdHasher {
    open spec fn inv(&self) -> bool {
        true
    }

    closed spec fn hashed(&self) -> Seq<HasherDatum> {
        self.events@
    }

    fn write(&mut self, data: &[u8]) {
        std::hash::Hasher::write(&mut self.h, data);
        proof {
            self.events@ = self.events@ + slice_events(data@);
        }
    }

    fn write_usize(&mut self, v: usize) {
        self.raw_write_usize(v);
        proof {
            self.events@ = self.events@.push(HasherDatum::Usize(v));
        }
    }

    fn write_u8(&mut self, v: u8) {
        self.raw_write_u8(v);
        proof {
            self.events@ = self.events@.push(HasherDatum::U8(v));
        }
    }

    fn write_u16(&mut self, v: u16) {
        self.raw_write_u16(v);
        proof {
            self.events@ = self.events@.push(HasherDatum::U16(v));
        }
    }

    fn write_u32(&mut self, v: u32) {
        self.raw_write_u32(v);
        proof {
            self.events@ = self.events@.push(HasherDatum::U32(v));
        }
    }

    fn write_u64(&mut self, v: u64) {
        self.raw_write_u64(v);
        proof {
            self.events@ = self.events@.push(HasherDatum::U64(v));
        }
    }

    fn write_u128(&mut self, v: u128) {
        self.raw_write_u128(v);
        proof {
            self.events@ = self.events@.push(HasherDatum::U128(v));
        }
    }

    fn write_isize(&mut self, v: isize) {
        self.raw_write_isize(v);
        proof {
            self.events@ = self.events@.push(HasherDatum::Isize(v));
        }
    }

    fn write_i8(&mut self, v: i8) {
        self.raw_write_i8(v);
        proof {
            self.events@ = self.events@.push(HasherDatum::I8(v));
        }
    }

    fn write_i16(&mut self, v: i16) {
        self.raw_write_i16(v);
        proof {
            self.events@ = self.events@.push(HasherDatum::I16(v));
        }
    }

    fn write_i32(&mut self, v: i32) {
        self.raw_write_i32(v);
        proof {
            self.events@ = self.events@.push(HasherDatum::I32(v));
        }
    }

    fn write_i64(&mut self, v: i64) {
        self.raw_write_i64(v);
        proof {
            self.events@ = self.events@.push(HasherDatum::I64(v));
        }
    }

    fn write_i128(&mut self, v: i128) {
        self.raw_write_i128(v);
        proof {
            self.events@ = self.events@.push(HasherDatum::I128(v));
        }
    }
}

proof fn lemma_take_push(pre: Seq<HasherDatum>, s: Seq<HasherDatum>, i: int)
    requires
        0 <= i < s.len(),
    ensures
        (pre + s.take(i)).push(s[i]) == pre + s.take(i + 1),
{
    assert((pre + s.take(i)).push(s[i]) =~= pre + s.take(i + 1));
}

impl HasherDatum {
    /// Replays a recorded stream into a hasher, reconstructing the
    /// calls that produced it: each `StartSlice` and the run of
    /// `Byte` events after it are replayed as one byte-sequence
    /// write, and each scalar event with the width-appropriate write.
    /// The hasher ends up having received exactly the recorded
    /// stream, after whatever it had received before.
    ///
    /// Only a well-formed stream can be replayed: a `Byte` event with
    /// no open byte sequence does not correspond to any hasher call,
    /// and marks a stream that was built by hand rather than
    /// recorded. [`HasherDatum::is_wf_stream`] checks for that, and
    /// the unverified adapter aborts on such a stream.
    pub fn hash_data<H: HashWrite>(data: &Vec<HasherDatum>, state: &mut H)
        requires
            wf_stream(data@),
        ensures
            final(state).hashed() == old(state).hashed() + data@,
            old(state).inv() ==> final(state).inv(),
    {
        let ghost orig = state.hashed();
        let ghost inv0 = state.inv();
        let mut i: usize = 0;
        while i < data.len()
            invariant
                wf_stream(data@),
                i <= data@.len(),
                i == data@.len() || !(data@[i as int] is Byte),
                state.hashed() == orig + data@.take(i as int),
                inv0 ==> state.inv(),
            decreases data@.len() - i,
        {
            let d = data[i];
            match d {
                HasherDatum::StartSlice => {
                    let mut slice_data: Vec<u8> = Vec::new();
                    let mut j: usize = i + 1;
                    while j < data.len() && matches!(data[j], HasherDatum::Byte(_))
                        invariant
                            wf_stream(data@),
                            i < j <= data@.len(),
                            byte_events(slice_data@) == data@.subrange(i + 1, j as int),
                        decreases data@.len() - j,
                    {
                        let ghost sd0 = slice_data@;
                        if let HasherDatum::Byte(b) = data[j] {
                            slice_data.push(b);
                            proof {
                                let lhs = byte_events(slice_data@);
                                let rhs = data@.subrange(i + 1, j + 1);
                                assert(byte_events(sd0).len() == sd0.len());
                                assert(lhs.len() == slice_data@.len());
                                assert(lhs.len() == rhs.len());
                                assert forall|k: int| 0 <= k < lhs.len() implies lhs[k] == rhs[k] by {
                                    if k < lhs.len() - 1 {
                                        assert(lhs[k] == byte_events(sd0)[k]);
                                        assert(rhs[k] == data@.subrange(i + 1, j as int)[k]);
                                    } else {
                                        assert(lhs[k] == HasherDatum::Byte(b));
                                        assert(rhs[k] == data@[j as int]);
                                    }
                                }
                                assert(byte_events(slice_data@) =~= data@.subrange(i + 1, j + 1));
                            }
                        }
                        j = j + 1;
                    }
                    state.write(slice_data.as_slice());
                    proof {
                        assert(data@.subrange(i as int, j as int) =~= slice_events(slice_data@));
                        assert((orig + data@.take(i as int)) + slice_events(slice_data@) =~= orig
                            + data@.take(j as int));
                    }
                    i = j;
                },
                HasherDatum::Byte(_) => {
                    proof {
                        assert(false);
                    }
                    i = i + 1;
                },
                HasherDatum::Usize(v) => {
                    state.write_usize(v);
                    proof {
                        lemma_take_push(orig, data@, i as int);
                    }
                    i = i + 1;
                },
                HasherDatum::U8(v) => {
                    state.write_u8(v);
                    proof {
                        lemma_take_push(orig, data@, i as int);
                    }
                    i = i + 1;
                },
                HasherDatum::U16(v) => {
                    state.write_u16(v);
                    proof {
                        lemma_take_push(orig, data@, i as int);
                    }
                    i = i + 1;
                },
                HasherDatum::U32(v) => {
                    state.write_u32(v);
                    proof {
                        lemma_take_push(orig, data@, i as int);
                    }
                    i = i + 1;
                },
                HasherDatum::U64(v) => {
                    state.write_u64(v);
                    proof {
                        lemma_take_push(orig, data@, i as int);
                    }
                    i = i + 1;
                },
                HasherDatum::U128(v) => {
                    state.write_u128(v);
                    proof {
                        lemma_take_push(orig, data@, i as int);
                    }
                    i = i + 1;
                },
                HasherDatum::Isize(v) => {
                    state.write_isize(v);
                    proof {
                        lemma_take_push(orig, data@, i as int);
                    }
                    i = i + 1;
                },
                HasherDatum::I8(v) => {
                    state.write_i8(v);
                    proof {
                        lemma_take_push(orig, data@, i as int);
                    }
                    i = i + 1;
                },
                HasherDatum::I16(v) => {
                    state.write_i16(v);
                    proof {
                        lemma_take_push(orig, data@, i as int);
                    }
                    i = i + 1;
                },
                HasherDatum::I32(v) => {
                    state.write_i32(v);
                    proof {
                        lemma_take_push(orig, data@, i as int);
                    }
                    i = i + 1;
                },
                HasherDatum::I64(v) => {
                    state.write_i64(v);
                    proof {
                        lemma_take_push(orig, data@, i as int);
                    }
                    i = i + 1;
                },
                HasherDatum::I128(v) => {
                    state.write_i128(v);
                    proof {
                        lemma_take_push(orig, data@, i as int);
                    }
                    i = i + 1;
                },
            }
            proof {
                if i < data@.len() && data@[i as int] is Byte {
                    assert(data@[i as int - 1] is Byte || data@[i as int - 1] is StartSlice);
                }
            }
        }
        proof {
            assert(data@.take(data@.len() as int) =~= data@);
        }
    }

    /// Checks that a stream is well formed, that is, that every
    /// `Byte` event immediately follows a `StartSlice` or another
    /// `Byte`, so that [`HasherDatum::hash_data`] can replay it.
    pub fn is_wf_stream(data: &Vec<HasherDatum>) -> (r: bool)
        ensures
            r == wf_stream(data@),
    {
        let mut i: usize = 0;
        while i < data.len()
            invariant
                i <= data@.len(),
                forall|k: int|
                    0 <= k < i && (#[trigger] data@[k]) is Byte ==> k > 0 && (data@[k - 1] is Byte
                        || data@[k - 1] is StartSlice),
            decreases data@.len() - i,
        {
            if matches!(data[i], HasherDatum::Byte(_)) {
                if i == 0 {
                    return false;
                }
                if !matches!(data[i - 1], HasherDatum::Byte(_) | HasherDatum::StartSlice) {
                    return false;
                }
            }
            i = i + 1;
        }
        true
    }
}

/// Whether `p` is a prefix of `s`.
pub open spec fn is_stream_prefix(p: Seq<HasherDatum>, s: Seq<HasherDatum>) -> bool {
    p.len() <= s.len() && p == s.take(p.len() as int)
}

/// Compares a live event stream against one previously accumulated
/// by [`EqTestAcc`], event by event, without storing the live stream.
///
/// The cursor keeps a sticky "still equal" flag: once a live event
/// disagrees with the recorded one at the same position, or the
/// recorded stream runs out, the flag goes false and never comes back
/// true. The cursor is consumed by [`EqTestCmp::result`] and cannot
/// be restarted.
pub struct EqTestCmp {
    recorded: Vec<HasherDatum>,
    pos: usize,
    is_eq: bool,
    live: Ghost<Seq<HasherDatum>>,
}

impl EqTestCmp {
    /// The recorded stream this cursor compares against.
    pub closed spec fn recorded(&self) -> Seq<HasherDatum> {
        self.recorded@
    }

    /// The comparing cursor in its starting state for the stream
    /// accumulated by `acc`: nothing consumed yet, flag still true.
    pub closed spec fn cursor_of(acc: EqTestAcc) -> EqTestCmp {
        EqTestCmp { recorded: acc.data, pos: 0, is_eq: true, live: Ghost(Seq::empty()) }
    }

    /// The starting cursor is consistent, compares against exactly
    /// the accumulated stream, and has consumed nothing.
    pub proof fn lemma_cursor_of(acc: EqTestAcc)
        ensures
            EqTestCmp::cursor_of(acc).inv(),
            EqTestCmp::cursor_of(acc).recorded() == acc.events(),
            EqTestCmp::cursor_of(acc).events() == Seq::<HasherDatum>::empty(),
    {
        assert(acc.data@.take(0) =~= Seq::<HasherDatum>::empty());
    }

    /// Consume one event of the live stream: advance past the next
    /// recorded event when it equals `datum`, and otherwise set the
    /// sticky mismatch flag; the recorded stream itself never
    /// changes.
    pub fn consume(&mut self, datum: HasherDatum)
        ensures
            final(self).events() == old(self).events().push(datum),
            final(self).recorded() == old(self).recorded(),
            old(self).inv() ==> final(self).inv(),
    {
        let ghost live0 = self.live@;
        let ghost rec = self.recorded@;
        let ghost pos0 = self.pos as int;
        let ghost was_eq = self.is_eq;
        if self.is_eq {
            if self.pos < self.recorded.len() && self.recorded[self.pos] == datum {
                self.pos = self.pos + 1;
            } else {
                self.is_eq = false;
            }
        }
        self.live = Ghost(live0.push(datum));
        proof {
            if old(self).inv() {
                if was_eq {
                    if pos0 < rec.len() && rec[pos0] == datum {
                        assert(self.live@ =~= rec.take(pos0 + 1));
                    } else if pos0 == rec.len() {
                        assert(self.live@.len() > rec.len());
                    } else {
                        assert(self.live@[pos0] != rec[pos0]);
                        assert(self.live@ != rec.take(self.live@.len() as int));
                    }
                } else {
                    assert_by_contradiction!(!is_stream_prefix(self.live@, rec), {
                        assert(live0 =~= rec.take(live0.len() as int));
                    });
                }
            }
        }
    }

    /// Consumes the cursor and reports the comparison: true exactly
    /// when every live event matched the recorded one at its position
    /// and the recorded stream was fully consumed, that is, when the
    /// live stream equals the recorded one. A live stream that is a
    /// strict prefix of the recorded one, or a strict extension of
    /// it, yields false.
    pub fn result(self) -> (r: bool)
        requires
            self.inv(),
        ensures
            r == (self.events() == self.recorded()),
    {
        proof {
            if self.is_eq && self.pos == self.recorded@.len() {
                assert(self.live@ =~= self.recorded@);
            }
            if self.live@ == self.recorded@ {
                assert(self.recorded@.take(self.recorded@.len() as int) =~= self.recorded@);
                assert(is_stream_prefix(self.live@, self.recorded@));
            }
        }
        self.is_eq && self.pos == self.recorded.len()
    }
}

/// Comparing a stream against an accumulation of itself always
/// matches: this accumulates the given events, turns the
/// accumulation into a comparing cursor, replays exactly the same
/// events against it, and necessarily reports equality — the result
/// is proved to be true for every stream.
pub fn self_comparison_matches(events: &Vec<HasherDatum>) -> (r: bool)
    ensures
        r,
{
    let mut acc = EqTestAcc::new();
    proof {
        assert(events@.take(0) =~= Seq::<HasherDatum>::empty());
    }
    let mut i: usize = 0;
    while i < events.len()
        invariant
            i <= events@.len(),
            acc.inv(),
            acc.events() == events@.take(i as int),
        decreases events@.len() - i,
    {
        proof {
            assert(events@.take(i as int).push(events@[i as int]) =~= events@.take(i + 1));
        }
        acc.consume(events[i]);
        i = i + 1;
    }
    proof {
        assert(events@.take(events@.len() as int) =~= events@);
    }
    let ghost acc0 = acc;
    let mut cmp = EqTestCmp::from(acc);
    proof {
        EqTestCmp::lemma_cursor_of(acc0);
        assert(events@.take(0) =~= Seq::<HasherDatum>::empty());
    }
    let mut j: usize = 0;
    while j < events.len()
        invariant
            j <= events@.len(),
            cmp.inv(),
            cmp.recorded() == events@,
            cmp.events() == events@.take(j as int),
        decreases events@.len() - j,
    {
        proof {
            assert(events@.take(j as int).push(events@[j as int]) =~= events@.take(j + 1));
        }
        cmp.consume(events[j]);
        j = j + 1;
    }
    proof {
        assert(events@.take(events@.len() as int) =~= events@);
    }
    cmp.result()
}

impl From<EqTestAcc> for EqTestCmp {
    /// Turns a finished accumulation into a comparing cursor over the
    /// accumulated stream.
    fn from(acc: EqTestAcc) -> (r: EqTestCmp) {
        EqTestCmp { recorded: acc.data, pos: 0, is_eq: true, live: Ghost(Seq::empty()) }
    }
}

impl vstd::std_specs::convert::FromSpecImpl<EqTestAcc> for EqTestCmp {
    open spec fn obeys_from_spec() -> bool {
        true
    }

    open spec fn from_spec(acc: EqTestAcc) -> EqTestCmp {
        EqTestCmp::cursor_of(acc)
    }
}

/// A live stream that is a strict prefix of the recorded one is not
/// equal to it, so the comparator reports a mismatch for it — and
/// symmetrically for a live stream that strictly extends the recorded
/// one.
pub proof fn lemma_strict_prefix_differs(live: Seq<HasherDatum>, recorded: Seq<HasherDatum>)
    requires
        is_stream_prefix(live, recorded) || is_stream_prefix(recorded, live),
        live.len() != recorded.len(),
    ensures
        live != recorded,
{
}

impl ConsumeHasherDatum for EqTestCmp {
    closed spec fn inv(&self) -> bool {
        &&& self.pos <= self.recorded@.len()
        &&& if self.is_eq {
            self.pos == self.live@.len() && self.live@ == self.recorded@.take(self.pos as int)
        } else {
            !is_stream_prefix(self.live@, self.recorded@)
        }
    }

    closed spec fn events(&self) -> Seq<HasherDatum> {
        self.live@
    }

    fn consume(&mut self, datum: HasherDatum) {
        EqTestCmp::consume(self, datum);
    }
}

} // verus!
