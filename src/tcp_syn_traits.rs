//! The fixed-record exchange: 16-byte trait records, query buffers and their
//! responses, and buffers that arm traits for a connection's SYN.
use vstd::prelude::*;

use crate::native::{ne_u32, ne_u64, read_u32, read_u64, write_u32, write_u64};
use crate::pkt_traits::{Error, TraitKey, TraitValue};

verus! {

/// Level-`SOL_TCP` option that turns the saving of SYN traits on or off.
pub const TCP_SAVE_SYN_TRAITS: i32 = 44;

/// Level-`SOL_TCP` option that reads or arms SYN traits.
pub const TCP_SYN_TRAITS: i32 = 45;

/// Size in bytes of one record.
pub const RECORD_SIZE: usize = 16;

/// The error code (`EIO` on Linux) by which a query reports that no trait was
/// saved: it stands for an empty response.
pub const EIO: i32 = 5;

/// One trait record: a key, the width of its value (0 for none, else 2, 4
/// or 8), an error flag and the value, zero-extended to 64 bits.
#[derive(Clone, Copy, Debug, PartialEq, Eq, Structural)]
pub struct PktTrait {
    pub _zpad_1: u8,
    pub key: u8,
    pub len: u8,
    pub io_err: u8,
    pub _zpad_2: u32,
    pub val: u64,
}

/// The record with the given key, width and value, every other field zero.
pub open spec fn record(key: u8, len: u8, val: u64) -> PktTrait {
    PktTrait { _zpad_1: 0, key, len, io_err: 0, _zpad_2: 0, val }
}

/// The record that holds `key` with the value `v`.
pub open spec fn record_of_value(key: u8, v: TraitValue) -> PktTrait {
    match v {
        TraitValue::U16(x) => record(key, 2, x as u64),
        TraitValue::U32(x) => record(key, 4, x as u64),
        TraitValue::U64(x) => record(key, 8, x),
    }
}

/// The record that 16 bytes stand for.
pub open spec fn decode_record(b: Seq<u8>) -> PktTrait {
    PktTrait {
        _zpad_1: b[0],
        key: b[1],
        len: b[2],
        io_err: b[3],
        _zpad_2: ne_u32(b.subrange(4, 8)),
        val: ne_u64(b.subrange(8, 16)),
    }
}

/// The `i`-th record of a buffer.
pub open spec fn record_at(buf: Seq<u8>, i: int) -> PktTrait {
    decode_record(buf.subrange(RECORD_SIZE * i, RECORD_SIZE * i + RECORD_SIZE))
}

/// The first `n` records of a buffer.
pub open spec fn records(buf: Seq<u8>, n: nat) -> Seq<PktTrait> {
    Seq::new(n, |i: int| record_at(buf, i))
}

/// Whether `buf` holds exactly the records `rs`, in order.
pub open spec fn encodes(buf: Seq<u8>, rs: Seq<PktTrait>) -> bool {
    &&& buf.len() == RECORD_SIZE * rs.len()
    &&& records(buf, rs.len()) == rs
}

/// What a query of `count` keys gives back when the transport wrote `raw`:
/// nothing for no byte, one record per key for `count` records' worth of
/// bytes, and a size mismatch otherwise.
pub open spec fn query_response(raw: Seq<u8>, count: nat) -> Result<Seq<PktTrait>, Error> {
    if raw.len() == 0 {
        Ok(Seq::empty())
    } else if raw.len() == RECORD_SIZE * count {
        Ok(records(raw, count))
    } else {
        Err(Error::MessageSizeMismatch)
    }
}

/// The typed value that a record holds, `None` for a width other than 2,
/// 4 or 8.
pub open spec fn record_value(t: PktTrait) -> Option<TraitValue> {
    if t.len == 2 {
        Some(TraitValue::U16(t.val as u16))
    } else if t.len == 4 {
        Some(TraitValue::U32(t.val as u32))
    } else if t.len == 8 {
        Some(TraitValue::U64(t.val))
    } else {
        None
    }
}

/// The records that a batch of key and value pairs is lowered to.
pub open spec fn lowered(batch: Seq<(TraitKey, TraitValue)>) -> Seq<PktTrait> {
    batch.map_values(|p: (TraitKey, TraitValue)| record_of_value(p.0, p.1))
}

/// The records of a query buffer: each key, with every other field zero.
pub open spec fn query_records(keys: Seq<TraitKey>) -> Seq<PktTrait> {
    keys.map_values(|k: TraitKey| record(k, 0, 0))
}

/// What a query of `count` keys gives back when the transport reported
/// `outcome` (the bytes it wrote into `buf`, or its error code).
pub open spec fn transport_response(buf: Seq<u8>, outcome: Result<usize, i32>, count: nat) -> Result<
    Seq<PktTrait>,
    Error,
> {
    match outcome {
        Err(e) => if e == EIO {
            Ok(Seq::empty())
        } else {
            Err(Error::Transport(e))
        },
        Ok(n) => if n <= buf.len() {
            query_response(buf.subrange(0, n as int), count)
        } else {
            Err(Error::MessageSizeMismatch)
        },
    }
}

/// Whether an executable result is the one that `s` describes.
pub open spec fn agrees(r: Result<Vec<PktTrait>, Error>, s: Result<Seq<PktTrait>, Error>) -> bool {
    match s {
        Ok(v) => r is Ok && r->Ok_0@ == v,
        Err(e) => r == Err::<Vec<PktTrait>, Error>(e),
    }
}

impl Default for PktTrait {
    fn default() -> (r: PktTrait)
        ensures
            r == record(0, 0, 0),
    {
        PktTrait { _zpad_1: 0, key: 0, len: 0, io_err: 0, _zpad_2: 0, val: 0 }
    }
}

impl From<TraitKey> for PktTrait {
    /// A record for `key` with no value.
    fn from(key: TraitKey) -> PktTrait {
        PktTrait { _zpad_1: 0, key, len: 0, io_err: 0, _zpad_2: 0, val: 0 }
    }
}

impl vstd::std_specs::convert::FromSpecImpl<TraitKey> for PktTrait {
    open spec fn obeys_from_spec() -> bool {
        true
    }

    open spec fn from_spec(key: TraitKey) -> PktTrait {
        record(key, 0, 0)
    }
}

impl From<(TraitKey, u16)> for PktTrait {
    /// A record for a 2-byte value.
    fn from(pair: (TraitKey, u16)) -> PktTrait {
        PktTrait { _zpad_1: 0, key: pair.0, len: 2, io_err: 0, _zpad_2: 0, val: pair.1 as u64 }
    }
}

impl vstd::std_specs::convert::FromSpecImpl<(TraitKey, u16)> for PktTrait {
    open spec fn obeys_from_spec() -> bool {
        true
    }

    open spec fn from_spec(pair: (TraitKey, u16)) -> PktTrait {
        record(pair.0, 2, pair.1 as u64)
    }
}

impl From<(TraitKey, u32)> for PktTrait {
    /// A record for a 4-byte value.
    fn from(pair: (TraitKey, u32)) -> PktTrait {
        PktTrait { _zpad_1: 0, key: pair.0, len: 4, io_err: 0, _zpad_2: 0, val: pair.1 as u64 }
    }
}

impl vstd::std_specs::convert::FromSpecImpl<(TraitKey, u32)> for PktTrait {
    open spec fn obeys_from_spec() -> bool {
        true
    }

    open spec fn from_spec(pair: (TraitKey, u32)) -> PktTrait {
        record(pair.0, 4, pair.1 as u64)
    }
}

impl From<(TraitKey, u64)> for PktTrait {
    /// A record for an 8-byte value.
    fn from(pair: (TraitKey, u64)) -> PktTrait {
        PktTrait { _zpad_1: 0, key: pair.0, len: 8, io_err: 0, _zpad_2: 0, val: pair.1 }
    }
}

impl vstd::std_specs::convert::FromSpecImpl<(TraitKey, u64)> for PktTrait {
    open spec fn obeys_from_spec() -> bool {
        true
    }

    open spec fn from_spec(pair: (TraitKey, u64)) -> PktTrait {
        record(pair.0, 8, pair.1)
    }
}

impl PktTrait {
    /// The record that holds `key` with the value `v`, its width taken from
    /// the value's.
    pub fn with_value(key: TraitKey, v: TraitValue) -> (r: PktTrait)
        ensures
            r == record_of_value(key, v),
    {
        match v {
            TraitValue::U16(x) => PktTrait::from((key, x)),
            TraitValue::U32(x) => PktTrait::from((key, x)),
            TraitValue::U64(x) => PktTrait::from((key, x)),
        }
    }

    /// The typed value that the record holds, `None` for a width other than
    /// 2, 4 or 8.
    pub fn value(&self) -> (r: Option<TraitValue>)
        ensures
            r == record_value(*self),
    {
        if self.len == 2 {
            Some(TraitValue::U16(self.val as u16))
        } else if self.len == 4 {
            Some(TraitValue::U32(self.val as u32))
        } else if self.len == 8 {
            Some(TraitValue::U64(self.val))
        } else {
            None
        }
    }

    /// Appends the record's 16 bytes to `out`.
    pub fn write_to(&self, out: &mut Vec<u8>)
        ensures
            final(out)@.len() == old(out)@.len() + RECORD_SIZE,
            final(out)@.subrange(0, old(out)@.len() as int) == old(out)@,
            decode_record(
                final(out)@.subrange(old(out)@.len() as int, (old(out)@.len() + RECORD_SIZE) as int),
            ) == *self,
    {
        let ghost o = old(out)@.len() as int;
        out.push(self._zpad_1);
        out.push(self.key);
        out.push(self.len);
        out.push(self.io_err);
        let ghost s1 = out@;
        write_u32(out, self._zpad_2);
        let ghost s2 = out@;
        write_u64(out, self.val);
        proof {
            let s3 = out@;
            let b = s3.subrange(o, o + 16);
            assert(s3.subrange(0, o + 8) == s2);
            assert(s2.subrange(0, o + 4) == s1);
            assert(b[0] == s1[o]);
            assert(b[1] == s1[o + 1]);
            assert(b[2] == s1[o + 2]);
            assert(b[3] == s1[o + 3]);
            assert(b.subrange(4, 8) =~= s2.subrange(o + 4, o + 8));
            assert(b.subrange(8, 16) =~= s3.subrange(o + 8, o + 16));
            assert(s3.subrange(0, o) =~= s1.subrange(0, o));
        }
    }

    /// Reads the `i`-th record of `buf`.
    pub fn read_from(buf: &[u8], i: usize) -> (r: PktTrait)
        requires
            RECORD_SIZE * i + RECORD_SIZE <= buf@.len(),
        ensures
            r == record_at(buf@, i as int),
    {
        let n = buf.len();
        assert(RECORD_SIZE * i + RECORD_SIZE <= n);
        let at = RECORD_SIZE * i;
        let r = PktTrait {
            _zpad_1: buf[at],
            key: buf[at + 1],
            len: buf[at + 2],
            io_err: buf[at + 3],
            _zpad_2: read_u32(buf, at + 4),
            val: read_u64(buf, at + 8),
        };
        proof {
            let b = buf@.subrange(at as int, at + 16);
            assert(b.subrange(4, 8) =~= buf@.subrange(at + 4, at + 8));
            assert(b.subrange(8, 16) =~= buf@.subrange(at + 8, at + 16));
        }
        r
    }
}

/// Relies on `format!`: the text of a record size error.
#[verifier::external_body]
fn record_size_message(got: usize) -> (r: String) {
    format!("Expected a multiple of {} bytes, got {}", RECORD_SIZE, got)
}

/// The records `rs`, one after the other.
pub fn encode_records(rs: &[PktTrait]) -> (r: Vec<u8>)
    requires
        RECORD_SIZE * rs@.len() <= usize::MAX,
    ensures
        encodes(r@, rs@),
{
    let mut out: Vec<u8> = Vec::new();
    let mut i: usize = 0;
    while i < rs.len()
        invariant
            i <= rs@.len(),
            RECORD_SIZE * rs@.len() <= usize::MAX,
            out@.len() == RECORD_SIZE * i,
            forall|j: int| 0 <= j < i ==> #[trigger] record_at(out@, j) == rs@[j],
        decreases rs@.len() - i,
    {
        let ghost prev = out@;
        rs[i].write_to(&mut out);
        proof {
            assert forall|j: int| 0 <= j < i + 1 implies #[trigger] record_at(out@, j) == rs@[j] by {
                if j < i {
                    assert forall|m: int| 0 <= m < 16 implies #[trigger] out@[16 * j + m] == prev[16 * j + m] by {
                        assert(out@.subrange(0, 16 * i as int)[16 * j + m] == out@[16 * j + m]);
                    }
                    assert(out@.subrange(16 * j, 16 * j + 16) =~= prev.subrange(16 * j, 16 * j + 16));
                    assert(record_at(prev, j) == rs@[j]);
                } else {
                    assert(16 * j == prev.len());
                }
            }
        }
        i += 1;
    }
    assert(records(out@, rs@.len()) =~= rs@);
    out
}

/// The first `n` records of `buf`.
pub fn decode_records(buf: &[u8], n: usize) -> (r: Vec<PktTrait>)
    requires
        RECORD_SIZE * n <= buf@.len(),
    ensures
        r@ == records(buf@, n as nat),
{
    let mut out: Vec<PktTrait> = Vec::new();
    let mut i: usize = 0;
    while i < n
        invariant
            i <= n,
            RECORD_SIZE * n <= buf@.len(),
            out@ == records(buf@, i as nat),
        decreases n - i,
    {
        let t = PktTrait::read_from(buf, i);
        out.push(t);
        i += 1;
        assert(out@ =~= records(buf@, i as nat));
    }
    out
}

/// The records of a query of `count` keys, where the transport wrote the
/// first `written` bytes of `raw`.
fn decode_written(raw: &[u8], written: usize, count: usize) -> (r: Result<Vec<PktTrait>, Error>)
    requires
        written <= raw@.len(),
    ensures
        agrees(r, query_response(raw@.subrange(0, written as int), count as nat)),
{
    if written == 0 {
        return Ok(Vec::new());
    }
    if written % RECORD_SIZE != 0 || written / RECORD_SIZE != count {
        return Err(Error::MessageSizeMismatch);
    }
    let v = decode_records(raw, count);
    proof {
        let p = raw@.subrange(0, written as int);
        assert forall|i: int| 0 <= i < count implies #[trigger] record_at(p, i) == record_at(raw@, i) by {
            assert(p.subrange(16 * i, 16 * i + 16) =~= raw@.subrange(16 * i, 16 * i + 16));
        }
        assert(records(p, count as nat) =~= records(raw@, count as nat));
    }
    Ok(v)
}

/// The response to a query of `requested_count` keys, where `raw` is what
/// the transport wrote: no record for no byte, one record per key in the
/// order of the query for `requested_count` records' worth of bytes.
pub fn decode_query_response(raw: &[u8], requested_count: usize) -> (r: Result<Vec<PktTrait>, Error>)
    ensures
        agrees(r, query_response(raw@, requested_count as nat)),
        raw@.len() == 0 ==> (r matches Ok(v) && v@.len() == 0),
        raw@.len() == RECORD_SIZE * requested_count ==> (r matches Ok(v) && v@.len()
            == requested_count),
        raw@.len() != 0 && raw@.len() != RECORD_SIZE * requested_count ==> r matches Err(
            Error::MessageSizeMismatch,
        ),
{
    let r = decode_written(raw, raw.len(), requested_count);
    assert(raw@.subrange(0, raw@.len() as int) =~= raw@);
    r
}

/// Checks the length of a buffer of records to arm: a positive multiple of
/// the record size. Returns how many records it holds.
pub fn validate_set_buffer(buf: &[u8]) -> (r: Result<usize, Error>)
    ensures
        buf@.len() == 0 ==> r matches Err(Error::EmptyBatch),
        buf@.len() % RECORD_SIZE as nat != 0 ==> r matches Err(Error::InvalidSize(_)),
        buf@.len() != 0 && buf@.len() % RECORD_SIZE as nat == 0 ==> r == Ok::<usize, Error>(
            (buf@.len() / RECORD_SIZE as nat) as usize,
        ),
{
    let n = buf.len();
    if n == 0 {
        return Err(Error::EmptyBatch);
    }
    if n % RECORD_SIZE != 0 {
        return Err(Error::InvalidSize(record_size_message(n)));
    }
    Ok(n / RECORD_SIZE)
}

/// The buffer that arms the records `rs`, in order, duplicates and records
/// without a value included.
fn encode_set(rs: &[PktTrait]) -> (r: Result<Vec<u8>, Error>)
    requires
        RECORD_SIZE * rs@.len() <= usize::MAX,
    ensures
        r is Ok <==> rs@.len() > 0,
        r matches Ok(b) ==> encodes(b@, rs@),
        r is Err ==> r matches Err(Error::EmptyBatch),
{
    if rs.len() == 0 {
        return Err(Error::EmptyBatch);
    }
    Ok(encode_records(rs))
}

/// The buffer that arms the pairs of `batch`, in order, one record each.
pub fn build_set(batch: &[(TraitKey, TraitValue)]) -> (r: Result<Vec<u8>, Error>)
    requires
        RECORD_SIZE * batch@.len() <= usize::MAX,
    ensures
        r is Ok <==> batch@.len() > 0,
        r matches Ok(b) ==> encodes(b@, lowered(batch@)),
        r is Err ==> r matches Err(Error::EmptyBatch),
{
    let mut rs: Vec<PktTrait> = Vec::new();
    let mut i: usize = 0;
    while i < batch.len()
        invariant
            i <= batch@.len(),
            rs@ == lowered(batch@.subrange(0, i as int)),
        decreases batch@.len() - i,
    {
        let (k, v) = batch[i];
        rs.push(PktTrait::with_value(k, v));
        i += 1;
        assert(rs@ =~= lowered(batch@.subrange(0, i as int)));
    }
    assert(batch@.subrange(0, batch@.len() as int) =~= batch@);
    encode_set(rs.as_slice())
}

/// The keys of a query: the buffer handed to the transport holds one record
/// per key, in order, and receives the answers in place.
#[derive(Clone, Copy)]
pub struct TcpSynTraits<'a>(pub &'a [TraitKey]);

impl<'a> TcpSynTraits<'a> {
    /// The query buffer: one record per key, every other field zero.
    pub fn build_query(&self) -> (r: Vec<u8>)
        requires
            RECORD_SIZE * self.0@.len() <= usize::MAX,
        ensures
            encodes(r@, query_records(self.0@)),
    {
        let keys = self.0;
        let mut rs: Vec<PktTrait> = Vec::new();
        let mut i: usize = 0;
        while i < keys.len()
            invariant
                i <= keys@.len(),
                rs@ == query_records(keys@.subrange(0, i as int)),
            decreases keys@.len() - i,
        {
            rs.push(PktTrait::from(keys[i]));
            i += 1;
            assert(rs@ =~= query_records(keys@.subrange(0, i as int)));
        }
        assert(keys@.subrange(0, keys@.len() as int) =~= keys@);
        encode_records(rs.as_slice())
    }

    /// The records of the response, where `buf` is the query buffer after
    /// the transport call and `outcome` what the call reported: the number
    /// of bytes written, or an error code. `EIO` stands for no record.
    pub fn decode_response(&self, buf: &[u8], outcome: Result<usize, i32>) -> (r: Result<
        Vec<PktTrait>,
        Error,
    >)
        ensures
            agrees(r, transport_response(buf@, outcome, self.0@.len())),
    {
        match outcome {
            Err(e) => {
                if e == EIO {
                    Ok(Vec::new())
                } else {
                    Err(Error::Transport(e))
                }
            },
            Ok(n) => {
                if n <= buf.len() {
                    decode_written(buf, n, self.0.len())
                } else {
                    Err(Error::MessageSizeMismatch)
                }
            },
        }
    }
}

/// Arms traits for the SYN of a socket that is yet to connect; `T` is the
/// type of the records' container.
pub struct TcpSynTraitsSet<T>(core::marker::PhantomData<T>);

impl<T> Default for TcpSynTraitsSet<T> {
    fn default() -> (r: TcpSynTraitsSet<T>) {
        TcpSynTraitsSet(core::marker::PhantomData)
    }
}

impl<T> TcpSynTraitsSet<T> {
    /// The buffer handed to the transport for `val`: the records in order,
    /// refused when there is none.
    pub fn payload(&self, val: &[PktTrait]) -> (r: Result<Vec<u8>, Error>)
        requires
            RECORD_SIZE * val@.len() <= usize::MAX,
        ensures
            r is Ok <==> val@.len() > 0,
            r matches Ok(b) ==> encodes(b@, val@),
            r is Err ==> r matches Err(Error::EmptyBatch),
    {
        encode_set(val)
    }
}

/// Option that turns the saving of a SYN's traits on or off.
#[derive(Clone, Copy, Debug, Eq, Hash, PartialEq)]
pub struct TcpSaveSynTraits;

/// The buffer that arms a non-empty batch, read back as the response to a
/// query of as many keys, gives one record per pair, in the batch's order:
/// each holds the pair's key and, as its typed value, the pair's value.
pub proof fn lemma_set_round_trip(batch: Seq<(TraitKey, TraitValue)>, buf: Seq<u8>)
    requires
        batch.len() > 0,
        encodes(buf, lowered(batch)),
    ensures
        query_response(buf, batch.len()) == Ok::<Seq<PktTrait>, Error>(lowered(batch)),
        forall|i: int|
            0 <= i < batch.len() ==> #[trigger] record_at(buf, i).key == batch[i].0 && record_value(
                record_at(buf, i),
            ) == Some(batch[i].1),
{
    assert forall|i: int| 0 <= i < batch.len() implies #[trigger] record_at(buf, i).key
        == batch[i].0 && record_value(record_at(buf, i)) == Some(batch[i].1) by {
        assert(records(buf, batch.len())[i] == record_at(buf, i));
    }
}

/// The outcomes of a query of `count` keys: no byte written, or the error
/// that stands for no saved trait, gives no record whatever `count` is; as
/// many records' worth of bytes as keys gives the buffer's records, in the
/// order of the keys; one byte more or one byte less is a size mismatch.
pub proof fn lemma_query_response_sizes(buf: Seq<u8>, count: nat)
    requires
        RECORD_SIZE * count + 1 <= usize::MAX,
    ensures
        transport_response(buf, Ok(0usize), count) == Ok::<Seq<PktTrait>, Error>(Seq::empty()),
        transport_response(buf, Err(EIO), count) == Ok::<Seq<PktTrait>, Error>(Seq::empty()),
        RECORD_SIZE * count <= buf.len() ==> transport_response(
            buf,
            Ok((RECORD_SIZE * count) as usize),
            count,
        ) == Ok::<Seq<PktTrait>, Error>(records(buf, count)),
        transport_response(buf, Ok((RECORD_SIZE * count + 1) as usize), count) == Err::<
            Seq<PktTrait>,
            Error,
        >(Error::MessageSizeMismatch),
        count >= 1 ==> transport_response(buf, Ok((RECORD_SIZE * count - 1) as usize), count)
            == Err::<Seq<PktTrait>, Error>(Error::MessageSizeMismatch),
{
    assert(buf.subrange(0, 0).len() == 0);
    if RECORD_SIZE * count <= buf.len() && count > 0 {
        let p = buf.subrange(0, RECORD_SIZE * count);
        assert forall|i: int| 0 <= i < count implies #[trigger] record_at(p, i) == record_at(buf, i) by {
            assert(p.subrange(16 * i, 16 * i + 16) =~= buf.subrange(16 * i, 16 * i + 16));
        }
        assert(records(p, count) =~= records(buf, count));
    }
    if count == 0 && 0 <= buf.len() {
        assert(records(buf, 0) =~= Seq::<PktTrait>::empty());
    }
}

} // verus!
