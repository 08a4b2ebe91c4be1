//! The sparse trait blob: a 16-byte header of two bitmaps giving each key a
//! width code, then the present keys' values in ascending key order.
use vstd::prelude::*;

use crate::native::{ne_u16, ne_u32, ne_u64, read_u16, read_u32, read_u64};

verus! {

/// A trait's key: an integer in `0..=MAX_KEY`.
pub type TraitKey = u8;

/// Size in bytes of the blob's header.
pub const HEADER_SIZE: usize = 16;

/// The largest key that a blob can hold.
pub const MAX_KEY: TraitKey = 63;

/// Errors of the trait codecs.
#[derive(Clone, Debug, PartialEq)]
pub enum Error {
    /// A buffer's length does not match the size its contents imply.
    InvalidSize(String),
    /// A key outside `0..=MAX_KEY`.
    KeyRange(String),
    /// A query response is neither empty nor one record per requested key.
    MessageSizeMismatch,
    /// A set request with no record.
    EmptyBatch,
    /// An error code that the socket option call reported.
    Transport(i32),
}

/// Relies on `format!`: the text of the error for a blob shorter than its header.
#[verifier::external_body]
fn short_blob_message(expected: usize, got: usize) -> (r: String) {
    format!("Expected at least {} bytes, got only {}", expected, got)
}

/// Relies on `format!`: the text of the error for a blob whose length is not
/// the one its header implies.
#[verifier::external_body]
fn blob_size_message(expected: usize, got: usize) -> (r: String) {
    format!("Expected exactly {} bytes, got {}", expected, got)
}

/// Relies on `format!`: the text of an error code from the transport.
#[verifier::external_body]
fn transport_message(code: i32) -> (r: String) {
    format!("Socket option call failed with error code {}", code)
}

impl Error {
    /// The error's text: the message that a size or key error carries, a
    /// fixed sentence for the others.
    pub fn message(&self) -> (r: String)
        ensures
            self matches Error::InvalidSize(m) ==> r@ == m@,
            self matches Error::KeyRange(m) ==> r@ == m@,
    {
        match self {
            Error::InvalidSize(m) => m.clone(),
            Error::KeyRange(m) => m.clone(),
            Error::MessageSizeMismatch => "Expected no record or one record per requested key".to_owned(),
            Error::EmptyBatch => "Expected at least one trait record".to_owned(),
            Error::Transport(code) => transport_message(*code),
        }
    }
}

/// Relies on `format!`: the text of a key range error.
#[verifier::external_body]
fn key_message(max: TraitKey, got: TraitKey) -> (r: String) {
    format!("Key must be in 0..{} range, got {}", max, got)
}

/// A trait's value, of one of three widths.
#[derive(Clone, Copy, Debug, PartialEq, Eq, Structural)]
pub enum TraitValue {
    U16(u16),
    U32(u32),
    U64(u64),
}

/// Whether bit `k` of `w` is set.
pub open spec fn bit(w: u64, k: nat) -> bool {
    (w >> (k as u64)) & 1u64 == 1u64
}

/// Width in bytes of key `k`'s value under the header words `high` and `low`:
/// 0 for an absent key, else 2, 4 or 8.
pub open spec fn width(high: u64, low: u64, k: nat) -> nat {
    if bit(high, k) {
        if bit(low, k) { 8 } else { 4 }
    } else {
        if bit(low, k) { 2 } else { 0 }
    }
}

/// Sum of the widths of the keys below `n`.
pub open spec fn widths_below(high: u64, low: u64, n: nat) -> nat
    decreases n,
{
    if n == 0 {
        0
    } else {
        widths_below(high, low, (n - 1) as nat) + width(high, low, (n - 1) as nat)
    }
}

/// Size of the value area that a header announces.
pub open spec fn values_size(high: u64, low: u64) -> nat {
    widths_below(high, low, 64)
}

/// The header's first word.
pub open spec fn header_high(blob: Seq<u8>) -> u64 {
    ne_u64(blob.subrange(0, 8))
}

/// The header's second word.
pub open spec fn header_low(blob: Seq<u8>) -> u64 {
    ne_u64(blob.subrange(8, 16))
}

/// A blob holds a header and exactly the values that the header announces.
pub open spec fn is_valid_blob(blob: Seq<u8>) -> bool {
    &&& blob.len() >= HEADER_SIZE
    &&& blob.len() == HEADER_SIZE + values_size(header_high(blob), header_low(blob))
}

/// Where key `k`'s value starts in a blob.
pub open spec fn value_offset(blob: Seq<u8>, k: nat) -> nat {
    (HEADER_SIZE + widths_below(header_high(blob), header_low(blob), k)) as nat
}

/// The value that the bytes `b` stand for at width `w` (2, 4 or 8).
pub open spec fn value_of(w: nat, b: Seq<u8>) -> TraitValue {
    if w == 2 {
        TraitValue::U16(ne_u16(b))
    } else if w == 4 {
        TraitValue::U32(ne_u32(b))
    } else {
        TraitValue::U64(ne_u64(b))
    }
}

/// What a blob holds for key `k`.
pub open spec fn lookup(blob: Seq<u8>, k: nat) -> Option<TraitValue> {
    let w = width(header_high(blob), header_low(blob), k);
    if w == 0 {
        None
    } else {
        let off = value_offset(blob, k);
        Some(value_of(w, blob.subrange(off as int, (off + w) as int)))
    }
}

proof fn lemma_widths_below_bounded(high: u64, low: u64, n: nat, m: nat)
    requires
        n <= m,
    ensures
        widths_below(high, low, n) <= widths_below(high, low, m),
        widths_below(high, low, n) <= 8 * n,
    decreases m,
{
    if n < m {
        lemma_widths_below_bounded(high, low, n, (m - 1) as nat);
    } else if n > 0 {
        lemma_widths_below_bounded(high, low, (n - 1) as nat, (n - 1) as nat);
    }
}

proof fn lemma_prefix_mask_bits(w: u64, k: u64, i: u64)
    requires
        k < 64,
        i < 64,
    ensures
        i < k ==> ((w & !(!0u64 << k)) >> i) & 1u64 == (w >> i) & 1u64,
        i >= k ==> ((w & !(!0u64 << k)) >> i) & 1u64 == 0u64,
{
    assert(i < k ==> ((w & !(!0u64 << k)) >> i) & 1u64 == (w >> i) & 1u64) by (bit_vector)
        requires
            k < 64,
            i < 64,
    ;
    assert(i >= k ==> ((w & !(!0u64 << k)) >> i) & 1u64 == 0u64) by (bit_vector)
        requires
            k < 64,
            i < 64,
    ;
}

proof fn lemma_single_mask_bits(w: u64, k: u64, i: u64)
    requires
        k < 64,
        i < 64,
    ensures
        i == k ==> ((w & (1u64 << k)) >> i) & 1u64 == (w >> i) & 1u64,
        i != k ==> ((w & (1u64 << k)) >> i) & 1u64 == 0u64,
{
    assert(i == k ==> ((w & (1u64 << k)) >> i) & 1u64 == (w >> i) & 1u64) by (bit_vector)
        requires
            k < 64,
            i < 64,
    ;
    assert(i != k ==> ((w & (1u64 << k)) >> i) & 1u64 == 0u64) by (bit_vector)
        requires
            k < 64,
            i < 64,
    ;
}

/// Keeping the bits below `k` keeps the widths of the keys below `k`.
proof fn lemma_prefix_mask(high: u64, low: u64, k: nat, n: nat)
    requires
        k < 64,
        n <= 64,
    ensures
        widths_below(high & !(!0u64 << (k as u64)), low & !(!0u64 << (k as u64)), n)
            == widths_below(high, low, if n < k { n } else { k }),
    decreases n,
{
    if n > 0 {
        let m = !(!0u64 << (k as u64));
        lemma_prefix_mask(high, low, k, (n - 1) as nat);
        lemma_prefix_mask_bits(high, k as u64, (n - 1) as u64);
        lemma_prefix_mask_bits(low, k as u64, (n - 1) as u64);
        assert(width(high & m, low & m, (n - 1) as nat) == if n - 1 < k {
            width(high, low, (n - 1) as nat)
        } else {
            0
        });
    }
}

/// Keeping bit `k` alone keeps key `k`'s width alone.
proof fn lemma_single_mask(high: u64, low: u64, k: nat, n: nat)
    requires
        k < 64,
        n <= 64,
    ensures
        widths_below(high & (1u64 << (k as u64)), low & (1u64 << (k as u64)), n) == if n > k {
            width(high, low, k)
        } else {
            0
        },
    decreases n,
{
    if n > 0 {
        let m = 1u64 << (k as u64);
        lemma_single_mask(high, low, k, (n - 1) as nat);
        lemma_single_mask_bits(high, k as u64, (n - 1) as u64);
        lemma_single_mask_bits(low, k as u64, (n - 1) as u64);
        assert(width(high & m, low & m, (n - 1) as nat) == if n - 1 == k {
            width(high, low, k)
        } else {
            0
        });
    }
}

/// The two header words.
struct PktTraitsHdr {
    high: u64,
    low: u64,
}

impl PktTraitsHdr {
    /// Reads the header at the start of `bytes`.
    fn from_bytes(bytes: &[u8]) -> (r: PktTraitsHdr)
        requires
            bytes@.len() >= HEADER_SIZE,
        ensures
            r.high == header_high(bytes@),
            r.low == header_low(bytes@),
    {
        PktTraitsHdr { high: read_u64(bytes, 0), low: read_u64(bytes, 8) }
    }

    /// Size of the value area.
    fn values_size(&self) -> (r: usize)
        ensures
            r == values_size(self.high, self.low),
            r <= 512,
    {
        let mut sum: usize = 0;
        let mut i: u64 = 0;
        while i < 64
            invariant
                i <= 64,
                sum == widths_below(self.high, self.low, i as nat),
                sum <= 8 * i,
            decreases 64 - i,
        {
            let hb = (self.high >> i) & 1 == 1;
            let lb = (self.low >> i) & 1 == 1;
            let w: usize = if hb {
                if lb { 8 } else { 4 }
            } else {
                if lb { 2 } else { 0 }
            };
            sum = sum + w;
            i = i + 1;
        }
        sum
    }

    /// Size of a blob with this header.
    fn traits_size(&self) -> (r: usize)
        ensures
            r == HEADER_SIZE + values_size(self.high, self.low),
            r <= HEADER_SIZE + 512,
    {
        HEADER_SIZE + self.values_size()
    }

    /// Whether key `key` has a value.
    fn is_key_set(&self, key: TraitKey) -> (r: bool)
        requires
            key <= MAX_KEY,
        ensures
            r == (width(self.high, self.low, key as nat) != 0),
    {
        let k = key as u64;
        let h = self.high;
        let l = self.low;
        assert(((h | l) & (1u64 << k) != 0u64) == ((h >> k) & 1u64 == 1u64 || (l >> k) & 1u64
            == 1u64)) by (bit_vector)
            requires
                k < 64,
        ;
        (self.high | self.low) & (1u64 << k) != 0
    }

    /// The header with only the bits of `mask` kept.
    fn mask(&self, mask: u64) -> (r: PktTraitsHdr)
        ensures
            r.high == self.high & mask,
            r.low == self.low & mask,
    {
        PktTraitsHdr { high: self.high & mask, low: self.low & mask }
    }

    /// Where key `key`'s value starts in the blob.
    fn value_offset(&self, key: TraitKey) -> (r: usize)
        requires
            key <= MAX_KEY,
        ensures
            r == HEADER_SIZE + widths_below(self.high, self.low, key as nat),
    {
        let m = !(!0u64 << (key as u64));
        proof {
            lemma_prefix_mask(self.high, self.low, key as nat, 64);
        }
        self.mask(m).traits_size()
    }

    /// Width of key `key`'s value.
    fn value_len(&self, key: TraitKey) -> (r: usize)
        requires
            key <= MAX_KEY,
        ensures
            r == width(self.high, self.low, key as nat),
    {
        let m = 1u64 << (key as u64);
        proof {
            lemma_single_mask(self.high, self.low, key as nat, 64);
        }
        self.mask(m).values_size()
    }
}

/// A validated sparse trait blob, read-only.
pub struct PktTraits {
    data: Vec<u8>,
}

impl View for PktTraits {
    type V = Seq<u8>;

    closed spec fn view(&self) -> Seq<u8> {
        self.data@
    }
}

impl PktTraits {
    #[verifier::type_invariant]
    spec fn inv(&self) -> bool {
        is_valid_blob(self.data@)
    }

    /// Validates `blob` and keeps it for lookups. The blob must be exactly as
    /// long as its header says.
    pub fn parse(blob: Vec<u8>) -> (r: Result<PktTraits, Error>)
        ensures
            r is Ok <==> is_valid_blob(blob@),
            r matches Ok(t) ==> t@ == blob@,
            r is Err ==> r matches Err(Error::InvalidSize(_)),
    {
        if blob.len() < HEADER_SIZE {
            return Err(Error::InvalidSize(short_blob_message(HEADER_SIZE, blob.len())));
        }
        let h = PktTraitsHdr::from_bytes(blob.as_slice());
        let size = h.traits_size();
        if blob.len() != size {
            return Err(Error::InvalidSize(blob_size_message(size, blob.len())));
        }
        Ok(PktTraits { data: blob })
    }

    /// The value that the blob holds for `key`, `None` where it holds none.
    pub fn get(&self, key: TraitKey) -> (r: Result<Option<TraitValue>, Error>)
        ensures
            key > MAX_KEY ==> r matches Err(Error::KeyRange(_)),
            key <= MAX_KEY ==> r == Ok::<Option<TraitValue>, Error>(lookup(self@, key as nat)),
    {
        if key > MAX_KEY {
            return Err(Error::KeyRange(key_message(MAX_KEY, key)));
        }
        proof {
            use_type_invariant(self);
        }
        let h = self.header();
        if !h.is_key_set(key) {
            return Ok(None);
        }
        let off = h.value_offset(key);
        let len = h.value_len(key);
        proof {
            lemma_widths_below_bounded(h.high, h.low, (key + 1) as nat, 64);
        }
        let d = self.data.as_slice();
        let val = if len == 2 {
            TraitValue::U16(read_u16(d, off))
        } else if len == 4 {
            TraitValue::U32(read_u32(d, off))
        } else {
            TraitValue::U64(read_u64(d, off))
        };
        Ok(Some(val))
    }

    /// The blob's header.
    fn header(&self) -> (r: PktTraitsHdr)
        ensures
            r.high == header_high(self@),
            r.low == header_low(self@),
    {
        proof {
            use_type_invariant(self);
        }
        PktTraitsHdr::from_bytes(self.data.as_slice())
    }
}

impl TryFrom<Vec<u8>> for PktTraits {
    type Error = Error;

    /// Same as `PktTraits::parse`.
    fn try_from(blob: Vec<u8>) -> (r: Result<PktTraits, Error>)
        ensures
            r is Ok <==> is_valid_blob(blob@),
            r matches Ok(t) ==> t@ == blob@,
            r is Err ==> r matches Err(Error::InvalidSize(_)),
    {
        PktTraits::parse(blob)
    }
}

/// The conversion's contract stands on `try_from` itself.
impl vstd::std_specs::convert::TryFromSpecImpl<Vec<u8>> for PktTraits {
    open spec fn obeys_try_from_spec() -> bool {
        false
    }

    open spec fn try_from_spec(v: Vec<u8>) -> Result<PktTraits, Error> {
        arbitrary()
    }
}

/// First header word of a blob that holds key `k` alone, at width `w`.
pub open spec fn single_key_high(k: nat, w: nat) -> u64 {
    if w == 4 || w == 8 {
        1u64 << (k as u64)
    } else {
        0
    }
}

/// Second header word of a blob that holds key `k` alone, at width `w`.
pub open spec fn single_key_low(k: nat, w: nat) -> u64 {
    if w == 2 || w == 8 {
        1u64 << (k as u64)
    } else {
        0
    }
}

proof fn lemma_single_key_bits(k: u64, i: u64)
    requires
        k < 64,
        i < 64,
    ensures
        ((1u64 << k) >> i) & 1u64 == 1u64 <==> i == k,
        (0u64 >> i) & 1u64 != 1u64,
{
    assert(((1u64 << k) >> i) & 1u64 == 1u64 <==> i == k) by (bit_vector)
        requires
            k < 64,
            i < 64,
    ;
    assert((0u64 >> i) & 1u64 != 1u64) by (bit_vector);
}

proof fn lemma_single_key_width(k: nat, w: nat, i: nat)
    requires
        k < 64,
        i < 64,
        w == 2 || w == 4 || w == 8,
    ensures
        width(single_key_high(k, w), single_key_low(k, w), i) == if i == k { w } else { 0 },
{
    lemma_single_key_bits(k as u64, i as u64);
}

proof fn lemma_single_key_widths(k: nat, w: nat, n: nat)
    requires
        k < 64,
        n <= 64,
        w == 2 || w == 4 || w == 8,
    ensures
        widths_below(single_key_high(k, w), single_key_low(k, w), n) == if n > k { w } else { 0 },
    decreases n,
{
    if n > 0 {
        lemma_single_key_widths(k, w, (n - 1) as nat);
        lemma_single_key_width(k, w, (n - 1) as nat);
    }
}

/// A blob whose header announces key `k` alone at width `w`, followed by
/// `w` value bytes, is valid: it gives back for `k` the value of those bytes
/// at that width, and nothing for every other key.
pub proof fn lemma_single_key_round_trip(blob: Seq<u8>, k: nat, w: nat)
    requires
        k <= MAX_KEY,
        w == 2 || w == 4 || w == 8,
        blob.len() == HEADER_SIZE + w,
        header_high(blob) == single_key_high(k, w),
        header_low(blob) == single_key_low(k, w),
    ensures
        is_valid_blob(blob),
        lookup(blob, k) == Some(value_of(w, blob.subrange(HEADER_SIZE as int, HEADER_SIZE + w))),
        forall|j: nat| j <= MAX_KEY && j != k ==> #[trigger] lookup(blob, j) is None,
{
    lemma_single_key_widths(k, w, 64);
    lemma_single_key_widths(k, w, k);
    lemma_single_key_width(k, w, k);
    assert forall|j: nat| j <= MAX_KEY && j != k implies #[trigger] lookup(blob, j) is None by {
        lemma_single_key_width(k, w, j);
    }
}

/// A valid blob is exactly as long as its header and the widths of the
/// values it announces, and the blob one byte shorter is not valid.
pub proof fn lemma_blob_size(blob: Seq<u8>)
    requires
        is_valid_blob(blob),
    ensures
        blob.len() == HEADER_SIZE + values_size(header_high(blob), header_low(blob)),
        !is_valid_blob(blob.drop_last()),
{
    let short = blob.drop_last();
    if short.len() >= HEADER_SIZE {
        assert(short.subrange(0, 8) =~= blob.subrange(0, 8));
        assert(short.subrange(8, 16) =~= blob.subrange(8, 16));
    }
}

} // verus!
