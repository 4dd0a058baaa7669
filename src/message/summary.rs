use bloomfilter::Bloom;
use vstd::prelude::*;

verus! {

/// `bloomfilter::Bloom`, opaque here: what the library knows of a filter is
/// said through `bloom_bytes` and `bloom_admits`.
#[verifier::external_type_specification]
#[verifier::external_body]
#[verifier::reject_recursive_types(T)]
pub struct ExBloom<T: ?Sized>(Bloom<T>);

/// The raw bytes of a filter, header and bitmap: all of its state.
pub uninterp spec fn bloom_bytes(b: Bloom<u64>) -> Seq<u8>;

/// Whether a filter with these bytes reports `x` as possibly present.
///
/// The hash of `x` is taken over its bytes in the machine's own order, so the
/// answer for given bytes is the same on every machine of one byte order.
pub uninterp spec fn bloom_admits(bytes: Seq<u8>, x: u64) -> bool;

/// The bytes of a filter after `x` is recorded in one with bytes `bytes`.
pub uninterp spec fn bloom_with(bytes: Seq<u8>, x: u64) -> Seq<u8>;

/// Length of a filter's header: version, bitmap length, hash count, seed.
pub const BLOOM_HEADER_LEN: usize = 45;

/// A little-endian unsigned number.
pub open spec fn le_value(s: Seq<u8>) -> nat
    decreases s.len(),
{
    if s.len() == 0 {
        0
    } else {
        s[0] as nat + 256 * le_value(s.drop_first())
    }
}

/// The layout of a filter's bytes: a header of version one, a nonzero hash
/// count and the bitmap's length, followed by a bitmap of that length.
pub open spec fn bloom_layout_ok(bytes: Seq<u8>) -> bool {
    &&& bytes.len() >= BLOOM_HEADER_LEN
    &&& bytes[0] == 1
    &&& le_value(bytes.subrange(9, 13)) != 0
    &&& le_value(bytes.subrange(1, 9)) == bytes.len() - BLOOM_HEADER_LEN
}

/// A filter has a bitmap of at least one byte. `Bloom::check` and `Bloom::set`
/// reduce each hash modulo the bitmap's bit count, so they need one.
pub open spec fn has_bitmap(bytes: Seq<u8>) -> bool {
    bytes.len() > BLOOM_HEADER_LEN
}

/// Every bit of the bitmap is clear, as in a new filter.
pub open spec fn bitmap_clear(bytes: Seq<u8>) -> bool {
    forall|i: int| BLOOM_HEADER_LEN <= i < bytes.len() ==> bytes[i] == 0
}

/// `after` has the header of `before`, and each bitmap byte keeps its bits.
pub open spec fn bits_kept(before: Seq<u8>, after: Seq<u8>) -> bool {
    &&& after.len() == before.len()
    &&& after.subrange(0, BLOOM_HEADER_LEN as int) == before.subrange(0, BLOOM_HEADER_LEN as int)
    &&& forall|i: int|
        BLOOM_HEADER_LEN <= i < before.len() ==> #[trigger] (before[i] & after[i]) == before[i]
}

/// Keeping the bits is reflexive.
pub proof fn lemma_bits_kept_refl(a: Seq<u8>)
    ensures
        bits_kept(a, a),
{
    assert forall|i: int| BLOOM_HEADER_LEN <= i < a.len() implies #[trigger] (a[i] & a[i]) == a[i] by {
        let x = a[i];
        assert(x & x == x) by (bit_vector);
    }
}

/// Keeping the bits is transitive.
pub proof fn lemma_bits_kept_trans(a: Seq<u8>, b: Seq<u8>, c: Seq<u8>)
    requires
        bits_kept(a, b),
        bits_kept(b, c),
    ensures
        bits_kept(a, c),
{
    assert forall|i: int| BLOOM_HEADER_LEN <= i < a.len() implies #[trigger] (a[i] & c[i]) == a[i] by {
        let (x, y, z) = (a[i], b[i], c[i]);
        assert(x & y == x && y & z == y);
        assert((x & y == x && y & z == y) ==> x & z == x) by (bit_vector);
    }
}

/// Relies on `Bloom::check`: it answers from the filter's state alone, and
/// with at least one hash function and a clear bitmap it finds an unset bit.
#[verifier::external_body]
pub(crate) fn bloom_check(b: &Bloom<u64>, x: u64) -> (r: bool)
    requires
        has_bitmap(bloom_bytes(*b)),
    ensures
        r == bloom_admits(bloom_bytes(*b), x),
        bitmap_clear(bloom_bytes(*b)) ==> !r,
{
    b.check(&x)
}

/// Relies on `Bloom::set`: its result depends on the bytes and `x` alone; it
/// only sets bitmap bits, so the header stays, no bit is cleared, `x` is
/// admitted afterwards and whatever was admitted before still is.
#[verifier::external_body]
pub(crate) fn bloom_set(b: &mut Bloom<u64>, x: u64)
    requires
        has_bitmap(bloom_bytes(*old(b))),
    ensures
        bloom_bytes(*final(b)) == bloom_with(bloom_bytes(*old(b)), x),
        bits_kept(bloom_bytes(*old(b)), bloom_bytes(*final(b))),
        bloom_admits(bloom_bytes(*final(b)), x),
        forall|y: u64|
            bloom_admits(bloom_bytes(*old(b)), y) ==> #[trigger] bloom_admits(
                bloom_bytes(*final(b)),
                y,
            ),
{
    b.set(&x)
}

/// Relies on the derived `Clone` of `Bloom`: the copy has the same bytes.
#[verifier::external_body]
pub(crate) fn bloom_clone(b: &Bloom<u64>) -> (r: Bloom<u64>)
    ensures
        bloom_bytes(r) == bloom_bytes(*b),
{
    b.clone()
}

/// Relies on `Bloom::as_slice`: the filter's bytes, which every filter keeps
/// in the layout that `Bloom::from_slice` accepts.
#[verifier::external_body]
pub(crate) fn bloom_as_slice(b: &Bloom<u64>) -> (r: &[u8])
    ensures
        r@ == bloom_bytes(*b),
        bloom_layout_ok(r@),
{
    b.as_slice()
}

/// Relies on `Bloom::from_slice`: it accepts exactly the bytes in the layout
/// and keeps them as the filter's state.
#[verifier::external_body]
pub(crate) fn bloom_from_slice(bytes: &[u8]) -> (r: Result<Bloom<u64>, &'static str>)
    ensures
        r is Ok <==> bloom_layout_ok(bytes@),
        r matches Ok(b) ==> bloom_bytes(b) == bytes@,
{
    Bloom::from_slice(bytes)
}

/// Whether the filter has a bitmap, which checking and setting need.
pub fn bloom_has_bitmap(b: &Bloom<u64>) -> (r: bool)
    ensures
        r == has_bitmap(bloom_bytes(*b)),
{
    bloom_as_slice(b).len() > BLOOM_HEADER_LEN
}

/// Whether every bit of the filter's bitmap is clear, as in a new filter.
pub fn bloom_is_clear(b: &Bloom<u64>) -> (r: bool)
    ensures
        r == bitmap_clear(bloom_bytes(*b)),
{
    let bytes = bloom_as_slice(b);
    let mut i: usize = BLOOM_HEADER_LEN;
    while i < bytes.len()
        invariant
            bytes@ == bloom_bytes(*b),
            BLOOM_HEADER_LEN <= i <= bytes@.len(),
            forall|j: int| BLOOM_HEADER_LEN <= j < i ==> bytes@[j] == 0,
        decreases bytes@.len() - i,
    {
        if bytes[i] != 0 {
            return false;
        }
        i = i + 1;
    }
    true
}

} // verus!
