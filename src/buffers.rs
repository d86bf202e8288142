//! Arrow's shared, immutable buffers as seen by the verified code.
//!
//! `Buffer` and `Bitmap` share their backing storage between clones and
//! slices; the functions here state what each operation does to the values
//! that a buffer exposes.
use polars::export::arrow::bitmap::Bitmap;
use polars::export::arrow::buffer::Buffer;
use vstd::prelude::*;

verus! {

#[verifier::external_type_specification]
#[verifier::external_body]
pub struct ExBitmap(Bitmap);

#[verifier::external_type_specification]
#[verifier::external_body]
#[verifier::reject_recursive_types(T)]
pub struct ExBuffer<T>(Buffer<T>);

/// The bits that a bitmap exposes, in order.
pub uninterp spec fn bitmap_bits(b: Bitmap) -> Seq<bool>;

/// The values that a buffer of 64-bit words exposes, in order.
pub uninterp spec fn buffer_values(b: Buffer<u64>) -> Seq<u64>;

/// The bits of an optional bitmap.
pub open spec fn opt_bits(b: Option<Bitmap>) -> Option<Seq<bool>> {
    match b {
        Some(b) => Some(bitmap_bits(b)),
        None => None,
    }
}

/// The number of cleared bits in `s`.
pub open spec fn count_unset(s: Seq<bool>) -> nat
    decreases s.len(),
{
    if s.len() == 0 {
        0
    } else {
        count_unset(s.drop_last()) + if s.last() { 0nat } else { 1nat }
    }
}

/// A sequence has no cleared bit exactly when its count of cleared bits is zero.
pub proof fn lemma_count_unset_zero(s: Seq<bool>)
    ensures
        (count_unset(s) == 0) <==> (forall|i: int| 0 <= i < s.len() ==> #[trigger] s[i]),
    decreases s.len(),
{
    if s.len() > 0 {
        lemma_count_unset_zero(s.drop_last());
        if count_unset(s) == 0 {
            assert forall|i: int| 0 <= i < s.len() implies #[trigger] s[i] by {
                if i < s.len() - 1 {
                    assert(s.drop_last()[i] == s[i]);
                }
            }
        } else {
            if s.last() {
                let i = choose|i: int| 0 <= i < s.drop_last().len() && !#[trigger] s.drop_last()[i];
                assert(!s[i]);
            }
        }
    }
}

/// Relies on `Bitmap::from(&[bool])`: the bitmap holds the given bits.
#[verifier::external_body]
pub(crate) fn bitmap_from_bools(bits: &Vec<bool>) -> (r: Bitmap)
    ensures
        bitmap_bits(r) == bits@,
{
    Bitmap::from(bits.as_slice())
}

/// Relies on `Bitmap::len`: the number of bits the bitmap exposes.
#[verifier::external_body]
pub(crate) fn bitmap_len(b: &Bitmap) -> (r: usize)
    ensures
        r == bitmap_bits(*b).len(),
{
    b.len()
}

/// Relies on `Bitmap::get_bit`, which panics when `i` is out of range.
#[verifier::external_body]
pub(crate) fn bitmap_get(b: &Bitmap, i: usize) -> (r: bool)
    requires
        i < bitmap_bits(*b).len(),
    ensures
        r == bitmap_bits(*b)[i as int],
{
    b.get_bit(i)
}

/// Relies on `Bitmap::unset_bits`: the number of cleared bits, kept up to
/// date by construction and by slicing.
#[verifier::external_body]
pub(crate) fn bitmap_unset_bits(b: &Bitmap) -> (r: usize)
    ensures
        r == count_unset(bitmap_bits(*b)),
{
    b.unset_bits()
}

/// Relies on `Bitmap::slice` on a shared handle (`clone` then `slice`): a
/// window of the bits, sharing the bytes. `slice` panics past the end.
#[verifier::external_body]
pub(crate) fn bitmap_slice(b: &Bitmap, offset: usize, length: usize) -> (r: Bitmap)
    requires
        offset + length <= bitmap_bits(*b).len(),
    ensures
        bitmap_bits(r) == bitmap_bits(*b).subrange(offset as int, offset + length),
{
    b.clone().slice(offset, length)
}

/// Relies on `Buffer::from(Vec<T>)`: the buffer takes over the vector's values.
#[verifier::external_body]
pub(crate) fn buffer_from_vec(v: Vec<u64>) -> (r: Buffer<u64>)
    ensures
        buffer_values(r) == v@,
{
    Buffer::from(v)
}

/// Relies on `Buffer::len`: the number of values the buffer exposes.
#[verifier::external_body]
pub(crate) fn buffer_len(b: &Buffer<u64>) -> (r: usize)
    ensures
        r == buffer_values(*b).len(),
{
    b.len()
}

/// Relies on `Buffer::as_slice`: the value at position `i`; indexing panics
/// out of range.
#[verifier::external_body]
pub(crate) fn buffer_get(b: &Buffer<u64>, i: usize) -> (r: u64)
    requires
        i < buffer_values(*b).len(),
    ensures
        r == buffer_values(*b)[i as int],
{
    b.as_slice()[i]
}

/// Relies on `Buffer::slice` on a shared handle (`clone` then `slice`): a
/// window of the values, sharing the storage. `slice` panics past the end.
#[verifier::external_body]
pub(crate) fn buffer_slice(b: &Buffer<u64>, offset: usize, length: usize) -> (r: Buffer<u64>)
    requires
        offset + length <= buffer_values(*b).len(),
    ensures
        buffer_values(r) == buffer_values(*b).subrange(offset as int, offset + length),
{
    b.clone().slice(offset, length)
}

} // verus!
