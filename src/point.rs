//! The columnar point container.
use crate::buffers::{
    bitmap_bits, bitmap_from_bools, bitmap_get, bitmap_len, bitmap_slice, bitmap_unset_bits,
    buffer_from_vec, buffer_get, buffer_len, buffer_slice, buffer_values, count_unset, opt_bits,
    lemma_count_unset_zero,
};
use crate::error::GeoArrowError;
use polars::export::arrow::bitmap::Bitmap;
use polars::export::arrow::buffer::Buffer;
use vstd::prelude::*;

verus! {

/// One point as the bit patterns of its two coordinates.
#[derive(Debug, Clone, Copy, PartialEq, Eq, Structural)]
pub struct PointBits {
    pub x: u64,
    pub y: u64,
}

/// What slot `i` holds logically: the point when the slot is valid, else nothing.
pub open spec fn slot(xs: Seq<u64>, ys: Seq<u64>, validity: Option<Seq<bool>>, i: int) -> Option<PointBits> {
    if validity is None || validity->0[i] {
        Some(PointBits { x: xs[i], y: ys[i] })
    } else {
        None
    }
}

/// The shape rules: two coordinate sequences of one length, and a validity
/// bitmap, if any, of that length too.
pub open spec fn shape_ok(xs: Seq<u64>, ys: Seq<u64>, validity: Option<Seq<bool>>) -> bool {
    &&& xs.len() == ys.len()
    &&& validity matches Some(v) ==> v.len() == xs.len()
}

/// A bitmap with no cleared bit says nothing: it is kept as no bitmap at all.
pub open spec fn normalized(validity: Option<Seq<bool>>) -> Option<Seq<bool>> {
    match validity {
        Some(v) => if count_unset(v) == 0 { None } else { Some(v) },
        None => None,
    }
}

/// `a` holds the buffers `x` and `y`, and the bitmap `validity` once a bitmap
/// with no cleared bit is dropped.
pub open spec fn built_from(a: PointArray, x: Buffer<u64>, y: Buffer<u64>, validity: Option<Bitmap>) -> bool {
    &&& a.wf()
    &&& a.xs() == buffer_values(x)
    &&& a.ys() == buffer_values(y)
    &&& a.validity_bits() == normalized(opt_bits(validity))
}

/// A null-aware array of points: parallel x and y buffers and an optional
/// validity bitmap whose cleared bits mark null slots.
///
/// Slicing shares all three buffers with the source: no coordinate is copied.
#[derive(Debug)]
pub struct PointArray {
    x: Buffer<u64>,
    y: Buffer<u64>,
    validity: Option<Bitmap>,
}

impl PointArray {
    /// The x coordinates, nulls included.
    pub closed spec fn xs(&self) -> Seq<u64> {
        buffer_values(self.x)
    }

    /// The y coordinates, nulls included.
    pub closed spec fn ys(&self) -> Seq<u64> {
        buffer_values(self.y)
    }

    /// The validity bits, if a bitmap is held.
    pub closed spec fn validity_bits(&self) -> Option<Seq<bool>> {
        opt_bits(self.validity)
    }

    /// The container's rules: the shape rules, and a held bitmap has at least
    /// one cleared bit.
    pub open spec fn wf(&self) -> bool {
        &&& shape_ok(self.xs(), self.ys(), self.validity_bits())
        &&& normalized(self.validity_bits()) == self.validity_bits()
    }

    /// The number of points.
    pub open spec fn spec_len(&self) -> nat {
        self.xs().len()
    }

    /// The logical content: for each slot, its point or nothing.
    pub open spec fn logical(&self) -> Seq<Option<PointBits>> {
        Seq::new(self.spec_len(), |i: int| slot(self.xs(), self.ys(), self.validity_bits(), i))
    }
}

/// Dropping a bitmap that has no cleared bit leaves every slot as it was.
pub proof fn lemma_normalized_slot(xs: Seq<u64>, ys: Seq<u64>, validity: Option<Seq<bool>>, i: int)
    requires
        shape_ok(xs, ys, validity),
        0 <= i < xs.len(),
    ensures
        slot(xs, ys, normalized(validity), i) == slot(xs, ys, validity, i),
{
    if let Some(v) = validity {
        lemma_count_unset_zero(v);
    }
}

/// A bitmap with every bit set builds the same container as no bitmap: the
/// same representation, so the same logical content.
pub proof fn lemma_all_set_is_no_validity(
    x: Buffer<u64>,
    y: Buffer<u64>,
    all_set: Bitmap,
    with_bitmap: PointArray,
    without_bitmap: PointArray,
)
    requires
        forall|i: int| 0 <= i < bitmap_bits(all_set).len() ==> #[trigger] bitmap_bits(all_set)[i],
        built_from(with_bitmap, x, y, Some(all_set)),
        built_from(without_bitmap, x, y, None),
    ensures
        with_bitmap.validity_bits() == without_bitmap.validity_bits(),
        with_bitmap.logical() == without_bitmap.logical(),
{
    lemma_count_unset_zero(bitmap_bits(all_set));
    assert(with_bitmap.logical() =~= without_bitmap.logical());
}

/// Checks the shape rules on the lengths of the parts.
pub fn check(x_len: usize, y_len: usize, validity_len: Option<usize>) -> (r: Result<(), GeoArrowError>)
    ensures
        r is Ok <==> (x_len == y_len && (validity_len matches Some(n) ==> n == x_len)),
        r matches Err(e) ==> e == GeoArrowError::ShapeMismatch,
{
    if let Some(n) = validity_len {
        if n != x_len {
            return Err(GeoArrowError::ShapeMismatch);
        }
    }
    if x_len != y_len {
        return Err(GeoArrowError::ShapeMismatch);
    }
    Ok(())
}

/// Drops a bitmap that has no cleared bit.
fn normalize_validity(validity: Option<Bitmap>) -> (r: Option<Bitmap>)
    ensures
        opt_bits(r) == normalized(opt_bits(validity)),
{
    match validity {
        Some(b) => {
            if bitmap_unset_bits(&b) == 0 {
                None
            } else {
                Some(b)
            }
        },
        None => None,
    }
}

impl PointArray {
    /// Builds a container from its parts, or says why they do not fit.
    ///
    /// A bitmap with no cleared bit is dropped: it is the same as none.
    pub fn try_new(x: Buffer<u64>, y: Buffer<u64>, validity: Option<Bitmap>) -> (r: Result<
        PointArray,
        GeoArrowError,
    >)
        ensures
            r is Ok <==> shape_ok(buffer_values(x), buffer_values(y), opt_bits(validity)),
            r matches Err(e) ==> e == GeoArrowError::ShapeMismatch,
            r matches Ok(a) ==> built_from(a, x, y, validity),
    {
        let validity_len = match &validity {
            Some(b) => Some(bitmap_len(b)),
            None => None,
        };
        match check(buffer_len(&x), buffer_len(&y), validity_len) {
            Err(e) => Err(e),
            Ok(()) => {
                let validity = normalize_validity(validity);
                Ok(PointArray { x, y, validity })
            },
        }
    }

    /// Builds a container from parts that are known to fit.
    pub fn new(x: Buffer<u64>, y: Buffer<u64>, validity: Option<Bitmap>) -> (r: PointArray)
        requires
            shape_ok(buffer_values(x), buffer_values(y), opt_bits(validity)),
        ensures
            built_from(r, x, y, validity),
    {
        let validity = normalize_validity(validity);
        PointArray { x, y, validity }
    }

    /// Takes the container apart into its x, y and validity buffers.
    pub(crate) fn into_parts(self) -> (r: (Buffer<u64>, Buffer<u64>, Option<Bitmap>))
        ensures
            buffer_values(r.0) == self.xs(),
            buffer_values(r.1) == self.ys(),
            opt_bits(r.2) == self.validity_bits(),
    {
        (self.x, self.y, self.validity)
    }

    /// The number of points.
    pub fn len(&self) -> (r: usize)
        ensures
            r == self.spec_len(),
    {
        buffer_len(&self.x)
    }

    /// Whether the container holds no point.
    pub fn is_empty(&self) -> (r: bool)
        ensures
            r == (self.spec_len() == 0),
    {
        self.len() == 0
    }

    /// The x coordinates; values on null slots are unspecified.
    pub fn values_x(&self) -> (r: &Buffer<u64>)
        ensures
            buffer_values(*r) == self.xs(),
    {
        &self.x
    }

    /// The y coordinates; values on null slots are unspecified.
    pub fn values_y(&self) -> (r: &Buffer<u64>)
        ensures
            buffer_values(*r) == self.ys(),
    {
        &self.y
    }

    /// The validity bitmap, absent when every slot is valid.
    pub fn validity(&self) -> (r: Option<&Bitmap>)
        ensures
            match r {
                Some(b) => self.validity_bits() == Some(bitmap_bits(*b)),
                None => self.validity_bits() is None,
            },
    {
        match &self.validity {
            Some(b) => Some(b),
            None => None,
        }
    }

    /// A window `[offset, offset + length)` of the container, sharing its
    /// buffers.
    pub fn slice(&self, offset: usize, length: usize) -> (r: PointArray)
        requires
            self.wf(),
            offset + length <= self.spec_len(),
        ensures
            r.wf(),
            r.spec_len() == length,
            r.xs() == self.xs().subrange(offset as int, offset + length),
            r.ys() == self.ys().subrange(offset as int, offset + length),
            r.logical() == self.logical().subrange(offset as int, offset + length),
    {
        self.slice_unchecked(offset, length)
    }

    /// The same window as `slice`, for callers that have checked the bound.
    pub fn slice_unchecked(&self, offset: usize, length: usize) -> (r: PointArray)
        requires
            self.wf(),
            offset + length <= self.spec_len(),
        ensures
            r.wf(),
            r.spec_len() == length,
            r.xs() == self.xs().subrange(offset as int, offset + length),
            r.ys() == self.ys().subrange(offset as int, offset + length),
            r.logical() == self.logical().subrange(offset as int, offset + length),
    {
        let validity = match &self.validity {
            Some(b) => Some(bitmap_slice(b, offset, length)),
            None => None,
        };
        let ghost sliced_bits = opt_bits(validity);
        let validity = normalize_validity(validity);
        let r = PointArray {
            x: buffer_slice(&self.x, offset, length),
            y: buffer_slice(&self.y, offset, length),
            validity,
        };
        assert(r.logical() =~= self.logical().subrange(offset as int, offset + length)) by {
            assert forall|i: int| 0 <= i < length implies r.logical()[i] == self.logical()[offset
                + i] by {
                lemma_normalized_slot(r.xs(), r.ys(), sliced_bits, i);
            }
        }
        r
    }
}

// Geometry accessors
impl PointArray {
    /// Whether slot `i` is null.
    pub fn is_null(&self, i: usize) -> (r: bool)
        requires
            self.wf(),
            i < self.spec_len(),
        ensures
            r == (self.logical()[i as int] is None),
    {
        match &self.validity {
            Some(b) => !bitmap_get(b, i),
            None => false,
        }
    }

    /// Whether slot `i` holds a point.
    pub fn is_valid(&self, i: usize) -> (r: bool)
        requires
            self.wf(),
            i < self.spec_len(),
        ensures
            r == (self.logical()[i as int] is Some),
    {
        !self.is_null(i)
    }

    /// The point stored at slot `i`, whether or not the slot is null.
    pub fn value_as_geo(&self, i: usize) -> (r: PointBits)
        requires
            self.wf(),
            i < self.spec_len(),
        ensures
            r == (PointBits { x: self.xs()[i as int], y: self.ys()[i as int] }),
    {
        PointBits { x: buffer_get(&self.x, i), y: buffer_get(&self.y, i) }
    }

    /// The point at slot `i`, or nothing when the slot is null.
    pub fn get_as_geo(&self, i: usize) -> (r: Option<PointBits>)
        requires
            self.wf(),
            i < self.spec_len(),
        ensures
            r == self.logical()[i as int],
    {
        if self.is_null(i) {
            return None;
        }
        Some(self.value_as_geo(i))
    }

    /// Every stored point in order, not looking at validity.
    pub fn iter_geo_values(&self) -> (r: Vec<PointBits>)
        requires
            self.wf(),
        ensures
            r@.len() == self.spec_len(),
            forall|i: int|
                0 <= i < r@.len() ==> #[trigger] r@[i] == (PointBits {
                    x: self.xs()[i],
                    y: self.ys()[i],
                }),
    {
        let n = self.len();
        let mut out: Vec<PointBits> = Vec::with_capacity(n);
        let mut i: usize = 0;
        while i < n
            invariant
                self.wf(),
                n == self.spec_len(),
                i <= n,
                out@.len() == i,
                forall|j: int|
                    0 <= j < i ==> #[trigger] out@[j] == (PointBits {
                        x: self.xs()[j],
                        y: self.ys()[j],
                    }),
            decreases n - i,
        {
            out.push(self.value_as_geo(i));
            i = i + 1;
        }
        out
    }

    /// Every slot in order: its point, or nothing when it is null.
    pub fn iter_geo(&self) -> (r: Vec<Option<PointBits>>)
        requires
            self.wf(),
        ensures
            r@ == self.logical(),
    {
        let n = self.len();
        let mut out: Vec<Option<PointBits>> = Vec::with_capacity(n);
        let mut i: usize = 0;
        while i < n
            invariant
                self.wf(),
                n == self.spec_len(),
                i <= n,
                out@ == self.logical().subrange(0, i as int),
            decreases n - i,
        {
            out.push(self.get_as_geo(i));
            i = i + 1;
            assert(out@ =~= self.logical().subrange(0, i as int));
        }
        assert(out@ =~= self.logical());
        out
    }

    /// Whether two containers hold the same points in the same valid slots,
    /// whatever their null slots store and however their validity is kept.
    pub fn logically_eq(&self, other: &PointArray) -> (r: bool)
        requires
            self.wf(),
            other.wf(),
        ensures
            r == (self.logical() == other.logical()),
    {
        let n = self.len();
        if n != other.len() {
            assert(self.logical().len() != other.logical().len());
            return false;
        }
        let mut i: usize = 0;
        while i < n
            invariant
                self.wf(),
                other.wf(),
                n == self.spec_len(),
                n == other.spec_len(),
                i <= n,
                forall|j: int| 0 <= j < i ==> self.logical()[j] == other.logical()[j],
            decreases n - i,
        {
            if self.get_as_geo(i) != other.get_as_geo(i) {
                return false;
            }
            i = i + 1;
        }
        assert(self.logical() =~= other.logical());
        true
    }

    /// A second handle on the same buffers.
    pub fn clone(&self) -> (r: PointArray)
        requires
            self.wf(),
        ensures
            r.wf(),
            r.xs() == self.xs(),
            r.ys() == self.ys(),
            r.logical() == self.logical(),
    {
        let r = self.slice(0, self.len());
        assert(self.xs().subrange(0, self.spec_len() as int) =~= self.xs());
        assert(self.ys().subrange(0, self.spec_len() as int) =~= self.ys());
        assert(self.logical().subrange(0, self.spec_len() as int) =~= self.logical());
        r
    }

    /// Builds a container from optional points; an absent point becomes a
    /// null slot whose stored coordinates are zero.
    pub fn from_points(points: &Vec<Option<PointBits>>) -> (r: PointArray)
        ensures
            r.wf(),
            r.logical() == points@,
    {
        let n = points.len();
        let mut xs: Vec<u64> = Vec::with_capacity(n);
        let mut ys: Vec<u64> = Vec::with_capacity(n);
        let mut bits: Vec<bool> = Vec::with_capacity(n);
        let mut i: usize = 0;
        while i < n
            invariant
                n == points@.len(),
                i <= n,
                xs@.len() == i,
                ys@.len() == i,
                bits@.len() == i,
                forall|j: int|
                    0 <= j < i ==> #[trigger] slot(xs@, ys@, Some(bits@), j) == points@[j],
            decreases n - i,
        {
            let ghost (ox, oy, ob) = (xs@, ys@, bits@);
            match points[i] {
                Some(p) => {
                    xs.push(p.x);
                    ys.push(p.y);
                    bits.push(true);
                },
                None => {
                    xs.push(0);
                    ys.push(0);
                    bits.push(false);
                },
            }
            i = i + 1;
            assert forall|j: int| 0 <= j < i implies #[trigger] slot(xs@, ys@, Some(bits@), j)
                == points@[j] by {
                if j < i - 1 {
                    assert(xs@[j] == ox[j] && ys@[j] == oy[j] && bits@[j] == ob[j]);
                    assert(slot(xs@, ys@, Some(bits@), j) == slot(ox, oy, Some(ob), j));
                }
            }
        }
        let ghost (gx, gy, gb) = (xs@, ys@, bits@);
        let validity = bitmap_from_bools(&bits);
        let r = PointArray::new(buffer_from_vec(xs), buffer_from_vec(ys), Some(validity));
        assert(r.logical() =~= points@) by {
            assert forall|j: int| 0 <= j < n implies r.logical()[j] == points@[j] by {
                lemma_normalized_slot(gx, gy, Some(gb), j);
            }
        }
        r
    }
}

} // verus!
