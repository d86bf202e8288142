//! Geometry arrays of any kind behind one interface: a caller that holds a
//! column of unknown kind can still ask for its length and validity, slice
//! it, dispatch on its kind, and recover the concrete array.
use crate::buffers::bitmap_bits;
use crate::point::{PointArray, PointBits};
use polars::export::arrow::bitmap::Bitmap;
use vstd::prelude::*;

verus! {

/// The kind of geometry that an array stores.
#[derive(Debug, Clone, Copy, PartialEq, Eq, Structural)]
pub enum GeometryType {
    Point,
    LineString,
    Polygon,
    MultiPoint,
    MultiLineString,
    MultiPolygon,
    WKB,
}

/// An array of geometries of one of the known kinds.
#[derive(Debug)]
pub enum GeometryArray {
    Point(PointArray),
}

impl GeometryArray {
    /// The rules of the array that is held.
    pub open spec fn wf(&self) -> bool {
        match self {
            GeometryArray::Point(a) => a.wf(),
        }
    }

    /// The number of geometries.
    pub open spec fn spec_len(&self) -> nat {
        match self {
            GeometryArray::Point(a) => a.spec_len(),
        }
    }

    /// For each slot: whether it holds a geometry.
    pub open spec fn valid_slots(&self) -> Seq<bool> {
        match self {
            GeometryArray::Point(a) => a.logical().map_values(|p: Option<PointBits>| p is Some),
        }
    }

    /// The number of geometries.
    pub fn len(&self) -> (r: usize)
        ensures
            r == self.spec_len(),
    {
        match self {
            GeometryArray::Point(a) => a.len(),
        }
    }

    /// The kind of geometry stored.
    pub fn geometry_type(&self) -> (r: GeometryType)
        ensures
            self is Point ==> r == GeometryType::Point,
    {
        match self {
            GeometryArray::Point(_) => GeometryType::Point,
        }
    }

    /// The validity bitmap, absent when every slot holds a geometry.
    pub fn validity(&self) -> (r: Option<&Bitmap>)
        requires
            self.wf(),
        ensures
            match r {
                Some(b) => bitmap_bits(*b) == self.valid_slots(),
                None => forall|i: int| 0 <= i < self.spec_len() ==> #[trigger] self.valid_slots()[i],
            },
    {
        match self {
            GeometryArray::Point(a) => {
                let r = a.validity();
                assert(r matches Some(b) ==> bitmap_bits(*b) =~= self.valid_slots());
                r
            },
        }
    }

    /// A window `[offset, offset + length)` of the array, of the same kind,
    /// sharing its buffers.
    pub fn slice(&self, offset: usize, length: usize) -> (r: GeometryArray)
        requires
            self.wf(),
            offset + length <= self.spec_len(),
        ensures
            r.wf(),
            r.spec_len() == length,
            match (self, r) {
                (GeometryArray::Point(a), GeometryArray::Point(b)) => b.logical() == a.logical().subrange(
                    offset as int,
                    offset + length,
                ),
            },
    {
        match self {
            GeometryArray::Point(a) => GeometryArray::Point(a.slice(offset, length)),
        }
    }

    /// The same window as `slice`, for callers that have checked the bound.
    pub fn slice_unchecked(&self, offset: usize, length: usize) -> (r: GeometryArray)
        requires
            self.wf(),
            offset + length <= self.spec_len(),
        ensures
            r.wf(),
            r.spec_len() == length,
            match (self, r) {
                (GeometryArray::Point(a), GeometryArray::Point(b)) => b.logical() == a.logical().subrange(
                    offset as int,
                    offset + length,
                ),
            },
    {
        match self {
            GeometryArray::Point(a) => GeometryArray::Point(a.slice_unchecked(offset, length)),
        }
    }

    /// The point array held, if this is one.
    pub fn as_point(&self) -> (r: Option<&PointArray>)
        ensures
            match self {
                GeometryArray::Point(a) => r == Some(a),
            },
    {
        match self {
            GeometryArray::Point(a) => Some(a),
        }
    }

    /// A second handle on the same array.
    pub fn to_boxed(&self) -> (r: GeometryArray)
        requires
            self.wf(),
        ensures
            r.wf(),
            match (self, r) {
                (GeometryArray::Point(a), GeometryArray::Point(b)) => b.logical() == a.logical(),
            },
    {
        match self {
            GeometryArray::Point(a) => GeometryArray::Point(a.clone()),
        }
    }
}

} // verus!
