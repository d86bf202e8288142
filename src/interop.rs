//! The container as Arrow's struct array: two non-nullable 64-bit float child
//! columns named `x` and `y`, and one validity bitmap for the points.
use crate::buffers::{buffer_values, opt_bits};
use crate::error::GeoArrowError;
use crate::point::{normalized, shape_ok, PointArray};
use polars::export::arrow::bitmap::Bitmap;
use polars::export::arrow::buffer::Buffer;
use vstd::prelude::*;
use vstd::string::StringExecFns;

verus! {

/// The values of a child column, by their type.
pub enum ColumnData {
    /// 64-bit floats, each as its bit pattern.
    Float64(Buffer<u64>),
    /// A column of any other type.
    Other,
}

/// One child column of a struct array.
pub struct ChildColumn {
    pub name: String,
    pub nullable: bool,
    pub data: ColumnData,
}

/// A struct array: its child columns in order and its own validity.
pub struct StructRecord {
    pub children: Vec<ChildColumn>,
    pub validity: Option<Bitmap>,
}

/// The values of a child column, when it holds 64-bit floats.
pub open spec fn float_values(c: ChildColumn) -> Option<Seq<u64>> {
    match c.data {
        ColumnData::Float64(b) => Some(buffer_values(b)),
        ColumnData::Other => None,
    }
}

/// Exactly two child columns, both of 64-bit floats.
pub open spec fn schema_ok(rec: StructRecord) -> bool {
    &&& rec.children@.len() == 2
    &&& float_values(rec.children@[0]) is Some
    &&& float_values(rec.children@[1]) is Some
}

/// `rec` is the struct array that stands for `a`.
pub open spec fn encodes(rec: StructRecord, a: PointArray) -> bool {
    &&& rec.children@.len() == 2
    &&& rec.children@[0].name@ == seq!['x']
    &&& rec.children@[1].name@ == seq!['y']
    &&& !rec.children@[0].nullable
    &&& !rec.children@[1].nullable
    &&& float_values(rec.children@[0]) == Some(a.xs())
    &&& float_values(rec.children@[1]) == Some(a.ys())
    &&& opt_bits(rec.validity) == a.validity_bits()
}

/// `res` is what reading `rec` as a point container gives.
pub open spec fn decodes(rec: StructRecord, res: Result<PointArray, GeoArrowError>) -> bool {
    if !schema_ok(rec) {
        res == Err::<PointArray, GeoArrowError>(GeoArrowError::SchemaMismatch)
    } else {
        let xs = float_values(rec.children@[0])->0;
        let ys = float_values(rec.children@[1])->0;
        if !shape_ok(xs, ys, opt_bits(rec.validity)) {
            res == Err::<PointArray, GeoArrowError>(GeoArrowError::ShapeMismatch)
        } else {
            &&& res is Ok
            &&& res->Ok_0.wf()
            &&& res->Ok_0.xs() == xs
            &&& res->Ok_0.ys() == ys
            &&& res->Ok_0.validity_bits() == normalized(opt_bits(rec.validity))
        }
    }
}

impl PointArray {
    /// The struct array that stands for this container; the buffers move
    /// over without a copy.
    pub fn into_arrow(self) -> (r: StructRecord)
        requires
            self.wf(),
        ensures
            encodes(r, self),
    {
        proof {
            reveal_strlit("x");
            reveal_strlit("y");
        }
        let (x, y, validity) = self.into_parts();
        let field_x = ChildColumn {
            name: String::from_str("x"),
            nullable: false,
            data: ColumnData::Float64(x),
        };
        let field_y = ChildColumn {
            name: String::from_str("y"),
            nullable: false,
            data: ColumnData::Float64(y),
        };
        assert(field_x.name@ =~= seq!['x']);
        assert(field_y.name@ =~= seq!['y']);
        let children = vec![field_x, field_y];
        StructRecord { children, validity }
    }

    /// Reads a struct array as a point container.
    pub fn try_from_arrow(rec: StructRecord) -> (r: Result<PointArray, GeoArrowError>)
        ensures
            decodes(rec, r),
    {
        let ghost old_rec = rec;
        let StructRecord { mut children, validity } = rec;
        if children.len() != 2 {
            return Err(GeoArrowError::SchemaMismatch);
        }
        let second = children.pop().unwrap();
        let first = children.pop().unwrap();
        assert(first == old_rec.children@[0]);
        assert(second == old_rec.children@[1]);
        match (first.data, second.data) {
            (ColumnData::Float64(x), ColumnData::Float64(y)) => PointArray::try_new(x, y, validity),
            _ => Err(GeoArrowError::SchemaMismatch),
        }
    }
}

/// Writing a container as a struct array and reading it back gives a
/// container with the same buffers and the same logical content.
pub proof fn lemma_round_trip(
    c: PointArray,
    rec: StructRecord,
    back: Result<PointArray, GeoArrowError>,
)
    requires
        c.wf(),
        encodes(rec, c),
        decodes(rec, back),
    ensures
        back matches Ok(b) && b.xs() == c.xs() && b.ys() == c.ys() && b.logical() == c.logical(),
{
    let b = back->Ok_0;
    assert(b.logical() =~= c.logical());
}

} // verus!
