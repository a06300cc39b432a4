//! The type catalog: the closed set of logical column types, the mapping from
//! each type to its fixed physical byte width, and the physical layout
//! metadata for the columns of one segment.

use vstd::prelude::*;

verus! {

/// The closed set of logical column types of the physical catalog. Each
/// variant has exactly one physical byte width; the mapping never changes.
#[derive(Debug, Clone, Copy, PartialEq, Eq, Structural)]
pub enum ColumType {
    Int32,
    Int64,
    Float64,
    Bool,
}

impl ColumType {
    /// The fixed physical byte width of a value of this logical type.
    pub open spec fn width_spec(self) -> nat {
        match self {
            ColumType::Int32 => 4,
            ColumType::Int64 => 8,
            ColumType::Float64 => 8,
            ColumType::Bool => 1,
        }
    }

    /// Executable form of the width mapping.
    pub fn byte_width(self) -> (w: usize)
        ensures
            w == self.width_spec(),
    {
        match self {
            ColumType::Int32 => 4,
            ColumType::Int64 => 8,
            ColumType::Float64 => 8,
            ColumType::Bool => 1,
        }
    }
}

/// Type identity: maps a concrete value representation to its catalog tag.
/// Used to pick an encoding at write time and to guard, at decode time, that
/// a caller's requested representation matches the declared column type.
pub trait ColumnTypeCheck: Sized {
    /// The catalog tag of this representation, as a specification value.
    spec fn column_type_spec() -> ColumType;

    /// The catalog tag of this representation.
    fn get_column_type() -> (t: ColumType)
        ensures
            t == Self::column_type_spec(),
    ;
}

impl ColumnTypeCheck for i32 {
    open spec fn column_type_spec() -> ColumType {
        ColumType::Int32
    }

    fn get_column_type() -> (t: ColumType)
        ensures
            t == Self::column_type_spec(),
    {
        ColumType::Int32
    }
}

impl ColumnTypeCheck for i64 {
    open spec fn column_type_spec() -> ColumType {
        ColumType::Int64
    }

    fn get_column_type() -> (t: ColumType)
        ensures
            t == Self::column_type_spec(),
    {
        ColumType::Int64
    }
}

impl ColumnTypeCheck for bool {
    open spec fn column_type_spec() -> ColumType {
        ColumType::Bool
    }

    fn get_column_type() -> (t: ColumType)
        ensures
            t == Self::column_type_spec(),
    {
        ColumType::Bool
    }
}

/// The 4-byte unsigned representation shares the `Int32` catalog tag: the
/// physical format is width-determined, and the writer and reader agree on
/// signedness out of band.
impl ColumnTypeCheck for u32 {
    open spec fn column_type_spec() -> ColumType {
        ColumType::Int32
    }

    fn get_column_type() -> (t: ColumType)
        ensures
            t == Self::column_type_spec(),
    {
        ColumType::Int32
    }
}

/// Physical layout of one column inside a segment's mapped region: the byte
/// range of its values and, for a nullable column, the byte range of its
/// null-presence bitmask.
#[derive(Debug)]
pub struct ColumnMetadata {
    pub name: String,
    pub data_type: ColumType,
    pub offset: usize,
    pub length: usize,
    pub null_mask_offset: Option<usize>,
    pub null_mask_length: Option<usize>,
}

impl ColumnMetadata {
    /// Both bitmask fields are present: the column is nullable.
    pub open spec fn has_null_mask(self) -> bool {
        self.null_mask_offset is Some && self.null_mask_length is Some
    }
}

/// Physical layout of one segment: its columns and the common row count.
#[derive(Debug)]
pub struct TableMetadata {
    pub name: String,
    pub columns: Vec<ColumnMetadata>,
    pub num_rows: usize,
}

/// The record that a lookup of `name` resolves to: the first column of
/// `cols` so named, if any.
pub open spec fn find_col(cols: Seq<ColumnMetadata>, name: Seq<char>) -> Option<ColumnMetadata>
    decreases cols.len(),
{
    if cols.len() == 0 {
        None
    } else if cols[0].name@ == name {
        Some(cols[0])
    } else {
        find_col(cols.drop_first(), name)
    }
}

impl TableMetadata {
    /// Well-formedness of a segment's physical layout: every column's byte
    /// length is a whole number of values of its declared type, and the row
    /// counts agree across all columns. This is the contract a higher-level
    /// catalog must satisfy before opening a segment for decoding; the
    /// decoder itself revalidates type, bounds and size on every request.
    pub open spec fn wf(self) -> bool {
        forall|i: int|
            0 <= i < self.columns@.len() ==> (#[trigger] self.columns@[i]).length
                == self.num_rows * self.columns@[i].data_type.width_spec()
    }

    /// Some column of the table is named `name`.
    pub open spec fn has_col(self, name: Seq<char>) -> bool {
        find_col(self.columns@, name) is Some
    }

    /// The metadata record that a lookup of `name` resolves to.
    pub open spec fn col_of(self, name: Seq<char>) -> ColumnMetadata {
        find_col(self.columns@, name)->0
    }

    /// Looks a column up by name: a linear scan that returns the first
    /// column so named.
    pub fn find_column(&self, name: &String) -> (r: Option<&ColumnMetadata>)
        ensures
            match r {
                Some(c) => self.has_col(name@) && *c == self.col_of(name@),
                None => !self.has_col(name@),
            },
    {
        let n = self.columns.len();
        assert(self.columns@.skip(0) =~= self.columns@);
        for i in 0..n
            invariant
                n == self.columns@.len(),
                find_col(self.columns@.skip(i as int), name@) == find_col(self.columns@, name@),
        {
            assert(self.columns@.skip(i as int).drop_first() =~= self.columns@.skip(i + 1));
            if self.columns[i].name == *name {
                assert(self.columns@.skip(i as int)[0] == self.columns@[i as int]);
                return Some(&self.columns[i]);
            }
        }
        assert(self.columns@.skip(n as int) =~= Seq::<ColumnMetadata>::empty());
        None
    }
}

} // verus!
