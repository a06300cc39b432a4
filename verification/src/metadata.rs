//! The logical catalog: the persisted, human-readable description of a
//! table — its schema version, logical column definitions and segments.
//! The physical layout (`TableMetadata`) must be derivable from it before
//! a segment can be opened for decoding.

use vstd::prelude::*;

verus! {

#[verifier::external_type_specification]
#[verifier::external_body]
pub struct ExJsonValue(serde_json::Value);

/// The closed set of logical column types the persisted catalog speaks
/// of. Each maps to exactly one physical catalog tag and byte width.
#[derive(Debug, Clone, Copy, PartialEq, Eq, Structural)]
pub enum LogicalType {
    UInt8,
    UInt32,
    Bool,
}

impl LogicalType {
    /// The physical byte width of one encoded value of this logical type.
    pub open spec fn width_spec(self) -> nat {
        match self {
            LogicalType::UInt8 => 1,
            LogicalType::UInt32 => 4,
            LogicalType::Bool => 1,
        }
    }

    /// Executable form of the width mapping.
    pub fn byte_width(self) -> (w: usize)
        ensures
            w == self.width_spec(),
    {
        match self {
            LogicalType::UInt8 => 1,
            LogicalType::UInt32 => 4,
            LogicalType::Bool => 1,
        }
    }
}

/// One logical column of a table: its name and logical type.
#[derive(Debug)]
pub struct ColumnDef {
    pub name: String,
    pub logical_type: LogicalType,
}

/// One column chunk of a segment: where its file lives, how it is
/// encoded, and optional min/max statistics carried through opaquely.
#[derive(Debug)]
pub struct ColumnChunkMeta {
    pub name: String,
    pub file: String,
    pub encoding: String,
    pub min: Option<serde_json::Value>,
    pub max: Option<serde_json::Value>,
}

/// One immutable, once-written segment: its id, row count and per-column
/// chunks.
#[derive(Debug)]
pub struct SegmentMeta {
    pub id: String,
    pub row_count: u64,
    pub columns: Vec<ColumnChunkMeta>,
}

/// The persisted catalog record of one table.
#[derive(Debug)]
pub struct TableMeta {
    pub name: String,
    pub version: u32,
    pub columns: Vec<ColumnDef>,
    pub segments: Vec<SegmentMeta>,
}

/// The column definition a lookup of `name` resolves to: the first
/// definition so named, if any.
pub open spec fn find_def(defs: Seq<ColumnDef>, name: Seq<char>) -> Option<ColumnDef>
    decreases defs.len(),
{
    if defs.len() == 0 {
        None
    } else if defs[0].name@ == name {
        Some(defs[0])
    } else {
        find_def(defs.drop_first(), name)
    }
}

/// The segment a lookup of `id` resolves to: the first segment so
/// identified, if any.
pub open spec fn find_segment(segs: Seq<SegmentMeta>, id: Seq<char>) -> Option<SegmentMeta>
    decreases segs.len(),
{
    if segs.len() == 0 {
        None
    } else if segs[0].id@ == id {
        Some(segs[0])
    } else {
        find_segment(segs.drop_first(), id)
    }
}

impl TableMeta {
    /// A fresh catalog record: schema version one, no segments yet.
    pub fn new(tb_name: String, columns: Vec<ColumnDef>) -> (r: TableMeta)
        ensures
            r.name == tb_name,
            r.version == 1,
            r.columns == columns,
            r.segments@ =~= Seq::<SegmentMeta>::empty(),
    {
        TableMeta { name: tb_name, version: 1, columns, segments: Vec::new() }
    }

    /// Records one more segment, after the existing ones.
    pub fn add_segment(&mut self, segment: SegmentMeta)
        ensures
            final(self).segments@ == old(self).segments@.push(segment),
            final(self).name == old(self).name,
            final(self).version == old(self).version,
            final(self).columns == old(self).columns,
    {
        self.segments.push(segment);
    }

    /// Looks a logical column definition up by name: the first definition
    /// so named.
    pub fn find_col_def(&self, col_name: &String) -> (r: Option<&ColumnDef>)
        ensures
            match r {
                Some(d) => find_def(self.columns@, col_name@) == Some(*d),
                None => find_def(self.columns@, col_name@) is None,
            },
    {
        let n = self.columns.len();
        assert(self.columns@.skip(0) =~= self.columns@);
        for i in 0..n
            invariant
                n == self.columns@.len(),
                find_def(self.columns@.skip(i as int), col_name@) == find_def(
                    self.columns@,
                    col_name@,
                ),
        {
            assert(self.columns@.skip(i as int).drop_first() =~= self.columns@.skip(i + 1));
            if self.columns[i].name == *col_name {
                assert(self.columns@.skip(i as int)[0] == self.columns@[i as int]);
                return Some(&self.columns[i]);
            }
        }
        assert(self.columns@.skip(n as int) =~= Seq::<ColumnDef>::empty());
        None
    }

    /// Looks a segment up by id: the first segment so identified.
    pub fn find_seg(&self, seg_id: &String) -> (r: Option<&SegmentMeta>)
        ensures
            match r {
                Some(s) => find_segment(self.segments@, seg_id@) == Some(*s),
                None => find_segment(self.segments@, seg_id@) is None,
            },
    {
        let n = self.segments.len();
        assert(self.segments@.skip(0) =~= self.segments@);
        for i in 0..n
            invariant
                n == self.segments@.len(),
                find_segment(self.segments@.skip(i as int), seg_id@) == find_segment(
                    self.segments@,
                    seg_id@,
                ),
        {
            assert(self.segments@.skip(i as int).drop_first() =~= self.segments@.skip(i + 1));
            if self.segments[i].id == *seg_id {
                assert(self.segments@.skip(i as int)[0] == self.segments@[i as int]);
                return Some(&self.segments[i]);
            }
        }
        assert(self.segments@.skip(n as int) =~= Seq::<SegmentMeta>::empty());
        None
    }
}

} // verus!
