//! The null bitmask and the zero-copy decoder over one segment's mapped
//! data region.
//!
//! Bitmask convention: row `i`'s presence bit lives at byte `i / 8`, bit
//! position `i % 8` (least-significant-bit first), bit 1 meaning "present"
//! and 0 meaning "null".

use vstd::prelude::*;

verus! {

/// Presence bit `idx` of a packed bitmask. A row whose byte index lies
/// beyond the mask reads as absent: the query fails closed.
pub open spec fn bit_set_spec(mask: Seq<u8>, idx: int) -> bool {
    &&& 0 <= idx
    &&& idx / 8 < mask.len()
    &&& (mask[idx / 8] >> (idx % 8) as u8) & 1u8 == 1u8
}

/// Reads presence bit `idx` of a packed bitmask: the stored bit whenever
/// the byte index `idx / 8` is strictly inside the mask — the last mask
/// byte included — and `false` (null) beyond it.
pub fn is_bit_set(mask_bytes: &[u8], idx: usize) -> (r: bool)
    ensures
        r == bit_set_spec(mask_bytes@, idx as int),
{
    let byte_idx = idx / 8;
    let bit_offset = idx % 8;
    if byte_idx >= mask_bytes.len() {
        return false;
    }
    let byte = mask_bytes[byte_idx];
    let r = byte & (1u8 << bit_offset) != 0;
    proof {
        let s = (idx % 8) as u8;
        assert((byte & (1u8 << s) != 0) == ((byte >> s) & 1u8 == 1u8)) by (bit_vector)
            requires s < 8;
    }
    r
}

/// The byte length of a bitmask covering `rows` rows: `ceil(rows / 8)`.
pub open spec fn mask_byte_len(rows: nat) -> nat {
    ((rows + 7) / 8) as nat
}

/// Packs a per-row presence pattern into a bitmask of `ceil(n / 8)` bytes.
/// Bit `i` reproduces `present[i]` exactly, and every padding bit beyond
/// the last row is clear.
pub fn encode_null_mask(present: &[bool]) -> (r: Vec<u8>)
    ensures
        r@.len() == mask_byte_len(present@.len()),
        forall|i: int| 0 <= i < present@.len() ==> bit_set_spec(r@, i) == present@[i],
        forall|i: int| present@.len() <= i ==> !bit_set_spec(r@, i),
{
    let n = present.len();
    let n_bytes = n / 8 + if n % 8 == 0 { 0 } else { 1 };
    assert(n_bytes == mask_byte_len(n as nat));
    let mut mask: Vec<u8> = Vec::new();
    while mask.len() < n_bytes
        invariant
            mask@.len() <= n_bytes,
            forall|j: int| 0 <= j < mask@.len() ==> mask@[j] == 0u8,
        decreases n_bytes - mask@.len(),
    {
        mask.push(0u8);
    }
    proof {
        assert forall|i: int| 0 <= i implies !bit_set_spec(mask@, i) by {
            if i / 8 < mask@.len() {
                let s = (i % 8) as u8;
                assert((0u8 >> s) & 1u8 == 0u8) by (bit_vector);
            }
        }
    }
    for i in 0..n
        invariant
            n == present@.len(),
            mask@.len() == n_bytes,
            n_bytes == mask_byte_len(n as nat),
            forall|j: int| 0 <= j < i ==> bit_set_spec(mask@, j) == present@[j],
            forall|j: int| i <= j ==> !bit_set_spec(mask@, j),
    {
        if present[i] {
            let byte_idx = i / 8;
            let bit_offset = i % 8;
            assert(byte_idx < n_bytes);
            let old_byte = mask[byte_idx];
            let new_byte = old_byte | (1u8 << bit_offset);
            let ghost pre = mask@;
            mask[byte_idx] = new_byte;
            proof {
                let s = (i % 8) as u8;
                assert(mask@ =~= pre.update(i as int / 8, new_byte));
                assert forall|j: int| 0 <= j && j != i implies bit_set_spec(mask@, j)
                    == bit_set_spec(pre, j) by {
                    if j / 8 == i as int / 8 {
                        let t = (j % 8) as u8;
                        assert(j % 8 != i as int % 8);
                        lemma_set_bit_other(old_byte, s, t);
                    }
                }
                lemma_set_bit_same(old_byte, s);
                assert(bit_set_spec(mask@, i as int));
                assert forall|j: int| i + 1 <= j implies !bit_set_spec(mask@, j) by {
                    assert(j != i);
                    assert(!bit_set_spec(pre, j));
                }
            }
        }
    }
    mask
}

/// Setting bit `s` of a byte makes bit `s` read as one.
proof fn lemma_set_bit_same(b: u8, s: u8)
    requires
        s < 8,
    ensures
        ((b | (1u8 << s)) >> s) & 1u8 == 1u8,
{
    assert(((b | (1u8 << s)) >> s) & 1u8 == 1u8) by (bit_vector)
        requires s < 8;
}

/// Setting bit `s` of a byte leaves every other bit as it was.
proof fn lemma_set_bit_other(b: u8, s: u8, t: u8)
    requires
        s < 8,
        t < 8,
        s != t,
    ensures
        ((b | (1u8 << s)) >> t) & 1u8 == (b >> t) & 1u8,
{
    assert(((b | (1u8 << s)) >> t) & 1u8 == (b >> t) & 1u8) by (bit_vector)
        requires s < 8 && t < 8 && s != t;
}

} // verus!

use crate::catalog::{ColumType, ColumnMetadata, ColumnTypeCheck, TableMetadata};
use crate::col_file::{LeBytesCodec, col_decoded, decode_column};
use memmap2::Mmap;

verus! {

#[verifier::external_type_specification]
#[verifier::external_body]
pub struct ExMmap(Mmap);

/// The bytes of one read-only mapping. A segment is write-once and its
/// mapping is never resized or remapped, so the mapped contents are a
/// function of the mapping alone.
pub uninterp spec fn mmap_bytes(m: Mmap) -> Seq<u8>;

/// Relies on memmap2::Mmap: it dereferences to the mapped byte slice, whose
/// `len` is the length of the mapping.
#[verifier::external_body]
fn map_len(m: &Mmap) -> (n: usize)
    ensures
        n == mmap_bytes(*m).len(),
{
    m.len()
}

/// Relies on memmap2::Mmap: it dereferences to the mapped byte slice, of
/// which this returns the `[start, end)` subrange.
#[verifier::external_body]
fn map_slice<'a>(m: &'a Mmap, start: usize, end: usize) -> (s: &'a [u8])
    requires
        start <= end <= mmap_bytes(*m).len(),
    ensures
        s@ == mmap_bytes(*m).subrange(start as int, end as int),
{
    &m[start..end]
}

/// Why a decoder request failed. Every failure is a typed, recoverable
/// value: none panics, and none reinterprets memory.
#[derive(Debug, Clone, Copy, PartialEq, Eq, Structural)]
pub enum ColumnDecodeError {
    /// No column of the table bears the requested name.
    ColumnNotFound,
    /// The declared column type differs from the requested representation.
    TypeMismatch { required: ColumType, actual: ColumType },
    /// A byte range of the column metadata exceeds the mapped region.
    OutOfBounds,
    /// Nullable access was requested for a column without a null bitmask.
    MissingNullMask,
    /// The column's byte length is not a whole number of values.
    SizeInvalid,
}

/// A zero-copy decoder over one segment: an immutable read-only memory
/// mapping of the segment's physical data region, plus the segment's
/// layout metadata. It validates name, type and bounds before any byte of
/// the mapping is read.
#[derive(Debug)]
pub struct ColumnDecoder {
    pub table: TableMetadata,
    pub data_map: Mmap,
}

impl ColumnDecoder {
    /// The mapped bytes this decoder serves slices of.
    pub closed spec fn map_view(self) -> Seq<u8> {
        mmap_bytes(self.data_map)
    }

    /// The byte range of column `c`'s values lies inside the mapping.
    pub open spec fn col_in_range(self, c: ColumnMetadata) -> bool {
        c.offset + c.length <= self.map_view().len()
    }

    /// The bytes of column `c`'s values.
    pub open spec fn col_bytes_spec(self, c: ColumnMetadata) -> Seq<u8> {
        self.map_view().subrange(c.offset as int, c.offset + c.length)
    }

    /// The byte range of column `c`'s null bitmask lies inside the mapping.
    pub open spec fn mask_in_range(self, c: ColumnMetadata) -> bool {
        c.null_mask_offset->0 + c.null_mask_length->0 <= self.map_view().len()
    }

    /// The bytes of column `c`'s null bitmask.
    pub open spec fn mask_bytes_spec(self, c: ColumnMetadata) -> Seq<u8> {
        self.map_view().subrange(
            c.null_mask_offset->0 as int,
            c.null_mask_offset->0 + c.null_mask_length->0,
        )
    }

    /// Wraps an already-created read-only mapping of a segment's data
    /// region together with the segment's layout metadata.
    pub fn new(data_map: Mmap, table: TableMetadata) -> (r: ColumnDecoder)
        ensures
            r.table == table,
            r.map_view() == mmap_bytes(data_map),
    {
        ColumnDecoder { table, data_map }
    }

    /// The raw mapped byte range of the named column: its recorded
    /// `[offset, offset + length)` slice, bounds-checked against the
    /// mapping before any slice is produced.
    pub fn get_column_bytes(&self, column_name: &String) -> (r: Option<&[u8]>)
        ensures
            match r {
                Some(s) => {
                    &&& self.table.has_col(column_name@)
                    &&& self.col_in_range(self.table.col_of(column_name@))
                    &&& s@ == self.col_bytes_spec(self.table.col_of(column_name@))
                },
                None => !self.table.has_col(column_name@) || !self.col_in_range(
                    self.table.col_of(column_name@),
                ),
            },
    {
        let col_meta = match self.table.find_column(column_name) {
            Some(c) => c,
            None => { return None; },
        };
        let map_len = map_len(&self.data_map);
        if col_meta.length > map_len || col_meta.offset > map_len - col_meta.length {
            return None;
        }
        Some(map_slice(&self.data_map, col_meta.offset, col_meta.offset + col_meta.length))
    }

    /// The null-bitmask byte range of column `c`, if the column has one
    /// and the range lies inside the mapping.
    fn get_mask_bytes(&self, col_meta: &ColumnMetadata) -> (r: Option<&[u8]>)
        ensures
            match r {
                Some(s) => {
                    &&& col_meta.has_null_mask()
                    &&& self.mask_in_range(*col_meta)
                    &&& s@ == self.mask_bytes_spec(*col_meta)
                },
                None => !col_meta.has_null_mask() || !self.mask_in_range(*col_meta),
            },
    {
        let start = match col_meta.null_mask_offset {
            Some(o) => o,
            None => { return None; },
        };
        let length = match col_meta.null_mask_length {
            Some(l) => l,
            None => { return None; },
        };
        let map_len = map_len(&self.data_map);
        if length > map_len || start > map_len - length {
            return None;
        }
        Some(map_slice(&self.data_map, start, start + length))
    }

    /// What a typed-slice request for column `name` must return: each
    /// validation step in order — name, declared type, bounds, size — and
    /// on success the chunked little-endian decode of the column's bytes.
    pub open spec fn column_slice_spec<T: ColumnTypeCheck + LeBytesCodec>(
        self,
        name: Seq<char>,
    ) -> Result<Seq<T>, ColumnDecodeError> {
        if !self.table.has_col(name) {
            Err(ColumnDecodeError::ColumnNotFound)
        } else {
            let c = self.table.col_of(name);
            if c.data_type != T::column_type_spec() {
                Err(
                    ColumnDecodeError::TypeMismatch {
                        required: T::column_type_spec(),
                        actual: c.data_type,
                    },
                )
            } else if !self.col_in_range(c) {
                Err(ColumnDecodeError::OutOfBounds)
            } else if c.length as int % T::width_spec() as int != 0 {
                Err(ColumnDecodeError::SizeInvalid)
            } else {
                Ok(col_decoded::<T>(self.col_bytes_spec(c)))
            }
        }
    }

    /// The typed values of the named column, decoded chunk by chunk from
    /// the mapped bytes after the declared type, the byte range and the
    /// size have been validated. A type mismatch reports both the required
    /// and the declared type and never returns data.
    pub fn get_column_as_slice<T: ColumnTypeCheck + LeBytesCodec>(
        &self,
        col_name: &String,
    ) -> (r: Result<Vec<T>, ColumnDecodeError>)
        ensures
            ({
                let expect = self.column_slice_spec::<T>(col_name@);
                match r {
                    Ok(vs) => expect is Ok && vs@ == expect->Ok_0,
                    Err(e) => expect is Err && e == expect->Err_0,
                }
            }),
    {
        let col_meta = match self.table.find_column(col_name) {
            Some(c) => c,
            None => { return Err(ColumnDecodeError::ColumnNotFound); },
        };
        let required = T::get_column_type();
        if col_meta.data_type != required {
            return Err(
                ColumnDecodeError::TypeMismatch { required, actual: col_meta.data_type },
            );
        }
        let map_len = map_len(&self.data_map);
        if col_meta.length > map_len || col_meta.offset > map_len - col_meta.length {
            return Err(ColumnDecodeError::OutOfBounds);
        }
        proof {
            T::lemma_width_positive();
        }
        let bw = T::byte_width();
        if col_meta.length % bw != 0 {
            return Err(ColumnDecodeError::SizeInvalid);
        }
        let bytes = map_slice(&self.data_map, col_meta.offset, col_meta.offset + col_meta.length);
        Ok(decode_column::<T>(bytes))
    }

    /// What a nullable-vector request for column `name` must return: the
    /// typed values as above, then one optional value per row, null where
    /// the column's bitmask bit is clear.
    pub open spec fn nullable_column_spec<T: ColumnTypeCheck + LeBytesCodec>(
        self,
        name: Seq<char>,
    ) -> Result<Seq<Option<T>>, ColumnDecodeError> {
        match self.column_slice_spec::<T>(name) {
            Err(e) => Err(e),
            Ok(vals) => {
                let c = self.table.col_of(name);
                if !c.has_null_mask() {
                    Err(ColumnDecodeError::MissingNullMask)
                } else if !self.mask_in_range(c) {
                    Err(ColumnDecodeError::OutOfBounds)
                } else {
                    Ok(
                        Seq::new(
                            vals.len(),
                            |i: int|
                                if bit_set_spec(self.mask_bytes_spec(c), i) {
                                    Some(vals[i])
                                } else {
                                    None
                                },
                        ),
                    )
                }
            },
        }
    }

    /// One optional value per row of the named column: rows whose presence
    /// bit is clear yield `None`, the others a copy of the decoded value.
    /// Fails if the column has no null bitmask.
    pub fn get_nullable_column_as_vec<T: ColumnTypeCheck + LeBytesCodec + Copy>(
        &self,
        col_name: &String,
    ) -> (r: Result<Vec<Option<T>>, ColumnDecodeError>)
        ensures
            ({
                let expect = self.nullable_column_spec::<T>(col_name@);
                match r {
                    Ok(vs) => expect is Ok && vs@ == expect->Ok_0,
                    Err(e) => expect is Err && e == expect->Err_0,
                }
            }),
    {
        let data = match self.get_column_as_slice::<T>(col_name) {
            Ok(d) => d,
            Err(e) => { return Err(e); },
        };
        let col_meta = match self.table.find_column(col_name) {
            Some(c) => c,
            None => { return Err(ColumnDecodeError::ColumnNotFound); },
        };
        let mask_bytes = match self.get_mask_bytes(col_meta) {
            Some(m) => m,
            None => {
                if col_meta.null_mask_offset.is_none() || col_meta.null_mask_length.is_none() {
                    return Err(ColumnDecodeError::MissingNullMask);
                }
                return Err(ColumnDecodeError::OutOfBounds);
            },
        };
        let n = data.len();
        let mut result_vec: Vec<Option<T>> = Vec::new();
        for idx in 0..n
            invariant
                n == data@.len(),
                result_vec@.len() == idx,
                forall|j: int|
                    0 <= j < idx ==> result_vec@[j] == (if bit_set_spec(mask_bytes@, j) {
                        Some(data@[j])
                    } else {
                        None::<T>
                    }),
        {
            if is_bit_set(mask_bytes, idx) {
                result_vec.push(Some(data[idx]));
            } else {
                result_vec.push(None);
            }
        }
        proof {
            let c = self.table.col_of(col_name@);
            assert(result_vec@ =~= Seq::new(
                data@.len(),
                |i: int|
                    if bit_set_spec(self.mask_bytes_spec(c), i) {
                        Some(data@[i])
                    } else {
                        None
                    },
            ));
        }
        Ok(result_vec)
    }
}

} // verus!
