//! The column codec: encodes and decodes a homogeneous sequence of
//! fixed-width values to and from a flat little-endian byte buffer.
//!
//! The physical column format is a flat sequence of fixed-width
//! little-endian values: no header, no length prefix, no magic number.

use vstd::prelude::*;

verus! {

/// A fixed-width value with a deterministic little-endian byte encoding.
///
/// Every implementation carries the laws the codec rests on: the width is
/// positive, every encoding has exactly that width, and decoding an encoded
/// value gives the value back.
pub trait LeBytesCodec: Sized {
    /// The fixed byte width of one encoded value.
    spec fn width_spec() -> nat;

    /// The encoded bytes of one value.
    spec fn encoded_spec(self) -> Seq<u8>;

    /// The value read back from one encoded chunk of `width_spec()` bytes.
    spec fn decoded_spec(s: Seq<u8>) -> Self;

    /// The width is positive: a column of `n` values occupies `n * width`
    /// bytes, and the row count of a buffer is its length divided by width.
    proof fn lemma_width_positive()
        ensures
            0 < Self::width_spec(),
    ;

    /// Every encoded value is exactly `width_spec()` bytes long.
    proof fn lemma_encoded_len(v: Self)
        ensures
            v.encoded_spec().len() == Self::width_spec(),
    ;

    /// Decoding inverts encoding.
    proof fn lemma_round_trip(v: Self)
        ensures
            Self::decoded_spec(v.encoded_spec()) == v,
    ;

    /// The byte width of one encoded value.
    fn byte_width() -> (w: usize)
        ensures
            w == Self::width_spec(),
    ;

    /// Encodes one value as `width_spec()` little-endian bytes.
    fn encode_le(value: &Self) -> (r: Vec<u8>)
        ensures
            r@ == value.encoded_spec(),
    ;

    /// Decodes one value from a chunk of exactly `width_spec()` bytes.
    fn decode_le(bytes: &[u8]) -> (r: Self)
        requires
            bytes@.len() == Self::width_spec(),
        ensures
            r == Self::decoded_spec(bytes@),
    ;
}

impl LeBytesCodec for u8 {
    open spec fn width_spec() -> nat {
        1
    }

    open spec fn encoded_spec(self) -> Seq<u8> {
        seq![self]
    }

    open spec fn decoded_spec(s: Seq<u8>) -> u8 {
        s[0]
    }

    proof fn lemma_width_positive() {
    }

    proof fn lemma_encoded_len(v: u8) {
    }

    proof fn lemma_round_trip(v: u8) {
        assert(v.encoded_spec()[0] == v);
    }

    fn byte_width() -> (w: usize)
        ensures
            w == Self::width_spec(),
    {
        1
    }

    fn encode_le(value: &u8) -> (r: Vec<u8>)
    {
        let r = vec![*value];
        assert(r@ =~= value.encoded_spec());
        r
    }

    fn decode_le(bytes: &[u8]) -> (r: u8)
    {
        bytes[0]
    }
}

impl LeBytesCodec for u32 {
    open spec fn width_spec() -> nat {
        4
    }

    open spec fn encoded_spec(self) -> Seq<u8> {
        seq![
            (self % 0x100) as u8,
            ((self / 0x100) % 0x100) as u8,
            ((self / 0x10000) % 0x100) as u8,
            ((self / 0x1000000) % 0x100) as u8,
        ]
    }

    open spec fn decoded_spec(s: Seq<u8>) -> u32 {
        (s[0] + s[1] * 0x100 + s[2] * 0x10000 + s[3] * 0x1000000) as u32
    }

    proof fn lemma_width_positive() {
    }

    proof fn lemma_encoded_len(v: u32) {
    }

    proof fn lemma_round_trip(v: u32) {
        assert(v % 0x100 + ((v / 0x100) % 0x100) * 0x100 + ((v / 0x10000) % 0x100) * 0x10000 + ((
        v / 0x1000000) % 0x100) * 0x1000000 == v) by (bit_vector);
    }

    fn byte_width() -> (w: usize)
        ensures
            w == Self::width_spec(),
    {
        4
    }

    fn encode_le(value: &u32) -> (r: Vec<u8>)
    {
        let v = *value;
        let r = vec![
            (v % 0x100) as u8,
            ((v / 0x100) % 0x100) as u8,
            ((v / 0x10000) % 0x100) as u8,
            ((v / 0x1000000) % 0x100) as u8,
        ];
        assert(r@ =~= value.encoded_spec());
        r
    }

    fn decode_le(bytes: &[u8]) -> (r: u32)
    {
        let b0 = bytes[0] as u32;
        let b1 = bytes[1] as u32;
        let b2 = bytes[2] as u32;
        let b3 = bytes[3] as u32;
        b0 + b1 * 0x100 + b2 * 0x10000 + b3 * 0x1000000
    }
}

impl LeBytesCodec for bool {
    open spec fn width_spec() -> nat {
        1
    }

    open spec fn encoded_spec(self) -> Seq<u8> {
        seq![if self { 1u8 } else { 0u8 }]
    }

    /// A zero byte reads back as `false`; any nonzero byte reads back as
    /// `true`.
    open spec fn decoded_spec(s: Seq<u8>) -> bool {
        s[0] != 0
    }

    proof fn lemma_width_positive() {
    }

    proof fn lemma_encoded_len(v: bool) {
    }

    proof fn lemma_round_trip(v: bool) {
        assert(v.encoded_spec()[0] == if v { 1u8 } else { 0u8 });
    }

    fn byte_width() -> (w: usize)
        ensures
            w == Self::width_spec(),
    {
        1
    }

    fn encode_le(value: &bool) -> (r: Vec<u8>)
    {
        let r = vec![if *value { 1u8 } else { 0u8 }];
        assert(r@ =~= value.encoded_spec());
        r
    }

    fn decode_le(bytes: &[u8]) -> (r: bool)
    {
        bytes[0] != 0
    }
}

/// The bytes of a whole column: each value encoded independently and placed
/// contiguously in input order.
pub open spec fn col_encoded<T: LeBytesCodec>(vs: Seq<T>) -> Seq<u8>
    decreases vs.len(),
{
    if vs.len() == 0 {
        Seq::empty()
    } else {
        vs[0].encoded_spec() + col_encoded(vs.drop_first())
    }
}

/// The values read back from a flat buffer: one per full chunk of
/// `width_spec()` bytes, a trailing partial chunk dropped by the integer
/// division of the item count.
pub open spec fn col_decoded<T: LeBytesCodec>(bytes: Seq<u8>) -> Seq<T> {
    Seq::new(
        (bytes.len() / T::width_spec()) as nat,
        |i: int|
            T::decoded_spec(
                bytes.subrange(i * T::width_spec(), i * T::width_spec() + T::width_spec()),
            ),
    )
}

/// A whole column occupies exactly `len * width` bytes.
pub proof fn lemma_col_encoded_len<T: LeBytesCodec>(vs: Seq<T>)
    ensures
        col_encoded(vs).len() == vs.len() * T::width_spec(),
    decreases vs.len(),
{
    if vs.len() == 0 {
    } else {
        T::lemma_encoded_len(vs[0]);
        lemma_col_encoded_len::<T>(vs.drop_first());
        assert(vs.len() * T::width_spec() == T::width_spec() + (vs.len() - 1) * T::width_spec())
            by (nonlinear_arith);
    }
}

/// Encoding distributes over concatenation: the bytes of `v1 ++ v2` are the
/// bytes of `v1` followed by the bytes of `v2`.
pub proof fn lemma_col_encoded_append<T: LeBytesCodec>(v1: Seq<T>, v2: Seq<T>)
    ensures
        col_encoded(v1 + v2) == col_encoded(v1) + col_encoded(v2),
    decreases v1.len(),
{
    if v1.len() == 0 {
        assert(v1 + v2 =~= v2);
        assert(col_encoded(v1) + col_encoded(v2) =~= col_encoded(v2));
    } else {
        assert((v1 + v2).drop_first() =~= v1.drop_first() + v2);
        lemma_col_encoded_append::<T>(v1.drop_first(), v2);
        assert(col_encoded(v1 + v2) =~= col_encoded(v1) + col_encoded(v2));
    }
}

/// Chunk `i` of an encoded column is the encoding of value `i`.
pub proof fn lemma_col_encoded_chunk<T: LeBytesCodec>(vs: Seq<T>, i: int)
    requires
        0 <= i < vs.len(),
    ensures
        col_encoded(vs).subrange(i * T::width_spec(), i * T::width_spec() + T::width_spec())
            == vs[i].encoded_spec(),
    decreases i,
{
    let w = T::width_spec() as int;
    T::lemma_width_positive();
    T::lemma_encoded_len(vs[0]);
    lemma_col_encoded_len::<T>(vs);
    lemma_col_encoded_len::<T>(vs.drop_first());
    assert(0 <= i * w && i * w + w <= vs.len() * w) by (nonlinear_arith)
        requires 0 < w && 0 <= i < vs.len();
    if i == 0 {
        assert(i * w == 0) by (nonlinear_arith)
            requires i == 0;
        assert(col_encoded(vs).subrange(0, w) =~= vs[0].encoded_spec());
        assert(col_encoded(vs).subrange(i * w, i * w + w) == vs[i].encoded_spec());
    } else {
        lemma_col_encoded_chunk::<T>(vs.drop_first(), i - 1);
        assert((i - 1) * w == i * w - w) by (nonlinear_arith);
        assert(col_encoded(vs).subrange(i * w, i * w + w) =~= col_encoded(
            vs.drop_first(),
        ).subrange((i - 1) * w, (i - 1) * w + w));
        assert(vs.drop_first()[i - 1] == vs[i]);
        assert(col_encoded(vs).subrange(i * w, i * w + w) == vs[i].encoded_spec());
    }
    assert(i * T::width_spec() == i * w && i * T::width_spec() + T::width_spec() == i * w + w);
    assert(col_encoded(vs).subrange(i * T::width_spec(), i * T::width_spec() + T::width_spec())
        == vs[i].encoded_spec());
}

/// Round-trip law: reading a whole column back gives exactly the values
/// that were written, for every representable length including zero.
pub proof fn lemma_column_round_trip<T: LeBytesCodec>(vs: Seq<T>)
    ensures
        col_decoded::<T>(col_encoded(vs)) == vs,
{
    let w = T::width_spec() as int;
    T::lemma_width_positive();
    lemma_col_encoded_len::<T>(vs);
    assert((vs.len() * w) / w == vs.len()) by (nonlinear_arith)
        requires 0 < w;
    assert forall|i: int| 0 <= i < vs.len() implies col_decoded::<T>(col_encoded(vs))[i] == vs[i] by {
        lemma_col_encoded_chunk::<T>(vs, i);
        T::lemma_round_trip(vs[i]);
    }
    assert(col_decoded::<T>(col_encoded(vs)) =~= vs);
}

/// Append law: the column read back from the bytes of `v1` followed by the
/// bytes of `v2` is `v1 ++ v2`.
pub proof fn lemma_column_append_round_trip<T: LeBytesCodec>(v1: Seq<T>, v2: Seq<T>)
    ensures
        col_decoded::<T>(col_encoded(v1) + col_encoded(v2)) == v1 + v2,
{
    lemma_col_encoded_append::<T>(v1, v2);
    lemma_column_round_trip::<T>(v1 + v2);
}

/// Encodes a whole column into one flat buffer, each value in input order.
pub fn encode_column<T: LeBytesCodec>(data: &[T]) -> (r: Vec<u8>)
    requires
        data@.len() * T::width_spec() <= usize::MAX,
    ensures
        r@ == col_encoded(data@),
{
    let ghost w = T::width_spec() as int;
    let mut out: Vec<u8> = Vec::new();
    let n = data.len();
    assert(col_encoded(data@.take(0)) =~= Seq::<u8>::empty());
    for i in 0..n
        invariant
            n == data@.len(),
            out@ == col_encoded(data@.take(i as int)),
    {
        let mut enc = T::encode_le(&data[i]);
        proof {
            assert(data@.take(i + 1).drop_last() =~= data@.take(i as int));
            lemma_col_encoded_snoc::<T>(data@.take(i + 1));
        }
        out.append(&mut enc);
    }
    assert(data@.take(n as int) =~= data@);
    out
}

/// Splitting the last value off a non-empty column splits its bytes.
proof fn lemma_col_encoded_snoc<T: LeBytesCodec>(vs: Seq<T>)
    requires
        0 < vs.len(),
    ensures
        col_encoded(vs) == col_encoded(vs.drop_last()) + vs.last().encoded_spec(),
{
    assert(vs =~= vs.drop_last() + seq![vs.last()]);
    lemma_col_encoded_append::<T>(vs.drop_last(), seq![vs.last()]);
    assert(seq![vs.last()].drop_first() =~= Seq::<T>::empty());
    assert(col_encoded(seq![vs.last()]) == vs.last().encoded_spec() + col_encoded(
        Seq::<T>::empty(),
    ));
    assert(col_encoded(seq![vs.last()]) =~= vs.last().encoded_spec());
}

/// Decodes every full chunk of a flat buffer, in order. A trailing partial
/// chunk is dropped by the integer division of the item count: the read is
/// non-validating by design.
pub fn decode_column<T: LeBytesCodec>(buf: &[u8]) -> (r: Vec<T>)
    ensures
        r@ == col_decoded::<T>(buf@),
{
    proof {
        T::lemma_width_positive();
    }
    let bw = T::byte_width();
    let item_count = buf.len() / bw;
    let mut result: Vec<T> = Vec::new();
    assert(item_count * bw <= buf.len() && 0 <= item_count) by (nonlinear_arith)
        requires 0 < bw && item_count == buf@.len() as int / bw as int;
    for i in 0..item_count
        invariant
            0 < T::width_spec() == bw,
            item_count == buf@.len() as int / bw as int,
            item_count * bw <= buf@.len() <= usize::MAX,
            result@.len() == i,
            forall|j: int| #![trigger result@[j]]
                0 <= j < i ==> result@[j] == col_decoded::<T>(buf@)[j],
    {
        assert(i * bw + bw <= item_count * bw) by (nonlinear_arith)
            requires 0 < bw && i < item_count;
        let start = i * bw;
        let chunk = vstd::slice::slice_subrange(buf, start, start + bw);
        let item = T::decode_le(chunk);
        result.push(item);
    }
    assert(result@ =~= col_decoded::<T>(buf@));
    result
}

/// Decodes exactly `rows` values from the front of a buffer, or reports
/// that the buffer holds fewer bytes than the requested rows need: no
/// partial result is produced.
pub fn read_plain_column_with_rows<T: LeBytesCodec>(bytes: &[u8], rows: usize) -> (r: Option<
    Vec<T>,
>)
    requires
        rows * T::width_spec() <= usize::MAX,
    ensures
        match r {
            Some(vs) => bytes@.len() >= rows * T::width_spec() && vs@ == col_decoded::<T>(
                bytes@.take((rows * T::width_spec()) as int),
            ) && vs@.len() == rows,
            None => bytes@.len() < rows * T::width_spec(),
        },
{
    proof {
        T::lemma_width_positive();
    }
    let bw = T::byte_width();
    let need = rows * bw;
    if bytes.len() < need {
        return None;
    }
    let front = vstd::slice::slice_subrange(bytes, 0, need);
    assert(front@ =~= bytes@.take(need as int));
    let out = decode_column::<T>(front);
    proof {
        assert((rows * bw) as int / bw as int == rows) by (nonlinear_arith)
            requires 0 < bw;
    }
    Some(out)
}

} // verus!
