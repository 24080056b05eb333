//! The binary viewshed payload sent to the browser.
//!
//! The payload is, in big-endian byte order: the number of angle subdivisions (`u32`); then,
//! when at least one row of polar segments was found, the longitude and latitude of the
//! biggest viewshed of the neighbourhood (each the bits of an `f32`); then each row of polar
//! segments as its angle ID (`u16`), the length of its segment blob (`u16`) and the blob.

use vstd::prelude::*;

verus! {

/// The two big-endian bytes of a `u16`.
pub open spec fn be_u16(v: u16) -> Seq<u8> {
    seq![(v / 0x100) as u8, (v % 0x100) as u8]
}

/// The four big-endian bytes of a `u32`.
pub open spec fn be_u32(v: u32) -> Seq<u8> {
    seq![
        (v / 0x100_0000) as u8,
        (v / 0x1_0000 % 0x100) as u8,
        (v / 0x100 % 0x100) as u8,
        (v % 0x100) as u8,
    ]
}

/// One row of polar segments: its angle ID and its blob of visible segments.
pub type SegmentRow = (u16, Seq<u8>);

/// The bytes of one row of polar segments.
pub open spec fn encode_row(row: SegmentRow) -> Seq<u8> {
    be_u16(row.0) + be_u16(row.1.len() as u16) + row.1
}

/// The bytes of the rows of polar segments, in order.
pub open spec fn encode_rows(rows: Seq<SegmentRow>) -> Seq<u8>
    decreases rows.len(),
{
    if rows.len() == 0 {
        Seq::empty()
    } else {
        encode_rows(rows.drop_last()) + encode_row(rows.last())
    }
}

/// The bytes of the location of the biggest viewshed, where one was added.
pub open spec fn encode_biggest(biggest: Option<(u32, u32)>) -> Seq<u8> {
    match biggest {
        Some((lon, lat)) => be_u32(lon) + be_u32(lat),
        None => Seq::empty(),
    }
}

/// What a payload holds.
pub struct PayloadModel {
    /// The number of angle subdivisions used.
    pub angle_subdivisions: u32,
    /// The bits of the `f32` longitude and latitude of the biggest viewshed, once a row was
    /// added.
    pub biggest: Option<(u32, u32)>,
    /// The rows of polar segments, in the order in which they were added.
    pub rows: Seq<SegmentRow>,
}

/// The bytes of a payload.
pub open spec fn encode_payload(m: PayloadModel) -> Seq<u8> {
    be_u32(m.angle_subdivisions) + encode_biggest(m.biggest) + encode_rows(m.rows)
}

/// The payload of a viewshed request, built row by row.
pub struct ViewshedPayload {
    bytes: Vec<u8>,
    angle_subdivisions: u32,
    biggest: Option<(u32, u32)>,
    rows: Ghost<Seq<SegmentRow>>,
}

/// Why a row of polar segments cannot be added to a payload.
#[derive(Debug, Clone, Copy, PartialEq, Eq)]
pub enum PayloadError {
    /// The blob of visible segments is longer than a `u16` can count.
    BlobTooLong,
}

impl View for ViewshedPayload {
    type V = PayloadModel;

    closed spec fn view(&self) -> PayloadModel {
        PayloadModel {
            angle_subdivisions: self.angle_subdivisions,
            biggest: self.biggest,
            rows: self.rows@,
        }
    }
}

/// The payload holds the biggest viewshed exactly when it holds a row, and each blob's
/// length fits in a `u16`.
pub open spec fn model_wf(m: PayloadModel) -> bool {
    &&& (m.biggest is Some <==> m.rows.len() > 0)
    &&& forall|i: int| 0 <= i < m.rows.len() ==> #[trigger] m.rows[i].1.len() <= u16::MAX
}

fn push_be_u16(out: &mut Vec<u8>, v: u16)
    ensures
        final(out)@ == old(out)@ + be_u16(v),
{
    out.push((v / 0x100) as u8);
    out.push((v % 0x100) as u8);
    assert(final(out)@ =~= old(out)@ + be_u16(v));
}

fn push_be_u32(out: &mut Vec<u8>, v: u32)
    ensures
        final(out)@ == old(out)@ + be_u32(v),
{
    out.push((v / 0x100_0000) as u8);
    out.push((v / 0x1_0000 % 0x100) as u8);
    out.push((v / 0x100 % 0x100) as u8);
    out.push((v % 0x100) as u8);
    assert(final(out)@ =~= old(out)@ + be_u32(v));
}

impl ViewshedPayload {
    /// The payload's bytes are the encoding of what it holds, and what it holds is
    /// consistent.
    pub closed spec fn wf(&self) -> bool {
        &&& model_wf(self@)
        &&& self.bytes@ == encode_payload(self@)
    }

    /// The bytes of the payload built so far.
    pub closed spec fn bytes(&self) -> Seq<u8> {
        self.bytes@
    }

    /// A payload that holds only the number of angle subdivisions.
    pub fn new(angle_subdivisions: u32) -> (p: Self)
        ensures
            p@.angle_subdivisions == angle_subdivisions,
            p@.biggest is None,
            p@.rows == Seq::<SegmentRow>::empty(),
            p.bytes() == be_u32(angle_subdivisions),
            p.wf(),
    {
        let mut bytes: Vec<u8> = Vec::with_capacity(1024 * 16);
        push_be_u32(&mut bytes, angle_subdivisions);
        assert(bytes@ =~= encode_payload(
            PayloadModel { angle_subdivisions, biggest: None, rows: Seq::empty() },
        ));
        ViewshedPayload { bytes, angle_subdivisions, biggest: None, rows: Ghost(Seq::empty()) }
    }

    /// Whether the location of the biggest viewshed has yet to be added, which it is with the
    /// first row.
    pub fn needs_biggest(&self) -> (r: bool)
        requires
            self.wf(),
        ensures
            r == (self@.biggest is None),
            r == (self@.rows.len() == 0),
    {
        self.biggest.is_none()
    }

    /// Add a row of polar segments. The first row also adds the location of the biggest
    /// viewshed, given as the bits of its `f32` longitude and latitude, before the row.
    pub fn push_row(&mut self, angle_id: u16, blob: &[u8], biggest: Option<(u32, u32)>) -> (r:
        Result<(), PayloadError>)
        requires
            old(self).wf(),
            biggest is Some <==> old(self)@.biggest is None,
        ensures
            blob@.len() > u16::MAX ==> r == Err::<(), PayloadError>(PayloadError::BlobTooLong)
                && final(self)@ == old(self)@,
            blob@.len() <= u16::MAX ==> r is Ok && final(self)@ == (PayloadModel {
                angle_subdivisions: old(self)@.angle_subdivisions,
                biggest: if old(self)@.biggest is None {
                    biggest
                } else {
                    old(self)@.biggest
                },
                rows: old(self)@.rows.push((angle_id, blob@)),
            }),
            final(self).wf(),
            final(self).bytes() == encode_payload(final(self)@),
    {
        if blob.len() > 0xffff {
            return Err(PayloadError::BlobTooLong);
        }
        let blob_length = blob.len() as u16;
        let ghost old_model = self@;
        let ghost row: SegmentRow = (angle_id, blob@);
        let mut new_biggest = self.biggest;
        if let Some((lon, lat)) = biggest {
            if self.biggest.is_none() {
                push_be_u32(&mut self.bytes, lon);
                push_be_u32(&mut self.bytes, lat);
                new_biggest = Some((lon, lat));
                proof {
                    assert(old_model.rows.len() == 0);
                    assert(encode_rows(old_model.rows) =~= Seq::empty());
                }
            }
        }
        assert(self.bytes@ =~= be_u32(old_model.angle_subdivisions) + encode_biggest(new_biggest)
            + encode_rows(old_model.rows));
        push_be_u16(&mut self.bytes, angle_id);
        push_be_u16(&mut self.bytes, blob_length);
        self.bytes.extend_from_slice(blob);
        let ghost new_rows = old_model.rows.push(row);
        proof {
            assert(new_rows.drop_last() =~= old_model.rows);
            assert(self.bytes@ =~= be_u32(old_model.angle_subdivisions) + encode_biggest(
                new_biggest,
            ) + encode_rows(new_rows));
            assert forall|i: int| 0 <= i < new_rows.len() implies #[trigger] new_rows[i].1.len()
                <= u16::MAX by {
                if i < old_model.rows.len() {
                    assert(new_rows[i] == old_model.rows[i]);
                }
            }
        }
        self.biggest = new_biggest;
        self.rows = Ghost(new_rows);
        Ok(())
    }

    /// The body of the response: `None` where the payload is empty, which never happens
    /// (see `lemma_payload_never_empty`).
    pub fn into_body(self) -> (r: Option<Vec<u8>>)
        requires
            self.wf(),
        ensures
            encode_payload(self@).len() == 0 ==> r is None,
            encode_payload(self@).len() > 0 ==> (r matches Some(b) && b@ == encode_payload(self@)),
    {
        if self.bytes.is_empty() {
            None
        } else {
            Some(self.bytes)
        }
    }
}

/// Every payload starts with the number of angle subdivisions, so none is empty.
pub proof fn lemma_payload_never_empty(m: PayloadModel)
    ensures
        encode_payload(m).len() >= 4,
        encode_payload(m).subrange(0, 4) == be_u32(m.angle_subdivisions),
{
    assert(encode_payload(m).subrange(0, 4) =~= be_u32(m.angle_subdivisions));
}


/// Adding a row only appends to the payload: the row's bytes, preceded, for the first row,
/// by the location of the biggest viewshed.
pub proof fn lemma_push_appends(m: PayloadModel, row: SegmentRow, biggest: Option<(u32, u32)>)
    requires
        model_wf(m),
        biggest is Some <==> m.biggest is None,
    ensures
        encode_payload(
            PayloadModel {
                angle_subdivisions: m.angle_subdivisions,
                biggest: if m.biggest is None {
                    biggest
                } else {
                    m.biggest
                },
                rows: m.rows.push(row),
            },
        ) == encode_payload(m) + encode_biggest(biggest) + encode_row(row),
{
    assert(m.rows.push(row).drop_last() =~= m.rows);
    let m2 = PayloadModel {
        angle_subdivisions: m.angle_subdivisions,
        biggest: if m.biggest is None {
            biggest
        } else {
            m.biggest
        },
        rows: m.rows.push(row),
    };
    if m.biggest is None {
        assert(encode_rows(m.rows) =~= Seq::empty());
        assert(encode_rows(m2.rows) =~= encode_row(row));
        assert(encode_payload(m2) =~= encode_payload(m) + encode_biggest(biggest) + encode_row(
            row,
        ));
    } else {
        assert(encode_payload(m2) =~= encode_payload(m) + encode_biggest(biggest) + encode_row(
            row,
        ));
    }
}


/// The `u16` of two big-endian bytes.
pub open spec fn u16_of(hi: u8, lo: u8) -> u16 {
    (hi * 0x100 + lo) as u16
}

/// The `u32` of four big-endian bytes.
pub open spec fn u32_of(b: Seq<u8>) -> u32 {
    (b[0] * 0x100_0000 + b[1] * 0x1_0000 + b[2] * 0x100 + b[3]) as u32
}

/// The rows of polar segments that `bytes` holds, read front to back, or `None` where
/// `bytes` does not split into rows.
pub open spec fn decode_rows(bytes: Seq<u8>) -> Option<Seq<SegmentRow>>
    decreases bytes.len(),
{
    if bytes.len() == 0 {
        Some(Seq::empty())
    } else if bytes.len() < 4 {
        None
    } else {
        let n = bytes[2] * 0x100 + bytes[3];
        if bytes.len() < 4 + n {
            None
        } else {
            match decode_rows(bytes.subrange(4 + n, bytes.len() as int)) {
                Some(rest) => Some(
                    seq![(u16_of(bytes[0], bytes[1]), bytes.subrange(4, 4 + n))] + rest,
                ),
                None => None,
            }
        }
    }
}

/// What a payload holds, read back from its bytes, or `None` where `bytes` is no payload.
pub open spec fn decode_payload(bytes: Seq<u8>) -> Option<PayloadModel> {
    if bytes.len() < 4 {
        None
    } else if bytes.len() == 4 {
        Some(
            PayloadModel {
                angle_subdivisions: u32_of(bytes),
                biggest: None,
                rows: Seq::empty(),
            },
        )
    } else if bytes.len() < 12 {
        None
    } else {
        match decode_rows(bytes.subrange(12, bytes.len() as int)) {
            Some(rows) => if rows.len() > 0 {
                Some(
                    PayloadModel {
                        angle_subdivisions: u32_of(bytes),
                        biggest: Some(
                            (u32_of(bytes.subrange(4, 8)), u32_of(bytes.subrange(8, 12))),
                        ),
                        rows,
                    },
                )
            } else {
                None
            },
            None => None,
        }
    }
}

proof fn lemma_be_u16_value(v: u16)
    ensures
        u16_of(be_u16(v)[0], be_u16(v)[1]) == v,
        be_u16(v)[0] * 0x100 + be_u16(v)[1] == v,
{
}

proof fn lemma_be_u32_value(v: u32)
    ensures
        u32_of(be_u32(v)) == v,
{
    let b = be_u32(v);
    assert(b[0] * 0x100_0000 + b[1] * 0x1_0000 + b[2] * 0x100 + b[3] == v) by (nonlinear_arith)
        requires
            b[0] == v / 0x100_0000,
            b[1] == v / 0x1_0000 % 0x100,
            b[2] == v / 0x100 % 0x100,
            b[3] == v % 0x100,
            0 <= v < 0x1_0000_0000,
    ;
}

proof fn lemma_encode_rows_front(row: SegmentRow, rest: Seq<SegmentRow>)
    ensures
        encode_rows(seq![row] + rest) == encode_row(row) + encode_rows(rest),
    decreases rest.len(),
{
    if rest.len() == 0 {
        assert(seq![row] + rest =~= seq![row]);
        assert(seq![row].drop_last() =~= Seq::<SegmentRow>::empty());
        assert(seq![row].last() == row);
        assert(encode_rows(Seq::<SegmentRow>::empty()) =~= Seq::empty());
        assert(encode_rows(seq![row]) =~= encode_row(row));
    } else {
        lemma_encode_rows_front(row, rest.drop_last());
        assert((seq![row] + rest).drop_last() =~= seq![row] + rest.drop_last());
        assert(encode_rows(seq![row] + rest) =~= encode_row(row) + encode_rows(rest));
    }
}

proof fn lemma_decode_rows(rows: Seq<SegmentRow>)
    requires
        forall|i: int| 0 <= i < rows.len() ==> #[trigger] rows[i].1.len() <= u16::MAX,
    ensures
        decode_rows(encode_rows(rows)) == Some(rows),
    decreases rows.len(),
{
    if rows.len() > 0 {
        let row = rows[0];
        let rest = rows.drop_first();
        assert(rows =~= seq![row] + rest);
        lemma_encode_rows_front(row, rest);
        assert forall|i: int| 0 <= i < rest.len() implies #[trigger] rest[i].1.len()
            <= u16::MAX by {
            assert(rest[i] == rows[i + 1]);
        }
        lemma_decode_rows(rest);
        let bytes = encode_rows(rows);
        let n: int = row.1.len() as int;
        assert(rows[0].1.len() <= u16::MAX);
        lemma_be_u16_value(row.0);
        lemma_be_u16_value(n as u16);
        assert(bytes[2] * 0x100 + bytes[3] == n);
        assert(bytes.subrange(4, 4 + n) =~= row.1);
        assert(bytes.subrange(4 + n, bytes.len() as int) =~= encode_rows(rest));
        assert(u16_of(bytes[0], bytes[1]) == row.0);
        assert(seq![(u16_of(bytes[0], bytes[1]), bytes.subrange(4, 4 + n))] + rest =~= rows);
    } else {
        assert(encode_rows(rows) =~= Seq::empty());
    }
}

proof fn lemma_encode_rows_len(rows: Seq<SegmentRow>)
    ensures
        rows.len() > 0 ==> encode_rows(rows).len() >= 4,
    decreases rows.len(),
{
    if rows.len() > 0 {
        lemma_encode_rows_len(rows.drop_last());
    }
}

/// A payload's bytes read back as what the payload holds: the format is unambiguous.
pub proof fn lemma_payload_decodes(m: PayloadModel)
    requires
        model_wf(m),
    ensures
        decode_payload(encode_payload(m)) == Some(m),
{
    let bytes = encode_payload(m);
    lemma_be_u32_value(m.angle_subdivisions);
    assert(bytes.subrange(0, 4) =~= be_u32(m.angle_subdivisions));
    assert(u32_of(bytes) == u32_of(be_u32(m.angle_subdivisions)));
    match m.biggest {
        None => {
            assert(encode_rows(m.rows) =~= Seq::empty());
            assert(bytes.len() == 4);
            assert(m.rows =~= Seq::empty());
        },
        Some((lon, lat)) => {
            lemma_encode_rows_len(m.rows);
            lemma_decode_rows(m.rows);
            lemma_be_u32_value(lon);
            lemma_be_u32_value(lat);
            assert(bytes.subrange(4, 8) =~= be_u32(lon));
            assert(bytes.subrange(8, 12) =~= be_u32(lat));
            assert(bytes.subrange(12, bytes.len() as int) =~= encode_rows(m.rows));
        },
    }
}

} // verus!
