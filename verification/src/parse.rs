//! Timing facts of one fetched media segment, read from its boxes.
//!
//! A segment is a run of boxes, each led by a header that gives its size and
//! its four-byte kind. Two kinds matter here: the segment index, which this
//! module reads field by field, and the movie fragment, whose sequence number
//! the mp4 crate reads. Every other box is stepped over by its declared size.

use byteorder::BigEndian;
use byteorder::ByteOrder;
use mp4::ReadBox;
use vstd::prelude::*;

verus! {

/// The kind of a segment index box, `sidx`.
pub const SIDX_BOX: u32 = 0x73696478;

/// The kind of a movie fragment box, `moof`.
pub const MOOF_BOX: u32 = 0x6d6f6f66;

/// The kind of a track fragment box, `traf`, which holds boxes of its own.
pub const TRAF_BOX: u32 = 0x74726166;

/// The bytes of a box header in its short form.
pub const HEADER_SIZE: u64 = 8;

/// The bytes of the version and flags that lead a full box.
pub const HEADER_EXT_SIZE: u64 = 4;

/// The most entries a segment index can announce in its 16-bit count.
pub const MAX_REFERENCES: usize = 0xFFFF;

/// The big-endian number in the two bytes of `data` from `at`.
pub open spec fn be16(data: Seq<u8>, at: int) -> int {
    data[at] * 0x100 + data[at + 1]
}

/// The big-endian number in the three bytes of `data` from `at`.
pub open spec fn be24(data: Seq<u8>, at: int) -> int {
    data[at] * 0x1_0000 + be16(data, at + 1)
}

/// The big-endian number in the four bytes of `data` from `at`.
pub open spec fn be32(data: Seq<u8>, at: int) -> int {
    be16(data, at) * 0x1_0000 + be16(data, at + 2)
}

/// The big-endian number in the eight bytes of `data` from `at`.
pub open spec fn be64(data: Seq<u8>, at: int) -> int {
    be32(data, at) * 0x1_0000_0000 + be32(data, at + 4)
}

/// `byteorder::BigEndian::read_u16` on the bytes from `at`: not proved here,
/// the contract says that it reads two bytes as a big-endian number.
#[verifier::external_body]
fn read_be16(data: &[u8], at: usize) -> (value: u16)
    requires
        at + 2 <= data@.len(),
    ensures
        value == be16(data@, at as int),
{
    BigEndian::read_u16(&data[at..])
}

/// `byteorder::BigEndian::read_u24` on the bytes from `at`: not proved here,
/// the contract says that it reads three bytes as a big-endian number.
#[verifier::external_body]
fn read_be24(data: &[u8], at: usize) -> (value: u32)
    requires
        at + 3 <= data@.len(),
    ensures
        value == be24(data@, at as int),
{
    BigEndian::read_u24(&data[at..])
}

/// `byteorder::BigEndian::read_u32` on the bytes from `at`: not proved here,
/// the contract says that it reads four bytes as a big-endian number.
#[verifier::external_body]
fn read_be32(data: &[u8], at: usize) -> (value: u32)
    requires
        at + 4 <= data@.len(),
    ensures
        value == be32(data@, at as int),
{
    BigEndian::read_u32(&data[at..])
}

/// `byteorder::BigEndian::read_u64` on the bytes from `at`: not proved here,
/// the contract says that it reads eight bytes as a big-endian number.
#[verifier::external_body]
fn read_be64(data: &[u8], at: usize) -> (value: u64)
    requires
        at + 8 <= data@.len(),
    ensures
        value == be64(data@, at as int),
{
    BigEndian::read_u64(&data[at..])
}

/// Why a segment's bytes gave no timing facts.
#[derive(Clone, Copy, Debug, PartialEq, Eq, Structural)]
pub enum ParseError {
    /// The buffer ends inside a box: in its header, before its declared end,
    /// or before the last field of a segment index.
    Truncated,
    /// A box declares a size smaller than its own header.
    BadBoxSize,
    /// The movie fragment was found and its contents were rejected.
    BadFragment,
    /// The scan reached the end without a segment index box.
    MissingSidx,
    /// The scan reached the end without a movie fragment box.
    MissingMoof,
}

/// What a box header says: the kind, and the size with which the box's end is
/// found.
#[derive(Clone, Copy, Debug, PartialEq, Eq, Structural)]
pub struct BoxHead {
    pub kind: u32,
    pub size: u64,
}

/// The bytes that the header at `at` takes: 16 where the 32-bit size field
/// holds 1 and a 64-bit size follows the kind, else 8.
pub open spec fn head_len(data: Seq<u8>, at: int) -> int {
    if be32(data, at) == 1 {
        16
    } else {
        8
    }
}

/// The header that starts at `at`, if `data` holds one. In the long form the
/// size is the 64-bit size less 8, so that in both forms the box ends `size`
/// bytes after the point 8 bytes before its body. A long form whose 64-bit
/// size is 1 to 15 is no header; one of 0 gives size 0.
pub open spec fn head_at(data: Seq<u8>, at: int) -> Option<BoxHead> {
    if at + 8 > data.len() {
        None
    } else if be32(data, at) != 1 {
        Some(BoxHead { kind: be32(data, at + 4) as u32, size: be32(data, at) as u64 })
    } else if at + 16 > data.len() {
        None
    } else if be64(data, at + 8) == 0 {
        Some(BoxHead { kind: be32(data, at + 4) as u32, size: 0 })
    } else if be64(data, at + 8) < 16 {
        None
    } else {
        Some(BoxHead { kind: be32(data, at + 4) as u32, size: (be64(data, at + 8) - 8) as u64 })
    }
}

/// Where the body of the box at `at` starts.
pub open spec fn body_at(data: Seq<u8>, at: int) -> int {
    at + head_len(data, at)
}

/// Where the box at `at` ends, given the size that its header reports.
pub open spec fn end_at(data: Seq<u8>, at: int, size: u64) -> int {
    body_at(data, at) - 8 + size
}

/// `mp4::BoxHeader::read` on the bytes from `at`: not proved here. The
/// contract says that it succeeds exactly where `head_at` finds a header, and
/// then gives that header's kind, as the number it was read from, and size.
#[verifier::external_body]
fn read_head(data: &[u8], at: usize) -> (head: Option<BoxHead>)
    requires
        at <= data@.len(),
    ensures
        head == head_at(data@, at as int),
{
    let mut reader = std::io::Cursor::new(&data[at..]);
    match mp4::BoxHeader::read(&mut reader) {
        Ok(header) => Some(BoxHead { kind: u32::from(header.name), size: header.size }),
        Err(_) => None,
    }
}

/// The sequence number that `mp4::MoofBox::read_box` finds in the movie
/// fragment of `size` whose body starts at `body` in `data`, or `None` where
/// it rejects the fragment.
pub uninterp spec fn moof_sequence(data: Seq<u8>, body: u64, size: u64) -> Option<u32>;

/// `mp4::MoofBox::read_box` with the reader placed at `body`: not proved
/// here. The contract names what it returns and says nothing more of it. The
/// reader steps from box to box by the sizes the boxes declare, inside the
/// fragment and inside each track fragment in it, so the call is made only
/// where every such step moves forward.
#[verifier::external_body]
fn read_moof(data: &[u8], body: u64, size: u64) -> (sequence: Option<u32>)
    requires
        8 <= body <= data@.len(),
        body - 8 + size <= data@.len(),
        steps_forward(data@, body as int, body - 8 + size, size, true),
    ensures
        sequence == moof_sequence(data@, body, size),
{
    let mut reader = std::io::Cursor::new(data);
    reader.set_position(body);
    match mp4::MoofBox::read_box(&mut reader, size) {
        Ok(moof) => Some(moof.mfhd.sequence_number),
        Err(_) => None,
    }
}

/// A walk from `at` to `end` moves forward at every step: each header that
/// can be read, and that declares no more than `limit`, declares at least the
/// 8 bytes of a header. With `deep`, a track fragment met on the way is walked
/// through in its turn, up to its own end and with its own size as the limit.
pub open spec fn steps_forward(data: Seq<u8>, at: int, end: int, limit: u64, deep: bool) -> bool
    decreases (if deep { 1int } else { 0int }), (if at < end { end - at } else { 0 }),
{
    if at >= end {
        true
    } else {
        match head_at(data, at) {
            None => true,
            Some(h) => if h.size > limit {
                true
            } else if h.size < 8 {
                false
            } else if deep && h.kind == TRAF_BOX && !steps_forward(
                data,
                body_at(data, at),
                end_at(data, at, h.size),
                h.size,
                false,
            ) {
                false
            } else {
                steps_forward(data, end_at(data, at, h.size), end, limit, deep)
            },
        }
    }
}

/// Says whether a walk from `from` to `end` moves forward at every step.
fn check_steps(data: &[u8], from: usize, end: u128, limit: u64, deep: bool) -> (forward: bool)
    requires
        from <= data@.len(),
    ensures
        forward == steps_forward(data@, from as int, end as int, limit, deep),
    decreases (if deep { 1int } else { 0int }),
{
    let len: usize = data.len();
    let mut at: usize = from;
    while (at as u128) < end
        invariant
            len == data@.len(),
            at <= len,
            steps_forward(data@, from as int, end as int, limit, deep) == steps_forward(
                data@,
                at as int,
                end as int,
                limit,
                deep,
            ),
        decreases end - at,
    {
        let head = match read_head(data, at) {
            Some(head) => head,
            None => {
                return true;
            },
        };
        if head.size > limit {
            return true;
        }
        if head.size < 8 {
            return false;
        }
        assert(head_at(data@, at as int) == Some(head));
        let long = read_be32(data, at) == 1;
        let body: usize = if long {
            at + 16
        } else {
            at + 8
        };
        let next: u128 = (body - 8) as u128 + head.size as u128;
        assert(body == body_at(data@, at as int));
        assert(next == end_at(data@, at as int, head.size));
        if deep && head.kind == TRAF_BOX && !check_steps(data, body, next, head.size, false) {
            return false;
        }
        if next >= end || next > len as u128 {
            assert(steps_forward(data@, next as int, end as int, limit, deep));
            return true;
        }
        at = next as usize;
    }
    true
}

/// A segment index as a mathematical value.
pub struct SidxFields {
    pub version: u8,
    pub flags: u32,
    pub reference_id: u32,
    pub timescale: u32,
    pub earliest_presentation_time: u64,
    pub first_offset: u64,
    pub subseg_durations: Seq<u32>,
}

/// The sum of `durations`.
pub open spec fn total(durations: Seq<u32>) -> nat
    decreases durations.len(),
{
    if durations.len() == 0 {
        0
    } else {
        total(durations.drop_last()) + durations.last() as nat
    }
}

/// The bytes of a segment index body before its entries: 24 with 32-bit time
/// and offset fields (version 0), 32 with 64-bit ones (any other version).
pub open spec fn sidx_fixed_len(data: Seq<u8>, body: int) -> int {
    if data[body] == 0 {
        24
    } else {
        32
    }
}

/// The number of entries that the segment index body at `body` announces.
pub open spec fn sidx_count(data: Seq<u8>, body: int) -> int {
    be16(data, body + sidx_fixed_len(data, body) - 2)
}

/// The bytes of the segment index body at `body`, entries included.
pub open spec fn sidx_len(data: Seq<u8>, body: int) -> int {
    sidx_fixed_len(data, body) + 12 * sidx_count(data, body)
}

/// `data` holds every field of the segment index body at `body`.
pub open spec fn sidx_fits(data: Seq<u8>, body: int) -> bool {
    &&& 0 <= body < data.len()
    &&& body + sidx_fixed_len(data, body) <= data.len()
    &&& body + sidx_len(data, body) <= data.len()
}

/// The fields of the segment index body at `body`: version, flags, reference
/// id and timescale, then the earliest presentation time and the first
/// offset in the width that the version calls for, two reserved bytes, the
/// entry count, and of each entry of 12 bytes the duration in its middle.
pub open spec fn sidx_fields(data: Seq<u8>, body: int) -> SidxFields {
    let wide = data[body] != 0;
    let entries = body + sidx_fixed_len(data, body);
    SidxFields {
        version: data[body],
        flags: be24(data, body + 1) as u32,
        reference_id: be32(data, body + 4) as u32,
        timescale: be32(data, body + 8) as u32,
        earliest_presentation_time: if wide {
            be64(data, body + 12) as u64
        } else {
            be32(data, body + 12) as u64
        },
        first_offset: if wide {
            be64(data, body + 20) as u64
        } else {
            be32(data, body + 16) as u64
        },
        subseg_durations: Seq::new(
            sidx_count(data, body) as nat,
            |i: int| be32(data, entries + 12 * i + 4) as u32,
        ),
    }
}

/// The segment index whose body starts at `body`, if `data` holds all of it.
pub open spec fn sidx_at(data: Seq<u8>, body: int) -> Option<SidxFields> {
    if sidx_fits(data, body) {
        Some(sidx_fields(data, body))
    } else {
        None
    }
}

impl SidxFields {
    /// The bytes that the box takes when written out, header included.
    pub open spec fn size(self) -> int {
        HEADER_SIZE + HEADER_EXT_SIZE + 4 + 8 + (if self.version == 0 {
            8int
        } else {
            16int
        }) + 12 * self.subseg_durations.len()
    }
}

/// A segment index box: where a segment starts on its track's timeline, and
/// how long each of its sub-segments lasts, in ticks of its timescale.
#[derive(Debug)]
pub struct SidxBox {
    version: u8,
    flags: u32,
    reference_id: u32,
    timescale: u32,
    earliest_presentation_time: u64,
    first_offset: u64,
    subseg_durations: Vec<u32>,
}

impl View for SidxBox {
    type V = SidxFields;

    closed spec fn view(&self) -> SidxFields {
        SidxFields {
            version: self.version,
            flags: self.flags,
            reference_id: self.reference_id,
            timescale: self.timescale,
            earliest_presentation_time: self.earliest_presentation_time,
            first_offset: self.first_offset,
            subseg_durations: self.subseg_durations@,
        }
    }
}

/// The sum of `n` durations is at most `n` times the largest duration.
proof fn lemma_total_bound(durations: Seq<u32>)
    ensures
        total(durations) <= durations.len() * 0xFFFF_FFFF,
    decreases durations.len(),
{
    if durations.len() > 0 {
        lemma_total_bound(durations.drop_last());
    }
}

impl SidxBox {
    /// No box holds more entries than its 16-bit count can announce.
    #[verifier::type_invariant]
    spec fn well_formed(self) -> bool {
        self.subseg_durations@.len() <= MAX_REFERENCES
    }

    /// Reads the body of a segment index box that starts at `body`. The
    /// fields are taken from the buffer up to its end; the box's declared
    /// size plays no part. Fails exactly where the buffer ends before the
    /// last field.
    pub fn read_box(data: &[u8], body: usize) -> (read: Result<SidxBox, ParseError>)
        ensures
            match read {
                Ok(sidx) => sidx_at(data@, body as int) == Some(sidx@) && sidx@.size()
                    == HEADER_SIZE + sidx_len(data@, body as int),
                Err(e) => e == ParseError::Truncated && sidx_at(data@, body as int) is None,
            },
    {
        let len: usize = data.len();
        if body >= len {
            return Err(ParseError::Truncated);
        }
        let version: u8 = data[body];
        let fixed: usize = if version == 0 {
            24
        } else {
            32
        };
        if len - body < fixed {
            return Err(ParseError::Truncated);
        }
        let flags: u32 = read_be24(data, body + 1);
        let reference_id: u32 = read_be32(data, body + 4);
        let timescale: u32 = read_be32(data, body + 8);
        let earliest_presentation_time: u64 = if version == 0 {
            read_be32(data, body + 12) as u64
        } else {
            read_be64(data, body + 12)
        };
        let first_offset: u64 = if version == 0 {
            read_be32(data, body + 16) as u64
        } else {
            read_be64(data, body + 20)
        };
        let count: usize = read_be16(data, body + fixed - 2) as usize;
        if (len - body - fixed) / 12 < count {
            return Err(ParseError::Truncated);
        }
        let entries: usize = body + fixed;
        let ghost want = sidx_fields(data@, body as int).subseg_durations;
        let mut subseg_durations: Vec<u32> = Vec::new();
        let mut idx: usize = 0;
        while idx < count
            invariant
                len == data@.len(),
                idx <= count <= MAX_REFERENCES,
                entries + 12 * count <= len,
                want.len() == count,
                forall|i: int|
                    0 <= i < count ==> #[trigger] want[i] == be32(
                        data@,
                        entries + 12 * i + 4,
                    ) as u32,
                subseg_durations@ == want.take(idx as int),
            decreases count - idx,
        {
            let duration: u32 = read_be32(data, entries + 12 * idx + 4);
            subseg_durations.push(duration);
            idx += 1;
            assert(subseg_durations@ =~= want.take(idx as int));
        }
        assert(subseg_durations@ =~= want);
        let sidx = SidxBox {
            version,
            flags,
            reference_id,
            timescale,
            earliest_presentation_time,
            first_offset,
            subseg_durations,
        };
        assert(sidx@ == sidx_fields(data@, body as int));
        Ok(sidx)
    }

    /// The sum of the sub-segment durations, in ticks.
    pub fn total_duration(&self) -> (sum: u64)
        ensures
            sum == total(self@.subseg_durations),
    {
        proof {
            use_type_invariant(self);
        }
        let mut sum: u64 = 0;
        let mut idx: usize = 0;
        while idx < self.subseg_durations.len()
            invariant
                idx <= self.subseg_durations@.len() <= MAX_REFERENCES,
                sum == total(self.subseg_durations@.take(idx as int)),
                sum <= idx * 0xFFFF_FFFF,
            decreases self.subseg_durations@.len() - idx,
        {
            proof {
                let upto = self.subseg_durations@.take(idx + 1);
                assert(upto.drop_last() =~= self.subseg_durations@.take(idx as int));
                lemma_total_bound(upto);
            }
            sum = sum + self.subseg_durations[idx] as u64;
            idx += 1;
        }
        assert(self.subseg_durations@.take(idx as int) =~= self.subseg_durations@);
        sum
    }

    /// The bytes that the box takes when written out, header included.
    pub fn get_size(&self) -> (size: u64)
        ensures
            size == self@.size(),
    {
        proof {
            use_type_invariant(self);
        }
        let sub_hdr_sz: u64 = match self.version {
            0 => 8,
            _ => 16,
        };
        HEADER_SIZE + HEADER_EXT_SIZE + 4 + 8 + sub_hdr_sz + (self.subseg_durations.len() as u64
            * 12)
    }

    /// The version byte: 0 where time and offset were read as 32-bit fields.
    pub fn version(&self) -> (version: u8)
        ensures
            version == self@.version,
    {
        self.version
    }

    /// The flags that follow the version.
    pub fn flags(&self) -> (flags: u32)
        ensures
            flags == self@.flags,
    {
        self.flags
    }

    /// The stream that the index refers to.
    pub fn reference_id(&self) -> (id: u32)
        ensures
            id == self@.reference_id,
    {
        self.reference_id
    }

    /// Ticks per second.
    pub fn timescale(&self) -> (timescale: u32)
        ensures
            timescale == self@.timescale,
    {
        self.timescale
    }

    /// Where the segment starts, in ticks.
    pub fn earliest_presentation_time(&self) -> (ticks: u64)
        ensures
            ticks == self@.earliest_presentation_time,
    {
        self.earliest_presentation_time
    }

    /// The distance in bytes from the box's end to the first byte it indexes.
    pub fn first_offset(&self) -> (offset: u64)
        ensures
            offset == self@.first_offset,
    {
        self.first_offset
    }

    /// The duration of each sub-segment, in ticks, in the order of the entries.
    pub fn subseg_durations(&self) -> (durations: &Vec<u32>)
        ensures
            durations@ == self@.subseg_durations,
            durations@.len() <= MAX_REFERENCES,
    {
        proof {
            use_type_invariant(self);
        }
        &self.subseg_durations
    }
}

/// What a scan has found so far: the last segment index it passed, and the
/// sequence number of the last movie fragment.
pub struct Found {
    pub sidx: Option<SidxFields>,
    pub sequence: Option<u32>,
}

/// The buffer ends inside the header that starts at `at`.
pub open spec fn head_cut(data: Seq<u8>, at: int) -> bool {
    at + 8 > data.len() || (be32(data, at) == 1 && at + 16 > data.len())
}

/// The scan of `data` from `at` on, box after box, to the end of the buffer.
/// A box must lie in the buffer whole and declare at least its header's
/// size. A segment index or a movie fragment replaces one found before.
pub open spec fn scan(data: Seq<u8>, at: int, found: Found) -> Result<Found, ParseError>
    decreases (if at < data.len() { data.len() - at } else { 0 }),
{
    if at >= data.len() {
        Ok(found)
    } else {
        match head_at(data, at) {
            None => Err(
                if head_cut(data, at) {
                    ParseError::Truncated
                } else {
                    ParseError::BadBoxSize
                },
            ),
            Some(h) => {
                let body = body_at(data, at);
                let end = end_at(data, at, h.size);
                if h.size < 8 {
                    Err(ParseError::BadBoxSize)
                } else if end > data.len() {
                    Err(ParseError::Truncated)
                } else if h.kind == SIDX_BOX {
                    match sidx_at(data, body) {
                        None => Err(ParseError::Truncated),
                        Some(sidx) => scan(
                            data,
                            end,
                            Found { sidx: Some(sidx), sequence: found.sequence },
                        ),
                    }
                } else if h.kind == MOOF_BOX {
                    if !steps_forward(data, body, end, h.size, true) {
                        Err(ParseError::BadBoxSize)
                    } else {
                        match moof_sequence(data, body as u64, h.size) {
                            None => Err(ParseError::BadFragment),
                            Some(n) => scan(
                                data,
                                end,
                                Found { sidx: found.sidx, sequence: Some(n) },
                            ),
                        }
                    }
                } else {
                    scan(data, end, found)
                }
            },
        }
    }
}

/// The timing facts that a segment index and a fragment's sequence number
/// give together.
pub open spec fn metadata_of(sidx: SidxFields, sequence: u32) -> SegmentMetadata {
    SegmentMetadata {
        segment_number: sequence as usize,
        earliest_presentation_time: sidx.earliest_presentation_time,
        timescale: sidx.timescale,
        total_duration: total(sidx.subseg_durations) as u64,
    }
}

/// What a finished scan amounts to: a segment without an index is refused
/// first, then one without a fragment.
pub open spec fn assemble(found: Found) -> Result<SegmentMetadata, ParseError> {
    match (found.sidx, found.sequence) {
        (None, _) => Err(ParseError::MissingSidx),
        (Some(_), None) => Err(ParseError::MissingMoof),
        (Some(sidx), Some(n)) => Ok(metadata_of(sidx, n)),
    }
}

/// The timing facts of the segment in `data`, or why it has none.
pub open spec fn segment_of(data: Seq<u8>) -> Result<SegmentMetadata, ParseError> {
    match scan(data, 0, Found { sidx: None, sequence: None }) {
        Err(e) => Err(e),
        Ok(found) => assemble(found),
    }
}

/// The view of a segment index that may be absent.
pub open spec fn fields_of(sidx: Option<SidxBox>) -> Option<SidxFields> {
    match sidx {
        None => None,
        Some(sidx) => Some(sidx@),
    }
}

/// A time in milliseconds times a timescale: the time in thousandths of a
/// tick.
fn scaled(millis: u64, timescale: u32) -> (product: u128)
    ensures
        product == millis * timescale,
{
    assert(millis * timescale <= 0xFFFF_FFFF_FFFF_FFFF * 0xFFFF_FFFF) by (nonlinear_arith)
        requires
            millis <= 0xFFFF_FFFF_FFFF_FFFF,
            timescale <= 0xFFFF_FFFF,
    ;
    millis as u128 * timescale as u128
}

/// The timing facts of one media segment, in ticks of the segment's own
/// timescale.
#[derive(Clone, Copy, Debug, PartialEq, Eq, Structural)]
pub struct SegmentMetadata {
    /// The sequence number of the segment's movie fragment.
    pub segment_number: usize,
    /// Where the segment starts, in ticks.
    pub earliest_presentation_time: u64,
    /// Ticks per second.
    pub timescale: u32,
    /// How long the segment lasts, in ticks.
    pub total_duration: u64,
}

impl SegmentMetadata {
    /// Scans the boxes of a segment and returns its timing facts. Fails
    /// where the buffer ends inside a box, where a box's size is less than
    /// its header's, where the fragment is rejected, and where the index or
    /// the fragment is missing at the end.
    pub fn parse(data: &[u8]) -> (parsed: Result<Self, ParseError>)
        ensures
            parsed == segment_of(data@),
    {
        let len: usize = data.len();
        let mut at: usize = 0;
        let mut sidx: Option<SidxBox> = None;
        let mut sequence: Option<u32> = None;
        let ghost start = Found { sidx: None, sequence: None };
        while at < len
            invariant
                len == data@.len(),
                at <= len,
                start == (Found { sidx: None, sequence: None }),
                scan(data@, 0, start) == scan(
                    data@,
                    at as int,
                    Found { sidx: fields_of(sidx), sequence },
                ),
            decreases len - at,
        {
            let head = match read_head(data, at) {
                Some(head) => head,
                None => {
                    if len - at < 8 || (read_be32(data, at) == 1 && len - at < 16) {
                        return Err(ParseError::Truncated);
                    }
                    return Err(ParseError::BadBoxSize);
                },
            };
            assert(head_at(data@, at as int) == Some(head));
            if head.size < 8 {
                return Err(ParseError::BadBoxSize);
            }
            let body: usize = if read_be32(data, at) == 1 {
                at + 16
            } else {
                at + 8
            };
            assert(body == body_at(data@, at as int));
            if head.size - 8 > (len - body) as u64 {
                return Err(ParseError::Truncated);
            }
            let end: usize = body + (head.size - 8) as usize;
            assert(end == end_at(data@, at as int, head.size));
            if head.kind == SIDX_BOX {
                match SidxBox::read_box(data, body) {
                    Ok(read) => {
                        sidx = Some(read);
                    },
                    Err(e) => {
                        return Err(e);
                    },
                }
            } else if head.kind == MOOF_BOX {
                if !check_steps(data, body, end as u128, head.size, true) {
                    return Err(ParseError::BadBoxSize);
                }
                match read_moof(data, body as u64, head.size) {
                    Some(n) => {
                        sequence = Some(n);
                    },
                    None => {
                        return Err(ParseError::BadFragment);
                    },
                }
            }
            at = end;
        }
        Self::from_boxes(sidx, sequence)
    }

    /// The timing facts that the boxes found in a segment give: refuses a
    /// segment without an index first, then one without a fragment.
    pub fn from_boxes(sidx: Option<SidxBox>, sequence: Option<u32>) -> (made: Result<
        Self,
        ParseError,
    >)
        ensures
            made == assemble(Found { sidx: fields_of(sidx), sequence }),
    {
        match sidx {
            None => Err(ParseError::MissingSidx),
            Some(sidx) => match sequence {
                None => Err(ParseError::MissingMoof),
                Some(n) => Ok(
                    SegmentMetadata {
                        segment_number: n as usize,
                        earliest_presentation_time: sidx.earliest_presentation_time(),
                        timescale: sidx.timescale(),
                        total_duration: sidx.total_duration(),
                    },
                ),
            },
        }
    }

    /// The segment's start in milliseconds, rounded down; defined where the
    /// timescale is not zero.
    pub open spec fn pts_millis(self) -> int {
        self.earliest_presentation_time * 1000 / (self.timescale as int)
    }

    /// The segment's length in milliseconds, rounded down; defined where the
    /// timescale is not zero.
    pub open spec fn duration_millis(self) -> int {
        self.total_duration * 1000 / (self.timescale as int)
    }

    /// The time `millis` lies before the segment's start. Times are compared
    /// as fractions, without rounding: `millis / 1000` seconds against
    /// `earliest_presentation_time / timescale` seconds.
    pub open spec fn starts_after(self, millis: u64) -> bool {
        millis * self.timescale < self.earliest_presentation_time * 1000
    }

    /// The time `millis` lies in the closed range from the segment's start to
    /// its start plus its length, compared as fractions.
    pub open spec fn spans(self, millis: u64) -> bool {
        &&& self.earliest_presentation_time * 1000 <= millis * self.timescale
        &&& millis * self.timescale <= (self.earliest_presentation_time + self.total_duration)
            * 1000
    }

    /// The segment's start in whole milliseconds, where the timescale is not
    /// zero and the result fits.
    pub fn pts(&self) -> (millis: Option<u64>)
        ensures
            millis is Some <==> self.timescale != 0 && self.pts_millis() <= u64::MAX,
            millis matches Some(m) ==> m == self.pts_millis(),
    {
        if self.timescale == 0 {
            return None;
        }
        let whole: u128 = self.earliest_presentation_time as u128 * 1000 / self.timescale as u128;
        if whole > u64::MAX as u128 {
            None
        } else {
            Some(whole as u64)
        }
    }

    /// The segment's length in whole milliseconds, where the timescale is
    /// not zero and the result fits.
    pub fn duration(&self) -> (millis: Option<u64>)
        ensures
            millis is Some <==> self.timescale != 0 && self.duration_millis() <= u64::MAX,
            millis matches Some(m) ==> m == self.duration_millis(),
    {
        if self.timescale == 0 {
            return None;
        }
        let whole: u128 = self.total_duration as u128 * 1000 / self.timescale as u128;
        if whole > u64::MAX as u128 {
            None
        } else {
            Some(whole as u64)
        }
    }

    /// Whether `millis` lies before the segment's start.
    pub fn is_after(&self, millis: u64) -> (after: bool)
        ensures
            after == self.starts_after(millis),
    {
        let target: u128 = scaled(millis, self.timescale);
        target < self.earliest_presentation_time as u128 * 1000
    }

    /// Whether `millis` lies in the segment's range, ends included.
    pub fn contains(&self, millis: u64) -> (inside: bool)
        ensures
            inside == self.spans(millis),
    {
        let target: u128 = scaled(millis, self.timescale);
        let start: u128 = self.earliest_presentation_time as u128 * 1000;
        let end: u128 = (self.earliest_presentation_time as u128 + self.total_duration as u128)
            * 1000;
        start <= target && target <= end
    }

    /// The sequence number of the segment.
    pub fn segment_number(&self) -> (number: usize)
        ensures
            number == self.segment_number,
    {
        self.segment_number
    }
}

} // verus!
