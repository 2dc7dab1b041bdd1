use ashina::parse::ParseError;
use ashina::parse::SegmentMetadata;
use ashina::parse::SidxBox;

fn be32(n: u32) -> Vec<u8> {
    n.to_be_bytes().to_vec()
}

fn boxed(kind: &[u8; 4], body: &[u8]) -> Vec<u8> {
    let mut out = be32(body.len() as u32 + 8);
    out.extend_from_slice(kind);
    out.extend_from_slice(body);
    out
}

fn sidx_body_v0(timescale: u32, ept: u32, durations: &[u32]) -> Vec<u8> {
    let mut body = vec![0u8, 0, 0, 0];
    body.extend(be32(1));
    body.extend(be32(timescale));
    body.extend(be32(ept));
    body.extend(be32(0));
    body.extend([0u8, 0]);
    body.extend((durations.len() as u16).to_be_bytes());
    for d in durations {
        body.extend(be32(0x0000_1000));
        body.extend(be32(*d));
        body.extend(be32(0x9000_0000));
    }
    body
}

fn sidx_body_v1(timescale: u32, ept: u64, first_offset: u64, durations: &[u32]) -> Vec<u8> {
    let mut body = vec![1u8, 0, 0, 5];
    body.extend(be32(9));
    body.extend(be32(timescale));
    body.extend(ept.to_be_bytes());
    body.extend(first_offset.to_be_bytes());
    body.extend([0u8, 0]);
    body.extend((durations.len() as u16).to_be_bytes());
    for d in durations {
        body.extend(be32(1));
        body.extend(be32(*d));
        body.extend(be32(2));
    }
    body
}

fn moof(sequence: u32) -> Vec<u8> {
    let mut mfhd = vec![0u8, 0, 0, 0];
    mfhd.extend(be32(sequence));
    boxed(b"moof", &boxed(b"mfhd", &mfhd))
}

#[test]
fn two_references_of_500_ticks_at_timescale_1000() {
    let body = sidx_body_v0(1000, 0, &[500, 500]);
    let sidx = SidxBox::read_box(&body, 0).unwrap();
    assert_eq!(sidx.version(), 0);
    assert_eq!(sidx.timescale(), 1000);
    assert_eq!(sidx.subseg_durations(), &vec![500, 500]);
    assert_eq!(sidx.total_duration(), 1000);
    assert_eq!(sidx.get_size(), 8 + body.len() as u64);

    let mut segment = boxed(b"sidx", &body);
    segment.extend(moof(3));
    let meta = SegmentMetadata::parse(&segment).unwrap();
    assert_eq!(meta.total_duration, 1000);
    assert_eq!(meta.duration(), Some(1000));
    assert_eq!(meta.pts(), Some(0));
    assert_eq!(meta.segment_number(), 3);
}

#[test]
fn version_one_reads_wide_fields() {
    let body = sidx_body_v1(90_000, 0x1_0000_0000, 77, &[1, 2, 3]);
    let sidx = SidxBox::read_box(&body, 0).unwrap();
    assert_eq!(sidx.version(), 1);
    assert_eq!(sidx.flags(), 5);
    assert_eq!(sidx.reference_id(), 9);
    assert_eq!(sidx.timescale(), 90_000);
    assert_eq!(sidx.earliest_presentation_time(), 0x1_0000_0000);
    assert_eq!(sidx.first_offset(), 77);
    assert_eq!(sidx.total_duration(), 6);
    assert_eq!(sidx.get_size(), 8 + 32 + 36);
}

#[test]
fn sidx_read_from_an_offset() {
    let mut data = vec![0xAAu8; 5];
    data.extend(sidx_body_v0(48_000, 96_000, &[48_000]));
    let sidx = SidxBox::read_box(&data, 5).unwrap();
    assert_eq!(sidx.earliest_presentation_time(), 96_000);
    assert_eq!(sidx.total_duration(), 48_000);
}

#[test]
fn sidx_cut_short_is_truncated() {
    let body = sidx_body_v0(1000, 0, &[500, 500]);
    for cut in 0..body.len() {
        assert_eq!(SidxBox::read_box(&body[..cut], 0).err(), Some(ParseError::Truncated), "cut {}", cut);
    }
    assert_eq!(SidxBox::read_box(&body, body.len()).err(), Some(ParseError::Truncated));
    assert_eq!(SidxBox::read_box(&body, body.len() + 9).err(), Some(ParseError::Truncated));
}

#[test]
fn other_boxes_are_skipped() {
    let mut segment = boxed(b"styp", &[1, 2, 3, 4, 5]);
    segment.extend(boxed(b"sidx", &sidx_body_v0(1000, 4000, &[2000])));
    segment.extend(boxed(b"free", &[]));
    segment.extend(moof(9));
    segment.extend(boxed(b"mdat", &[0u8; 32]));
    let meta = SegmentMetadata::parse(&segment).unwrap();
    assert_eq!(
        meta,
        SegmentMetadata { segment_number: 9, earliest_presentation_time: 4000, timescale: 1000, total_duration: 2000 }
    );
    assert_eq!(meta.pts(), Some(4000));
    assert_eq!(meta.duration(), Some(2000));
}

#[test]
fn the_last_index_and_fragment_win() {
    let mut segment = boxed(b"sidx", &sidx_body_v0(1000, 1, &[10]));
    segment.extend(moof(1));
    segment.extend(boxed(b"sidx", &sidx_body_v0(500, 2, &[20, 30])));
    segment.extend(moof(2));
    let meta = SegmentMetadata::parse(&segment).unwrap();
    assert_eq!(
        meta,
        SegmentMetadata { segment_number: 2, earliest_presentation_time: 2, timescale: 500, total_duration: 50 }
    );
}

#[test]
fn long_form_header() {
    let body = sidx_body_v0(1000, 0, &[250]);
    let mut segment = be32(1);
    segment.extend_from_slice(b"sidx");
    segment.extend((body.len() as u64 + 16).to_be_bytes());
    segment.extend(&body);
    segment.extend(moof(4));
    let meta = SegmentMetadata::parse(&segment).unwrap();
    assert_eq!(meta.total_duration, 250);
    assert_eq!(meta.segment_number, 4);
}

#[test]
fn missing_boxes() {
    assert_eq!(SegmentMetadata::parse(&[]).err(), Some(ParseError::MissingSidx));
    assert_eq!(SegmentMetadata::parse(&moof(1)).err(), Some(ParseError::MissingSidx));
    let only_sidx = boxed(b"sidx", &sidx_body_v0(1000, 0, &[1]));
    assert_eq!(SegmentMetadata::parse(&only_sidx).err(), Some(ParseError::MissingMoof));
    let only_other = boxed(b"mdat", &[1, 2, 3]);
    assert_eq!(SegmentMetadata::parse(&only_other).err(), Some(ParseError::MissingSidx));
}

#[test]
fn truncated_segments() {
    let mut segment = boxed(b"sidx", &sidx_body_v0(1000, 0, &[500, 500]));
    segment.extend(moof(3));
    for cut in 1..segment.len() {
        assert_eq!(SegmentMetadata::parse(&segment[..cut]).err().is_some(), true, "cut {}", cut);
    }
    assert_eq!(SegmentMetadata::parse(&segment[..3]).err(), Some(ParseError::Truncated));
    assert_eq!(SegmentMetadata::parse(&segment[..20]).err(), Some(ParseError::Truncated));
    let mut long = be32(1);
    long.extend_from_slice(b"free");
    long.extend([0u8; 4]);
    assert_eq!(SegmentMetadata::parse(&long).err(), Some(ParseError::Truncated));
}

#[test]
fn sizes_below_the_header() {
    for size in [0u32, 2, 7] {
        let mut data = be32(size);
        data.extend_from_slice(b"free");
        data.extend([0u8; 16]);
        assert_eq!(SegmentMetadata::parse(&data).err(), Some(ParseError::BadBoxSize), "size {}", size);
    }
    for large in [0u64, 1, 15] {
        let mut data = be32(1);
        data.extend_from_slice(b"free");
        data.extend(large.to_be_bytes());
        data.extend([0u8; 16]);
        assert_eq!(SegmentMetadata::parse(&data).err(), Some(ParseError::BadBoxSize), "large {}", large);
    }
}

#[test]
fn fragment_with_a_child_that_does_not_advance() {
    let mut child = be32(0);
    child.extend_from_slice(b"abcd");
    let mut segment = boxed(b"sidx", &sidx_body_v0(1000, 0, &[1]));
    segment.extend(boxed(b"moof", &child));
    assert_eq!(SegmentMetadata::parse(&segment).err(), Some(ParseError::BadBoxSize));

    let mut traf = boxed(b"tfhd", &[0, 0, 0, 0, 0, 0, 0, 1]);
    traf.extend(&child);
    let mut mfhd = vec![0u8, 0, 0, 0];
    mfhd.extend(be32(5));
    let mut inner = boxed(b"mfhd", &mfhd);
    inner.extend(boxed(b"traf", &traf));
    let mut segment = boxed(b"sidx", &sidx_body_v0(1000, 0, &[1]));
    segment.extend(boxed(b"moof", &inner));
    assert_eq!(SegmentMetadata::parse(&segment).err(), Some(ParseError::BadBoxSize));
}

#[test]
fn fragment_with_a_track_fragment() {
    let traf = boxed(b"tfhd", &[0, 0, 0, 0, 0, 0, 0, 1]);
    let mut mfhd = vec![0u8, 0, 0, 0];
    mfhd.extend(be32(5));
    let mut inner = boxed(b"mfhd", &mfhd);
    inner.extend(boxed(b"traf", &traf));
    let mut segment = boxed(b"sidx", &sidx_body_v0(1000, 0, &[1]));
    segment.extend(boxed(b"moof", &inner));
    assert_eq!(SegmentMetadata::parse(&segment).map(|m| m.segment_number), Ok(5));
}

#[test]
fn fragment_without_its_header_box_is_rejected() {
    let mut segment = boxed(b"sidx", &sidx_body_v0(1000, 0, &[1]));
    segment.extend(boxed(b"moof", &boxed(b"free", &[0u8; 4])));
    assert_eq!(SegmentMetadata::parse(&segment).err(), Some(ParseError::BadFragment));
}

#[test]
fn from_boxes_wants_both() {
    let body = sidx_body_v0(1000, 30, &[5, 6]);
    assert_eq!(SegmentMetadata::from_boxes(None, Some(1)).err(), Some(ParseError::MissingSidx));
    assert_eq!(SegmentMetadata::from_boxes(None, None).err(), Some(ParseError::MissingSidx));
    let sidx = SidxBox::read_box(&body, 0).unwrap();
    assert_eq!(SegmentMetadata::from_boxes(Some(sidx), None).err(), Some(ParseError::MissingMoof));
    let sidx = SidxBox::read_box(&body, 0).unwrap();
    assert_eq!(
        SegmentMetadata::from_boxes(Some(sidx), Some(8)),
        Ok(SegmentMetadata { segment_number: 8, earliest_presentation_time: 30, timescale: 1000, total_duration: 11 })
    );
}

#[test]
fn derived_times() {
    let meta = SegmentMetadata { segment_number: 1, earliest_presentation_time: 90_001, timescale: 90_000, total_duration: 45_000 };
    assert_eq!(meta.pts(), Some(1000));
    assert_eq!(meta.duration(), Some(500));
    assert!(meta.is_after(1000));
    assert!(!meta.is_after(1001));
    assert!(!meta.contains(1000));
    assert!(meta.contains(1001));
    assert!(meta.contains(1500));
    assert!(!meta.contains(1501));

    let zero = SegmentMetadata { segment_number: 1, earliest_presentation_time: 5, timescale: 0, total_duration: 5 };
    assert_eq!(zero.pts(), None);
    assert_eq!(zero.duration(), None);
    assert!(zero.is_after(u64::MAX));
    assert!(!zero.contains(0));

    let huge = SegmentMetadata { segment_number: 1, earliest_presentation_time: u64::MAX, timescale: 1, total_duration: u64::MAX };
    assert_eq!(huge.pts(), None);
    assert_eq!(huge.duration(), None);
    assert!(huge.is_after(u64::MAX / 1000));
    assert!(!huge.contains(u64::MAX));
    assert!(huge.contains(0) == false);
}
