use ashina::buffer::FetchOutcome;
use ashina::buffer::TrackBufferManager;
use ashina::manifest::Common;
use ashina::manifest::ConfigError;
use ashina::manifest::Representation;
use ashina::manifest::SegmentTemplate;
use ashina::manifest::Track;
use ashina::parse::ParseError;
use ashina::parse::SegmentMetadata;
use ashina::player::Error;

fn track_with(mime: Option<&str>, codecs: Option<&str>, template: Option<SegmentTemplate>) -> Track {
    Track::new(
        Representation {
            id: Some("v1".to_string()),
            bandwidth: None,
            width: None,
            height: None,
            common: Common {
                mime_type: mime.map(|s| s.to_string()),
                codecs: codecs.map(|s| s.to_string()),
                content_type: None,
                segment_template: template,
            },
        },
        Common { mime_type: None, codecs: None, content_type: None, segment_template: None },
    )
}

fn template(duration: Option<u64>, timescale: Option<u64>) -> SegmentTemplate {
    SegmentTemplate {
        initialization: Some("$RepresentationID$/init.mp4".to_string()),
        media: Some("$RepresentationID$/seg-$Number%04d$.m4s".to_string()),
        start_number: Some(1),
        timescale,
        duration,
    }
}

fn manager(duration: Option<u64>, timescale: Option<u64>) -> TrackBufferManager {
    TrackBufferManager::new(track_with(Some("video/mp4"), Some("avc1.64001f"), Some(template(duration, timescale))))
        .unwrap()
        .with_base_url("http://cdn.test/show".to_string())
}

fn be32(n: u32) -> Vec<u8> {
    n.to_be_bytes().to_vec()
}

fn boxed(kind: &[u8; 4], body: &[u8]) -> Vec<u8> {
    let mut out = be32(body.len() as u32 + 8);
    out.extend_from_slice(kind);
    out.extend_from_slice(body);
    out
}

fn segment(sequence: u32, timescale: u32, ept: u32, duration: u32) -> Vec<u8> {
    let mut sidx = vec![0u8, 0, 0, 0];
    sidx.extend(be32(1));
    sidx.extend(be32(timescale));
    sidx.extend(be32(ept));
    sidx.extend(be32(0));
    sidx.extend([0u8, 0, 0, 1]);
    sidx.extend(be32(0));
    sidx.extend(be32(duration));
    sidx.extend(be32(0));
    let mut mfhd = vec![0u8, 0, 0, 0];
    mfhd.extend(be32(sequence));
    let mut out = boxed(b"sidx", &sidx);
    out.extend(boxed(b"moof", &boxed(b"mfhd", &mfhd)));
    out
}

#[test]
fn a_track_without_mime_or_codecs_gets_no_manager() {
    assert_eq!(TrackBufferManager::new(track_with(None, Some("avc1"), None)).err(), Some(ConfigError::MissingMime));
    assert_eq!(TrackBufferManager::new(track_with(None, None, None)).err(), Some(ConfigError::MissingMime));
    assert_eq!(TrackBufferManager::new(track_with(Some("video/mp4"), None, None)).err(), Some(ConfigError::MissingCodecs));
}

#[test]
fn source_type_quotes_the_codecs() {
    let m = manager(Some(10), None);
    assert_eq!(m.source_type(), "video/mp4; codecs=\"avc1.64001f\"");
    assert_eq!(m.id(), "v1");
    assert_eq!(m.current_segment(), 0);
}

#[test]
fn init_segment_address() {
    let m = manager(Some(10), None);
    assert_eq!(m.fetch_init_segment(), Ok("http://cdn.test/show/v1/init.mp4".to_string()));
    let plain = TrackBufferManager::new(track_with(Some("video/mp4"), Some("avc1"), Some(template(None, None)))).unwrap();
    assert_eq!(plain.fetch_init_segment(), Ok("http://127.0.0.1//v1/init.mp4".to_string()));
    let bare = TrackBufferManager::new(track_with(Some("video/mp4"), Some("avc1"), None)).unwrap();
    assert_eq!(bare.fetch_init_segment(), Err(ConfigError::MissingSegmentTemplate));
}

#[test]
fn init_segment_refusal_is_fatal() {
    let mut m = manager(Some(10), None);
    assert_eq!(m.append_init_segment(Ok(())), Ok(()));
    assert_eq!(m.append_init_segment(Err("QuotaExceededError".to_string())), Err(Error::AppendFailed));
    assert_eq!(m.append_init_segment(Err("InvalidStateError".to_string())), Err(Error::AppendFailed));
}

#[test]
fn current_time_says_whether_the_time_is_buffered() {
    let mut m = manager(Some(10), None);
    let spans = vec![(0u64, 4000u64), (9000, 12000)];
    assert!(m.current_time(0, &spans));
    assert!(m.current_time(4000, &spans));
    assert!(!m.current_time(4001, &spans));
    assert!(m.is_buffering(&spans));
    assert!(m.current_time(9000, &spans));
    assert!(!m.is_buffering(&spans));
    assert!(!m.current_time(12001, &spans));
    assert!(!m.current_time(5, &vec![]));
    let set = m.buffered(&spans);
    assert!(set.contains(&10_000));
    assert!(!set.contains(&8_999));
}

#[test]
fn a_named_segment_is_asked_for_while_buffering() {
    let mut m = manager(Some(10), None);
    let spans = vec![(0u64, 4000u64)];
    assert!(!m.current_time(25_000, &spans));
    let request = m.fetch_segment(Some(17), &spans).unwrap();
    assert_eq!(request.segment, 17);
    assert_eq!(request.url, "http://cdn.test/show/v1/seg-0017.m4s");
}

#[test]
fn without_a_name_the_segment_is_estimated_from_the_time() {
    let mut m = manager(Some(10), None);
    assert!(!m.current_time(25_000, &vec![]));
    let request = m.fetch_segment(None, &vec![]).unwrap();
    assert_eq!(request.segment, 3);
    assert_eq!(request.url, "http://cdn.test/show/v1/seg-0003.m4s");

    assert_eq!(m.segment_for_ts(0), Ok(1));
    assert_eq!(m.segment_for_ts(9_999), Ok(1));
    assert_eq!(m.segment_for_ts(10_000), Ok(2));

    let ntsc = manager(Some(60_060), Some(30_000));
    assert_eq!(ntsc.segment_for_ts(2_001), Ok(1));
    assert_eq!(ntsc.segment_for_ts(2_002), Ok(2));
    assert_eq!(ntsc.segment_for_ts(4_003), Ok(2));
    assert_eq!(ntsc.segment_for_ts(4_004), Ok(3));

    let frozen = manager(Some(10), Some(0));
    assert_eq!(frozen.segment_for_ts(u64::MAX), Ok(1));
    let tiny = manager(Some(1), Some(u64::MAX));
    assert_eq!(tiny.segment_for_ts(u64::MAX), Ok(usize::MAX));
}

#[test]
fn no_estimate_without_a_segment_duration() {
    let mut m = manager(None, Some(1000));
    assert_eq!(m.segment_for_ts(5), Err(ConfigError::NoSegmentDuration));
    assert!(!m.current_time(5, &vec![]));
    assert_eq!(m.fetch_segment(None, &vec![]).err(), Some(ConfigError::NoSegmentDuration));
    assert_eq!(m.fetch_segment(Some(2), &vec![]).map(|r| r.segment), Ok(2));
    let zero = manager(Some(0), Some(1000));
    assert_eq!(zero.segment_for_ts(5), Err(ConfigError::NoSegmentDuration));
}

#[test]
fn while_buffered_the_next_segment_follows_the_last() {
    let mut m = manager(Some(10), None);
    let spans = vec![(0u64, 30_000u64)];
    assert!(m.current_time(25_000, &spans));
    let request = m.fetch_segment(Some(99), &spans).unwrap();
    assert_eq!(request.segment, 1);
    let meta = SegmentMetadata { segment_number: 7, earliest_presentation_time: 0, timescale: 1, total_duration: 1 };
    assert_eq!(m.segment_appended(meta, Ok(())), Ok(()));
    assert_eq!(m.current_segment(), 7);
    let request = m.fetch_segment(None, &spans).unwrap();
    assert_eq!(request.segment, 8);
    assert_eq!(request.url, "http://cdn.test/show/v1/seg-0008.m4s");
}

#[test]
fn a_track_without_media_template_cannot_ask() {
    let mut t = template(Some(10), None);
    t.media = None;
    let m = TrackBufferManager::new(track_with(Some("video/mp4"), Some("avc1"), Some(t))).unwrap();
    assert_eq!(m.fetch_segment(Some(1), &vec![]).err(), Some(ConfigError::MissingMedia));
}

#[test]
fn fetch_outcomes_are_told_apart() {
    assert_eq!(TrackBufferManager::receive(FetchOutcome::Failed), Err(Error::FetchError));
    assert_eq!(TrackBufferManager::receive(FetchOutcome::Response { status: 404, body: Some(vec![1]) }), Err(Error::HttpCode));
    assert_eq!(TrackBufferManager::receive(FetchOutcome::Response { status: 500, body: None }), Err(Error::HttpCode));
    assert_eq!(TrackBufferManager::receive(FetchOutcome::Response { status: 200, body: None }), Err(Error::DataError));
    assert_eq!(TrackBufferManager::receive(FetchOutcome::Response { status: 200, body: Some(vec![1, 2]) }), Ok(vec![1, 2]));
}

#[test]
fn a_segment_after_the_target_names_the_one_before() {
    let mut m = manager(Some(10), None);
    assert!(!m.current_time(5_000, &vec![]));
    let late = segment(9, 1000, 20_000, 10_000);
    assert_eq!(m.append_segment(&late, &vec![]), Err(Error::OutOfRange { next_segment: 8 }));
    let meta = SegmentMetadata::parse(&late).unwrap();
    assert_eq!(m.check_segment(meta, &vec![]), Err(Error::OutOfRange { next_segment: 8 }));
}

#[test]
fn a_segment_before_the_target_names_the_one_after() {
    let mut m = manager(Some(10), None);
    assert!(!m.current_time(45_000, &vec![]));
    let early = segment(9, 1000, 20_000, 10_000);
    assert_eq!(m.append_segment(&early, &vec![]), Err(Error::OutOfRange { next_segment: 10 }));
}

#[test]
fn a_segment_that_holds_the_target_goes_through() {
    let mut m = manager(Some(10), None);
    for t in [20_000u64, 25_000, 30_000] {
        assert!(!m.current_time(t, &vec![]));
        let meta = m.append_segment(&segment(9, 1000, 20_000, 10_000), &vec![]).unwrap();
        assert_eq!(meta.segment_number, 9);
    }
    assert!(!m.current_time(19_999, &vec![]));
    assert_eq!(m.append_segment(&segment(9, 1000, 20_000, 10_000), &vec![]), Err(Error::OutOfRange { next_segment: 8 }));
    assert!(!m.current_time(30_001, &vec![]));
    assert_eq!(m.append_segment(&segment(9, 1000, 20_000, 10_000), &vec![]), Err(Error::OutOfRange { next_segment: 10 }));
}

#[test]
fn the_range_is_not_checked_while_the_target_is_buffered() {
    let mut m = manager(Some(10), None);
    let spans = vec![(0u64, 6_000u64)];
    assert!(m.current_time(5_000, &spans));
    let far = segment(9, 1000, 20_000, 10_000);
    assert_eq!(m.append_segment(&far, &spans).map(|meta| meta.segment_number), Ok(9));
}

#[test]
fn segment_number_zero_has_none_before_it() {
    let mut m = manager(Some(10), None);
    assert!(!m.current_time(0, &vec![]));
    assert_eq!(m.append_segment(&segment(0, 1000, 20_000, 10_000), &vec![]), Err(Error::OutOfRange { next_segment: 0 }));
}

#[test]
fn bytes_without_timing_facts_are_refused() {
    let m = manager(Some(10), None);
    assert_eq!(m.append_segment(&[], &vec![]), Err(Error::InvalidSegment { reason: ParseError::MissingSidx }));
    assert_eq!(m.append_segment(&[0, 0, 0], &vec![]), Err(Error::InvalidSegment { reason: ParseError::Truncated }));
}

#[test]
fn sink_answers_to_a_segment() {
    let mut m = manager(Some(10), None);
    let meta = SegmentMetadata { segment_number: 4, earliest_presentation_time: 0, timescale: 1, total_duration: 1 };
    assert_eq!(m.segment_appended(meta, Err("QuotaExceededError".to_string())), Err(Error::QuotaExceededError));
    assert_eq!(m.current_segment(), 0);
    assert_eq!(m.segment_appended(meta, Err("InvalidStateError".to_string())), Err(Error::AppendFailed));
    assert_eq!(m.segment_appended(meta, Err(String::new())), Err(Error::AppendFailed));
    assert_eq!(m.current_segment(), 0);
    assert_eq!(m.segment_appended(meta, Ok(())), Ok(()));
    assert_eq!(m.current_segment(), 4);
}

#[test]
fn errors_say_what_went_wrong() {
    assert_eq!(Error::QuotaExceededError.message(), "Quota error");
    assert_eq!(Error::FetchError.message(), "Fetch error");
    assert_eq!(Error::DataError.message(), "Data error");
    assert_eq!(Error::HttpCode.message(), "Server returned non 200 code");
    assert_eq!(Error::OutOfRange { next_segment: 3 }.message(), "The given segment is out of range for our timestamp");
    assert!(!Error::InvalidSegment { reason: ParseError::Truncated }.message().is_empty());
    assert!(!Error::AppendFailed.message().is_empty());
    assert!(Error::AppendFailed.is_fatal());
    assert!(Error::InvalidSegment { reason: ParseError::MissingMoof }.is_fatal());
    assert!(!Error::QuotaExceededError.is_fatal());
    assert!(!Error::OutOfRange { next_segment: 1 }.is_fatal());
    assert!(!Error::FetchError.is_fatal());
    assert_eq!(Error::from_sink("QuotaExceededError"), Error::QuotaExceededError);
    assert_eq!(Error::from_sink("quotaexceedederror"), Error::AppendFailed);
}
