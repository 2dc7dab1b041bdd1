use ashina::manifest::AdaptationSet;
use ashina::manifest::Common;
use ashina::manifest::ConfigError;
use ashina::manifest::Manifest;
use ashina::manifest::Period;
use ashina::manifest::Representation;
use ashina::manifest::SegmentTemplate;
use ashina::manifest::TickSpan;
use ashina::manifest::Track;

fn text(s: &str) -> Option<String> {
    Some(s.to_string())
}

fn common(mime: Option<&str>, codecs: Option<&str>, content: Option<&str>, template: Option<SegmentTemplate>) -> Common {
    Common {
        mime_type: mime.map(|s| s.to_string()),
        codecs: codecs.map(|s| s.to_string()),
        content_type: content.map(|s| s.to_string()),
        segment_template: template,
    }
}

fn template(init: &str, media: &str, duration: Option<u64>, timescale: Option<u64>) -> SegmentTemplate {
    SegmentTemplate { initialization: text(init), media: text(media), start_number: Some(1), timescale, duration }
}

fn representation(id: &str, c: Common) -> Representation {
    Representation { id: text(id), bandwidth: Some(1000), width: Some(640), height: Some(360), common: c }
}

fn none() -> Common {
    common(None, None, None, None)
}

#[test]
fn tracks_come_in_the_order_of_the_manifest() {
    let manifest = Manifest::new(
        Some(60_000),
        vec![
            Period {
                adaptations: vec![
                    AdaptationSet {
                        common: common(Some("video/mp4"), None, None, None),
                        representations: vec![representation("v1", none()), representation("v2", none())],
                    },
                    AdaptationSet { common: none(), representations: vec![] },
                    AdaptationSet {
                        common: common(Some("audio/mp4"), None, None, None),
                        representations: vec![representation("a1", none())],
                    },
                ],
            },
            Period { adaptations: vec![] },
            Period {
                adaptations: vec![AdaptationSet {
                    common: common(Some("text/vtt"), None, None, None),
                    representations: vec![representation("t1", none())],
                }],
            },
        ],
    );
    assert_eq!(manifest.duration(), Some(60_000));
    let tracks = manifest.tracks();
    let ids: Vec<String> = tracks.iter().map(|t| t.id()).collect();
    assert_eq!(ids, vec!["v1", "v2", "a1", "t1"]);
    assert_eq!(tracks[0].mime(), Ok("video/mp4".to_string()));
    assert_eq!(tracks[2].mime(), Ok("audio/mp4".to_string()));
    assert!(tracks[0].is_video() && !tracks[0].is_audio());
    assert!(tracks[2].is_audio() && !tracks[2].is_video());
    assert!(!tracks[3].is_audio() && !tracks[3].is_video());
}

#[test]
fn a_manifest_without_periods_has_no_tracks() {
    let manifest = Manifest::new(None, vec![]);
    assert_eq!(manifest.duration(), None);
    assert!(manifest.tracks().is_empty());
}

#[test]
fn identifier_defaults_to_empty() {
    let track = Track::new(
        Representation { id: None, bandwidth: None, width: None, height: None, common: none() },
        none(),
    );
    assert_eq!(track.id(), "");
    assert_eq!(track.bitrate(), None);
    assert_eq!(track.width(), None);
    assert_eq!(track.height(), None);
    let track = Track::new(representation("r", none()), none());
    assert_eq!(track.id(), "r");
    assert_eq!(track.bitrate(), Some(1000));
    assert_eq!(track.width(), Some(640));
    assert_eq!(track.height(), Some(360));
}

#[test]
fn mime_and_content_type_ask_the_adaptation_set_first() {
    let track = Track::new(
        representation("r", common(Some("video/webm"), None, Some("video"), None)),
        common(Some("audio/mp4"), None, Some("audio"), None),
    );
    assert_eq!(track.mime(), Ok("audio/mp4".to_string()));
    assert_eq!(track.content_type(), Ok("audio".to_string()));
    assert!(track.is_audio());
    assert!(!track.is_video());

    let track = Track::new(representation("r", common(Some("video/webm"), None, Some("video"), None)), none());
    assert_eq!(track.mime(), Ok("video/webm".to_string()));
    assert_eq!(track.content_type(), Ok("video".to_string()));
    assert!(track.is_video());
}

#[test]
fn codecs_ask_the_representation_first() {
    let track = Track::new(representation("r", common(None, Some("avc1"), None, None)), common(None, Some("hev1"), None, None));
    assert_eq!(track.codecs(), Ok("avc1".to_string()));
    let track = Track::new(representation("r", none()), common(None, Some("hev1"), None, None));
    assert_eq!(track.codecs(), Ok("hev1".to_string()));
}

#[test]
fn missing_attributes_are_named() {
    let track = Track::new(representation("r", none()), none());
    assert_eq!(track.mime(), Err(ConfigError::MissingMime));
    assert_eq!(track.codecs(), Err(ConfigError::MissingCodecs));
    assert_eq!(track.content_type(), Err(ConfigError::MissingContentType));
    assert_eq!(track.initialization().err(), Some(ConfigError::MissingSegmentTemplate));
    assert_eq!(track.media().err(), Some(ConfigError::MissingSegmentTemplate));
    assert_eq!(track.start_number(), Err(ConfigError::MissingSegmentTemplate));
    assert_eq!(track.segment_duration(), None);
    assert!(track.segment_template().is_none());
    assert!(!track.is_video());
    assert!(!track.is_audio());

    let empty = SegmentTemplate { initialization: None, media: None, start_number: None, timescale: None, duration: None };
    let track = Track::new(representation("r", common(None, None, None, Some(empty))), none());
    assert_eq!(track.initialization().err(), Some(ConfigError::MissingInitialization));
    assert_eq!(track.media().err(), Some(ConfigError::MissingMedia));
    assert_eq!(track.start_number(), Err(ConfigError::MissingStartNumber));
    assert_eq!(track.segment_duration(), None);
}

#[test]
fn category_is_found_in_either_attribute() {
    let track = Track::new(representation("r", none()), common(Some("application/mp4"), None, Some("video"), None));
    assert!(track.is_video());
    let track = Track::new(representation("r", none()), common(Some("application/video-x"), None, Some("text"), None));
    assert!(track.is_video());
    let track = Track::new(representation("r", none()), common(None, None, Some("audio"), None));
    assert!(track.is_audio());
    let track = Track::new(representation("r", none()), common(Some("audio/video"), None, None, None));
    assert!(track.is_audio() && track.is_video());
    assert!(track.is_of("o/v"));
    assert!(track.is_of(""));
    assert!(!track.is_of("Audio"));
}

#[test]
fn the_template_of_the_representation_comes_first() {
    let track = Track::new(
        representation("r", common(None, None, None, Some(template("rep-init", "rep-$Number$", Some(4), Some(2))))),
        common(None, None, None, Some(template("set-init", "set-$Number$", Some(9), None))),
    );
    assert_eq!(track.initialization().unwrap().as_str(), "rep-init");
    assert_eq!(track.media().unwrap().as_str(), "rep-$Number$");
    assert_eq!(track.segment_duration(), Some(TickSpan { ticks: 4, timescale: 2 }));
    assert_eq!(track.start_number(), Ok(1));

    let track = Track::new(
        representation("r", none()),
        common(None, None, None, Some(template("set-init", "set-$Number$", Some(9), None))),
    );
    assert_eq!(track.initialization().unwrap().as_str(), "set-init");
    assert_eq!(track.media().unwrap().as_str(), "set-$Number$");
    assert_eq!(track.segment_duration(), Some(TickSpan { ticks: 9, timescale: 1 }));
}

#[test]
fn a_copy_says_the_same() {
    let track = Track::new(
        representation("r", common(Some("video/mp4"), Some("avc1"), None, Some(template("i", "m", Some(4), Some(2))))),
        common(None, None, Some("video"), None),
    );
    let copy = track.duplicate();
    assert_eq!(copy.id(), track.id());
    assert_eq!(copy.mime(), track.mime());
    assert_eq!(copy.codecs(), track.codecs());
    assert_eq!(copy.content_type(), track.content_type());
    assert_eq!(copy.segment_duration(), track.segment_duration());
    assert_eq!(copy.media().unwrap().as_str(), "m");
}
