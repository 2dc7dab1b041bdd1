//! The buffer of one track: what the sink holds of it, and which segment to
//! ask for next.

use crate::manifest::ConfigError;
use crate::manifest::TickSpan;
use crate::manifest::Track;
use crate::manifest::TrackView;
use crate::parse::segment_of;
use crate::parse::ParseError;
use crate::parse::SegmentMetadata;
use crate::player::Error;
use crate::range::covered;
use crate::range::NRangeInclusive;
use crate::template::decimal;
use crate::template::resolved;
use core::ops::RangeInclusive;
use vstd::prelude::*;
use vstd::std_specs::range::ContainsSpec;
use vstd::string::StringExecFns;

verus! {

/// `time` lies in one of `spans`, each a pair of a start and an end, both
/// included.
pub open spec fn in_spans(spans: Seq<(u64, u64)>, time: u64) -> bool {
    exists|i: int| 0 <= i < spans.len() && (#[trigger] spans[i]).0 <= time <= spans[i].1
}

/// The set of the ranges that `spans` describe.
pub fn ranges_of(spans: &Vec<(u64, u64)>) -> (set: NRangeInclusive<u64>)
    ensures
        set@.len() == spans@.len(),
        forall|i: int|
            0 <= i < spans@.len() ==> (#[trigger] set@[i])@.start == spans@[i].0 && set@[i]@.end
                == spans@[i].1 && !set@[i]@.exhausted,
        forall|time: u64| covered(set@, time) == in_spans(spans@, time),
{
    let mut set: NRangeInclusive<u64> = NRangeInclusive::new();
    let mut idx: usize = 0;
    while idx < spans.len()
        invariant
            idx <= spans@.len(),
            set@.len() == idx,
            forall|i: int|
                0 <= i < idx ==> (#[trigger] set@[i])@.start == spans@[i].0 && set@[i]@.end
                    == spans@[i].1 && !set@[i]@.exhausted,
        decreases spans@.len() - idx,
    {
        let span = spans[idx];
        set.push(RangeInclusive::new(span.0, span.1));
        idx += 1;
    }
    assert forall|time: u64| covered(set@, time) == in_spans(spans@, time) by {
        if covered(set@, time) {
            let i = choose|i: int| 0 <= i < set@.len() && (#[trigger] set@[i]).contains_spec(&time);
            assert(spans@[i].0 <= time <= spans@[i].1);
        }
        if in_spans(spans@, time) {
            let i = choose|i: int|
                0 <= i < spans@.len() && (#[trigger] spans@[i]).0 <= time <= spans@[i].1;
            assert(set@[i].contains_spec(&time));
        }
    }
    set
}

/// How a request for a segment ended, as the transport saw it.
#[derive(Debug)]
pub enum FetchOutcome {
    /// No response came.
    Failed,
    /// A response came with this status; `body` holds its bytes, or nothing
    /// where they could not be read.
    Response { status: u16, body: Option<Vec<u8>> },
}

/// The bytes of a fetched segment, or the error that the fetch amounts to:
/// no response, a status other than 200, a body that could not be read, in
/// this order.
pub open spec fn fetched(outcome: FetchOutcome) -> Result<Seq<u8>, Error> {
    match outcome {
        FetchOutcome::Failed => Err(Error::FetchError),
        FetchOutcome::Response { status, body } => if status != 200 {
            Err(Error::HttpCode)
        } else {
            match body {
                None => Err(Error::DataError),
                Some(bytes) => Ok(bytes@),
            }
        },
    }
}

/// The number as a segment number: the largest one where it is too large.
pub open spec fn clip(n: int) -> usize {
    if n > usize::MAX {
        usize::MAX
    } else {
        n as usize
    }
}

/// The segment that holds `time`, a time in milliseconds, where every
/// segment lasts `span` and the first one has number 1: the whole segments
/// before `time`, plus one.
pub open spec fn estimate(time: u64, span: TickSpan) -> int {
    time * span.timescale / (1000 * span.ticks) + 1
}

/// The number after `segment`.
pub open spec fn after(segment: usize) -> usize {
    clip(segment + 1)
}

/// The number before `segment`; 0 has none and stays.
pub open spec fn before(segment: usize) -> usize {
    if segment == 0 {
        0
    } else {
        (segment - 1) as usize
    }
}

/// The type that the sink is told for a track: the MIME type, and the codec
/// string in quotes.
pub open spec fn source_type_of(mime: Seq<char>, codecs: Seq<char>) -> Seq<char> {
    mime + "; codecs=\""@ + codecs + "\""@
}

/// What asking for a segment comes to: its number and its address.
#[derive(Debug)]
pub struct SegmentRequest {
    pub segment: usize,
    pub url: String,
}

/// A track's buffer manager as a mathematical value.
pub struct ManagerView {
    pub base_url: Seq<char>,
    pub track: TrackView,
    pub current_segment: usize,
    pub current_time: u64,
}

impl ManagerView {
    /// The playback target lies in none of the spans that the sink holds.
    pub open spec fn is_buffering(self, spans: Seq<(u64, u64)>) -> bool {
        !in_spans(spans, self.current_time)
    }

    /// The address of `path` below the base.
    pub open spec fn segment_path(self, path: Seq<char>) -> Seq<char> {
        self.base_url + seq!['/'] + path
    }

    /// The segment to ask for. While buffering it is the one named, or else
    /// the one that the playback target falls in by the track's segment
    /// duration, which must then be known and not zero. Otherwise it is the
    /// one after the last segment appended.
    pub open spec fn target(self, segment_id: Option<usize>, spans: Seq<(u64, u64)>) -> Result<
        usize,
        ConfigError,
    > {
        if self.is_buffering(spans) {
            match segment_id {
                Some(id) => Ok(id),
                None => match self.track.segment_duration() {
                    None => Err(ConfigError::NoSegmentDuration),
                    Some(span) => if span.ticks == 0 {
                        Err(ConfigError::NoSegmentDuration)
                    } else {
                        Ok(clip(estimate(self.current_time, span)))
                    },
                },
            }
        } else {
            Ok(after(self.current_segment))
        }
    }

    /// `request` is what asking for a segment comes to: the number of the
    /// target and its address, or why there is none, the target's reason
    /// first.
    pub open spec fn asks(
        self,
        segment_id: Option<usize>,
        spans: Seq<(u64, u64)>,
        request: Result<SegmentRequest, ConfigError>,
    ) -> bool {
        match request {
            Ok(request) => self.target(segment_id, spans) == Ok::<_, ConfigError>(request.segment)
                && self.media_url(request.segment) == Ok::<_, ConfigError>(request.url@),
            Err(e) => match self.target(segment_id, spans) {
                Err(first) => e == first,
                Ok(segment) => self.media_url(segment) == Err::<Seq<char>, _>(e),
            },
        }
    }

    /// The address of the initialization segment: the track's initialization
    /// template with the track's identifier put in, below the base.
    pub open spec fn init_url(self) -> Result<Seq<char>, ConfigError> {
        match self.track.initialization() {
            Err(e) => Err(e),
            Ok(template) => Ok(
                self.segment_path(resolved(template, "RepresentationID"@, self.track.id())),
            ),
        }
    }

    /// The address of the media segment `segment`: the track's media
    /// template with the track's identifier put in, then the number, below
    /// the base.
    pub open spec fn media_url(self, segment: usize) -> Result<Seq<char>, ConfigError> {
        match self.track.media() {
            Err(e) => Err(e),
            Ok(template) => Ok(
                self.segment_path(
                    resolved(
                        resolved(template, "RepresentationID"@, self.track.id()),
                        "Number"@,
                        decimal(segment as nat),
                    ),
                ),
            ),
        }
    }

    /// Whether a segment with these timing facts may go to the sink. While
    /// buffering, a segment that does not hold the playback target is sent
    /// back with the number to ask for instead: the one before it where the
    /// target lies before its start, the one after it otherwise.
    pub open spec fn admits(self, metadata: SegmentMetadata, spans: Seq<(u64, u64)>) -> Result<
        (),
        Error,
    > {
        if self.is_buffering(spans) && !metadata.spans(self.current_time) {
            Err(
                Error::OutOfRange {
                    next_segment: if metadata.starts_after(self.current_time) {
                        before(metadata.segment_number)
                    } else {
                        after(metadata.segment_number)
                    },
                },
            )
        } else {
            Ok(())
        }
    }

    /// What a fetched segment comes to before it goes to the sink: a
    /// segment without timing facts is refused, one with them is checked
    /// against the playback target.
    pub open spec fn checks(
        self,
        parsed: Result<SegmentMetadata, ParseError>,
        spans: Seq<(u64, u64)>,
    ) -> Result<SegmentMetadata, Error> {
        match parsed {
            Err(reason) => Err(Error::InvalidSegment { reason }),
            Ok(metadata) => match self.admits(metadata, spans) {
                Err(e) => Err(e),
                Ok(()) => Ok(metadata),
            },
        }
    }
}

/// While a track is buffering, a segment that is named is the one asked for,
/// whatever the playback target and the track's segment duration.
pub proof fn lemma_named_segment_is_asked_for(
    manager: ManagerView,
    id: usize,
    spans: Seq<(u64, u64)>,
)
    requires
        !in_spans(spans, manager.current_time),
    ensures
        manager.target(Some(id), spans) == Ok::<usize, ConfigError>(id),
{
}

/// A segment that starts after the playback target of a buffering track is
/// sent back with the number before its own.
pub proof fn lemma_late_segment_names_the_one_before(
    manager: ManagerView,
    metadata: SegmentMetadata,
    spans: Seq<(u64, u64)>,
)
    requires
        manager.is_buffering(spans),
        metadata.starts_after(manager.current_time),
        metadata.segment_number > 0,
    ensures
        manager.admits(metadata, spans) == Err::<(), Error>(
            Error::OutOfRange { next_segment: (metadata.segment_number - 1) as usize },
        ),
{
}

/// The state of one active track: where its segments are found, which one
/// went to the sink last, and where playback is headed.
#[derive(Debug)]
pub struct TrackBufferManager {
    base_url: String,
    track: Track,
    current_segment: usize,
    current_time: u64,
}

impl View for TrackBufferManager {
    type V = ManagerView;

    closed spec fn view(&self) -> ManagerView {
        ManagerView {
            base_url: self.base_url@,
            track: self.track@,
            current_segment: self.current_segment,
            current_time: self.current_time,
        }
    }
}

impl TrackBufferManager {
    /// A manager holds only tracks that the sink can be told the type of.
    #[verifier::type_invariant]
    spec fn well_formed(self) -> bool {
        self.track@.mime() is Some && self.track@.codecs() is Some
    }

    /// The manager of `track`, with nothing appended yet and playback headed
    /// for the start. Fails where the track has no MIME type, and then where
    /// it has no codec string.
    pub fn new(track: Track) -> (made: Result<TrackBufferManager, ConfigError>)
        ensures
            match made {
                Ok(manager) => track@.mime() is Some && track@.codecs() is Some && manager@ == (
                ManagerView {
                    base_url: "http://127.0.0.1/"@,
                    track: track@,
                    current_segment: 0,
                    current_time: 0,
                }),
                Err(e) => e == if track@.mime() is None {
                    ConfigError::MissingMime
                } else {
                    ConfigError::MissingCodecs
                } && (track@.mime() is None || track@.codecs() is None),
            },
    {
        match track.mime() {
            Err(e) => {
                return Err(e);
            },
            Ok(_) => {},
        }
        match track.codecs() {
            Err(e) => {
                return Err(e);
            },
            Ok(_) => {},
        }
        Ok(
            TrackBufferManager {
                base_url: "http://127.0.0.1/".to_owned(),
                track,
                current_segment: 0,
                current_time: 0,
            },
        )
    }

    /// The same manager with another base for its addresses.
    pub fn with_base_url(self, base_url: String) -> (moved: TrackBufferManager)
        ensures
            moved@ == (ManagerView { base_url: base_url@, ..self@ }),
    {
        proof {
            use_type_invariant(&self);
        }
        TrackBufferManager {
            base_url,
            track: self.track,
            current_segment: self.current_segment,
            current_time: self.current_time,
        }
    }

    /// The identifier of the track.
    pub fn id(&self) -> (id: String)
        ensures
            id@ == self@.track.id(),
    {
        self.track.id()
    }

    /// The type to tell the sink when a buffer is added for the track.
    pub fn source_type(&self) -> (text: String)
        ensures
            self@.track.mime() is Some,
            self@.track.codecs() is Some,
            text@ == source_type_of(self@.track.mime()->0, self@.track.codecs()->0),
    {
        proof {
            use_type_invariant(self);
        }
        let mut text = match self.track.mime() {
            Ok(mime) => mime,
            Err(_) => String::new(),
        };
        let codecs = match self.track.codecs() {
            Ok(codecs) => codecs,
            Err(_) => String::new(),
        };
        text.append("; codecs=\"");
        text.append(codecs.as_str());
        text.append("\"");
        text
    }

    /// The last segment that went to the sink, 0 before the first.
    pub fn current_segment(&self) -> (segment: usize)
        ensures
            segment == self@.current_segment,
    {
        self.current_segment
    }

    /// The address of `path` below the base.
    fn segment_path(&self, path: &str) -> (url: String)
        ensures
            url@ == self@.segment_path(path@),
    {
        let mut url = self.base_url.clone();
        url.append("/");
        url.append(path);
        proof {
            reveal_strlit("/");
            assert("/"@ =~= seq!['/']);
        }
        url
    }

    /// The address to fetch the track's initialization segment from. Fails
    /// where the track has no segment template, or the template no
    /// initialization.
    pub fn fetch_init_segment(&self) -> (url: Result<String, ConfigError>)
        ensures
            match url {
                Ok(text) => self@.init_url() == Ok::<_, ConfigError>(text@),
                Err(e) => self@.init_url() == Err::<Seq<char>, _>(e),
            },
    {
        match self.track.initialization() {
            Err(e) => Err(e),
            Ok(mut template) => {
                template.set_id(self.id());
                Ok(self.segment_path(template.as_str()))
            },
        }
    }

    /// What the sink's answer to the initialization segment comes to: any
    /// refusal ends the session.
    pub fn append_init_segment(&mut self, sink: Result<(), String>) -> (done: Result<(), Error>)
        ensures
            final(self)@ == old(self)@,
            done == match sink {
                Ok(()) => Ok::<(), Error>(()),
                Err(_) => Err(Error::AppendFailed),
            },
    {
        match sink {
            Ok(()) => Ok(()),
            Err(_) => Err(Error::AppendFailed),
        }
    }

    /// Takes `time`, in milliseconds, as the new playback target, and says
    /// whether the sink already holds it: `spans` is what the sink reports as
    /// buffered.
    pub fn current_time(&mut self, time: u64, spans: &Vec<(u64, u64)>) -> (held: bool)
        ensures
            final(self)@ == (ManagerView { current_time: time, ..old(self)@ }),
            held == in_spans(spans@, time),
    {
        proof {
            use_type_invariant(&*self);
        }
        self.current_time = time;
        self.buffered(spans).contains(&time)
    }

    /// The set of the spans that the sink reports as buffered.
    pub fn buffered(&self, spans: &Vec<(u64, u64)>) -> (set: NRangeInclusive<u64>)
        ensures
            set@.len() == spans@.len(),
            forall|i: int|
                0 <= i < spans@.len() ==> (#[trigger] set@[i])@.start == spans@[i].0
                    && set@[i]@.end == spans@[i].1 && !set@[i]@.exhausted,
            forall|time: u64| covered(set@, time) == in_spans(spans@, time),
    {
        ranges_of(spans)
    }

    /// Whether the playback target lies outside what the sink holds.
    pub fn is_buffering(&self, spans: &Vec<(u64, u64)>) -> (buffering: bool)
        ensures
            buffering == self@.is_buffering(spans@),
    {
        !self.buffered(spans).contains(&self.current_time)
    }

    /// The segment that holds the time `ts`, by the track's segment
    /// duration. Fails where the track gives none, or one of zero.
    pub fn segment_for_ts(&self, ts: u64) -> (segment: Result<usize, ConfigError>)
        ensures
            segment == match self@.track.segment_duration() {
                None => Err::<usize, _>(ConfigError::NoSegmentDuration),
                Some(span) => if span.ticks == 0 {
                    Err(ConfigError::NoSegmentDuration)
                } else {
                    Ok(clip(estimate(ts, span)))
                },
            },
    {
        match self.track.segment_duration() {
            None => Err(ConfigError::NoSegmentDuration),
            Some(span) => {
                if span.ticks == 0 {
                    return Err(ConfigError::NoSegmentDuration);
                }
                assert(ts * span.timescale <= 0xFFFF_FFFF_FFFF_FFFF * 0xFFFF_FFFF_FFFF_FFFF)
                    by (nonlinear_arith)
                    requires
                        ts <= 0xFFFF_FFFF_FFFF_FFFF,
                        span.timescale <= 0xFFFF_FFFF_FFFF_FFFF,
                ;
                let scaled: u128 = ts as u128 * span.timescale as u128;
                let per: u128 = 1000 * span.ticks as u128;
                let whole: u128 = scaled / per;
                assert(whole <= scaled) by (nonlinear_arith)
                    requires
                        whole == scaled / per,
                        per >= 1,
                ;
                let number: u128 = whole + 1;
                if number > usize::MAX as u128 {
                    Ok(usize::MAX)
                } else {
                    Ok(number as usize)
                }
            },
        }
    }

    /// Picks the segment to ask for and says where to fetch it. Fails where
    /// the segment has to be found from the playback target and the track
    /// gives no segment duration, and then where the track has no media
    /// template.
    pub fn fetch_segment(&self, segment_id: Option<usize>, spans: &Vec<(u64, u64)>) -> (request:
        Result<SegmentRequest, ConfigError>)
        ensures
            self@.asks(segment_id, spans@, request),
    {
        let segment: usize = if self.is_buffering(spans) {
            match segment_id {
                Some(id) => id,
                None => match self.segment_for_ts(self.current_time) {
                    Ok(segment) => segment,
                    Err(e) => {
                        return Err(e);
                    },
                },
            }
        } else if self.current_segment == usize::MAX {
            usize::MAX
        } else {
            self.current_segment + 1
        };
        match self.track.media() {
            Err(e) => Err(e),
            Ok(mut path) => {
                path.set_id(self.id());
                path.set_number(segment);
                Ok(SegmentRequest { segment, url: self.segment_path(path.as_str()) })
            },
        }
    }

    /// The bytes of a fetched segment, or the error that the fetch amounts
    /// to.
    pub fn receive(outcome: FetchOutcome) -> (bytes: Result<Vec<u8>, Error>)
        ensures
            match bytes {
                Ok(bytes) => fetched(outcome) == Ok::<_, Error>(bytes@),
                Err(e) => fetched(outcome) == Err::<Seq<u8>, _>(e),
            },
    {
        match outcome {
            FetchOutcome::Failed => Err(Error::FetchError),
            FetchOutcome::Response { status, body } => {
                if status != 200 {
                    return Err(Error::HttpCode);
                }
                match body {
                    None => Err(Error::DataError),
                    Some(bytes) => Ok(bytes),
                }
            },
        }
    }

    /// Whether a segment with these timing facts may go to the sink now.
    pub fn check_segment(&self, metadata: SegmentMetadata, spans: &Vec<(u64, u64)>) -> (checked:
        Result<(), Error>)
        ensures
            checked == self@.admits(metadata, spans@),
    {
        if self.is_buffering(spans) && !metadata.contains(self.current_time) {
            let next_segment: usize = if metadata.is_after(self.current_time) {
                if metadata.segment_number == 0 {
                    0
                } else {
                    metadata.segment_number - 1
                }
            } else if metadata.segment_number == usize::MAX {
                usize::MAX
            } else {
                metadata.segment_number + 1
            };
            return Err(Error::OutOfRange { next_segment });
        }
        Ok(())
    }

    /// Reads the timing facts of a fetched segment and says whether it may
    /// go to the sink now: `spans` is what the sink reports as buffered.
    pub fn append_segment(&self, segment: &[u8], spans: &Vec<(u64, u64)>) -> (checked: Result<
        SegmentMetadata,
        Error,
    >)
        ensures
            checked == self@.checks(segment_of(segment@), spans@),
    {
        match SegmentMetadata::parse(segment) {
            Err(reason) => Err(Error::InvalidSegment { reason }),
            Ok(metadata) => match self.check_segment(metadata, spans) {
                Err(e) => Err(e),
                Ok(()) => Ok(metadata),
            },
        }
    }

    /// Takes the sink's answer to a segment that was let through. Where the
    /// sink took it, the segment is now the last one appended. Where it did
    /// not, nothing changes, and the error says whether the sink was full.
    pub fn segment_appended(&mut self, metadata: SegmentMetadata, sink: Result<(), String>) -> (done:
        Result<(), Error>)
        ensures
            match sink {
                Ok(()) => done is Ok && final(self)@ == (ManagerView {
                    current_segment: metadata.segment_number,
                    ..old(self)@
                }),
                Err(name) => final(self)@ == old(self)@ && done == Err::<(), _>(
                    if name@ == crate::player::quota_name() {
                        Error::QuotaExceededError
                    } else {
                        Error::AppendFailed
                    },
                ),
            },
    {
        proof {
            use_type_invariant(&*self);
        }
        match sink {
            Ok(()) => {
                self.current_segment = metadata.segment_number;
                Ok(())
            },
            Err(name) => Err(Error::from_sink(name.as_str())),
        }
    }
}

} // verus!
