//! The player: one session at a time, its tracks, and the order of its work.

use crate::buffer::fetched;
use crate::buffer::in_spans;
use crate::buffer::source_type_of;
use crate::buffer::FetchOutcome;
use crate::buffer::ManagerView;
use crate::buffer::SegmentRequest;
use crate::buffer::TrackBufferManager;
use crate::manifest::ConfigError;
use crate::manifest::Manifest;
use crate::manifest::ManifestView;
use crate::manifest::Track;
use crate::manifest::TrackView;
use crate::manifest::manifest_tracks;
use crate::parse::segment_of;
use crate::parse::ParseError;
use crate::parse::SegmentMetadata;
use crate::template::chars_of;
use crate::template::same_chars;
use vstd::prelude::*;

verus! {

/// What the player tells itself to do next.
#[derive(Clone, Copy, Debug, PartialEq, Eq, Structural)]
pub enum InternalEvent {
    /// The sink is ready to take buffers.
    SourceOpen,
    /// Load a segment of the track at this index: the one named, or the one
    /// that the track's buffer asks for.
    TryLoadSegment { track: usize, next_segment: Option<usize> },
    /// The playback position moved.
    Seeking,
}

/// What can go wrong between asking for a segment and having it in the sink.
#[derive(Clone, Copy, Debug, PartialEq, Eq, Structural)]
pub enum Error {
    /// The sink is full: the same segment is worth trying again later.
    QuotaExceededError,
    /// The request did not reach a response.
    FetchError,
    /// The response's body could not be read.
    DataError,
    /// The response's status was not 200.
    HttpCode,
    /// The segment does not hold the time that was asked for; `next_segment`
    /// is the number to ask for instead.
    OutOfRange { next_segment: usize },
    /// The segment's bytes gave no timing facts.
    InvalidSegment { reason: ParseError },
    /// The sink refused the bytes for another reason than being full.
    AppendFailed,
}

/// The name under which a sink reports that it is full.
pub open spec fn quota_name() -> Seq<char> {
    "QuotaExceededError"@
}

impl Error {
    /// The error that a sink's refusal amounts to, by the name the sink gave
    /// it: the retryable one where the sink is full, the fatal one otherwise.
    pub fn from_sink(name: &str) -> (error: Error)
        ensures
            error == if name@ == quota_name() {
                Error::QuotaExceededError
            } else {
                Error::AppendFailed
            },
    {
        if same_chars(&chars_of(name), &chars_of("QuotaExceededError")) {
            Error::QuotaExceededError
        } else {
            Error::AppendFailed
        }
    }

    /// Whether waiting or asking again can mend the error. A refusal by the
    /// sink for another reason than being full cannot be mended, nor can a
    /// segment without timing facts.
    pub fn is_fatal(&self) -> (fatal: bool)
        ensures
            fatal == (*self is AppendFailed || *self is InvalidSegment),
    {
        match self {
            Error::AppendFailed => true,
            Error::InvalidSegment { .. } => true,
            _ => false,
        }
    }

    /// One line that says what went wrong.
    pub fn message(&self) -> (text: String)
        ensures
            text@ == match *self {
                Error::QuotaExceededError => "Quota error"@,
                Error::FetchError => "Fetch error"@,
                Error::DataError => "Data error"@,
                Error::HttpCode => "Server returned non 200 code"@,
                Error::OutOfRange { .. } => "The given segment is out of range for our timestamp"@,
                Error::InvalidSegment { .. } => "The segment holds no timing metadata"@,
                Error::AppendFailed => "The sink refused the segment"@,
            },
    {
        match self {
            Error::QuotaExceededError => "Quota error".to_owned(),
            Error::FetchError => "Fetch error".to_owned(),
            Error::DataError => "Data error".to_owned(),
            Error::HttpCode => "Server returned non 200 code".to_owned(),
            Error::OutOfRange { .. } => "The given segment is out of range for our timestamp"
                .to_owned(),
            Error::InvalidSegment { .. } => "The segment holds no timing metadata".to_owned(),
            Error::AppendFailed => "The sink refused the segment".to_owned(),
        }
    }
}

/// What the world outside asks of the player.
#[derive(Debug)]
pub enum PlayerState {
    /// Start a session for the video element `id` with the manifest at the
    /// address `manifest`; a session that runs is ended first.
    Created { id: String, manifest: String },
    /// End the session and stop.
    Cleanup,
}

/// What the command channel holds when the player looks at it.
#[derive(Debug)]
pub enum Commands {
    /// Nothing now; more may come.
    Pending,
    /// A command.
    Ready(PlayerState),
    /// Nothing, and nothing will come.
    Closed,
}

/// An event that waits for its time.
#[derive(Clone, Copy, Debug, PartialEq, Eq, Structural)]
pub struct Deferred {
    /// The time from which the event may be handled, in milliseconds.
    pub at: u64,
    /// The event.
    pub event: InternalEvent,
}

/// The wait before a segment is tried again after the sink was full.
pub const BACKOFF_MILLIS: u64 = 1000;

/// The wait between one appended segment and the request for the next.
pub const PACE_MILLIS: u64 = 200;

/// The time `wait` milliseconds after `now`, or the last time there is.
pub open spec fn later(now: u64, wait: u64) -> u64 {
    if now + wait > u64::MAX {
        u64::MAX
    } else {
        (now + wait) as u64
    }
}

/// The generation after `generation`; after the last one the count starts
/// again.
pub open spec fn next_generation(generation: u64) -> u64 {
    if generation == u64::MAX {
        0
    } else {
        (generation + 1) as u64
    }
}

/// The address that `url::Url` gives for `address` once the last segment of
/// its path is taken off, or `None` where `address` is no URL, or one that
/// has no path to take a segment from.
pub uninterp spec fn url_parent(address: Seq<char>) -> Option<Seq<char>>;

/// `url::Url::parse`, then `path_segments_mut` and `pop` on the result, then
/// `as_str`: not proved here. The contract names what comes out and says
/// nothing more of it.
#[verifier::external_body]
fn parent_of(address: &str) -> (parent: Option<String>)
    ensures
        parent.deep_view() == url_parent(address@),
{
    let mut url = url::Url::parse(address).ok()?;
    url.path_segments_mut().ok()?.pop();
    Some(url.as_str().to_owned())
}

/// One active track as a mathematical value.
pub struct ActiveView {
    pub index: usize,
    pub manager: ManagerView,
    pub ready: bool,
}

/// A track that the session plays: its place among the manifest's tracks,
/// its buffer manager, and whether its initialization segment is in the sink.
#[derive(Debug)]
pub struct ActiveTrack {
    index: usize,
    manager: TrackBufferManager,
    ready: bool,
}

impl View for ActiveTrack {
    type V = ActiveView;

    closed spec fn view(&self) -> ActiveView {
        ActiveView { index: self.index, manager: self.manager@, ready: self.ready }
    }
}

impl DeepView for ActiveTrack {
    type V = ActiveView;

    open spec fn deep_view(&self) -> ActiveView {
        self@
    }
}

/// The player as a mathematical value.
pub struct PlayerView {
    pub generation: u64,
    pub video_id: Option<Seq<char>>,
    pub manifest_url: Option<Seq<char>>,
    pub manifest: Option<ManifestView>,
    pub queue: Seq<InternalEvent>,
    pub deferred: Seq<Deferred>,
    pub tracks: Seq<ActiveView>,
}

/// Where the first track with the manifest index `index` stands among
/// `tracks`, at or after `from`.
pub open spec fn slot_of(tracks: Seq<ActiveView>, index: usize, from: int) -> Option<int>
    decreases (if from < tracks.len() { tracks.len() - from } else { 0 }),
{
    if from < 0 || from >= tracks.len() {
        None
    } else if tracks[from].index == index {
        Some(from)
    } else {
        slot_of(tracks, index, from + 1)
    }
}

/// The buffered spans that were reported for the track in `slot`: none
/// where the report does not reach that far.
pub open spec fn spans_at(spans: Seq<Vec<(u64, u64)>>, slot: int) -> Seq<(u64, u64)> {
    if 0 <= slot < spans.len() {
        spans[slot]@
    } else {
        Seq::empty()
    }
}

/// The requests that a move of the playback position to `time` raises for
/// the first `upto` of `tracks`: one for each track whose buffered spans do
/// not hold `time`, in the order of the tracks.
pub open spec fn seek_events(
    tracks: Seq<ActiveView>,
    spans: Seq<Vec<(u64, u64)>>,
    time: u64,
    upto: int,
) -> Seq<InternalEvent>
    decreases upto,
{
    if upto <= 0 {
        Seq::empty()
    } else if in_spans(spans_at(spans, upto - 1), time) {
        seek_events(tracks, spans, time, upto - 1)
    } else {
        seek_events(tracks, spans, time, upto - 1).push(
            InternalEvent::TryLoadSegment { track: tracks[upto - 1].index, next_segment: None },
        )
    }
}

/// The same track with its playback target at `time`.
pub open spec fn seeked(track: ActiveView, time: u64) -> ActiveView {
    ActiveView { manager: ManagerView { current_time: time, ..track.manager }, ..track }
}

/// What the player does about the end of one attempt to load a segment of
/// `track`, and what it then reports. A full sink sets the same request
/// aside for the backoff; a segment out of range queues a request for the
/// segment named instead, at once; any other error is reported and changes
/// nothing; success sets the next request aside for the pace.
pub open spec fn settled(
    player: PlayerView,
    track: usize,
    result: Result<(), Error>,
    now: u64,
) -> (PlayerView, Result<(), Error>) {
    let again = InternalEvent::TryLoadSegment { track, next_segment: None };
    match result {
        Err(Error::QuotaExceededError) => (
            PlayerView {
                deferred: player.deferred.push(
                    Deferred { at: later(now, BACKOFF_MILLIS), event: again },
                ),
                ..player
            },
            Ok(()),
        ),
        Err(Error::OutOfRange { next_segment }) => (
            PlayerView {
                queue: player.queue.push(
                    InternalEvent::TryLoadSegment { track, next_segment: Some(next_segment) },
                ),
                ..player
            },
            Ok(()),
        ),
        Err(e) => (player, Err(e)),
        Ok(()) => (
            PlayerView {
                deferred: player.deferred.push(Deferred { at: later(now, PACE_MILLIS), event: again }),
                ..player
            },
            Ok(()),
        ),
    }
}

/// What the player asks for when an event is handled.
#[derive(Clone, Copy, Debug, PartialEq, Eq, Structural)]
pub enum Work {
    /// Nothing: the event names a track that is not active.
    Nothing,
    /// The sink is ready: open the session's tracks.
    Open,
    /// The playback position moved: report it with the buffered spans.
    Seek,
    /// Load a segment of this track.
    Load { track: usize, next_segment: Option<usize> },
}

/// What a fetched segment comes to.
#[derive(Debug)]
pub enum Fetched {
    /// The answer belongs to an earlier session or to a track that is no
    /// longer active: it is ignored.
    Stale,
    /// The fetch failed: the attempt is given up and nothing is scheduled.
    Dropped { error: Error },
    /// The segment may go to the sink: append `bytes`, then report.
    Append { metadata: SegmentMetadata, bytes: Vec<u8> },
    /// The segment does not hold the playback target: a request for
    /// `next_segment` is queued in its place.
    Corrected { next_segment: usize },
    /// The segment is unusable: the session ends with this error.
    Fatal { error: Error },
}

/// Every one of `tracks` has its initialization segment in the sink.
pub open spec fn all_ready(tracks: Seq<ActiveView>) -> bool {
    forall|i: int| 0 <= i < tracks.len() ==> (#[trigger] tracks[i]).ready
}

/// The indices of `tracks`, in order.
pub open spec fn indices_of(tracks: Seq<ActiveView>) -> Seq<usize> {
    Seq::new(tracks.len(), |i: int| tracks[i].index)
}

impl PlayerView {
    /// The tracks of the manifest, none where there is no manifest.
    pub open spec fn manifest_tracks(self) -> Seq<TrackView> {
        match self.manifest {
            None => Seq::empty(),
            Some(manifest) => manifest_tracks(manifest.periods),
        }
    }

    /// The base of the session's addresses, the empty text where there is
    /// none.
    pub open spec fn base(self) -> Seq<char> {
        match self.manifest_url {
            None => Seq::empty(),
            Some(address) => match url_parent(address) {
                None => Seq::empty(),
                Some(base) => base,
            },
        }
    }

    /// The manager that the `k`-th track picked would get, or why it cannot
    /// be played.
    pub open spec fn pick(self, k: int) -> Result<ManagerView, ConfigError> {
        prepared(self.manifest_tracks()[picks(self.manifest_tracks())[k]], self.base())
    }

    /// Why the session cannot go on once the sink is ready, if it cannot: no
    /// manifest, no duration in it, no base for the addresses, or a track
    /// picked that cannot be played, the first of them.
    pub open spec fn open_failure(self) -> Option<ConfigError> {
        let count = picks(self.manifest_tracks()).len();
        if self.manifest is None {
            Some(ConfigError::NoManifest)
        } else if self.manifest->0.duration is None {
            Some(ConfigError::MissingDuration)
        } else if self.manifest_url is None || url_parent(self.manifest_url->0) is None {
            Some(ConfigError::InvalidManifestUrl)
        } else if count > 0 && self.pick(0) is Err {
            Some(self.pick(0)->Err_0)
        } else if count > 1 && self.pick(1) is Err {
            Some(self.pick(1)->Err_0)
        } else {
            None
        }
    }

    /// The same player with no session's work left: nothing queued, nothing
    /// deferred, no track active, and a new generation, so that what was
    /// started before is known to be stale when it comes back.
    pub open spec fn detached(self) -> PlayerView {
        PlayerView {
            generation: next_generation(self.generation),
            queue: Seq::empty(),
            deferred: Seq::empty(),
            tracks: Seq::empty(),
            ..self
        }
    }
}

/// What the player does next.
#[derive(Debug)]
pub enum Step {
    /// Stop: the command channel is closed, or the command was to end. The
    /// buffers of the tracks in `released` may be dropped.
    Stop { released: Vec<usize> },
    /// A session was asked for and the player is ready to start it: the
    /// manifest is to be loaded and the sink attached. The buffers of the
    /// tracks in `released`, which an earlier session played, may be dropped.
    Start { released: Vec<usize> },
    /// Handle this event.
    Event(InternalEvent),
    /// Nothing to do now. `until` is when the earliest deferred event is due,
    /// if any event is deferred.
    Wait { until: Option<u64> },
}

/// The event at `i` is the earliest of `deferred`: none is due before it, and
/// of those due at the same time it was set aside first.
pub open spec fn is_earliest(deferred: Seq<Deferred>, i: int) -> bool {
    &&& 0 <= i < deferred.len()
    &&& forall|j: int|
        0 <= j < deferred.len() ==> deferred[i].at < (#[trigger] deferred[j]).at || (
        deferred[i].at == deferred[j].at && i <= j)
}

/// The first of `tracks` at or after `from` whose MIME type or content type
/// holds `category`.
pub open spec fn first_of_kind(tracks: Seq<TrackView>, category: Seq<char>, from: int) -> Option<
    int,
>
    decreases (if from < tracks.len() { tracks.len() - from } else { 0 }),
{
    if from < 0 || from >= tracks.len() {
        None
    } else if tracks[from].is_of(category) {
        Some(from)
    } else {
        first_of_kind(tracks, category, from + 1)
    }
}

/// The tracks that a session plays: the first video track, then the first
/// audio track unless it is the same one.
pub open spec fn picks(tracks: Seq<TrackView>) -> Seq<int> {
    match (first_of_kind(tracks, "video"@, 0), first_of_kind(tracks, "audio"@, 0)) {
        (None, None) => Seq::empty(),
        (Some(video), None) => seq![video],
        (None, Some(audio)) => seq![audio],
        (Some(video), Some(audio)) => if video == audio {
            seq![audio]
        } else {
            seq![video, audio]
        },
    }
}

/// The manager of a track that has just become active.
pub open spec fn fresh(track: TrackView, base: Seq<char>) -> ManagerView {
    ManagerView { base_url: base, track, current_segment: 0, current_time: 0 }
}

/// The manager of a track that is to become active, or why the track cannot
/// be played: no MIME type, then no codec string, then no address for its
/// initialization segment.
pub open spec fn prepared(track: TrackView, base: Seq<char>) -> Result<ManagerView, ConfigError> {
    if track.mime() is None {
        Err(ConfigError::MissingMime)
    } else if track.codecs() is None {
        Err(ConfigError::MissingCodecs)
    } else {
        match fresh(track, base).init_url() {
            Err(e) => Err(e),
            Ok(_) => Ok(fresh(track, base)),
        }
    }
}

/// What to do for one track before its first media segment: add a buffer of
/// this type to the sink, fetch the initialization segment from this address
/// and append it.
#[derive(Debug)]
pub struct InitPlan {
    pub track: usize,
    pub source_type: String,
    pub url: String,
}

/// What to do once the sink is ready: set its duration, in milliseconds, and
/// prepare each track.
#[derive(Debug)]
pub struct Opened {
    pub duration: u64,
    pub inits: Vec<InitPlan>,
}

/// The player: at most one session, the events it has told itself to handle,
/// those that wait for their time, and the tracks it plays.
#[derive(Debug)]
pub struct Player {
    generation: u64,
    video_id: Option<String>,
    manifest_url: Option<String>,
    manifest: Option<Manifest>,
    queue: Vec<InternalEvent>,
    deferred: Vec<Deferred>,
    active_tracks: Vec<ActiveTrack>,
}

/// The view of a manifest that may be absent.
pub open spec fn manifest_view(manifest: Option<Manifest>) -> Option<ManifestView> {
    match manifest {
        None => None,
        Some(manifest) => Some(manifest@),
    }
}

impl View for Player {
    type V = PlayerView;

    closed spec fn view(&self) -> PlayerView {
        PlayerView {
            generation: self.generation,
            video_id: self.video_id.deep_view(),
            manifest_url: self.manifest_url.deep_view(),
            manifest: manifest_view(self.manifest),
            queue: self.queue@,
            deferred: self.deferred@,
            tracks: self.active_tracks.deep_view(),
        }
    }
}

impl Player {
    /// A player without a session.
    pub fn new() -> (player: Player)
        ensures
            player@ == (PlayerView {
                generation: 0,
                video_id: None,
                manifest_url: None,
                manifest: None,
                queue: Seq::empty(),
                deferred: Seq::empty(),
                tracks: Seq::empty(),
            }),
    {
        let player = Player {
            generation: 0,
            video_id: None,
            manifest_url: None,
            manifest: None,
            queue: Vec::new(),
            deferred: Vec::new(),
            active_tracks: Vec::new(),
        };
        assert(player.active_tracks.deep_view() =~= Seq::empty());
        player
    }

    /// The generation of the session: what is started carries it, and what
    /// comes back with another one is stale.
    pub fn generation(&self) -> (generation: u64)
        ensures
            generation == self@.generation,
    {
        self.generation
    }

    /// The element that the session plays in.
    pub fn video_id(&self) -> (id: Option<&String>)
        ensures
            id.deep_view() == self@.video_id,
    {
        self.video_id.as_ref()
    }

    /// The address of the session's manifest.
    pub fn manifest_url(&self) -> (address: Option<&String>)
        ensures
            address.deep_view() == self@.manifest_url,
    {
        self.manifest_url.as_ref()
    }

    /// How many tracks are active.
    pub fn track_count(&self) -> (count: usize)
        ensures
            count == self@.tracks.len(),
    {
        self.active_tracks.len()
    }

    /// The manifest index of the active track in `slot`.
    pub fn track_index(&self, slot: usize) -> (index: Option<usize>)
        ensures
            index == if slot < self@.tracks.len() {
                Some(self@.tracks[slot as int].index)
            } else {
                None
            },
    {
        if slot < self.active_tracks.len() {
            Some(self.active_tracks[slot].index)
        } else {
            None
        }
    }

    /// Ends the session's work: forgets what is queued and deferred, lets
    /// every track go, and starts a new generation. Returns the manifest
    /// indices of the tracks let go, whose buffers the sink may now drop.
    pub fn detach(&mut self) -> (released: Vec<usize>)
        ensures
            final(self)@ == old(self)@.detached(),
            released@ == indices_of(old(self)@.tracks),
    {
        let mut released: Vec<usize> = Vec::new();
        let mut i: usize = 0;
        while i < self.active_tracks.len()
            invariant
                i <= self.active_tracks@.len(),
                *self == *old(self),
                released@ == indices_of(self@.tracks).take(i as int),
            decreases self.active_tracks@.len() - i,
        {
            released.push(self.active_tracks[i].index);
            i += 1;
            assert(released@ =~= indices_of(self@.tracks).take(i as int));
        }
        assert(indices_of(self@.tracks).take(i as int) =~= indices_of(self@.tracks));
        self.generation = if self.generation == u64::MAX {
            0
        } else {
            self.generation + 1
        };
        self.queue = Vec::new();
        self.deferred = Vec::new();
        self.active_tracks = Vec::new();
        assert(self.active_tracks.deep_view() =~= Seq::empty());
        released
    }

    /// Takes the manifest that was loaded for the session.
    pub fn load_manifest(&mut self, manifest: Manifest)
        ensures
            final(self)@ == (PlayerView { manifest: Some(manifest@), ..old(self)@ }),
    {
        self.manifest = Some(manifest);
    }

    /// The base for the addresses of the session's segments: the address of
    /// the manifest without the last segment of its path. Fails where there
    /// is no session, or the manifest's address is no URL with a path.
    pub fn base_url(&self) -> (base: Result<String, ConfigError>)
        ensures
            match base {
                Ok(text) => self@.manifest_url is Some && url_parent(self@.manifest_url->0)
                    == Some(text@),
                Err(e) => e == ConfigError::InvalidManifestUrl && (self@.manifest_url is None
                    || url_parent(self@.manifest_url->0) is None),
            },
    {
        match &self.manifest_url {
            None => Err(ConfigError::InvalidManifestUrl),
            Some(address) => Self::base_of(parent_of(address.as_str())),
        }
    }

    /// The base that the parent of a manifest's address gives, if it has
    /// one.
    pub fn base_of(parent: Option<String>) -> (base: Result<String, ConfigError>)
        ensures
            base == match parent {
                Some(text) => Ok::<String, ConfigError>(text),
                None => Err(ConfigError::InvalidManifestUrl),
            },
    {
        match parent {
            Some(text) => Ok(text),
            None => Err(ConfigError::InvalidManifestUrl),
        }
    }

    /// Puts an event at the end of the queue: what the sink or the playback
    /// surface reports.
    pub fn notify(&mut self, event: InternalEvent)
        ensures
            final(self)@ == (PlayerView { queue: old(self)@.queue.push(event), ..old(self)@ }),
    {
        self.queue.push(event);
    }

    /// Sets an event aside until `wait` milliseconds after `now`.
    pub fn schedule(&mut self, event: InternalEvent, now: u64, wait: u64)
        ensures
            final(self)@ == (PlayerView {
                deferred: old(self)@.deferred.push(Deferred { at: later(now, wait), event }),
                ..old(self)@
            }),
    {
        let at: u64 = if wait > u64::MAX - now {
            u64::MAX
        } else {
            now + wait
        };
        self.deferred.push(Deferred { at, event });
    }
}

/// The first of `tracks` whose MIME type or content type holds `category`.
fn find_kind(tracks: &Vec<Track>, category: &str) -> (found: Option<usize>)
    ensures
        match found {
            Some(i) => first_of_kind(tracks.deep_view(), category@, 0) == Some(i as int) && i
                < tracks@.len(),
            None => first_of_kind(tracks.deep_view(), category@, 0) is None,
        },
{
    let ghost views = tracks.deep_view();
    let mut i: usize = 0;
    while i < tracks.len()
        invariant
            i <= tracks@.len(),
            views == tracks.deep_view(),
            first_of_kind(views, category@, 0) == first_of_kind(views, category@, i as int),
        decreases tracks@.len() - i,
    {
        assert(views[i as int] == tracks@[i as int]@);
        if tracks[i].is_of(category) {
            return Some(i);
        }
        i += 1;
    }
    None
}

impl Player {
    /// Looks at the three sources of work in their order and takes one thing
    /// from the first that has any: a command; then, while every active
    /// track is ready, the event at the head of the queue; then the earliest
    /// deferred event, if it is due at `now`.
    pub fn listen(&mut self, commands: Commands, now: u64) -> (step: Step)
        ensures
            match commands {
                Commands::Closed => step matches Step::Stop { released } && released@
                    == indices_of(old(self)@.tracks) && final(self)@ == old(self)@.detached(),
                Commands::Ready(PlayerState::Cleanup) => step matches Step::Stop { released }
                    && released@ == indices_of(old(self)@.tracks) && final(self)@ == old(self)@.detached(),
                Commands::Ready(PlayerState::Created { id, manifest }) => step matches Step::Start {
                    released,
                } && released@ == indices_of(old(self)@.tracks) && final(self)@ == (PlayerView {
                    video_id: Some(id@),
                    manifest_url: Some(manifest@),
                    manifest: None,
                    ..old(self)@.detached()
                }),
                Commands::Pending => match step {
                    Step::Event(event) => all_ready(old(self)@.tracks) && if old(self)@.queue.len()
                        > 0 {
                        event == old(self)@.queue[0] && final(self)@ == (PlayerView {
                            queue: old(self)@.queue.remove(0),
                            ..old(self)@
                        })
                    } else {
                        exists|i: int|
                            is_earliest(old(self)@.deferred, i) && old(self)@.deferred[i].at <= now
                                && event == old(self)@.deferred[i].event && final(self)@ == (
                            PlayerView { deferred: old(self)@.deferred.remove(i), ..old(self)@ })
                    },
                    Step::Wait { until } => final(self)@ == old(self)@ && (!all_ready(
                        old(self)@.tracks,
                    ) || (old(self)@.queue.len() == 0 && forall|j: int|
                        0 <= j < old(self)@.deferred.len() ==> (#[trigger] old(self)@.deferred[j]).at > now)) && match until {
                        None => old(self)@.deferred.len() == 0,
                        Some(at) => exists|i: int|
                            is_earliest(old(self)@.deferred, i) && at == old(self)@.deferred[i].at,
                    },
                    _ => false,
                },
            },
    {
        match commands {
            Commands::Closed => Step::Stop { released: self.detach() },
            Commands::Ready(PlayerState::Cleanup) => Step::Stop { released: self.detach() },
            Commands::Ready(PlayerState::Created { id, manifest }) => {
                let released = self.detach();
                self.video_id = Some(id);
                self.manifest_url = Some(manifest);
                self.manifest = None;
                Step::Start { released }
            },
            Commands::Pending => {
                let ready = self.is_ready();
                if ready && self.queue.len() > 0 {
                    return Step::Event(self.queue.remove(0));
                }
                match self.earliest() {
                    None => Step::Wait { until: None },
                    Some(i) => {
                        let at = self.deferred[i].at;
                        if ready && at <= now {
                            Step::Event(self.deferred.remove(i).event)
                        } else {
                            Step::Wait { until: Some(at) }
                        }
                    },
                }
            },
        }
    }

    /// Whether every active track has its initialization segment in the
    /// sink.
    pub fn is_ready(&self) -> (ready: bool)
        ensures
            ready == all_ready(self@.tracks),
    {
        let mut i: usize = 0;
        while i < self.active_tracks.len()
            invariant
                i <= self.active_tracks@.len(),
                forall|j: int| 0 <= j < i ==> (#[trigger] self@.tracks[j]).ready,
            decreases self.active_tracks@.len() - i,
        {
            assert(self@.tracks[i as int] == self.active_tracks@[i as int]@);
            if !self.active_tracks[i].ready {
                return false;
            }
            i += 1;
        }
        true
    }

    /// Where the earliest deferred event stands, if any event is deferred.
    fn earliest(&self) -> (found: Option<usize>)
        ensures
            match found {
                None => self@.deferred.len() == 0,
                Some(i) => is_earliest(self@.deferred, i as int),
            },
    {
        if self.deferred.len() == 0 {
            return None;
        }
        let mut best: usize = 0;
        let mut i: usize = 1;
        while i < self.deferred.len()
            invariant
                best < i <= self.deferred@.len(),
                forall|j: int|
                    0 <= j < i ==> self.deferred@[best as int].at < (#[trigger] self.deferred@[j]).at
                        || (self.deferred@[best as int].at == self.deferred@[j].at && best <= j),
            decreases self.deferred@.len() - i,
        {
            if self.deferred[i].at < self.deferred[best].at {
                best = i;
            }
            i += 1;
        }
        Some(best)
    }
}

/// Makes `track` ready to become active under the manifest index `index`.
fn prepare(track: &Track, index: usize, base: &str) -> (made: Result<
    (ActiveTrack, InitPlan),
    ConfigError,
>)
    ensures
        match made {
            Ok((active, plan)) => prepared(track@, base@) == Ok::<_, ConfigError>(
                fresh(track@, base@),
            ) && active@ == (ActiveView { index, manager: fresh(track@, base@), ready: false })
                && plan.track == index && plan.source_type@ == source_type_of(
                track@.mime()->0,
                track@.codecs()->0,
            ) && fresh(track@, base@).init_url() == Ok::<_, ConfigError>(plan.url@),
            Err(e) => prepared(track@, base@) == Err::<ManagerView, _>(e),
        },
{
    let manager = match TrackBufferManager::new(track.duplicate()) {
        Err(e) => {
            return Err(e);
        },
        Ok(manager) => manager.with_base_url(base.to_owned()),
    };
    let url = match manager.fetch_init_segment() {
        Err(e) => {
            return Err(e);
        },
        Ok(url) => url,
    };
    let source_type = manager.source_type();
    Ok((ActiveTrack { index, manager, ready: false }, InitPlan { track: index, source_type, url }))
}

impl Player {
    /// Says what handling `event` takes. A request for a track that is not
    /// active takes nothing.
    pub fn process_internal_event(&self, event: InternalEvent) -> (work: Work)
        ensures
            work == match event {
                InternalEvent::SourceOpen => Work::Open,
                InternalEvent::Seeking => Work::Seek,
                InternalEvent::TryLoadSegment { track, next_segment } => if slot_of(
                    self@.tracks,
                    track,
                    0,
                ) is Some {
                    Work::Load { track, next_segment }
                } else {
                    Work::Nothing
                },
            },
    {
        match event {
            InternalEvent::SourceOpen => Work::Open,
            InternalEvent::Seeking => Work::Seek,
            InternalEvent::TryLoadSegment { track, next_segment } => match self.find_slot(track) {
                Some(_) => Work::Load { track, next_segment },
                None => Work::Nothing,
            },
        }
    }

    /// Where the active track with the manifest index `track` stands.
    pub fn find_slot(&self, track: usize) -> (slot: Option<usize>)
        ensures
            match slot {
                Some(i) => slot_of(self@.tracks, track, 0) == Some(i as int) && i
                    < self@.tracks.len() && self@.tracks[i as int].index == track,
                None => slot_of(self@.tracks, track, 0) is None,
            },
    {
        let mut i: usize = 0;
        while i < self.active_tracks.len()
            invariant
                i <= self.active_tracks@.len(),
                slot_of(self@.tracks, track, 0) == slot_of(self@.tracks, track, i as int),
            decreases self.active_tracks@.len() - i,
        {
            assert(self@.tracks[i as int] == self.active_tracks@[i as int]@);
            if self.active_tracks[i].index == track {
                return Some(i);
            }
            i += 1;
        }
        None
    }

    /// Opens the session's tracks once the sink is ready: takes the
    /// duration from the manifest, picks the first video track and the first
    /// audio track, and gives each a manager below the session's base. Fails,
    /// and changes nothing, where the manifest, its duration or the base is
    /// missing, or a track picked cannot be played.
    pub fn on_source_open(&mut self) -> (opened: Result<Opened, ConfigError>)
        ensures
            match opened {
                Err(e) => final(self)@ == old(self)@ && old(self)@.open_failure() == Some(e),
                Ok(opened) => {
                    let chosen = picks(old(self)@.manifest_tracks());
                    &&& old(self)@.open_failure() is None
                    &&& old(self)@.manifest->0.duration == Some(opened.duration)
                    &&& final(self)@ == (PlayerView { tracks: final(self)@.tracks, ..old(self)@ })
                    &&& final(self)@.tracks.len() == chosen.len()
                    &&& opened.inits@.len() == chosen.len()
                    &&& forall|k: int|
                        0 <= k < chosen.len() ==> {
                            let track = old(self)@.manifest_tracks()[chosen[k]];
                            let manager = fresh(track, old(self)@.base());
                            &&& (#[trigger] final(self)@.tracks[k]) == (ActiveView {
                                index: chosen[k] as usize,
                                manager,
                                ready: false,
                            })
                            &&& opened.inits@[k].track == chosen[k]
                            &&& opened.inits@[k].source_type@ == source_type_of(
                                track.mime()->0,
                                track.codecs()->0,
                            )
                            &&& manager.init_url() == Ok::<_, ConfigError>(opened.inits@[k].url@)
                        }
                },
            },
    {
        let manifest = match &self.manifest {
            None => {
                return Err(ConfigError::NoManifest);
            },
            Some(manifest) => manifest,
        };
        let duration = match manifest.duration() {
            None => {
                return Err(ConfigError::MissingDuration);
            },
            Some(duration) => duration,
        };
        let base = match self.base_url() {
            Err(e) => {
                return Err(e);
            },
            Ok(base) => base,
        };
        let tracks = manifest.tracks();
        let video = find_kind(&tracks, "video");
        let audio = find_kind(&tracks, "audio");
        let mut chosen: Vec<usize> = Vec::new();
        match video {
            Some(video) => {
                if audio != Some(video) {
                    chosen.push(video);
                }
            },
            None => {},
        }
        match audio {
            Some(audio) => {
                chosen.push(audio);
            },
            None => {},
        }
        let ghost views = tracks.deep_view();
        let ghost want = picks(views);
        assert(chosen@.len() == want.len());
        assert(forall|k: int| 0 <= k < want.len() ==> chosen@[k] == want[k]);
        let mut active: Vec<ActiveTrack> = Vec::new();
        let mut inits: Vec<InitPlan> = Vec::new();
        let mut k: usize = 0;
        while k < chosen.len()
            invariant
                k <= chosen@.len() <= 2,
                views == tracks.deep_view(),
                views == old(self)@.manifest_tracks(),
                base@ == old(self)@.base(),
                old(self)@.manifest is Some,
                old(self)@.manifest->0.duration is Some,
                old(self)@.manifest_url is Some,
                url_parent(old(self)@.manifest_url->0) is Some,
                *self == *old(self),
                chosen@.len() == want.len(),
                want == picks(views),
                forall|n: int| 0 <= n < want.len() ==> chosen@[n] == want[n] && chosen@[n] < tracks@.len(),
                active@.len() == k,
                inits@.len() == k,
                forall|n: int| 0 <= n < k ==> old(self)@.pick(n) is Ok,
                forall|n: int|
                    0 <= n < k ==> {
                        let manager = fresh(views[want[n]], base@);
                        &&& (#[trigger] active@[n])@ == (ActiveView {
                            index: want[n] as usize,
                            manager,
                            ready: false,
                        })
                        &&& inits@[n].track == want[n]
                        &&& inits@[n].source_type@ == source_type_of(
                            views[want[n]].mime()->0,
                            views[want[n]].codecs()->0,
                        )
                        &&& manager.init_url() == Ok::<_, ConfigError>(inits@[n].url@)
                    },
            decreases chosen@.len() - k,
        {
            let index = chosen[k];
            assert(views[index as int] == tracks@[index as int]@);
            match prepare(&tracks[index], index, base.as_str()) {
                Err(e) => {
                    assert(old(self)@.pick(k as int) == Err::<ManagerView, _>(e));
                    return Err(e);
                },
                Ok((track, plan)) => {
                    assert(old(self)@.pick(k as int) is Ok);
                    active.push(track);
                    inits.push(plan);
                },
            }
            k += 1;
        }
        self.active_tracks = active;
        assert(self@.tracks.len() == want.len());
        assert forall|n: int| 0 <= n < want.len() implies (#[trigger] self@.tracks[n])
            == self.active_tracks@[n]@ by {}
        Ok(Opened { duration, inits })
    }

    /// Takes the sink's answer to the initialization segment of `track`.
    /// Where the sink took it, the track is ready and its first request is
    /// queued. Any refusal ends the session. An answer for another
    /// generation, or for a track that is not active, changes nothing.
    pub fn load_init(&mut self, generation: u64, track: usize, sink: Result<(), String>) -> (done:
        Result<(), Error>)
        ensures
            match (generation == old(self)@.generation, slot_of(old(self)@.tracks, track, 0), sink) {
                (true, Some(slot), Ok(())) => done is Ok && final(self)@ == (PlayerView {
                    tracks: old(self)@.tracks.update(
                        slot,
                        ActiveView { ready: true, ..old(self)@.tracks[slot] },
                    ),
                    queue: old(self)@.queue.push(
                        InternalEvent::TryLoadSegment { track, next_segment: None },
                    ),
                    ..old(self)@
                }),
                (true, Some(_), Err(_)) => done == Err::<(), _>(Error::AppendFailed) && final(self)@ == old(self)@,
                _ => done is Ok && final(self)@ == old(self)@,
            },
    {
        if generation != self.generation {
            return Ok(());
        }
        let slot = match self.find_slot(track) {
            None => {
                return Ok(());
            },
            Some(slot) => slot,
        };
        let ghost before = self@.tracks;
        let mut active = self.active_tracks.remove(slot);
        assert(active@ == before[slot as int]);
        match active.manager.append_init_segment(sink) {
            Err(e) => {
                self.active_tracks.insert(slot, active);
                assert(self@.tracks =~= before);
                Err(e)
            },
            Ok(()) => {
                active.ready = true;
                self.active_tracks.insert(slot, active);
                assert(self@.tracks =~= before.update(
                    slot as int,
                    ActiveView { ready: true, ..before[slot as int] },
                ));
                self.queue.push(InternalEvent::TryLoadSegment { track, next_segment: None });
                Ok(())
            },
        }
    }

    /// Takes the new playback position, `time` in milliseconds, with the
    /// buffered spans of each active track, slot by slot. Every track gets
    /// the position as its target, and a request is queued for each track
    /// whose spans do not hold it.
    pub fn on_seeking(&mut self, time: u64, spans: &Vec<Vec<(u64, u64)>>)
        ensures
            final(self)@ == (PlayerView {
                tracks: final(self)@.tracks,
                queue: old(self)@.queue + seek_events(
                    old(self)@.tracks,
                    spans@,
                    time,
                    old(self)@.tracks.len() as int,
                ),
                ..old(self)@
            }),
            final(self)@.tracks.len() == old(self)@.tracks.len(),
            forall|i: int|
                0 <= i < old(self)@.tracks.len() ==> (#[trigger] final(self)@.tracks[i]) == seeked(
                    old(self)@.tracks[i],
                    time,
                ),
    {
        let ghost before = self@.tracks;
        let count = self.active_tracks.len();
        let none: Vec<(u64, u64)> = Vec::new();
        let mut i: usize = 0;
        assert(self@.queue =~= old(self)@.queue + seek_events(before, spans@, time, 0));
        while i < count
            invariant
                i <= count == before.len(),
                before == old(self)@.tracks,
                none@.len() == 0,
                self@ == (PlayerView { tracks: self@.tracks, queue: self@.queue, ..old(self)@ }),
                self@.tracks.len() == count,
                self@.queue == old(self)@.queue + seek_events(before, spans@, time, i as int),
                forall|n: int| 0 <= n < i ==> (#[trigger] self@.tracks[n]) == seeked(before[n], time),
                forall|n: int| i <= n < count ==> (#[trigger] self@.tracks[n]) == before[n],
            decreases count - i,
        {
            let ghost so_far = self@.tracks;
            let ghost queued = self@.queue;
            let mut active = self.active_tracks.remove(i);
            assert(active@ == so_far[i as int]);
            let held = if i < spans.len() {
                active.manager.current_time(time, &spans[i])
            } else {
                active.manager.current_time(time, &none)
            };
            let index = active.index;
            self.active_tracks.insert(i, active);
            assert(self@.tracks =~= so_far.update(i as int, seeked(before[i as int], time)));
            if !held {
                self.queue.push(InternalEvent::TryLoadSegment { track: index, next_segment: None });
            }
            i += 1;
            assert(self@.queue =~= old(self)@.queue + seek_events(before, spans@, time, i as int));
        }
    }

    /// Picks the segment to ask for on `track` and says where to fetch it:
    /// `spans` is what the sink reports as buffered for the track. Asks for
    /// nothing where the track is not active, or while some active track
    /// still waits for its initialization segment.
    pub fn try_load_segment(
        &self,
        track: usize,
        next_segment: Option<usize>,
        spans: &Vec<(u64, u64)>,
    ) -> (request: Option<Result<SegmentRequest, ConfigError>>)
        ensures
            match request {
                None => slot_of(self@.tracks, track, 0) is None || !all_ready(self@.tracks),
                Some(request) => all_ready(self@.tracks) && slot_of(self@.tracks, track, 0) is Some
                    && self@.tracks[slot_of(self@.tracks, track, 0)->0].manager.asks(
                    next_segment,
                    spans@,
                    request,
                ),
            },
    {
        if !self.is_ready() {
            return None;
        }
        match self.find_slot(track) {
            None => None,
            Some(slot) => {
                assert(self@.tracks[slot as int] == self.active_tracks@[slot as int]@);
                Some(self.active_tracks[slot].manager.fetch_segment(next_segment, spans))
            },
        }
    }

    /// Reacts to the end of one attempt to load a segment of `track`.
    pub fn settle(&mut self, track: usize, result: Result<(), Error>, now: u64) -> (report: Result<
        (),
        Error,
    >)
        ensures
            (final(self)@, report) == settled(old(self)@, track, result, now),
    {
        let again = InternalEvent::TryLoadSegment { track, next_segment: None };
        match result {
            Err(Error::QuotaExceededError) => {
                self.schedule(again, now, BACKOFF_MILLIS);
                Ok(())
            },
            Err(Error::OutOfRange { next_segment }) => {
                self.notify(
                    InternalEvent::TryLoadSegment { track, next_segment: Some(next_segment) },
                );
                Ok(())
            },
            Err(e) => Err(e),
            Ok(()) => {
                self.schedule(again, now, PACE_MILLIS);
                Ok(())
            },
        }
    }

    /// Takes the answer to a request for a segment of `track`. A failed
    /// fetch is given up without a trace. A segment that came is read and
    /// checked against the track's playback target: it goes on to the sink,
    /// or a request for the right one is queued, or, where it is unusable,
    /// the session ends. An answer for another generation, or for a track
    /// that is not active, is ignored.
    pub fn segment_fetched(
        &mut self,
        generation: u64,
        track: usize,
        outcome: FetchOutcome,
        spans: &Vec<(u64, u64)>,
        now: u64,
    ) -> (next: Fetched)
        ensures
            match (generation == old(self)@.generation, slot_of(old(self)@.tracks, track, 0)) {
                (true, Some(slot)) => match fetched(outcome) {
                    Err(e) => next matches Fetched::Dropped { error } && error == e && final(self)@
                        == old(self)@,
                    Ok(bytes) => match old(self)@.tracks[slot].manager.checks(
                        segment_of(bytes),
                        spans@,
                    ) {
                        Ok(metadata) => next matches Fetched::Append { metadata: m, bytes: b } && m
                            == metadata && b@ == bytes && final(self)@ == old(self)@,
                        Err(Error::OutOfRange { next_segment }) => next matches Fetched::Corrected {
                            next_segment: n,
                        } && n == next_segment && final(self)@ == settled(
                            old(self)@,
                            track,
                            Err(Error::OutOfRange { next_segment }),
                            now,
                        ).0,
                        Err(e) => next matches Fetched::Fatal { error } && error == e && final(self)@
                            == old(self)@,
                    },
                },
                _ => next is Stale && final(self)@ == old(self)@,
            },
    {
        if generation != self.generation {
            return Fetched::Stale;
        }
        let slot = match self.find_slot(track) {
            None => {
                return Fetched::Stale;
            },
            Some(slot) => slot,
        };
        let bytes = match TrackBufferManager::receive(outcome) {
            Err(error) => {
                return Fetched::Dropped { error };
            },
            Ok(bytes) => bytes,
        };
        assert(self@.tracks[slot as int] == self.active_tracks@[slot as int]@);
        match self.active_tracks[slot].manager.append_segment(bytes.as_slice(), spans) {
            Ok(metadata) => Fetched::Append { metadata, bytes },
            Err(Error::OutOfRange { next_segment }) => {
                let _ = self.settle(track, Err(Error::OutOfRange { next_segment }), now);
                Fetched::Corrected { next_segment }
            },
            Err(error) => Fetched::Fatal { error },
        }
    }

    /// Takes the sink's answer to a segment of `track` that was let through.
    /// Where the sink took it, the segment is the track's last and the next
    /// request is set aside for the pace. Where the sink was full, the same
    /// request is set aside for the backoff and nothing else changes. Any
    /// other refusal ends the session. An answer for another generation, or
    /// for a track that is not active, changes nothing.
    pub fn segment_appended(
        &mut self,
        generation: u64,
        track: usize,
        metadata: SegmentMetadata,
        sink: Result<(), String>,
        now: u64,
    ) -> (report: Result<(), Error>)
        ensures
            match (generation == old(self)@.generation, slot_of(old(self)@.tracks, track, 0), sink) {
                (true, Some(slot), Ok(())) => (final(self)@, report) == settled(
                    PlayerView {
                        tracks: old(self)@.tracks.update(
                            slot,
                            ActiveView {
                                manager: ManagerView {
                                    current_segment: metadata.segment_number,
                                    ..old(self)@.tracks[slot].manager
                                },
                                ..old(self)@.tracks[slot]
                            },
                        ),
                        ..old(self)@
                    },
                    track,
                    Ok(()),
                    now,
                ),
                (true, Some(_), Err(name)) => (final(self)@, report) == settled(
                    old(self)@,
                    track,
                    Err(
                        if name@ == quota_name() {
                            Error::QuotaExceededError
                        } else {
                            Error::AppendFailed
                        },
                    ),
                    now,
                ),
                _ => report is Ok && final(self)@ == old(self)@,
            },
    {
        if generation != self.generation {
            return Ok(());
        }
        let slot = match self.find_slot(track) {
            None => {
                return Ok(());
            },
            Some(slot) => slot,
        };
        let ghost before = self@.tracks;
        let mut active = self.active_tracks.remove(slot);
        assert(active@ == before[slot as int]);
        let result = active.manager.segment_appended(metadata, sink);
        self.active_tracks.insert(slot, active);
        proof {
            if sink is Ok {
                assert(self@.tracks =~= before.update(
                    slot as int,
                    ActiveView {
                        manager: ManagerView {
                            current_segment: metadata.segment_number,
                            ..before[slot as int].manager
                        },
                        ..before[slot as int]
                    },
                ));
            } else {
                assert(self@.tracks =~= before);
            }
        }
        self.settle(track, result, now)
    }
}

/// A full sink costs one retry after the backoff and touches nothing else:
/// the queue, the tracks and the events already deferred stay as they were.
pub proof fn lemma_full_sink_defers_one_retry(player: PlayerView, track: usize, now: u64)
    ensures
        settled(player, track, Err(Error::QuotaExceededError), now).1 is Ok,
        settled(player, track, Err(Error::QuotaExceededError), now).0 == (PlayerView {
            deferred: player.deferred.push(
                Deferred {
                    at: later(now, BACKOFF_MILLIS),
                    event: InternalEvent::TryLoadSegment { track, next_segment: None },
                },
            ),
            ..player
        }),
{
}

} // verus!
