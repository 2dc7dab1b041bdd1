//! The manifest of a presentation and the tracks it offers.
//!
//! A manifest is a list of periods, a period a list of adaptation sets, an
//! adaptation set a list of representations. Each representation is one
//! track. What a representation leaves unsaid its adaptation set may say for
//! it, and the other way round; each attribute below states which of the two
//! is asked first.

use crate::template::chars_of;
use crate::template::matches_at;
use crate::template::push_decimal;
use crate::template::resolve_url_template;
use crate::template::resolved;
use crate::template::starts_at;
use crate::template::decimal;
use vstd::prelude::*;
use vstd::std_specs::convert::FromSpec;
use vstd::std_specs::convert::FromSpecImpl;

verus! {

/// Why a track cannot be played as the manifest describes it.
#[derive(Clone, Copy, Debug, PartialEq, Eq, Structural)]
pub enum ConfigError {
    /// Neither the adaptation set nor the representation gives a MIME type.
    MissingMime,
    /// Neither the representation nor the adaptation set gives a codec string.
    MissingCodecs,
    /// Neither the adaptation set nor the representation gives a content type.
    MissingContentType,
    /// Neither the representation nor the adaptation set has a segment template.
    MissingSegmentTemplate,
    /// The segment template names no initialization segment.
    MissingInitialization,
    /// The segment template names no media segments.
    MissingMedia,
    /// The segment template gives no start number.
    MissingStartNumber,
    /// The segment template gives no segment duration, or one of zero.
    NoSegmentDuration,
    /// No manifest has been loaded.
    NoManifest,
    /// The manifest declares no presentation duration.
    MissingDuration,
    /// The manifest's address is no URL that a path can be taken from.
    InvalidManifestUrl,
}

/// A segment template as a mathematical value.
pub struct SegmentTemplateView {
    pub initialization: Option<Seq<char>>,
    pub media: Option<Seq<char>>,
    pub start_number: Option<usize>,
    pub timescale: Option<u64>,
    pub duration: Option<u64>,
}

/// How the segments of a track are addressed and how long each lasts.
#[derive(Debug)]
pub struct SegmentTemplate {
    /// The path template of the initialization segment.
    pub initialization: Option<String>,
    /// The path template of the media segments.
    pub media: Option<String>,
    /// The number of the first media segment.
    pub start_number: Option<usize>,
    /// Ticks per second; 1 where none is given.
    pub timescale: Option<u64>,
    /// The length of each segment, in ticks.
    pub duration: Option<u64>,
}

impl View for SegmentTemplate {
    type V = SegmentTemplateView;

    open spec fn view(&self) -> SegmentTemplateView {
        SegmentTemplateView {
            initialization: self.initialization.deep_view(),
            media: self.media.deep_view(),
            start_number: self.start_number,
            timescale: self.timescale,
            duration: self.duration,
        }
    }
}

impl DeepView for SegmentTemplate {
    type V = SegmentTemplateView;

    open spec fn deep_view(&self) -> SegmentTemplateView {
        self@
    }
}

/// The length of a span of time as a count of ticks and the ticks per second.
#[derive(Clone, Copy, Debug, PartialEq, Eq, Structural)]
pub struct TickSpan {
    pub ticks: u64,
    pub timescale: u64,
}

/// The attributes that an adaptation set and a representation share, as a
/// mathematical value.
pub struct CommonView {
    pub mime_type: Option<Seq<char>>,
    pub codecs: Option<Seq<char>>,
    pub content_type: Option<Seq<char>>,
    pub segment_template: Option<SegmentTemplateView>,
}

/// The attributes that both an adaptation set and a representation may give.
#[derive(Debug)]
pub struct Common {
    pub mime_type: Option<String>,
    pub codecs: Option<String>,
    pub content_type: Option<String>,
    pub segment_template: Option<SegmentTemplate>,
}

impl View for Common {
    type V = CommonView;

    open spec fn view(&self) -> CommonView {
        CommonView {
            mime_type: self.mime_type.deep_view(),
            codecs: self.codecs.deep_view(),
            content_type: self.content_type.deep_view(),
            segment_template: self.segment_template.deep_view(),
        }
    }
}

impl DeepView for Common {
    type V = CommonView;

    open spec fn deep_view(&self) -> CommonView {
        self@
    }
}

/// A representation as a mathematical value.
pub struct RepresentationView {
    pub id: Option<Seq<char>>,
    pub bandwidth: Option<u64>,
    pub width: Option<u64>,
    pub height: Option<u64>,
    pub common: CommonView,
}

/// One encoding of an adaptation set's content.
#[derive(Debug)]
pub struct Representation {
    pub id: Option<String>,
    pub bandwidth: Option<u64>,
    pub width: Option<u64>,
    pub height: Option<u64>,
    pub common: Common,
}

impl View for Representation {
    type V = RepresentationView;

    open spec fn view(&self) -> RepresentationView {
        RepresentationView {
            id: self.id.deep_view(),
            bandwidth: self.bandwidth,
            width: self.width,
            height: self.height,
            common: self.common@,
        }
    }
}

impl DeepView for Representation {
    type V = RepresentationView;

    open spec fn deep_view(&self) -> RepresentationView {
        self@
    }
}

/// An adaptation set as a mathematical value.
pub struct AdaptationSetView {
    pub common: CommonView,
    pub representations: Seq<RepresentationView>,
}

/// Interchangeable encodings of one piece of content.
#[derive(Debug)]
pub struct AdaptationSet {
    pub common: Common,
    pub representations: Vec<Representation>,
}

impl View for AdaptationSet {
    type V = AdaptationSetView;

    open spec fn view(&self) -> AdaptationSetView {
        AdaptationSetView {
            common: self.common@,
            representations: self.representations.deep_view(),
        }
    }
}

impl DeepView for AdaptationSet {
    type V = AdaptationSetView;

    open spec fn deep_view(&self) -> AdaptationSetView {
        self@
    }
}

/// A stretch of the presentation with its adaptation sets.
#[derive(Debug)]
pub struct Period {
    pub adaptations: Vec<AdaptationSet>,
}

impl View for Period {
    type V = Seq<AdaptationSetView>;

    open spec fn view(&self) -> Seq<AdaptationSetView> {
        self.adaptations.deep_view()
    }
}

impl DeepView for Period {
    type V = Seq<AdaptationSetView>;

    open spec fn deep_view(&self) -> Seq<AdaptationSetView> {
        self@
    }
}

/// A track as a mathematical value: a representation and what its adaptation
/// set says for all its representations.
pub struct TrackView {
    pub representation: RepresentationView,
    pub adaptation: CommonView,
}

/// The one of two values that is asked first, or else the other.
pub open spec fn first_of<T>(first: Option<T>, second: Option<T>) -> Option<T> {
    if first is Some {
        first
    } else {
        second
    }
}

/// `pat` stands somewhere in `s`.
pub open spec fn holds(s: Seq<char>, pat: Seq<char>) -> bool {
    exists|i: int| starts_at(s, pat, i)
}

/// `pat` stands somewhere in the text, if there is a text.
pub open spec fn names(text: Option<Seq<char>>, pat: Seq<char>) -> bool {
    text is Some && holds(text->0, pat)
}

impl TrackView {
    /// The representation's identifier, or the empty text where it has none.
    pub open spec fn id(self) -> Seq<char> {
        match self.representation.id {
            Some(id) => id,
            None => Seq::empty(),
        }
    }

    /// The MIME type: the adaptation set's, or else the representation's.
    pub open spec fn mime(self) -> Option<Seq<char>> {
        first_of(self.adaptation.mime_type, self.representation.common.mime_type)
    }

    /// The content type: the adaptation set's, or else the representation's.
    pub open spec fn content_type(self) -> Option<Seq<char>> {
        first_of(self.adaptation.content_type, self.representation.common.content_type)
    }

    /// The codec string: the representation's, or else the adaptation set's.
    pub open spec fn codecs(self) -> Option<Seq<char>> {
        first_of(self.representation.common.codecs, self.adaptation.codecs)
    }

    /// The segment template: the representation's, and the adaptation set's
    /// only where the representation has none.
    pub open spec fn segment_template(self) -> Option<SegmentTemplateView> {
        first_of(self.representation.common.segment_template, self.adaptation.segment_template)
    }

    /// The MIME type or the content type holds `category`.
    pub open spec fn is_of(self, category: Seq<char>) -> bool {
        names(self.mime(), category) || names(self.content_type(), category)
    }

    /// The template of the initialization segment's path.
    pub open spec fn initialization(self) -> Result<Seq<char>, ConfigError> {
        match self.segment_template() {
            None => Err(ConfigError::MissingSegmentTemplate),
            Some(template) => match template.initialization {
                None => Err(ConfigError::MissingInitialization),
                Some(path) => Ok(path),
            },
        }
    }

    /// The template of the media segments' paths.
    pub open spec fn media(self) -> Result<Seq<char>, ConfigError> {
        match self.segment_template() {
            None => Err(ConfigError::MissingSegmentTemplate),
            Some(template) => match template.media {
                None => Err(ConfigError::MissingMedia),
                Some(path) => Ok(path),
            },
        }
    }

    /// The number of the first media segment.
    pub open spec fn start_number(self) -> Result<usize, ConfigError> {
        match self.segment_template() {
            None => Err(ConfigError::MissingSegmentTemplate),
            Some(template) => match template.start_number {
                None => Err(ConfigError::MissingStartNumber),
                Some(number) => Ok(number),
            },
        }
    }

    /// The length of each segment: the template's duration over its
    /// timescale, the timescale being 1 where the template gives none.
    pub open spec fn segment_duration(self) -> Option<TickSpan> {
        match self.segment_template() {
            None => None,
            Some(template) => match template.duration {
                None => None,
                Some(ticks) => Some(
                    TickSpan {
                        ticks,
                        timescale: match template.timescale {
                            Some(timescale) => timescale,
                            None => 1,
                        },
                    },
                ),
            },
        }
    }
}

/// One representation of the manifest together with what its adaptation set
/// says for it.
#[derive(Debug)]
pub struct Track {
    representation: Representation,
    adaptation: Common,
}

impl View for Track {
    type V = TrackView;

    closed spec fn view(&self) -> TrackView {
        TrackView { representation: self.representation@, adaptation: self.adaptation@ }
    }
}

impl DeepView for Track {
    type V = TrackView;

    open spec fn deep_view(&self) -> TrackView {
        self@
    }
}

/// A copy of a text that may be absent.
fn copy_text(text: &Option<String>) -> (copy: Option<String>)
    ensures
        copy.deep_view() == text.deep_view(),
{
    match text {
        None => None,
        Some(text) => Some(text.clone()),
    }
}

impl SegmentTemplate {
    /// A copy of the template.
    pub fn duplicate(&self) -> (copy: SegmentTemplate)
        ensures
            copy@ == self@,
    {
        SegmentTemplate {
            initialization: copy_text(&self.initialization),
            media: copy_text(&self.media),
            start_number: self.start_number,
            timescale: self.timescale,
            duration: self.duration,
        }
    }
}

impl Common {
    /// A copy of the attributes.
    pub fn duplicate(&self) -> (copy: Common)
        ensures
            copy@ == self@,
    {
        Common {
            mime_type: copy_text(&self.mime_type),
            codecs: copy_text(&self.codecs),
            content_type: copy_text(&self.content_type),
            segment_template: match &self.segment_template {
                None => None,
                Some(template) => Some(template.duplicate()),
            },
        }
    }
}

impl Representation {
    /// A copy of the representation.
    pub fn duplicate(&self) -> (copy: Representation)
        ensures
            copy@ == self@,
    {
        Representation {
            id: copy_text(&self.id),
            bandwidth: self.bandwidth,
            width: self.width,
            height: self.height,
            common: self.common.duplicate(),
        }
    }
}

/// Whether `pat` stands somewhere in `s`.
fn chars_hold(s: &Vec<char>, pat: &Vec<char>) -> (found: bool)
    ensures
        found == holds(s@, pat@),
{
    let len: usize = s.len();
    let mut i: usize = 0;
    while i < len
        invariant
            i <= len == s@.len(),
            forall|j: int| 0 <= j < i ==> !starts_at(s@, pat@, j),
        decreases len - i,
    {
        if matches_at(s, pat, i) {
            return true;
        }
        i += 1;
    }
    matches_at(s, pat, len)
}

/// Whether `pat` stands somewhere in `text`.
fn text_holds(text: &Option<String>, pat: &str) -> (found: bool)
    ensures
        found == names(text.deep_view(), pat@),
{
    match text {
        None => false,
        Some(text) => chars_hold(&chars_of(text.as_str()), &chars_of(pat)),
    }
}

impl Track {
    /// The track of `representation` in an adaptation set that says `adaptation`.
    pub fn new(representation: Representation, adaptation: Common) -> (track: Track)
        ensures
            track@ == (TrackView { representation: representation@, adaptation: adaptation@ }),
    {
        Track { representation, adaptation }
    }

    /// A copy of the track.
    pub fn duplicate(&self) -> (copy: Track)
        ensures
            copy@ == self@,
    {
        Track {
            representation: self.representation.duplicate(),
            adaptation: self.adaptation.duplicate(),
        }
    }

    /// The representation's identifier, or the empty text where it has none.
    pub fn id(&self) -> (id: String)
        ensures
            id@ == self@.id(),
    {
        match &self.representation.id {
            Some(id) => id.clone(),
            None => String::new(),
        }
    }

    /// The segment template: the representation's, and the adaptation set's
    /// only where the representation has none.
    pub fn segment_template(&self) -> (template: Option<&SegmentTemplate>)
        ensures
            template.deep_view() == self@.segment_template(),
    {
        match &self.representation.common.segment_template {
            Some(template) => Some(template),
            None => match &self.adaptation.segment_template {
                Some(template) => Some(template),
                None => None,
            },
        }
    }

    /// Whether the MIME type or the content type holds `video`.
    pub fn is_video(&self) -> (video: bool)
        ensures
            video == self@.is_of("video"@),
    {
        self.is_of("video")
    }

    /// Whether the MIME type or the content type holds `audio`.
    pub fn is_audio(&self) -> (audio: bool)
        ensures
            audio == self@.is_of("audio"@),
    {
        self.is_of("audio")
    }

    /// Whether the MIME type or the content type holds `category`.
    pub fn is_of(&self, category: &str) -> (found: bool)
        ensures
            found == self@.is_of(category@),
    {
        let mime = match &self.adaptation.mime_type {
            Some(_) => text_holds(&self.adaptation.mime_type, category),
            None => text_holds(&self.representation.common.mime_type, category),
        };
        let content_type = match &self.adaptation.content_type {
            Some(_) => text_holds(&self.adaptation.content_type, category),
            None => text_holds(&self.representation.common.content_type, category),
        };
        mime || content_type
    }

    /// The MIME type: the adaptation set's, or else the representation's.
    pub fn mime(&self) -> (mime: Result<String, ConfigError>)
        ensures
            match mime {
                Ok(text) => self@.mime() == Some(text@),
                Err(e) => self@.mime() is None && e == ConfigError::MissingMime,
            },
    {
        match &self.adaptation.mime_type {
            Some(text) => Ok(text.clone()),
            None => match &self.representation.common.mime_type {
                Some(text) => Ok(text.clone()),
                None => Err(ConfigError::MissingMime),
            },
        }
    }

    /// The codec string: the representation's, or else the adaptation set's.
    pub fn codecs(&self) -> (codecs: Result<String, ConfigError>)
        ensures
            match codecs {
                Ok(text) => self@.codecs() == Some(text@),
                Err(e) => self@.codecs() is None && e == ConfigError::MissingCodecs,
            },
    {
        match &self.representation.common.codecs {
            Some(text) => Ok(text.clone()),
            None => match &self.adaptation.codecs {
                Some(text) => Ok(text.clone()),
                None => Err(ConfigError::MissingCodecs),
            },
        }
    }

    /// The content type: the adaptation set's, or else the representation's.
    pub fn content_type(&self) -> (content_type: Result<String, ConfigError>)
        ensures
            match content_type {
                Ok(text) => self@.content_type() == Some(text@),
                Err(e) => self@.content_type() is None && e == ConfigError::MissingContentType,
            },
    {
        match &self.adaptation.content_type {
            Some(text) => Ok(text.clone()),
            None => match &self.representation.common.content_type {
                Some(text) => Ok(text.clone()),
                None => Err(ConfigError::MissingContentType),
            },
        }
    }

    /// The template of the initialization segment's path. Fails where the
    /// track has no segment template, or the template no initialization.
    pub fn initialization(&self) -> (template: Result<ChunkTemplate, ConfigError>)
        ensures
            match template {
                Ok(chunk) => self@.initialization() == Ok::<_, ConfigError>(chunk@),
                Err(e) => self@.initialization() == Err::<Seq<char>, _>(e),
            },
    {
        match self.segment_template() {
            None => Err(ConfigError::MissingSegmentTemplate),
            Some(template) => match &template.initialization {
                None => Err(ConfigError::MissingInitialization),
                Some(path) => Ok(ChunkTemplate::from(path.clone())),
            },
        }
    }

    /// The template of the media segments' paths. Fails where the track has
    /// no segment template, or the template no media.
    pub fn media(&self) -> (template: Result<ChunkTemplate, ConfigError>)
        ensures
            match template {
                Ok(chunk) => self@.media() == Ok::<_, ConfigError>(chunk@),
                Err(e) => self@.media() == Err::<Seq<char>, _>(e),
            },
    {
        match self.segment_template() {
            None => Err(ConfigError::MissingSegmentTemplate),
            Some(template) => match &template.media {
                None => Err(ConfigError::MissingMedia),
                Some(path) => Ok(ChunkTemplate::from(path.clone())),
            },
        }
    }

    /// The number of the first media segment. Fails where the track has no
    /// segment template, or the template no start number.
    pub fn start_number(&self) -> (number: Result<usize, ConfigError>)
        ensures
            number == self@.start_number(),
    {
        match self.segment_template() {
            None => Err(ConfigError::MissingSegmentTemplate),
            Some(template) => match template.start_number {
                None => Err(ConfigError::MissingStartNumber),
                Some(number) => Ok(number),
            },
        }
    }

    /// The length of each segment, where the template gives one.
    pub fn segment_duration(&self) -> (span: Option<TickSpan>)
        ensures
            span == self@.segment_duration(),
    {
        match self.segment_template() {
            None => None,
            Some(template) => match template.duration {
                None => None,
                Some(ticks) => Some(
                    TickSpan {
                        ticks,
                        timescale: match template.timescale {
                            Some(timescale) => timescale,
                            None => 1,
                        },
                    },
                ),
            },
        }
    }

    /// The bits per second that the representation needs.
    pub fn bitrate(&self) -> (bandwidth: Option<u64>)
        ensures
            bandwidth == self@.representation.bandwidth,
    {
        self.representation.bandwidth
    }

    /// The width of the picture.
    pub fn width(&self) -> (width: Option<u64>)
        ensures
            width == self@.representation.width,
    {
        self.representation.width
    }

    /// The height of the picture.
    pub fn height(&self) -> (height: Option<u64>)
        ensures
            height == self@.representation.height,
    {
        self.representation.height
    }
}

/// The path template of a segment, with placeholders still in it or resolved.
#[derive(Debug)]
pub struct ChunkTemplate {
    template: String,
}

impl View for ChunkTemplate {
    type V = Seq<char>;

    closed spec fn view(&self) -> Seq<char> {
        self.template@
    }
}

impl ChunkTemplate {
    /// Puts the representation's identifier in for `RepresentationID`.
    pub fn set_id(&mut self, id: String)
        ensures
            final(self)@ == resolved(old(self)@, "RepresentationID"@, id@),
    {
        self.template = resolve_url_template(self.template.as_str(), ("RepresentationID", id));
    }

    /// Puts the segment's number, written in decimal, in for `Number`.
    pub fn set_number(&mut self, number: usize)
        ensures
            final(self)@ == resolved(old(self)@, "Number"@, decimal(number as nat)),
    {
        let mut digits: Vec<char> = Vec::new();
        push_decimal(&mut digits, number);
        let value = crate::template::text_of(&digits);
        self.template = resolve_url_template(self.template.as_str(), ("Number", value));
    }

    /// The template as it stands.
    pub fn as_str(&self) -> (text: &str)
        ensures
            text@ == self@,
    {
        self.template.as_str()
    }

    /// The template as it stands, as a text of its own.
    pub fn to_string(&self) -> (text: String)
        ensures
            text@ == self@,
    {
        self.template.clone()
    }
}

impl From<String> for ChunkTemplate {
    fn from(template: String) -> (chunk: ChunkTemplate) {
        Self { template }
    }
}

impl FromSpecImpl<String> for ChunkTemplate {
    open spec fn obeys_from_spec() -> bool {
        true
    }

    closed spec fn from_spec(template: String) -> ChunkTemplate {
        ChunkTemplate { template }
    }
}

/// The template made from a text holds that text.
pub proof fn lemma_chunk_from(template: String)
    ensures
        <ChunkTemplate as FromSpec<String>>::from_spec(template)@ == template@,
{
}

/// The tracks of one adaptation set: one for each representation, in order.
pub open spec fn adaptation_tracks(adaptation: AdaptationSetView) -> Seq<TrackView> {
    Seq::new(
        adaptation.representations.len(),
        |i: int|
            TrackView { representation: adaptation.representations[i], adaptation: adaptation.common },
    )
}

/// The tracks of one period: those of its adaptation sets, in order.
pub open spec fn period_tracks(period: Seq<AdaptationSetView>) -> Seq<TrackView>
    decreases period.len(),
{
    if period.len() == 0 {
        Seq::empty()
    } else {
        period_tracks(period.drop_last()) + adaptation_tracks(period.last())
    }
}

/// The tracks of a presentation: those of its periods, in order.
pub open spec fn manifest_tracks(periods: Seq<Seq<AdaptationSetView>>) -> Seq<TrackView>
    decreases periods.len(),
{
    if periods.len() == 0 {
        Seq::empty()
    } else {
        manifest_tracks(periods.drop_last()) + period_tracks(periods.last())
    }
}

/// A manifest as a mathematical value.
pub struct ManifestView {
    pub duration: Option<u64>,
    pub periods: Seq<Seq<AdaptationSetView>>,
}

/// A decoded manifest: how long the presentation lasts, and its periods.
#[derive(Debug)]
pub struct Manifest {
    duration: Option<u64>,
    periods: Vec<Period>,
}

impl View for Manifest {
    type V = ManifestView;

    closed spec fn view(&self) -> ManifestView {
        ManifestView { duration: self.duration, periods: self.periods.deep_view() }
    }
}

impl Manifest {
    /// The manifest of a presentation that lasts `duration` milliseconds, if
    /// it says how long it lasts, and is made of `periods`.
    pub fn new(duration: Option<u64>, periods: Vec<Period>) -> (manifest: Manifest)
        ensures
            manifest@ == (ManifestView { duration, periods: periods.deep_view() }),
    {
        Manifest { duration, periods }
    }

    /// How long the presentation lasts, in milliseconds, if the manifest
    /// declares it.
    pub fn duration(&self) -> (duration: Option<u64>)
        ensures
            duration == self@.duration,
    {
        self.duration
    }

    /// Every representation of every adaptation set of every period, in the
    /// manifest's order, each with what its adaptation set says for it.
    pub fn tracks(&self) -> (tracks: Vec<Track>)
        ensures
            tracks.deep_view() == manifest_tracks(self@.periods),
    {
        let mut tracks: Vec<Track> = Vec::new();
        let ghost periods = self.periods.deep_view();
        let mut p: usize = 0;
        assert(tracks.deep_view() =~= manifest_tracks(periods.take(0)));
        while p < self.periods.len()
            invariant
                p <= self.periods@.len(),
                periods == self.periods.deep_view(),
                tracks.deep_view() == manifest_tracks(periods.take(p as int)),
            decreases self.periods@.len() - p,
        {
            let period = &self.periods[p];
            let ghost adaptations = period.adaptations.deep_view();
            let ghost before = tracks.deep_view();
            let mut a: usize = 0;
            assert(tracks.deep_view() =~= before + period_tracks(adaptations.take(0)));
            while a < period.adaptations.len()
                invariant
                    a <= period.adaptations@.len(),
                    adaptations == period.adaptations.deep_view(),
                    tracks.deep_view() == before + period_tracks(adaptations.take(a as int)),
                decreases period.adaptations@.len() - a,
            {
                let adaptation = &period.adaptations[a];
                let ghost want = adaptation_tracks(adaptation@);
                let ghost so_far = tracks.deep_view();
                let mut r: usize = 0;
                assert(tracks.deep_view() =~= so_far + want.take(0));
                while r < adaptation.representations.len()
                    invariant
                        r <= adaptation.representations@.len(),
                        want == adaptation_tracks(adaptation@),
                        tracks.deep_view() == so_far + want.take(r as int),
                    decreases adaptation.representations@.len() - r,
                {
                    let track = Track::new(
                        adaptation.representations[r].duplicate(),
                        adaptation.common.duplicate(),
                    );
                    let ghost old_tracks = tracks.deep_view();
                    tracks.push(track);
                    r += 1;
                    assert(tracks.deep_view() =~= old_tracks.push(track@));
                    assert(tracks.deep_view() =~= so_far + want.take(r as int));
                }
                a += 1;
                proof {
                    assert(want.take(r as int) =~= want);
                    assert(adaptations.take(a as int).drop_last() =~= adaptations.take(a - 1));
                    assert(adaptations.take(a as int).last() == adaptation@);
                    assert(tracks.deep_view() =~= before + period_tracks(
                        adaptations.take(a as int),
                    ));
                }
            }
            p += 1;
            proof {
                assert(adaptations.take(a as int) =~= adaptations);
                assert(periods.take(p as int).drop_last() =~= periods.take(p - 1));
                assert(periods.take(p as int).last() == period@);
            }
        }
        assert(periods.take(p as int) =~= periods);
        tracks
    }
}

} // verus!
