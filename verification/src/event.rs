//! The events of a live session, and the audio a transcription starts from.
use crate::path::FilePath;
use crate::text;
use vstd::prelude::*;

verus! {

#[derive(Debug, Clone, Copy, PartialEq, Eq, Structural)]
pub enum AudioChannel {
    Mic,
    Speaker,
    File,
}

/// A stretch of audio. Each end is a number of seconds from the start of the recording,
/// as it is written in JSON.
#[derive(Debug, Clone, PartialEq, Eq)]
pub struct AudioRange {
    pub start: String,
    pub end: String,
}

/// How sure the recogniser is, each value as it is written in JSON.
#[derive(Debug, Clone, PartialEq, Eq)]
pub struct TranscriptConfidence {
    pub mean: String,
    pub min: String,
}

pub open spec fn range_of(o: Option<AudioRange>) -> Option<(Seq<char>, Seq<char>)> {
    match o {
        Some(r) => Some((r.start@, r.end@)),
        None => None,
    }
}

pub open spec fn confidence_of(o: Option<TranscriptConfidence>) -> Option<(Seq<char>, Seq<char>)> {
    match o {
        Some(c) => Some((c.mean@, c.min@)),
        None => None,
    }
}

fn copy_range(o: &Option<AudioRange>) -> (r: Option<AudioRange>)
    ensures
        range_of(r) == range_of(*o),
{
    match o {
        Some(r) => Some(
            AudioRange { start: text::copy(r.start.as_str()), end: text::copy(r.end.as_str()) },
        ),
        None => None,
    }
}

fn copy_confidence(o: &Option<TranscriptConfidence>) -> (r: Option<TranscriptConfidence>)
    ensures
        confidence_of(r) == confidence_of(*o),
{
    match o {
        Some(c) => Some(
            TranscriptConfidence {
                mean: text::copy(c.mean.as_str()),
                min: text::copy(c.min.as_str()),
            },
        ),
        None => None,
    }
}

#[derive(Debug, Clone, PartialEq, Eq)]
pub struct TranscriptSource {
    pub lang: String,
    pub text: String,
    pub confidence: Option<TranscriptConfidence>,
}

#[derive(Debug, Clone, PartialEq, Eq)]
pub struct TranscriptTarget {
    pub lang: String,
    pub text: String,
}

/// The earliest and the latest second that a timestamp can stand for.
pub const FIRST_SECOND: i64 = -377_705_023_201;

pub const LAST_SECOND: i64 = 253_402_207_200;

/// A moment: its distance from the Unix epoch, and the text it is written as.
#[derive(Debug, Clone, PartialEq, Eq)]
pub struct EventTimestamp {
    pub nanosecond: i128,
    pub formatted: String,
}

/// What jiff's `Timestamp` is displayed as, for a whole second of Unix time.
pub uninterp spec fn second_text(second: i64) -> Seq<char>;

/// `jiff::Timestamp::from_second`, with the timestamp's nanoseconds since the
/// epoch and the text it displays as. It fails outside the range of timestamps.
#[verifier::external_body]
fn timestamp_of_second(second: i64) -> (r: Option<(i128, String)>)
    ensures
        r is Some <==> FIRST_SECOND <= second <= LAST_SECOND,
        r matches Some(t) ==> t.0 == second * 1_000_000_000 && t.1@ == second_text(second),
{
    match jiff::Timestamp::from_second(second) {
        Ok(timestamp) => Some((timestamp.as_nanosecond(), timestamp.to_string())),
        Err(_) => None,
    }
}

/// The moment that jiff's parser reads from a text, in nanoseconds since the epoch.
pub uninterp spec fn read_timestamp(text: Seq<char>) -> Option<i128>;

/// `jiff::fmt::temporal::DateTimeParser::parse_timestamp`.
#[verifier::external_body]
fn parse_timestamp(text: &str) -> (r: Option<i128>)
    ensures
        r == read_timestamp(text@),
{
    match jiff::fmt::temporal::DateTimeParser::new().parse_timestamp(text) {
        Ok(timestamp) => Some(timestamp.as_nanosecond()),
        Err(_) => None,
    }
}

impl EventTimestamp {
    /// The timestamp of a second of Unix time, where there is one.
    pub fn from_unix_second(seconds: i64) -> (r: Option<EventTimestamp>)
        ensures
            r is Some <==> FIRST_SECOND <= seconds <= LAST_SECOND,
            r matches Some(t) ==> t.nanosecond == seconds * 1_000_000_000 && t.formatted@
                == second_text(seconds),
    {
        match timestamp_of_second(seconds) {
            Some((nanosecond, formatted)) => Some(EventTimestamp { nanosecond, formatted }),
            None => None,
        }
    }

    /// Reads a timestamp and keeps the text it was written as.
    pub fn parse(text: &str) -> (r: Option<EventTimestamp>)
        ensures
            match r {
                Some(t) => read_timestamp(text@) == Some(t.nanosecond) && t.formatted@ == text@,
                None => read_timestamp(text@) is None,
            },
    {
        let moment = parse_timestamp(text);
        Self::of_moment(moment, text)
    }

    /// The timestamp for a moment that was read from `text`.
    pub fn of_moment(moment: Option<i128>, text: &str) -> (r: Option<EventTimestamp>)
        ensures
            match moment {
                Some(n) => r is Some && r->0.nanosecond == n && r->0.formatted@ == text@,
                None => r is None,
            },
    {
        match moment {
            Some(nanosecond) => Some(EventTimestamp { nanosecond, formatted: text::copy(text) }),
            None => None,
        }
    }

    pub fn copied(&self) -> (r: EventTimestamp)
        ensures
            r.same_as(*self),
    {
        EventTimestamp { nanosecond: self.nanosecond, formatted: text::copy(self.formatted.as_str()) }
    }

    pub open spec fn same_as(self, other: EventTimestamp) -> bool {
        self.nanosecond == other.nanosecond && self.formatted@ == other.formatted@
    }
}

#[derive(Debug, Clone, PartialEq, Eq)]
pub struct TranscriptEvent {
    pub seq: u64,
    pub channel: AudioChannel,
    pub timestamp: EventTimestamp,
    pub audio: Option<AudioRange>,
    pub src: TranscriptSource,
    pub dst: Option<TranscriptTarget>,
}

/// What an event says.
#[verifier::ext_equal]
pub struct EventView {
    pub seq: u64,
    pub channel: AudioChannel,
    pub nanosecond: i128,
    pub formatted: Seq<char>,
    /// The stretch of audio: where it begins and ends.
    pub audio: Option<(Seq<char>, Seq<char>)>,
    pub lang: Seq<char>,
    pub text: Seq<char>,
    /// How sure the recogniser is: on average and at least.
    pub confidence: Option<(Seq<char>, Seq<char>)>,
    /// The translation: its language and its text.
    pub translation: Option<(Seq<char>, Seq<char>)>,
}

impl View for TranscriptEvent {
    type V = EventView;

    open spec fn view(&self) -> EventView {
        EventView {
            seq: self.seq,
            channel: self.channel,
            nanosecond: self.timestamp.nanosecond,
            formatted: self.timestamp.formatted@,
            audio: range_of(self.audio),
            lang: self.src.lang@,
            text: self.src.text@,
            confidence: confidence_of(self.src.confidence),
            translation: match self.dst {
                Some(t) => Some((t.lang@, t.text@)),
                None => None,
            },
        }
    }
}

impl TranscriptEvent {
    pub fn copied(&self) -> (r: TranscriptEvent)
        ensures
            r@ == self@,
    {
        TranscriptEvent {
            seq: self.seq,
            channel: self.channel,
            timestamp: self.timestamp.copied(),
            audio: copy_range(&self.audio),
            src: TranscriptSource {
                lang: text::copy(self.src.lang.as_str()),
                text: text::copy(self.src.text.as_str()),
                confidence: copy_confidence(&self.src.confidence),
            },
            dst: match &self.dst {
                Some(t) => Some(
                    TranscriptTarget { lang: text::copy(t.lang.as_str()), text: text::copy(t.text.as_str()) },
                ),
                None => None,
            },
        }
    }
}

#[derive(Debug, Clone, PartialEq, Eq)]
pub struct LiveDeviceEvent {
    pub channel: AudioChannel,
    pub name: String,
    pub pinned: bool,
}

#[derive(Debug, Clone, PartialEq, Eq)]
pub struct LiveMetaEvent {
    pub backend: String,
    pub src: String,
    pub dst: Option<String>,
    pub mic: bool,
    pub speaker: bool,
    pub devices: Vec<LiveDeviceEvent>,
}

#[derive(Debug, Clone, Copy, PartialEq, Eq, Structural)]
pub enum LiveStatusPhase {
    Recording,
    Transcribing,
    Recovering,
}

#[derive(Debug, Clone, PartialEq, Eq)]
pub struct LiveStatusEvent {
    pub phase: LiveStatusPhase,
    pub message: String,
    pub detail: Option<String>,
}

impl LiveStatusEvent {
    /// The status with that phase, message and detail.
    pub open spec fn says(
        self,
        phase: LiveStatusPhase,
        message: Seq<char>,
        detail: Option<Seq<char>>,
    ) -> bool {
        self.phase == phase && self.message@ == message && text::text_of(self.detail) == detail
    }

    pub fn new(phase: LiveStatusPhase, message: &str, detail: Option<String>) -> (r:
        LiveStatusEvent)
        ensures
            r.says(phase, message@, text::text_of(detail)),
    {
        LiveStatusEvent { phase, message: text::copy(message), detail }
    }
}

#[derive(Debug, Clone, PartialEq, Eq)]
pub struct LiveVolatileEvent {
    pub channel: AudioChannel,
    pub text: String,
}

#[derive(Debug, Clone, PartialEq, Eq)]
pub struct LiveTranslatedEvent {
    pub seq: u64,
    pub lang: Option<String>,
    pub text: String,
}

#[derive(Debug, Clone, PartialEq, Eq)]
pub enum LiveEvent {
    Meta(LiveMetaEvent),
    Status(LiveStatusEvent),
    Volatile(LiveVolatileEvent),
    Finalized(TranscriptEvent),
    Translated(LiveTranslatedEvent),
    Eof,
}

/// What a live event says.
pub enum LiveEventView {
    Meta {
        backend: Seq<char>,
        src: Seq<char>,
        dst: Option<Seq<char>>,
        mic: bool,
        speaker: bool,
        /// The devices: their channels, their names, and whether they are pinned.
        devices: Seq<(AudioChannel, Seq<char>, bool)>,
    },
    Status { phase: LiveStatusPhase, message: Seq<char>, detail: Option<Seq<char>> },
    Volatile { channel: AudioChannel, text: Seq<char> },
    Finalized(EventView),
    Translated { seq: u64, lang: Option<Seq<char>>, text: Seq<char> },
    Eof,
}

pub open spec fn devices(v: Seq<LiveDeviceEvent>) -> Seq<(AudioChannel, Seq<char>, bool)> {
    v.map_values(|d: LiveDeviceEvent| (d.channel, d.name@, d.pinned))
}

impl View for LiveEvent {
    type V = LiveEventView;

    open spec fn view(&self) -> LiveEventView {
        match self {
            LiveEvent::Meta(m) => LiveEventView::Meta {
                backend: m.backend@,
                src: m.src@,
                dst: text::text_of(m.dst),
                mic: m.mic,
                speaker: m.speaker,
                devices: devices(m.devices@),
            },
            LiveEvent::Status(s) => LiveEventView::Status {
                phase: s.phase,
                message: s.message@,
                detail: text::text_of(s.detail),
            },
            LiveEvent::Volatile(v) => LiveEventView::Volatile { channel: v.channel, text: v.text@ },
            LiveEvent::Finalized(e) => LiveEventView::Finalized(e@),
            LiveEvent::Translated(t) => LiveEventView::Translated {
                seq: t.seq,
                lang: text::text_of(t.lang),
                text: t.text@,
            },
            LiveEvent::Eof => LiveEventView::Eof,
        }
    }
}

/// What is to be transcribed.
#[derive(Debug, Clone, PartialEq, Eq)]
pub enum AudioInput {
    File(FilePath),
    Bytes { data: Vec<u8>, filename: String, mime_type: Option<String> },
}

impl AudioInput {
    /// The name the audio goes by: that of the file, or the given one.
    pub fn filename(&self) -> (r: String)
        ensures
            match self {
                AudioInput::File(path) => r@ == match path@.file_name() {
                    Some(name) => name,
                    None => "audio"@,
                },
                AudioInput::Bytes { filename, .. } => r@ == filename@,
            },
    {
        match self {
            AudioInput::File(path) => match path.file_name() {
                Some(name) => name,
                None => text::copy("audio"),
            },
            AudioInput::Bytes { filename, .. } => text::copy(filename.as_str()),
        }
    }
}

} // verus!
