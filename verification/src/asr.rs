//! What a speech recognition provider takes, gives and can do.
use crate::text;
use vstd::prelude::*;

verus! {

/// A span of time: whole seconds and the nanoseconds beyond them.
#[derive(Debug, Clone, Copy, PartialEq, Eq, Structural)]
pub struct Duration {
    pub secs: u64,
    pub nanos: u32,
}

impl Duration {
    pub open spec fn well_formed(self) -> bool {
        self.nanos < 1_000_000_000
    }

    pub open spec fn in_nanos(self) -> nat {
        (self.secs * 1_000_000_000 + self.nanos) as nat
    }

    pub fn from_secs(secs: u64) -> (r: Duration)
        ensures
            r == (Duration { secs, nanos: 0 }),
    {
        Duration { secs, nanos: 0 }
    }

    pub fn from_millis(millis: u64) -> (r: Duration)
        ensures
            r.well_formed(),
            r.in_nanos() == millis * 1_000_000,
    {
        let part: u32 = (millis % 1000) as u32;
        Duration { secs: millis / 1000, nanos: part * 1_000_000 }
    }
}

/// A span of time in seconds with one decimal, as std prints its double.
pub uninterp spec fn seconds_and_tenth(secs: u64, nanos: u32) -> Seq<char>;

/// `std::time::Duration::as_secs_f64`, printed with one decimal.
#[verifier::external_body]
fn print_seconds_and_tenth(secs: u64, nanos: u32) -> (r: String)
    requires
        nanos < 1_000_000_000,
    ensures
        r@ == seconds_and_tenth(secs, nanos),
{
    format!("{:.1}", std::time::Duration::new(secs, nanos).as_secs_f64())
}

impl Duration {
    /// The seconds as they are shown: whole where there are no milliseconds beyond them.
    pub open spec fn shown(self) -> Seq<char> {
        if self.nanos / 1_000_000 == 0 {
            text::decimal(self.secs as nat) + "s"@
        } else {
            seconds_and_tenth(self.secs, self.nanos) + "s"@
        }
    }

    pub fn show(&self) -> (r: String)
        requires
            self.well_formed(),
        ensures
            r@ == self.shown(),
    {
        if self.nanos / 1_000_000 == 0 {
            text::cat(text::number(self.secs).as_str(), "s")
        } else {
            text::cat(print_seconds_and_tenth(self.secs, self.nanos).as_str(), "s")
        }
    }
}

#[derive(Debug, Clone, Copy, PartialEq, Eq, Structural)]
pub enum ResponseFormat {
    Json,
    Text,
}

#[derive(Debug, Clone, PartialEq, Eq)]
pub struct AsrOptions {
    pub language: Option<String>,
    pub prompt: Option<String>,
    pub response_format: ResponseFormat,
}

impl Default for AsrOptions {
    fn default() -> (r: Self)
        ensures
            r.language is None,
            r.prompt is None,
            r.response_format is Json,
    {
        AsrOptions { language: None, prompt: None, response_format: ResponseFormat::Json }
    }
}

#[derive(Debug, Clone, PartialEq, Eq)]
pub struct Transcript {
    pub text: String,
    pub language: Option<String>,
}

#[derive(Debug, Clone, Copy, PartialEq, Eq, Structural)]
pub struct AsrCapabilities {
    pub batch_file: bool,
    pub streaming: bool,
    pub requires_network: bool,
}

#[derive(Debug, Clone, Copy, PartialEq, Eq, Structural)]
pub enum LiveModeKind {
    Streaming,
    Chunked,
}

#[derive(Debug, Clone, Copy, PartialEq, Eq, Structural)]
pub struct LiveCapabilities {
    pub mode: LiveModeKind,
    pub mic: bool,
    pub speaker: bool,
    pub streaming_audio: bool,
    pub partial_results: bool,
    pub finalized_results: bool,
    pub translation: bool,
    pub voice_processing: bool,
    pub device_selection: bool,
    pub ptt: bool,
    pub requires_network: bool,
    pub expected_latency: Option<Duration>,
}

#[derive(Debug, Clone, PartialEq, Eq)]
pub struct ProviderCapabilities {
    pub batch: AsrCapabilities,
    pub live: Option<LiveCapabilities>,
    pub notes: Vec<String>,
}

impl ProviderCapabilities {
    /// What a provider without a live mode offers.
    pub fn batch_only(batch: AsrCapabilities) -> (r: ProviderCapabilities)
        ensures
            r.batch == batch,
            r.live is None,
            r.notes@ == Seq::<String>::empty(),
    {
        ProviderCapabilities { batch, live: None, notes: Vec::new() }
    }

    pub fn copied(&self) -> (r: ProviderCapabilities)
        ensures
            r.batch == self.batch,
            r.live == self.live,
            text::texts(r.notes@) == text::texts(self.notes@),
    {
        ProviderCapabilities { batch: self.batch, live: self.live, notes: text::copy_all(&self.notes) }
    }
}

#[derive(Debug, Clone, PartialEq, Eq)]
pub struct LiveAsrOptions {
    pub src: Option<String>,
    pub dst: Option<String>,
    pub mic: bool,
    pub speaker: bool,
    pub voice_processing: bool,
    pub select_device: bool,
    pub chunk_duration: Duration,
}

impl Default for LiveAsrOptions {
    fn default() -> (r: Self)
        ensures
            r.src is None,
            r.dst is None,
            r.mic,
            !r.speaker,
            !r.voice_processing,
            !r.select_device,
            r.chunk_duration == (Duration { secs: 5, nanos: 0 }),
    {
        LiveAsrOptions {
            src: None,
            dst: None,
            mic: true,
            speaker: false,
            voice_processing: false,
            select_device: false,
            chunk_duration: Duration::from_secs(5),
        }
    }
}

/// Why a provider could not do what it was asked.
#[derive(Debug, Clone, PartialEq, Eq)]
pub enum AsrError {
    Config(String),
    Request(String),
    InvalidResponse(String),
    Input(String),
}

pub enum AsrErrorView {
    Config(Seq<char>),
    Request(Seq<char>),
    InvalidResponse(Seq<char>),
    Input(Seq<char>),
}

impl View for AsrError {
    type V = AsrErrorView;

    open spec fn view(&self) -> AsrErrorView {
        match self {
            AsrError::Config(m) => AsrErrorView::Config(m@),
            AsrError::Request(m) => AsrErrorView::Request(m@),
            AsrError::InvalidResponse(m) => AsrErrorView::InvalidResponse(m@),
            AsrError::Input(m) => AsrErrorView::Input(m@),
        }
    }
}

pub type AsrResult<T> = Result<T, AsrError>;

impl AsrErrorView {
    pub open spec fn words(self) -> Seq<char> {
        match self {
            AsrErrorView::Config(m) => "ASR configuration error: "@ + m,
            AsrErrorView::Request(m) => "ASR request failed: "@ + m,
            AsrErrorView::InvalidResponse(m) => "ASR provider returned invalid response: "@ + m,
            AsrErrorView::Input(m) => "ASR input error: "@ + m,
        }
    }
}

impl AsrError {
    pub open spec fn words(self) -> Seq<char> {
        self@.words()
    }

    /// The error in words.
    pub fn message(&self) -> (r: String)
        ensures
            r@ == self.words(),
    {
        match self {
            AsrError::Config(m) => text::cat("ASR configuration error: ", m.as_str()),
            AsrError::Request(m) => text::cat("ASR request failed: ", m.as_str()),
            AsrError::InvalidResponse(m) => text::cat(
                "ASR provider returned invalid response: ",
                m.as_str(),
            ),
            AsrError::Input(m) => text::cat("ASR input error: ", m.as_str()),
        }
    }
}

/// A provider of speech recognition: what it is called, and what it can do.
pub trait AsrProvider {
    spec fn called(&self) -> Seq<char>;

    spec fn offers(&self) -> AsrCapabilities;

    fn name(&self) -> (r: &'static str)
        ensures
            r@ == self.called(),
    ;

    fn capabilities(&self) -> (r: AsrCapabilities)
        ensures
            r == self.offers(),
    ;

    /// All that it can do: no more than what it does with files, unless it says so.
    fn provider_capabilities(&self) -> (r: ProviderCapabilities)
        ensures
            r.batch == self.offers(),
        default_ensures
            r.live is None,
            r.notes@ == Seq::<String>::empty(),
    {
        ProviderCapabilities::batch_only(self.capabilities())
    }
}

/// A provider that transcribes while someone speaks.
pub trait LiveAsrProvider {
    spec fn called_live(&self) -> Seq<char>;

    spec fn offers_live(&self) -> LiveCapabilities;

    fn live_name(&self) -> (r: &'static str)
        ensures
            r@ == self.called_live(),
    ;

    fn live_capabilities(&self) -> (r: LiveCapabilities)
        ensures
            r == self.offers_live(),
    ;
}

} // verus!
