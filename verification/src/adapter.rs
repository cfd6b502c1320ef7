//! Providers that run as processes of their own: the native adapter, its older
//! form, and installed provider packages.
//!
//! Such a process prints a JSON value on each line. The caller runs it, and asks
//! here what to hand it, what its lines say and when to stop.
use crate::asr::{
    AsrCapabilities, AsrError, AsrProvider, LiveAsrOptions, LiveAsrProvider, LiveCapabilities,
    LiveModeKind, Transcript,
};
#[allow(unused_imports)]
use crate::asr::AsrErrorView;
use crate::event::{AudioInput, LiveEvent};
#[allow(unused_imports)]
use crate::event::LiveEventView;
use crate::json;
use crate::json::{Json, JsonView};
use crate::jsonl;
use crate::path::FilePath;
use crate::text;
use vstd::prelude::*;
use vstd::string::*;

verus! {

#[derive(Debug, Clone, PartialEq, Eq)]
pub struct NativeAdapterConfig {
    pub command: String,
}

#[derive(Debug, Clone, PartialEq, Eq)]
pub struct AppleLegacyConfig {
    pub command: String,
}

/// The adapter to the speech recognition of the system.
pub struct NativeAdapterAsr {
    pub config: NativeAdapterConfig,
}

/// The older form of that adapter.
pub struct AppleLegacyAsr {
    pub config: AppleLegacyConfig,
}

impl NativeAdapterAsr {
    pub fn new(config: NativeAdapterConfig) -> (r: Result<NativeAdapterAsr, AsrError>)
        ensures
            r is Ok <==> config.command@.len() > 0,
            r matches Ok(a) ==> a.config == config,
            r matches Err(e) ==> e@ == AsrErrorView::Config("native adapter command is required"@),
    {
        if config.command.as_str().is_empty() {
            return Err(AsrError::Config(text::copy("native adapter command is required")));
        }
        Ok(NativeAdapterAsr { config })
    }
}

impl AppleLegacyAsr {
    pub fn new(config: AppleLegacyConfig) -> (r: Result<AppleLegacyAsr, AsrError>)
        ensures
            r is Ok <==> config.command@.len() > 0,
            r matches Ok(a) ==> a.config == config,
            r matches Err(e) ==> e@ == AsrErrorView::Config(
                "apple legacy adapter command is required"@,
            ),
    {
        if config.command.as_str().is_empty() {
            return Err(AsrError::Config(text::copy("apple legacy adapter command is required")));
        }
        Ok(AppleLegacyAsr { config })
    }
}

pub open spec fn live_offer() -> LiveCapabilities {
    LiveCapabilities {
        mode: LiveModeKind::Streaming,
        mic: true,
        speaker: true,
        streaming_audio: true,
        partial_results: true,
        finalized_results: true,
        translation: true,
        voice_processing: true,
        device_selection: true,
        ptt: false,
        requires_network: false,
        expected_latency: None,
    }
}

pub fn native_adapter_live_capabilities() -> (r: LiveCapabilities)
    ensures
        r == live_offer(),
{
    LiveCapabilities {
        mode: LiveModeKind::Streaming,
        mic: true,
        speaker: true,
        streaming_audio: true,
        partial_results: true,
        finalized_results: true,
        translation: true,
        voice_processing: true,
        device_selection: true,
        ptt: false,
        requires_network: false,
        expected_latency: None,
    }
}

/// What the adapters do with files.
pub fn adapter_capabilities() -> (r: AsrCapabilities)
    ensures
        r == (AsrCapabilities { batch_file: true, streaming: false, requires_network: false }),
{
    AsrCapabilities { batch_file: true, streaming: false, requires_network: false }
}

#[derive(Debug, Clone, PartialEq, Eq)]
pub struct NativeLiveOptions {
    pub src: Option<String>,
    pub dst: Option<String>,
    pub json: bool,
    pub transcript: Option<String>,
    pub mic: bool,
    pub speaker: bool,
    pub voice_processing: bool,
    pub select_device: bool,
}

/// The options of the older form are the same.
pub type AppleLiveOptions = NativeLiveOptions;

impl NativeLiveOptions {
    pub open spec fn of(options: LiveAsrOptions) -> NativeLiveOptions {
        NativeLiveOptions {
            src: options.src,
            dst: options.dst,
            json: true,
            transcript: None,
            mic: options.mic,
            speaker: options.speaker,
            voice_processing: options.voice_processing,
            select_device: options.select_device,
        }
    }
}

impl From<LiveAsrOptions> for NativeLiveOptions {
    fn from(options: LiveAsrOptions) -> (r: Self) {
        NativeLiveOptions {
            src: options.src,
            dst: options.dst,
            json: true,
            transcript: None,
            mic: options.mic,
            speaker: options.speaker,
            voice_processing: options.voice_processing,
            select_device: options.select_device,
        }
    }
}

impl vstd::std_specs::convert::FromSpecImpl<LiveAsrOptions> for NativeLiveOptions {
    open spec fn obeys_from_spec() -> bool {
        true
    }

    open spec fn from_spec(options: LiveAsrOptions) -> Self {
        NativeLiveOptions::of(options)
    }
}

/// A flag, where it is set.
pub open spec fn flag(set: bool, name: Seq<char>) -> Seq<Seq<char>> {
    if set {
        seq![name]
    } else {
        Seq::empty()
    }
}

/// An option with its value, where it has one.
pub open spec fn valued(name: Seq<char>, value: Option<Seq<char>>) -> Seq<Seq<char>> {
    match value {
        Some(v) => seq![name, v],
        None => Seq::empty(),
    }
}

/// The arguments of a live session.
pub open spec fn live_args(
    options: NativeLiveOptions,
    force_json: bool,
    event_json: bool,
    pass_transcript: bool,
) -> Seq<Seq<char>> {
    valued("--src"@, text::text_of(options.src)) + valued("--dst"@, text::text_of(options.dst))
        + flag(options.json || force_json, "--json"@) + flag(event_json, "--event-json"@) + (
    if pass_transcript {
        valued("--transcript"@, text::text_of(options.transcript))
    } else {
        Seq::empty()
    }) + flag(!options.mic, "--no-mic"@) + flag(!options.speaker, "--no-speaker"@) + flag(
        options.voice_processing,
        "--voice-processing"@,
    ) + flag(options.select_device, "--select-device"@)
}

pub fn push_flag(args: &mut Vec<String>, set: bool, name: &str)
    ensures
        text::texts(final(args)@) == text::texts(old(args)@) + flag(set, name@),
{
    let ghost before = text::texts(args@);
    if set {
        args.push(text::copy(name));
    }
    assert(text::texts(args@) =~= before + flag(set, name@));
}

pub fn push_valued(args: &mut Vec<String>, name: &str, value: &Option<String>)
    ensures
        text::texts(final(args)@) == text::texts(old(args)@) + valued(name@, text::text_of(*value)),
{
    let ghost before = text::texts(args@);
    if let Some(v) = value {
        args.push(text::copy(name));
        args.push(text::copy(v.as_str()));
    }
    assert(text::texts(args@) =~= before + valued(name@, text::text_of(*value)));
}

/// The arguments that start the adapter for a live session.
pub fn live_command(
    options: &NativeLiveOptions,
    force_json: bool,
    event_json: bool,
    pass_transcript: bool,
) -> (r: Vec<String>)
    ensures
        text::texts(r@) == live_args(*options, force_json, event_json, pass_transcript),
{
    let mut args: Vec<String> = Vec::new();
    push_valued(&mut args, "--src", &options.src);
    push_valued(&mut args, "--dst", &options.dst);
    push_flag(&mut args, options.json || force_json, "--json");
    push_flag(&mut args, event_json, "--event-json");
    if pass_transcript {
        push_valued(&mut args, "--transcript", &options.transcript);
    }
    push_flag(&mut args, !options.mic, "--no-mic");
    push_flag(&mut args, !options.speaker, "--no-speaker");
    push_flag(&mut args, options.voice_processing, "--voice-processing");
    push_flag(&mut args, options.select_device, "--select-device");
    assert(text::texts(args@) =~= live_args(*options, force_json, event_json, pass_transcript));
    args
}

/// The arguments that have a provider transcribe a file.
pub fn batch_command(input: &str, language: &Option<String>) -> (r: Vec<String>)
    ensures
        text::texts(r@) == seq!["--input"@, input@, "--json"@] + valued(
            "--src"@,
            text::text_of(*language),
        ),
{
    let mut args: Vec<String> = Vec::new();
    args.push(text::copy("--input"));
    args.push(text::copy(input));
    args.push(text::copy("--json"));
    assert(text::texts(args@) =~= seq!["--input"@, input@, "--json"@]);
    push_valued(&mut args, "--src", language);
    args
}

/// Which process is run.
#[derive(Debug, Clone, PartialEq, Eq)]
pub enum ProcessKind {
    NativeAdapter,
    AppleLegacy,
    /// An installed provider, by its id.
    Provider(String),
}

impl ProcessKind {
    /// What the process is called in messages.
    pub open spec fn label(self) -> Seq<char> {
        match self {
            ProcessKind::NativeAdapter => "native adapter"@,
            ProcessKind::AppleLegacy => "apple legacy adapter"@,
            ProcessKind::Provider(id) => "provider "@ + id@,
        }
    }

    /// What the process is called together with the command that runs it.
    pub open spec fn place(self, command: Seq<char>) -> Seq<char> {
        match self {
            ProcessKind::Provider(_) => self.label() + " at "@ + command,
            _ => self.label() + " "@ + command,
        }
    }

    fn name(&self) -> (r: String)
        ensures
            r@ == self.label(),
    {
        match self {
            ProcessKind::NativeAdapter => text::copy("native adapter"),
            ProcessKind::AppleLegacy => text::copy("apple legacy adapter"),
            ProcessKind::Provider(id) => text::cat("provider ", id.as_str()),
        }
    }

    fn placed(&self, command: &str) -> (r: String)
        ensures
            r@ == self.place(command@),
    {
        let name = self.name();
        match self {
            ProcessKind::Provider(_) => text::cat3(name.as_str(), " at ", command),
            _ => text::cat3(name.as_str(), " ", command),
        }
    }

    pub fn run_failed(&self, command: &str, error: &str) -> (r: AsrError)
        ensures
            r@ == AsrErrorView::Request(
                "failed to run "@ + self.place(command@) + ": "@ + error@,
            ),
    {
        AsrError::Request(
            text::cat4("failed to run ", self.placed(command).as_str(), ": ", error),
        )
    }

    pub fn wait_failed(&self, command: &str, error: &str) -> (r: AsrError)
        ensures
            r@ == AsrErrorView::Request(
                "failed to wait for "@ + self.place(command@) + ": "@ + error@,
            ),
    {
        AsrError::Request(
            text::cat4("failed to wait for ", self.placed(command).as_str(), ": ", error),
        )
    }

    pub fn not_piped(&self) -> (r: AsrError)
        ensures
            r@ == AsrErrorView::Request(self.label() + " stdout was not piped"@),
    {
        AsrError::Request(text::cat(self.name().as_str(), " stdout was not piped"))
    }

    pub fn read_failed(&self, error: &str) -> (r: AsrError)
        ensures
            r@ == AsrErrorView::Request(
                "failed to read "@ + self.label() + " stdout: "@ + error@,
            ),
    {
        AsrError::Request(
            text::cat4("failed to read ", self.name().as_str(), " stdout: ", error),
        )
    }

    /// How a process that transcribed a file ended.
    pub fn batch_exit(&self, success: bool, status: &str, stderr: &str) -> (r: Result<
        (),
        AsrError,
    >)
        ensures
            r is Ok <==> success,
            r matches Err(e) ==> e@ == AsrErrorView::Request(
                self.label() + " exited with "@ + status@ + ": "@ + text::trimmed(stderr@),
            ),
    {
        if success {
            return Ok(());
        }
        Err(
            AsrError::Request(
                text::cat5(
                    self.name().as_str(),
                    " exited with ",
                    status,
                    ": ",
                    text::trim(stderr).as_str(),
                ),
            ),
        )
    }

    /// How the process of a live session ended; one that was interrupted may end as
    /// it likes.
    pub fn live_exit(&self, interrupted: bool, success: bool, status: &str) -> (r: Result<
        (),
        AsrError,
    >)
        ensures
            r is Ok <==> interrupted || success,
            r matches Err(e) ==> e@ == AsrErrorView::Request(
                self.label() + " exited with "@ + status@,
            ),
    {
        if interrupted || success {
            return Ok(());
        }
        Err(AsrError::Request(text::cat3(self.name().as_str(), " exited with ", status)))
    }
}

/// How long a provider may take to end after it was asked to.
pub const SHUTDOWN_GRACE_MS: u64 = 30_000;

/// What the caller does with the process.
#[derive(Debug, Clone, PartialEq, Eq)]
pub enum ProcessAction {
    /// Go on waiting.
    Wait,
    /// Ask the process to end.
    RequestShutdown,
    /// End the process and report the end of the session.
    KillAndEnd,
    /// Read the event in this line and pass it on.
    Line(String),
    /// Stop reading.
    Stop,
}

/// A live session of a process, as its caller sees it.
pub struct LiveProcess {
    /// Whether the process is asked to end before it is ended.
    pub graceful: bool,
    pub interrupted: bool,
    pub shutdown_requested_at: Option<u64>,
}

impl LiveProcess {
    pub fn new(kind: &ProcessKind) -> (r: LiveProcess)
        ensures
            r.graceful == (*kind is Provider),
            !r.interrupted,
            r.shutdown_requested_at is None,
    {
        LiveProcess {
            graceful: match kind {
                ProcessKind::Provider(_) => true,
                _ => false,
            },
            interrupted: false,
            shutdown_requested_at: None,
        }
    }

    /// Ctrl-C came at `now`. It counts once.
    pub fn on_interrupt(&mut self, now: u64) -> (r: ProcessAction)
        ensures
            final(self).graceful == old(self).graceful,
            if old(self).shutdown_requested_at is Some {
                r is Wait && *final(self) == *old(self)
            } else if old(self).graceful {
                r is RequestShutdown && final(self).interrupted
                    && final(self).shutdown_requested_at == Some(now)
            } else {
                r is KillAndEnd && final(self).interrupted && final(self).shutdown_requested_at
                    is None
            },
            (*final(self), r) == old(self).when_interrupted(now),
    {
        if self.shutdown_requested_at.is_some() {
            return ProcessAction::Wait;
        }
        self.interrupted = true;
        if self.graceful {
            self.shutdown_requested_at = Some(now);
            ProcessAction::RequestShutdown
        } else {
            ProcessAction::KillAndEnd
        }
    }

    /// Time has passed: a process that was asked to end and did not is ended.
    pub fn on_time(&self, now: u64) -> (r: ProcessAction)
        ensures
            r is KillAndEnd <==> self.shutdown_requested_at is Some && now
                >= self.shutdown_requested_at->0 + SHUTDOWN_GRACE_MS,
            r is KillAndEnd || r is Wait,
            r is KillAndEnd <==> self.overdue(now),
    {
        match self.shutdown_requested_at {
            Some(at) => if now >= at && now - at >= SHUTDOWN_GRACE_MS {
                ProcessAction::KillAndEnd
            } else {
                ProcessAction::Wait
            },
            None => ProcessAction::Wait,
        }
    }

    /// A line came, or the end of the output.
    pub fn on_line(&self, line: &Option<String>) -> (r: ProcessAction)
        ensures
            match line {
                None => r is Stop,
                Some(l) => if text::trimmed(l@).len() == 0 {
                    r is Wait
                } else {
                    r matches ProcessAction::Line(t) && t@ == text::trimmed(l@)
                },
            },
    {
        match line {
            None => ProcessAction::Stop,
            Some(l) => {
                let rest = text::trim(l.as_str());
                if rest.as_str().is_empty() {
                    ProcessAction::Wait
                } else {
                    ProcessAction::Line(rest)
                }
            },
        }
    }
}

/// What the lines so far give of a transcript.
#[derive(Debug, Clone, PartialEq, Eq)]
pub struct Gathered {
    pub chunks: Vec<String>,
    pub language: Option<String>,
}

#[verifier::ext_equal]
pub struct GatheredView {
    pub chunks: Seq<Seq<char>>,
    pub language: Option<Seq<char>>,
}

impl View for Gathered {
    type V = GatheredView;

    open spec fn view(&self) -> GatheredView {
        GatheredView { chunks: text::texts(self.chunks@), language: text::text_of(self.language) }
    }
}

impl GatheredView {
    pub open spec fn nothing() -> GatheredView {
        GatheredView { chunks: Seq::empty(), language: None }
    }

    /// With one more text, unless it is blank.
    pub open spec fn with_chunk(self, chunk: Option<Seq<char>>) -> GatheredView {
        match chunk {
            Some(t) => if text::trimmed(t).len() > 0 {
                GatheredView { chunks: self.chunks.push(text::trimmed(t)), ..self }
            } else {
                self
            },
            None => self,
        }
    }

    /// With the language, unless one is known.
    pub open spec fn with_language(self, language: Option<Seq<char>>) -> GatheredView {
        if self.language is None {
            GatheredView { language, ..self }
        } else {
            self
        }
    }

    /// With what one value says: its source, or where `plain` values are understood
    /// and it has none, its own text and language.
    pub open spec fn with_value(self, value: JsonView, plain: bool) -> GatheredView {
        match value.get("src"@) {
            Some(src) => self.with_language(src.text_at("lang"@)).with_chunk(src.text_at("text"@)),
            None => if plain {
                self.with_chunk(value.text_at("text"@)).with_language(
                    value.text_at("language"@),
                )
            } else {
                self
            },
        }
    }
}

impl Gathered {
    pub fn new() -> (r: Gathered)
        ensures
            r@ == GatheredView::nothing(),
    {
        let r = Gathered { chunks: Vec::new(), language: None };
        assert(text::texts(r.chunks@) =~= Seq::empty());
        r
    }

    fn add_chunk(&mut self, chunk: Option<String>)
        ensures
            final(self)@ == old(self)@.with_chunk(text::text_of(chunk)),
    {
        let ghost before = text::texts(self.chunks@);
        if let Some(t) = chunk {
            let rest = text::trim(t.as_str());
            if !rest.as_str().is_empty() {
                let ghost shown = rest@;
                self.chunks.push(rest);
                assert(text::texts(self.chunks@) =~= before.push(shown));
            }
        }
    }

    fn add_language(&mut self, language: Option<String>)
        ensures
            final(self)@ == old(self)@.with_language(text::text_of(language)),
    {
        if self.language.is_none() {
            self.language = language;
        }
    }

    /// Takes what one value says.
    pub fn add_value(&mut self, value: &Json, plain: bool)
        ensures
            final(self)@ == old(self)@.with_value(value.value(), plain),
    {
        match value.get("src") {
            Some(src) => {
                self.add_language(src.text_at("lang"));
                self.add_chunk(src.text_at("text"));
            },
            None => {
                if plain {
                    self.add_chunk(value.text_at("text"));
                    self.add_language(value.text_at("language"));
                }
            },
        }
    }

    /// The transcript of what was gathered.
    pub fn transcript(&self, process: &str) -> (r: Result<Transcript, AsrError>)
        ensures
            r is Ok <==> self@.chunks.len() > 0,
            r matches Ok(t) ==> t.text@ == text::joined(self@.chunks, "\n"@) && text::text_of(
                t.language,
            ) == self@.language,
            r matches Err(e) ==> e@ == AsrErrorView::InvalidResponse(
                process@ + " produced no transcript text"@,
            ),
    {
        if self.chunks.is_empty() {
            return Err(
                AsrError::InvalidResponse(text::cat(process, " produced no transcript text")),
            );
        }
        Ok(
            Transcript {
                text: text::join(&self.chunks, "\n"),
                language: text::copy_opt(&self.language),
            },
        )
    }
}

/// What the lines give, or what is wrong with the first that is no JSON.
pub open spec fn gathered(lines: Seq<Seq<char>>, plain: bool) -> Result<GatheredView, Seq<char>>
    decreases lines.len(),
{
    if lines.len() == 0 {
        Ok(GatheredView::nothing())
    } else {
        match gathered(lines.drop_last(), plain) {
            Err(e) => Err(e),
            Ok(before) => if text::trimmed(lines.last()).len() == 0 {
                Ok(before)
            } else {
                match json::parsed(lines.last()) {
                    Err(e) => Err(e + ": "@ + lines.last()),
                    Ok(value) => Ok(before.with_value(value, plain)),
                }
            },
        }
    }
}

fn gather(stdout: &str, plain: bool) -> (r: Result<Gathered, String>)
    ensures
        match r {
            Ok(g) => gathered(text::lines(stdout@), plain) == Ok::<GatheredView, Seq<char>>(g@),
            Err(e) => gathered(text::lines(stdout@), plain) == Err::<GatheredView, Seq<char>>(e@),
        },
{
    let lines = text::split_lines(stdout);
    let ghost all = text::texts(lines@);
    let mut r = Gathered::new();
    let mut i: usize = 0;
    assert(all.take(0) =~= Seq::empty());
    while i < lines.len()
        invariant
            i <= lines@.len(),
            all == text::texts(lines@),
            all == text::lines(stdout@),
            gathered(all.take(i as int), plain) == Ok::<GatheredView, Seq<char>>(r@),
        decreases lines@.len() - i,
    {
        let line = lines[i].as_str();
        proof {
            assert(all.take(i + 1).drop_last() =~= all.take(i as int));
            assert(all.take(i + 1).last() == line@);
        }
        if !text::trim(line).as_str().is_empty() {
            match json::parse(line) {
                Err(e) => {
                    proof {
                        lemma_fault_stays(all, i + 1, plain);
                    }
                    return Err(text::cat3(e.as_str(), ": ", line));
                },
                Ok(value) => {
                    r.add_value(&value, plain);
                },
            }
        }
        i = i + 1;
    }
    assert(all.take(i as int) =~= all);
    Ok(r)
}

proof fn lemma_fault_stays(lines: Seq<Seq<char>>, n: int, plain: bool)
    requires
        0 <= n <= lines.len(),
        gathered(lines.take(n), plain) is Err,
    ensures
        gathered(lines, plain) == gathered(lines.take(n), plain),
    decreases lines.len() - n,
{
    if n == lines.len() {
        assert(lines.take(n) =~= lines);
    } else {
        assert(lines.take(n + 1).drop_last() =~= lines.take(n));
        lemma_fault_stays(lines, n + 1, plain);
    }
}

/// The transcript in what a process printed.
pub open spec fn transcript_says(
    g: Result<GatheredView, Seq<char>>,
    process: Seq<char>,
    r: Result<Transcript, AsrError>,
) -> bool {
    match g {
        Err(e) => r is Err && r->Err_0@ == AsrErrorView::InvalidResponse(e),
        Ok(v) => if v.chunks.len() == 0 {
            r is Err && r->Err_0@ == AsrErrorView::InvalidResponse(
                process + " produced no transcript text"@,
            )
        } else {
            r is Ok && r->Ok_0.text@ == text::joined(v.chunks, "\n"@) && text::text_of(
                r->Ok_0.language,
            ) == v.language
        },
    }
}

fn parse_jsonl(stdout: &str, plain: bool, process: &str) -> (r: Result<Transcript, AsrError>)
    ensures
        transcript_says(gathered(text::lines(stdout@), plain), process@, r),
{
    match gather(stdout, plain) {
        Err(e) => Err(AsrError::InvalidResponse(e)),
        Ok(g) => g.transcript(process),
    }
}

/// The transcript that the native adapter printed.
pub fn parse_adapter_jsonl(stdout: &str) -> (r: Result<Transcript, AsrError>)
    ensures
        transcript_says(gathered(text::lines(stdout@), false), "native adapter"@, r),
{
    parse_jsonl(stdout, false, "native adapter")
}

/// The transcript that the older adapter printed.
pub fn parse_legacy_jsonl(stdout: &str) -> (r: Result<Transcript, AsrError>)
    ensures
        transcript_says(gathered(text::lines(stdout@), false), "apple legacy adapter"@, r),
{
    parse_jsonl(stdout, false, "apple legacy adapter")
}

/// The transcript that an installed provider printed.
pub fn parse_external_provider_jsonl(stdout: &str) -> (r: Result<Transcript, AsrError>)
    ensures
        transcript_says(gathered(text::lines(stdout@), true), "external provider"@, r),
{
    parse_jsonl(stdout, true, "external provider")
}

impl AsrProvider for NativeAdapterAsr {
    open spec fn called(&self) -> Seq<char> {
        "native-adapter"@
    }

    open spec fn offers(&self) -> AsrCapabilities {
        AsrCapabilities { batch_file: true, streaming: false, requires_network: false }
    }

    fn name(&self) -> &'static str {
        "native-adapter"
    }

    fn capabilities(&self) -> AsrCapabilities {
        adapter_capabilities()
    }
}

impl LiveAsrProvider for NativeAdapterAsr {
    open spec fn called_live(&self) -> Seq<char> {
        "apple"@
    }

    open spec fn offers_live(&self) -> LiveCapabilities {
        live_offer()
    }

    fn live_name(&self) -> &'static str {
        "apple"
    }

    fn live_capabilities(&self) -> LiveCapabilities {
        native_adapter_live_capabilities()
    }
}

impl AsrProvider for AppleLegacyAsr {
    open spec fn called(&self) -> Seq<char> {
        "apple-legacy"@
    }

    open spec fn offers(&self) -> AsrCapabilities {
        AsrCapabilities { batch_file: true, streaming: false, requires_network: false }
    }

    fn name(&self) -> &'static str {
        "apple-legacy"
    }

    fn capabilities(&self) -> AsrCapabilities {
        adapter_capabilities()
    }
}

impl ProcessKind {
    /// What is said to audio that is in no file.
    pub open spec fn no_file(self) -> Seq<char> {
        match self {
            ProcessKind::NativeAdapter => "native adapter only accepts file input"@,
            ProcessKind::AppleLegacy => "apple legacy adapter only accepts file input"@,
            ProcessKind::Provider(_) => "external providers currently require file input"@,
        }
    }

    /// The file to transcribe: a process takes nothing else.
    pub fn file_of(&self, input: AudioInput) -> (r: Result<FilePath, AsrError>)
        ensures
            match input {
                AudioInput::File(path) => r == Ok::<FilePath, AsrError>(path),
                AudioInput::Bytes { .. } => r is Err && r->Err_0@ == AsrErrorView::Input(
                    self.no_file(),
                ),
            },
    {
        match input {
            AudioInput::File(path) => Ok(path),
            AudioInput::Bytes { .. } => Err(
                AsrError::Input(
                    text::copy(
                        match self {
                            ProcessKind::NativeAdapter => "native adapter only accepts file input",
                            ProcessKind::AppleLegacy => "apple legacy adapter only accepts file input",
                            ProcessKind::Provider(_) => "external providers currently require file input",
                        },
                    ),
                ),
            ),
        }
    }
}

/// What a line of a live session says; where it says nothing, the complaint quotes it.
pub open spec fn live_line(intro: Seq<char>, line: Seq<char>) -> Result<
    LiveEventView,
    AsrErrorView,
> {
    match jsonl::line_result(line) {
        Ok(e) => Ok(e),
        Err(e) => Err(AsrErrorView::InvalidResponse(intro + e + ": "@ + line)),
    }
}

pub open spec fn live_line_read(r: Result<LiveEvent, AsrError>) -> Result<
    LiveEventView,
    AsrErrorView,
> {
    match r {
        Ok(e) => Ok(e@),
        Err(e) => Err(e@),
    }
}

fn parse_line(intro: &str, line: &str) -> (r: Result<LiveEvent, AsrError>)
    ensures
        live_line_read(r) == live_line(intro@, line@),
        forall|e: LiveEventView|
            jsonl::plain(e) && line@ == json::compact(
                json::object(#[trigger] jsonl::live_members(e)),
            ) ==> live_line_read(r) == Ok::<LiveEventView, AsrErrorView>(e),
{
    match jsonl::read_line(line) {
        Ok(e) => Ok(e),
        Err(e) => Err(AsrError::InvalidResponse(text::cat4(intro, e.as_str(), ": ", line))),
    }
}

/// The event in a line of the native adapter, or of its older form.
pub fn parse_live_event(line: &str) -> (r: Result<LiveEvent, AsrError>)
    ensures
        live_line_read(r) == live_line("invalid apple live JSONL event: "@, line@),
        forall|e: LiveEventView|
            jsonl::plain(e) && line@ == json::compact(
                json::object(#[trigger] jsonl::live_members(e)),
            ) ==> live_line_read(r) == Ok::<LiveEventView, AsrErrorView>(e),
{
    parse_line("invalid apple live JSONL event: ", line)
}

/// The event in a line of an installed provider.
pub fn parse_external_live_event(line: &str) -> (r: Result<LiveEvent, AsrError>)
    ensures
        live_line_read(r) == live_line("invalid provider JSONL event: "@, line@),
        forall|e: LiveEventView|
            jsonl::plain(e) && line@ == json::compact(
                json::object(#[trigger] jsonl::live_members(e)),
            ) ==> live_line_read(r) == Ok::<LiveEventView, AsrErrorView>(e),
{
    parse_line("invalid provider JSONL event: ", line)
}

/// Somewhere in the arguments a name stands with its value right behind it.
pub open spec fn pair_in(args: Seq<Seq<char>>, name: Seq<char>, value: Seq<char>) -> bool {
    exists|i: int|
        0 <= i && i + 1 < args.len() && #[trigger] args[i] == name && args[i + 1] == value
}

/// How many arguments a value takes.
pub open spec fn taken(value: Option<Seq<char>>) -> nat {
    if value is Some {
        2
    } else {
        0
    }
}

/// How many arguments a switch takes.
pub open spec fn set(on: bool) -> nat {
    if on {
        1
    } else {
        0
    }
}

/// What is added to the arguments is in them, and what was there before stays.
proof fn lemma_added(front: Seq<Seq<char>>, part: Seq<Seq<char>>)
    ensures
        forall|name: Seq<char>, value: Seq<char>|
            pair_in(front, name, value) || pair_in(part, name, value) ==> #[trigger] pair_in(
                front + part,
                name,
                value,
            ),
        forall|name: Seq<char>|
            front.contains(name) || part.contains(name) ==> #[trigger] (front + part).contains(name),
{
    let all = front + part;
    assert forall|name: Seq<char>, value: Seq<char>|
        pair_in(front, name, value) || pair_in(part, name, value) implies #[trigger] pair_in(
        all,
        name,
        value,
    ) by {
        if pair_in(front, name, value) {
            let i = choose|i: int|
                0 <= i && i + 1 < front.len() && #[trigger] front[i] == name && front[i + 1]
                    == value;
            assert(all[i] == name && all[i + 1] == value);
        } else {
            let i = choose|i: int|
                0 <= i && i + 1 < part.len() && #[trigger] part[i] == name && part[i + 1] == value;
            let n = front.len() as int;
            assert(all[n + i] == name && all[n + i + 1] == value);
        }
    }
    assert forall|name: Seq<char>|
        front.contains(name) || part.contains(name) implies #[trigger] all.contains(name) by {
        if front.contains(name) {
            let i = choose|i: int| 0 <= i < front.len() && front[i] == name;
            assert(all[i] == name);
        } else {
            let i = choose|i: int| 0 <= i < part.len() && part[i] == name;
            assert(all[front.len() + i] == name);
        }
    }
}

pub(crate) proof fn lemma_valued(front: Seq<Seq<char>>, name: Seq<char>, value: Option<Seq<char>>)
    ensures
        value is Some ==> pair_in(front + valued(name, value), name, value->0),
        forall|n: Seq<char>, v: Seq<char>|
            pair_in(front, n, v) ==> #[trigger] pair_in(front + valued(name, value), n, v),
        forall|n: Seq<char>|
            front.contains(n) ==> #[trigger] (front + valued(name, value)).contains(n),
        (front + valued(name, value)).len() == front.len() + taken(value),
{
    lemma_added(front, valued(name, value));
    if let Some(v) = value {
        let part = valued(name, value);
        assert(part[0] == name && part[1] == v);
        assert(pair_in(part, name, v));
    }
}

pub(crate) proof fn lemma_lengths(
    name: Seq<char>,
    value: Option<Seq<char>>,
    switch: Seq<char>,
    on: bool,
)
    ensures
        valued(name, value).len() == taken(value),
        flag(on, switch).len() == set(on),
{
}

pub(crate) proof fn lemma_flag(front: Seq<Seq<char>>, on: bool, name: Seq<char>)
    ensures
        on ==> (front + flag(on, name)).contains(name),
        forall|n: Seq<char>, v: Seq<char>|
            pair_in(front, n, v) ==> #[trigger] pair_in(front + flag(on, name), n, v),
        forall|n: Seq<char>| front.contains(n) ==> #[trigger] (front + flag(on, name)).contains(n),
        (front + flag(on, name)).len() == front.len() + set(on),
{
    lemma_added(front, flag(on, name));
    if on {
        let part = flag(on, name);
        assert(part[0] == name);
        assert(part.contains(name));
    }
}

/// Every option reaches the adapter: a value stands right behind its name, a switch is there
/// where it is set, and nothing else is there.
pub proof fn law_options_reach_the_adapter(
    options: NativeLiveOptions,
    force_json: bool,
    event_json: bool,
    pass_transcript: bool,
)
    ensures
        ({
            let all = live_args(options, force_json, event_json, pass_transcript);
            &&& options.src is Some ==> pair_in(all, "--src"@, options.src->0@)
            &&& options.dst is Some ==> pair_in(all, "--dst"@, options.dst->0@)
            &&& options.transcript is Some && pass_transcript ==> pair_in(
                all,
                "--transcript"@,
                options.transcript->0@,
            )
            &&& options.json || force_json ==> all.contains("--json"@)
            &&& event_json ==> all.contains("--event-json"@)
            &&& !options.mic ==> all.contains("--no-mic"@)
            &&& !options.speaker ==> all.contains("--no-speaker"@)
            &&& options.voice_processing ==> all.contains("--voice-processing"@)
            &&& options.select_device ==> all.contains("--select-device"@)
            &&& all.len() == taken(text::text_of(options.src)) + taken(text::text_of(options.dst))
                + (if pass_transcript {
                taken(text::text_of(options.transcript))
            } else {
                0
            }) + set(options.json || force_json) + set(event_json) + set(!options.mic) + set(
                !options.speaker,
            ) + set(options.voice_processing) + set(options.select_device)
        }),
{
    let none = Seq::<Seq<char>>::empty();
    let s1 = valued("--src"@, text::text_of(options.src));
    lemma_valued(none, "--src"@, text::text_of(options.src));
    assert(none + s1 =~= s1);
    let s2 = s1 + valued("--dst"@, text::text_of(options.dst));
    lemma_valued(s1, "--dst"@, text::text_of(options.dst));
    let s3 = s2 + flag(options.json || force_json, "--json"@);
    lemma_flag(s2, options.json || force_json, "--json"@);
    let s4 = s3 + flag(event_json, "--event-json"@);
    lemma_flag(s3, event_json, "--event-json"@);
    let kept = if pass_transcript {
        text::text_of(options.transcript)
    } else {
        None
    };
    let s5 = s4 + valued("--transcript"@, kept);
    lemma_valued(s4, "--transcript"@, kept);
    let s6 = s5 + flag(!options.mic, "--no-mic"@);
    lemma_flag(s5, !options.mic, "--no-mic"@);
    let s7 = s6 + flag(!options.speaker, "--no-speaker"@);
    lemma_flag(s6, !options.speaker, "--no-speaker"@);
    let s8 = s7 + flag(options.voice_processing, "--voice-processing"@);
    lemma_flag(s7, options.voice_processing, "--voice-processing"@);
    let s9 = s8 + flag(options.select_device, "--select-device"@);
    lemma_flag(s8, options.select_device, "--select-device"@);
    assert(live_args(options, force_json, event_json, pass_transcript) == s9);
}

/// The options of a live session go on to the adapter as they are; its output is always
/// asked for in a form that can be read.
pub proof fn law_session_options_are_kept(options: LiveAsrOptions)
    ensures
        NativeLiveOptions::of(options).src == options.src,
        NativeLiveOptions::of(options).dst == options.dst,
        NativeLiveOptions::of(options).mic == options.mic,
        NativeLiveOptions::of(options).speaker == options.speaker,
        NativeLiveOptions::of(options).voice_processing == options.voice_processing,
        NativeLiveOptions::of(options).select_device == options.select_device,
        NativeLiveOptions::of(options).json,
        NativeLiveOptions::of(options).transcript is None,
{
}

/// A line whose source has a text adds that text, trimmed, to the transcript; a blank text,
/// or none, adds nothing. The first language that a line names is the transcript's.
pub proof fn law_line_adds_its_text(
    lines: Seq<Seq<char>>,
    line: Seq<char>,
    plain: bool,
    value: JsonView,
    src: JsonView,
)
    requires
        gathered(lines, plain) is Ok,
        text::trimmed(line).len() > 0,
        json::parsed(line) == Ok::<JsonView, Seq<char>>(value),
        value.get("src"@) == Some(src),
    ensures
        ({
            let before = gathered(lines, plain)->Ok_0;
            &&& gathered(lines.push(line), plain) matches Ok(after)
            &&& (src.get("text"@) matches Some(JsonView::Text(t)) && text::trimmed(t).len() > 0)
                ==> after.chunks == before.chunks.push(
                text::trimmed(src.get("text"@)->0->Text_0),
            )
            &&& !(src.get("text"@) matches Some(JsonView::Text(t)) && text::trimmed(t).len() > 0)
                ==> after.chunks == before.chunks
            &&& before.language is Some ==> after.language == before.language
            &&& before.language is None ==> match src.get("lang"@) {
                Some(JsonView::Text(l)) => after.language == Some(l),
                _ => after.language is None,
            }
        }),
{
    assert(lines.push(line).drop_last() =~= lines);
}

/// A line without a source counts only for processes that may write plain lines; then its own
/// text and language count in the same way.
pub proof fn law_plain_line_adds_its_text(
    lines: Seq<Seq<char>>,
    line: Seq<char>,
    plain: bool,
    value: JsonView,
)
    requires
        gathered(lines, plain) is Ok,
        text::trimmed(line).len() > 0,
        json::parsed(line) == Ok::<JsonView, Seq<char>>(value),
        value.get("src"@) is None,
    ensures
        ({
            let before = gathered(lines, plain)->Ok_0;
            &&& gathered(lines.push(line), plain) matches Ok(after)
            &&& !plain ==> after == before
            &&& plain ==> {
                &&& (value.get("text"@) matches Some(JsonView::Text(t)) && text::trimmed(t).len()
                    > 0) ==> after.chunks == before.chunks.push(
                    text::trimmed(value.get("text"@)->0->Text_0),
                )
                &&& !(value.get("text"@) matches Some(JsonView::Text(t)) && text::trimmed(t).len()
                    > 0) ==> after.chunks == before.chunks
                &&& before.language is Some ==> after.language == before.language
                &&& before.language is None ==> match value.get("language"@) {
                    Some(JsonView::Text(l)) => after.language == Some(l),
                    _ => after.language is None,
                }
            }
        }),
{
    assert(lines.push(line).drop_last() =~= lines);
}

/// Blank lines make no difference, and one line that cannot be read spoils the whole output,
/// whatever follows it.
pub proof fn law_unreadable_line_spoils_all(
    lines: Seq<Seq<char>>,
    line: Seq<char>,
    more: Seq<Seq<char>>,
    plain: bool,
)
    ensures
        text::trimmed(line).len() == 0 ==> gathered(lines.push(line), plain) == gathered(
            lines,
            plain,
        ),
        gathered(lines, plain) is Ok && text::trimmed(line).len() > 0 && json::parsed(line) is Err
            ==> gathered(lines.push(line) + more, plain) == Err::<GatheredView, Seq<char>>(
            json::parsed(line)->Err_0 + ": "@ + line,
        ),
    decreases more.len(),
{
    let all = lines.push(line);
    assert(all.drop_last() =~= lines);
    if more.len() == 0 {
        assert(all + more =~= all);
    } else {
        law_unreadable_line_spoils_all(lines, line, more.drop_last(), plain);
        assert((all + more).drop_last() =~= all + more.drop_last());
    }
}

/// A transcript is there just where some text was gathered, and joins the texts by lines.
pub proof fn law_transcript_joins_the_texts(
    v: GatheredView,
    process: Seq<char>,
    r: Result<Transcript, AsrError>,
)
    requires
        transcript_says(Ok(v), process, r),
    ensures
        r is Ok <==> v.chunks.len() > 0,
        r matches Ok(t) ==> t.text@ == text::joined(v.chunks, "\n"@) && text::text_of(t.language)
            == v.language,
        v.chunks.len() == 1 ==> r is Ok && r->Ok_0.text@ == v.chunks[0],
{
}

impl LiveProcess {
    /// The session after Ctrl-C at `now`, and what is done.
    pub open spec fn when_interrupted(self, now: u64) -> (LiveProcess, ProcessAction) {
        if self.shutdown_requested_at is Some {
            (self, ProcessAction::Wait)
        } else if self.graceful {
            (
                LiveProcess {
                    graceful: self.graceful,
                    interrupted: true,
                    shutdown_requested_at: Some(now),
                },
                ProcessAction::RequestShutdown,
            )
        } else {
            (
                LiveProcess {
                    graceful: self.graceful,
                    interrupted: true,
                    shutdown_requested_at: None,
                },
                ProcessAction::KillAndEnd,
            )
        }
    }

    /// Whether the process is ended at `now`.
    pub open spec fn overdue(self, now: u64) -> bool {
        self.shutdown_requested_at is Some && now >= self.shutdown_requested_at->0
            + SHUTDOWN_GRACE_MS
    }
}

/// A provider is asked once to end, and ended only where it has not done so after thirty
/// seconds; what comes in between makes no difference to that time.
pub proof fn law_provider_is_given_time_to_end(p: LiveProcess, now: u64, again: u64, later: u64)
    requires
        p.graceful,
        p.shutdown_requested_at is None,
    ensures
        !p.overdue(later),
        p.when_interrupted(now).1 is RequestShutdown,
        p.when_interrupted(now).0.interrupted,
        p.when_interrupted(now).0.when_interrupted(again) == (
            p.when_interrupted(now).0,
            ProcessAction::Wait,
        ),
        p.when_interrupted(now).0.overdue(later) <==> later >= now + 30_000,
{
}

/// Any other process is ended at once.
pub proof fn law_other_processes_end_at_once(p: LiveProcess, now: u64)
    requires
        !p.graceful,
        p.shutdown_requested_at is None,
    ensures
        p.when_interrupted(now).1 is KillAndEnd,
        p.when_interrupted(now).0.interrupted,
        !p.when_interrupted(now).0.overdue(now),
{
}

} // verus!
