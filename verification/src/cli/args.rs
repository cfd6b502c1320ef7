//! The options of the command line.
use crate::adapter;
use crate::asr::{Duration, LiveAsrOptions, LiveCapabilities, LiveModeKind, Transcript};
use crate::event::{AudioChannel, EventTimestamp, TranscriptEvent, TranscriptSource};
use crate::text;
use vstd::prelude::*;
use vstd::string::*;

verus! {

#[derive(Debug, Clone, Copy, PartialEq, Eq, Structural)]
pub enum AsrBackend {
    Auto,
    OpenaiCompatible,
    Apple,
    /// An installed provider; it is chosen by the provider's name only.
    External,
}

impl AsrBackend {
    pub open spec fn label(self) -> Seq<char> {
        match self {
            AsrBackend::Auto => "auto"@,
            AsrBackend::OpenaiCompatible => "openai-compatible"@,
            AsrBackend::Apple => "apple"@,
            AsrBackend::External => "external"@,
        }
    }

    pub fn as_str(self) -> (r: &'static str)
        ensures
            r@ == self.label(),
    {
        match self {
            AsrBackend::Auto => "auto",
            AsrBackend::OpenaiCompatible => "openai-compatible",
            AsrBackend::Apple => "apple",
            AsrBackend::External => "external",
        }
    }
}

/// A number of seconds that was given as a decimal number: the bit pattern of its
/// double, the span of time it stands for where it is positive, and how it is written.
#[derive(Debug, Clone, PartialEq, Eq)]
pub struct Seconds {
    pub bits: u64,
    pub duration: Duration,
    pub shown: String,
}

impl Seconds {
    /// The number is finite and greater than zero.
    pub open spec fn positive(self) -> bool {
        0 < self.bits < 0x7ff0_0000_0000_0000
    }

    pub fn is_positive(&self) -> (r: bool)
        ensures
            r == self.positive(),
    {
        0 < self.bits && self.bits < 0x7ff0_0000_0000_0000
    }

    pub fn copied(&self) -> (r: Seconds)
        ensures
            r.bits == self.bits,
            r.duration == self.duration,
            r.shown@ == self.shown@,
    {
        Seconds {
            bits: self.bits,
            duration: self.duration,
            shown: text::copy(self.shown.as_str()),
        }
    }
}

/// The options, paths among them as they were written.
#[derive(Debug, Clone, PartialEq, Eq)]
pub struct Cli {
    pub asr: AsrBackend,
    pub api_base: Option<String>,
    pub api_key: Option<String>,
    pub api_model: Option<String>,
    pub provider: Option<String>,
    pub provider_config: Option<String>,
    pub src: Option<String>,
    pub dst: Option<String>,
    pub native_adapter: Option<String>,
    pub input: Option<String>,
    pub mic_duration: Option<Seconds>,
    pub live: bool,
    pub live_chunk: Option<Seconds>,
    pub no_mic: bool,
    pub no_speaker: bool,
    pub voice_processing: bool,
    pub select_device: bool,
    pub json: bool,
    pub transcript: Option<String>,
    pub doctor: bool,
    pub capabilities: bool,
    pub ui: bool,
    pub provider_state: Option<String>,
    pub provider_dir: Option<String>,
}

/// What of the options bears on the choice of a provider.
#[verifier::ext_equal]
pub struct Choice {
    pub asr: AsrBackend,
    pub api_base: Option<Seq<char>>,
    pub api_key: Option<Seq<char>>,
    pub api_model: Option<Seq<char>>,
    pub provider: Option<Seq<char>>,
    pub native_adapter: Option<Seq<char>>,
}

impl Choice {
    /// The same choice, of another provider.
    pub open spec fn of_provider(self, name: Seq<char>) -> Choice {
        Choice { provider: Some(name), ..self }
    }
}

pub open spec fn seconds_same(a: Option<Seconds>, b: Option<Seconds>) -> bool {
    match (a, b) {
        (Some(x), Some(y)) => x.bits == y.bits && x.duration == y.duration && x.shown@ == y.shown@,
        (None, None) => true,
        _ => false,
    }
}

fn copy_seconds(s: &Option<Seconds>) -> (r: Option<Seconds>)
    ensures
        seconds_same(r, *s),
{
    match s {
        Some(x) => Some(x.copied()),
        None => None,
    }
}

impl Cli {
    pub open spec fn choice(self) -> Choice {
        Choice {
            asr: self.asr,
            api_base: text::text_of(self.api_base),
            api_key: text::text_of(self.api_key),
            api_model: text::text_of(self.api_model),
            provider: text::text_of(self.provider),
            native_adapter: text::text_of(self.native_adapter),
        }
    }

    /// All options but the provider are the same.
    pub open spec fn same_but_provider(self, other: Cli) -> bool {
        &&& self.same_but_provider_and_model(other)
        &&& text::text_of(self.api_model) == text::text_of(other.api_model)
    }

    /// All options but the provider and the model are the same.
    pub open spec fn same_but_provider_and_model(self, other: Cli) -> bool {
        &&& self.asr == other.asr
        &&& text::text_of(self.api_base) == text::text_of(other.api_base)
        &&& text::text_of(self.api_key) == text::text_of(other.api_key)
        &&& text::text_of(self.provider_config) == text::text_of(other.provider_config)
        &&& text::text_of(self.src) == text::text_of(other.src)
        &&& text::text_of(self.dst) == text::text_of(other.dst)
        &&& text::text_of(self.native_adapter) == text::text_of(other.native_adapter)
        &&& text::text_of(self.input) == text::text_of(other.input)
        &&& seconds_same(self.mic_duration, other.mic_duration)
        &&& self.live == other.live
        &&& seconds_same(self.live_chunk, other.live_chunk)
        &&& self.no_mic == other.no_mic
        &&& self.no_speaker == other.no_speaker
        &&& self.voice_processing == other.voice_processing
        &&& self.select_device == other.select_device
        &&& self.json == other.json
        &&& text::text_of(self.transcript) == text::text_of(other.transcript)
        &&& self.doctor == other.doctor
        &&& self.capabilities == other.capabilities
        &&& self.ui == other.ui
        &&& text::text_of(self.provider_state) == text::text_of(other.provider_state)
        &&& text::text_of(self.provider_dir) == text::text_of(other.provider_dir)
    }

    /// The same options for another model.
    pub fn with_model(&self, api_model: Option<String>) -> (r: Cli)
        ensures
            r.same_but_provider_and_model(*self),
            text::text_of(r.provider) == text::text_of(self.provider),
            r.api_model == api_model,
            r.choice() == (Choice { api_model: text::text_of(api_model), ..self.choice() }),
    {
        let mut r = self.with_provider_name(text::copy_opt(&self.provider));
        r.api_model = api_model;
        assert(r.choice() =~= Choice { api_model: text::text_of(api_model), ..self.choice() });
        r
    }

    /// The same options for another provider.
    pub fn with_provider_name(&self, provider: Option<String>) -> (r: Cli)
        ensures
            r.same_but_provider(*self),
            r.provider == provider,
    {
        Cli {
            asr: self.asr,
            api_base: text::copy_opt(&self.api_base),
            api_key: text::copy_opt(&self.api_key),
            api_model: text::copy_opt(&self.api_model),
            provider,
            provider_config: text::copy_opt(&self.provider_config),
            src: text::copy_opt(&self.src),
            dst: text::copy_opt(&self.dst),
            native_adapter: text::copy_opt(&self.native_adapter),
            input: text::copy_opt(&self.input),
            mic_duration: copy_seconds(&self.mic_duration),
            live: self.live,
            live_chunk: copy_seconds(&self.live_chunk),
            no_mic: self.no_mic,
            no_speaker: self.no_speaker,
            voice_processing: self.voice_processing,
            select_device: self.select_device,
            json: self.json,
            transcript: text::copy_opt(&self.transcript),
            doctor: self.doctor,
            capabilities: self.capabilities,
            ui: self.ui,
            provider_state: text::copy_opt(&self.provider_state),
            provider_dir: text::copy_opt(&self.provider_dir),
        }
    }
}

/// The arguments of the live session that the tray starts.
pub open spec fn ui_args(cli: Cli) -> Seq<Seq<char>> {
    seq!["--provider"@, "active"@, "--live"@] + adapter::valued(
        "--src"@,
        text::filled(text::text_of(cli.src)),
    ) + adapter::valued("--dst"@, text::filled(text::text_of(cli.dst))) + adapter::valued(
        "--live-chunk"@,
        match cli.live_chunk {
            Some(c) => Some(c.shown@),
            None => None,
        },
    ) + adapter::flag(cli.no_mic, "--no-mic"@) + adapter::flag(cli.no_speaker, "--no-speaker"@)
        + adapter::flag(cli.voice_processing, "--voice-processing"@) + adapter::flag(
        cli.select_device,
        "--select-device"@,
    ) + adapter::flag(cli.json, "--json"@) + adapter::valued(
        "--transcript"@,
        text::text_of(cli.transcript),
    ) + adapter::valued("--native-adapter"@, text::text_of(cli.native_adapter))
}

pub fn live_args_for_ui(cli: &Cli) -> (r: Vec<String>)
    ensures
        text::texts(r@) == ui_args(*cli),
{
    let mut args: Vec<String> = Vec::new();
    args.push(text::copy("--provider"));
    args.push(text::copy("active"));
    args.push(text::copy("--live"));
    assert(text::texts(args@) =~= seq!["--provider"@, "active"@, "--live"@]);
    adapter::push_valued(&mut args, "--src", &text::non_empty(&cli.src));
    adapter::push_valued(&mut args, "--dst", &text::non_empty(&cli.dst));
    let chunk = match &cli.live_chunk {
        Some(c) => Some(text::copy(c.shown.as_str())),
        None => None,
    };
    adapter::push_valued(&mut args, "--live-chunk", &chunk);
    adapter::push_flag(&mut args, cli.no_mic, "--no-mic");
    adapter::push_flag(&mut args, cli.no_speaker, "--no-speaker");
    adapter::push_flag(&mut args, cli.voice_processing, "--voice-processing");
    adapter::push_flag(&mut args, cli.select_device, "--select-device");
    adapter::push_flag(&mut args, cli.json, "--json");
    adapter::push_valued(&mut args, "--transcript", &cli.transcript);
    adapter::push_valued(&mut args, "--native-adapter", &cli.native_adapter);
    args
}

/// Whether a live session is meant: it is asked for, or nothing else is.
pub fn should_run_live(cli: &Cli) -> (r: bool)
    ensures
        r == (cli.live || (cli.input is None && cli.mic_duration is None)),
{
    cli.live || (cli.input.is_none() && cli.mic_duration.is_none())
}

/// Why the options do not fit a batch transcription.
pub open spec fn batch_fault(cli: Cli) -> Option<Seq<char>> {
    if cli.dst is Some {
        Some("--dst is only supported with --live Apple mode"@)
    } else if cli.no_mic || cli.no_speaker || cli.voice_processing || cli.select_device {
        Some(
            "--no-mic, --no-speaker, --voice-processing, and --select-device require --live"@,
        )
    } else {
        None
    }
}

pub fn validate_batch_options(cli: &Cli) -> (r: Result<(), String>)
    ensures
        match batch_fault(*cli) {
            None => r is Ok,
            Some(m) => r is Err && r->Err_0@ == m,
        },
{
    if cli.dst.is_some() {
        return Err(text::copy("--dst is only supported with --live Apple mode"));
    }
    if cli.no_mic || cli.no_speaker || cli.voice_processing || cli.select_device {
        return Err(
            text::copy(
                "--no-mic, --no-speaker, --voice-processing, and --select-device require --live",
            ),
        );
    }
    Ok(())
}

/// Why the options do not fit a live session of a provider that offers `capabilities`.
/// `transcript_fault` is what is wrong with the place for the transcript.
pub open spec fn live_fault(
    cli: Cli,
    provider_name: Seq<char>,
    capabilities: LiveCapabilities,
    transcript_fault: Option<Seq<char>>,
) -> Option<Seq<char>> {
    if cli.input is Some || cli.mic_duration is Some {
        Some("--live cannot be combined with --input or --mic-duration"@)
    } else if cli.no_mic && cli.no_speaker {
        Some("--live cannot disable both --no-mic and --no-speaker"@)
    } else if cli.live_chunk is Some && !cli.live_chunk->0.positive() {
        Some("--live-chunk must be greater than zero seconds"@)
    } else if cli.live_chunk is Some && capabilities.mode != LiveModeKind::Chunked {
        Some("--live-chunk requires a chunked live provider"@)
    } else if cli.transcript is Some && transcript_fault is Some {
        transcript_fault
    } else if cli.dst is Some && !capabilities.translation {
        Some("--dst requires a live provider with translation support"@)
    } else if cli.no_mic && !capabilities.speaker {
        Some(
            provider_name
                + " live mode requires microphone input; speaker capture is not supported"@,
        )
    } else if cli.voice_processing && !capabilities.voice_processing {
        Some("--voice-processing is not supported by "@ + provider_name + " live mode"@)
    } else if cli.select_device && !capabilities.device_selection {
        Some("--select-device is not supported by "@ + provider_name + " live mode"@)
    } else {
        None
    }
}

pub fn validate_live_options(
    cli: &Cli,
    provider_name: &str,
    capabilities: &LiveCapabilities,
    transcript_fault: &Option<String>,
) -> (r: Result<(), String>)
    ensures
        match live_fault(*cli, provider_name@, *capabilities, text::text_of(*transcript_fault)) {
            None => r is Ok,
            Some(m) => r is Err && r->Err_0@ == m,
        },
{
    if cli.input.is_some() || cli.mic_duration.is_some() {
        return Err(text::copy("--live cannot be combined with --input or --mic-duration"));
    }
    if cli.no_mic && cli.no_speaker {
        return Err(text::copy("--live cannot disable both --no-mic and --no-speaker"));
    }
    if let Some(seconds) = &cli.live_chunk {
        if !seconds.is_positive() {
            return Err(text::copy("--live-chunk must be greater than zero seconds"));
        }
        if capabilities.mode != LiveModeKind::Chunked {
            return Err(text::copy("--live-chunk requires a chunked live provider"));
        }
    }
    if cli.transcript.is_some() {
        if let Some(fault) = transcript_fault {
            return Err(text::copy(fault.as_str()));
        }
    }
    if cli.dst.is_some() && !capabilities.translation {
        return Err(text::copy("--dst requires a live provider with translation support"));
    }
    if cli.no_mic && !capabilities.speaker {
        return Err(
            text::cat(
                provider_name,
                " live mode requires microphone input; speaker capture is not supported",
            ),
        );
    }
    if cli.voice_processing && !capabilities.voice_processing {
        return Err(
            text::cat3("--voice-processing is not supported by ", provider_name, " live mode"),
        );
    }
    if cli.select_device && !capabilities.device_selection {
        return Err(
            text::cat3("--select-device is not supported by ", provider_name, " live mode"),
        );
    }
    Ok(())
}

/// How long a chunk is: as asked for, else as the provider expects, else 5 seconds.
pub open spec fn chunk_length(cli: Cli, capabilities: LiveCapabilities) -> Duration {
    match cli.live_chunk {
        Some(c) => c.duration,
        None => match capabilities.expected_latency {
            Some(d) => d,
            None => Duration { secs: 5, nanos: 0 },
        },
    }
}

/// What a live session is asked for: what the options say, as far as the provider can.
pub fn live_options_from_cli(cli: &Cli, capabilities: &LiveCapabilities) -> (r: LiveAsrOptions)
    ensures
        text::text_of(r.src) == text::text_of(cli.src),
        text::text_of(r.dst) == if capabilities.translation {
            text::text_of(cli.dst)
        } else {
            None
        },
        r.mic == (!cli.no_mic && capabilities.mic),
        r.speaker == (!cli.no_speaker && capabilities.speaker),
        r.voice_processing == (cli.voice_processing && capabilities.voice_processing),
        r.select_device == (cli.select_device && capabilities.device_selection),
        r.chunk_duration == chunk_length(*cli, *capabilities),
        wish_of(r) == wish(*cli, *capabilities),
{
    let chunk_duration = match &cli.live_chunk {
        Some(c) => c.duration,
        None => match capabilities.expected_latency {
            Some(d) => d,
            None => Duration::from_secs(5),
        },
    };
    LiveAsrOptions {
        src: text::copy_opt(&cli.src),
        dst: if capabilities.translation {
            text::copy_opt(&cli.dst)
        } else {
            None
        },
        mic: !cli.no_mic && capabilities.mic,
        speaker: !cli.no_speaker && capabilities.speaker,
        voice_processing: cli.voice_processing && capabilities.voice_processing,
        select_device: cli.select_device && capabilities.device_selection,
        chunk_duration,
    }
}

/// The latency to expect: of the chunks asked for, else what the provider says.
pub fn live_expected_latency(cli: &Cli, capabilities: &LiveCapabilities) -> (r: Option<Duration>)
    ensures
        r == if cli.live_chunk is Some && cli.live_chunk->0.positive() {
            Some(cli.live_chunk->0.duration)
        } else {
            capabilities.expected_latency
        },
{
    if let Some(c) = &cli.live_chunk {
        if c.is_positive() {
            return Some(c.duration);
        }
    }
    capabilities.expected_latency
}

/// Where the audio of a batch transcription comes from.
#[derive(Debug, Clone, PartialEq, Eq)]
pub enum AudioSource {
    /// A file, by its path.
    File(String),
    /// The microphone, for this long.
    Microphone(Duration),
}

/// Picks the source of the audio. `exists` and `is_file` tell of the input's path.
pub fn resolve_audio_source(cli: &Cli, exists: bool, is_file: bool) -> (r: Result<
    AudioSource,
    String,
>)
    ensures
        match (cli.input, cli.mic_duration) {
            (Some(_), Some(_)) => r is Err && r->Err_0@
                == "--input and --mic-duration are mutually exclusive"@,
            (None, None) => r is Err && r->Err_0@
                == "one of --input or --mic-duration is required"@,
            (Some(input), None) => if !exists {
                r is Err && r->Err_0@ == "input file does not exist: "@ + input@
            } else if !is_file {
                r is Err && r->Err_0@ == "input path is not a file: "@ + input@
            } else {
                r matches Ok(AudioSource::File(p)) && p@ == input@
            },
            (None, Some(seconds)) => if seconds.positive() {
                r == Ok::<AudioSource, String>(AudioSource::Microphone(seconds.duration))
            } else {
                r is Err && r->Err_0@ == "--mic-duration must be greater than zero seconds"@
            },
        },
{
    match (&cli.input, &cli.mic_duration) {
        (Some(_), Some(_)) => Err(text::copy("--input and --mic-duration are mutually exclusive")),
        (None, None) => Err(text::copy("one of --input or --mic-duration is required")),
        (Some(input), None) => {
            if !exists {
                return Err(text::cat("input file does not exist: ", input.as_str()));
            }
            if !is_file {
                return Err(text::cat("input path is not a file: ", input.as_str()));
            }
            Ok(AudioSource::File(text::copy(input.as_str())))
        },
        (None, Some(seconds)) => {
            if !seconds.is_positive() {
                return Err(text::copy("--mic-duration must be greater than zero seconds"));
            }
            Ok(AudioSource::Microphone(seconds.duration))
        },
    }
}

impl AudioSource {
    /// The channel that the transcript names.
    pub fn channel(&self) -> (r: AudioChannel)
        ensures
            r == match self {
                AudioSource::File(_) => AudioChannel::File,
                AudioSource::Microphone(_) => AudioChannel::Mic,
            },
    {
        match self {
            AudioSource::File(_) => AudioChannel::File,
            AudioSource::Microphone(_) => AudioChannel::Mic,
        }
    }
}

/// The name of the file that the microphone is recorded to.
pub fn recording_file_name(tool: &str, now_millis: u64) -> (r: String)
    ensures
        r@ == tool@ + "-mic-"@ + text::decimal(now_millis as nat) + ".wav"@,
{
    text::cat4(tool, "-mic-", text::number(now_millis).as_str(), ".wav")
}

/// What a batch transcription gives: the text, and the same as an event.
#[derive(Debug, Clone, PartialEq, Eq)]
pub struct OutputPayload {
    pub text: String,
    pub event: TranscriptEvent,
}

impl OutputPayload {
    /// The language is the transcript's, else the one asked for, else undetermined.
    pub fn new(
        transcript: Transcript,
        channel: AudioChannel,
        src_hint: Option<String>,
        timestamp: EventTimestamp,
    ) -> (r: OutputPayload)
        ensures
            r.text@ == transcript.text@,
            r.event.seq == 0,
            r.event.channel == channel,
            r.event.timestamp == timestamp,
            r.event.audio is None,
            r.event.src.text@ == transcript.text@,
            r.event.src.lang@ == match transcript.language {
                Some(l) => l@,
                None => match src_hint {
                    Some(l) => l@,
                    None => "und"@,
                },
            },
            r.event.src.confidence is None,
            r.event.dst is None,
    {
        let lang = match transcript.language {
            Some(l) => l,
            None => match src_hint {
                Some(l) => l,
                None => text::copy("und"),
            },
        };
        let event = TranscriptEvent {
            seq: 0,
            channel,
            timestamp,
            audio: None,
            src: TranscriptSource {
                lang,
                text: text::copy(transcript.text.as_str()),
                confidence: None,
            },
            dst: None,
        };
        OutputPayload { text: transcript.text, event }
    }
}

/// A batch transcription takes every option but those that only a live session knows.
pub proof fn law_batch_takes_no_live_options(cli: Cli)
    ensures
        batch_fault(cli) is None <==> cli.dst is None && !cli.no_mic && !cli.no_speaker
            && !cli.voice_processing && !cli.select_device,
{
}

/// A live session takes the options just where they agree among themselves and the provider
/// has what they ask for.
pub proof fn law_live_takes_what_the_provider_has(
    cli: Cli,
    provider_name: Seq<char>,
    capabilities: LiveCapabilities,
    transcript_fault: Option<Seq<char>>,
)
    ensures
        live_fault(cli, provider_name, capabilities, transcript_fault) is None <==> {
            &&& cli.input is None && cli.mic_duration is None
            &&& !(cli.no_mic && cli.no_speaker)
            &&& cli.live_chunk is Some ==> cli.live_chunk->0.positive() && capabilities.mode
                == LiveModeKind::Chunked
            &&& cli.transcript is Some ==> transcript_fault is None
            &&& cli.dst is Some ==> capabilities.translation
            &&& cli.no_mic ==> capabilities.speaker
            &&& cli.voice_processing ==> capabilities.voice_processing
            &&& cli.select_device ==> capabilities.device_selection
        },
{
}

/// The length of a chunk is the one asked for, else the one the provider is known for, else
/// five seconds.
pub proof fn law_chunk_length_as_asked(cli: Cli, capabilities: LiveCapabilities)
    ensures
        cli.live_chunk is Some ==> chunk_length(cli, capabilities) == cli.live_chunk->0.duration,
        cli.live_chunk is None && capabilities.expected_latency is Some ==> chunk_length(
            cli,
            capabilities,
        ) == capabilities.expected_latency->0,
        cli.live_chunk is None && capabilities.expected_latency is None ==> chunk_length(
            cli,
            capabilities,
        ).secs == 5 && chunk_length(cli, capabilities).nanos == 0,
{
}

/// The user interface hands each option on to the session that it starts: a value stands
/// right behind its name, and a switch is there where it is set.
pub proof fn law_interface_hands_options_on(cli: Cli)
    ensures
        ({
            let all = ui_args(cli);
            &&& cli.src is Some && text::trimmed(cli.src->0@).len() > 0 ==> adapter::pair_in(
                all,
                "--src"@,
                text::trimmed(cli.src->0@),
            )
            &&& cli.dst is Some && text::trimmed(cli.dst->0@).len() > 0 ==> adapter::pair_in(
                all,
                "--dst"@,
                text::trimmed(cli.dst->0@),
            )
            &&& cli.live_chunk is Some ==> adapter::pair_in(
                all,
                "--live-chunk"@,
                cli.live_chunk->0.shown@,
            )
            &&& cli.transcript is Some ==> adapter::pair_in(
                all,
                "--transcript"@,
                cli.transcript->0@,
            )
            &&& cli.native_adapter is Some ==> adapter::pair_in(
                all,
                "--native-adapter"@,
                cli.native_adapter->0@,
            )
            &&& cli.no_mic ==> all.contains("--no-mic"@)
            &&& cli.no_speaker ==> all.contains("--no-speaker"@)
            &&& cli.voice_processing ==> all.contains("--voice-processing"@)
            &&& cli.select_device ==> all.contains("--select-device"@)
            &&& cli.json ==> all.contains("--json"@)
        }),
{
    let chunk = match cli.live_chunk {
        Some(c) => Some(c.shown@),
        None => None,
    };
    let s0 = seq!["--provider"@, "active"@, "--live"@];
    let s1 = s0 + adapter::valued("--src"@, text::filled(text::text_of(cli.src)));
    adapter::lemma_valued(s0, "--src"@, text::filled(text::text_of(cli.src)));
    let s2 = s1 + adapter::valued("--dst"@, text::filled(text::text_of(cli.dst)));
    adapter::lemma_valued(s1, "--dst"@, text::filled(text::text_of(cli.dst)));
    let s3 = s2 + adapter::valued("--live-chunk"@, chunk);
    adapter::lemma_valued(s2, "--live-chunk"@, chunk);
    let s4 = s3 + adapter::flag(cli.no_mic, "--no-mic"@);
    adapter::lemma_flag(s3, cli.no_mic, "--no-mic"@);
    let s5 = s4 + adapter::flag(cli.no_speaker, "--no-speaker"@);
    adapter::lemma_flag(s4, cli.no_speaker, "--no-speaker"@);
    let s6 = s5 + adapter::flag(cli.voice_processing, "--voice-processing"@);
    adapter::lemma_flag(s5, cli.voice_processing, "--voice-processing"@);
    let s7 = s6 + adapter::flag(cli.select_device, "--select-device"@);
    adapter::lemma_flag(s6, cli.select_device, "--select-device"@);
    let s8 = s7 + adapter::flag(cli.json, "--json"@);
    adapter::lemma_flag(s7, cli.json, "--json"@);
    let s9 = s8 + adapter::valued("--transcript"@, text::text_of(cli.transcript));
    adapter::lemma_valued(s8, "--transcript"@, text::text_of(cli.transcript));
    let s10 = s9 + adapter::valued("--native-adapter"@, text::text_of(cli.native_adapter));
    adapter::lemma_valued(s9, "--native-adapter"@, text::text_of(cli.native_adapter));
    assert(ui_args(cli) == s10);
}

/// The session that the user interface starts is a live one of the active provider, and is
/// handed nothing but its options.
pub proof fn law_interface_hands_nothing_else_on(cli: Cli)
    ensures
        ui_args(cli)[0] == "--provider"@ && ui_args(cli)[1] == "active"@ && ui_args(cli)[2]
            == "--live"@,
        ui_args(cli).len() == 3 + adapter::taken(text::filled(text::text_of(cli.src)))
            + adapter::taken(text::filled(text::text_of(cli.dst))) + adapter::taken(
            match cli.live_chunk {
                Some(c) => Some(c.shown@),
                None => None,
            },
        ) + adapter::taken(text::text_of(cli.transcript)) + adapter::taken(
            text::text_of(cli.native_adapter),
        ) + adapter::set(cli.no_mic) + adapter::set(cli.no_speaker) + adapter::set(
            cli.voice_processing,
        ) + adapter::set(cli.select_device) + adapter::set(cli.json),
{
    let chunk = match cli.live_chunk {
        Some(c) => Some(c.shown@),
        None => None,
    };
    let src = text::filled(text::text_of(cli.src));
    let dst = text::filled(text::text_of(cli.dst));
    let kept = text::text_of(cli.transcript);
    let own = text::text_of(cli.native_adapter);
    adapter::lemma_lengths("--src"@, src, "--no-mic"@, cli.no_mic);
    adapter::lemma_lengths("--dst"@, dst, "--no-speaker"@, cli.no_speaker);
    adapter::lemma_lengths("--live-chunk"@, chunk, "--voice-processing"@, cli.voice_processing);
    adapter::lemma_lengths("--transcript"@, kept, "--select-device"@, cli.select_device);
    adapter::lemma_lengths("--native-adapter"@, own, "--json"@, cli.json);
    lemma_joined(
        seq!["--provider"@, "active"@, "--live"@],
        adapter::valued("--src"@, src),
        adapter::valued("--dst"@, dst),
        adapter::valued("--live-chunk"@, chunk),
        adapter::flag(cli.no_mic, "--no-mic"@),
        adapter::flag(cli.no_speaker, "--no-speaker"@),
        adapter::flag(cli.voice_processing, "--voice-processing"@),
        adapter::flag(cli.select_device, "--select-device"@),
        adapter::flag(cli.json, "--json"@),
        adapter::valued("--transcript"@, kept),
        adapter::valued("--native-adapter"@, own),
    );
}

proof fn lemma_joined(
    head: Seq<Seq<char>>,
    a: Seq<Seq<char>>,
    b: Seq<Seq<char>>,
    c: Seq<Seq<char>>,
    d: Seq<Seq<char>>,
    e: Seq<Seq<char>>,
    f: Seq<Seq<char>>,
    g: Seq<Seq<char>>,
    h: Seq<Seq<char>>,
    i: Seq<Seq<char>>,
    j: Seq<Seq<char>>,
)
    requires
        head.len() == 3,
    ensures
        ({
            let all = head + a + b + c + d + e + f + g + h + i + j;
            &&& all.len() == 3 + a.len() + b.len() + c.len() + d.len() + e.len() + f.len() + g.len()
                + h.len() + i.len() + j.len()
            &&& all[0] == head[0] && all[1] == head[1] && all[2] == head[2]
        }),
{
}

/// What a live session is asked to do.
#[verifier::ext_equal]
pub struct WishView {
    pub src: Option<Seq<char>>,
    pub dst: Option<Seq<char>>,
    pub mic: bool,
    pub speaker: bool,
    pub voice_processing: bool,
    pub select_device: bool,
    pub chunk_duration: Duration,
}

pub open spec fn wish_of(o: LiveAsrOptions) -> WishView {
    WishView {
        src: text::text_of(o.src),
        dst: text::text_of(o.dst),
        mic: o.mic,
        speaker: o.speaker,
        voice_processing: o.voice_processing,
        select_device: o.select_device,
        chunk_duration: o.chunk_duration,
    }
}

/// What the options ask of a provider with these capabilities.
pub open spec fn wish(cli: Cli, capabilities: LiveCapabilities) -> WishView {
    WishView {
        src: text::text_of(cli.src),
        dst: if capabilities.translation {
            text::text_of(cli.dst)
        } else {
            None
        },
        mic: !cli.no_mic && capabilities.mic,
        speaker: !cli.no_speaker && capabilities.speaker,
        voice_processing: cli.voice_processing && capabilities.voice_processing,
        select_device: cli.select_device && capabilities.device_selection,
        chunk_duration: chunk_length(cli, capabilities),
    }
}

/// A session is asked for what the options say, and for nothing that the provider does not
/// have: what both have is asked for, what either lacks is not.
pub proof fn law_wish_is_what_both_have(cli: Cli, capabilities: LiveCapabilities)
    ensures
        ({
            let w = wish(cli, capabilities);
            &&& w.mic ==> capabilities.mic && !cli.no_mic
            &&& w.speaker ==> capabilities.speaker && !cli.no_speaker
            &&& w.voice_processing ==> capabilities.voice_processing && cli.voice_processing
            &&& w.select_device ==> capabilities.device_selection && cli.select_device
            &&& w.dst is Some ==> capabilities.translation
            &&& capabilities.mic && !cli.no_mic ==> w.mic
            &&& capabilities.speaker && !cli.no_speaker ==> w.speaker
            &&& capabilities.voice_processing && cli.voice_processing ==> w.voice_processing
            &&& capabilities.device_selection && cli.select_device ==> w.select_device
            &&& capabilities.translation && cli.dst is Some ==> w.dst == Some(cli.dst->0@)
            &&& cli.src is Some ==> w.src == Some(cli.src->0@)
            &&& cli.src is None ==> w.src is None
        }),
{
}

} // verus!
