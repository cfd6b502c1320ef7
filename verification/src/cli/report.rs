//! What the tool reports of its providers and of the machine, and how it prints it.
use crate::asr::{AsrCapabilities, Duration, LiveCapabilities, LiveModeKind};
use crate::audio::{AudioError, InputDeviceInfo};
use crate::cli::args;
#[allow(unused_imports)]
use crate::cli::args::Choice;
use crate::cli::args::{AsrBackend, Cli};
use crate::cli::profile;
#[allow(unused_imports)]
use crate::cli::profile::{InstalledView, ProfileView};
use crate::cli::profile::{InstalledProvider, ProviderProfile};
use crate::cli::provider;
#[allow(unused_imports)]
use crate::cli::provider::EffectiveView;
use crate::cli::provider::{AppleSupport, EffectiveProvider, ProviderConfig, Surroundings};
use crate::table;
use crate::text;
use vstd::prelude::*;
use vstd::string::*;

verus! {

pub open spec fn yes_or_no(value: bool) -> Seq<char> {
    if value {
        "yes"@
    } else {
        "no"@
    }
}

pub fn yes_no(value: bool) -> (r: &'static str)
    ensures
        r@ == yes_or_no(value),
{
    if value {
        "yes"
    } else {
        "no"
    }
}

pub open spec fn mode_name(mode: LiveModeKind) -> Seq<char> {
    match mode {
        LiveModeKind::Streaming => "streaming"@,
        LiveModeKind::Chunked => "chunked"@,
    }
}

pub fn live_mode_name(mode: LiveModeKind) -> (r: &'static str)
    ensures
        r@ == mode_name(mode),
{
    match mode {
        LiveModeKind::Streaming => "streaming",
        LiveModeKind::Chunked => "chunked",
    }
}

/// A latency as it is reported.
pub open spec fn about(d: Duration) -> Seq<char> {
    "~"@ + d.shown()
}

pub fn format_duration(duration: &Duration) -> (r: String)
    requires
        duration.well_formed(),
    ensures
        r@ == about(*duration),
{
    text::cat("~", duration.show().as_str())
}

pub open spec fn latency(d: Option<Duration>) -> Option<Seq<char>> {
    match d {
        Some(d) => Some(about(d)),
        None => None,
    }
}

/// A latency that may be missing is well formed where it is there.
pub open spec fn sound(d: Option<Duration>) -> bool {
    d is Some ==> d->0.well_formed()
}

fn shown_latency(d: &Option<Duration>) -> (r: Option<String>)
    requires
        sound(*d),
    ensures
        text::text_of(r) == latency(*d),
{
    match d {
        Some(d) => Some(format_duration(d)),
        None => None,
    }
}

/// One line.
pub open spec fn said(label: Seq<char>, value: Seq<char>) -> Seq<Seq<char>> {
    seq![label + value]
}

/// One line, where there is a value.
pub open spec fn said_if(label: Seq<char>, value: Option<Seq<char>>) -> Seq<Seq<char>> {
    match value {
        Some(v) => seq![label + v],
        None => Seq::<Seq<char>>::empty(),
    }
}

/// One line for each value.
pub open spec fn said_each(label: Seq<char>, values: Seq<Seq<char>>) -> Seq<Seq<char>> {
    values.map_values(|v: Seq<char>| label + v)
}

pub fn say(lines: &mut Vec<String>, label: &str, value: &str)
    ensures
        text::texts(final(lines)@) == text::texts(old(lines)@) + said(label@, value@),
{
    lines.push(text::cat(label, value));
    assert(text::texts(lines@) =~= text::texts(old(lines)@) + said(label@, value@));
}

pub fn say_if(lines: &mut Vec<String>, label: &str, value: &Option<String>)
    ensures
        text::texts(final(lines)@) == text::texts(old(lines)@) + said_if(
            label@,
            text::text_of(*value),
        ),
{
    match value {
        Some(v) => {
            lines.push(text::cat(label, v.as_str()));
            assert(text::texts(lines@) =~= text::texts(old(lines)@) + said_if(
                label@,
                text::text_of(*value),
            ));
        },
        None => {
            assert(text::texts(lines@) =~= text::texts(old(lines)@) + Seq::<Seq<char>>::empty());
        },
    }
}

pub fn say_each(lines: &mut Vec<String>, label: &str, values: &Vec<String>)
    ensures
        text::texts(final(lines)@) == text::texts(old(lines)@) + said_each(
            label@,
            text::texts(values@),
        ),
{
    let ghost start = text::texts(lines@);
    let ghost all = said_each(label@, text::texts(values@));
    let n: usize = values.len();
    let mut i: usize = 0;
    assert(start + all.take(0) =~= start);
    while i < n
        invariant
            n == values.len(),
            all == said_each(label@, text::texts(values@)),
            start == text::texts(old(lines)@),
            i <= n,
            text::texts(lines@) == start + all.take(i as int),
        decreases n - i,
    {
        let ghost before = text::texts(lines@);
        lines.push(text::cat(label, values[i].as_str()));
        assert(text::texts(lines@) =~= before.push(all[i as int]));
        assert(start + all.take(i + 1) =~= (start + all.take(i as int)).push(all[i as int]));
        i = i + 1;
    }
    assert(all.take(n as int) =~= all);
}

#[derive(Debug, Clone, PartialEq, Eq)]
pub struct LiveCapabilitiesReport {
    pub mode: String,
    pub mic: bool,
    pub speaker: bool,
    pub streaming_audio: bool,
    pub partial_results: bool,
    pub finalized_results: bool,
    pub translation: bool,
    pub voice_processing: bool,
    pub device_selection: bool,
    pub requires_network: bool,
    pub expected_latency: Option<String>,
}

impl LiveCapabilitiesReport {
    pub open spec fn tells(self, c: LiveCapabilities) -> bool {
        &&& self.mode@ == mode_name(c.mode)
        &&& self.mic == c.mic
        &&& self.speaker == c.speaker
        &&& self.streaming_audio == c.streaming_audio
        &&& self.partial_results == c.partial_results
        &&& self.finalized_results == c.finalized_results
        &&& self.translation == c.translation
        &&& self.voice_processing == c.voice_processing
        &&& self.device_selection == c.device_selection
        &&& self.requires_network == c.requires_network
        &&& text::text_of(self.expected_latency) == latency(c.expected_latency)
    }
}

pub fn live_capabilities_report(c: &LiveCapabilities) -> (r: LiveCapabilitiesReport)
    requires
        sound(c.expected_latency),
    ensures
        r.tells(*c),
{
    LiveCapabilitiesReport {
        mode: text::copy(live_mode_name(c.mode)),
        mic: c.mic,
        speaker: c.speaker,
        streaming_audio: c.streaming_audio,
        partial_results: c.partial_results,
        finalized_results: c.finalized_results,
        translation: c.translation,
        voice_processing: c.voice_processing,
        device_selection: c.device_selection,
        requires_network: c.requires_network,
        expected_latency: shown_latency(&c.expected_latency),
    }
}

/// What a provider that the options mean can do, and whether it is set up.
#[derive(Debug, Clone, PartialEq, Eq)]
pub struct CapabilitiesReport {
    pub requested: String,
    pub resolved: Option<String>,
    pub provider: Option<String>,
    pub provider_kind: Option<String>,
    pub provider_config: Option<String>,
    pub model: String,
    pub local_config_ok: bool,
    pub local_config_error: Option<String>,
    pub resolution_error: Option<String>,
    pub batch: Option<AsrCapabilities>,
    pub live: Option<LiveCapabilitiesReport>,
    pub notes: Vec<String>,
}

/// The model that a report names.
pub open spec fn reported_model(cli: Choice, e: Result<EffectiveView, Seq<char>>) -> Seq<char> {
    match text::filled(cli.api_model) {
        Some(model) => model,
        None => match e {
            Err(_) => "whisper-1"@,
            Ok(e) => if e.backend == AsrBackend::OpenaiCompatible {
                provider::model_in_use(cli, e.profile)
            } else {
                match e.profile {
                    Some(p) => match text::filled(p.profile.default_model) {
                        Some(model) => model,
                        None => "whisper-1"@,
                    },
                    None => provider::default_model_named(e.backend.label()),
                }
            },
        },
    }
}

fn report_model(cli: &Cli, e: &Result<EffectiveProvider, String>) -> (r: String)
    ensures
        r@ == reported_model(cli.choice(), provider::effective_result(*e)),
{
    if let Some(model) = text::non_empty(&cli.api_model) {
        return model;
    }
    match e {
        Err(_) => text::copy("whisper-1"),
        Ok(e) => {
            if e.backend == AsrBackend::OpenaiCompatible {
                provider::openai_compatible_model(cli, &e.profile)
            } else {
                match &e.profile {
                    Some(p) => match text::non_empty(&p.profile.default_model) {
                        Some(model) => model,
                        None => text::copy("whisper-1"),
                    },
                    None => text::copy(provider::default_model_for_name(e.backend.as_str())),
                }
            }
        },
    }
}

impl CapabilitiesReport {
    /// The report on `e`, the provider that the options mean.
    pub open spec fn tells(
        self,
        cli: Choice,
        w: Surroundings,
        e: Result<EffectiveView, Seq<char>>,
    ) -> bool {
        &&& self.requested@ == cli.asr.label()
        &&& text::text_of(self.provider_config) == w.config.place()
        &&& self.model@ == reported_model(cli, e)
        &&& match e {
            Ok(e) => {
                &&& text::text_of(self.resolved) == Some(e.backend.label())
                &&& text::text_of(self.provider) == e.profile_name()
                &&& text::text_of(self.provider_kind) == e.profile_kind()
                &&& self.local_config_ok == e.config_error is None
                &&& text::text_of(self.local_config_error) == e.config_error
                &&& self.resolution_error is None
                &&& self.batch == Some(e.ability.batch)
                &&& match e.ability.live {
                    Some(c) => self.live is Some && self.live->0.tells(c),
                    None => self.live is None,
                }
                &&& text::texts(self.notes@) == e.ability.notes
            },
            Err(fault) => {
                &&& self.resolved is None
                &&& self.provider is None
                &&& self.provider_kind is None
                &&& !self.local_config_ok
                &&& self.local_config_error is None
                &&& text::text_of(self.resolution_error) == Some(fault)
                &&& self.batch is None
                &&& self.live is None
                &&& self.notes@.len() == 0
            },
        }
    }
}

pub fn gather_capabilities_report_with_support(cli: &Cli, w: &Surroundings) -> (r:
    CapabilitiesReport)
    requires
        cli.asr != AsrBackend::External,
    ensures
        r.tells(cli.choice(), *w, provider::effective(cli.choice(), *w, true)),
{
    let e = provider::effective_provider_for(cli, w, true);
    let model = report_model(cli, &e);
    let requested = text::copy(cli.asr.as_str());
    let provider_config = w.config.path();
    match e {
        Ok(e) => {
            let provider_name = e.profile_name();
            let provider_kind = e.profile_kind();
            CapabilitiesReport {
                requested,
                resolved: Some(text::copy(e.backend.as_str())),
                provider: provider_name,
                provider_kind,
                provider_config,
                model,
                local_config_ok: e.config_error.is_none(),
                local_config_error: e.config_error,
                resolution_error: None,
                batch: Some(e.capabilities.batch),
                live: match &e.capabilities.live {
                    Some(c) => Some(live_capabilities_report(c)),
                    None => None,
                },
                notes: e.capabilities.notes,
            }
        },
        Err(fault) => CapabilitiesReport {
            requested,
            resolved: None,
            provider: None,
            provider_kind: None,
            provider_config,
            model,
            local_config_ok: false,
            local_config_error: None,
            resolution_error: Some(fault),
            batch: None,
            live: None,
            notes: Vec::new(),
        },
    }
}

#[derive(Debug, Clone, PartialEq, Eq)]
pub struct LiveReport {
    pub backend: Option<String>,
    pub capabilities: Option<LiveCapabilitiesReport>,
    pub error: Option<String>,
}

/// What a live session would offer.
pub open spec fn live_in_use(cli: Choice, w: Surroundings, backend: AsrBackend) -> LiveCapabilities {
    match backend {
        AsrBackend::External => match provider::effective(
            provider::live_choice(cli, w),
            w,
            true,
        ) {
            Ok(EffectiveView { ability: provider::AbilityView { live: Some(c), .. }, .. }) => c,
            _ => provider::no_live(),
        },
        AsrBackend::Apple => crate::adapter::live_offer(),
        _ => provider::no_live(),
    }
}

/// The latency that a live session is reported with.
pub open spec fn expected(cli: Cli, c: LiveCapabilities) -> Option<Duration> {
    if cli.live_chunk is Some && cli.live_chunk->0.positive() {
        Some(cli.live_chunk->0.duration)
    } else {
        c.expected_latency
    }
}

fn live_offer(cli: &Cli, w: &Surroundings, backend: AsrBackend) -> (r: LiveCapabilities)
    requires
        cli.asr != AsrBackend::External,
    ensures
        r == live_in_use(cli.choice(), *w, backend),
{
    if backend == AsrBackend::External {
        let means = provider::live_options(cli, w);
        if let Ok(e) = provider::effective_provider_for(&means, w, true) {
            if let Some(live) = e.capabilities.live {
                return live;
            }
        }
    }
    provider::live_capabilities_for_backend(backend)
}

pub fn gather_live_report(cli: &Cli, w: &Surroundings) -> (r: LiveReport)
    requires
        cli.asr != AsrBackend::External,
        cli.live_chunk is Some ==> cli.live_chunk->0.duration.well_formed(),
    ensures
        match provider::live_backend(cli.choice(), *w) {
            Ok(backend) => {
                let c = live_in_use(cli.choice(), *w, backend);
                &&& text::text_of(r.backend) == Some(backend.label())
                &&& r.error is None
                &&& r.capabilities is Some
                &&& r.capabilities->0.tells(
                    (LiveCapabilities { expected_latency: expected(*cli, c), ..c }),
                )
            },
            Err(fault) => {
                &&& r.backend is None
                &&& r.capabilities is None
                &&& text::text_of(r.error) == Some(fault)
            },
        },
{
    match provider::resolve_live_backend_for(cli, w) {
        Ok(backend) => {
            let c = live_offer(cli, w, backend);
            let shown = LiveCapabilities {
                expected_latency: args::live_expected_latency(cli, &c),
                ..c
            };
            LiveReport {
                backend: Some(text::copy(backend.as_str())),
                capabilities: Some(live_capabilities_report(&shown)),
                error: None,
            }
        },
        Err(fault) => LiveReport { backend: None, capabilities: None, error: Some(fault) },
    }
}

#[derive(Debug, Clone, PartialEq, Eq)]
pub struct SystemReport {
    pub os: String,
    pub arch: String,
    pub macos_version: Option<String>,
    pub apple_on_device_supported: bool,
    pub apple_on_device_reason: String,
}

impl SystemReport {
    pub open spec fn tells(self, apple: AppleSupport, os: Seq<char>, arch: Seq<char>) -> bool {
        &&& self.os@ == os
        &&& self.arch@ == arch
        &&& text::text_of(self.macos_version) == text::text_of(apple.version)
        &&& self.apple_on_device_supported == apple.supported
        &&& self.apple_on_device_reason@ == apple.reason@
    }
}

/// What is reported of the machine.
pub fn system_report(apple: &AppleSupport, os: &str, arch: &str) -> (r: SystemReport)
    ensures
        r.tells(*apple, os@, arch@),
{
    SystemReport {
        os: text::copy(os),
        arch: text::copy(arch),
        macos_version: text::copy_opt(&apple.version),
        apple_on_device_supported: apple.supported,
        apple_on_device_reason: text::copy(apple.reason.as_str()),
    }
}

#[derive(Debug, Clone, PartialEq, Eq)]
pub struct BackendReport {
    pub requested: String,
    pub resolved: Option<String>,
    pub provider: Option<String>,
    pub provider_kind: Option<String>,
    pub provider_config: Option<String>,
    pub api_base_configured: bool,
    pub api_key_configured: bool,
    pub model: String,
    pub native_adapter: Option<String>,
    pub error: Option<String>,
}

#[derive(Debug, Clone, PartialEq, Eq)]
pub struct AudioReport {
    pub default_input_available: bool,
    pub name: Option<String>,
    pub sample_rate: Option<u32>,
    pub channels: Option<u16>,
    pub sample_format: Option<String>,
    pub error: Option<String>,
}

/// What is reported of the device that is recorded from by default.
pub fn audio_report(found: Result<InputDeviceInfo, AudioError>) -> (r: AudioReport)
    ensures
        match found {
            Ok(d) => {
                &&& r.default_input_available
                &&& r.name == Some(d.name)
                &&& r.sample_rate == Some(d.sample_rate)
                &&& r.channels == Some(d.channels)
                &&& r.sample_format == Some(d.sample_format)
                &&& r.error is None
            },
            Err(e) => {
                &&& !r.default_input_available
                &&& r.name is None
                &&& r.sample_rate is None
                &&& r.channels is None
                &&& r.sample_format is None
                &&& text::text_of(r.error) == Some(e.words())
            },
        },
{
    match found {
        Ok(d) => AudioReport {
            default_input_available: true,
            name: Some(d.name),
            sample_rate: Some(d.sample_rate),
            channels: Some(d.channels),
            sample_format: Some(d.sample_format),
            error: None,
        },
        Err(e) => AudioReport {
            default_input_available: false,
            name: None,
            sample_rate: None,
            channels: None,
            sample_format: None,
            error: Some(e.message()),
        },
    }
}

#[derive(Debug, Clone, Copy, PartialEq, Eq, Structural)]
pub struct RuntimeReport {
    pub python_sidecar_required: bool,
    pub web_direct_available: bool,
    pub native_adapter_supported_os: bool,
}

#[derive(Debug, Clone, PartialEq, Eq)]
pub struct DoctorReport {
    pub system: SystemReport,
    pub backend: BackendReport,
    pub capabilities: CapabilitiesReport,
    pub live: LiveReport,
    pub audio: AudioReport,
    pub runtime: RuntimeReport,
}

impl BackendReport {
    pub open spec fn tells(
        self,
        cli: Choice,
        w: Surroundings,
        e: Result<EffectiveView, Seq<char>>,
    ) -> bool {
        let found = match e {
            Ok(e) => Some(e),
            Err(_) => None,
        };
        &&& self.requested@ == cli.asr.label()
        &&& text::text_of(self.provider_config) == w.config.place()
        &&& self.api_base_configured == provider::configured_base(cli, found) is Some
        &&& self.api_key_configured == provider::configured_key(cli, w, found) is Some
        &&& self.model@ == reported_model(cli, e)
        &&& text::text_of(self.native_adapter) == provider::adapter_in_use(cli, w)
        &&& match e {
            Ok(e) => {
                &&& text::text_of(self.resolved) == Some(e.backend.label())
                &&& text::text_of(self.provider) == e.profile_name()
                &&& text::text_of(self.provider_kind) == e.profile_kind()
                &&& text::text_of(self.error) == e.config_error
            },
            Err(fault) => {
                &&& self.resolved is None
                &&& self.provider is None
                &&& self.provider_kind is None
                &&& text::text_of(self.error) == Some(fault)
            },
        }
    }
}

fn backend_report(cli: &Cli, w: &Surroundings) -> (r: BackendReport)
    requires
        cli.asr != AsrBackend::External,
    ensures
        r.tells(cli.choice(), *w, provider::effective(cli.choice(), *w, false)),
{
    let e = provider::effective_provider_for(cli, w, false);
    let model = report_model(cli, &e);
    let requested = text::copy(cli.asr.as_str());
    let provider_config = w.config.path();
    let native_adapter = provider::resolve_native_adapter(cli, w);
    match e {
        Ok(e) => {
            let found = Some(e);
            let api_base_configured = provider::configured_api_base(cli, &found).is_some();
            let api_key_configured = provider::configured_api_key(cli, w, &found).is_some();
            let e = found.unwrap();
            let name = e.profile_name();
            let provider_kind = e.profile_kind();
            BackendReport {
                requested,
                resolved: Some(text::copy(e.backend.as_str())),
                provider: name,
                provider_kind,
                provider_config,
                api_base_configured,
                api_key_configured,
                model,
                native_adapter,
                error: e.config_error,
            }
        },
        Err(fault) => {
            let found: Option<EffectiveProvider> = None;
            let api_base_configured = provider::configured_api_base(cli, &found).is_some();
            let api_key_configured = provider::configured_api_key(cli, w, &found).is_some();
            BackendReport {
                requested,
                resolved: None,
                provider: None,
                provider_kind: None,
                provider_config,
                api_base_configured,
                api_key_configured,
                model,
                native_adapter,
                error: Some(fault),
            }
        },
    }
}

pub fn gather_doctor_report_with_audio(
    cli: &Cli,
    w: &Surroundings,
    os: &str,
    arch: &str,
    audio: AudioReport,
) -> (r: DoctorReport)
    requires
        cli.asr != AsrBackend::External,
        cli.live_chunk is Some ==> cli.live_chunk->0.duration.well_formed(),
    ensures
        r.system.tells(w.apple, os@, arch@),
        r.backend.tells(cli.choice(), *w, provider::effective(cli.choice(), *w, false)),
        r.capabilities.tells(cli.choice(), *w, provider::effective(cli.choice(), *w, true)),
        match provider::live_backend(cli.choice(), *w) {
            Ok(backend) => {
                let c = live_in_use(cli.choice(), *w, backend);
                &&& text::text_of(r.live.backend) == Some(backend.label())
                &&& r.live.error is None
                &&& r.live.capabilities is Some
                &&& r.live.capabilities->0.tells(
                    (LiveCapabilities { expected_latency: expected(*cli, c), ..c }),
                )
            },
            Err(fault) => {
                &&& r.live.backend is None
                &&& r.live.capabilities is None
                &&& text::text_of(r.live.error) == Some(fault)
            },
        },
        r.audio == audio,
        r.runtime == (RuntimeReport {
            python_sidecar_required: false,
            web_direct_available: true,
            native_adapter_supported_os: true,
        }),
{
    DoctorReport {
        system: system_report(&w.apple, os, arch),
        backend: backend_report(cli, w),
        capabilities: gather_capabilities_report_with_support(cli, w),
        live: gather_live_report(cli, w),
        audio,
        runtime: RuntimeReport {
            python_sidecar_required: false,
            web_direct_available: true,
            native_adapter_supported_os: true,
        },
    }
}

/// The model that is reported is the one of the options where they name one.
pub proof fn law_reported_model_is_the_one_asked_for(
    cli: Choice,
    e: Result<EffectiveView, Seq<char>>,
)
    ensures
        cli.api_model matches Some(m) && text::trimmed(m).len() > 0 ==> reported_model(cli, e)
            == text::trimmed(cli.api_model->0),
        (cli.api_model is None || text::trimmed(cli.api_model->0).len() == 0) ==> (
        e matches Ok(e) && e.profile matches Some(p) && p.profile.default_model matches Some(m)
            && text::trimmed(m).len() > 0) ==> reported_model(cli, e) == text::trimmed(
            e->Ok_0.profile->0.profile.default_model->0,
        ),
        (cli.api_model is None || text::trimmed(cli.api_model->0).len() == 0) && e is Err
            ==> reported_model(cli, e) == "whisper-1"@,
{
}

/// A chunk that is asked for sets the delay that is expected; else the provider's own counts.
pub proof fn law_expected_delay(cli: Cli, c: LiveCapabilities)
    ensures
        (cli.live_chunk matches Some(s) && s.positive()) ==> expected(cli, c) == Some(
            cli.live_chunk->0.duration,
        ),
        !(cli.live_chunk matches Some(s) && s.positive()) ==> expected(cli, c)
            == c.expected_latency,
{
}

/// What is said is in the lines, and what was said before stays.
pub(crate) proof fn lemma_said(
    front: Seq<Seq<char>>,
    label: Seq<char>,
    value: Seq<char>,
    maybe: Option<Seq<char>>,
)
    ensures
        (front + said(label, value)).contains(label + value),
        maybe is Some ==> (front + said_if(label, maybe)).contains(label + maybe->0),
        forall|line: Seq<char>|
            front.contains(line) ==> #[trigger] (front + said(label, value)).contains(line),
        forall|line: Seq<char>|
            front.contains(line) ==> #[trigger] (front + said_if(label, maybe)).contains(line),
        (front + said(label, value)).len() == front.len() + 1,
        (front + said_if(label, maybe)).len() == front.len() + if maybe is Some {
            1nat
        } else {
            0
        },
{
    let a = front + said(label, value);
    let b = front + said_if(label, maybe);
    assert(a[front.len() as int] == label + value);
    if maybe is Some {
        assert(b[front.len() as int] == label + maybe->0);
    }
    assert forall|line: Seq<char>| front.contains(line) implies #[trigger] a.contains(line) by {
        let i = choose|i: int| 0 <= i < front.len() && front[i] == line;
        assert(a[i] == line);
    }
    assert forall|line: Seq<char>| front.contains(line) implies #[trigger] b.contains(line) by {
        let i = choose|i: int| 0 <= i < front.len() && front[i] == line;
        assert(b[i] == line);
    }
}

/// What was said before stays where more lines follow, and what follows is said.
pub(crate) proof fn lemma_more_said(front: Seq<Seq<char>>, more: Seq<Seq<char>>)
    ensures
        forall|line: Seq<char>|
            front.contains(line) || more.contains(line) ==> #[trigger] (front + more).contains(line),
        (front + more).len() == front.len() + more.len(),
{
    let all = front + more;
    assert forall|line: Seq<char>|
        front.contains(line) || more.contains(line) implies #[trigger] all.contains(line) by {
        if front.contains(line) {
            let i = choose|i: int| 0 <= i < front.len() && front[i] == line;
            assert(all[i] == line);
        } else {
            let i = choose|i: int| 0 <= i < more.len() && more[i] == line;
            assert(all[front.len() + i] == line);
        }
    }
}

} // verus!
