//! The `vo` tool, which transcribes with Doubao where nothing else is chosen.
//!
//! It takes the options of the other tool and a few of its own, knows no installed
//! providers, and profiles of HTTP providers only.
use crate::adapter;
use crate::adapter::{NativeAdapterAsr, NativeAdapterConfig};
#[allow(unused_imports)]
use crate::asr::AsrErrorView;
use crate::asr::{AsrCapabilities, LiveCapabilities, ProviderCapabilities};
use crate::cli::args;
#[allow(unused_imports)]
use crate::cli::args::Choice;
use crate::cli::args::Cli;
use crate::cli::print;
use crate::cli::profile;
#[allow(unused_imports)]
use crate::cli::profile::{ProfileView, ResolvedView};
use crate::cli::profile::{ProfileProviderKind, ProviderProfile, ResolvedProviderProfile};
use crate::cli::provider;
#[allow(unused_imports)]
use crate::cli::provider::AbilityView;
use crate::cli::provider::{AppleSupport, ProviderConfig, Surroundings};
use crate::cli::report;
use crate::cli::report::{
    AudioReport, CapabilitiesReport, LiveReport, RuntimeReport, SystemReport,
};
use crate::doubao::live;
use crate::openai;
use crate::openai::{OpenAiCompatibleAsr, OpenAiCompatibleConfig};
use crate::table;
use crate::text;
use vstd::prelude::*;
use vstd::string::*;

verus! {

#[derive(Debug, Clone, Copy, PartialEq, Eq, Structural)]
pub enum VoBackend {
    Auto,
    OpenaiCompatible,
    Doubao,
    Apple,
}

impl VoBackend {
    pub open spec fn label(self) -> Seq<char> {
        match self {
            VoBackend::Auto => "auto"@,
            VoBackend::OpenaiCompatible => "openai-compatible"@,
            VoBackend::Doubao => "doubao"@,
            VoBackend::Apple => "apple"@,
        }
    }

    pub fn as_str(self) -> (r: &'static str)
        ensures
            r@ == self.label(),
    {
        match self {
            VoBackend::Auto => "auto",
            VoBackend::OpenaiCompatible => "openai-compatible",
            VoBackend::Doubao => "doubao",
            VoBackend::Apple => "apple",
        }
    }
}

/// The options: those that both tools have (`common`, whose backend is not used) and
/// those of this one.
#[derive(Debug, Clone, PartialEq, Eq)]
pub struct VoCli {
    pub common: Cli,
    pub asr: VoBackend,
    pub apple_adapter: Option<String>,
    pub doubao_credential_path: Option<String>,
    pub doubao_device_id: Option<String>,
    pub doubao_token: Option<String>,
}

/// A model that Doubao is known by.
pub open spec fn doubao_model(model: Seq<char>) -> bool {
    model == "doubaoime-asr"@ || model == "doubao-asr"@
}

pub fn is_doubao_model_alias(model: &str) -> (r: bool)
    ensures
        r == doubao_model(model@),
{
    text::same(model, live::DEFAULT_MODEL) || text::same(model, "doubao-asr")
}

pub open spec fn support_reason(macos: bool, version: Option<Seq<char>>) -> Seq<char> {
    if macos && provider::supported_version(version) == Some(false) {
        "macOS "@ + version->0 + " is below 26; use doubao or another HTTP provider"@
    } else {
        provider::support_reason(macos, version)
    }
}

/// Judges the machine's own recogniser by the system and its version.
pub fn apple_support(macos: bool, version: Option<String>) -> (r: AppleSupport)
    ensures
        r.supported == (macos && provider::supported_version(text::text_of(version)) == Some(true)),
        r.reason@ == support_reason(macos, text::text_of(version)),
        text::text_of(r.version) == if macos {
            text::text_of(version)
        } else {
            None
        },
{
    let known = text::copy_opt(&version);
    let mut support = provider::apple_support(macos, version);
    if macos {
        if let Some(v) = &known {
            let parts = text::split(v.as_str(), '.');
            assert(text::texts(parts@)[0] == parts@[0]@);
            if text::parse_number(parts[0].as_str(), u32::MAX as u64).is_some()
                && !support.supported {
                support.reason = text::cat3(
                    "macOS ",
                    v.as_str(),
                    " is below 26; use doubao or another HTTP provider",
                );
            }
        }
    }
    support
}

pub open spec fn builtin(name: Seq<char>) -> Option<ProfileView> {
    if name == "openai"@ {
        Some(
            ProfileView {
                kind: ProfileProviderKind::OpenaiCompatible,
                api_base: Some("https://api.openai.com"@),
                default_model: Some("whisper-1"@),
                api_key: None,
                api_key_env: Some("VO_ASR_API_KEY"@),
                batch_file: None,
                streaming: None,
                requires_network: None,
                live_enabled: Some(false),
                notes: seq!["Built-in OpenAI-compatible profile."@],
            },
        )
    } else {
        None
    }
}

pub fn builtin_provider_profile(name: &str) -> (r: Option<ProviderProfile>)
    ensures
        profile::profile_of(r) == builtin(name@),
{
    if !text::same(name, "openai") {
        return None;
    }
    let mut notes: Vec<String> = Vec::new();
    notes.push(text::copy("Built-in OpenAI-compatible profile."));
    assert(text::texts(notes@) =~= seq!["Built-in OpenAI-compatible profile."@]);
    Some(
        ProviderProfile {
            kind: ProfileProviderKind::OpenaiCompatible,
            api_base: Some(text::copy(profile::default_openai_api_base())),
            default_model: Some(text::copy("whisper-1")),
            api_key: None,
            api_key_env: Some(text::copy("VO_ASR_API_KEY")),
            batch_file: None,
            streaming: None,
            requires_network: None,
            live_enabled: Some(false),
            notes,
        },
    )
}

/// Every profile is of the one kind that this tool knows.
pub open spec fn known_kinds(entries: Seq<(String, ProviderProfile)>) -> bool {
    forall|i: int|
        0 <= i < entries.len() ==> (#[trigger] entries[i]).1.kind
            == ProfileProviderKind::OpenaiCompatible
}

/// What is wrong with a configuration that could be read: a profile of another kind makes
/// all of it unreadable to this tool.
pub open spec fn kind_fault(config: ProviderConfig) -> Option<Seq<char>> {
    match config {
        ProviderConfig::Profiles(path, entries) => if known_kinds(entries@) {
            None
        } else {
            Some("failed to parse provider config from "@ + path@)
        },
        _ => None,
    }
}

/// Whether all the profiles are of the kind that this tool knows.
pub fn check_kinds(config: &ProviderConfig) -> (r: Result<(), String>)
    ensures
        match kind_fault(*config) {
            None => r is Ok,
            Some(m) => r is Err && r->Err_0@ == m,
        },
{
    if let ProviderConfig::Profiles(path, entries) = config {
        let n: usize = entries.len();
        let mut i: usize = 0;
        while i < n
            invariant
                n == entries.len(),
                config == ProviderConfig::Profiles(*path, *entries),
                i <= n,
                forall|k: int|
                    0 <= k < i ==> (#[trigger] entries@[k]).1.kind
                        == ProfileProviderKind::OpenaiCompatible,
            decreases n - i,
        {
            if entries[i].1.kind != ProfileProviderKind::OpenaiCompatible {
                return Err(text::cat("failed to parse provider config from ", path.as_str()));
            }
            i = i + 1;
        }
    }
    Ok(())
}

/// The profile that the options name: one that is built in, else one of the configuration.
pub open spec fn resolved_profile(provider: Option<Seq<char>>, config: ProviderConfig) -> Result<
    Option<ResolvedView>,
    Seq<char>,
> {
    match text::filled(provider) {
        None => Ok(None),
        Some(name) => match builtin(name) {
            Some(p) => Ok(Some(ResolvedView { name, profile: p, installed: None })),
            None => match kind_fault(config) {
                Some(e) => Err(e),
                None => match provider::config_entry(config, name) {
                    Ok(p) => Ok(Some(ResolvedView { name, profile: p, installed: None })),
                    Err(e) => Err(e),
                },
            },
        },
    }
}

pub fn resolve_provider_profile(cli: &VoCli, config: &ProviderConfig) -> (r: Result<
    Option<ResolvedProviderProfile>,
    String,
>)
    ensures
        provider::resolved_result(r) == resolved_profile(
            text::text_of(cli.common.provider),
            *config,
        ),
{
    let name = match text::non_empty(&cli.common.provider) {
        None => {
            return Ok(None);
        },
        Some(name) => name,
    };
    if let Some(profile) = builtin_provider_profile(name.as_str()) {
        return Ok(Some(ResolvedProviderProfile { name, profile, installed: None }));
    }
    if let Err(e) = check_kinds(config) {
        return Err(e);
    }
    match provider::read_entry(config, name.as_str()) {
        Ok(profile) => Ok(Some(ResolvedProviderProfile { name, profile, installed: None })),
        Err(e) => Err(e),
    }
}

/// What of the options bears on the choice of a provider.
pub open spec fn choice(cli: VoCli) -> VoChoice {
    VoChoice {
        asr: cli.asr,
        common: cli.common.choice(),
        apple_adapter: text::text_of(cli.apple_adapter),
    }
}

#[verifier::ext_equal]
pub struct VoChoice {
    pub asr: VoBackend,
    pub common: Choice,
    pub apple_adapter: Option<Seq<char>>,
}

/// The backend that the options choose where they name no profile: a model that is asked
/// for decides, else whether the machine has a recogniser of its own.
pub open spec fn plain_backend(c: VoChoice, apple: AppleSupport) -> Result<VoBackend, Seq<char>> {
    match c.asr {
        VoBackend::Auto => match text::filled(c.common.api_model) {
            Some(model) => if doubao_model(model) {
                Ok(VoBackend::Doubao)
            } else {
                Ok(VoBackend::OpenaiCompatible)
            },
            None => if apple.supported {
                Ok(VoBackend::OpenaiCompatible)
            } else {
                Ok(VoBackend::Doubao)
            },
        },
        VoBackend::Apple => if apple.supported {
            Ok(VoBackend::Apple)
        } else {
            Err("apple ASR is unavailable: "@ + apple.reason@)
        },
        other => Ok(other),
    }
}

pub open spec fn resolved_backend(c: VoChoice, w: Surroundings) -> Result<VoBackend, Seq<char>> {
    match resolved_profile(c.common.provider, w.config) {
        Err(e) => Err(e),
        Ok(Some(_)) => Ok(VoBackend::OpenaiCompatible),
        Ok(None) => plain_backend(c, w.apple),
    }
}

pub open spec fn backend_result(r: Result<VoBackend, String>) -> Result<VoBackend, Seq<char>> {
    match r {
        Ok(b) => Ok(b),
        Err(e) => Err(e@),
    }
}

fn choose_backend(cli: &VoCli, apple: &AppleSupport) -> (r: Result<VoBackend, String>)
    ensures
        backend_result(r) == plain_backend(choice(*cli), *apple),
{
    match cli.asr {
        VoBackend::Auto => {
            if let Some(model) = text::non_empty(&cli.common.api_model) {
                return if is_doubao_model_alias(model.as_str()) {
                    Ok(VoBackend::Doubao)
                } else {
                    Ok(VoBackend::OpenaiCompatible)
                };
            }
            if apple.supported {
                Ok(VoBackend::OpenaiCompatible)
            } else {
                Ok(VoBackend::Doubao)
            }
        },
        VoBackend::Apple => {
            if apple.supported {
                Ok(VoBackend::Apple)
            } else {
                Err(text::cat("apple ASR is unavailable: ", apple.reason.as_str()))
            }
        },
        VoBackend::OpenaiCompatible => Ok(VoBackend::OpenaiCompatible),
        VoBackend::Doubao => Ok(VoBackend::Doubao),
    }
}

pub fn resolve_backend_for(cli: &VoCli, w: &Surroundings) -> (r: Result<VoBackend, String>)
    ensures
        backend_result(r) == resolved_backend(choice(*cli), *w),
{
    match resolve_provider_profile(cli, &w.config) {
        Err(e) => Err(e),
        Ok(Some(_)) => Ok(VoBackend::OpenaiCompatible),
        Ok(None) => choose_backend(cli, &w.apple),
    }
}

/// A backend that was resolved is one that can be asked.
pub proof fn law_backend_is_concrete(c: VoChoice, w: Surroundings)
    requires
        resolved_backend(c, w) is Ok,
    ensures
        resolved_backend(c, w)->Ok_0 != VoBackend::Auto,
{
}

/// The adapter that the options name, by either name, else the one beside the tool.
pub open spec fn adapter_in_use(c: VoChoice, w: Surroundings) -> Option<Seq<char>> {
    provider::first_of(
        provider::first_of(c.common.native_adapter, c.apple_adapter),
        text::text_of(w.bundled_adapter),
    )
}

pub fn resolve_native_adapter(cli: &VoCli, w: &Surroundings) -> (r: Option<String>)
    ensures
        text::text_of(r) == adapter_in_use(choice(*cli), *w),
{
    match &cli.common.native_adapter {
        Some(a) => Some(text::copy(a.as_str())),
        None => match &cli.apple_adapter {
            Some(a) => Some(text::copy(a.as_str())),
            None => text::copy_opt(&w.bundled_adapter),
        },
    }
}

pub open spec fn bundled_names(windows: bool) -> Seq<Seq<char>> {
    if windows {
        seq![
            "vo-adapter-apple-speech.exe"@,
            "vo-adapter-windows-speech.exe"@,
            "vo-apple-adapter.exe"@,
        ]
    } else {
        seq!["vo-adapter-apple-speech"@, "vo-apple-adapter"@]
    }
}

/// The adapters that may stand beside the tool, in the order they are looked for.
pub fn bundled_native_adapter_names(windows: bool) -> (r: Vec<String>)
    ensures
        text::texts(r@) == bundled_names(windows),
{
    let mut names: Vec<String> = Vec::new();
    if windows {
        names.push(text::copy("vo-adapter-apple-speech.exe"));
        names.push(text::copy("vo-adapter-windows-speech.exe"));
        names.push(text::copy("vo-apple-adapter.exe"));
    } else {
        names.push(text::copy("vo-adapter-apple-speech"));
        names.push(text::copy("vo-apple-adapter"));
    }
    assert(text::texts(names@) =~= bundled_names(windows));
    names
}

pub open spec fn capability_fault(backend: VoBackend, c: VoChoice, w: Surroundings) -> Option<
    Seq<char>,
> {
    if backend != VoBackend::Apple {
        None
    } else if !w.apple.supported {
        Some("apple ASR is unavailable: "@ + w.apple.reason@)
    } else {
        backend_fault(backend, c, w)
    }
}

pub open spec fn backend_fault(backend: VoBackend, c: VoChoice, w: Surroundings) -> Option<
    Seq<char>,
> {
    if backend == VoBackend::Apple && adapter_in_use(c, w) is None {
        Some(
            "--asr apple requires --native-adapter, VO_NATIVE_ADAPTER, or a bundled native adapter binary next to vo"@,
        )
    } else {
        None
    }
}

pub fn validate_backend_config(backend: VoBackend, cli: &VoCli, w: &Surroundings) -> (r: Option<
    String,
>)
    ensures
        text::text_of(r) == backend_fault(backend, choice(*cli), *w),
{
    if backend == VoBackend::Apple && resolve_native_adapter(cli, w).is_none() {
        return Some(
            text::copy(
                "--asr apple requires --native-adapter, VO_NATIVE_ADAPTER, or a bundled native adapter binary next to vo",
            ),
        );
    }
    None
}

pub fn validate_capability_config(backend: VoBackend, cli: &VoCli, w: &Surroundings) -> (r: Option<
    String,
>)
    ensures
        text::text_of(r) == capability_fault(backend, choice(*cli), *w),
{
    if backend != VoBackend::Apple {
        return None;
    }
    if !w.apple.supported {
        return Some(text::cat("apple ASR is unavailable: ", w.apple.reason.as_str()));
    }
    validate_backend_config(backend, cli, w)
}

pub open spec fn backend_ability(backend: VoBackend) -> AbilityView {
    match backend {
        VoBackend::Apple => provider::backend_ability(args::AsrBackend::Apple),
        VoBackend::Doubao => AbilityView {
            batch: AsrCapabilities { batch_file: true, streaming: false, requires_network: true },
            live: Some(live::live_offer()),
            notes: seq![
                "Doubao credentials can be auto-registered and cached locally."@,
                "Doubao live mode is chunked and emits finalized text only."@,
            ],
        },
        _ => provider::backend_ability(args::AsrBackend::OpenaiCompatible),
    }
}

pub fn provider_capabilities_for_backend(backend: VoBackend) -> (r: ProviderCapabilities)
    requires
        backend != VoBackend::Auto,
    ensures
        provider::ability(r) == backend_ability(backend),
{
    match backend {
        VoBackend::Apple => provider::provider_capabilities_for_backend(args::AsrBackend::Apple),
        VoBackend::Doubao => live::doubao_capabilities(),
        _ => provider::provider_capabilities_for_backend(args::AsrBackend::OpenaiCompatible),
    }
}

/// The provider that the options mean, as it can be used.
#[derive(Debug, Clone, PartialEq, Eq)]
pub struct VoEffective {
    pub backend: VoBackend,
    pub profile: Option<ResolvedProviderProfile>,
    pub capabilities: ProviderCapabilities,
    pub config_error: Option<String>,
}

#[verifier::ext_equal]
pub struct VoEffectiveView {
    pub backend: VoBackend,
    pub profile: Option<ResolvedView>,
    pub ability: AbilityView,
    pub config_error: Option<Seq<char>>,
}

impl View for VoEffective {
    type V = VoEffectiveView;

    open spec fn view(&self) -> VoEffectiveView {
        VoEffectiveView {
            backend: self.backend,
            profile: profile::resolved_of(self.profile),
            ability: provider::ability(self.capabilities),
            config_error: text::text_of(self.config_error),
        }
    }
}

pub open spec fn effective_result(r: Result<VoEffective, String>) -> Result<
    VoEffectiveView,
    Seq<char>,
> {
    match r {
        Ok(p) => Ok(p@),
        Err(e) => Err(e@),
    }
}

pub open spec fn effective(c: VoChoice, w: Surroundings, described: bool) -> Result<
    VoEffectiveView,
    Seq<char>,
> {
    match resolved_profile(c.common.provider, w.config) {
        Err(e) => Err(e),
        Ok(Some(p)) => {
            let own = backend_ability(VoBackend::OpenaiCompatible);
            Ok(
                VoEffectiveView {
                    backend: VoBackend::OpenaiCompatible,
                    profile: Some(p),
                    ability: provider::narrowed(own, p.profile),
                    config_error: provider::profile_fault(own, p),
                },
            )
        },
        Ok(None) => {
            let backend = if described && c.asr != VoBackend::Auto {
                Ok(c.asr)
            } else {
                plain_backend(c, w.apple)
            };
            match backend {
                Err(e) => Err(e),
                Ok(backend) => Ok(
                    VoEffectiveView {
                        backend,
                        profile: None,
                        ability: backend_ability(backend),
                        config_error: capability_fault(backend, c, w),
                    },
                ),
            }
        },
    }
}

/// The provider that the options mean. One that is only described (`capability_mode`)
/// may be one that this machine does not support.
pub fn effective_provider_for(cli: &VoCli, w: &Surroundings, capability_mode: bool) -> (r: Result<
    VoEffective,
    String,
>)
    ensures
        effective_result(r) == effective(choice(*cli), *w, capability_mode),
{
    match resolve_provider_profile(cli, &w.config) {
        Err(e) => Err(e),
        Ok(Some(p)) => {
            let own = provider_capabilities_for_backend(VoBackend::OpenaiCompatible);
            let (capabilities, config_error) = provider::effective_capabilities_for_profile(
                own,
                &p,
            );
            Ok(
                VoEffective {
                    backend: VoBackend::OpenaiCompatible,
                    profile: Some(p),
                    capabilities,
                    config_error,
                },
            )
        },
        Ok(None) => {
            let backend = if capability_mode && cli.asr != VoBackend::Auto {
                cli.asr
            } else {
                match choose_backend(cli, &w.apple) {
                    Ok(b) => b,
                    Err(e) => {
                        return Err(e);
                    },
                }
            };
            let capabilities = provider_capabilities_for_backend(backend);
            let config_error = validate_capability_config(backend, cli, w);
            Ok(VoEffective { backend, profile: None, capabilities, config_error })
        },
    }
}

/// The backend of a live session.
pub open spec fn live_backend(c: VoChoice, w: Surroundings) -> Result<VoBackend, Seq<char>> {
    match resolved_profile(c.common.provider, w.config) {
        Err(e) => Err(e),
        Ok(Some(p)) => Err(
            "provider profile '"@ + p.name + "' ("@ + p.profile.kind.label()
                + ") does not support live mode; use --input or --mic-duration for batch transcription"@,
        ),
        Ok(None) => match c.asr {
            VoBackend::OpenaiCompatible => Err(
                "interactive live mode currently supports --asr apple or --asr doubao"@,
            ),
            VoBackend::Doubao => Ok(VoBackend::Doubao),
            _ => if w.apple.supported {
                Ok(VoBackend::Apple)
            } else if c.asr == VoBackend::Auto {
                Ok(VoBackend::Doubao)
            } else {
                Err(
                    "interactive live mode requires Apple on-device ASR: "@ + w.apple.reason@
                        + ". Use --input or --mic-duration with --asr doubao on this system"@,
                )
            },
        },
    }
}

pub fn resolve_live_backend_for(cli: &VoCli, w: &Surroundings) -> (r: Result<VoBackend, String>)
    ensures
        backend_result(r) == live_backend(choice(*cli), *w),
{
    match resolve_provider_profile(cli, &w.config) {
        Err(e) => Err(e),
        Ok(Some(p)) => {
            if let Ok(e) = effective_provider_for(cli, w, true) {
                if e.capabilities.live.is_some() {
                    return Ok(e.backend);
                }
            }
            Err(
                text::cat5(
                    "provider profile '",
                    p.name.as_str(),
                    "' (",
                    p.profile.kind.as_str(),
                    ") does not support live mode; use --input or --mic-duration for batch transcription",
                ),
            )
        },
        Ok(None) => match cli.asr {
            VoBackend::OpenaiCompatible => Err(
                text::copy("interactive live mode currently supports --asr apple or --asr doubao"),
            ),
            VoBackend::Doubao => Ok(VoBackend::Doubao),
            _ => {
                if w.apple.supported {
                    Ok(VoBackend::Apple)
                } else if cli.asr == VoBackend::Auto {
                    Ok(VoBackend::Doubao)
                } else {
                    Err(
                        text::cat3(
                            "interactive live mode requires Apple on-device ASR: ",
                            w.apple.reason.as_str(),
                            ". Use --input or --mic-duration with --asr doubao on this system",
                        ),
                    )
                }
            },
        },
    }
}

/// A live session is only given to a backend with a live mode.
pub proof fn law_live_backend_is_live(c: VoChoice, w: Surroundings)
    requires
        live_backend(c, w) is Ok,
    ensures
        backend_ability(live_backend(c, w)->Ok_0).live is Some,
{
}

pub open spec fn live_offer_of(backend: VoBackend) -> LiveCapabilities {
    match backend {
        VoBackend::Apple => adapter::live_offer(),
        VoBackend::Doubao => live::live_offer(),
        _ => provider::no_live(),
    }
}

pub fn live_capabilities_for_backend(backend: VoBackend) -> (r: LiveCapabilities)
    ensures
        r == live_offer_of(backend),
{
    match backend {
        VoBackend::Apple => adapter::native_adapter_live_capabilities(),
        VoBackend::Doubao => live::doubao_live_capabilities(),
        _ => provider::live_capabilities_for_backend(args::AsrBackend::OpenaiCompatible),
    }
}

pub open spec fn default_model_of(backend: VoBackend) -> Seq<char> {
    match backend {
        VoBackend::Doubao => "doubaoime-asr"@,
        _ => "whisper-1"@,
    }
}

pub fn default_model(backend: VoBackend) -> (r: &'static str)
    ensures
        r@ == default_model_of(backend),
{
    match backend {
        VoBackend::Doubao => live::DEFAULT_MODEL,
        _ => "whisper-1",
    }
}

pub open spec fn default_model_named(backend: Seq<char>) -> Seq<char> {
    if backend == "doubao"@ {
        "doubaoime-asr"@
    } else {
        "whisper-1"@
    }
}

pub fn default_model_for_name(backend: &str) -> (r: &'static str)
    ensures
        r@ == default_model_named(backend@),
{
    if text::same(backend, "doubao") {
        live::DEFAULT_MODEL
    } else {
        "whisper-1"
    }
}

/// The model that a report names.
pub open spec fn reported_model(c: VoChoice, e: Result<VoEffectiveView, Seq<char>>) -> Seq<char> {
    match text::filled(c.common.api_model) {
        Some(model) => model,
        None => match e {
            Err(_) => "whisper-1"@,
            Ok(e) => if e.backend == VoBackend::OpenaiCompatible {
                provider::model_in_use(c.common, e.profile)
            } else {
                default_model_named(e.backend.label())
            },
        },
    }
}

fn report_model(cli: &VoCli, e: &Result<VoEffective, String>) -> (r: String)
    ensures
        r@ == reported_model(choice(*cli), effective_result(*e)),
{
    if let Some(model) = text::non_empty(&cli.common.api_model) {
        return model;
    }
    match e {
        Err(_) => text::copy("whisper-1"),
        Ok(e) => {
            if e.backend == VoBackend::OpenaiCompatible {
                provider::openai_compatible_model(&cli.common, &e.profile)
            } else {
                text::copy(default_model_for_name(e.backend.as_str()))
            }
        },
    }
}

pub open spec fn profile_name(e: VoEffectiveView) -> Option<Seq<char>> {
    match e.profile {
        Some(p) => Some(p.name),
        None => None,
    }
}

pub open spec fn profile_kind(e: VoEffectiveView) -> Option<Seq<char>> {
    match e.profile {
        Some(p) => Some(p.profile.kind.label()),
        None => None,
    }
}

impl VoEffective {
    pub fn profile_name(&self) -> (r: Option<String>)
        ensures
            text::text_of(r) == profile_name(self@),
    {
        match &self.profile {
            Some(p) => Some(text::copy(p.name.as_str())),
            None => None,
        }
    }

    pub fn profile_kind(&self) -> (r: Option<String>)
        ensures
            text::text_of(r) == profile_kind(self@),
    {
        match &self.profile {
            Some(p) => Some(text::copy(p.profile.kind.as_str())),
            None => None,
        }
    }
}

/// The report on `e`, the provider that the options mean.
pub open spec fn tells(
    r: CapabilitiesReport,
    c: VoChoice,
    w: Surroundings,
    e: Result<VoEffectiveView, Seq<char>>,
) -> bool {
    &&& r.requested@ == c.asr.label()
    &&& text::text_of(r.provider_config) == w.config.place()
    &&& r.model@ == reported_model(c, e)
    &&& match e {
        Ok(e) => {
            &&& text::text_of(r.resolved) == Some(e.backend.label())
            &&& text::text_of(r.provider) == profile_name(e)
            &&& text::text_of(r.provider_kind) == profile_kind(e)
            &&& r.local_config_ok == e.config_error is None
            &&& text::text_of(r.local_config_error) == e.config_error
            &&& r.resolution_error is None
            &&& r.batch == Some(e.ability.batch)
            &&& match e.ability.live {
                Some(l) => r.live is Some && r.live->0.tells(l),
                None => r.live is None,
            }
            &&& text::texts(r.notes@) == e.ability.notes
        },
        Err(fault) => {
            &&& r.resolved is None
            &&& r.provider is None
            &&& r.provider_kind is None
            &&& !r.local_config_ok
            &&& r.local_config_error is None
            &&& text::text_of(r.resolution_error) == Some(fault)
            &&& r.batch is None
            &&& r.live is None
            &&& r.notes@.len() == 0
        },
    }
}

pub fn gather_capabilities_report_with_support(cli: &VoCli, w: &Surroundings) -> (r:
    CapabilitiesReport)
    ensures
        tells(r, choice(*cli), *w, effective(choice(*cli), *w, true)),
{
    let e = effective_provider_for(cli, w, true);
    let model = report_model(cli, &e);
    let requested = text::copy(cli.asr.as_str());
    let provider_config = w.config.path();
    match e {
        Ok(e) => {
            let name = e.profile_name();
            let provider_kind = e.profile_kind();
            CapabilitiesReport {
                requested,
                resolved: Some(text::copy(e.backend.as_str())),
                provider: name,
                provider_kind,
                provider_config,
                model,
                local_config_ok: e.config_error.is_none(),
                local_config_error: e.config_error,
                resolution_error: None,
                batch: Some(e.capabilities.batch),
                live: match &e.capabilities.live {
                    Some(c) => Some(report::live_capabilities_report(c)),
                    None => None,
                },
                notes: e.capabilities.notes,
            }
        },
        Err(fault) => CapabilitiesReport {
            requested,
            resolved: None,
            provider: None,
            provider_kind: None,
            provider_config,
            model,
            local_config_ok: false,
            local_config_error: None,
            resolution_error: Some(fault),
            batch: None,
            live: None,
            notes: Vec::new(),
        },
    }
}

/// The report on the backend of a live session.
pub open spec fn tells_live(r: LiveReport, cli: VoCli, w: Surroundings) -> bool {
    match live_backend(choice(cli), w) {
        Ok(backend) => {
            let c = live_offer_of(backend);
            &&& text::text_of(r.backend) == Some(backend.label())
            &&& r.error is None
            &&& r.capabilities is Some
            &&& r.capabilities->0.tells(
                (LiveCapabilities { expected_latency: report::expected(cli.common, c), ..c }),
            )
        },
        Err(fault) => {
            &&& r.backend is None
            &&& r.capabilities is None
            &&& text::text_of(r.error) == Some(fault)
        },
    }
}

pub fn gather_live_report(cli: &VoCli, w: &Surroundings) -> (r: LiveReport)
    requires
        cli.common.live_chunk is Some ==> cli.common.live_chunk->0.duration.well_formed(),
    ensures
        tells_live(r, *cli, *w),
{
    match resolve_live_backend_for(cli, w) {
        Ok(backend) => {
            let c = live_capabilities_for_backend(backend);
            let shown = LiveCapabilities {
                expected_latency: args::live_expected_latency(&cli.common, &c),
                ..c
            };
            LiveReport {
                backend: Some(text::copy(backend.as_str())),
                capabilities: Some(report::live_capabilities_report(&shown)),
                error: None,
            }
        },
        Err(fault) => LiveReport { backend: None, capabilities: None, error: Some(fault) },
    }
}

/// What the tool reports of the backend in use.
#[derive(Debug, Clone, PartialEq, Eq)]
pub struct VoBackendReport {
    pub requested: String,
    pub resolved: Option<String>,
    pub provider: Option<String>,
    pub provider_kind: Option<String>,
    pub provider_config: Option<String>,
    pub api_base_configured: bool,
    pub api_key_configured: bool,
    pub model: String,
    pub doubao_credential_path: Option<String>,
    pub doubao_device_id_configured: bool,
    pub doubao_token_configured: bool,
    pub native_adapter: Option<String>,
    pub error: Option<String>,
}

/// The base that is configured, where it matters.
pub open spec fn configured_base(c: VoChoice, e: Option<VoEffectiveView>) -> Option<Seq<char>> {
    provider::first_of(
        text::filled(c.common.api_base),
        match e {
            Some(e) => match e.profile {
                Some(p) => text::filled(p.profile.api_base),
                None => None,
            },
            None => None,
        },
    )
}

pub open spec fn configured_key(c: VoChoice, w: Surroundings, e: Option<VoEffectiveView>) -> Option<
    Seq<char>,
> {
    provider::key_in_use(
        c.common,
        w,
        match e {
            Some(e) => e.profile,
            None => None,
        },
    )
}

impl VoBackendReport {
    /// The report on the backend that the options mean.
    pub open spec fn tells(
        self,
        cli: VoCli,
        w: Surroundings,
        default_credentials: Option<Seq<char>>,
    ) -> bool {
        let c = choice(cli);
        let e = effective(c, w, false);
        let found = match e {
            Ok(e) => Some(e),
            Err(_) => None,
        };
        &&& self.requested@ == c.asr.label()
        &&& text::text_of(self.provider_config) == w.config.place()
        &&& self.api_base_configured == configured_base(c, found) is Some
        &&& self.api_key_configured == configured_key(c, w, found) is Some
        &&& self.model@ == reported_model(c, e)
        &&& text::text_of(self.doubao_credential_path) == provider::first_of(
            text::text_of(cli.doubao_credential_path),
            default_credentials,
        )
        &&& self.doubao_device_id_configured == text::filled(
            text::text_of(cli.doubao_device_id),
        ) is Some
        &&& self.doubao_token_configured == text::filled(text::text_of(cli.doubao_token)) is Some
        &&& text::text_of(self.native_adapter) == adapter_in_use(c, w)
        &&& match e {
            Ok(e) => {
                &&& text::text_of(self.resolved) == Some(e.backend.label())
                &&& text::text_of(self.provider) == profile_name(e)
                &&& text::text_of(self.provider_kind) == profile_kind(e)
                &&& text::text_of(self.error) == e.config_error
            },
            Err(fault) => {
                &&& self.resolved is None
                &&& self.provider is None
                &&& self.provider_kind is None
                &&& text::text_of(self.error) == Some(fault)
            },
        }
    }
}

/// The report on the backend in use. `default_credentials` is where credentials are
/// kept unless the options say otherwise.
pub fn backend_report(
    cli: &VoCli,
    w: &Surroundings,
    default_credentials: &Option<String>,
) -> (r: VoBackendReport)
    ensures
        r.tells(*cli, *w, text::text_of(*default_credentials)),
{
    let e = effective_provider_for(cli, w, false);
    let model = report_model(cli, &e);
    let no_profile: Option<ResolvedProviderProfile> = None;
    let (resolved, name, kind, error, in_use) = match e {
        Ok(e) => {
            let name = e.profile_name();
            let kind = e.profile_kind();
            (Some(text::copy(e.backend.as_str())), name, kind, e.config_error, e.profile)
        },
        Err(fault) => (None, None, None, Some(fault), no_profile),
    };
    let profile_base = match &in_use {
        Some(p) => text::non_empty(&p.profile.api_base).is_some(),
        None => false,
    };
    let api_base_configured = text::non_empty(&cli.common.api_base).is_some() || profile_base;
    let api_key_configured = provider::openai_compatible_api_key(
        &cli.common,
        w,
        &in_use,
    ).is_some();
    VoBackendReport {
        requested: text::copy(cli.asr.as_str()),
        resolved,
        provider: name,
        provider_kind: kind,
        provider_config: w.config.path(),
        api_base_configured,
        api_key_configured,
        model,
        doubao_credential_path: match &cli.doubao_credential_path {
            Some(p) => Some(text::copy(p.as_str())),
            None => text::copy_opt(default_credentials),
        },
        doubao_device_id_configured: text::non_empty(&cli.doubao_device_id).is_some(),
        doubao_token_configured: text::non_empty(&cli.doubao_token).is_some(),
        native_adapter: resolve_native_adapter(cli, w),
        error,
    }
}

/// What is said of a backend beyond its name.
pub open spec fn backend_details(r: VoBackendReport) -> Seq<Seq<char>> {
    if text::text_of(r.resolved) == Some("doubao"@) {
        report::said("  Model: "@, r.model@) + report::said_if(
            "  Credential cache: "@,
            text::text_of(r.doubao_credential_path),
        ) + if r.doubao_device_id_configured || r.doubao_token_configured {
            seq!["  Credential overrides: yes"@]
        } else {
            Seq::<Seq<char>>::empty()
        }
    } else if text::text_of(r.resolved) == Some("openai-compatible"@) {
        report::said("  API base configured: "@, report::yes_or_no(r.api_base_configured))
            + report::said("  API key configured: "@, report::yes_or_no(r.api_key_configured))
            + report::said("  Model: "@, r.model@)
    } else if text::text_of(r.resolved) == Some("apple"@) {
        report::said_if("  Native adapter: "@, text::text_of(r.native_adapter))
    } else {
        report::said("  Model: "@, r.model@)
    }
}

pub fn backend_details_text(r: &VoBackendReport) -> (lines: Vec<String>)
    ensures
        text::texts(lines@) == backend_details(*r),
{
    let mut lines = print::no_lines();
    if let Some(resolved) = &r.resolved {
        if text::same(resolved.as_str(), "doubao") {
            report::say(&mut lines, "  Model: ", r.model.as_str());
            report::say_if(&mut lines, "  Credential cache: ", &r.doubao_credential_path);
            if r.doubao_device_id_configured || r.doubao_token_configured {
                print::add_line(&mut lines, "  Credential overrides: yes");
            }
            assert(text::texts(lines@) =~= backend_details(*r));
            return lines;
        }
        if text::same(resolved.as_str(), "openai-compatible") {
            report::say(
                &mut lines,
                "  API base configured: ",
                report::yes_no(r.api_base_configured),
            );
            report::say(
                &mut lines,
                "  API key configured: ",
                report::yes_no(r.api_key_configured),
            );
            report::say(&mut lines, "  Model: ", r.model.as_str());
            assert(text::texts(lines@) =~= backend_details(*r));
            return lines;
        }
        if text::same(resolved.as_str(), "apple") {
            report::say_if(&mut lines, "  Native adapter: ", &r.native_adapter);
            assert(text::texts(lines@) =~= backend_details(*r));
            return lines;
        }
    }
    report::say(&mut lines, "  Model: ", r.model.as_str());
    assert(text::texts(lines@) =~= backend_details(*r));
    lines
}

pub open spec fn audio_hint(os: Seq<char>) -> Option<Seq<char>> {
    if os == "macos"@ {
        Some(
            "start a microphone capture from the terminal app you use, for example `vo --mic-duration 1 --asr doubao`, so macOS can show the permission prompt; then allow microphone access in System Settings > Privacy & Security > Microphone, restart the terminal, and check that a default input device is selected"@,
        )
    } else {
        None
    }
}

pub fn doctor_audio_hint(os: &str) -> (r: Option<String>)
    ensures
        text::text_of(r) == audio_hint(os@),
{
    if text::same(os, "macos") {
        Some(
            text::copy(
                "start a microphone capture from the terminal app you use, for example `vo --mic-duration 1 --asr doubao`, so macOS can show the permission prompt; then allow microphone access in System Settings > Privacy & Security > Microphone, restart the terminal, and check that a default input device is selected",
            ),
        )
    } else {
        None
    }
}

/// All that the tool reports of itself and of what it stands on.
#[derive(Debug, Clone, PartialEq, Eq)]
pub struct VoDoctorReport {
    pub system: SystemReport,
    pub backend: VoBackendReport,
    pub capabilities: CapabilitiesReport,
    pub live: LiveReport,
    pub audio: AudioReport,
    pub runtime: RuntimeReport,
}

pub fn gather_doctor_report_with_audio(
    cli: &VoCli,
    w: &Surroundings,
    default_credentials: &Option<String>,
    os: &str,
    arch: &str,
    audio: AudioReport,
) -> (r: VoDoctorReport)
    requires
        cli.common.live_chunk is Some ==> cli.common.live_chunk->0.duration.well_formed(),
    ensures
        r.system.tells(w.apple, os@, arch@),
        r.backend.tells(*cli, *w, text::text_of(*default_credentials)),
        tells(r.capabilities, choice(*cli), *w, effective(choice(*cli), *w, true)),
        tells_live(r.live, *cli, *w),
        r.audio == audio,
        r.runtime == (RuntimeReport {
            python_sidecar_required: false,
            web_direct_available: true,
            native_adapter_supported_os: true,
        }),
{
    VoDoctorReport {
        system: report::system_report(&w.apple, os, arch),
        backend: backend_report(cli, w, default_credentials),
        capabilities: gather_capabilities_report_with_support(cli, w),
        live: gather_live_report(cli, w),
        audio,
        runtime: RuntimeReport {
            python_sidecar_required: false,
            web_direct_available: true,
            native_adapter_supported_os: true,
        },
    }
}

pub open spec fn doctor_lines(r: VoDoctorReport) -> Seq<Seq<char>> {
    print::system_lines(r.system) + seq![""@, "Backend"@] + report::said(
        "  Requested: "@,
        r.backend.requested@,
    ) + report::said_if("  Resolved: "@, text::text_of(r.backend.resolved)) + report::said_if(
        "  Provider profile: "@,
        text::text_of(r.backend.provider),
    ) + report::said_if("  Provider kind: "@, text::text_of(r.backend.provider_kind))
        + report::said_if("  Provider config: "@, text::text_of(r.backend.provider_config))
        + report::said_if("  Error: "@, text::text_of(r.backend.error)) + backend_details(r.backend)
        + seq![""@] + print::capabilities_lines(r.capabilities) + seq![""@] + print::audio_lines(
        r.audio,
        audio_hint(r.system.os@),
    )
}

pub fn doctor_text(r: &VoDoctorReport) -> (lines: Vec<String>)
    ensures
        text::texts(lines@) == doctor_lines(*r),
{
    let mut lines = print::no_lines();
    print::push_system(&mut lines, &r.system);
    print::add_line(&mut lines, "");
    print::add_line(&mut lines, "Backend");
    report::say(&mut lines, "  Requested: ", r.backend.requested.as_str());
    report::say_if(&mut lines, "  Resolved: ", &r.backend.resolved);
    report::say_if(&mut lines, "  Provider profile: ", &r.backend.provider);
    report::say_if(&mut lines, "  Provider kind: ", &r.backend.provider_kind);
    report::say_if(&mut lines, "  Provider config: ", &r.backend.provider_config);
    report::say_if(&mut lines, "  Error: ", &r.backend.error);
    let ghost so_far = text::texts(lines@);
    let mut details = backend_details_text(&r.backend);
    let ghost more = text::texts(details@);
    lines.append(&mut details);
    assert(text::texts(lines@) =~= so_far + more);
    print::add_line(&mut lines, "");
    print::push_capabilities(&mut lines, &r.capabilities);
    print::add_line(&mut lines, "");
    let hint = doctor_audio_hint(r.system.os.as_str());
    print::push_audio(&mut lines, &r.audio, &hint);
    assert(text::texts(lines@) =~= doctor_lines(*r));
    lines
}

/// A provider that is ready to be asked.
pub enum VoSetup {
    OpenAi(OpenAiCompatibleAsr),
    Native(NativeAdapterAsr),
    /// Doubao, with what the options say in place of its credentials.
    Doubao { device_id: Option<String>, token: Option<String> },
}

pub enum VoSetupView {
    OpenAi { base_url: Seq<char>, api_key: Option<Seq<char>>, model: Seq<char> },
    Native { command: Seq<char> },
    Doubao { device_id: Option<Seq<char>>, token: Option<Seq<char>> },
}

impl View for VoSetup {
    type V = VoSetupView;

    open spec fn view(&self) -> VoSetupView {
        match self {
            VoSetup::OpenAi(p) => VoSetupView::OpenAi {
                base_url: p.config.base_url@,
                api_key: text::text_of(p.config.api_key),
                model: p.config.model@,
            },
            VoSetup::Native(p) => VoSetupView::Native { command: p.config.command@ },
            VoSetup::Doubao { device_id, token } => VoSetupView::Doubao {
                device_id: text::text_of(*device_id),
                token: text::text_of(*token),
            },
        }
    }
}

pub open spec fn setup(
    backend: VoBackend,
    c: VoChoice,
    device_id: Option<Seq<char>>,
    token: Option<Seq<char>>,
    w: Surroundings,
) -> Result<VoSetupView, Seq<char>> {
    match backend {
        VoBackend::Apple => match adapter_in_use(c, w) {
            None => Err(
                "--asr apple requires --native-adapter, VO_NATIVE_ADAPTER, or a bundled native adapter binary next to vo"@,
            ),
            Some(command) => if command.len() > 0 {
                Ok(VoSetupView::Native { command })
            } else {
                Err(AsrErrorView::Config("native adapter command is required"@).words())
            },
        },
        VoBackend::Doubao => Ok(
            VoSetupView::Doubao { device_id: text::filled(device_id), token: text::filled(token) },
        ),
        _ => match resolved_profile(c.common.provider, w.config) {
            Err(e) => Err(e),
            Ok(p) => Ok(
                VoSetupView::OpenAi {
                    base_url: provider::api_base_in_use(c.common, p),
                    api_key: provider::key_in_use(c.common, w, p),
                    model: provider::model_in_use(c.common, p),
                },
            ),
        },
    }
}

pub fn build_provider(backend: VoBackend, cli: &VoCli, w: &Surroundings) -> (r: Result<
    VoSetup,
    String,
>)
    requires
        backend != VoBackend::Auto,
    ensures
        match (
            r,
            setup(
                backend,
                choice(*cli),
                text::text_of(cli.doubao_device_id),
                text::text_of(cli.doubao_token),
                *w,
            ),
        ) {
            (Ok(p), Ok(s)) => p@ == s,
            (Err(e), Err(s)) => e@ == s,
            _ => false,
        },
{
    match backend {
        VoBackend::Apple => {
            match resolve_native_adapter(cli, w) {
                None => Err(
                    text::copy(
                        "--asr apple requires --native-adapter, VO_NATIVE_ADAPTER, or a bundled native adapter binary next to vo",
                    ),
                ),
                Some(command) => match NativeAdapterAsr::new(NativeAdapterConfig { command }) {
                    Ok(p) => Ok(VoSetup::Native(p)),
                    Err(e) => Err(e.message()),
                },
            }
        },
        VoBackend::Doubao => Ok(
            VoSetup::Doubao {
                device_id: text::non_empty(&cli.doubao_device_id),
                token: text::non_empty(&cli.doubao_token),
            },
        ),
        _ => {
            let resolved = match resolve_provider_profile(cli, &w.config) {
                Ok(p) => p,
                Err(e) => {
                    return Err(e);
                },
            };
            let config = OpenAiCompatibleConfig {
                base_url: provider::openai_compatible_api_base(&cli.common, &resolved),
                api_key: provider::openai_compatible_api_key(&cli.common, w, &resolved),
                model: provider::openai_compatible_model(&cli.common, &resolved),
            };
            proof {
                provider::lemma_in_use(cli.common.choice(), profile::resolved_of(resolved));
            }
            match OpenAiCompatibleAsr::new(config) {
                Ok(p) => Ok(VoSetup::OpenAi(p)),
                Err(e) => Err(e.message()),
            }
        },
    }
}

/// A profile that is asked for is served as an HTTP service. Without one, the backend is the
/// one named; left open, it goes by the model, and without a model by the machine.
pub proof fn law_backend_as_asked(c: VoChoice, w: Surroundings)
    ensures
        resolved_profile(c.common.provider, w.config) matches Ok(Some(_)) ==> resolved_backend(
            c,
            w,
        ) == Ok::<VoBackend, Seq<char>>(VoBackend::OpenaiCompatible),
        resolved_profile(c.common.provider, w.config) == Ok::<Option<ResolvedView>, Seq<char>>(None)
            ==> {
            &&& c.asr == VoBackend::Doubao || c.asr == VoBackend::OpenaiCompatible
                ==> resolved_backend(c, w) == Ok::<VoBackend, Seq<char>>(c.asr)
            &&& c.asr == VoBackend::Apple ==> (resolved_backend(c, w) is Ok <==> w.apple.supported)
            &&& c.asr == VoBackend::Apple && w.apple.supported ==> resolved_backend(c, w) == Ok::<
                VoBackend,
                Seq<char>,
            >(VoBackend::Apple)
            &&& c.asr == VoBackend::Auto && (c.common.api_model matches Some(m) && (text::trimmed(m)
                == "doubaoime-asr"@ || text::trimmed(m) == "doubao-asr"@)) ==> resolved_backend(
                c,
                w,
            ) == Ok::<VoBackend, Seq<char>>(VoBackend::Doubao)
            &&& c.asr == VoBackend::Auto && (c.common.api_model matches Some(m) && text::trimmed(
                m,
            ).len() > 0 && text::trimmed(m) != "doubaoime-asr"@ && text::trimmed(m)
                != "doubao-asr"@) ==> resolved_backend(c, w) == Ok::<VoBackend, Seq<char>>(
                VoBackend::OpenaiCompatible,
            )
            &&& c.asr == VoBackend::Auto && (c.common.api_model is None || text::trimmed(
                c.common.api_model->0,
            ).len() == 0) ==> resolved_backend(c, w) == Ok::<VoBackend, Seq<char>>(
                if w.apple.supported {
                    VoBackend::OpenaiCompatible
                } else {
                    VoBackend::Doubao
                },
            )
        },
{
    reveal_strlit("doubaoime-asr");
    reveal_strlit("doubao-asr");
}

/// The profile asked for is the built-in one of that name, else the entry of the
/// configuration; no name asks for none.
pub proof fn law_profile_as_asked(provider: Option<Seq<char>>, config: ProviderConfig)
    ensures
        provider is None || text::trimmed(provider->0).len() == 0 ==> resolved_profile(
            provider,
            config,
        ) == Ok::<Option<ResolvedView>, Seq<char>>(None),
        provider is Some && text::trimmed(provider->0) == "openai"@ ==> (resolved_profile(
            provider,
            config,
        ) matches Ok(Some(r)) && r.name == "openai"@ && r.profile.kind
            == ProfileProviderKind::OpenaiCompatible && r.profile.api_base == Some(
            "https://api.openai.com"@,
        )),
        provider is Some && text::trimmed(provider->0).len() > 0 && text::trimmed(provider->0)
            != "openai"@ ==> match config {
            ProviderConfig::Profiles(_, entries) => match table::under_name(
                table::entries(entries@),
                text::trimmed(provider->0),
            ) {
                Some(p) => known_kinds(entries@) ==> resolved_profile(provider, config) == Ok::<
                    Option<ResolvedView>,
                    Seq<char>,
                >(
                    Some(
                        ResolvedView {
                            name: text::trimmed(provider->0),
                            profile: p,
                            installed: None,
                        },
                    ),
                ),
                None => resolved_profile(provider, config) is Err,
            },
            _ => resolved_profile(provider, config) is Err,
        },
{
    reveal_strlit("openai");
}

/// A live session runs on the backend that is named where it has a live mode, and left open
/// on the machine's own recogniser where it can be used and on the service with chunks where
/// it cannot; a profile never has one.
pub proof fn law_live_backend_as_asked(c: VoChoice, w: Surroundings)
    ensures
        resolved_profile(c.common.provider, w.config) matches Ok(Some(_)) ==> live_backend(c, w)
            is Err,
        resolved_profile(c.common.provider, w.config) == Ok::<Option<ResolvedView>, Seq<char>>(None)
            ==> {
            &&& c.asr == VoBackend::OpenaiCompatible ==> live_backend(c, w) is Err
            &&& c.asr == VoBackend::Doubao ==> live_backend(c, w) == Ok::<VoBackend, Seq<char>>(
                VoBackend::Doubao,
            )
            &&& c.asr == VoBackend::Apple ==> (live_backend(c, w) is Ok <==> w.apple.supported)
            &&& c.asr == VoBackend::Auto ==> live_backend(c, w) == Ok::<VoBackend, Seq<char>>(
                if w.apple.supported {
                    VoBackend::Apple
                } else {
                    VoBackend::Doubao
                },
            )
        },
{
}

/// The adapter is the one named, by its own option before the older one, else the one that
/// stands beside the tool.
pub proof fn law_adapter_precedence(c: VoChoice, w: Surroundings)
    ensures
        c.common.native_adapter is Some ==> adapter_in_use(c, w) == c.common.native_adapter,
        c.common.native_adapter is None && c.apple_adapter is Some ==> adapter_in_use(c, w)
            == c.apple_adapter,
        c.common.native_adapter is None && c.apple_adapter is None && w.bundled_adapter is Some
            ==> adapter_in_use(c, w) == Some(w.bundled_adapter->0@),
        adapter_in_use(c, w) is None <==> c.common.native_adapter is None && c.apple_adapter is None
            && w.bundled_adapter is None,
{
}

/// The service is set up with the device and the token that are given, trimmed, and without
/// those that are blank.
pub proof fn law_service_is_set_up_as_given(
    c: VoChoice,
    device_id: Option<Seq<char>>,
    token: Option<Seq<char>>,
    w: Surroundings,
)
    ensures
        setup(VoBackend::Doubao, c, device_id, token, w) matches Ok(s) && (
        s matches VoSetupView::Doubao { device_id: d, token: t } && (device_id matches Some(x)
            && text::trimmed(x).len() > 0 ==> d == Some(text::trimmed(device_id->0))) && (
        token matches Some(x) && text::trimmed(x).len() > 0 ==> t == Some(text::trimmed(token->0)))
            && ((device_id is None || text::trimmed(device_id->0).len() == 0) ==> d is None) && ((
        token is None || text::trimmed(token->0).len() == 0) ==> t is None)),
        setup(VoBackend::Apple, c, device_id, token, w) matches Ok(s) ==> (
        s matches VoSetupView::Native { command } && adapter_in_use(c, w) == Some(command)
            && command.len() > 0),
{
}

/// The machine's own recogniser is at fault without support or without an adapter; no other
/// backend is.
pub proof fn law_only_the_recogniser_is_at_fault(backend: VoBackend, c: VoChoice, w: Surroundings)
    ensures
        capability_fault(backend, c, w) is Some <==> backend == VoBackend::Apple && (
        !w.apple.supported || adapter_in_use(c, w) is None),
{
}

} // verus!
