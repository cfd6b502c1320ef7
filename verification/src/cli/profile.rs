//! Provider profiles, and the manifests of provider packages.
use crate::asr::{AsrCapabilities, Duration, LiveCapabilities, LiveModeKind, ProviderCapabilities};
use crate::cli::args::AsrBackend;
use crate::path::FilePath;
#[allow(unused_imports)]
use crate::path::PathView;
use crate::text;
use vstd::prelude::*;
use vstd::string::*;

verus! {

#[derive(Debug, Clone, Copy, PartialEq, Eq, Structural)]
pub enum ProfileProviderKind {
    OpenaiCompatible,
    Apple,
    External,
}

impl ProfileProviderKind {
    pub open spec fn label(self) -> Seq<char> {
        match self {
            ProfileProviderKind::OpenaiCompatible => "openai-compatible"@,
            ProfileProviderKind::Apple => "apple"@,
            ProfileProviderKind::External => "external"@,
        }
    }

    pub open spec fn served_by(self) -> AsrBackend {
        match self {
            ProfileProviderKind::OpenaiCompatible => AsrBackend::OpenaiCompatible,
            ProfileProviderKind::Apple => AsrBackend::Apple,
            ProfileProviderKind::External => AsrBackend::External,
        }
    }

    pub fn backend(self) -> (r: AsrBackend)
        ensures
            r == self.served_by(),
    {
        match self {
            ProfileProviderKind::OpenaiCompatible => AsrBackend::OpenaiCompatible,
            ProfileProviderKind::Apple => AsrBackend::Apple,
            ProfileProviderKind::External => AsrBackend::External,
        }
    }

    pub fn as_str(self) -> (r: &'static str)
        ensures
            r@ == self.label(),
    {
        match self {
            ProfileProviderKind::OpenaiCompatible => "openai-compatible",
            ProfileProviderKind::Apple => "apple",
            ProfileProviderKind::External => "external",
        }
    }
}

#[derive(Debug, Clone, PartialEq, Eq)]
pub struct ProviderProfile {
    pub kind: ProfileProviderKind,
    pub api_base: Option<String>,
    pub default_model: Option<String>,
    pub api_key: Option<String>,
    pub api_key_env: Option<String>,
    pub batch_file: Option<bool>,
    pub streaming: Option<bool>,
    pub requires_network: Option<bool>,
    pub live_enabled: Option<bool>,
    pub notes: Vec<String>,
}

#[verifier::ext_equal]
pub struct ProfileView {
    pub kind: ProfileProviderKind,
    pub api_base: Option<Seq<char>>,
    pub default_model: Option<Seq<char>>,
    pub api_key: Option<Seq<char>>,
    pub api_key_env: Option<Seq<char>>,
    pub batch_file: Option<bool>,
    pub streaming: Option<bool>,
    pub requires_network: Option<bool>,
    pub live_enabled: Option<bool>,
    pub notes: Seq<Seq<char>>,
}

impl View for ProviderProfile {
    type V = ProfileView;

    open spec fn view(&self) -> ProfileView {
        ProfileView {
            kind: self.kind,
            api_base: text::text_of(self.api_base),
            default_model: text::text_of(self.default_model),
            api_key: text::text_of(self.api_key),
            api_key_env: text::text_of(self.api_key_env),
            batch_file: self.batch_file,
            streaming: self.streaming,
            requires_network: self.requires_network,
            live_enabled: self.live_enabled,
            notes: text::texts(self.notes@),
        }
    }
}

impl ProviderProfile {
    pub fn copied(&self) -> (r: ProviderProfile)
        ensures
            r@ == self@,
    {
        ProviderProfile {
            kind: self.kind,
            api_base: text::copy_opt(&self.api_base),
            default_model: text::copy_opt(&self.default_model),
            api_key: text::copy_opt(&self.api_key),
            api_key_env: text::copy_opt(&self.api_key_env),
            batch_file: self.batch_file,
            streaming: self.streaming,
            requires_network: self.requires_network,
            live_enabled: self.live_enabled,
            notes: text::copy_all(&self.notes),
        }
    }
}

/// The profiles that need no package and no configuration.
pub open spec fn builtin(name: Seq<char>) -> Option<ProfileView> {
    if name == "apple"@ {
        Some(
            ProfileView {
                kind: ProfileProviderKind::Apple,
                api_base: None,
                default_model: Some("apple"@),
                api_key: None,
                api_key_env: None,
                batch_file: None,
                streaming: None,
                requires_network: None,
                live_enabled: None,
                notes: seq!["Built-in Apple on-device profile."@],
            },
        )
    } else if name == "openai"@ {
        Some(
            ProfileView {
                kind: ProfileProviderKind::OpenaiCompatible,
                api_base: Some("https://api.openai.com"@),
                default_model: Some("whisper-1"@),
                api_key: None,
                api_key_env: Some("DICTA_ASR_API_KEY"@),
                batch_file: None,
                streaming: None,
                requires_network: None,
                live_enabled: Some(false),
                notes: seq!["Built-in OpenAI-compatible profile."@],
            },
        )
    } else {
        None
    }
}

pub fn default_openai_api_base() -> (r: &'static str)
    ensures
        r@ == "https://api.openai.com"@,
{
    "https://api.openai.com"
}

/// The view of a profile that may be missing.
pub open spec fn profile_of(o: Option<ProviderProfile>) -> Option<ProfileView> {
    match o {
        Some(p) => Some(p@),
        None => None,
    }
}

pub fn builtin_provider_profile(name: &str) -> (r: Option<ProviderProfile>)
    ensures
        profile_of(r) == builtin(name@),
{
    if text::same(name, "apple") {
        let mut notes: Vec<String> = Vec::new();
        notes.push(text::copy("Built-in Apple on-device profile."));
        assert(text::texts(notes@) =~= seq!["Built-in Apple on-device profile."@]);
        Some(
            ProviderProfile {
                kind: ProfileProviderKind::Apple,
                api_base: None,
                default_model: Some(text::copy("apple")),
                api_key: None,
                api_key_env: None,
                batch_file: None,
                streaming: None,
                requires_network: None,
                live_enabled: None,
                notes,
            },
        )
    } else if text::same(name, "openai") {
        let mut notes: Vec<String> = Vec::new();
        notes.push(text::copy("Built-in OpenAI-compatible profile."));
        assert(text::texts(notes@) =~= seq!["Built-in OpenAI-compatible profile."@]);
        Some(
            ProviderProfile {
                kind: ProfileProviderKind::OpenaiCompatible,
                api_base: Some(text::copy(default_openai_api_base())),
                default_model: Some(text::copy("whisper-1")),
                api_key: None,
                api_key_env: Some(text::copy("DICTA_ASR_API_KEY")),
                batch_file: None,
                streaming: None,
                requires_network: None,
                live_enabled: Some(false),
                notes,
            },
        )
    } else {
        None
    }
}

#[derive(Debug, Clone, Copy, PartialEq, Eq, Structural)]
pub enum ProviderInstallSourceKind {
    Npm,
    Directory,
    Tarball,
}

/// Where a package came from, noted when it was installed.
#[derive(Debug, Clone, PartialEq, Eq)]
pub struct ProviderInstallMetadata {
    pub source: ProviderInstallSourceKind,
    pub package: Option<String>,
    pub registry: Option<String>,
    pub version: Option<String>,
    pub installed_at_ms: u128,
}

#[verifier::ext_equal]
pub struct InstallMetadataView {
    pub source: ProviderInstallSourceKind,
    pub package: Option<Seq<char>>,
    pub registry: Option<Seq<char>>,
    pub version: Option<Seq<char>>,
    pub installed_at_ms: u128,
}

impl View for ProviderInstallMetadata {
    type V = InstallMetadataView;

    open spec fn view(&self) -> InstallMetadataView {
        InstallMetadataView {
            source: self.source,
            package: text::text_of(self.package),
            registry: text::text_of(self.registry),
            version: text::text_of(self.version),
            installed_at_ms: self.installed_at_ms,
        }
    }
}

impl ProviderInstallMetadata {
    pub fn copied(&self) -> (r: ProviderInstallMetadata)
        ensures
            r@ == self@,
    {
        ProviderInstallMetadata {
            source: self.source,
            package: text::copy_opt(&self.package),
            registry: text::copy_opt(&self.registry),
            version: text::copy_opt(&self.version),
            installed_at_ms: self.installed_at_ms,
        }
    }
}

#[derive(Debug, Clone, Copy, PartialEq, Eq, Structural)]
pub struct ProviderBatchManifest {
    pub file: bool,
    pub streaming: bool,
    pub requires_network: bool,
}

impl Default for ProviderBatchManifest {
    fn default() -> (r: Self)
        ensures
            r == (ProviderBatchManifest { file: true, streaming: false, requires_network: false }),
    {
        ProviderBatchManifest { file: true, streaming: false, requires_network: false }
    }
}

#[derive(Debug, Clone, Copy, PartialEq, Eq, Structural)]
pub enum ProviderLiveModeManifest {
    Streaming,
    Chunked,
}

#[derive(Debug, Clone, Copy, PartialEq, Eq, Structural)]
pub struct ProviderLiveManifest {
    pub mode: ProviderLiveModeManifest,
    pub mic: bool,
    pub speaker: bool,
    pub streaming_audio: bool,
    pub partial_results: bool,
    pub finalized_results: bool,
    pub translation: bool,
    pub voice_processing: bool,
    pub device_selection: bool,
    /// Whether it is told when to listen, by the push of a key.
    pub ptt: bool,
    pub requires_network: bool,
    pub expected_latency_ms: Option<u64>,
}

impl Default for ProviderLiveManifest {
    /// What a live section that names nothing stands for.
    fn default() -> (r: Self)
        ensures
            r == (ProviderLiveManifest {
                mode: ProviderLiveModeManifest::Streaming,
                mic: true,
                speaker: false,
                streaming_audio: false,
                partial_results: false,
                finalized_results: true,
                translation: false,
                voice_processing: false,
                device_selection: false,
                ptt: false,
                requires_network: false,
                expected_latency_ms: None,
            }),
    {
        ProviderLiveManifest {
            mode: ProviderLiveModeManifest::Streaming,
            mic: true,
            speaker: false,
            streaming_audio: false,
            partial_results: false,
            finalized_results: true,
            translation: false,
            voice_processing: false,
            device_selection: false,
            ptt: false,
            requires_network: false,
            expected_latency_ms: None,
        }
    }
}

impl ProviderLiveManifest {
    /// What the section offers.
    pub open spec fn offer(self) -> LiveCapabilities {
        LiveCapabilities {
            mode: match self.mode {
                ProviderLiveModeManifest::Streaming => LiveModeKind::Streaming,
                ProviderLiveModeManifest::Chunked => LiveModeKind::Chunked,
            },
            mic: self.mic,
            speaker: self.speaker,
            streaming_audio: self.streaming_audio,
            partial_results: self.partial_results,
            finalized_results: self.finalized_results,
            translation: self.translation,
            voice_processing: self.voice_processing,
            device_selection: self.device_selection,
            ptt: self.ptt,
            requires_network: self.requires_network,
            expected_latency: match self.expected_latency_ms {
                Some(ms) => Some(
                    Duration { secs: ms / 1000, nanos: ((ms % 1000) * 1_000_000) as u32 },
                ),
                None => None,
            },
        }
    }

    pub fn capabilities(&self) -> (r: LiveCapabilities)
        ensures
            r == self.offer(),
    {
        LiveCapabilities {
            mode: match self.mode {
                ProviderLiveModeManifest::Streaming => LiveModeKind::Streaming,
                ProviderLiveModeManifest::Chunked => LiveModeKind::Chunked,
            },
            mic: self.mic,
            speaker: self.speaker,
            streaming_audio: self.streaming_audio,
            partial_results: self.partial_results,
            finalized_results: self.finalized_results,
            translation: self.translation,
            voice_processing: self.voice_processing,
            device_selection: self.device_selection,
            ptt: self.ptt,
            requires_network: self.requires_network,
            expected_latency: match self.expected_latency_ms {
                Some(ms) => Some(Duration::from_millis(ms)),
                None => None,
            },
        }
    }
}

/// What a package says of itself in its `provider.toml`.
#[derive(Debug, Clone, PartialEq, Eq)]
pub struct ProviderPackageManifest {
    pub id: String,
    pub name: Option<String>,
    pub version: Option<String>,
    pub protocol: String,
    pub command: FilePath,
    pub model: Option<String>,
    pub batch: ProviderBatchManifest,
    pub live: Option<ProviderLiveManifest>,
    pub notes: Vec<String>,
}

#[verifier::ext_equal]
pub struct ManifestView {
    pub id: Seq<char>,
    pub name: Option<Seq<char>>,
    pub version: Option<Seq<char>>,
    pub protocol: Seq<char>,
    pub command: PathView,
    pub model: Option<Seq<char>>,
    pub batch: ProviderBatchManifest,
    pub live: Option<ProviderLiveManifest>,
    pub notes: Seq<Seq<char>>,
}

impl View for ProviderPackageManifest {
    type V = ManifestView;

    open spec fn view(&self) -> ManifestView {
        ManifestView {
            id: self.id@,
            name: text::text_of(self.name),
            version: text::text_of(self.version),
            protocol: self.protocol@,
            command: self.command@,
            model: text::text_of(self.model),
            batch: self.batch,
            live: self.live,
            notes: text::texts(self.notes@),
        }
    }
}

impl ManifestView {
    /// The model that the manifest names, else its identifier.
    pub open spec fn model_name(self) -> Seq<char> {
        match text::filled(self.model) {
            Some(m) => m,
            None => self.id,
        }
    }
}

impl ProviderPackageManifest {
    pub fn model(&self) -> (r: String)
        ensures
            r@ == self@.model_name(),
    {
        match text::non_empty(&self.model) {
            Some(m) => m,
            None => text::copy(self.id.as_str()),
        }
    }

    pub fn copied(&self) -> (r: ProviderPackageManifest)
        ensures
            r@ == self@,
    {
        ProviderPackageManifest {
            id: text::copy(self.id.as_str()),
            name: text::copy_opt(&self.name),
            version: text::copy_opt(&self.version),
            protocol: text::copy(self.protocol.as_str()),
            command: self.command.copied(),
            model: text::copy_opt(&self.model),
            batch: self.batch,
            live: self.live,
            notes: text::copy_all(&self.notes),
        }
    }
}

/// A package that is installed: its directory, its manifest, and how the paths of
/// the directory and of the command are written.
#[derive(Debug, Clone, PartialEq, Eq)]
pub struct InstalledProvider {
    pub root: FilePath,
    pub manifest: ProviderPackageManifest,
    pub install_metadata: Option<ProviderInstallMetadata>,
    pub shown_root: String,
    pub shown_command: String,
    /// Whether the command is there, as a file.
    pub command_is_file: bool,
}

#[verifier::ext_equal]
pub struct InstalledView {
    pub root: PathView,
    pub manifest: ManifestView,
    pub install_metadata: Option<InstallMetadataView>,
    pub shown_root: Seq<char>,
    pub shown_command: Seq<char>,
    pub command_is_file: bool,
}

impl View for InstalledProvider {
    type V = InstalledView;

    open spec fn view(&self) -> InstalledView {
        InstalledView {
            root: self.root@,
            manifest: self.manifest@,
            install_metadata: match self.install_metadata {
                Some(m) => Some(m@),
                None => None,
            },
            shown_root: self.shown_root@,
            shown_command: self.shown_command@,
            command_is_file: self.command_is_file,
        }
    }
}

pub open spec fn installed_of(o: Option<InstalledProvider>) -> Option<InstalledView> {
    match o {
        Some(p) => Some(p@),
        None => None,
    }
}

impl InstalledView {
    /// The profile that an installed package stands for.
    pub open spec fn profile(self) -> ProfileView {
        ProfileView {
            kind: ProfileProviderKind::External,
            api_base: None,
            default_model: Some(self.manifest.model_name()),
            api_key: None,
            api_key_env: None,
            batch_file: Some(self.manifest.batch.file),
            streaming: Some(self.manifest.batch.streaming),
            requires_network: Some(
                self.manifest.batch.requires_network || (self.manifest.live is Some
                    && self.manifest.live->0.requires_network),
            ),
            live_enabled: Some(self.manifest.live is Some),
            notes: Seq::<Seq<char>>::empty(),
        }
    }

    pub open spec fn batch(self) -> AsrCapabilities {
        AsrCapabilities {
            batch_file: self.manifest.batch.file,
            streaming: self.manifest.batch.streaming,
            requires_network: self.manifest.batch.requires_network,
        }
    }

    pub open spec fn live(self) -> Option<LiveCapabilities> {
        match self.manifest.live {
            Some(l) => Some(l.offer()),
            None => None,
        }
    }

    /// The package that it was installed from, by name.
    pub open spec fn source_package(self) -> Option<Seq<char>> {
        match self.install_metadata {
            Some(m) => m.package,
            None => None,
        }
    }
}

impl InstalledProvider {
    pub fn id(&self) -> (r: &str)
        ensures
            r@ == self@.manifest.id,
    {
        self.manifest.id.as_str()
    }

    pub fn profile(&self) -> (r: ProviderProfile)
        ensures
            r@ == self@.profile(),
    {
        let live_network = match &self.manifest.live {
            Some(live) => live.requires_network,
            None => false,
        };
        let notes: Vec<String> = Vec::new();
        assert(text::texts(notes@) =~= Seq::<Seq<char>>::empty());
        ProviderProfile {
            kind: ProfileProviderKind::External,
            api_base: None,
            default_model: Some(self.manifest.model()),
            api_key: None,
            api_key_env: None,
            batch_file: Some(self.manifest.batch.file),
            streaming: Some(self.manifest.batch.streaming),
            requires_network: Some(self.manifest.batch.requires_network || live_network),
            live_enabled: Some(self.manifest.live.is_some()),
            notes,
        }
    }

    pub fn capabilities(&self) -> (r: ProviderCapabilities)
        ensures
            r.batch == self@.batch(),
            r.live == self@.live(),
            text::texts(r.notes@) == self@.manifest.notes,
    {
        ProviderCapabilities {
            batch: AsrCapabilities {
                batch_file: self.manifest.batch.file,
                streaming: self.manifest.batch.streaming,
                requires_network: self.manifest.batch.requires_network,
            },
            live: match &self.manifest.live {
                Some(live) => Some(live.capabilities()),
                None => None,
            },
            notes: text::copy_all(&self.manifest.notes),
        }
    }

    pub fn source_package(&self) -> (r: Option<String>)
        ensures
            text::text_of(r) == self@.source_package(),
    {
        match &self.install_metadata {
            Some(m) => text::copy_opt(&m.package),
            None => None,
        }
    }

    pub fn copied(&self) -> (r: InstalledProvider)
        ensures
            r@ == self@,
    {
        InstalledProvider {
            root: self.root.copied(),
            manifest: self.manifest.copied(),
            install_metadata: match &self.install_metadata {
                Some(m) => Some(m.copied()),
                None => None,
            },
            shown_root: text::copy(self.shown_root.as_str()),
            shown_command: text::copy(self.shown_command.as_str()),
            command_is_file: self.command_is_file,
        }
    }
}

/// A profile under the name by which it was found.
#[derive(Debug, Clone, PartialEq, Eq)]
pub struct ResolvedProviderProfile {
    pub name: String,
    pub profile: ProviderProfile,
    pub installed: Option<InstalledProvider>,
}

#[verifier::ext_equal]
pub struct ResolvedView {
    pub name: Seq<char>,
    pub profile: ProfileView,
    pub installed: Option<InstalledView>,
}

impl View for ResolvedProviderProfile {
    type V = ResolvedView;

    open spec fn view(&self) -> ResolvedView {
        ResolvedView {
            name: self.name@,
            profile: self.profile@,
            installed: installed_of(self.installed),
        }
    }
}

pub open spec fn resolved_of(o: Option<ResolvedProviderProfile>) -> Option<ResolvedView> {
    match o {
        Some(p) => Some(p@),
        None => None,
    }
}

} // verus!
