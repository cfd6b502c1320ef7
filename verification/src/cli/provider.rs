//! Which provider the options mean, and what it can do.
use crate::adapter;
use crate::asr::{AsrCapabilities, LiveCapabilities, LiveModeKind, ProviderCapabilities};
#[allow(unused_imports)]
use crate::cli::args::Choice;
use crate::cli::args::{AsrBackend, Cli};
use crate::cli::profile;
use crate::cli::profile::{
    InstalledProvider, ProfileProviderKind, ProviderProfile, ResolvedProviderProfile,
};
#[allow(unused_imports)]
use crate::cli::profile::{InstalledView, ProfileView, ResolvedView};
use crate::openai;
use crate::table;
use crate::text;
use vstd::prelude::*;
use vstd::string::*;

verus! {

/// Whether the machine's own recogniser can be used.
#[derive(Debug, Clone, PartialEq, Eq)]
pub struct AppleSupport {
    pub version: Option<String>,
    pub supported: bool,
    pub reason: String,
}

/// What a macOS version, where there is one, says of the recogniser.
pub open spec fn supported_version(version: Option<Seq<char>>) -> Option<bool> {
    match version {
        None => None,
        Some(v) => match text::number_in(text::pieces(v, '.')[0], u32::MAX as nat) {
            Some(major) => Some(major >= 26),
            None => None,
        },
    }
}

pub open spec fn support_reason(macos: bool, version: Option<Seq<char>>) -> Seq<char> {
    if !macos {
        "Apple on-device ASR requires macOS 26+"@
    } else {
        match supported_version(version) {
            Some(true) => "macOS 26+ detected; Apple Speech adapter can provide on-device mode"@,
            Some(false) => "macOS "@ + version->0
                + " is below 26; use an HTTP provider or install a live provider"@,
            None => "could not determine macOS major version"@,
        }
    }
}

/// Judges the recogniser by the system (`macos`) and its version.
pub fn apple_support(macos: bool, version: Option<String>) -> (r: AppleSupport)
    ensures
        r.supported == (macos && supported_version(text::text_of(version)) == Some(true)),
        r.reason@ == support_reason(macos, text::text_of(version)),
        text::text_of(r.version) == if macos {
            text::text_of(version)
        } else {
            None
        },
{
    if !macos {
        return AppleSupport {
            version: None,
            supported: false,
            reason: text::copy("Apple on-device ASR requires macOS 26+"),
        };
    }
    let mut major: Option<u64> = None;
    if let Some(v) = &version {
        let parts = text::split(v.as_str(), '.');
        assert(text::texts(parts@)[0] == parts@[0]@);
        major = text::parse_number(parts[0].as_str(), u32::MAX as u64);
    }
    match (version, major) {
        (Some(version), Some(major)) => {
            if major >= 26 {
                AppleSupport {
                    version: Some(version),
                    supported: true,
                    reason: text::copy(
                        "macOS 26+ detected; Apple Speech adapter can provide on-device mode",
                    ),
                }
            } else {
                let reason = text::cat3(
                    "macOS ",
                    version.as_str(),
                    " is below 26; use an HTTP provider or install a live provider",
                );
                AppleSupport { version: Some(version), supported: false, reason }
            }
        },
        (version, _) => AppleSupport {
            version,
            supported: false,
            reason: text::copy("could not determine macOS major version"),
        },
    }
}

/// The file of provider profiles: whether it is there, and what came of reading it.
/// Its path is given as it is written.
#[derive(Debug, Clone, PartialEq, Eq)]
pub enum ProviderConfig {
    Missing,
    Unreadable(String),
    Unparsed(String),
    Profiles(String, Vec<(String, ProviderProfile)>),
}

impl ProviderConfig {
    pub open spec fn place(self) -> Option<Seq<char>> {
        match self {
            ProviderConfig::Missing => None,
            ProviderConfig::Unreadable(p) => Some(p@),
            ProviderConfig::Unparsed(p) => Some(p@),
            ProviderConfig::Profiles(p, _) => Some(p@),
        }
    }

    /// The path of the file, if it is there.
    pub fn path(&self) -> (r: Option<String>)
        ensures
            text::text_of(r) == self.place(),
    {
        match self {
            ProviderConfig::Missing => None,
            ProviderConfig::Unreadable(p) => Some(text::copy(p.as_str())),
            ProviderConfig::Unparsed(p) => Some(text::copy(p.as_str())),
            ProviderConfig::Profiles(p, _) => Some(text::copy(p.as_str())),
        }
    }
}

/// What the tool finds around it when it starts.
#[derive(Debug, PartialEq, Eq)]
pub struct Surroundings {
    pub apple: AppleSupport,
    /// The active provider's name, or why it could not be read.
    pub active: Result<Option<String>, String>,
    /// The installed packages, each identifier once, or why they could not be read.
    pub installed: Result<Vec<InstalledProvider>, String>,
    pub config: ProviderConfig,
    /// The variables of the environment.
    pub environment: Vec<(String, String)>,
    /// Whether the names of variables are the same in either case, as on Windows.
    pub either_case: bool,
    /// The adapter that stands beside the tool, if there is one.
    pub bundled_adapter: Option<String>,
    /// Where the active provider's name is kept.
    pub state_path: Option<String>,
}

pub open spec fn installed_views(v: Seq<InstalledProvider>) -> Seq<InstalledView> {
    v.map_values(|p: InstalledProvider| p@)
}

/// The package with the identifier `name`.
pub open spec fn package_named(packages: Seq<InstalledView>, name: Seq<char>) -> Option<
    InstalledView,
>
    decreases packages.len(),
{
    if packages.len() == 0 {
        None
    } else if packages[0].manifest.id == name {
        Some(packages[0])
    } else {
        package_named(packages.subrange(1, packages.len() as int), name)
    }
}

/// The package with the identifier `name`.
pub fn find_package(packages: &Vec<InstalledProvider>, name: &str) -> (r: Option<InstalledProvider>)
    ensures
        profile::installed_of(r) == package_named(installed_views(packages@), name@),
{
    let ghost all = installed_views(packages@);
    let n: usize = packages.len();
    let mut i: usize = 0;
    assert(all.subrange(0, n as int) =~= all);
    while i < n
        invariant
            n == packages.len(),
            all == installed_views(packages@),
            i <= n,
            package_named(all, name@) == package_named(all.subrange(i as int, n as int), name@),
        decreases n - i,
    {
        let ghost rest = all.subrange(i as int, n as int);
        assert(rest[0] == packages@[i as int]@);
        if text::same(packages[i].manifest.id.as_str(), name) {
            return Some(packages[i].copied());
        }
        assert(rest.subrange(1, rest.len() as int) =~= all.subrange(i + 1, n as int));
        i = i + 1;
    }
    None
}

pub open spec fn default_live(supported: bool) -> Option<Seq<char>> {
    if supported {
        Some("apple"@)
    } else {
        None
    }
}

pub fn default_live_provider_name(support: &AppleSupport) -> (r: Option<String>)
    ensures
        text::text_of(r) == default_live(support.supported),
{
    if support.supported {
        Some(text::copy("apple"))
    } else {
        None
    }
}

/// The view of a name that may be missing or could not be had.
pub open spec fn name_result(r: Result<Option<String>, String>) -> Result<
    Option<Seq<char>>,
    Seq<char>,
> {
    match r {
        Ok(n) => Ok(text::text_of(n)),
        Err(e) => Err(e@),
    }
}

/// The active provider, else the one that a live session takes by itself.
pub open spec fn active_or_default(w: Surroundings) -> Result<Option<Seq<char>>, Seq<char>> {
    match name_result(w.active) {
        Err(e) => Err(e),
        Ok(Some(name)) => Ok(Some(name)),
        Ok(None) => Ok(default_live(w.apple.supported)),
    }
}

pub fn active_or_default_provider_name(w: &Surroundings) -> (r: Result<Option<String>, String>)
    ensures
        name_result(r) == active_or_default(*w),
{
    match &w.active {
        Err(e) => Err(text::copy(e.as_str())),
        Ok(Some(name)) => Ok(Some(text::copy(name.as_str()))),
        Ok(None) => Ok(default_live_provider_name(&w.apple)),
    }
}

/// The provider that the options name, `active` standing for the active one.
pub open spec fn requested_name(cli: Choice, w: Surroundings) -> Result<
    Option<Seq<char>>,
    Seq<char>,
> {
    match text::filled(cli.provider) {
        None => Ok(None),
        Some(name) => if name == "active"@ {
            match active_or_default(w) {
                Err(e) => Err(e),
                Ok(Some(active)) => Ok(Some(active)),
                Ok(None) => Err(
                    "no active provider is set; run `dicta provider set <name>` or pass a concrete --provider"@,
                ),
            }
        } else {
            Ok(Some(name))
        },
    }
}

pub fn resolve_requested_provider_name(cli: &Cli, w: &Surroundings) -> (r: Result<
    Option<String>,
    String,
>)
    ensures
        name_result(r) == requested_name(cli.choice(), *w),
{
    match text::non_empty(&cli.provider) {
        None => Ok(None),
        Some(name) => {
            if text::same(name.as_str(), "active") {
                match active_or_default_provider_name(w) {
                    Err(e) => Err(e),
                    Ok(Some(active)) => Ok(Some(active)),
                    Ok(None) => Err(
                        text::copy(
                            "no active provider is set; run `dicta provider set <name>` or pass a concrete --provider",
                        ),
                    ),
                }
            } else {
                Ok(Some(name))
            }
        },
    }
}

/// The profile in a configuration under `name`, or why there is none.
pub open spec fn config_entry(config: ProviderConfig, name: Seq<char>) -> Result<
    ProfileView,
    Seq<char>,
> {
    match config {
        ProviderConfig::Missing => Err(
            "provider profile '"@ + name
                + "' was not found in built-ins and no provider config file was found"@,
        ),
        ProviderConfig::Unreadable(path) => Err("failed to read provider config from "@ + path@),
        ProviderConfig::Unparsed(path) => Err("failed to parse provider config from "@ + path@),
        ProviderConfig::Profiles(path, entries) => match table::under_name(
            table::entries(entries@),
            name,
        ) {
            Some(p) => Ok(p),
            None => Err("provider profile '"@ + name + "' was not found in "@ + path@),
        },
    }
}

pub fn read_entry(config: &ProviderConfig, name: &str) -> (r: Result<ProviderProfile, String>)
    ensures
        match (r, config_entry(*config, name@)) {
            (Ok(p), Ok(v)) => p@ == v,
            (Err(e), Err(v)) => e@ == v,
            _ => false,
        },
{
    match config {
        ProviderConfig::Missing => Err(
            text::cat3(
                "provider profile '",
                name,
                "' was not found in built-ins and no provider config file was found",
            ),
        ),
        ProviderConfig::Unreadable(path) => Err(
            text::cat("failed to read provider config from ", path.as_str()),
        ),
        ProviderConfig::Unparsed(path) => Err(
            text::cat("failed to parse provider config from ", path.as_str()),
        ),
        ProviderConfig::Profiles(path, entries) => {
            match table::find(entries, name) {
                Some(found) => Ok(found.copied()),
                None => Err(
                    text::cat4("provider profile '", name, "' was not found in ", path.as_str()),
                ),
            }
        },
    }
}

/// The profile under `name`: one that is built in, else one of an installed package, else
/// one of the configuration.
pub open spec fn resolved_name(w: Surroundings, name: Seq<char>) -> Result<
    ResolvedView,
    Seq<char>,
> {
    match profile::builtin(name) {
        Some(p) => Ok(ResolvedView { name, profile: p, installed: None }),
        None => match w.installed {
            Err(e) => Err(e@),
            Ok(packages) => match package_named(installed_views(packages@), name) {
                Some(package) => Ok(
                    ResolvedView { name, profile: package.profile(), installed: Some(package) },
                ),
                None => match config_entry(w.config, name) {
                    Ok(p) => Ok(ResolvedView { name, profile: p, installed: None }),
                    Err(e) => Err(e),
                },
            },
        },
    }
}

pub open spec fn resolved_profile(cli: Choice, w: Surroundings) -> Result<
    Option<ResolvedView>,
    Seq<char>,
> {
    match requested_name(cli, w) {
        Err(e) => Err(e),
        Ok(None) => Ok(None),
        Ok(Some(name)) => match resolved_name(w, name) {
            Ok(p) => Ok(Some(p)),
            Err(e) => Err(e),
        },
    }
}

pub open spec fn resolved_result(r: Result<Option<ResolvedProviderProfile>, String>) -> Result<
    Option<ResolvedView>,
    Seq<char>,
> {
    match r {
        Ok(p) => Ok(profile::resolved_of(p)),
        Err(e) => Err(e@),
    }
}

pub fn resolve_provider_profile_for(cli: &Cli, w: &Surroundings) -> (r: Result<
    Option<ResolvedProviderProfile>,
    String,
>)
    ensures
        resolved_result(r) == resolved_profile(cli.choice(), *w),
{
    let name = match resolve_requested_provider_name(cli, w) {
        Err(e) => {
            return Err(e);
        },
        Ok(None) => {
            return Ok(None);
        },
        Ok(Some(name)) => name,
    };
    if let Some(profile) = profile::builtin_provider_profile(name.as_str()) {
        return Ok(Some(ResolvedProviderProfile { name, profile, installed: None }));
    }
    match &w.installed {
        Err(e) => {
            return Err(text::copy(e.as_str()));
        },
        Ok(packages) => {
            if let Some(installed) = find_package(packages, name.as_str()) {
                let profile = installed.profile();
                return Ok(
                    Some(ResolvedProviderProfile { name, profile, installed: Some(installed) }),
                );
            }
        },
    }
    match read_entry(&w.config, name.as_str()) {
        Ok(profile) => Ok(Some(ResolvedProviderProfile { name, profile, installed: None })),
        Err(e) => Err(e),
    }
}

/// The backend that the options choose where they name no provider.
pub open spec fn plain_backend(cli: Choice, w: Surroundings) -> Result<AsrBackend, Seq<char>> {
    match cli.asr {
        AsrBackend::Apple => if w.apple.supported {
            Ok(AsrBackend::Apple)
        } else {
            Err("apple ASR is unavailable: "@ + w.apple.reason@)
        },
        _ => Ok(AsrBackend::OpenaiCompatible),
    }
}

pub open spec fn resolved_backend(cli: Choice, w: Surroundings) -> Result<AsrBackend, Seq<char>> {
    match resolved_profile(cli, w) {
        Err(e) => Err(e),
        Ok(Some(p)) => Ok(p.profile.kind.served_by()),
        Ok(None) => plain_backend(cli, w),
    }
}

pub open spec fn backend_result(r: Result<AsrBackend, String>) -> Result<AsrBackend, Seq<char>> {
    match r {
        Ok(b) => Ok(b),
        Err(e) => Err(e@),
    }
}

fn choose_backend(cli: &Cli, w: &Surroundings) -> (r: Result<AsrBackend, String>)
    requires
        cli.asr != AsrBackend::External,
    ensures
        backend_result(r) == plain_backend(cli.choice(), *w),
{
    match cli.asr {
        AsrBackend::Apple => {
            if w.apple.supported {
                Ok(AsrBackend::Apple)
            } else {
                Err(text::cat("apple ASR is unavailable: ", w.apple.reason.as_str()))
            }
        },
        _ => Ok(AsrBackend::OpenaiCompatible),
    }
}

pub fn resolve_backend_for(cli: &Cli, w: &Surroundings) -> (r: Result<AsrBackend, String>)
    requires
        cli.asr != AsrBackend::External,
    ensures
        backend_result(r) == resolved_backend(cli.choice(), *w),
{
    match resolve_provider_profile_for(cli, w) {
        Err(e) => Err(e),
        Ok(Some(resolved)) => Ok(resolved.profile.kind.backend()),
        Ok(None) => choose_backend(cli, w),
    }
}

/// The adapter that the options name, else the one beside the tool.
pub open spec fn adapter_in_use(cli: Choice, w: Surroundings) -> Option<Seq<char>> {
    first_of(cli.native_adapter, text::text_of(w.bundled_adapter))
}

pub fn resolve_native_adapter(cli: &Cli, w: &Surroundings) -> (r: Option<String>)
    ensures
        text::text_of(r) == adapter_in_use(cli.choice(), *w),
{
    match &cli.native_adapter {
        Some(a) => Some(text::copy(a.as_str())),
        None => text::copy_opt(&w.bundled_adapter),
    }
}

/// The adapters that may stand beside the tool, in the order they are looked for.
pub fn bundled_native_adapter_names(windows: bool) -> (r: Vec<String>)
    ensures
        text::texts(r@) == if windows {
            seq!["dicta-adapter-apple-speech.exe"@, "dicta-adapter-windows-speech.exe"@]
        } else {
            seq!["dicta-adapter-apple-speech"@]
        },
{
    let mut names: Vec<String> = Vec::new();
    if windows {
        names.push(text::copy("dicta-adapter-apple-speech.exe"));
        names.push(text::copy("dicta-adapter-windows-speech.exe"));
        assert(text::texts(names@) =~= seq![
            "dicta-adapter-apple-speech.exe"@,
            "dicta-adapter-windows-speech.exe"@,
        ]);
    } else {
        names.push(text::copy("dicta-adapter-apple-speech"));
        assert(text::texts(names@) =~= seq!["dicta-adapter-apple-speech"@]);
    }
    names
}

/// What is wrong with the way `backend` is set up, for the profile in use.
pub open spec fn backend_fault(
    backend: AsrBackend,
    cli: Choice,
    w: Surroundings,
    resolved: Option<ResolvedView>,
) -> Option<Seq<char>> {
    match backend {
        AsrBackend::Apple => if adapter_in_use(cli, w) is None {
            Some(
                "--asr apple requires --native-adapter, DICTA_NATIVE_ADAPTER, or a bundled native adapter binary next to dicta"@,
            )
        } else {
            None
        },
        AsrBackend::External => match resolved {
            Some(p) => match p.installed {
                Some(package) => if package.command_is_file {
                    None
                } else {
                    Some(
                        "installed provider '"@ + package.manifest.id
                            + "' command does not exist: "@ + package.shown_command,
                    )
                },
                None => None,
            },
            None => None,
        },
        _ => None,
    }
}

/// The profile that the options resolve to, if they resolve to one.
pub open spec fn profile_in_use(cli: Choice, w: Surroundings) -> Option<ResolvedView> {
    match resolved_profile(cli, w) {
        Ok(p) => p,
        Err(_) => None,
    }
}

pub fn validate_backend_config(backend: AsrBackend, cli: &Cli, w: &Surroundings) -> (r: Option<
    String,
>)
    ensures
        text::text_of(r) == backend_fault(backend, cli.choice(), *w, profile_in_use(cli.choice(), *w)),
{
    match backend {
        AsrBackend::Apple => {
            if resolve_native_adapter(cli, w).is_none() {
                Some(
                    text::copy(
                        "--asr apple requires --native-adapter, DICTA_NATIVE_ADAPTER, or a bundled native adapter binary next to dicta",
                    ),
                )
            } else {
                None
            }
        },
        AsrBackend::External => {
            if let Ok(Some(resolved)) = resolve_provider_profile_for(cli, w) {
                if let Some(package) = &resolved.installed {
                    if !package.command_is_file {
                        return Some(
                            text::cat4(
                                "installed provider '",
                                package.id(),
                                "' command does not exist: ",
                                package.shown_command.as_str(),
                            ),
                        );
                    }
                }
            }
            None
        },
        _ => None,
    }
}

pub open spec fn capability_fault(backend: AsrBackend, cli: Choice, w: Surroundings) -> Option<
    Seq<char>,
> {
    if backend == AsrBackend::Apple && !w.apple.supported {
        Some("apple ASR is unavailable: "@ + w.apple.reason@)
    } else {
        backend_fault(backend, cli, w, profile_in_use(cli, w))
    }
}

pub fn validate_capability_config(backend: AsrBackend, cli: &Cli, w: &Surroundings) -> (r: Option<
    String,
>)
    ensures
        text::text_of(r) == capability_fault(backend, cli.choice(), *w),
{
    if backend == AsrBackend::Apple && !w.apple.supported {
        return Some(text::cat("apple ASR is unavailable: ", w.apple.reason.as_str()));
    }
    validate_backend_config(backend, cli, w)
}

/// What a provider can do, with notes for its users.
#[verifier::ext_equal]
pub struct AbilityView {
    pub batch: AsrCapabilities,
    pub live: Option<LiveCapabilities>,
    pub notes: Seq<Seq<char>>,
}

pub open spec fn ability(c: ProviderCapabilities) -> AbilityView {
    AbilityView { batch: c.batch, live: c.live, notes: text::texts(c.notes@) }
}

/// What a backend can do by itself.
pub open spec fn backend_ability(backend: AsrBackend) -> AbilityView {
    match backend {
        AsrBackend::Apple => AbilityView {
            batch: AsrCapabilities { batch_file: true, streaming: false, requires_network: false },
            live: Some(adapter::live_offer()),
            notes: Seq::<Seq<char>>::empty(),
        },
        AsrBackend::External => AbilityView {
            batch: AsrCapabilities { batch_file: false, streaming: false, requires_network: false },
            live: None,
            notes: seq!["External provider capabilities are loaded from provider.toml."@],
        },
        _ => AbilityView {
            batch: AsrCapabilities { batch_file: true, streaming: false, requires_network: true },
            live: None,
            notes: Seq::<Seq<char>>::empty(),
        },
    }
}

pub fn provider_capabilities_for_backend(backend: AsrBackend) -> (r: ProviderCapabilities)
    requires
        backend != AsrBackend::Auto,
    ensures
        ability(r) == backend_ability(backend),
{
    let mut notes: Vec<String> = Vec::new();
    assert(text::texts(notes@) =~= Seq::<Seq<char>>::empty());
    match backend {
        AsrBackend::Apple => ProviderCapabilities {
            batch: adapter::adapter_capabilities(),
            live: Some(adapter::native_adapter_live_capabilities()),
            notes,
        },
        AsrBackend::External => {
            notes.push(text::copy("External provider capabilities are loaded from provider.toml."));
            assert(text::texts(notes@) =~= seq![
                "External provider capabilities are loaded from provider.toml."@,
            ]);
            ProviderCapabilities {
                batch: AsrCapabilities {
                    batch_file: false,
                    streaming: false,
                    requires_network: false,
                },
                live: None,
                notes,
            }
        },
        _ => ProviderCapabilities { batch: openai::openai_capabilities(), live: None, notes },
    }
}

/// What is left of an ability under a profile: a profile can take away, and it can say
/// that the network is needed, but it adds nothing that is not there.
pub open spec fn narrowed(a: AbilityView, p: ProfileView) -> AbilityView {
    AbilityView {
        batch: AsrCapabilities {
            batch_file: a.batch.batch_file && p.batch_file != Some(false),
            streaming: a.batch.streaming && p.streaming != Some(false),
            requires_network: a.batch.requires_network || p.requires_network == Some(true),
        },
        live: if p.live_enabled == Some(false) {
            None
        } else {
            a.live
        },
        notes: a.notes + p.notes,
    }
}

/// A profile that asks for a live mode that is not there.
pub open spec fn profile_fault(a: AbilityView, r: ResolvedView) -> Option<Seq<char>> {
    if r.profile.live_enabled == Some(true) && a.live is None {
        Some(
            "provider profile '"@ + r.name + "' enables live mode, but "@ + r.profile.kind.label()
                + " does not support live mode"@,
        )
    } else {
        None
    }
}

fn push_notes(notes: &mut Vec<String>, more: &Vec<String>)
    ensures
        text::texts(final(notes)@) == text::texts(old(notes)@) + text::texts(more@),
{
    let ghost start = text::texts(notes@);
    let ghost all = text::texts(more@);
    let n: usize = more.len();
    let mut i: usize = 0;
    assert(start + all.take(0) =~= start);
    while i < n
        invariant
            n == more.len(),
            all == text::texts(more@),
            start == text::texts(old(notes)@),
            i <= n,
            text::texts(notes@) == start + all.take(i as int),
        decreases n - i,
    {
        let ghost before = text::texts(notes@);
        notes.push(text::copy(more[i].as_str()));
        assert(text::texts(notes@) =~= before.push(all[i as int]));
        assert(start + all.take(i + 1) =~= (start + all.take(i as int)).push(all[i as int]));
        i = i + 1;
    }
    assert(all.take(n as int) =~= all);
}

pub fn effective_capabilities_for_profile(
    capabilities: ProviderCapabilities,
    resolved: &ResolvedProviderProfile,
) -> (r: (ProviderCapabilities, Option<String>))
    ensures
        ability(r.0) == narrowed(ability(capabilities), resolved@.profile),
        text::text_of(r.1) == profile_fault(ability(capabilities), resolved@),
{
    let profile = &resolved.profile;
    let mut batch = capabilities.batch;
    if let Some(value) = profile.batch_file {
        batch.batch_file = batch.batch_file && value;
    }
    if let Some(value) = profile.streaming {
        batch.streaming = batch.streaming && value;
    }
    if let Some(value) = profile.requires_network {
        batch.requires_network = batch.requires_network || value;
    }
    let mut live = capabilities.live;
    let mut error: Option<String> = None;
    if let Some(enabled) = profile.live_enabled {
        if enabled && live.is_none() {
            error = Some(
                text::cat5(
                    "provider profile '",
                    resolved.name.as_str(),
                    "' enables live mode, but ",
                    profile.kind.as_str(),
                    " does not support live mode",
                ),
            );
        }
        if !enabled {
            live = None;
        }
    }
    let mut notes = capabilities.notes;
    push_notes(&mut notes, &profile.notes);
    (ProviderCapabilities { batch, live, notes }, error)
}

/// A provider under a profile can do no more than the provider itself.
pub proof fn law_profile_only_narrows(a: AbilityView, p: ProfileView)
    ensures
        narrowed(a, p).batch.batch_file ==> a.batch.batch_file,
        narrowed(a, p).batch.streaming ==> a.batch.streaming,
        a.batch.requires_network ==> narrowed(a, p).batch.requires_network,
        narrowed(a, p).live is Some ==> narrowed(a, p).live == a.live,
{
}

/// The provider that the options mean, as it can be used.
#[derive(Debug, Clone, PartialEq, Eq)]
pub struct EffectiveProvider {
    pub backend: AsrBackend,
    pub profile: Option<ResolvedProviderProfile>,
    pub capabilities: ProviderCapabilities,
    pub config_error: Option<String>,
}

#[verifier::ext_equal]
pub struct EffectiveView {
    pub backend: AsrBackend,
    pub profile: Option<ResolvedView>,
    pub ability: AbilityView,
    pub config_error: Option<Seq<char>>,
}

impl View for EffectiveProvider {
    type V = EffectiveView;

    open spec fn view(&self) -> EffectiveView {
        EffectiveView {
            backend: self.backend,
            profile: profile::resolved_of(self.profile),
            ability: ability(self.capabilities),
            config_error: text::text_of(self.config_error),
        }
    }
}

impl EffectiveView {
    pub open spec fn profile_name(self) -> Option<Seq<char>> {
        match self.profile {
            Some(p) => Some(p.name),
            None => None,
        }
    }

    pub open spec fn profile_kind(self) -> Option<Seq<char>> {
        match self.profile {
            Some(p) => Some(p.profile.kind.label()),
            None => None,
        }
    }

    pub open spec fn package(self) -> Option<InstalledView> {
        match self.profile {
            Some(p) => p.installed,
            None => None,
        }
    }
}

impl EffectiveProvider {
    pub fn profile_name(&self) -> (r: Option<String>)
        ensures
            text::text_of(r) == self@.profile_name(),
    {
        match &self.profile {
            Some(p) => Some(text::copy(p.name.as_str())),
            None => None,
        }
    }

    pub fn profile_kind(&self) -> (r: Option<String>)
        ensures
            text::text_of(r) == self@.profile_kind(),
    {
        match &self.profile {
            Some(p) => Some(text::copy(p.profile.kind.as_str())),
            None => None,
        }
    }

    pub fn installed_provider(&self) -> (r: Option<InstalledProvider>)
        ensures
            profile::installed_of(r) == self@.package(),
    {
        match &self.profile {
            Some(p) => match &p.installed {
                Some(package) => Some(package.copied()),
                None => None,
            },
            None => None,
        }
    }
}

/// The backend of a provider that is only described (`described`) or is to be used.
pub open spec fn effective_backend(
    cli: Choice,
    w: Surroundings,
    resolved: Option<ResolvedView>,
    described: bool,
) -> Result<AsrBackend, Seq<char>> {
    match resolved {
        Some(p) => Ok(p.profile.kind.served_by()),
        None => if described && cli.asr != AsrBackend::Auto {
            Ok(cli.asr)
        } else {
            plain_backend(cli, w)
        },
    }
}

pub open spec fn own_ability(backend: AsrBackend, resolved: Option<ResolvedView>) -> AbilityView {
    match resolved {
        Some(ResolvedView { installed: Some(package), .. }) => AbilityView {
            batch: package.batch(),
            live: package.live(),
            notes: package.manifest.notes,
        },
        _ => backend_ability(backend),
    }
}

pub open spec fn effective(cli: Choice, w: Surroundings, described: bool) -> Result<
    EffectiveView,
    Seq<char>,
> {
    match resolved_profile(cli, w) {
        Err(e) => Err(e),
        Ok(resolved) => match effective_backend(cli, w, resolved, described) {
            Err(e) => Err(e),
            Ok(backend) => {
                let own = own_ability(backend, resolved);
                Ok(
                    EffectiveView {
                        backend,
                        profile: resolved,
                        ability: match resolved {
                            Some(p) => narrowed(own, p.profile),
                            None => own,
                        },
                        config_error: match resolved {
                            Some(p) => match profile_fault(own, p) {
                                Some(fault) => Some(fault),
                                None => capability_fault(backend, cli, w),
                            },
                            None => capability_fault(backend, cli, w),
                        },
                    },
                )
            },
        },
    }
}

pub open spec fn effective_result(r: Result<EffectiveProvider, String>) -> Result<
    EffectiveView,
    Seq<char>,
> {
    match r {
        Ok(p) => Ok(p@),
        Err(e) => Err(e@),
    }
}

/// The provider that the options mean. One that is only described (`capability_mode`)
/// may be one that this machine does not support.
pub fn effective_provider_for(cli: &Cli, w: &Surroundings, capability_mode: bool) -> (r: Result<
    EffectiveProvider,
    String,
>)
    requires
        cli.asr != AsrBackend::External,
    ensures
        effective_result(r) == effective(cli.choice(), *w, capability_mode),
{
    let resolved = match resolve_provider_profile_for(cli, w) {
        Err(e) => {
            return Err(e);
        },
        Ok(p) => p,
    };
    let backend = match &resolved {
        Some(p) => p.profile.kind.backend(),
        None => {
            if capability_mode && cli.asr != AsrBackend::Auto {
                cli.asr
            } else {
                match choose_backend(cli, w) {
                    Ok(b) => b,
                    Err(e) => {
                        return Err(e);
                    },
                }
            }
        },
    };
    match resolved {
        None => {
            let capabilities = provider_capabilities_for_backend(backend);
            let config_error = validate_capability_config(backend, cli, w);
            Ok(EffectiveProvider { backend, profile: None, capabilities, config_error })
        },
        Some(p) => {
            let own = match &p.installed {
                Some(package) => package.capabilities(),
                None => provider_capabilities_for_backend(backend),
            };
            let (capabilities, profile_error) = effective_capabilities_for_profile(own, &p);
            let config_error = match profile_error {
                Some(e) => Some(e),
                None => validate_capability_config(backend, cli, w),
            };
            Ok(EffectiveProvider { backend, profile: Some(p), capabilities, config_error })
        },
    }
}

/// Whether a provider offers a live mode.
pub open spec fn offers_live(p: ResolvedView) -> bool {
    narrowed(own_ability(p.profile.kind.served_by(), Some(p)), p.profile).live is Some
}

/// The active provider, where it is one that offers a live mode.
pub open spec fn active_live(w: Surroundings) -> Option<ResolvedView> {
    match active_or_default(w) {
        Ok(Some(name)) => match resolved_name(w, name) {
            Ok(p) => if offers_live(p) {
                Some(p)
            } else {
                None
            },
            Err(_) => None,
        },
        _ => None,
    }
}

/// The options of a live session: where they leave the choice open and the machine's own
/// recogniser cannot be used, they mean the active live provider, if there is one.
pub open spec fn live_choice(cli: Choice, w: Surroundings) -> Choice {
    if text::filled(cli.provider) is None && cli.asr == AsrBackend::Auto && !w.apple.supported
        && active_live(w) is Some {
        cli.of_provider("active"@)
    } else {
        cli
    }
}

proof fn lemma_active_is_filled()
    ensures
        text::filled(Some("active"@)) == Some("active"@),
{
    reveal_strlit("active");
    assert("active"@.len() == 6);
}

/// The options with the provider that a live session takes by itself.
pub fn live_options(cli: &Cli, w: &Surroundings) -> (r: Cli)
    requires
        cli.asr != AsrBackend::External,
    ensures
        r.choice() == live_choice(cli.choice(), *w),
        r.same_but_provider(*cli),
{
    let same = cli.with_provider_name(text::copy_opt(&cli.provider));
    assert(same.choice() =~= cli.choice());
    if text::non_empty(&cli.provider).is_some() || cli.asr != AsrBackend::Auto
        || w.apple.supported {
        return same;
    }
    let active = cli.with_provider_name(Some(text::copy("active")));
    assert(active.choice() =~= cli.choice().of_provider("active"@));
    proof {
        lemma_active_is_filled();
    }
    match effective_provider_for(&active, w, true) {
        Ok(e) => {
            if e.capabilities.live.is_some() {
                active
            } else {
                same
            }
        },
        Err(_) => same,
    }
}

/// The backend of a live session with these options.
pub open spec fn chosen_live_backend(cli: Choice, w: Surroundings) -> Result<
    AsrBackend,
    Seq<char>,
> {
    match resolved_profile(cli, w) {
        Err(e) => Err(e),
        Ok(Some(p)) => if offers_live(p) {
            Ok(p.profile.kind.served_by())
        } else {
            Err(
                "provider profile '"@ + p.name + "' ("@ + p.profile.kind.label()
                    + ") does not support live mode; use --input or --mic-duration for batch transcription"@,
            )
        },
        Ok(None) => if cli.asr == AsrBackend::OpenaiCompatible {
            Err("interactive live mode requires --asr apple or an installed live provider"@)
        } else if w.apple.supported {
            Ok(AsrBackend::Apple)
        } else {
            Err(
                "interactive live mode requires Apple on-device ASR or an installed live provider: "@
                    + w.apple.reason@,
            )
        },
    }
}

/// The backend of a live session.
pub open spec fn live_backend(cli: Choice, w: Surroundings) -> Result<AsrBackend, Seq<char>> {
    chosen_live_backend(live_choice(cli, w), w)
}

pub fn resolve_live_backend_for(cli: &Cli, w: &Surroundings) -> (r: Result<AsrBackend, String>)
    requires
        cli.asr != AsrBackend::External,
    ensures
        backend_result(r) == live_backend(cli.choice(), *w),
{
    let cli = live_options(cli, w);
    match resolve_provider_profile_for(&cli, w) {
        Err(e) => Err(e),
        Ok(Some(resolved)) => {
            let effective = match effective_provider_for(&cli, w, true) {
                Ok(e) => e,
                Err(e) => {
                    return Err(e);
                },
            };
            if effective.capabilities.live.is_some() {
                return Ok(effective.backend);
            }
            Err(
                text::cat5(
                    "provider profile '",
                    resolved.name.as_str(),
                    "' (",
                    resolved.profile.kind.as_str(),
                    ") does not support live mode; use --input or --mic-duration for batch transcription",
                ),
            )
        },
        Ok(None) => match cli.asr {
            AsrBackend::OpenaiCompatible => Err(
                text::copy(
                    "interactive live mode requires --asr apple or an installed live provider",
                ),
            ),
            _ => {
                if w.apple.supported {
                    Ok(AsrBackend::Apple)
                } else {
                    Err(
                        text::cat(
                            "interactive live mode requires Apple on-device ASR or an installed live provider: ",
                            w.apple.reason.as_str(),
                        ),
                    )
                }
            },
        },
    }
}

/// A live session is only given to a provider that offers a live mode.
pub proof fn law_live_backend_is_live(cli: Choice, w: Surroundings)
    requires
        cli.asr != AsrBackend::External,
        live_backend(cli, w) is Ok,
    ensures
        ({
            let means = live_choice(cli, w);
            effective(means, w, true) is Ok ==> match resolved_profile(means, w) {
                Ok(Some(_)) => effective(means, w, true)->Ok_0.ability.live is Some && effective(
                    means,
                    w,
                    true,
                )->Ok_0.backend == live_backend(cli, w)->Ok_0,
                _ => live_backend(cli, w)->Ok_0 == AsrBackend::Apple && w.apple.supported,
            }
        }),
{
}

/// Where the options leave the choice open, and the machine's own recogniser cannot be
/// used, a live session is given to the active live provider.
pub proof fn law_active_provider_serves_live(cli: Choice, w: Surroundings)
    requires
        text::filled(cli.provider) is None,
        cli.asr == AsrBackend::Auto,
        !w.apple.supported,
        active_live(w) is Some,
    ensures
        live_backend(cli, w) == Ok::<AsrBackend, Seq<char>>(
            active_live(w)->0.profile.kind.served_by(),
        ),
        resolved_profile(live_choice(cli, w), w) == Ok::<Option<ResolvedView>, Seq<char>>(
            active_live(w),
        ),
{
    lemma_active_is_filled();
}

pub open spec fn no_live() -> LiveCapabilities {
    LiveCapabilities {
        mode: LiveModeKind::Chunked,
        mic: false,
        speaker: false,
        streaming_audio: false,
        partial_results: false,
        finalized_results: false,
        translation: false,
        voice_processing: false,
        device_selection: false,
        ptt: false,
        requires_network: false,
        expected_latency: None,
    }
}

pub fn live_capabilities_for_backend(backend: AsrBackend) -> (r: LiveCapabilities)
    ensures
        r == if backend == AsrBackend::Apple {
            adapter::live_offer()
        } else {
            no_live()
        },
{
    match backend {
        AsrBackend::Apple => adapter::native_adapter_live_capabilities(),
        _ => LiveCapabilities {
            mode: LiveModeKind::Chunked,
            mic: false,
            speaker: false,
            streaming_audio: false,
            partial_results: false,
            finalized_results: false,
            translation: false,
            voice_processing: false,
            device_selection: false,
            ptt: false,
            requires_network: false,
            expected_latency: None,
        },
    }
}

/// The first of two texts that may be missing.
pub open spec fn first_of(a: Option<Seq<char>>, b: Option<Seq<char>>) -> Option<Seq<char>> {
    match a {
        Some(_) => a,
        None => b,
    }
}

pub open spec fn api_base_in_use(cli: Choice, resolved: Option<ResolvedView>) -> Seq<char> {
    match first_of(
        text::filled(cli.api_base),
        match resolved {
            Some(p) => text::filled(p.profile.api_base),
            None => None,
        },
    ) {
        Some(base) => base,
        None => "https://api.openai.com"@,
    }
}

pub fn openai_compatible_api_base(
    cli: &Cli,
    resolved: &Option<ResolvedProviderProfile>,
) -> (r: String)
    ensures
        r@ == api_base_in_use(cli.choice(), profile::resolved_of(*resolved)),
{
    if let Some(base) = text::non_empty(&cli.api_base) {
        return base;
    }
    if let Some(p) = resolved {
        if let Some(base) = text::non_empty(&p.profile.api_base) {
            return base;
        }
    }
    text::copy(profile::default_openai_api_base())
}

pub open spec fn default_model_of(backend: AsrBackend) -> Seq<char> {
    match backend {
        AsrBackend::External => "external"@,
        _ => "whisper-1"@,
    }
}

pub fn default_model(backend: AsrBackend) -> (r: &'static str)
    ensures
        r@ == default_model_of(backend),
{
    match backend {
        AsrBackend::External => "external",
        _ => "whisper-1",
    }
}

pub open spec fn default_model_named(backend: Seq<char>) -> Seq<char> {
    if backend == "apple"@ {
        "apple"@
    } else if backend == "external"@ {
        "external"@
    } else {
        "whisper-1"@
    }
}

pub fn default_model_for_name(backend: &str) -> (r: &'static str)
    ensures
        r@ == default_model_named(backend@),
{
    if text::same(backend, "apple") {
        "apple"
    } else if text::same(backend, "external") {
        "external"
    } else {
        "whisper-1"
    }
}

pub open spec fn model_in_use(cli: Choice, resolved: Option<ResolvedView>) -> Seq<char> {
    match first_of(
        text::filled(cli.api_model),
        match resolved {
            Some(p) => text::filled(p.profile.default_model),
            None => None,
        },
    ) {
        Some(model) => model,
        None => "whisper-1"@,
    }
}

pub fn openai_compatible_model(cli: &Cli, resolved: &Option<ResolvedProviderProfile>) -> (r: String)
    ensures
        r@ == model_in_use(cli.choice(), profile::resolved_of(*resolved)),
{
    if let Some(model) = text::non_empty(&cli.api_model) {
        return model;
    }
    if let Some(p) = resolved {
        if let Some(model) = text::non_empty(&p.profile.default_model) {
            return model;
        }
    }
    text::copy(default_model(AsrBackend::OpenaiCompatible))
}

/// Whether two names are those of the same variable.
pub open spec fn same_variable(a: Seq<char>, b: Seq<char>, either_case: bool) -> bool {
    a == b || (either_case && text::lowered(a) == text::lowered(b))
}

/// The value of a variable, the first one of that name.
pub open spec fn variable(
    environment: Seq<(Seq<char>, Seq<char>)>,
    name: Seq<char>,
    either_case: bool,
) -> Option<Seq<char>>
    decreases environment.len(),
{
    if environment.len() == 0 {
        None
    } else if same_variable(environment[0].0, name, either_case) {
        Some(environment[0].1)
    } else {
        variable(environment.subrange(1, environment.len() as int), name, either_case)
    }
}

fn read_variable(environment: &Vec<(String, String)>, name: &str, either_case: bool) -> (r: Option<
    String,
>)
    ensures
        text::text_of(r) == variable(table::entries(environment@), name@, either_case),
{
    let ghost all = table::entries(environment@);
    let n: usize = environment.len();
    let mut i: usize = 0;
    assert(all.subrange(0, n as int) =~= all);
    while i < n
        invariant
            n == environment.len(),
            all == table::entries(environment@),
            i <= n,
            variable(all, name@, either_case) == variable(
                all.subrange(i as int, n as int),
                name@,
                either_case,
            ),
        decreases n - i,
    {
        let ghost rest = all.subrange(i as int, n as int);
        let one = environment[i].0.as_str();
        assert(rest[0] == (environment@[i as int].0@, environment@[i as int].1@));
        if text::same(one, name) || (either_case && text::same_ignoring_case(one, name)) {
            return Some(text::copy(environment[i].1.as_str()));
        }
        assert(rest.subrange(1, rest.len() as int) =~= all.subrange(i + 1, n as int));
        i = i + 1;
    }
    None
}

/// The key of a profile: its own, else the one in the variable that it names.
pub open spec fn profile_key(w: Surroundings, p: ProfileView) -> Option<Seq<char>> {
    first_of(
        text::filled(p.api_key),
        match text::filled(p.api_key_env) {
            Some(name) => text::filled(
                variable(table::entries(w.environment@), name, w.either_case),
            ),
            None => None,
        },
    )
}

pub fn profile_api_key(w: &Surroundings, resolved: &ResolvedProviderProfile) -> (r: Option<String>)
    ensures
        text::text_of(r) == profile_key(*w, resolved@.profile),
{
    if let Some(key) = text::non_empty(&resolved.profile.api_key) {
        return Some(key);
    }
    match text::non_empty(&resolved.profile.api_key_env) {
        Some(name) => text::non_empty(
            &read_variable(&w.environment, name.as_str(), w.either_case),
        ),
        None => None,
    }
}

pub open spec fn key_in_use(cli: Choice, w: Surroundings, resolved: Option<ResolvedView>) -> Option<
    Seq<char>,
> {
    first_of(
        text::filled(cli.api_key),
        match resolved {
            Some(p) => profile_key(w, p.profile),
            None => None,
        },
    )
}

pub fn openai_compatible_api_key(
    cli: &Cli,
    w: &Surroundings,
    resolved: &Option<ResolvedProviderProfile>,
) -> (r: Option<String>)
    ensures
        text::text_of(r) == key_in_use(cli.choice(), *w, profile::resolved_of(*resolved)),
{
    if let Some(key) = text::non_empty(&cli.api_key) {
        return Some(key);
    }
    match resolved {
        Some(p) => profile_api_key(w, p),
        None => None,
    }
}

/// A key on the command line wins over the profile's, and the profile's own over the
/// one in the environment.
pub proof fn law_key_precedence(cli: Choice, w: Surroundings, p: ResolvedView)
    ensures
        text::filled(cli.api_key) is Some ==> key_in_use(cli, w, Some(p))
            == text::filled(cli.api_key),
        text::filled(cli.api_key) is None && text::filled(
            p.profile.api_key,
        ) is Some ==> key_in_use(cli, w, Some(p)) == text::filled(p.profile.api_key),
{
}

/// The base that is configured, where it matters.
pub open spec fn configured_base(cli: Choice, e: Option<EffectiveView>) -> Option<Seq<char>> {
    first_of(
        text::filled(cli.api_base),
        match e {
            Some(e) => match e.profile {
                Some(p) => if e.backend == AsrBackend::OpenaiCompatible {
                    text::filled(p.profile.api_base)
                } else {
                    None
                },
                None => None,
            },
            None => None,
        },
    )
}

pub open spec fn effective_of(o: Option<EffectiveProvider>) -> Option<EffectiveView> {
    match o {
        Some(e) => Some(e@),
        None => None,
    }
}

pub fn configured_api_base(cli: &Cli, provider: &Option<EffectiveProvider>) -> (r: Option<String>)
    ensures
        text::text_of(r) == configured_base(cli.choice(), effective_of(*provider)),
{
    if let Some(base) = text::non_empty(&cli.api_base) {
        return Some(base);
    }
    if let Some(e) = provider {
        if e.backend == AsrBackend::OpenaiCompatible {
            if let Some(p) = &e.profile {
                return text::non_empty(&p.profile.api_base);
            }
        }
    }
    None
}

pub open spec fn configured_key(cli: Choice, w: Surroundings, e: Option<EffectiveView>) -> Option<
    Seq<char>,
> {
    key_in_use(
        cli,
        w,
        match e {
            Some(e) => e.profile,
            None => None,
        },
    )
}

pub fn configured_api_key(
    cli: &Cli,
    w: &Surroundings,
    provider: &Option<EffectiveProvider>,
) -> (r: Option<String>)
    ensures
        text::text_of(r) == configured_key(cli.choice(), *w, effective_of(*provider)),
{
    if let Some(key) = text::non_empty(&cli.api_key) {
        return Some(key);
    }
    match provider {
        Some(e) => match &e.profile {
            Some(p) => profile_api_key(w, p),
            None => None,
        },
        None => None,
    }
}

/// The base and the model in use are never blank.
pub proof fn lemma_in_use(cli: Choice, p: Option<ResolvedView>)
    ensures
        text::trimmed(api_base_in_use(cli, p)).len() > 0,
        text::trimmed(model_in_use(cli, p)).len() > 0,
{
    if let Some(s) = cli.api_base {
        text::law_trim_idempotent(s);
    }
    if let Some(s) = cli.api_model {
        text::law_trim_idempotent(s);
    }
    if let Some(r) = p {
        if let Some(s) = r.profile.api_base {
            text::law_trim_idempotent(s);
        }
        if let Some(s) = r.profile.default_model {
            text::law_trim_idempotent(s);
        }
    }
    reveal_strlit("https://api.openai.com");
    reveal_strlit("whisper-1");
    text::lemma_inked_is_trimmed("https://api.openai.com"@);
    text::lemma_inked_is_trimmed("whisper-1"@);
}

/// The installed provider that the options mean, where they mean one.
pub open spec fn external_package(cli: Choice, w: Surroundings) -> Result<InstalledView, Seq<char>> {
    match resolved_profile(cli, w) {
        Err(e) => Err(e),
        Ok(p) => if p is Some && p->0.profile.kind == ProfileProviderKind::External {
            match p->0.installed {
                Some(package) => Ok(package),
                None => Err(
                    "external provider is not installed; run `dicta provider install <package>`"@,
                ),
            }
        } else {
            Err("external provider requires --provider <installed-provider>"@)
        },
    }
}

pub fn build_external_provider(cli: &Cli, w: &Surroundings) -> (r: Result<
    InstalledProvider,
    String,
>)
    ensures
        match (r, external_package(cli.choice(), *w)) {
            (Ok(p), Ok(v)) => p@ == v,
            (Err(e), Err(v)) => e@ == v,
            _ => false,
        },
{
    match resolve_provider_profile_for(cli, w) {
        Err(e) => Err(e),
        Ok(Some(p)) => {
            if p.profile.kind == ProfileProviderKind::External {
                match p.installed {
                    Some(package) => Ok(package),
                    None => Err(
                        text::copy(
                            "external provider is not installed; run `dicta provider install <package>`",
                        ),
                    ),
                }
            } else {
                Err(text::copy("external provider requires --provider <installed-provider>"))
            }
        },
        Ok(None) => Err(text::copy("external provider requires --provider <installed-provider>")),
    }
}

/// A provider that is named is the one asked for, whichever is active; where none is named,
/// none is.
pub proof fn law_named_provider_is_asked_for(cli: Choice, w: Surroundings)
    ensures
        cli.provider matches Some(p) && text::trimmed(p).len() > 0 && text::trimmed(p) != "active"@
            ==> requested_name(cli, w) == Ok::<Option<Seq<char>>, Seq<char>>(
            Some(text::trimmed(cli.provider->0)),
        ),
        cli.provider is None || text::trimmed(cli.provider->0).len() == 0 ==> requested_name(cli, w)
            == Ok::<Option<Seq<char>>, Seq<char>>(None) && resolved_profile(cli, w) == Ok::<
            Option<ResolvedView>,
            Seq<char>,
        >(None),
{
}

/// The name "active" stands for the active provider, and for the machine's own recogniser
/// where none is active and it can be used; where it cannot, or where the active provider
/// cannot be told, the request fails.
pub proof fn law_active_stands_for_the_active_provider(cli: Choice, w: Surroundings)
    requires
        cli.provider is Some,
        text::trimmed(cli.provider->0) == "active"@,
    ensures
        match w.active {
            Err(e) => requested_name(cli, w) == Err::<Option<Seq<char>>, Seq<char>>(e@),
            Ok(Some(name)) => requested_name(cli, w) == Ok::<Option<Seq<char>>, Seq<char>>(
                Some(name@),
            ),
            Ok(None) => if w.apple.supported {
                requested_name(cli, w) == Ok::<Option<Seq<char>>, Seq<char>>(Some("apple"@))
            } else {
                requested_name(cli, w) is Err
            },
        },
{
    reveal_strlit("active");
}

pub(crate) proof fn lemma_package_named(packages: Seq<InstalledView>, name: Seq<char>)
    ensures
        forall|i: int|
            0 <= i < packages.len() && (#[trigger] packages[i]).manifest.id == name && (forall|
                j: int,
            |
                0 <= j < i ==> (#[trigger] packages[j]).manifest.id != name) ==> package_named(
                packages,
                name,
            ) == Some(packages[i]),
        (forall|j: int| 0 <= j < packages.len() ==> (#[trigger] packages[j]).manifest.id != name)
            ==> package_named(packages, name) is None,
    decreases packages.len(),
{
    if packages.len() > 0 && packages[0].manifest.id != name {
        let rest = packages.subrange(1, packages.len() as int);
        lemma_package_named(rest, name);
        assert forall|i: int|
            0 <= i < packages.len() && (#[trigger] packages[i]).manifest.id == name && (forall|
                j: int,
            |
                0 <= j < i ==> (#[trigger] packages[j]).manifest.id != name) implies package_named(
            packages,
            name,
        ) == Some(packages[i]) by {
            assert(rest[i - 1] == packages[i]);
            assert forall|j: int| 0 <= j < i - 1 implies (#[trigger] rest[j]).manifest.id != name by {
                assert(rest[j] == packages[j + 1]);
            }
        }
        if forall|j: int| 0 <= j < packages.len() ==> (#[trigger] packages[j]).manifest.id != name {
            assert forall|j: int| 0 <= j < rest.len() implies (#[trigger] rest[j]).manifest.id
                != name by {
                assert(rest[j] == packages[j + 1]);
            }
        }
    }
}

/// A name stands for the profile that is built in, else for the first installed package with
/// that identifier, else for the entry in the configuration.
pub proof fn law_name_is_looked_up_in_order(w: Surroundings, name: Seq<char>, i: int)
    ensures
        resolved_name(w, name) matches Ok(r) ==> r.name == name,
        name == "apple"@ || name == "openai"@ ==> resolved_name(w, name) is Ok && resolved_name(
            w,
            name,
        )->Ok_0.installed is None && resolved_name(w, name)->Ok_0.profile.kind == if name
            == "apple"@ {
            ProfileProviderKind::Apple
        } else {
            ProfileProviderKind::OpenaiCompatible
        },
        name != "apple"@ && name != "openai"@ && w.installed is Err ==> resolved_name(w, name)
            == Err::<ResolvedView, Seq<char>>(w.installed->Err_0@),
        name != "apple"@ && name != "openai"@ && w.installed is Ok && 0 <= i
            < w.installed->Ok_0@.len() && w.installed->Ok_0@[i].manifest.id@ == name && (forall|
            j: int,
        |
            0 <= j < i ==> (#[trigger] w.installed->Ok_0@[j]).manifest.id@ != name)
            ==> resolved_name(w, name) == Ok::<ResolvedView, Seq<char>>(
            ResolvedView {
                name,
                profile: w.installed->Ok_0@[i]@.profile(),
                installed: Some(w.installed->Ok_0@[i]@),
            },
        ),
        name != "apple"@ && name != "openai"@ && w.installed is Ok && (forall|j: int|
            0 <= j < w.installed->Ok_0@.len() ==> (#[trigger] w.installed->Ok_0@[j]).manifest.id@
                != name) ==> match w.config {
            ProviderConfig::Profiles(_, entries) => match table::under_name(
                table::entries(entries@),
                name,
            ) {
                Some(p) => resolved_name(w, name) == Ok::<ResolvedView, Seq<char>>(
                    ResolvedView { name, profile: p, installed: None },
                ),
                None => resolved_name(w, name) is Err,
            },
            _ => resolved_name(w, name) is Err,
        },
{
    reveal_strlit("apple");
    reveal_strlit("openai");
    assert("apple"@.len() == 5 && "openai"@.len() == 6);
    if let Ok(packages) = w.installed {
        let views = installed_views(packages@);
        lemma_package_named(views, name);
        assert(forall|j: int|
            0 <= j < packages@.len() ==> #[trigger] views[j] == packages@[j]@);
        assert(forall|j: int|
            0 <= j < packages@.len() ==> views[j] == (#[trigger] packages@[j])@);
        if 0 <= i < packages@.len() {
            assert(views[i].manifest.id == packages@[i].manifest.id@);
        }
    }
}

/// The version of the system decides by its first number.
pub proof fn law_version_goes_by_its_first_number(n: nat, rest: Seq<char>)
    requires
        n <= u32::MAX,
    ensures
        supported_version(Some(text::decimal(n))) == Some(n >= 26),
        supported_version(Some(text::decimal(n) + "."@ + rest)) == Some(n >= 26),
{
    text::law_decimal_reads_back(n, u32::MAX as nat);
    text::lemma_decimal_has_only_digits(n);
    text::lemma_first_piece(text::decimal(n), rest, '.');
    reveal_strlit(".");
    assert("."@ =~= seq!['.']);
}

/// A profile is served by what its kind says. Without one, the machine's own recogniser
/// serves only where it is asked for, and then only where it can be used.
pub proof fn law_backend_goes_by_the_kind(cli: Choice, w: Surroundings)
    ensures
        resolved_profile(cli, w) matches Ok(Some(p)) ==> resolved_backend(cli, w) == Ok::<
            AsrBackend,
            Seq<char>,
        >(
            match p.profile.kind {
                ProfileProviderKind::Apple => AsrBackend::Apple,
                ProfileProviderKind::OpenaiCompatible => AsrBackend::OpenaiCompatible,
                ProfileProviderKind::External => AsrBackend::External,
            },
        ),
        resolved_profile(cli, w) == Ok::<Option<ResolvedView>, Seq<char>>(None) ==> {
            &&& resolved_backend(cli, w) is Err <==> cli.asr == AsrBackend::Apple
                && !w.apple.supported
            &&& resolved_backend(cli, w) matches Ok(b) ==> b == if cli.asr == AsrBackend::Apple {
                AsrBackend::Apple
            } else {
                AsrBackend::OpenaiCompatible
            }
        },
        resolved_profile(cli, w) matches Err(e) ==> resolved_backend(cli, w) == Err::<
            AsrBackend,
            Seq<char>,
        >(e),
{
}

/// A profile takes an ability away just where it denies it, needs the network where it says
/// so, and adds its notes behind those that are there.
pub proof fn law_profile_takes_away_what_it_denies(a: AbilityView, p: ProfileView)
    ensures
        narrowed(a, p).batch.batch_file <==> a.batch.batch_file && !(p.batch_file matches Some(b)
            && !b),
        narrowed(a, p).batch.streaming <==> a.batch.streaming && !(p.streaming matches Some(b)
            && !b),
        narrowed(a, p).batch.requires_network <==> a.batch.requires_network || (
        p.requires_network matches Some(b) && b),
        narrowed(a, p).live is None <==> a.live is None || (p.live_enabled matches Some(b) && !b),
        narrowed(a, p).notes == a.notes + p.notes,
{
}

/// The address is that of the options, else that of the profile, else the usual one; blank
/// ones do not count.
pub proof fn law_base_precedence(cli: Choice, resolved: Option<ResolvedView>)
    ensures
        cli.api_base matches Some(b) && text::trimmed(b).len() > 0 ==> api_base_in_use(cli, resolved)
            == text::trimmed(cli.api_base->0),
        (cli.api_base is None || text::trimmed(cli.api_base->0).len() == 0) && (
        resolved matches Some(p) && p.profile.api_base matches Some(b) && text::trimmed(b).len()
            > 0) ==> api_base_in_use(cli, resolved) == text::trimmed(
            resolved->0.profile.api_base->0,
        ),
        (cli.api_base is None || text::trimmed(cli.api_base->0).len() == 0) && !(
        resolved matches Some(p) && p.profile.api_base matches Some(b) && text::trimmed(b).len()
            > 0) ==> api_base_in_use(cli, resolved) == "https://api.openai.com"@,
{
}

/// The same of the model.
pub proof fn law_model_precedence(cli: Choice, resolved: Option<ResolvedView>)
    ensures
        cli.api_model matches Some(b) && text::trimmed(b).len() > 0 ==> model_in_use(cli, resolved)
            == text::trimmed(cli.api_model->0),
        (cli.api_model is None || text::trimmed(cli.api_model->0).len() == 0) && (
        resolved matches Some(p) && p.profile.default_model matches Some(b) && text::trimmed(
            b,
        ).len() > 0) ==> model_in_use(cli, resolved) == text::trimmed(
            resolved->0.profile.default_model->0,
        ),
        (cli.api_model is None || text::trimmed(cli.api_model->0).len() == 0) && !(
        resolved matches Some(p) && p.profile.default_model matches Some(b) && text::trimmed(
            b,
        ).len() > 0) ==> model_in_use(cli, resolved) == "whisper-1"@,
{
}

proof fn lemma_variable(
    environment: Seq<(Seq<char>, Seq<char>)>,
    name: Seq<char>,
    either_case: bool,
    i: int,
)
    requires
        0 <= i < environment.len(),
        same_variable(environment[i].0, name, either_case),
        forall|j: int|
            0 <= j < i ==> !same_variable((#[trigger] environment[j]).0, name, either_case),
    ensures
        variable(environment, name, either_case) == Some(environment[i].1),
    decreases i,
{
    if i > 0 {
        assert(!same_variable(environment[0].0, name, either_case));
        let rest = environment.subrange(1, environment.len() as int);
        assert forall|j: int| 0 <= j < i - 1 implies !same_variable(
            (#[trigger] rest[j]).0,
            name,
            either_case,
        ) by {
            assert(rest[j] == environment[j + 1]);
        }
        lemma_variable(rest, name, either_case, i - 1);
    }
}

/// A key that a profile keeps in a variable of the environment is used, trimmed, where
/// neither the options nor the profile itself hold one. `i` is the first variable of that
/// name.
pub proof fn law_key_may_come_from_the_environment(
    cli: Choice,
    w: Surroundings,
    p: ResolvedView,
    i: int,
)
    requires
        cli.api_key is None || text::trimmed(cli.api_key->0).len() == 0,
        p.profile.api_key is None || text::trimmed(p.profile.api_key->0).len() == 0,
        p.profile.api_key_env is Some,
        text::trimmed(p.profile.api_key_env->0).len() > 0,
        0 <= i < w.environment@.len(),
        w.environment@[i].0@ == text::trimmed(p.profile.api_key_env->0),
        forall|j: int|
            0 <= j < i ==> !same_variable(
                (#[trigger] w.environment@[j]).0@,
                text::trimmed(p.profile.api_key_env->0),
                w.either_case,
            ),
    ensures
        text::trimmed(w.environment@[i].1@).len() > 0 ==> key_in_use(cli, w, Some(p)) == Some(
            text::trimmed(w.environment@[i].1@),
        ),
        text::trimmed(w.environment@[i].1@).len() == 0 ==> key_in_use(cli, w, Some(p)) is None,
        key_in_use(cli, w, None) is None,
{
    let all = table::entries(w.environment@);
    let name = text::trimmed(p.profile.api_key_env->0);
    assert forall|j: int| 0 <= j < i implies !same_variable(
        (#[trigger] all[j]).0,
        name,
        w.either_case,
    ) by {
        assert(all[j].0 == w.environment@[j].0@);
    }
    lemma_variable(all, name, w.either_case, i);
}

/// The names of variables are told apart by case but where the system does not tell them so.
pub proof fn law_variables_and_case(a: Seq<char>, b: Seq<char>)
    ensures
        same_variable(a, b, false) <==> a == b,
        same_variable(a, b, true) <==> text::lowered(a) == text::lowered(b),
{
}

/// The machine's own recogniser is at fault without support or without an adapter, an
/// external provider where its command is missing, and an HTTP service never.
pub proof fn law_capability_faults(backend: AsrBackend, cli: Choice, w: Surroundings)
    ensures
        backend == AsrBackend::Apple ==> (capability_fault(backend, cli, w) is None
            <==> w.apple.supported && (cli.native_adapter is Some || w.bundled_adapter is Some)),
        backend == AsrBackend::OpenaiCompatible ==> capability_fault(backend, cli, w) is None,
        backend == AsrBackend::External ==> (capability_fault(backend, cli, w) is Some <==> (
        resolved_profile(cli, w) matches Ok(Some(p)) && p.installed matches Some(package)
            && !package.command_is_file)),
{
}

/// The adapter that is named goes before the one that stands beside the tool.
pub proof fn law_named_adapter_goes_first(cli: Choice, w: Surroundings)
    ensures
        cli.native_adapter is Some ==> adapter_in_use(cli, w) == cli.native_adapter,
        cli.native_adapter is None && w.bundled_adapter is Some ==> adapter_in_use(cli, w) == Some(
            w.bundled_adapter->0@,
        ),
        adapter_in_use(cli, w) is None <==> cli.native_adapter is None && w.bundled_adapter is None,
{
}

/// What an installed package offers is what its manifest says, less what the profile denies;
/// a package without a live section offers no live mode.
pub proof fn law_package_offers_what_its_manifest_says(
    cli: Choice,
    w: Surroundings,
    described: bool,
    package: InstalledView,
)
    requires
        resolved_profile(cli, w) matches Ok(Some(r)) && r.installed == Some(package) && r.profile
            == package.profile(),
    ensures
        effective(cli, w, described) matches Ok(e) && e.backend == AsrBackend::External
            && e.ability.batch.batch_file == package.manifest.batch.file
            && e.ability.batch.streaming == package.manifest.batch.streaming && (
        e.ability.live is Some <==> package.manifest.live is Some) && (
        e.ability.batch.requires_network <==> package.manifest.batch.requires_network || (
        package.manifest.live is Some && package.manifest.live->0.requires_network)) && (
        e.config_error is None <==> package.command_is_file),
{
}

/// An external provider is run just where the profile asked for is one and its package is
/// installed, and it is then that package that is run.
pub proof fn law_external_package_is_the_installed_one(cli: Choice, w: Surroundings)
    ensures
        external_package(cli, w) matches Ok(package) ==> (resolved_profile(cli, w) matches Ok(
            Some(r),
        ) && r.profile.kind == ProfileProviderKind::External && r.installed == Some(package)),
        (resolved_profile(cli, w) matches Ok(Some(r)) && r.profile.kind
            == ProfileProviderKind::External && r.installed is Some) ==> external_package(cli, w)
            is Ok,
{
}

/// The installed package of a name is run where nothing built in has that name.
pub proof fn law_installed_package_is_run(cli: Choice, w: Surroundings, name: Seq<char>, i: int)
    requires
        cli.provider is Some,
        text::trimmed(cli.provider->0) == name,
        name.len() > 0,
        name != "active"@,
        name != "apple"@,
        name != "openai"@,
        w.installed is Ok,
        0 <= i < w.installed->Ok_0@.len(),
        w.installed->Ok_0@[i].manifest.id@ == name,
        forall|j: int| 0 <= j < i ==> (#[trigger] w.installed->Ok_0@[j]).manifest.id@ != name,
    ensures
        external_package(cli, w) == Ok::<InstalledView, Seq<char>>(w.installed->Ok_0@[i]@),
{
    law_named_provider_is_asked_for(cli, w);
    law_name_is_looked_up_in_order(w, name, i);
}

/// A live session runs only on a provider that offers one, and without a provider only on
/// the machine's own recogniser where it can be used and no HTTP service is asked for.
pub proof fn law_live_sessions_run_where_offered(cli: Choice, w: Surroundings)
    ensures
        ({
            let means = live_choice(cli, w);
            match resolved_profile(means, w) {
                Err(e) => live_backend(cli, w) == Err::<AsrBackend, Seq<char>>(e),
                Ok(Some(p)) => live_backend(cli, w) is Ok <==> offers_live(p),
                Ok(None) => live_backend(cli, w) is Ok <==> cli.asr != AsrBackend::OpenaiCompatible
                    && w.apple.supported,
            }
        }),
        live_choice(cli, w).asr == cli.asr && live_choice(cli, w).api_key == cli.api_key
            && live_choice(cli, w).api_base == cli.api_base && live_choice(cli, w).api_model
            == cli.api_model && live_choice(cli, w).native_adapter == cli.native_adapter,
        cli.provider matches Some(p) && text::trimmed(p).len() > 0 ==> live_choice(cli, w) == cli,
        w.apple.supported ==> live_choice(cli, w) == cli,
{
}

/// The machine's own recogniser needs no network and has a live mode, an HTTP service needs
/// the network and has none; both take files. What an external provider does is for its
/// package to say.
pub proof fn law_what_backends_offer(backend: AsrBackend)
    ensures
        backend == AsrBackend::Apple ==> backend_ability(backend).batch.batch_file
            && !backend_ability(backend).batch.requires_network && (
        backend_ability(backend).live matches Some(l) && l.mic && l.speaker && l.translation
            && !l.requires_network),
        backend == AsrBackend::OpenaiCompatible ==> backend_ability(backend).batch.batch_file
            && backend_ability(backend).batch.requires_network && backend_ability(backend).live
            is None,
        backend == AsrBackend::External ==> !backend_ability(backend).batch.batch_file
            && backend_ability(backend).live is None,
{
}

} // verus!
