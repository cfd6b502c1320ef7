//! Installing, updating and removing provider packages.
use crate::cli::npm;
use crate::cli::npm::NpmProviderPackageSummary;
#[allow(unused_imports)]
use crate::cli::npm::SummaryView;
use crate::cli::print;
use crate::cli::profile;
#[allow(unused_imports)]
use crate::cli::profile::{InstalledView, ManifestView, ProfileView};
use crate::cli::profile::{
    InstalledProvider, ProviderInstallMetadata, ProviderInstallSourceKind, ProviderPackageManifest,
    ProviderProfile,
};
use crate::cli::provider;
use crate::cli::report;
use crate::table;
use crate::text;
use vstd::prelude::*;
use vstd::string::*;

verus! {

/// The protocol that providers speak.
pub const PROVIDER_PROTOCOL: &'static str = "dicta-provider-jsonl-v1";

pub const PROVIDER_INSTALL_METADATA_FILE: &'static str = ".dicta-provider-install.json";

/// What is wrong with a manifest whose command is there or not, at a place as it is written.
pub open spec fn manifest_fault(
    m: ManifestView,
    command_is_file: bool,
    shown_command: Seq<char>,
) -> Option<Seq<char>> {
    if text::trimmed(m.id).len() == 0 {
        Some("provider manifest id is required"@)
    } else if m.id.contains('/') || m.id.contains('\\') || m.id == "."@ {
        Some("provider manifest id must be a simple directory name"@)
    } else if m.protocol != "dicta-provider-jsonl-v1"@ {
        Some(
            "provider '"@ + m.id + "' uses unsupported protocol '"@ + m.protocol
                + "'; expected '"@ + "dicta-provider-jsonl-v1"@ + "'"@,
        )
    } else if (m.command.root.len() == 0 && m.command.names.len() == 0)
        || m.command.absolute() {
        Some("provider '"@ + m.id + "' command must be a relative path"@)
    } else if !command_is_file {
        Some("provider '"@ + m.id + "' command does not exist: "@ + shown_command)
    } else {
        None
    }
}

pub fn validate_provider_manifest(
    manifest: &ProviderPackageManifest,
    command_is_file: bool,
    shown_command: &str,
) -> (r: Result<(), String>)
    ensures
        match manifest_fault(manifest@, command_is_file, shown_command@) {
            None => r is Ok,
            Some(m) => r is Err && r->Err_0@ == m,
        },
{
    let id = manifest.id.as_str();
    if text::trim(id).as_str().is_empty() {
        return Err(text::copy("provider manifest id is required"));
    }
    if text::has_char(id, '/') || text::has_char(id, '\\') || text::same(id, ".") {
        return Err(text::copy("provider manifest id must be a simple directory name"));
    }
    if !text::same(manifest.protocol.as_str(), PROVIDER_PROTOCOL) {
        let first = text::cat4(
            "provider '",
            id,
            "' uses unsupported protocol '",
            manifest.protocol.as_str(),
        );
        return Err(text::cat4(first.as_str(), "'; expected '", PROVIDER_PROTOCOL, "'"));
    }
    let command = &manifest.command;
    assert(manifest@.command.names.len() == command.names.len());
    if (command.root.as_str().is_empty() && command.names.len() == 0) || command.is_absolute() {
        return Err(text::cat3("provider '", id, "' command must be a relative path"));
    }
    if !command_is_file {
        return Err(text::cat4("provider '", id, "' command does not exist: ", shown_command));
    }
    Ok(())
}

/// A manifest that is accepted names a directory of its own, and a command that is
/// there, by a path that is not absolute.
pub proof fn law_accepted_manifest_is_simple(
    m: ManifestView,
    command_is_file: bool,
    shown_command: Seq<char>,
)
    requires
        manifest_fault(m, command_is_file, shown_command) is None,
    ensures
        text::trimmed(m.id).len() > 0,
        !m.id.contains('/'),
        !m.id.contains('\\'),
        m.id != "."@,
        m.command.root.len() > 0 || m.command.names.len() > 0,
        !m.command.absolute(),
        command_is_file,
{
}

/// Whether a package may be put where one may stand already.
pub fn check_install_place(id: &str, exists: bool, force: bool, shown: &str) -> (r: Result<
    (),
    String,
>)
    ensures
        if exists && !force {
            r is Err && r->Err_0@ == "provider '"@ + id@ + "' is already installed at "@ + shown@
                + "; pass --force to replace it"@
        } else {
            r is Ok
        },
{
    if exists && !force {
        return Err(
            text::cat5(
                "provider '",
                id,
                "' is already installed at ",
                shown,
                "; pass --force to replace it",
            ),
        );
    }
    Ok(())
}

/// What kind of source a package comes from.
#[derive(Debug, Clone, PartialEq, Eq)]
pub enum InstallSource {
    /// A directory or a packed file, at a path as it is written.
    Directory(String),
    Tarball(String),
    /// A package of a registry.
    Npm(String),
}

/// Tells where a package comes from, by what stands at the path of its name.
pub fn install_source(package: &str, is_dir: bool, is_file: bool) -> (r: Result<
    InstallSource,
    String,
>)
    ensures
        if text::trimmed(package@).len() == 0 {
            r is Err && r->Err_0@ == "provider package is required"@
        } else if is_dir {
            r matches Ok(InstallSource::Directory(p)) && p@ == text::trimmed(package@)
        } else if is_file {
            r matches Ok(InstallSource::Tarball(p)) && p@ == text::trimmed(package@)
        } else {
            r matches Ok(InstallSource::Npm(p)) && p@ == text::trimmed(package@)
        },
{
    let name = text::trim(package);
    if name.as_str().is_empty() {
        return Err(text::copy("provider package is required"));
    }
    if is_dir {
        Ok(InstallSource::Directory(name))
    } else if is_file {
        Ok(InstallSource::Tarball(name))
    } else {
        Ok(InstallSource::Npm(name))
    }
}

impl ProviderInstallMetadata {
    /// What is noted of a package that was not fetched.
    pub fn local(source: ProviderInstallSourceKind, now_ms: u128) -> (r: ProviderInstallMetadata)
        ensures
            r.source == source,
            r.package is None,
            r.registry is None,
            r.version is None,
            r.installed_at_ms == now_ms,
    {
        ProviderInstallMetadata {
            source,
            package: None,
            registry: None,
            version: None,
            installed_at_ms: now_ms,
        }
    }

    /// What is noted of a package that was fetched.
    pub fn fetched(package: String, registry: &str, version: String, now_ms: u128) -> (r:
        ProviderInstallMetadata)
        ensures
            r.source == ProviderInstallSourceKind::Npm,
            r.package == Some(package),
            text::text_of(r.registry) == Some(npm::registry_base(registry@)),
            r.version == Some(version),
            r.installed_at_ms == now_ms,
    {
        ProviderInstallMetadata {
            source: ProviderInstallSourceKind::Npm,
            package: Some(package),
            registry: Some(npm::normal_registry(registry)),
            version: Some(version),
            installed_at_ms: now_ms,
        }
    }
}

#[derive(Debug, Clone, PartialEq, Eq)]
pub struct ProviderInstallReport {
    pub id: String,
    pub name: Option<String>,
    pub version: Option<String>,
    pub protocol: String,
    pub source: String,
    pub source_package: Option<String>,
    pub install_path: String,
    pub command: String,
}

/// Reports a package that was installed from `source`.
pub fn install_report(installed: &InstalledProvider, source: &str) -> (r: ProviderInstallReport)
    ensures
        r.id@ == installed@.manifest.id,
        text::text_of(r.name) == installed@.manifest.name,
        text::text_of(r.version) == installed@.manifest.version,
        r.protocol@ == installed@.manifest.protocol,
        r.source@ == source@,
        text::text_of(r.source_package) == installed@.source_package(),
        r.install_path@ == installed@.shown_root,
        r.command@ == installed@.shown_command,
{
    ProviderInstallReport {
        id: text::copy(installed.id()),
        name: text::copy_opt(&installed.manifest.name),
        version: text::copy_opt(&installed.manifest.version),
        protocol: text::copy(installed.manifest.protocol.as_str()),
        source: text::copy(source),
        source_package: installed.source_package(),
        install_path: text::copy(installed.shown_root.as_str()),
        command: text::copy(installed.shown_command.as_str()),
    }
}

pub open spec fn install_lines(r: ProviderInstallReport) -> Seq<Seq<char>> {
    report::said("Installed provider: "@, r.id@) + report::said_if(
        "  Name: "@,
        text::text_of(r.name),
    ) + report::said_if("  Version: "@, text::text_of(r.version)) + report::said_if(
        "  Package: "@,
        text::text_of(r.source_package),
    ) + report::said("  Path: "@, r.install_path@) + report::said("  Command: "@, r.command@)
        + report::said("  Protocol: "@, r.protocol@)
}

pub fn install_text(r: &ProviderInstallReport) -> (lines: Vec<String>)
    ensures
        text::texts(lines@) == install_lines(*r),
{
    let mut lines = print::no_lines();
    report::say(&mut lines, "Installed provider: ", r.id.as_str());
    report::say_if(&mut lines, "  Name: ", &r.name);
    report::say_if(&mut lines, "  Version: ", &r.version);
    report::say_if(&mut lines, "  Package: ", &r.source_package);
    report::say(&mut lines, "  Path: ", r.install_path.as_str());
    report::say(&mut lines, "  Command: ", r.command.as_str());
    report::say(&mut lines, "  Protocol: ", r.protocol.as_str());
    assert(text::texts(lines@) =~= install_lines(*r));
    lines
}

#[derive(Debug, Clone, PartialEq, Eq)]
pub struct ProviderAvailableEntry {
    pub package: String,
    pub provider_id: String,
    pub latest_version: String,
    pub description: Option<String>,
    pub installed: bool,
    pub installed_version: Option<String>,
    pub update_available: bool,
}

impl ProviderAvailableEntry {
    pub open spec fn tells(self, package: SummaryView, installed: Seq<InstalledView>) -> bool {
        let id = text::after_last(package.name, '/');
        let found = provider::package_named(installed, id);
        let version = match found {
            Some(p) => p.manifest.version,
            None => None,
        };
        &&& self.package@ == package.name
        &&& self.provider_id@ == id
        &&& self.latest_version@ == package.version
        &&& text::text_of(self.description) == package.description
        &&& self.installed == found is Some
        &&& text::text_of(self.installed_version) == version
        &&& self.update_available == (version is Some && version->0 != package.version)
    }
}

fn available_entry(
    package: &NpmProviderPackageSummary,
    installed: &Vec<InstalledProvider>,
) -> (r: ProviderAvailableEntry)
    ensures
        r.tells(package@, provider::installed_views(installed@)),
{
    let provider_id = npm::provider_id_from_package_name(package.name.as_str());
    let found = provider::find_package(installed, provider_id.as_str());
    let installed_version = match &found {
        Some(p) => text::copy_opt(&p.manifest.version),
        None => None,
    };
    let update_available = match &installed_version {
        Some(v) => !text::same(v.as_str(), package.version.as_str()),
        None => false,
    };
    ProviderAvailableEntry {
        package: text::copy(package.name.as_str()),
        provider_id,
        latest_version: text::copy(package.version.as_str()),
        description: text::copy_opt(&package.description),
        installed: found.is_some(),
        installed_version,
        update_available,
    }
}

#[derive(Debug, Clone, PartialEq, Eq)]
pub struct ProviderAvailableReport {
    pub registry: String,
    pub scope: String,
    pub keyword: String,
    pub packages: Vec<ProviderAvailableEntry>,
}

/// Reports the provider packages that a search found.
pub fn available_report(
    registry: &str,
    scope: &str,
    keyword: &str,
    found: &Vec<NpmProviderPackageSummary>,
    installed: &Vec<InstalledProvider>,
) -> (r: ProviderAvailableReport)
    ensures
        r.registry@ == npm::registry_base(registry@),
        r.scope@ == npm::bare_scope(scope@),
        r.keyword@ == text::trimmed(keyword@),
        r.packages@.len() == found@.len(),
        forall|i: int|
            0 <= i < found@.len() ==> (#[trigger] r.packages@[i]).tells(
                found@[i]@,
                provider::installed_views(installed@),
            ),
{
    let mut packages: Vec<ProviderAvailableEntry> = Vec::new();
    let n: usize = found.len();
    let mut i: usize = 0;
    while i < n
        invariant
            n == found.len(),
            i <= n,
            packages.len() == i,
            forall|k: int|
                0 <= k < i ==> (#[trigger] packages@[k]).tells(
                    found@[k]@,
                    provider::installed_views(installed@),
                ),
        decreases n - i,
    {
        packages.push(available_entry(&found[i], installed));
        i = i + 1;
    }
    ProviderAvailableReport {
        registry: npm::normal_registry(registry),
        scope: npm::normal_scope(scope),
        keyword: text::trim(keyword),
        packages,
    }
}

pub open spec fn available_entry_lines(p: ProviderAvailableEntry) -> Seq<Seq<char>> {
    let status = if p.update_available {
        "update available"@
    } else if p.installed {
        "installed"@
    } else {
        "not installed"@
    };
    seq![
        p.provider_id@ + " ("@ + p.package@ + ", latest "@ + p.latest_version@ + ", "@ + status
            + ")"@,
    ] + report::said_if("    Installed version: "@, text::text_of(p.installed_version))
        + report::said_if("    "@, text::text_of(p.description))
}

pub open spec fn all_available_lines(v: Seq<ProviderAvailableEntry>) -> Seq<Seq<char>>
    decreases v.len(),
{
    if v.len() == 0 {
        Seq::<Seq<char>>::empty()
    } else {
        all_available_lines(v.drop_last()) + available_entry_lines(v.last())
    }
}

pub open spec fn available_lines(r: ProviderAvailableReport) -> Seq<Seq<char>> {
    seq!["Installable providers"@] + report::said("  Registry: "@, r.registry@) + report::said(
        "  Scope: @"@,
        r.scope@,
    ) + seq![""@] + all_available_lines(r.packages@)
}

fn push_available(lines: &mut Vec<String>, p: &ProviderAvailableEntry)
    ensures
        text::texts(final(lines)@) =~= text::texts(old(lines)@) + available_entry_lines(*p),
{
    let status = if p.update_available {
        "update available"
    } else if p.installed {
        "installed"
    } else {
        "not installed"
    };
    let first = text::cat5(
        p.provider_id.as_str(),
        " (",
        p.package.as_str(),
        ", latest ",
        p.latest_version.as_str(),
    );
    print::add_line(lines, text::cat4(first.as_str(), ", ", status, ")").as_str());
    report::say_if(lines, "    Installed version: ", &p.installed_version);
    report::say_if(lines, "    ", &p.description);
}

pub fn available_text(r: &ProviderAvailableReport) -> (lines: Vec<String>)
    ensures
        text::texts(lines@) == available_lines(*r),
{
    let mut lines = print::no_lines();
    print::add_line(&mut lines, "Installable providers");
    report::say(&mut lines, "  Registry: ", r.registry.as_str());
    report::say(&mut lines, "  Scope: @", r.scope.as_str());
    print::add_line(&mut lines, "");
    let ghost head = text::texts(lines@);
    let ghost all = r.packages@;
    let n: usize = r.packages.len();
    let mut i: usize = 0;
    assert(head + all_available_lines(all.take(0)) =~= head);
    while i < n
        invariant
            n == r.packages.len(),
            all == r.packages@,
            i <= n,
            text::texts(lines@) == head + all_available_lines(all.take(i as int)),
        decreases n - i,
    {
        let ghost more = all.take(i + 1);
        assert(more.drop_last() =~= all.take(i as int));
        push_available(&mut lines, &r.packages[i]);
        assert(text::texts(lines@) =~= head + all_available_lines(more));
        i = i + 1;
    }
    assert(all.take(n as int) =~= all);
    assert(text::texts(lines@) =~= available_lines(*r));
    lines
}

/// A package that is meant by `value`: its identifier, or the name of the package that it
/// was installed from, in full or without its scope.
pub open spec fn meant_by(p: InstalledView, value: Seq<char>) -> bool {
    let v = text::trimmed(value);
    ||| v == p.manifest.id
    ||| text::after_last(v, '/') == p.manifest.id
    ||| match p.source_package() {
        Some(package) => package == v || package == npm::canonical(v) || text::after_last(
            package,
            '/',
        ) == v,
        None => false,
    }
}

pub fn provider_matches_name_or_package(p: &InstalledProvider, value: &str) -> (r: bool)
    ensures
        r == meant_by(p@, value@),
{
    let v = text::trim(value);
    if text::same(v.as_str(), p.id()) || text::same(
        npm::provider_id_from_package_name(v.as_str()).as_str(),
        p.id(),
    ) {
        return true;
    }
    let canonical = npm::canonical_provider_package_name(v.as_str());
    match p.source_package() {
        Some(package) => {
            text::same(package.as_str(), v.as_str()) || text::same(
                package.as_str(),
                canonical.as_str(),
            ) || text::same(
                npm::provider_id_from_package_name(package.as_str()).as_str(),
                v.as_str(),
            )
        },
        None => false,
    }
}

/// The first package that is meant by `value`.
pub open spec fn first_meant(v: Seq<InstalledView>, value: Seq<char>) -> Option<InstalledView>
    decreases v.len(),
{
    if v.len() == 0 {
        None
    } else if meant_by(v[0], value) {
        Some(v[0])
    } else {
        first_meant(v.subrange(1, v.len() as int), value)
    }
}

fn find_meant(installed: &Vec<InstalledProvider>, value: &str) -> (r: Option<InstalledProvider>)
    ensures
        profile::installed_of(r) == first_meant(provider::installed_views(installed@), value@),
{
    let ghost all = provider::installed_views(installed@);
    let n: usize = installed.len();
    let mut i: usize = 0;
    assert(all.subrange(0, n as int) =~= all);
    while i < n
        invariant
            n == installed.len(),
            all == provider::installed_views(installed@),
            i <= n,
            first_meant(all, value@) == first_meant(all.subrange(i as int, n as int), value@),
        decreases n - i,
    {
        let ghost rest = all.subrange(i as int, n as int);
        assert(rest[0] == installed@[i as int]@);
        if provider_matches_name_or_package(&installed[i], value) {
            return Some(installed[i].copied());
        }
        assert(rest.subrange(1, rest.len() as int) =~= all.subrange(i + 1, n as int));
        i = i + 1;
    }
    None
}

/// The packages that an update is for: the one that is named, else all of them.
pub open spec fn update_targets(v: Seq<InstalledView>, target: Option<Seq<char>>) -> Result<
    Seq<InstalledView>,
    Seq<char>,
> {
    match text::filled(target) {
        Some(name) => match first_meant(v, name) {
            Some(p) => Ok(seq![p]),
            None => Err("installed provider '"@ + name + "' was not found"@),
        },
        None => Ok(v),
    }
}

pub fn provider_update_targets(
    installed: &Vec<InstalledProvider>,
    target: &Option<String>,
) -> (r: Result<Vec<InstalledProvider>, String>)
    ensures
        match (r, update_targets(provider::installed_views(installed@), text::text_of(*target))) {
            (Ok(v), Ok(s)) => provider::installed_views(v@) == s,
            (Err(e), Err(s)) => e@ == s,
            _ => false,
        },
{
    if let Some(name) = text::non_empty(target) {
        return match find_meant(installed, name.as_str()) {
            Some(p) => {
                let mut v: Vec<InstalledProvider> = Vec::new();
                v.push(p);
                assert(provider::installed_views(v@) =~= seq![p@]);
                Ok(v)
            },
            None => Err(text::cat3("installed provider '", name.as_str(), "' was not found")),
        };
    }
    let ghost all = provider::installed_views(installed@);
    let mut v: Vec<InstalledProvider> = Vec::new();
    let n: usize = installed.len();
    let mut i: usize = 0;
    assert(provider::installed_views(v@) =~= all.take(0));
    while i < n
        invariant
            n == installed.len(),
            all == provider::installed_views(installed@),
            i <= n,
            provider::installed_views(v@) == all.take(i as int),
        decreases n - i,
    {
        let ghost before = provider::installed_views(v@);
        v.push(installed[i].copied());
        assert(provider::installed_views(v@) =~= before.push(all[i as int]));
        assert(all.take(i + 1) =~= all.take(i as int).push(all[i as int]));
        i = i + 1;
    }
    assert(all.take(n as int) =~= all);
    Ok(v)
}

/// The package of a registry that a provider is updated from.
pub open spec fn update_package(p: InstalledView) -> Option<Seq<char>> {
    match p.install_metadata {
        Some(m) => if m.source == ProviderInstallSourceKind::Npm {
            match m.package {
                Some(package) => Some(package),
                None => Some("@dicta-asr/"@ + p.manifest.id),
            }
        } else {
            None
        },
        None => Some("@dicta-asr/"@ + p.manifest.id),
    }
}

pub fn provider_update_package(p: &InstalledProvider) -> (r: Option<String>)
    ensures
        text::text_of(r) == update_package(p@),
{
    match &p.install_metadata {
        Some(m) => {
            if m.source == ProviderInstallSourceKind::Npm {
                match &m.package {
                    Some(package) => Some(text::copy(package.as_str())),
                    None => Some(text::cat("@dicta-asr/", p.id())),
                }
            } else {
                None
            }
        },
        None => Some(text::cat("@dicta-asr/", p.id())),
    }
}

#[derive(Debug, Clone, PartialEq, Eq)]
pub struct ProviderUpdateEntry {
    pub id: String,
    pub package: Option<String>,
    pub previous_version: Option<String>,
    pub latest_version: Option<String>,
    pub changed: bool,
    pub skipped: bool,
    pub install_path: Option<String>,
    pub message: String,
}

#[verifier::ext_equal]
pub struct UpdateView {
    pub id: Seq<char>,
    pub package: Option<Seq<char>>,
    pub previous_version: Option<Seq<char>>,
    pub latest_version: Option<Seq<char>>,
    pub changed: bool,
    pub skipped: bool,
    pub install_path: Option<Seq<char>>,
    pub message: Seq<char>,
}

impl View for ProviderUpdateEntry {
    type V = UpdateView;

    open spec fn view(&self) -> UpdateView {
        UpdateView {
            id: self.id@,
            package: text::text_of(self.package),
            previous_version: text::text_of(self.previous_version),
            latest_version: text::text_of(self.latest_version),
            changed: self.changed,
            skipped: self.skipped,
            install_path: text::text_of(self.install_path),
            message: self.message@,
        }
    }
}

/// How the update of a provider begins.
#[derive(Debug, Clone, PartialEq, Eq)]
pub enum UpdateStart {
    Skip(ProviderUpdateEntry),
    /// Ask a registry for the version of a package.
    Check { package: String, registry: String },
}

pub fn start_update(p: &InstalledProvider, registry: &str) -> (r: UpdateStart)
    ensures
        match update_package(p@) {
            None => r matches UpdateStart::Skip(e) && e@ == (UpdateView {
                id: p@.manifest.id,
                package: None,
                previous_version: p@.manifest.version,
                latest_version: None,
                changed: false,
                skipped: true,
                install_path: Some(p@.shown_root),
                message:
                    "provider was installed from a local path; no npm package metadata is available"@,
            }),
            Some(name) => r matches UpdateStart::Check { package, registry: own } && package@
                == name && own@ == match p@.install_metadata {
                Some(profile::InstallMetadataView { registry: Some(noted), .. }) => noted,
                _ => npm::registry_base(registry@),
            },
        },
{
    match provider_update_package(p) {
        None => UpdateStart::Skip(
            ProviderUpdateEntry {
                id: text::copy(p.id()),
                package: None,
                previous_version: text::copy_opt(&p.manifest.version),
                latest_version: None,
                changed: false,
                skipped: true,
                install_path: Some(text::copy(p.shown_root.as_str())),
                message: text::copy(
                    "provider was installed from a local path; no npm package metadata is available",
                ),
            },
        ),
        Some(package) => {
            let noted = match &p.install_metadata {
                Some(m) => text::copy_opt(&m.registry),
                None => None,
            };
            let own = match noted {
                Some(r) => r,
                None => npm::normal_registry(registry),
            };
            UpdateStart::Check { package, registry: own }
        },
    }
}

/// What is reported of a provider that is up to date; nothing, where it is to be installed.
pub fn up_to_date(p: &InstalledProvider, package: &str, latest: &str, force: bool) -> (r: Option<
    ProviderUpdateEntry,
>)
    ensures
        if !force && p@.manifest.version == Some(latest@) {
            r is Some && r->0@ == (UpdateView {
                id: p@.manifest.id,
                package: Some(package@),
                previous_version: p@.manifest.version,
                latest_version: Some(latest@),
                changed: false,
                skipped: true,
                install_path: Some(p@.shown_root),
                message: "already up to date"@,
            })
        } else {
            r is None
        },
{
    let current = match &p.manifest.version {
        Some(v) => text::same(v.as_str(), latest),
        None => false,
    };
    if force || !current {
        return None;
    }
    Some(
        ProviderUpdateEntry {
            id: text::copy(p.id()),
            package: Some(text::copy(package)),
            previous_version: text::copy_opt(&p.manifest.version),
            latest_version: Some(text::copy(latest)),
            changed: false,
            skipped: true,
            install_path: Some(text::copy(p.shown_root.as_str())),
            message: text::copy("already up to date"),
        },
    )
}

/// What is reported of a provider that was installed anew.
pub fn updated(previous: &InstalledProvider, installed: ProviderInstallReport) -> (r:
    ProviderUpdateEntry)
    ensures
        r@ == (UpdateView {
            id: installed.id@,
            package: text::text_of(installed.source_package),
            previous_version: previous@.manifest.version,
            latest_version: text::text_of(installed.version),
            changed: true,
            skipped: false,
            install_path: Some(installed.install_path@),
            message: "updated"@,
        }),
{
    ProviderUpdateEntry {
        id: installed.id,
        package: installed.source_package,
        previous_version: text::copy_opt(&previous.manifest.version),
        latest_version: installed.version,
        changed: true,
        skipped: false,
        install_path: Some(installed.install_path),
        message: text::copy("updated"),
    }
}

pub open spec fn update_entry_lines(p: ProviderUpdateEntry) -> Seq<Seq<char>> {
    let marker = if p.changed {
        "updated"@
    } else if p.skipped {
        "skipped"@
    } else {
        "checked"@
    };
    seq!["  "@ + p.id@ + ": "@ + marker] + report::said_if("    Package: "@, text::text_of(p.package))
        + report::said_if("    Previous: "@, text::text_of(p.previous_version)) + report::said_if(
        "    Latest: "@,
        text::text_of(p.latest_version),
    ) + report::said("    "@, p.message@)
}

pub open spec fn all_update_lines(v: Seq<ProviderUpdateEntry>) -> Seq<Seq<char>>
    decreases v.len(),
{
    if v.len() == 0 {
        Seq::<Seq<char>>::empty()
    } else {
        all_update_lines(v.drop_last()) + update_entry_lines(v.last())
    }
}

fn push_update(lines: &mut Vec<String>, p: &ProviderUpdateEntry)
    ensures
        text::texts(final(lines)@) =~= text::texts(old(lines)@) + update_entry_lines(*p),
{
    let marker = if p.changed {
        "updated"
    } else if p.skipped {
        "skipped"
    } else {
        "checked"
    };
    print::add_line(lines, text::cat4("  ", p.id.as_str(), ": ", marker).as_str());
    report::say_if(lines, "    Package: ", &p.package);
    report::say_if(lines, "    Previous: ", &p.previous_version);
    report::say_if(lines, "    Latest: ", &p.latest_version);
    report::say(lines, "    ", p.message.as_str());
}

pub fn update_text(registry: &str, entries: &Vec<ProviderUpdateEntry>) -> (lines: Vec<String>)
    ensures
        text::texts(lines@) == seq!["Provider updates"@] + report::said("  Registry: "@, registry@)
            + all_update_lines(entries@),
{
    let mut lines = print::no_lines();
    print::add_line(&mut lines, "Provider updates");
    report::say(&mut lines, "  Registry: ", registry);
    let ghost head = text::texts(lines@);
    assert(head =~= seq!["Provider updates"@] + report::said("  Registry: "@, registry@));
    let ghost all = entries@;
    let n: usize = entries.len();
    let mut i: usize = 0;
    assert(head + all_update_lines(all.take(0)) =~= head);
    while i < n
        invariant
            n == entries.len(),
            all == entries@,
            i <= n,
            text::texts(lines@) == head + all_update_lines(all.take(i as int)),
        decreases n - i,
    {
        let ghost more = all.take(i + 1);
        assert(more.drop_last() =~= all.take(i as int));
        push_update(&mut lines, &entries[i]);
        assert(text::texts(lines@) =~= head + all_update_lines(more));
        i = i + 1;
    }
    assert(all.take(n as int) =~= all);
    lines
}

/// The installed provider that is to be removed.
pub fn removal_target(installed: &Vec<InstalledProvider>, name: &str) -> (r: Result<
    InstalledProvider,
    String,
>)
    ensures
        match first_meant(provider::installed_views(installed@), name@) {
            Some(p) => r is Ok && r->Ok_0@ == p,
            None => r is Err && r->Err_0@ == "installed provider '"@ + text::trimmed(name@)
                + "' was not found"@,
        },
{
    match find_meant(installed, name) {
        Some(p) => Ok(p),
        None => Err(
            text::cat3("installed provider '", text::trim(name).as_str(), "' was not found"),
        ),
    }
}

/// Whether the active provider is the one that was removed.
pub fn clears_active(p: &InstalledProvider, active: &Option<String>) -> (r: bool)
    ensures
        r == (text::text_of(*active) == Some(p@.manifest.id)),
{
    match active {
        Some(name) => text::same(name.as_str(), p.id()),
        None => false,
    }
}

pub fn removal_text(p: &InstalledProvider, cleared: bool) -> (lines: Vec<String>)
    ensures
        text::texts(lines@) == seq![
            "Removed provider: "@ + p@.manifest.id,
            "  Path: "@ + p@.shown_root,
        ] + if cleared {
            seq!["  Active provider selection was cleared"@]
        } else {
            Seq::<Seq<char>>::empty()
        },
{
    let mut lines = print::no_lines();
    report::say(&mut lines, "Removed provider: ", p.id());
    report::say(&mut lines, "  Path: ", p.shown_root.as_str());
    if cleared {
        print::add_line(&mut lines, "  Active provider selection was cleared");
    }
    assert(text::texts(lines@) =~= seq![
        "Removed provider: "@ + p@.manifest.id,
        "  Path: "@ + p@.shown_root,
    ] + if cleared {
        seq!["  Active provider selection was cleared"@]
    } else {
        Seq::<Seq<char>>::empty()
    });
    lines
}

/// Whether an answer allows something to be removed.
pub fn is_uninstall_confirmation(input: &str) -> (r: bool)
    ensures
        r == {
            let word = text::lowered(text::trimmed(input@));
            word == "y"@ || word == "yes"@
        },
{
    let word = text::ascii_lowercase(text::trim(input).as_str());
    text::same(word.as_str(), "y") || text::same(word.as_str(), "yes")
}

/// The profiles that can be chosen, or why they are not known.
pub open spec fn profiles_view(r: Result<Vec<(String, ProviderProfile)>, String>) -> Result<
    Seq<(Seq<char>, ProfileView)>,
    Seq<char>,
> {
    match r {
        Ok(v) => Ok(table::entries(v@)),
        Err(e) => Err(e@),
    }
}

pub open spec fn unknown_provider(name: Seq<char>) -> Seq<char> {
    "provider '"@ + name + "' was not found; run `dicta provider list` to see available providers"@
}

/// What is wrong with making `name` the active provider, among those that can be chosen.
pub open spec fn choice_fault(
    name: Seq<char>,
    profiles: Result<Seq<(Seq<char>, ProfileView)>, Seq<char>>,
) -> Option<Seq<char>> {
    let wanted = text::trimmed(name);
    if wanted.len() == 0 || wanted == "active"@ {
        Some("provider name must be a concrete built-in or configured provider"@)
    } else {
        match profiles {
            Err(e) => Some(e),
            Ok(all) => if table::under_name(all, wanted) is None {
                Some(unknown_provider(wanted))
            } else {
                None
            },
        }
    }
}

/// The name of the provider that becomes the active one.
pub fn check_choice(
    name: &str,
    profiles: &Result<Vec<(String, ProviderProfile)>, String>,
) -> (r: Result<String, String>)
    ensures
        match choice_fault(name@, profiles_view(*profiles)) {
            None => r is Ok && r->Ok_0@ == text::trimmed(name@),
            Some(m) => r is Err && r->Err_0@ == m,
        },
{
    let wanted = text::trim(name);
    if wanted.as_str().is_empty() || text::same(wanted.as_str(), "active") {
        return Err(
            text::copy("provider name must be a concrete built-in or configured provider"),
        );
    }
    match profiles {
        Err(e) => Err(text::copy(e.as_str())),
        Ok(all) => {
            if table::find(all, wanted.as_str()).is_none() {
                return Err(
                    text::cat3(
                        "provider '",
                        wanted.as_str(),
                        "' was not found; run `dicta provider list` to see available providers",
                    ),
                );
            }
            Ok(wanted)
        },
    }
}

/// A provider that is made active can be chosen.
pub proof fn law_active_provider_is_known(
    name: Seq<char>,
    profiles: Result<Seq<(Seq<char>, ProfileView)>, Seq<char>>,
)
    requires
        choice_fault(name, profiles) is None,
    ensures
        profiles is Ok,
        table::under_name(profiles->Ok_0, text::trimmed(name)) is Some,
{
}

/// A manifest that is simple, speaks the protocol and names a relative command that is there
/// is accepted.
pub proof fn law_simple_manifest_is_accepted(
    m: ManifestView,
    command_is_file: bool,
    shown_command: Seq<char>,
)
    ensures
        manifest_fault(m, command_is_file, shown_command) is None <==> {
            &&& text::trimmed(m.id).len() > 0
            &&& !m.id.contains('/')
            &&& !m.id.contains('\\')
            &&& m.id != "."@
            &&& m.protocol == "dicta-provider-jsonl-v1"@
            &&& m.command.root.len() > 0 || m.command.names.len() > 0
            &&& !m.command.absolute()
            &&& command_is_file
        },
{
}

/// An installed provider is meant by its identifier, by the name of the package that it came
/// from, and by that name without its scope.
pub proof fn law_provider_is_meant_by_its_names(p: InstalledView, value: Seq<char>)
    ensures
        text::trimmed(value) == p.manifest.id ==> meant_by(p, value),
        (p.install_metadata matches Some(m) && m.package matches Some(package) && (text::trimmed(
            value,
        ) == package || npm::canonical(text::trimmed(value)) == package || text::trimmed(value)
            == text::after_last(package, '/'))) ==> meant_by(p, value),
        meant_by(p, value) && p.install_metadata is None ==> text::trimmed(value) == p.manifest.id
            || text::after_last(text::trimmed(value), '/') == p.manifest.id,
{
}

proof fn lemma_first_meant(v: Seq<InstalledView>, value: Seq<char>)
    ensures
        forall|i: int|
            0 <= i < v.len() && meant_by(#[trigger] v[i], value) && (forall|j: int|
                0 <= j < i ==> !meant_by(#[trigger] v[j], value)) ==> first_meant(v, value) == Some(
                v[i],
            ),
        (forall|j: int| 0 <= j < v.len() ==> !meant_by(#[trigger] v[j], value)) ==> first_meant(
            v,
            value,
        ) is None,
    decreases v.len(),
{
    if v.len() > 0 && !meant_by(v[0], value) {
        let rest = v.subrange(1, v.len() as int);
        lemma_first_meant(rest, value);
        assert forall|i: int|
            0 <= i < v.len() && meant_by(#[trigger] v[i], value) && (forall|j: int|
                0 <= j < i ==> !meant_by(#[trigger] v[j], value)) implies first_meant(v, value)
            == Some(v[i]) by {
            assert(rest[i - 1] == v[i]);
            assert forall|j: int| 0 <= j < i - 1 implies !meant_by(#[trigger] rest[j], value) by {
                assert(rest[j] == v[j + 1]);
            }
        }
        if forall|j: int| 0 <= j < v.len() ==> !meant_by(#[trigger] v[j], value) {
            assert forall|j: int| 0 <= j < rest.len() implies !meant_by(#[trigger] rest[j], value) by {
                assert(rest[j] == v[j + 1]);
            }
        }
    }
}

/// An update without a target is for every provider that is installed, one with a target for
/// the first that it means, and one that means none fails.
pub proof fn law_update_is_for_the_one_meant(v: Seq<InstalledView>, target: Seq<char>, i: int)
    ensures
        update_targets(v, None) == Ok::<Seq<InstalledView>, Seq<char>>(v),
        text::trimmed(target).len() == 0 ==> update_targets(v, Some(target)) == Ok::<
            Seq<InstalledView>,
            Seq<char>,
        >(v),
        text::trimmed(target).len() > 0 && 0 <= i < v.len() && meant_by(v[i], text::trimmed(target))
            && (forall|j: int| 0 <= j < i ==> !meant_by(#[trigger] v[j], text::trimmed(target)))
            ==> update_targets(v, Some(target)) == Ok::<Seq<InstalledView>, Seq<char>>(seq![v[i]]),
        text::trimmed(target).len() > 0 && (forall|j: int|
            0 <= j < v.len() ==> !meant_by(#[trigger] v[j], text::trimmed(target)))
            ==> update_targets(v, Some(target)) is Err,
{
    lemma_first_meant(v, text::trimmed(target));
}

/// Only what came from a directory or a file of one's own has no package to be updated from;
/// a package that is not noted is the one of the project's scope.
pub proof fn law_update_package_is_where_it_came_from(p: InstalledView)
    ensures
        update_package(p) is None <==> (p.install_metadata matches Some(m) && m.source
            != ProviderInstallSourceKind::Npm),
        (p.install_metadata matches Some(m) && m.source == ProviderInstallSourceKind::Npm
            && m.package is Some) ==> update_package(p) == p.install_metadata->0.package,
        p.install_metadata is None ==> update_package(p) == Some("@dicta-asr/"@ + p.manifest.id),
        (p.install_metadata matches Some(m) && m.source == ProviderInstallSourceKind::Npm
            && m.package is None) ==> update_package(p) == Some("@dicta-asr/"@ + p.manifest.id),
{
}

/// An update is on offer just for what is installed in a version that is known and differs.
pub proof fn law_update_is_offered_for_another_version(
    e: ProviderAvailableEntry,
    package: SummaryView,
    installed: Seq<InstalledView>,
    i: int,
)
    requires
        e.tells(package, installed),
        0 <= i < installed.len(),
        installed[i].manifest.id == text::after_last(package.name, '/'),
        forall|j: int|
            0 <= j < i ==> (#[trigger] installed[j]).manifest.id != text::after_last(
                package.name,
                '/',
            ),
    ensures
        e.installed,
        text::text_of(e.installed_version) == installed[i].manifest.version,
        e.update_available <==> (installed[i].manifest.version matches Some(v) && v
            != package.version),
        e.latest_version@ == package.version,
{
    provider::lemma_package_named(installed, text::after_last(package.name, '/'));
}

/// What is not installed is offered as such, and without an update.
pub proof fn law_nothing_installed_is_updated(
    e: ProviderAvailableEntry,
    package: SummaryView,
    installed: Seq<InstalledView>,
)
    requires
        e.tells(package, installed),
        forall|j: int|
            0 <= j < installed.len() ==> (#[trigger] installed[j]).manifest.id != text::after_last(
                package.name,
                '/',
            ),
    ensures
        !e.installed,
        !e.update_available,
        e.installed_version is None,
{
    provider::lemma_package_named(installed, text::after_last(package.name, '/'));
}

/// Any provider that is known can be made the active one, by its name.
pub proof fn law_known_provider_can_be_active(
    name: Seq<char>,
    profiles: Result<Seq<(Seq<char>, ProfileView)>, Seq<char>>,
)
    ensures
        choice_fault(name, profiles) is None <==> text::trimmed(name).len() > 0 && text::trimmed(
            name,
        ) != "active"@ && profiles is Ok && table::under_name(
            profiles->Ok_0,
            text::trimmed(name),
        ) is Some,
{
}

} // verus!
