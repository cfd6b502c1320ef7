//! Fetching a provider package from a registry, step by step.
//!
//! A package may leave its files to other packages, one for each platform. Those are asked
//! for in the order of their names until one fits; where none does, the package itself is
//! taken, if it fits.
use crate::cli::npm;
use crate::cli::npm::{NpmPackageDist, NpmPackageMetadata, NpmPackageVersion};
#[allow(unused_imports)]
use crate::cli::npm::{PackageView, VersionView};
use crate::table;
use crate::text;
use vstd::prelude::*;
use vstd::string::*;

verus! {

/// What the registry is asked next, or what came of it.
#[derive(Debug, Clone, PartialEq, Eq)]
pub enum NpmAsk {
    /// What the registry knows of a package, at an address.
    Metadata { name: String, url: String },
    /// The package's file, at an address.
    Tarball { url: String },
    /// The file was fetched and is what was announced.
    Done { description: String, package_name: String, version: String },
    Failed(String),
}

pub enum AskView {
    Metadata { name: Seq<char>, url: Seq<char> },
    Tarball { url: Seq<char> },
    Done { description: Seq<char>, package_name: Seq<char>, version: Seq<char> },
    Failed(Seq<char>),
}

impl View for NpmAsk {
    type V = AskView;

    open spec fn view(&self) -> AskView {
        match self {
            NpmAsk::Metadata { name, url } => AskView::Metadata { name: name@, url: url@ },
            NpmAsk::Tarball { url } => AskView::Tarball { url: url@ },
            NpmAsk::Done { description, package_name, version } => AskView::Done {
                description: description@,
                package_name: package_name@,
                version: version@,
            },
            NpmAsk::Failed(e) => AskView::Failed(e@),
        }
    }
}

/// The package that was asked for.
#[derive(Debug, Clone, PartialEq, Eq)]
pub struct FoundPackage {
    pub name: String,
    pub version: String,
    pub package: NpmPackageVersion,
}

#[verifier::ext_equal]
pub struct FoundView {
    pub name: Seq<char>,
    pub version: Seq<char>,
    pub package: VersionView,
}

impl View for FoundPackage {
    type V = FoundView;

    open spec fn view(&self) -> FoundView {
        FoundView { name: self.name@, version: self.version@, package: self.package@ }
    }
}

#[derive(Debug, Clone, PartialEq, Eq)]
pub enum FetchStage {
    /// The package itself was asked for.
    Root,
    /// A package for a platform was asked for: the dependency at that place.
    Candidate { found: FoundPackage, at: usize },
    /// The package for this platform was asked for again.
    Platform { found: FoundPackage, version: String },
    /// A file was asked for.
    Tarball {
        description: String,
        package_name: String,
        version: String,
        integrity: Option<String>,
    },
    Over,
}

pub enum StageView {
    Root,
    Candidate { found: FoundView, at: nat },
    Platform { found: FoundView, version: Seq<char> },
    Tarball {
        description: Seq<char>,
        package_name: Seq<char>,
        version: Seq<char>,
        integrity: Option<Seq<char>>,
    },
    Over,
}

impl View for FetchStage {
    type V = StageView;

    open spec fn view(&self) -> StageView {
        match self {
            FetchStage::Root => StageView::Root,
            FetchStage::Candidate { found, at } => StageView::Candidate {
                found: found@,
                at: *at as nat,
            },
            FetchStage::Platform { found, version } => StageView::Platform {
                found: found@,
                version: version@,
            },
            FetchStage::Tarball { description, package_name, version, integrity } =>
                StageView::Tarball {
                description: description@,
                package_name: package_name@,
                version: version@,
                integrity: text::text_of(*integrity),
            },
            FetchStage::Over => StageView::Over,
        }
    }
}

impl FetchStage {
    /// A dependency that was asked for is one that there is.
    pub open spec fn well_formed(self) -> bool {
        self matches FetchStage::Candidate { found, at }
            ==> at < found.package.optional_dependencies.len()
    }
}

/// A fetch from a registry, for a platform.
#[derive(Debug, Clone, PartialEq, Eq)]
pub struct NpmFetch {
    pub registry: String,
    pub requested: String,
    pub os: String,
    pub cpu: String,
    pub stage: FetchStage,
}

#[verifier::ext_equal]
pub struct FetchView {
    pub registry: Seq<char>,
    pub requested: Seq<char>,
    pub os: Seq<char>,
    pub cpu: Seq<char>,
}

impl NpmFetch {
    /// What stays the same through a fetch.
    pub open spec fn plan(self) -> FetchView {
        FetchView {
            registry: self.registry@,
            requested: self.requested@,
            os: self.os@,
            cpu: self.cpu@,
        }
    }
}

/// Where the registry tells of a package.
pub open spec fn metadata_url(registry: Seq<char>, name: Seq<char>) -> Seq<char> {
    registry + "/"@ + npm::url_name(name)
}

/// Where a registry tells of the versions of a package: its name, and the address.
pub fn version_query(package_name: &str, registry: &str) -> (r: (String, String))
    ensures
        r.0@ == npm::canonical(package_name@),
        r.1@ == metadata_url(npm::registry_base(registry@), npm::canonical(package_name@)),
{
    let name = npm::canonical_provider_package_name(package_name);
    let base = npm::normal_registry(registry);
    let url = text::cat3(base.as_str(), "/", npm::npm_package_url_name(name.as_str()).as_str());
    (name, url)
}

/// The version that is meant, the latest one where none is asked for.
pub fn resolve_npm_package_version(
    metadata: &NpmPackageMetadata,
    requested: &Option<String>,
) -> (r: Result<String, String>)
    ensures
        npm::text_result(r) == npm::resolved_version(
            metadata@,
            match requested {
                Some(v) => v@,
                None => "latest"@,
            },
        ),
{
    match requested {
        Some(v) => npm::resolve_npm_version(metadata, v.as_str()),
        None => npm::resolve_npm_version(metadata, "latest"),
    }
}

pub open spec fn ask_metadata(f: FetchView, name: Seq<char>) -> AskView {
    AskView::Metadata { name, url: metadata_url(f.registry, name) }
}

pub open spec fn failed(message: Seq<char>) -> (StageView, AskView) {
    (StageView::Over, AskView::Failed(message))
}

pub open spec fn missing(name: Seq<char>, version: Seq<char>) -> Seq<char> {
    "npm package '"@ + name + "' metadata is missing version '"@ + version + "'"@
}

/// The package itself is taken, if it fits the platform.
pub open spec fn own_package(f: FetchView, found: FoundView) -> (StageView, AskView) {
    if npm::supports(found.package, f.os, f.cpu) {
        (
            StageView::Tarball {
                description: found.name + "@"@ + found.version,
                package_name: found.name,
                version: found.version,
                integrity: found.package.integrity,
            },
            AskView::Tarball { url: found.package.tarball },
        )
    } else {
        failed(
            "npm package '"@ + found.name + "@"@ + found.version
                + "' does not support this platform ("@ + f.os + " / "@ + f.cpu + ")"@,
        )
    }
}

/// The next package for a platform is asked for, from the dependency at `at` on.
pub open spec fn next_candidate(f: FetchView, found: FoundView, at: nat) -> (StageView, AskView)
    decreases found.package.optional_dependencies.len() - at,
{
    let deps = found.package.optional_dependencies;
    if at >= deps.len() {
        own_package(f, found)
    } else if npm::platform_package(found.name, deps[at as int].0) {
        (StageView::Candidate { found, at }, ask_metadata(f, deps[at as int].0))
    } else {
        next_candidate(f, found, at + 1)
    }
}

/// What follows from what the registry knows of a package.
pub open spec fn after_metadata(f: FetchView, stage: StageView, m: PackageView) -> (
    StageView,
    AskView,
) {
    match stage {
        StageView::Root => match npm::resolved_version(m, f.requested) {
            Err(e) => failed(e),
            Ok(version) => match table::under_name(m.versions, version) {
                None => failed(missing(m.name, version)),
                Some(package) => next_candidate(
                    f,
                    FoundView { name: m.name, version, package },
                    0,
                ),
            },
        },
        StageView::Candidate { found, at } => match npm::resolved_version(
            m,
            found.package.optional_dependencies[at as int].1,
        ) {
            Err(e) => failed(e),
            Ok(version) => match table::under_name(m.versions, version) {
                Some(package) => if npm::supports(package, f.os, f.cpu) {
                    (StageView::Platform { found, version }, ask_metadata(f, m.name))
                } else {
                    next_candidate(f, found, at + 1)
                },
                None => next_candidate(f, found, at + 1),
            },
        },
        StageView::Platform { found, version } => match npm::resolved_version(m, version) {
            Err(e) => failed(e),
            Ok(own) => match table::under_name(m.versions, own) {
                None => failed(missing(m.name, own)),
                Some(package) => (
                    StageView::Tarball {
                        description: found.name + "@"@ + found.version + " -> "@ + m.name + "@"@
                            + own,
                        package_name: found.name,
                        version: found.version,
                        integrity: package.integrity,
                    },
                    AskView::Tarball { url: package.tarball },
                ),
            },
        },
        _ => failed("no package was asked for"@),
    }
}

/// What follows from a file.
pub open spec fn after_data(stage: StageView, data: Seq<u8>) -> (StageView, AskView) {
    match stage {
        StageView::Tarball { description, package_name, version, integrity } => {
            let fault = match integrity {
                Some(i) => npm::integrity_fault(data, i),
                None => None,
            };
            match fault {
                Some(e) => failed(e),
                None => (StageView::Over, AskView::Done { description, package_name, version }),
            }
        },
        _ => failed("no file was asked for"@),
    }
}

impl NpmPackageVersion {
    pub fn copied(&self) -> (r: NpmPackageVersion)
        ensures
            r@ == self@,
    {
        let mut deps: Vec<(String, String)> = Vec::new();
        let ghost all = table::entries(self.optional_dependencies@);
        let n: usize = self.optional_dependencies.len();
        let mut i: usize = 0;
        assert(table::entries(deps@) =~= all.take(0));
        while i < n
            invariant
                n == self.optional_dependencies.len(),
                all == table::entries(self.optional_dependencies@),
                i <= n,
                table::entries(deps@) == all.take(i as int),
            decreases n - i,
        {
            let ghost before = table::entries(deps@);
            let d = &self.optional_dependencies[i];
            deps.push((text::copy(d.0.as_str()), text::copy(d.1.as_str())));
            assert(table::entries(deps@) =~= before.push(all[i as int]));
            assert(all.take(i + 1) =~= all.take(i as int).push(all[i as int]));
            i = i + 1;
        }
        assert(all.take(n as int) =~= all);
        NpmPackageVersion {
            os: text::copy_all(&self.os),
            cpu: text::copy_all(&self.cpu),
            optional_dependencies: deps,
            dist: NpmPackageDist {
                tarball: text::copy(self.dist.tarball.as_str()),
                integrity: text::copy_opt(&self.dist.integrity),
            },
        }
    }
}

fn missing_version(name: &str, version: &str) -> (r: String)
    ensures
        r@ == missing(name@, version@),
{
    text::cat5("npm package '", name, "' metadata is missing version '", version, "'")
}

impl NpmFetch {
    /// Starts a fetch: the package is asked for by its canonical name, its latest version
    /// unless another is requested.
    pub fn new(
        package_name: &str,
        requested: &Option<String>,
        registry: &str,
        os: &str,
        cpu: &str,
    ) -> (r: (NpmFetch, NpmAsk))
        ensures
            r.0.plan() == (FetchView {
                registry: npm::registry_base(registry@),
                requested: match requested {
                    Some(v) => v@,
                    None => "latest"@,
                },
                os: os@,
                cpu: cpu@,
            }),
            r.0.stage@ == StageView::Root,
            r.0.stage.well_formed(),
            r.1@ == ask_metadata(r.0.plan(), npm::canonical(package_name@)),
    {
        let fetch = NpmFetch {
            registry: npm::normal_registry(registry),
            requested: match requested {
                Some(v) => text::copy(v.as_str()),
                None => text::copy("latest"),
            },
            os: text::copy(os),
            cpu: text::copy(cpu),
            stage: FetchStage::Root,
        };
        let name = npm::canonical_provider_package_name(package_name);
        let ask = fetch.ask_for(name.as_str());
        (fetch, ask)
    }

    fn ask_for(&self, name: &str) -> (r: NpmAsk)
        ensures
            r@ == ask_metadata(self.plan(), name@),
    {
        NpmAsk::Metadata {
            name: text::copy(name),
            url: text::cat3(
                self.registry.as_str(),
                "/",
                npm::npm_package_url_name(name).as_str(),
            ),
        }
    }

    fn take_own(&self, found: FoundPackage) -> (r: (FetchStage, NpmAsk))
        ensures
            (r.0@, r.1@) == own_package(self.plan(), found@),
            r.0.well_formed(),
    {
        if npm::npm_package_version_matches_platform(
            &found.package,
            self.os.as_str(),
            self.cpu.as_str(),
        ) {
            let description = text::cat3(found.name.as_str(), "@", found.version.as_str());
            let url = text::copy(found.package.dist.tarball.as_str());
            (
                FetchStage::Tarball {
                    description,
                    package_name: found.name,
                    version: found.version,
                    integrity: found.package.dist.integrity,
                },
                NpmAsk::Tarball { url },
            )
        } else {
            let first = text::cat5(
                "npm package '",
                found.name.as_str(),
                "@",
                found.version.as_str(),
                "' does not support this platform (",
            );
            (
                FetchStage::Over,
                NpmAsk::Failed(
                    text::cat5(
                        first.as_str(),
                        self.os.as_str(),
                        " / ",
                        self.cpu.as_str(),
                        ")",
                    ),
                ),
            )
        }
    }

    fn take_next(&self, found: FoundPackage, from: usize) -> (r: (FetchStage, NpmAsk))
        ensures
            (r.0@, r.1@) == next_candidate(self.plan(), found@, from as nat),
            r.0.well_formed(),
    {
        let ghost deps = found@.package.optional_dependencies;
        let n: usize = found.package.optional_dependencies.len();
        let mut at: usize = from;
        while at < n
            invariant
                n == found.package.optional_dependencies.len(),
                deps == table::entries(found.package.optional_dependencies@),
                deps == found@.package.optional_dependencies,
                from <= at,
                from <= n ==> at <= n,
                next_candidate(self.plan(), found@, from as nat) == next_candidate(
                    self.plan(),
                    found@,
                    at as nat,
                ),
            decreases n - at,
        {
            assert(deps[at as int] == (
                found.package.optional_dependencies@[at as int].0@,
                found.package.optional_dependencies@[at as int].1@,
            ));
            if npm::is_probable_provider_platform_package(
                found.name.as_str(),
                found.package.optional_dependencies[at].0.as_str(),
            ) {
                let ask = self.ask_for(found.package.optional_dependencies[at].0.as_str());
                return (FetchStage::Candidate { found, at }, ask);
            }
            at = at + 1;
        }
        self.take_own(found)
    }

    /// Takes in what the registry knows of the package that was asked for.
    pub fn on_metadata(&mut self, metadata: &NpmPackageMetadata) -> (r: NpmAsk)
        requires
            old(self).stage.well_formed(),
        ensures
            final(self).stage.well_formed(),
            final(self).plan() == old(self).plan(),
            (final(self).stage@, r@) == after_metadata(
                old(self).plan(),
                old(self).stage@,
                metadata@,
            ),
    {
        let mut stage = FetchStage::Over;
        std::mem::swap(&mut stage, &mut self.stage);
        let (next, ask) = match stage {
            FetchStage::Root => {
                match npm::resolve_npm_version(metadata, self.requested.as_str()) {
                    Err(e) => (FetchStage::Over, NpmAsk::Failed(e)),
                    Ok(version) => match table::find(&metadata.versions, version.as_str()) {
                        None => (
                            FetchStage::Over,
                            NpmAsk::Failed(
                                missing_version(metadata.name.as_str(), version.as_str()),
                            ),
                        ),
                        Some(package) => {
                            let found = FoundPackage {
                                name: text::copy(metadata.name.as_str()),
                                version,
                                package: package.copied(),
                            };
                            assert(found@ =~= FoundView {
                                name: metadata@.name,
                                version: version@,
                                package: package@,
                            });
                            self.take_next(found, 0)
                        },
                    },
                }
            },
            FetchStage::Candidate { found, at } => {
                assert(found@.package.optional_dependencies[at as int] == (
                    found.package.optional_dependencies@[at as int].0@,
                    found.package.optional_dependencies@[at as int].1@,
                ));
                match npm::resolve_npm_version(
                    metadata,
                    found.package.optional_dependencies[at].1.as_str(),
                ) {
                    Err(e) => (FetchStage::Over, NpmAsk::Failed(e)),
                    Ok(version) => {
                        let fits = match table::find(&metadata.versions, version.as_str()) {
                            Some(package) => npm::npm_package_version_matches_platform(
                                package,
                                self.os.as_str(),
                                self.cpu.as_str(),
                            ),
                            None => false,
                        };
                        if fits {
                            let ask = self.ask_for(metadata.name.as_str());
                            (FetchStage::Platform { found, version }, ask)
                        } else {
                            self.take_next(found, at + 1)
                        }
                    },
                }
            },
            FetchStage::Platform { found, version } => {
                match npm::resolve_npm_version(metadata, version.as_str()) {
                    Err(e) => (FetchStage::Over, NpmAsk::Failed(e)),
                    Ok(own) => match table::find(&metadata.versions, own.as_str()) {
                        None => (
                            FetchStage::Over,
                            NpmAsk::Failed(missing_version(metadata.name.as_str(), own.as_str())),
                        ),
                        Some(package) => {
                            let first = text::cat4(
                                found.name.as_str(),
                                "@",
                                found.version.as_str(),
                                " -> ",
                            );
                            let description = text::cat4(
                                first.as_str(),
                                metadata.name.as_str(),
                                "@",
                                own.as_str(),
                            );
                            (
                                FetchStage::Tarball {
                                    description,
                                    package_name: found.name,
                                    version: found.version,
                                    integrity: text::copy_opt(&package.dist.integrity),
                                },
                                NpmAsk::Tarball { url: text::copy(package.dist.tarball.as_str()) },
                            )
                        },
                    },
                }
            },
            _ => (FetchStage::Over, NpmAsk::Failed(text::copy("no package was asked for"))),
        };
        self.stage = next;
        ask
    }

    /// Takes in the file that was asked for.
    pub fn on_data(&mut self, data: &Vec<u8>) -> (r: NpmAsk)
        ensures
            final(self).plan() == old(self).plan(),
            final(self).stage.well_formed(),
            (final(self).stage@, r@) == after_data(old(self).stage@, data@),
    {
        let mut stage = FetchStage::Over;
        std::mem::swap(&mut stage, &mut self.stage);
        match stage {
            FetchStage::Tarball { description, package_name, version, integrity } => {
                if let Some(i) = &integrity {
                    if let Err(e) = npm::verify_npm_integrity(data, i.as_str()) {
                        return NpmAsk::Failed(e);
                    }
                }
                NpmAsk::Done { description, package_name, version }
            },
            _ => NpmAsk::Failed(text::copy("no file was asked for")),
        }
    }
}

/// A file is only taken where it is what the registry announced.
pub proof fn law_only_announced_files(stage: StageView, data: Seq<u8>)
    requires
        after_data(stage, data).1 is Done,
        stage is Tarball,
        stage->integrity is Some,
    ensures
        text::starts(stage->integrity->0, "sha512-"@),
        npm::base64_bytes(
            stage->integrity->0.subrange(
                "sha512-"@.len() as int,
                stage->integrity->0.len() as int,
            ),
        ) == Some(npm::sha512_digest(data)),
{
}

proof fn lemma_candidates_move_on(f: FetchView, found: FoundView, at: nat)
    ensures
        match next_candidate(f, found, at).0 {
            StageView::Root => false,
            StageView::Platform { .. } => false,
            StageView::Candidate { found: held, at: now } => held == found && at <= now
                < found.package.optional_dependencies.len(),
            _ => true,
        },
    decreases found.package.optional_dependencies.len() - at,
{
    let deps = found.package.optional_dependencies;
    if at < deps.len() && !npm::platform_package(found.name, deps[at as int].0) {
        lemma_candidates_move_on(f, found, at + 1);
    }
}

/// How many answers a fetch can still need.
pub open spec fn answers_left(stage: StageView) -> int {
    match stage {
        StageView::Root => 0,
        StageView::Candidate { found, at } => found.package.optional_dependencies.len() - at + 2,
        StageView::Platform { .. } => 2,
        StageView::Tarball { .. } => 1,
        StageView::Over => 0,
    }
}

/// A fetch comes to an end: once the package itself is known, every answer brings it nearer.
pub proof fn law_fetch_ends(f: FetchView, stage: StageView, m: PackageView)
    requires
        !(stage is Root),
        stage matches StageView::Candidate { found, at }
            ==> at < found.package.optional_dependencies.len(),
    ensures
        answers_left(after_metadata(f, stage, m).0) < answers_left(stage) || after_metadata(
            f,
            stage,
            m,
        ).0 is Over,
        !(after_metadata(f, stage, m).0 is Root),
{
    if let StageView::Candidate { found, at } = stage {
        lemma_candidates_move_on(f, found, at + 1);
    }
}

/// A package for one platform is asked about in the order in which the package that was
/// asked for names them; where it names none, or none is left, its own file is taken if it
/// supports the platform, and the fetch fails if it does not.
pub proof fn law_candidates_in_order(f: FetchView, found: FoundView, at: nat)
    ensures
        ({
            let deps = found.package.optional_dependencies;
            &&& forall|i: int|
                at <= i < deps.len() && npm::platform_package(
                    found.name,
                    (#[trigger] deps[i]).0,
                ) && (forall|j: int|
                    at <= j < i ==> !npm::platform_package(found.name, (#[trigger] deps[j]).0))
                    ==> next_candidate(f, found, at) == (
                    StageView::Candidate { found, at: i as nat },
                    AskView::Metadata {
                        name: deps[i].0,
                        url: f.registry + "/"@ + npm::url_name(deps[i].0),
                    },
                )
            &&& (forall|j: int|
                at <= j < deps.len() ==> !npm::platform_package(found.name, (#[trigger] deps[j]).0))
                ==> if npm::supports(found.package, f.os, f.cpu) {
                &&& next_candidate(f, found, at).1 == (AskView::Tarball {
                    url: found.package.tarball,
                })
                &&& next_candidate(f, found, at).0 matches StageView::Tarball {
                    package_name,
                    version,
                    integrity,
                    ..
                }
                &&& package_name == found.name
                &&& version == found.version
                &&& integrity == found.package.integrity
            } else {
                next_candidate(f, found, at).1 is Failed
            }
        }),
    decreases found.package.optional_dependencies.len() - at,
{
    let deps = found.package.optional_dependencies;
    if at < deps.len() && !npm::platform_package(found.name, deps[at as int].0) {
        law_candidates_in_order(f, found, at + 1);
    }
}

/// What is reported as installed is the package that was asked for, in its own version, also
/// where the file comes from a package for one platform; the file is checked against what is
/// announced for that file.
pub proof fn law_platform_file_is_installed_as_its_root(
    f: FetchView,
    found: FoundView,
    version: Seq<char>,
    m: PackageView,
)
    ensures
        after_metadata(f, StageView::Platform { found, version }, m) matches (
            StageView::Tarball { package_name, version: shown, integrity, .. },
            ask,
        ) ==> {
            &&& package_name == found.name
            &&& shown == found.version
            &&& npm::resolved_version(m, version) matches Ok(own)
            &&& table::under_name(m.versions, own) matches Some(package)
            &&& integrity == package.integrity
            &&& ask == (AskView::Tarball { url: package.tarball })
        },
        after_metadata(f, StageView::Platform { found, version }, m).1 is Tarball || after_metadata(
            f,
            StageView::Platform { found, version },
            m,
        ).1 is Failed,
{
}

/// A package for one platform is taken just where it supports the platform.
pub proof fn law_supported_candidate_is_taken(
    f: FetchView,
    found: FoundView,
    at: nat,
    m: PackageView,
    version: Seq<char>,
    package: npm::VersionView,
)
    requires
        at < found.package.optional_dependencies.len(),
        npm::resolved_version(m, found.package.optional_dependencies[at as int].1) == Ok::<
            Seq<char>,
            Seq<char>,
        >(version),
        table::under_name(m.versions, version) == Some(package),
    ensures
        npm::supports(package, f.os, f.cpu) ==> after_metadata(
            f,
            StageView::Candidate { found, at },
            m,
        ).0 == (StageView::Platform { found, version }),
        !npm::supports(package, f.os, f.cpu) ==> after_metadata(
            f,
            StageView::Candidate { found, at },
            m,
        ) == next_candidate(f, found, at + 1),
{
}

/// A fetched file is done with under the name and the version that it was fetched for, and
/// only where it is sound.
pub proof fn law_sound_file_is_done(stage: StageView, data: Seq<u8>)
    requires
        stage is Tarball,
    ensures
        ({
            let sound = stage->integrity is None || npm::integrity_fault(data, stage->integrity->0)
                is None;
            &&& sound ==> after_data(stage, data).1 == (AskView::Done {
                description: stage->description,
                package_name: stage->package_name,
                version: stage->Tarball_version,
            })
            &&& !sound ==> after_data(stage, data).1 is Failed
        }),
{
}

} // verus!
