//! Bringing installed providers up to date.
//!
//! One provider after the other is looked up in the registry and installed anew where
//! it changed. The caller asks the registry and installs.
use crate::cli::npm;
use crate::cli::packages;
use crate::cli::packages::{ProviderInstallReport, ProviderUpdateEntry, UpdateStart};
#[allow(unused_imports)]
use crate::cli::packages::UpdateView;
use crate::cli::profile;
use crate::cli::profile::InstalledProvider;
#[allow(unused_imports)]
use crate::cli::profile::InstalledView;
use crate::cli::provider;
use crate::text;
use vstd::prelude::*;

verus! {

/// What is to be found out or done next.
#[derive(Debug, Clone, PartialEq, Eq)]
pub enum UpdateAsk {
    /// Which version of a package a registry has.
    Version { package: String, registry: String },
    /// Install a package, in the place of the one that is there.
    Install { package: String, registry: String },
    Done,
}

pub enum UpdateAskView {
    Version { package: Seq<char>, registry: Seq<char> },
    Install { package: Seq<char>, registry: Seq<char> },
    Done,
}

impl View for UpdateAsk {
    type V = UpdateAskView;

    open spec fn view(&self) -> UpdateAskView {
        match self {
            UpdateAsk::Version { package, registry } => UpdateAskView::Version {
                package: package@,
                registry: registry@,
            },
            UpdateAsk::Install { package, registry } => UpdateAskView::Install {
                package: package@,
                registry: registry@,
            },
            UpdateAsk::Done => UpdateAskView::Done,
        }
    }
}

/// The providers to update, and what came of those before `at`.
#[derive(Debug, Clone, PartialEq, Eq)]
pub struct ProviderUpdates {
    pub targets: Vec<InstalledProvider>,
    pub at: usize,
    /// The registry for those that name none.
    pub registry: String,
    /// Whether to install also what is up to date.
    pub force: bool,
    pub entries: Vec<ProviderUpdateEntry>,
}

#[verifier::ext_equal]
pub struct UpdatesView {
    pub targets: Seq<InstalledView>,
    pub at: nat,
    pub registry: Seq<char>,
    pub force: bool,
    pub entries: Seq<UpdateView>,
}

pub open spec fn entry_views(v: Seq<ProviderUpdateEntry>) -> Seq<UpdateView> {
    v.map_values(|e: ProviderUpdateEntry| e@)
}

impl View for ProviderUpdates {
    type V = UpdatesView;

    open spec fn view(&self) -> UpdatesView {
        UpdatesView {
            targets: provider::installed_views(self.targets@),
            at: self.at as nat,
            registry: self.registry@,
            force: self.force,
            entries: entry_views(self.entries@),
        }
    }
}

/// The registry that a provider is updated from: its own, where it names one.
pub open spec fn registry_for(p: InstalledView, registry: Seq<char>) -> Seq<char> {
    match p.install_metadata {
        Some(profile::InstallMetadataView { registry: Some(own), .. }) => own,
        _ => npm::registry_base(registry),
    }
}

/// What is said of a provider that came from a local path.
pub open spec fn local_entry(p: InstalledView) -> UpdateView {
    UpdateView {
        id: p.manifest.id,
        package: None,
        previous_version: p.manifest.version,
        latest_version: None,
        changed: false,
        skipped: true,
        install_path: Some(p.shown_root),
        message: "provider was installed from a local path; no npm package metadata is available"@,
    }
}

/// What is said of a provider that is up to date.
pub open spec fn current_entry(p: InstalledView, package: Seq<char>, latest: Seq<char>) -> UpdateView {
    UpdateView {
        id: p.manifest.id,
        package: Some(package),
        previous_version: p.manifest.version,
        latest_version: Some(latest),
        changed: false,
        skipped: true,
        install_path: Some(p.shown_root),
        message: "already up to date"@,
    }
}

/// What is said of a provider that was installed anew.
pub open spec fn changed_entry(p: InstalledView, r: ProviderInstallReport) -> UpdateView {
    UpdateView {
        id: r.id@,
        package: text::text_of(r.source_package),
        previous_version: p.manifest.version,
        latest_version: text::text_of(r.version),
        changed: true,
        skipped: false,
        install_path: Some(r.install_path@),
        message: "updated"@,
    }
}

impl UpdatesView {
    /// The provider in hand is dealt with.
    pub open spec fn with_entry(self, entry: UpdateView) -> UpdatesView {
        UpdatesView { at: self.at + 1, entries: self.entries.push(entry), ..self }
    }

    /// There is one entry for each provider before the one in hand.
    pub open spec fn well_formed(self) -> bool {
        self.at <= self.targets.len() && self.entries.len() == self.at
    }
}

/// The next provider that has a package in a registry is looked up; those from a local
/// path are passed over.
pub open spec fn seek(s: UpdatesView) -> (UpdatesView, UpdateAskView)
    decreases s.targets.len() - s.at,
{
    if s.at >= s.targets.len() {
        (s, UpdateAskView::Done)
    } else {
        let p = s.targets[s.at as int];
        match packages::update_package(p) {
            None => seek(s.with_entry(local_entry(p))),
            Some(package) => (
                s,
                UpdateAskView::Version { package, registry: registry_for(p, s.registry) },
            ),
        }
    }
}

/// What follows from the version that the registry has.
pub open spec fn after_version(s: UpdatesView, latest: Seq<char>) -> (UpdatesView, UpdateAskView) {
    if s.at >= s.targets.len() {
        (s, UpdateAskView::Done)
    } else {
        let p = s.targets[s.at as int];
        match packages::update_package(p) {
            None => seek(s),
            Some(package) => if !s.force && p.manifest.version == Some(latest) {
                seek(s.with_entry(current_entry(p, package, latest)))
            } else {
                (s, UpdateAskView::Install { package, registry: registry_for(p, s.registry) })
            },
        }
    }
}

/// What follows from an installation.
pub open spec fn after_install(s: UpdatesView, r: ProviderInstallReport) -> (
    UpdatesView,
    UpdateAskView,
) {
    if s.at >= s.targets.len() {
        (s, UpdateAskView::Done)
    } else {
        seek(s.with_entry(changed_entry(s.targets[s.at as int], r)))
    }
}

impl ProviderUpdates {
    /// Starts to update the provider that is meant, or all.
    pub fn new(
        installed: &Vec<InstalledProvider>,
        target: &Option<String>,
        registry: &str,
        force: bool,
    ) -> (r: Result<(ProviderUpdates, UpdateAsk), String>)
        ensures
            match (
                r,
                packages::update_targets(
                    provider::installed_views(installed@),
                    text::text_of(*target),
                ),
            ) {
                (Ok((s, ask)), Ok(targets)) => (s@, ask@) == seek(
                    UpdatesView {
                        targets,
                        at: 0,
                        registry: registry@,
                        force,
                        entries: Seq::empty(),
                    },
                ),
                (Err(e), Err(m)) => e@ == m,
                _ => false,
            },
    {
        match packages::provider_update_targets(installed, target) {
            Err(e) => Err(e),
            Ok(targets) => {
                let mut s = ProviderUpdates {
                    targets,
                    at: 0,
                    registry: text::copy(registry),
                    force,
                    entries: Vec::new(),
                };
                assert(s@ =~= UpdatesView {
                    targets: provider::installed_views(targets@),
                    at: 0,
                    registry: registry@,
                    force,
                    entries: Seq::empty(),
                });
                let ask = s.seek_next();
                Ok((s, ask))
            },
        }
    }

    fn settle(&mut self, entry: ProviderUpdateEntry)
        requires
            old(self).at < old(self).targets.len(),
        ensures
            final(self)@ == old(self)@.with_entry(entry@),
            final(self).targets@ == old(self).targets@,
    {
        let ghost before = entry_views(self.entries@);
        self.entries.push(entry);
        self.at = self.at + 1;
        assert(entry_views(self.entries@) =~= before.push(entry@));
    }

    fn seek_next(&mut self) -> (r: UpdateAsk)
        ensures
            (final(self)@, r@) == seek(old(self)@),
    {
        let ghost start = self@;
        while self.at < self.targets.len()
            invariant
                start == old(self)@,
                seek(self@) == seek(start),
            decreases self.targets.len() - self.at,
        {
            let at = self.at;
            assert(self@.targets[at as int] == self.targets@[at as int]@);
            match packages::start_update(&self.targets[at], self.registry.as_str()) {
                UpdateStart::Skip(entry) => {
                    assert(entry@ == local_entry(self@.targets[at as int]));
                    self.settle(entry);
                },
                UpdateStart::Check { package, registry } => {
                    return UpdateAsk::Version { package, registry };
                },
            }
        }
        UpdateAsk::Done
    }

    /// Takes the version of the package that was looked up.
    pub fn on_version(&mut self, latest: &str) -> (r: UpdateAsk)
        ensures
            (final(self)@, r@) == after_version(old(self)@, latest@),
    {
        let at = self.at;
        if at >= self.targets.len() {
            return UpdateAsk::Done;
        }
        assert(self@.targets[at as int] == self.targets@[at as int]@);
        match packages::start_update(&self.targets[at], self.registry.as_str()) {
            UpdateStart::Skip(_) => self.seek_next(),
            UpdateStart::Check { package, registry } => match packages::up_to_date(
                &self.targets[at],
                package.as_str(),
                latest,
                self.force,
            ) {
                Some(entry) => {
                    assert(entry@ == current_entry(
                        self@.targets[at as int],
                        package@,
                        latest@,
                    ));
                    self.settle(entry);
                    self.seek_next()
                },
                None => UpdateAsk::Install { package, registry },
            },
        }
    }

    /// Takes the report of an installation.
    pub fn on_installed(&mut self, report: ProviderInstallReport) -> (r: UpdateAsk)
        ensures
            (final(self)@, r@) == after_install(old(self)@, report),
    {
        let at = self.at;
        if at >= self.targets.len() {
            return UpdateAsk::Done;
        }
        assert(self@.targets[at as int] == self.targets@[at as int]@);
        let entry = packages::updated(&self.targets[at], report);
        self.settle(entry);
        self.seek_next()
    }
}

proof fn lemma_seek_settles(s: UpdatesView)
    requires
        s.well_formed(),
    ensures
        seek(s).0.well_formed(),
        seek(s).0.targets == s.targets,
        seek(s).0.at >= s.at,
        seek(s).1 is Done <==> seek(s).0.at == s.targets.len(),
    decreases s.targets.len() - s.at,
{
    if s.at < s.targets.len() {
        let p = s.targets[s.at as int];
        if packages::update_package(p) is None {
            lemma_seek_settles(s.with_entry(local_entry(p)));
        }
    }
}

/// Each provider gets one entry, in order, and the update is done when each has one.
pub proof fn law_one_entry_each(s: UpdatesView, latest: Seq<char>, r: ProviderInstallReport)
    requires
        s.well_formed(),
    ensures
        seek(s).0.well_formed(),
        after_version(s, latest).0.well_formed(),
        after_install(s, r).0.well_formed(),
        seek(s).1 is Done <==> seek(s).0.at == s.targets.len(),
        after_version(s, latest).1 is Done <==> after_version(s, latest).0.at == s.targets.len(),
        after_install(s, r).1 is Done <==> after_install(s, r).0.at == s.targets.len(),
        s.at < s.targets.len() ==> after_install(s, r).0.at > s.at,
{
    lemma_seek_settles(s);
    if s.at < s.targets.len() {
        let p = s.targets[s.at as int];
        lemma_seek_settles(s.with_entry(changed_entry(p, r)));
        if let Some(package) = packages::update_package(p) {
            lemma_seek_settles(s.with_entry(current_entry(p, package, latest)));
        }
    }
}

/// What is up to date is not installed again unless it is forced, and what came from a
/// local path is never looked up nor installed.
pub proof fn law_only_changed_packages_are_installed(s: UpdatesView, latest: Seq<char>)
    ensures
        after_version(s, latest).1 is Install ==> {
            let p = s.targets[s.at as int];
            &&& s.at < s.targets.len()
            &&& packages::update_package(p) == Some(after_version(s, latest).1->Install_package)
            &&& s.force || p.manifest.version != Some(latest)
        },
        seek(s).1 matches UpdateAskView::Version { package, .. } ==> {
            let t = seek(s).0;
            t.at < t.targets.len() && packages::update_package(t.targets[t.at as int]) == Some(
                package,
            )
        },
    decreases s.targets.len() - s.at,
{
    lemma_seek_never_installs(s);
    if s.at < s.targets.len() {
        let p = s.targets[s.at as int];
        match packages::update_package(p) {
            None => {
                law_only_changed_packages_are_installed(s.with_entry(local_entry(p)), latest);
            },
            Some(package) => {
                lemma_seek_never_installs(s.with_entry(current_entry(p, package, latest)));
            },
        }
    }
}

proof fn lemma_seek_never_installs(s: UpdatesView)
    ensures
        !(seek(s).1 is Install),
    decreases s.targets.len() - s.at,
{
    if s.at < s.targets.len() {
        let p = s.targets[s.at as int];
        if packages::update_package(p) is None {
            lemma_seek_never_installs(s.with_entry(local_entry(p)));
        }
    }
}

proof fn lemma_seek_keeps(s: UpdatesView)
    requires
        s.well_formed(),
    ensures
        ({
            let t = seek(s).0;
            &&& t.targets == s.targets && t.force == s.force && t.registry == s.registry
            &&& s.at <= t.at <= s.targets.len()
            &&& t.entries.len() == t.at
            &&& forall|i: int| 0 <= i < s.at ==> #[trigger] t.entries[i] == s.entries[i]
            &&& forall|i: int|
                s.at <= i < t.at ==> (#[trigger] t.entries[i]).id == s.targets[i].manifest.id
                    && !t.entries[i].changed && t.entries[i].skipped && t.entries[i].package is None
                    && packages::update_package(s.targets[i]) is None
        }),
    decreases s.targets.len() - s.at,
{
    if s.at < s.targets.len() {
        let p = s.targets[s.at as int];
        if packages::update_package(p) is None {
            let u = s.with_entry(local_entry(p));
            lemma_seek_keeps(u);
            let t = seek(u).0;
            assert(t.entries[s.at as int] == u.entries[s.at as int]);
            assert forall|i: int| 0 <= i < s.at implies #[trigger] t.entries[i] == s.entries[i] by {
                assert(t.entries[i] == u.entries[i]);
            }
        }
    }
}

/// Entries that were made stay, in the order of the packages, and what is passed over on the
/// way to the next question are the packages that no registry knows, each skipped under its
/// own name.
pub proof fn law_passed_over_packages_are_local(s: UpdatesView)
    requires
        s.well_formed(),
    ensures
        ({
            let t = seek(s).0;
            &&& t.targets == s.targets && t.force == s.force && t.registry == s.registry
            &&& forall|i: int| 0 <= i < s.at ==> #[trigger] t.entries[i] == s.entries[i]
            &&& forall|i: int|
                s.at <= i < t.at ==> (#[trigger] t.entries[i]).id == s.targets[i].manifest.id
                    && !t.entries[i].changed && t.entries[i].skipped && t.entries[i].package is None
                    && packages::update_package(s.targets[i]) is None
        }),
{
    lemma_seek_keeps(s);
}

/// A package in its latest version is skipped and said to be so, unless it is to be installed
/// in any case; the entry names the package and the version.
pub proof fn law_current_package_is_skipped(s: UpdatesView, latest: Seq<char>)
    requires
        s.well_formed(),
        s.at < s.targets.len(),
        packages::update_package(s.targets[s.at as int]) is Some,
        !s.force,
        s.targets[s.at as int].manifest.version == Some(latest),
    ensures
        ({
            let t = after_version(s, latest).0;
            let p = s.targets[s.at as int];
            &&& t.at > s.at
            &&& t.entries[s.at as int].id == p.manifest.id
            &&& t.entries[s.at as int].package == packages::update_package(p)
            &&& t.entries[s.at as int].latest_version == Some(latest)
            &&& t.entries[s.at as int].previous_version == Some(latest)
            &&& t.entries[s.at as int].skipped
            &&& !t.entries[s.at as int].changed
            &&& forall|i: int| 0 <= i < s.at ==> #[trigger] t.entries[i] == s.entries[i]
            &&& !(after_version(s, latest).1 is Install)
        }),
{
    let p = s.targets[s.at as int];
    let u = s.with_entry(current_entry(p, packages::update_package(p)->0, latest));
    lemma_seek_keeps(u);
    lemma_seek_never_installs(u);
    let t = seek(u).0;
    assert(t.entries[s.at as int] == u.entries[s.at as int]);
    assert forall|i: int| 0 <= i < s.at implies #[trigger] t.entries[i] == s.entries[i] by {
        assert(t.entries[i] == u.entries[i]);
    }
}

/// A package in another version, or one that is to be installed in any case, is installed
/// from the registry that it came from.
pub proof fn law_outdated_package_is_installed(s: UpdatesView, latest: Seq<char>)
    requires
        s.at < s.targets.len(),
        packages::update_package(s.targets[s.at as int]) is Some,
        s.force || s.targets[s.at as int].manifest.version != Some(latest),
    ensures
        after_version(s, latest).0 == s,
        after_version(s, latest).1 == (UpdateAskView::Install {
            package: packages::update_package(s.targets[s.at as int])->0,
            registry: registry_for(s.targets[s.at as int], s.registry),
        }),
        (s.targets[s.at as int].install_metadata matches Some(m) && m.registry is Some)
            ==> registry_for(s.targets[s.at as int], s.registry) == s.targets[s.at as int]
            .install_metadata->0.registry->0,
        !(s.targets[s.at as int].install_metadata matches Some(m) && m.registry is Some)
            ==> registry_for(s.targets[s.at as int], s.registry) == npm::registry_base(s.registry),
{
}

/// An installation is told as a change from the version that was there to the one that is.
pub proof fn law_installation_is_a_change(s: UpdatesView, r: ProviderInstallReport)
    requires
        s.well_formed(),
        s.at < s.targets.len(),
    ensures
        ({
            let t = after_install(s, r).0;
            let e = t.entries[s.at as int];
            &&& t.at > s.at
            &&& e.id == r.id@
            &&& e.previous_version == s.targets[s.at as int].manifest.version
            &&& e.latest_version == text::text_of(r.version)
            &&& e.changed
            &&& !e.skipped
            &&& forall|i: int| 0 <= i < s.at ==> #[trigger] t.entries[i] == s.entries[i]
        }),
{
    let u = s.with_entry(changed_entry(s.targets[s.at as int], r));
    lemma_seek_keeps(u);
    let t = seek(u).0;
    assert(t.entries[s.at as int] == u.entries[s.at as int]);
    assert forall|i: int| 0 <= i < s.at implies #[trigger] t.entries[i] == s.entries[i] by {
        assert(t.entries[i] == u.entries[i]);
    }
}

} // verus!
