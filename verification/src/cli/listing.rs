//! The providers that can be chosen, and the one that is.
#[allow(unused_imports)]
use crate::cli::args::Choice;
use crate::cli::args::{AsrBackend, Cli};
use crate::cli::profile;
use crate::cli::profile::{InstalledProvider, ProviderProfile};
#[allow(unused_imports)]
use crate::cli::profile::{InstalledView, ProfileView};
use crate::cli::provider;
use crate::cli::provider::{ProviderConfig, Surroundings};
#[allow(unused_imports)]
use crate::cli::provider::EffectiveView;
use crate::cli::report;
use crate::cli::report::CapabilitiesReport;
use crate::table;
use crate::text;
use vstd::prelude::*;
use vstd::string::*;

verus! {

/// The profiles so far, with those of the packages put under their identifiers.
pub open spec fn with_packages(
    all: Seq<(Seq<char>, ProfileView)>,
    packages: Seq<InstalledView>,
) -> Seq<(Seq<char>, ProfileView)>
    decreases packages.len(),
{
    if packages.len() == 0 {
        all
    } else {
        let p = packages.last();
        table::put(with_packages(all, packages.drop_last()), p.manifest.id, p.profile())
    }
}

/// The profiles so far, with those of a configuration put under their names.
pub open spec fn with_entries(
    all: Seq<(Seq<char>, ProfileView)>,
    entries: Seq<(Seq<char>, ProfileView)>,
) -> Seq<(Seq<char>, ProfileView)>
    decreases entries.len(),
{
    if entries.len() == 0 {
        all
    } else {
        table::put(
            with_entries(all, entries.drop_last()),
            entries.last().0,
            entries.last().1,
        )
    }
}

pub open spec fn builtins() -> Seq<(Seq<char>, ProfileView)> {
    table::put(
        seq![("apple"@, profile::builtin("apple"@)->0)],
        "openai"@,
        profile::builtin("openai"@)->0,
    )
}

/// The profiles that can be chosen, by name. One of a package takes the place of one that
/// is built in, one of the configuration that of either.
pub open spec fn available(w: Surroundings) -> Result<Seq<(Seq<char>, ProfileView)>, Seq<char>> {
    match w.installed {
        Err(e) => Err(e@),
        Ok(packages) => {
            let known = with_packages(builtins(), provider::installed_views(packages@));
            match w.config {
                ProviderConfig::Missing => Ok(known),
                ProviderConfig::Unreadable(path) => Err(
                    "failed to read provider config from "@ + path@,
                ),
                ProviderConfig::Unparsed(path) => Err(
                    "failed to parse provider config from "@ + path@,
                ),
                ProviderConfig::Profiles(_, entries) => Ok(
                    with_entries(known, table::entries(entries@)),
                ),
            }
        },
    }
}

fn push_packages(all: &mut Vec<(String, ProviderProfile)>, packages: &Vec<InstalledProvider>)
    ensures
        table::entries(final(all)@) == with_packages(
            table::entries(old(all)@),
            provider::installed_views(packages@),
        ),
{
    let ghost start = table::entries(all@);
    let ghost views = provider::installed_views(packages@);
    let n: usize = packages.len();
    let mut i: usize = 0;
    while i < n
        invariant
            n == packages.len(),
            views == provider::installed_views(packages@),
            start == table::entries(old(all)@),
            i <= n,
            table::entries(all@) == with_packages(start, views.take(i as int)),
        decreases n - i,
    {
        let ghost more = views.take(i + 1);
        assert(more.drop_last() =~= views.take(i as int));
        assert(more.last() == packages@[i as int]@);
        let p = &packages[i];
        table::put_entry(all, text::copy(p.id()), p.profile());
        i = i + 1;
    }
    assert(views.take(n as int) =~= views);
}

fn push_entries(
    all: &mut Vec<(String, ProviderProfile)>,
    entries: &Vec<(String, ProviderProfile)>,
)
    ensures
        table::entries(final(all)@) == with_entries(
            table::entries(old(all)@),
            table::entries(entries@),
        ),
{
    let ghost start = table::entries(all@);
    let ghost views = table::entries(entries@);
    let n: usize = entries.len();
    let mut i: usize = 0;
    while i < n
        invariant
            n == entries.len(),
            views == table::entries(entries@),
            start == table::entries(old(all)@),
            i <= n,
            table::entries(all@) == with_entries(start, views.take(i as int)),
        decreases n - i,
    {
        let ghost more = views.take(i + 1);
        assert(more.drop_last() =~= views.take(i as int));
        assert(more.last() == (entries@[i as int].0@, entries@[i as int].1@));
        table::put_entry(all, text::copy(entries[i].0.as_str()), entries[i].1.copied());
        i = i + 1;
    }
    assert(views.take(n as int) =~= views);
}

pub fn available_provider_profiles(w: &Surroundings) -> (r: Result<
    Vec<(String, ProviderProfile)>,
    String,
>)
    ensures
        match (r, available(*w)) {
            (Ok(v), Ok(s)) => table::entries(v@) == s,
            (Err(e), Err(s)) => e@ == s,
            _ => false,
        },
{
    let mut all: Vec<(String, ProviderProfile)> = Vec::new();
    if let Some(p) = profile::builtin_provider_profile("apple") {
        all.push((text::copy("apple"), p));
        assert(table::entries(all@) =~= seq![("apple"@, profile::builtin("apple"@)->0)]);
    }
    if let Some(p) = profile::builtin_provider_profile("openai") {
        table::put_entry(&mut all, text::copy("openai"), p);
    }
    assert(table::entries(all@) == builtins()) by {
        assert(profile::builtin("apple"@) is Some);
        assert(profile::builtin("openai"@) is Some);
    }
    match &w.installed {
        Err(e) => {
            return Err(text::copy(e.as_str()));
        },
        Ok(packages) => {
            push_packages(&mut all, packages);
        },
    }
    match &w.config {
        ProviderConfig::Missing => {},
        ProviderConfig::Unreadable(path) => {
            return Err(text::cat("failed to read provider config from ", path.as_str()));
        },
        ProviderConfig::Unparsed(path) => {
            return Err(text::cat("failed to parse provider config from ", path.as_str()));
        },
        ProviderConfig::Profiles(_, entries) => {
            push_entries(&mut all, entries);
        },
    }
    Ok(all)
}

proof fn lemma_packages_ordered(all: Seq<(Seq<char>, ProfileView)>, packages: Seq<InstalledView>)
    requires
        table::ordered(all),
    ensures
        table::ordered(with_packages(all, packages)),
    decreases packages.len(),
{
    if packages.len() > 0 {
        lemma_packages_ordered(all, packages.drop_last());
        table::law_put_keeps_order(
            with_packages(all, packages.drop_last()),
            packages.last().manifest.id,
            packages.last().profile(),
        );
    }
}

proof fn lemma_entries_ordered(
    all: Seq<(Seq<char>, ProfileView)>,
    entries: Seq<(Seq<char>, ProfileView)>,
)
    requires
        table::ordered(all),
    ensures
        table::ordered(with_entries(all, entries)),
    decreases entries.len(),
{
    if entries.len() > 0 {
        lemma_entries_ordered(all, entries.drop_last());
        table::law_put_keeps_order(
            with_entries(all, entries.drop_last()),
            entries.last().0,
            entries.last().1,
        );
    }
}

/// The providers are listed in the order of their names, and each of them once.
pub proof fn law_providers_listed_once(w: Surroundings)
    requires
        available(w) is Ok,
    ensures
        table::ordered(available(w)->Ok_0),
{
    let first = seq![("apple"@, profile::builtin("apple"@)->0)];
    assert(table::ordered(first));
    table::law_put_keeps_order(first, "openai"@, profile::builtin("openai"@)->0);
    if let Ok(packages) = w.installed {
        let views = provider::installed_views(packages@);
        lemma_packages_ordered(builtins(), views);
        if let ProviderConfig::Profiles(_, entries) = w.config {
            lemma_entries_ordered(with_packages(builtins(), views), table::entries(entries@));
        }
    }
}

#[derive(Debug, Clone, PartialEq, Eq)]
pub struct ProviderListEntry {
    pub name: String,
    pub kind: String,
    pub built_in: bool,
    pub installed: bool,
    pub install_path: Option<String>,
    pub installed_version: Option<String>,
    pub source_package: Option<String>,
    pub selected: bool,
    pub model: String,
    pub batch_file: bool,
    pub live: bool,
    pub local_config_ok: bool,
    pub local_config_error: Option<String>,
    pub notes: Vec<String>,
}

impl ProviderListEntry {
    pub open spec fn tells(
        self,
        cli: Choice,
        w: Surroundings,
        name: Seq<char>,
        p: ProfileView,
        current: Option<Seq<char>>,
    ) -> bool {
        let e = provider::effective(cli.of_provider(name), w, true);
        let package = match e {
            Ok(e) => e.package(),
            Err(_) => None,
        };
        &&& self.name@ == name
        &&& self.kind@ == p.kind.label()
        &&& self.built_in == profile::builtin(name) is Some
        &&& self.installed == package is Some
        &&& text::text_of(self.install_path) == match package {
            Some(i) => Some(i.shown_root),
            None => None,
        }
        &&& text::text_of(self.installed_version) == match package {
            Some(i) => i.manifest.version,
            None => None,
        }
        &&& text::text_of(self.source_package) == match package {
            Some(i) => i.source_package(),
            None => None,
        }
        &&& self.selected == (current == Some(name))
        &&& self.model@ == report::reported_model(cli, e)
        &&& match e {
            Ok(e) => {
                &&& self.batch_file == e.ability.batch.batch_file
                &&& self.live == e.ability.live is Some
                &&& self.local_config_ok == e.config_error is None
                &&& text::text_of(self.local_config_error) == e.config_error
                &&& text::texts(self.notes@) == e.ability.notes
            },
            Err(fault) => {
                &&& !self.batch_file
                &&& !self.live
                &&& !self.local_config_ok
                &&& text::text_of(self.local_config_error) == Some(fault)
                &&& self.notes@.len() == 0
            },
        }
    }
}

fn list_entry(
    cli: &Cli,
    w: &Surroundings,
    name: &str,
    p: &ProviderProfile,
    current: &Option<String>,
) -> (r: ProviderListEntry)
    requires
        cli.asr != AsrBackend::External,
    ensures
        r.tells(cli.choice(), *w, name@, p@, text::text_of(*current)),
{
    let own = cli.with_provider_name(Some(text::copy(name)));
    assert(own.choice() =~= cli.choice().of_provider(name@));
    let told = report::gather_capabilities_report_with_support(&own, w);
    let package = match provider::effective_provider_for(&own, w, true) {
        Ok(e) => e.installed_provider(),
        Err(_) => None,
    };
    let selected = match current {
        Some(c) => text::same(c.as_str(), name),
        None => false,
    };
    let built_in = profile::builtin_provider_profile(name).is_some();
    let (install_path, installed_version, source_package) = match &package {
        Some(i) => (
            Some(text::copy(i.shown_root.as_str())),
            text::copy_opt(&i.manifest.version),
            i.source_package(),
        ),
        None => (None, None, None),
    };
    ProviderListEntry {
        name: text::copy(name),
        kind: text::copy(p.kind.as_str()),
        built_in,
        installed: package.is_some(),
        install_path,
        installed_version,
        source_package,
        selected,
        model: told.model,
        batch_file: match &told.batch {
            Some(b) => b.batch_file,
            None => false,
        },
        live: told.live.is_some(),
        local_config_ok: told.local_config_ok,
        local_config_error: match told.local_config_error {
            Some(e) => Some(e),
            None => told.resolution_error,
        },
        notes: told.notes,
    }
}

#[derive(Debug, Clone, PartialEq, Eq)]
pub struct ProviderListReport {
    pub current: Option<String>,
    pub state_path: Option<String>,
    pub provider_config: Option<String>,
    pub providers: Vec<ProviderListEntry>,
}

impl ProviderListReport {
    pub open spec fn tells(
        self,
        cli: Choice,
        w: Surroundings,
        current: Option<Seq<char>>,
        all: Seq<(Seq<char>, ProfileView)>,
    ) -> bool {
        &&& text::text_of(self.current) == current
        &&& text::text_of(self.state_path) == text::text_of(w.state_path)
        &&& text::text_of(self.provider_config) == w.config.place()
        &&& self.providers@.len() == all.len()
        &&& forall|i: int|
            0 <= i < all.len() ==> (#[trigger] self.providers@[i]).tells(
                cli,
                w,
                all[i].0,
                all[i].1,
                current,
            )
    }
}

pub fn gather_provider_list_report(cli: &Cli, w: &Surroundings) -> (r: Result<
    ProviderListReport,
    String,
>)
    requires
        cli.asr != AsrBackend::External,
    ensures
        match provider::active_or_default(*w) {
            Err(e) => r is Err && r->Err_0@ == e,
            Ok(current) => match available(*w) {
                Err(e) => r is Err && r->Err_0@ == e,
                Ok(all) => r is Ok && r->Ok_0.tells(cli.choice(), *w, current, all),
            },
        },
{
    let current = match provider::active_or_default_provider_name(w) {
        Ok(c) => c,
        Err(e) => {
            return Err(e);
        },
    };
    let profiles = match available_provider_profiles(w) {
        Ok(p) => p,
        Err(e) => {
            return Err(e);
        },
    };
    let ghost all = table::entries(profiles@);
    let n: usize = profiles.len();
    let mut providers: Vec<ProviderListEntry> = Vec::new();
    let mut i: usize = 0;
    while i < n
        invariant
            n == profiles.len(),
            all == table::entries(profiles@),
            cli.asr != AsrBackend::External,
            i <= n,
            providers.len() == i,
            forall|k: int|
                0 <= k < i ==> (#[trigger] providers@[k]).tells(
                    cli.choice(),
                    *w,
                    all[k].0,
                    all[k].1,
                    text::text_of(current),
                ),
        decreases n - i,
    {
        providers.push(list_entry(cli, w, profiles[i].0.as_str(), &profiles[i].1, &current));
        i = i + 1;
    }
    Ok(
        ProviderListReport {
            current,
            state_path: text::copy_opt(&w.state_path),
            provider_config: w.config.path(),
            providers,
        },
    )
}

#[derive(Debug, Clone, PartialEq, Eq)]
pub struct CurrentProviderReport {
    pub provider: Option<String>,
    pub state_path: Option<String>,
    pub resolved: Option<String>,
    pub kind: Option<String>,
    pub model: Option<String>,
    pub live: bool,
    pub local_config_ok: bool,
    pub local_config_error: Option<String>,
    pub install_path: Option<String>,
}

impl CurrentProviderReport {
    pub open spec fn tells(self, cli: Choice, w: Surroundings, current: Option<Seq<char>>) -> bool {
        &&& text::text_of(self.provider) == current
        &&& text::text_of(self.state_path) == text::text_of(w.state_path)
        &&& match current {
            None => {
                &&& self.resolved is None
                &&& self.kind is None
                &&& self.model is None
                &&& !self.live
                &&& !self.local_config_ok
                &&& text::text_of(self.local_config_error) == Some(
                    "no active provider is set; run `dicta provider set <name>`"@,
                )
                &&& self.install_path is None
            },
            Some(name) => {
                let e = provider::effective(cli.of_provider(name), w, true);
                &&& text::text_of(self.model) == Some(report::reported_model(cli, e))
                &&& match e {
                    Ok(e) => {
                        &&& text::text_of(self.resolved) == Some(e.backend.label())
                        &&& text::text_of(self.kind) == e.profile_kind()
                        &&& self.live == e.ability.live is Some
                        &&& self.local_config_ok == e.config_error is None
                        &&& text::text_of(self.local_config_error) == e.config_error
                        &&& text::text_of(self.install_path) == match e.package() {
                            Some(i) => Some(i.shown_root),
                            None => None,
                        }
                    },
                    Err(fault) => {
                        &&& self.resolved is None
                        &&& self.kind is None
                        &&& !self.live
                        &&& !self.local_config_ok
                        &&& text::text_of(self.local_config_error) == Some(fault)
                        &&& self.install_path is None
                    },
                }
            },
        }
    }
}

pub fn gather_current_provider_report(cli: &Cli, w: &Surroundings) -> (r: Result<
    CurrentProviderReport,
    String,
>)
    requires
        cli.asr != AsrBackend::External,
    ensures
        match provider::active_or_default(*w) {
            Err(e) => r is Err && r->Err_0@ == e,
            Ok(current) => r is Ok && r->Ok_0.tells(cli.choice(), *w, current),
        },
{
    let current = match provider::active_or_default_provider_name(w) {
        Ok(c) => c,
        Err(e) => {
            return Err(e);
        },
    };
    let state_path = text::copy_opt(&w.state_path);
    let name = match current {
        Some(name) => name,
        None => {
            return Ok(
                CurrentProviderReport {
                    provider: None,
                    state_path,
                    resolved: None,
                    kind: None,
                    model: None,
                    live: false,
                    local_config_ok: false,
                    local_config_error: Some(
                        text::copy("no active provider is set; run `dicta provider set <name>`"),
                    ),
                    install_path: None,
                },
            );
        },
    };
    let own = cli.with_provider_name(Some(text::copy(name.as_str())));
    assert(own.choice() =~= cli.choice().of_provider(name@));
    let told = report::gather_capabilities_report_with_support(&own, w);
    let install_path = match provider::effective_provider_for(&own, w, true) {
        Ok(e) => match e.installed_provider() {
            Some(i) => Some(i.shown_root),
            None => None,
        },
        Err(_) => None,
    };
    Ok(
        CurrentProviderReport {
            provider: Some(name),
            state_path,
            resolved: told.resolved,
            kind: told.provider_kind,
            model: Some(told.model),
            live: told.live.is_some(),
            local_config_ok: told.local_config_ok,
            local_config_error: match told.local_config_error {
                Some(e) => Some(e),
                None => told.resolution_error,
            },
            install_path,
        },
    )
}

proof fn lemma_with_packages_ordered(all: Seq<(Seq<char>, ProfileView)>, more: Seq<InstalledView>)
    requires
        table::ordered(all),
    ensures
        table::ordered(with_packages(all, more)),
    decreases more.len(),
{
    if more.len() > 0 {
        lemma_with_packages_ordered(all, more.drop_last());
        table::law_put_keeps_order(
            with_packages(all, more.drop_last()),
            more.last().manifest.id,
            more.last().profile(),
        );
    }
}

proof fn lemma_with_packages_others(
    all: Seq<(Seq<char>, ProfileView)>,
    more: Seq<InstalledView>,
    name: Seq<char>,
)
    requires
        table::ordered(all),
    ensures
        (forall|j: int| 0 <= j < more.len() ==> (#[trigger] more[j]).manifest.id != name)
            ==> table::under_name(with_packages(all, more), name) == table::under_name(all, name),
        table::under_name(all, name) is Some ==> table::under_name(with_packages(all, more), name) is Some,
    decreases more.len(),
{
    if more.len() > 0 {
        let front = more.drop_last();
        let last = more.last();
        lemma_with_packages_others(all, front, name);
        lemma_with_packages_ordered(all, front);
        table::law_put_then_find(with_packages(all, front), last.manifest.id, last.profile(), name);
        if forall|j: int| 0 <= j < more.len() ==> (#[trigger] more[j]).manifest.id != name {
            assert(more[more.len() - 1].manifest.id != name);
            assert forall|j: int| 0 <= j < front.len() implies (#[trigger] front[j]).manifest.id != name by {
                assert(front[j] == more[j]);
            }
        }
    }
}

proof fn lemma_with_packages_last(all: Seq<(Seq<char>, ProfileView)>, more: Seq<InstalledView>, i: int)
    requires
        table::ordered(all),
        0 <= i < more.len(),
        forall|j: int| i < j < more.len() ==> (#[trigger] more[j]).manifest.id != more[i].manifest.id,
    ensures
        table::under_name(with_packages(all, more), more[i].manifest.id) == Some(more[i].profile()),
    decreases more.len(),
{
    let front = more.drop_last();
    let last = more.last();
    lemma_with_packages_ordered(all, front);
    table::law_put_then_find(with_packages(all, front), last.manifest.id, last.profile(), more[i].manifest.id);
    if i < more.len() - 1 {
        assert(more[more.len() - 1].manifest.id != more[i].manifest.id);
        assert(front[i] == more[i]);
        assert forall|j: int| i < j < front.len() implies (#[trigger] front[j]).manifest.id != front[i].manifest.id by {
            assert(front[j] == more[j]);
        }
        lemma_with_packages_last(all, front, i);
    }
}

proof fn lemma_with_entries_ordered(all: Seq<(Seq<char>, ProfileView)>, more: Seq<(Seq<char>, ProfileView)>)
    requires
        table::ordered(all),
    ensures
        table::ordered(with_entries(all, more)),
    decreases more.len(),
{
    if more.len() > 0 {
        lemma_with_entries_ordered(all, more.drop_last());
        table::law_put_keeps_order(
            with_entries(all, more.drop_last()),
            more.last().0,
            more.last().1,
        );
    }
}

proof fn lemma_with_entries_others(
    all: Seq<(Seq<char>, ProfileView)>,
    more: Seq<(Seq<char>, ProfileView)>,
    name: Seq<char>,
)
    requires
        table::ordered(all),
    ensures
        (forall|j: int| 0 <= j < more.len() ==> (#[trigger] more[j]).0 != name)
            ==> table::under_name(with_entries(all, more), name) == table::under_name(all, name),
        table::under_name(all, name) is Some ==> table::under_name(with_entries(all, more), name) is Some,
    decreases more.len(),
{
    if more.len() > 0 {
        let front = more.drop_last();
        let last = more.last();
        lemma_with_entries_others(all, front, name);
        lemma_with_entries_ordered(all, front);
        table::law_put_then_find(with_entries(all, front), last.0, last.1, name);
        if forall|j: int| 0 <= j < more.len() ==> (#[trigger] more[j]).0 != name {
            assert(more[more.len() - 1].0 != name);
            assert forall|j: int| 0 <= j < front.len() implies (#[trigger] front[j]).0 != name by {
                assert(front[j] == more[j]);
            }
        }
    }
}

proof fn lemma_with_entries_last(all: Seq<(Seq<char>, ProfileView)>, more: Seq<(Seq<char>, ProfileView)>, i: int)
    requires
        table::ordered(all),
        0 <= i < more.len(),
        forall|j: int| i < j < more.len() ==> (#[trigger] more[j]).0 != more[i].0,
    ensures
        table::under_name(with_entries(all, more), more[i].0) == Some(more[i].1),
    decreases more.len(),
{
    let front = more.drop_last();
    let last = more.last();
    lemma_with_entries_ordered(all, front);
    table::law_put_then_find(with_entries(all, front), last.0, last.1, more[i].0);
    if i < more.len() - 1 {
        assert(more[more.len() - 1].0 != more[i].0);
        assert(front[i] == more[i]);
        assert forall|j: int| i < j < front.len() implies (#[trigger] front[j]).0 != front[i].0 by {
            assert(front[j] == more[j]);
        }
        lemma_with_entries_last(all, front, i);
    }
}

proof fn lemma_builtins()
    ensures
        table::ordered(builtins()),
        table::under_name(builtins(), "apple"@) is Some,
        table::under_name(builtins(), "openai"@) is Some,
{
    let first = seq![("apple"@, profile::builtin("apple"@)->0)];
    assert(table::ordered(first));
    table::law_put_keeps_order(first, "openai"@, profile::builtin("openai"@)->0);
    assert("apple"@ != "openai"@) by {
        reveal_strlit("apple");
        reveal_strlit("openai");
        assert("apple"@.len() == 5 && "openai"@.len() == 6);
    }
    table::law_put_then_find(first, "openai"@, profile::builtin("openai"@)->0, "apple"@);
    assert(table::under_name(first, "apple"@) == Some(first[0].1));
}

/// The built-in providers are always listed.
pub proof fn law_built_in_providers_are_listed(w: Surroundings)
    requires
        available(w) is Ok,
    ensures
        table::under_name(available(w)->Ok_0, "apple"@) is Some,
        table::under_name(available(w)->Ok_0, "openai"@) is Some,
{
    lemma_builtins();
    let views = provider::installed_views(w.installed->Ok_0@);
    let known = with_packages(builtins(), views);
    lemma_with_packages_ordered(builtins(), views);
    lemma_with_packages_others(builtins(), views, "apple"@);
    lemma_with_packages_others(builtins(), views, "openai"@);
    if let ProviderConfig::Profiles(_, entries) = w.config {
        lemma_with_entries_others(known, table::entries(entries@), "apple"@);
        lemma_with_entries_others(known, table::entries(entries@), "openai"@);
    }
}

/// An entry of the configuration is listed under its name, before anything else of that name;
/// of several with one name the last counts.
pub proof fn law_configured_providers_are_listed(w: Surroundings, i: int)
    requires
        available(w) is Ok,
        w.config is Profiles,
        0 <= i < w.config->Profiles_1@.len(),
        forall|j: int|
            i < j < w.config->Profiles_1@.len() ==> (#[trigger] w.config->Profiles_1@[j]).0@
                != w.config->Profiles_1@[i].0@,
    ensures
        table::under_name(available(w)->Ok_0, w.config->Profiles_1@[i].0@) == Some(
            w.config->Profiles_1@[i].1@,
        ),
{
    lemma_builtins();
    let views = provider::installed_views(w.installed->Ok_0@);
    let known = with_packages(builtins(), views);
    lemma_with_packages_ordered(builtins(), views);
    let entries = w.config->Profiles_1@;
    let listed = table::entries(entries);
    assert(listed[i] == (entries[i].0@, entries[i].1@));
    assert forall|j: int| i < j < listed.len() implies (#[trigger] listed[j]).0 != listed[i].0 by {
        assert(listed[j].0 == entries[j].0@);
    }
    lemma_with_entries_last(known, listed, i);
}

/// An installed package is listed under its identifier where no entry of the configuration
/// has that name.
pub proof fn law_installed_providers_are_listed(w: Surroundings, i: int)
    requires
        available(w) is Ok,
        0 <= i < w.installed->Ok_0@.len(),
        forall|j: int|
            i < j < w.installed->Ok_0@.len() ==> (#[trigger] w.installed->Ok_0@[j]).manifest.id@
                != w.installed->Ok_0@[i].manifest.id@,
        w.config is Profiles ==> forall|j: int|
            0 <= j < w.config->Profiles_1@.len() ==> (#[trigger] w.config->Profiles_1@[j]).0@
                != w.installed->Ok_0@[i].manifest.id@,
    ensures
        table::under_name(available(w)->Ok_0, w.installed->Ok_0@[i].manifest.id@) == Some(
            w.installed->Ok_0@[i]@.profile(),
        ),
{
    lemma_builtins();
    let packages = w.installed->Ok_0@;
    let views = provider::installed_views(packages);
    let name = packages[i].manifest.id@;
    lemma_with_packages_ordered(builtins(), views);
    assert(views[i] == packages[i]@);
    assert forall|j: int| i < j < views.len() implies (#[trigger] views[j]).manifest.id
        != views[i].manifest.id by {
        assert(views[j] == packages[j]@);
    }
    lemma_with_packages_last(builtins(), views, i);
    let known = with_packages(builtins(), views);
    if let ProviderConfig::Profiles(_, entries) = w.config {
        let listed = table::entries(entries@);
        assert forall|j: int| 0 <= j < listed.len() implies (#[trigger] listed[j]).0 != name by {
            assert(listed[j].0 == entries@[j].0@);
        }
        lemma_with_entries_others(known, listed, name);
    }
}

} // verus!
