//! The providers that are installed.
//!
//! Each stands in a directory of its own, with a manifest. The caller reads the
//! directories; here the packages among them are checked and put in order.
use crate::cli::packages;
use crate::cli::profile::InstalledProvider;
#[allow(unused_imports)]
use crate::cli::profile::InstalledView;
use crate::cli::provider;
use crate::table;
use crate::text;
use vstd::prelude::*;

verus! {

/// What was found in the directory of the providers.
#[derive(Debug, Clone, PartialEq, Eq)]
pub enum FoundEntry {
    /// No directory, or one without a manifest.
    Other,
    /// It could not be read, for this reason.
    Broken(String),
    Package(InstalledProvider),
}

/// The packages in what was found, by their identifiers, or the first thing that is wrong.
/// Of two with the same identifier the later one counts.
pub open spec fn gathered(found: Seq<FoundEntry>) -> Result<
    Seq<(Seq<char>, InstalledView)>,
    Seq<char>,
>
    decreases found.len(),
{
    if found.len() == 0 {
        Ok(Seq::empty())
    } else {
        match gathered(found.drop_last()) {
            Err(e) => Err(e),
            Ok(all) => match found.last() {
                FoundEntry::Other => Ok(all),
                FoundEntry::Broken(e) => Err(e@),
                FoundEntry::Package(p) => match packages::manifest_fault(
                    p@.manifest,
                    p@.command_is_file,
                    p@.shown_command,
                ) {
                    Some(e) => Err(e),
                    None => Ok(table::put(all, p@.manifest.id, p@)),
                },
            },
        }
    }
}

/// What stands in a table, without the names.
pub open spec fn values(all: Seq<(Seq<char>, InstalledView)>) -> Seq<InstalledView> {
    all.map_values(|e: (Seq<char>, InstalledView)| e.1)
}

proof fn lemma_fault_stays(found: Seq<FoundEntry>, i: int)
    requires
        0 <= i <= found.len(),
        gathered(found.take(i)) is Err,
    ensures
        gathered(found) == gathered(found.take(i)),
    decreases found.len() - i,
{
    if i == found.len() {
        assert(found.take(i) =~= found);
    } else {
        assert(found.take(i + 1).drop_last() =~= found.take(i));
        lemma_fault_stays(found, i + 1);
    }
}

fn without_names(all: Vec<(String, InstalledProvider)>) -> (r: Vec<InstalledProvider>)
    ensures
        provider::installed_views(r@) == values(table::entries(all@)),
{
    let ghost expected = values(table::entries(all@));
    let mut r: Vec<InstalledProvider> = Vec::new();
    let n: usize = all.len();
    let mut i: usize = 0;
    assert(provider::installed_views(r@) =~= expected.take(0));
    while i < n
        invariant
            n == all.len(),
            expected == values(table::entries(all@)),
            i <= n,
            provider::installed_views(r@) == expected.take(i as int),
        decreases n - i,
    {
        let ghost before = provider::installed_views(r@);
        r.push(all[i].1.copied());
        assert(provider::installed_views(r@) =~= before.push(expected[i as int]));
        assert(expected.take(i + 1) =~= expected.take(i as int).push(expected[i as int]));
        i = i + 1;
    }
    assert(expected.take(n as int) =~= expected);
    r
}

/// The installed providers, in the order of their identifiers.
pub fn installed_providers(found: &Vec<FoundEntry>) -> (r: Result<Vec<InstalledProvider>, String>)
    ensures
        match (r, gathered(found@)) {
            (Ok(v), Ok(all)) => provider::installed_views(v@) == values(all),
            (Err(e), Err(m)) => e@ == m,
            _ => false,
        },
{
    let mut all: Vec<(String, InstalledProvider)> = Vec::new();
    let n: usize = found.len();
    let mut i: usize = 0;
    assert(found@.take(0) =~= Seq::empty());
    assert(table::entries(all@) =~= Seq::empty());
    while i < n
        invariant
            n == found.len(),
            i <= n,
            gathered(found@.take(i as int)) == Ok::<
                Seq<(Seq<char>, InstalledView)>,
                Seq<char>,
            >(table::entries(all@)),
        decreases n - i,
    {
        let ghost more = found@.take(i + 1);
        assert(more.drop_last() =~= found@.take(i as int));
        match &found[i] {
            FoundEntry::Other => {},
            FoundEntry::Broken(e) => {
                proof {
                    lemma_fault_stays(found@, i + 1);
                }
                return Err(text::copy(e.as_str()));
            },
            FoundEntry::Package(p) => {
                match packages::validate_provider_manifest(
                    &p.manifest,
                    p.command_is_file,
                    p.shown_command.as_str(),
                ) {
                    Ok(()) => {},
                    Err(e) => {
                        proof {
                            lemma_fault_stays(found@, i + 1);
                        }
                        return Err(e);
                    },
                }
                table::put_entry(&mut all, text::copy(p.id()), p.copied());
            },
        }
        i = i + 1;
    }
    assert(found@.take(n as int) =~= found@);
    Ok(without_names(all))
}

/// Each installed provider is listed once, by its identifier and in order, and its
/// manifest is in order.
pub proof fn law_installed_once(found: Seq<FoundEntry>)
    ensures
        gathered(found) matches Ok(all) ==> {
            &&& table::ordered(all)
            &&& forall|i: int|
                #![trigger all[i]]
                0 <= i < all.len() ==> all[i].0 == all[i].1.manifest.id
                    && packages::manifest_fault(
                    all[i].1.manifest,
                    all[i].1.command_is_file,
                    all[i].1.shown_command,
                ) is None
        },
    decreases found.len(),
{
    if found.len() > 0 {
        law_installed_once(found.drop_last());
        if let Ok(all) = gathered(found.drop_last()) {
            if let FoundEntry::Package(p) = found.last() {
                if gathered(found) is Ok {
                    let after = gathered(found)->Ok_0;
                    table::law_put_keeps_order(all, p@.manifest.id, p@);
                    table::lemma_put_entries(all, p@.manifest.id, p@);
                    assert forall|i: int| #![trigger after[i]] 0 <= i < after.len() implies after[i].0
                        == after[i].1.manifest.id && packages::manifest_fault(
                        after[i].1.manifest,
                        after[i].1.command_is_file,
                        after[i].1.shown_command,
                    ) is None by {
                        if after[i] != (p@.manifest.id, p@) {
                            let k = choose|k: int| 0 <= k < all.len() && after[i] == #[trigger] all[k];
                            assert(all[k].0 == all[k].1.manifest.id);
                        }
                    }
                }
            }
        }
    }
}

/// Of packages with the same identifier the one found last is installed, and no identifier
/// is lost; a package that is broken or unfit lets the whole reading fail.
pub proof fn law_last_found_package_is_installed(found: Seq<FoundEntry>, i: int)
    requires
        0 <= i < found.len(),
    ensures
        found[i] is Broken ==> gathered(found) is Err,
        found[i] matches FoundEntry::Package(p) ==> {
            &&& packages::manifest_fault(p@.manifest, p@.command_is_file, p@.shown_command) is Some
                ==> gathered(found) is Err
            &&& gathered(found) is Ok && (forall|j: int|
                i < j < found.len() ==> !((#[trigger] found[j]) matches FoundEntry::Package(q)
                    && q@.manifest.id == p@.manifest.id)) ==> table::under_name(
                gathered(found)->Ok_0,
                p@.manifest.id,
            ) == Some(p@)
        },
    decreases found.len(),
{
    let n = found.len() - 1;
    let front = found.drop_last();
    law_installed_once(front);
    assert(found.last() == found[n]);
    if i < n {
        assert(front[i] == found[i]);
        law_last_found_package_is_installed(front, i);
        if gathered(found) is Ok {
            let all = gathered(front)->Ok_0;
            if let FoundEntry::Package(p) = found[i] {
                if forall|j: int|
                    i < j < found.len() ==> !((#[trigger] found[j]) matches FoundEntry::Package(q)
                        && q@.manifest.id == p@.manifest.id) {
                    assert forall|j: int| i < j < front.len() implies !(
                    (#[trigger] front[j]) matches FoundEntry::Package(q) && q@.manifest.id
                        == p@.manifest.id) by {
                        assert(front[j] == found[j]);
                    }
                    if let FoundEntry::Package(q) = found[n] {
                        assert(q@.manifest.id != p@.manifest.id);
                        table::law_put_then_find(all, q@.manifest.id, q@, p@.manifest.id);
                    }
                }
            }
        }
    } else if let FoundEntry::Package(p) = found[n] {
        if gathered(found) is Ok {
            let all = gathered(front)->Ok_0;
            table::law_put_then_find(all, p@.manifest.id, p@, p@.manifest.id);
        }
    }
}

/// Only packages that were found are installed.
pub proof fn law_installed_packages_were_found(found: Seq<FoundEntry>, k: int)
    requires
        gathered(found) is Ok,
        0 <= k < gathered(found)->Ok_0.len(),
    ensures
        exists|i: int|
            0 <= i < found.len() && ((#[trigger] found[i]) matches FoundEntry::Package(p) && p@
                == gathered(found)->Ok_0[k].1),
    decreases found.len(),
{
    let n = found.len() - 1;
    let front = found.drop_last();
    assert(found.last() == found[n]);
    let all = gathered(front)->Ok_0;
    let after = gathered(found)->Ok_0;
    if let FoundEntry::Package(p) = found[n] {
        table::lemma_put_entries(all, p@.manifest.id, p@);
        if after[k] != (p@.manifest.id, p@) {
            let j = choose|j: int| 0 <= j < all.len() && after[k] == #[trigger] all[j];
            law_installed_packages_were_found(front, j);
            let i = choose|i: int|
                0 <= i < front.len() && ((#[trigger] front[i]) matches FoundEntry::Package(q) && q@
                    == all[j].1);
            assert(found[i] == front[i]);
        }
    } else {
        law_installed_packages_were_found(front, k);
        let i = choose|i: int|
            0 <= i < front.len() && ((#[trigger] front[i]) matches FoundEntry::Package(q) && q@
                == all[k].1);
        assert(found[i] == front[i]);
    }
}

} // verus!
