//! Where the Qianwen runtime and its companions are looked for.
use crate::asr::AsrError;
use crate::path;
use crate::path::{FilePath, PathView};
use crate::text;
use vstd::prelude::*;

verus! {

pub const DEFAULT_EMBEDDED_RUNTIME_NAME: &'static str = "libQianwenShellEmbedded.dylib";

pub const DEFAULT_UNET_RUNTIME_NAME: &'static str = "libqianwen_unet_runtime.dylib";

pub const DEFAULT_WSG_IMPL_NAME: &'static str = "libwsg_impl.dylib";

/// The path where it is one of those that stand on disk.
pub open spec fn standing(p: Option<PathView>, present: Seq<PathView>) -> Option<PathView> {
    match p {
        Some(x) => if present.contains(x) {
            Some(x)
        } else {
            None
        },
        None => None,
    }
}

fn existing(p: &Option<FilePath>, present: &Vec<FilePath>) -> (r: Option<FilePath>)
    ensures
        path::path_of(r) == standing(path::path_of(*p), path::paths(present@)),
{
    match p {
        Some(x) => if has_path(present, x) {
            Some(x.copied())
        } else {
            None
        },
        None => None,
    }
}

pub open spec fn embedded_runtime(host: PathView) -> PathView {
    host.child("Frameworks"@).child("qianwen_shell"@).child(DEFAULT_EMBEDDED_RUNTIME_NAME@)
}

pub fn qianwen_embedded_runtime_path_from_host(host: &FilePath) -> (r: FilePath)
    ensures
        r@ == embedded_runtime(host@),
{
    host.child("Frameworks").child("qianwen_shell").child(DEFAULT_EMBEDDED_RUNTIME_NAME)
}

pub fn qianwen_unet_runtime_path_from_host(host: &FilePath) -> (r: FilePath)
    ensures
        r@ == host@.child("Frameworks"@).child(DEFAULT_UNET_RUNTIME_NAME@),
{
    host.child("Frameworks").child(DEFAULT_UNET_RUNTIME_NAME)
}

/// The first of the bundles whose runtime stands on disk.
pub open spec fn default_bundle(bundles: Seq<PathView>, present: Seq<PathView>) -> Option<PathView>
    decreases bundles.len(),
{
    if bundles.len() == 0 {
        None
    } else if present.contains(embedded_runtime(bundles[0])) {
        Some(bundles[0])
    } else {
        default_bundle(bundles.subrange(1, bundles.len() as int), present)
    }
}

/// The bundle that is found by itself: `bundles` are the places to look at, and
/// `present` the paths that stand on disk.
pub fn default_qianwen_host_bundle_path(bundles: &Vec<FilePath>, present: &Vec<FilePath>) -> (r:
    Option<FilePath>)
    ensures
        path::path_of(r) == default_bundle(path::paths(bundles@), path::paths(present@)),
{
    let ghost all = path::paths(bundles@);
    let mut i: usize = 0;
    assert(all.subrange(0, all.len() as int) =~= all);
    while i < bundles.len()
        invariant
            i <= bundles@.len(),
            all == path::paths(bundles@),
            default_bundle(all, path::paths(present@)) == default_bundle(
                all.subrange(i as int, all.len() as int),
                path::paths(present@),
            ),
        decreases bundles@.len() - i,
    {
        let ghost rest = all.subrange(i as int, all.len() as int);
        assert(rest.subrange(1, rest.len() as int) =~= all.subrange(i + 1, all.len() as int));
        if has_path(present, &qianwen_embedded_runtime_path_from_host(&bundles[i])) {
            return Some(bundles[i].copied());
        }
        i = i + 1;
    }
    None
}

pub open spec fn in_bundle(host: Option<PathView>) -> Option<PathView> {
    match host {
        Some(h) => Some(embedded_runtime(h)),
        None => None,
    }
}

pub open spec fn runtime_at(
    explicit: Option<PathView>,
    host: Option<PathView>,
    bundles: Seq<PathView>,
    present: Seq<PathView>,
) -> Option<PathView> {
    if standing(explicit, present) is Some {
        explicit
    } else if standing(in_bundle(host), present) is Some {
        in_bundle(host)
    } else {
        in_bundle(default_bundle(bundles, present))
    }
}

/// The embedded runtime: the given one, that of the given bundle, or that of the
/// bundle found by itself, whichever first stands on disk.
pub fn resolve_runtime_path(
    explicit_runtime: &Option<FilePath>,
    host_bundle: &Option<FilePath>,
    bundles: &Vec<FilePath>,
    present: &Vec<FilePath>,
) -> (r: Option<FilePath>)
    ensures
        path::path_of(r) == runtime_at(
            path::path_of(*explicit_runtime),
            path::path_of(*host_bundle),
            path::paths(bundles@),
            path::paths(present@),
        ),
{
    let found = existing(explicit_runtime, present);
    if found.is_some() {
        return found;
    }
    if let Some(host) = host_bundle {
        let found = existing(&Some(qianwen_embedded_runtime_path_from_host(host)), present);
        if found.is_some() {
            return found;
        }
    }
    match default_qianwen_host_bundle_path(bundles, present) {
        Some(host) => Some(qianwen_embedded_runtime_path_from_host(&host)),
        None => None,
    }
}

pub open spec fn bundle_at(
    explicit: Option<PathView>,
    runtime: Option<PathView>,
    bundles: Seq<PathView>,
    present: Seq<PathView>,
) -> Option<PathView> {
    if standing(explicit, present) is Some {
        explicit
    } else if runtime is Some && bundle_around(runtime->0) is Some {
        bundle_around(runtime->0)
    } else {
        default_bundle(bundles, present)
    }
}

/// The bundle: the given one where it stands, else the one around the runtime,
/// else the one found by itself.
pub fn resolve_host_bundle_path(
    explicit: &Option<FilePath>,
    runtime_path: &Option<FilePath>,
    bundles: &Vec<FilePath>,
    present: &Vec<FilePath>,
) -> (r: Option<FilePath>)
    ensures
        path::path_of(r) == bundle_at(
            path::path_of(*explicit),
            path::path_of(*runtime_path),
            path::paths(bundles@),
            path::paths(present@),
        ),
{
    let found = existing(explicit, present);
    if found.is_some() {
        return found;
    }
    if let Some(runtime) = runtime_path {
        let found = host_bundle_from_runtime_path(runtime);
        if found.is_some() {
            return found;
        }
    }
    default_qianwen_host_bundle_path(bundles, present)
}

pub open spec fn wsg_at(
    explicit: Option<PathView>,
    named: Option<PathView>,
    host: Option<PathView>,
    present: Seq<PathView>,
) -> Option<PathView> {
    if standing(explicit, present) is Some {
        explicit
    } else if standing(named, present) is Some {
        named
    } else {
        match host {
            Some(h) => first_standing(wsg_candidates(h), present),
            None => None,
        }
    }
}

/// The security library: the given one, the one named in the environment, or the
/// first of the bundle's places, whichever first stands on disk.
pub fn resolve_wsg_impl_path(
    explicit: &Option<FilePath>,
    named: &Option<FilePath>,
    host_bundle: &Option<FilePath>,
    present: &Vec<FilePath>,
) -> (r: Option<FilePath>)
    ensures
        path::path_of(r) == wsg_at(
            path::path_of(*explicit),
            path::path_of(*named),
            path::path_of(*host_bundle),
            path::paths(present@),
        ),
{
    let found = existing(explicit, present);
    if found.is_some() {
        return found;
    }
    let found = existing(named, present);
    if found.is_some() {
        return found;
    }
    match host_bundle {
        Some(host) => first_existing(&qianwen_wsg_impl_path_candidates_from_host(host), present),
        None => None,
    }
}

pub open spec fn first_standing(all: Seq<PathView>, present: Seq<PathView>) -> Option<PathView>
    decreases all.len(),
{
    if all.len() == 0 {
        None
    } else if present.contains(all[0]) {
        Some(all[0])
    } else {
        first_standing(all.subrange(1, all.len() as int), present)
    }
}

/// The first of the paths that stands on disk.
fn first_existing(found: &Vec<FilePath>, present: &Vec<FilePath>) -> (r: Option<FilePath>)
    ensures
        path::path_of(r) == first_standing(path::paths(found@), path::paths(present@)),
{
    let ghost all = path::paths(found@);
    let mut i: usize = 0;
    assert(all.subrange(0, all.len() as int) =~= all);
    while i < found.len()
        invariant
            i <= found@.len(),
            all == path::paths(found@),
            first_standing(all, path::paths(present@)) == first_standing(
                all.subrange(i as int, all.len() as int),
                path::paths(present@),
            ),
        decreases found@.len() - i,
    {
        let ghost rest = all.subrange(i as int, all.len() as int);
        assert(rest.subrange(1, rest.len() as int) =~= all.subrange(i + 1, all.len() as int));
        if has_path(present, &found[i]) {
            return Some(found[i].copied());
        }
        i = i + 1;
    }
    None
}

/// What the provider is told of where its parts are.
#[derive(Debug, Clone, PartialEq, Eq)]
pub struct QianwenConfig {
    pub runtime_path: Option<FilePath>,
    pub host_bundle_path: Option<FilePath>,
    pub wsg_impl_path: Option<FilePath>,
    pub asr_query_sign: Option<String>,
}

impl Default for QianwenConfig {
    fn default() -> (r: Self)
        ensures
            r.runtime_path is None,
            r.host_bundle_path is None,
            r.wsg_impl_path is None,
            r.asr_query_sign is None,
    {
        QianwenConfig {
            runtime_path: None,
            host_bundle_path: None,
            wsg_impl_path: None,
            asr_query_sign: None,
        }
    }
}

/// The Qianwen provider.
pub struct QianwenAsr {
    pub config: QianwenConfig,
}

impl QianwenAsr {
    pub fn new(config: QianwenConfig) -> (r: Result<QianwenAsr, AsrError>)
        ensures
            r is Ok && r->Ok_0.config == config,
    {
        Ok(QianwenAsr { config })
    }

    pub fn resolved_runtime_path(&self, bundles: &Vec<FilePath>, present: &Vec<FilePath>) -> (r:
        Option<FilePath>)
        ensures
            path::path_of(r) == runtime_at(
                path::path_of(self.config.runtime_path),
                path::path_of(self.config.host_bundle_path),
                path::paths(bundles@),
                path::paths(present@),
            ),
    {
        resolve_runtime_path(
            &self.config.runtime_path,
            &self.config.host_bundle_path,
            bundles,
            present,
        )
    }

    pub fn resolved_host_bundle_path(
        &self,
        bundles: &Vec<FilePath>,
        present: &Vec<FilePath>,
    ) -> (r: Option<FilePath>)
        ensures
            path::path_of(r) == bundle_at(
                path::path_of(self.config.host_bundle_path),
                path::path_of(self.config.runtime_path),
                path::paths(bundles@),
                path::paths(present@),
            ),
    {
        resolve_host_bundle_path(
            &self.config.host_bundle_path,
            &self.config.runtime_path,
            bundles,
            present,
        )
    }

    /// The security library, `named` being the place that the environment gives.
    pub fn resolved_wsg_impl_path(
        &self,
        named: &Option<FilePath>,
        bundles: &Vec<FilePath>,
        present: &Vec<FilePath>,
    ) -> (r: Option<FilePath>)
        ensures
            path::path_of(r) == wsg_at(
                path::path_of(self.config.wsg_impl_path),
                path::path_of(*named),
                bundle_at(
                    path::path_of(self.config.host_bundle_path),
                    path::path_of(self.config.runtime_path),
                    path::paths(bundles@),
                    path::paths(present@),
                ),
                path::paths(present@),
            ),
    {
        let host = self.resolved_host_bundle_path(bundles, present);
        resolve_wsg_impl_path(&self.config.wsg_impl_path, named, &host, present)
    }
}

/// Whatever runtime is found by way of a bundle stands on disk.
pub proof fn law_runtime_stands(
    explicit: Option<PathView>,
    host: Option<PathView>,
    bundles: Seq<PathView>,
    present: Seq<PathView>,
)
    ensures
        runtime_at(explicit, host, bundles, present) matches Some(p) ==> present.contains(p),
{
    lemma_default_bundle_stands(bundles, present);
}

proof fn lemma_default_bundle_stands(bundles: Seq<PathView>, present: Seq<PathView>)
    ensures
        default_bundle(bundles, present) matches Some(b) ==> present.contains(
            embedded_runtime(b),
        ),
    decreases bundles.len(),
{
    if bundles.len() > 0 && !present.contains(embedded_runtime(bundles[0])) {
        lemma_default_bundle_stands(bundles.subrange(1, bundles.len() as int), present);
    }
}

/// The directories under `frameworks` that hold the security library, for one
/// build or, where `arch` is empty, for any.
pub open spec fn wsg_places(frameworks: PathView, arch: Seq<Seq<char>>) -> Seq<PathView> {
    let plain = PathView { root: frameworks.root, names: frameworks.names + arch };
    let shell = PathView {
        root: frameworks.root,
        names: frameworks.names + seq!["qianwen_shell"@] + arch,
    };
    let guard = PathView {
        root: frameworks.root,
        names: frameworks.names + seq!["wireless_security_guard_prebuilt"@, "lib"@] + arch,
    };
    let third = PathView {
        root: frameworks.root,
        names: frameworks.names + seq![
            "third_party"@,
            "wireless_security_guard_prebuilt"@,
            "lib"@,
        ] + arch,
    };
    let name = DEFAULT_WSG_IMPL_NAME@;
    seq![plain.child(name), shell.child(name), guard.child(name), third.child(name)]
}

pub open spec fn wsg_candidates(host: PathView) -> Seq<PathView> {
    let frameworks = host.child("Frameworks"@);
    wsg_places(frameworks, Seq::empty()) + wsg_places(frameworks, seq!["macarm64"@]) + wsg_places(
        frameworks,
        seq!["macx64"@],
    )
}

fn push_wsg_places(candidates: &mut Vec<FilePath>, frameworks: &FilePath, arch: Option<&str>)
    ensures
        path::paths(final(candidates)@) == path::paths(old(candidates)@) + wsg_places(
            frameworks@,
            match arch {
                Some(a) => seq![a@],
                None => Seq::empty(),
            },
        ),
{
    let ghost before = path::paths(candidates@);
    let shell = frameworks.child("qianwen_shell");
    let guard = frameworks.child("wireless_security_guard_prebuilt").child("lib");
    let third = frameworks.child("third_party").child("wireless_security_guard_prebuilt").child(
        "lib",
    );
    let ghost f = frameworks@.names;
    let ghost none = Seq::<Seq<char>>::empty();
    match arch {
        None => {
            proof {
                assert(f + none =~= f);
                assert(f + seq!["qianwen_shell"@] + none =~= shell@.names);
                assert(f + seq!["wireless_security_guard_prebuilt"@, "lib"@] + none
                    =~= guard@.names);
                assert(f + seq!["third_party"@, "wireless_security_guard_prebuilt"@, "lib"@] + none
                    =~= third@.names);
            }
            candidates.push(frameworks.child(DEFAULT_WSG_IMPL_NAME));
            candidates.push(shell.child(DEFAULT_WSG_IMPL_NAME));
            candidates.push(guard.child(DEFAULT_WSG_IMPL_NAME));
            candidates.push(third.child(DEFAULT_WSG_IMPL_NAME));
            assert(path::paths(candidates@) =~= before + wsg_places(frameworks@, none));
        },
        Some(a) => {
            proof {
                assert(f + seq![a@] =~= f.push(a@));
                assert(f + seq!["qianwen_shell"@] + seq![a@] =~= shell@.names.push(a@));
                assert(f + seq!["wireless_security_guard_prebuilt"@, "lib"@] + seq![a@]
                    =~= guard@.names.push(a@));
                assert(f + seq!["third_party"@, "wireless_security_guard_prebuilt"@, "lib"@]
                    + seq![a@] =~= third@.names.push(a@));
            }
            candidates.push(frameworks.child(a).child(DEFAULT_WSG_IMPL_NAME));
            candidates.push(shell.child(a).child(DEFAULT_WSG_IMPL_NAME));
            candidates.push(guard.child(a).child(DEFAULT_WSG_IMPL_NAME));
            candidates.push(third.child(a).child(DEFAULT_WSG_IMPL_NAME));
            assert(path::paths(candidates@) =~= before + wsg_places(frameworks@, seq![a@]));
        },
    }
}

pub fn qianwen_wsg_impl_path_candidates_from_host(host: &FilePath) -> (r: Vec<FilePath>)
    ensures
        path::paths(r@) == wsg_candidates(host@),
{
    let frameworks = host.child("Frameworks");
    let mut r: Vec<FilePath> = Vec::new();
    push_wsg_places(&mut r, &frameworks, None);
    push_wsg_places(&mut r, &frameworks, Some("macarm64"));
    push_wsg_places(&mut r, &frameworks, Some("macx64"));
    assert(path::paths(r@) =~= wsg_candidates(host@));
    r
}

/// The directory three levels above a runtime.
pub open spec fn bundle_around(runtime: PathView) -> Option<PathView> {
    if runtime.names.len() < 3 {
        None
    } else {
        Some(
            PathView {
                root: runtime.root,
                names: runtime.names.subrange(0, runtime.names.len() - 3),
            },
        )
    }
}

pub fn host_bundle_from_runtime_path(runtime_path: &FilePath) -> (r: Option<FilePath>)
    ensures
        path::path_of(r) == bundle_around(runtime_path@),
{
    let one = match runtime_path.parent() {
        Some(p) => p,
        None => {
            return None;
        },
    };
    let two = match one.parent() {
        Some(p) => p,
        None => {
            return None;
        },
    };
    let three = two.parent();
    proof {
        if runtime_path@.names.len() >= 3 {
            assert(three->0@.names =~= runtime_path@.names.subrange(
                0,
                runtime_path@.names.len() - 3,
            ));
        }
    }
    three
}

/// The bundle that belongs to a runtime found in a bundle is that bundle.
pub proof fn law_bundle_of_its_runtime(host: PathView)
    ensures
        bundle_around(embedded_runtime(host)) == Some(host),
{
    let names = embedded_runtime(host).names;
    assert(names.subrange(0, names.len() - 3) =~= host.names);
}

/// The bundles of the two names that the application goes by.
pub open spec fn app_bundles(base: PathView) -> Seq<PathView> {
    seq![
        base.child("QianwenIME.app"@).child("Contents"@),
        base.child("千问输入法.app"@).child("Contents"@),
    ]
}

pub open spec fn relative_bundles(dirs: Seq<PathView>) -> Seq<PathView>
    decreases dirs.len(),
{
    if dirs.len() == 0 {
        Seq::empty()
    } else {
        relative_bundles(dirs.drop_last()) + (seq![dirs.last().child("qw"@)] + app_bundles(
            dirs.last(),
        ))
    }
}

pub fn push_app_bundle_candidates(candidates: &mut Vec<FilePath>, base: &FilePath)
    ensures
        path::paths(final(candidates)@) == path::paths(old(candidates)@) + app_bundles(base@),
{
    let ghost before = path::paths(candidates@);
    candidates.push(base.child("QianwenIME.app").child("Contents"));
    candidates.push(base.child("千问输入法.app").child("Contents"));
    assert(path::paths(candidates@) =~= before + app_bundles(base@));
}

/// For each directory from `base` upwards: its `qw`, and its application bundles.
pub fn push_relative_qianwen_candidates(candidates: &mut Vec<FilePath>, base: &FilePath)
    ensures
        path::paths(final(candidates)@) == path::paths(old(candidates)@) + relative_bundles(
            base@.ancestors(),
        ),
{
    let ghost start = path::paths(candidates@);
    let dirs = base.ancestors();
    let ghost all = path::paths(dirs@);
    let mut i: usize = 0;
    assert(all.take(0) =~= Seq::empty());
    assert(start + relative_bundles(all.take(0)) =~= start);
    while i < dirs.len()
        invariant
            i <= dirs@.len(),
            all == path::paths(dirs@),
            path::paths(candidates@) == start + relative_bundles(all.take(i as int)),
        decreases dirs@.len() - i,
    {
        let ghost before = path::paths(candidates@);
        candidates.push(dirs[i].child("qw"));
        assert(path::paths(candidates@) =~= before + seq![dirs@[i as int]@.child("qw"@)]);
        push_app_bundle_candidates(candidates, &dirs[i]);
        proof {
            assert(all.take(i + 1).drop_last() =~= all.take(i as int));
            assert(path::paths(candidates@) =~= start + relative_bundles(all.take(i + 1)));
        }
        i = i + 1;
    }
    assert(all.take(all.len() as int) =~= all);
}

/// Where a bundle may be: the place named in the environment, around the working
/// directory, around the program, and among the applications.
pub fn qianwen_host_bundle_candidates(
    named: &Option<FilePath>,
    working_dir: &Option<FilePath>,
    program_dir: &Option<FilePath>,
    home: &Option<FilePath>,
    applications: &FilePath,
) -> (r: Vec<FilePath>)
    ensures
        path::paths(r@) == bundle_places(
            path::path_of(*named),
            path::path_of(*working_dir),
            path::path_of(*program_dir),
            path::path_of(*home),
            applications@,
        ),
{
    let mut r: Vec<FilePath> = Vec::new();
    if let Some(p) = named {
        r.push(p.copied());
    }
    assert(path::paths(r@) =~= opt_seq(path::path_of(*named)));
    if let Some(dir) = working_dir {
        push_relative_qianwen_candidates(&mut r, dir);
    }
    if let Some(dir) = program_dir {
        push_relative_qianwen_candidates(&mut r, dir);
    }
    if let Some(dir) = home {
        push_app_bundle_candidates(&mut r, &dir.child("Applications"));
    }
    push_app_bundle_candidates(&mut r, applications);
    assert(path::paths(r@) =~= bundle_places(
        path::path_of(*named),
        path::path_of(*working_dir),
        path::path_of(*program_dir),
        path::path_of(*home),
        applications@,
    ));
    r
}

pub open spec fn opt_seq(p: Option<PathView>) -> Seq<PathView> {
    match p {
        Some(x) => seq![x],
        None => Seq::empty(),
    }
}

pub open spec fn bundle_places(
    named: Option<PathView>,
    working_dir: Option<PathView>,
    program_dir: Option<PathView>,
    home: Option<PathView>,
    applications: PathView,
) -> Seq<PathView> {
    opt_seq(named) + (match working_dir {
        Some(d) => relative_bundles(d.ancestors()),
        None => Seq::empty(),
    }) + (match program_dir {
        Some(d) => relative_bundles(d.ancestors()),
        None => Seq::empty(),
    }) + (match home {
        Some(d) => app_bundles(d.child("Applications"@)),
        None => Seq::empty(),
    }) + app_bundles(applications)
}

/// The paths without those that stood before.
pub open spec fn first_of_each(all: Seq<PathView>) -> Seq<PathView>
    decreases all.len(),
{
    if all.len() == 0 {
        all
    } else {
        let front = first_of_each(all.drop_last());
        if front.contains(all.last()) {
            front
        } else {
            front.push(all.last())
        }
    }
}

/// Each path once, where it stood first.
pub fn unique_paths(all: &Vec<FilePath>) -> (r: Vec<FilePath>)
    ensures
        path::paths(r@) == first_of_each(path::paths(all@)),
{
    let mut r: Vec<FilePath> = Vec::new();
    let ghost views = path::paths(all@);
    let mut i: usize = 0;
    assert(views.take(0) =~= Seq::empty());
    assert(path::paths(r@) =~= Seq::empty());
    while i < all.len()
        invariant
            i <= all@.len(),
            views == path::paths(all@),
            path::paths(r@) == first_of_each(views.take(i as int)),
        decreases all@.len() - i,
    {
        assert(views.take(i + 1).drop_last() =~= views.take(i as int));
        if !has_path(&r, &all[i]) {
            let ghost before = path::paths(r@);
            r.push(all[i].copied());
            assert(path::paths(r@) =~= before.push(all@[i as int]@));
        }
        i = i + 1;
    }
    assert(views.take(views.len() as int) =~= views);
    r
}

pub fn has_path(all: &Vec<FilePath>, p: &FilePath) -> (r: bool)
    ensures
        r == path::paths(all@).contains(p@),
{
    let mut i: usize = 0;
    while i < all.len()
        invariant
            i <= all@.len(),
            forall|j: int| 0 <= j < i ==> all@[j]@ != p@,
        decreases all@.len() - i,
    {
        if all[i].same_as(p) {
            assert(path::paths(all@)[i as int] == p@);
            return true;
        }
        i = i + 1;
    }
    false
}

/// No path is left twice, and none is lost.
pub proof fn law_unique_paths(all: Seq<PathView>)
    ensures
        first_of_each(all).no_duplicates(),
        forall|p: PathView| #[trigger] first_of_each(all).contains(p) <==> all.contains(p),
    decreases all.len(),
{
    if all.len() > 0 {
        let front = first_of_each(all.drop_last());
        law_unique_paths(all.drop_last());
        assert forall|p: PathView| #[trigger]
            first_of_each(all).contains(p) <==> all.contains(p) by {
            if all.contains(p) && p != all.last() {
                let i = choose|i: int| 0 <= i < all.len() && all[i] == p;
                assert(all.drop_last()[i] == p);
                assert(front.contains(p));
                let k = choose|k: int| 0 <= k < front.len() && front[k] == p;
                assert(first_of_each(all)[k] == p);
            }
            if p == all.last() {
                assert(all[all.len() - 1] == p);
                if !front.contains(p) {
                    assert(first_of_each(all)[front.len() as int] == p);
                }
            }
            if first_of_each(all).contains(p) && p != all.last() {
                let k = choose|k: int|
                    0 <= k < first_of_each(all).len() && first_of_each(all)[k] == p;
                assert(front[k] == p);
                assert(front.contains(p));
                assert(all.drop_last().contains(p));
                let i = choose|i: int| 0 <= i < all.drop_last().len() && all.drop_last()[i] == p;
                assert(all[i] == p);
            }
        }
    }
}

proof fn lemma_default_bundle(bundles: Seq<PathView>, present: Seq<PathView>)
    ensures
        forall|i: int|
            0 <= i < bundles.len() && present.contains(embedded_runtime(#[trigger] bundles[i])) && (
            forall|j: int|
                0 <= j < i ==> !present.contains(embedded_runtime(#[trigger] bundles[j])))
                ==> default_bundle(bundles, present) == Some(bundles[i]),
        (forall|j: int|
            0 <= j < bundles.len() ==> !present.contains(embedded_runtime(#[trigger] bundles[j])))
            ==> default_bundle(bundles, present) is None,
    decreases bundles.len(),
{
    if bundles.len() > 0 && !present.contains(embedded_runtime(bundles[0])) {
        let rest = bundles.subrange(1, bundles.len() as int);
        lemma_default_bundle(rest, present);
        assert forall|i: int|
            0 <= i < bundles.len() && present.contains(embedded_runtime(#[trigger] bundles[i])) && (
            forall|j: int|
                0 <= j < i ==> !present.contains(embedded_runtime(#[trigger] bundles[j]))) implies default_bundle(
            bundles,
            present,
        ) == Some(bundles[i]) by {
            assert(rest[i - 1] == bundles[i]);
            assert forall|j: int| 0 <= j < i - 1 implies !present.contains(
                embedded_runtime(#[trigger] rest[j]),
            ) by {
                assert(rest[j] == bundles[j + 1]);
            }
        }
        if forall|j: int|
            0 <= j < bundles.len() ==> !present.contains(embedded_runtime(#[trigger] bundles[j])) {
            assert forall|j: int| 0 <= j < rest.len() implies !present.contains(
                embedded_runtime(#[trigger] rest[j]),
            ) by {
                assert(rest[j] == bundles[j + 1]);
            }
        }
    }
}

/// The runtime that is named goes first, then the one in the bundle that is named, then that
/// of the first bundle that has one; what is named and is not there does not count.
pub proof fn law_runtime_precedence(
    explicit: Option<PathView>,
    host: Option<PathView>,
    bundles: Seq<PathView>,
    present: Seq<PathView>,
    i: int,
)
    ensures
        explicit is Some && present.contains(explicit->0) ==> runtime_at(
            explicit,
            host,
            bundles,
            present,
        ) == explicit,
        !(explicit is Some && present.contains(explicit->0)) && host is Some && present.contains(
            embedded_runtime(host->0),
        ) ==> runtime_at(explicit, host, bundles, present) == Some(embedded_runtime(host->0)),
        !(explicit is Some && present.contains(explicit->0)) && !(host is Some && present.contains(
            embedded_runtime(host->0),
        )) && 0 <= i < bundles.len() && present.contains(embedded_runtime(bundles[i])) && (forall|
            j: int,
        |
            0 <= j < i ==> !present.contains(embedded_runtime(#[trigger] bundles[j])))
            ==> runtime_at(explicit, host, bundles, present) == Some(embedded_runtime(bundles[i])),
{
    lemma_default_bundle(bundles, present);
}

/// The bundle that is named and stands goes before the one round the runtime, and that before
/// the first one that has a runtime.
pub proof fn law_bundle_precedence(
    explicit: Option<PathView>,
    runtime: Option<PathView>,
    host: PathView,
    bundles: Seq<PathView>,
    present: Seq<PathView>,
)
    ensures
        explicit is Some && present.contains(explicit->0) ==> bundle_at(
            explicit,
            runtime,
            bundles,
            present,
        ) == explicit,
        !(explicit is Some && present.contains(explicit->0)) ==> bundle_at(
            explicit,
            Some(embedded_runtime(host)),
            bundles,
            present,
        ) == Some(host),
        !(explicit is Some && present.contains(explicit->0)) ==> bundle_at(
            explicit,
            None,
            bundles,
            present,
        ) == default_bundle(bundles, present),
{
    law_bundle_of_its_runtime(host);
}

/// The library is looked for below the frameworks of the bundle, under its own name and in
/// twelve places: the four of each build, those of no build of its own first.
pub proof fn law_library_is_looked_for_in_the_bundle(host: PathView, i: int)
    requires
        0 <= i < 12,
    ensures
        wsg_candidates(host).len() == 12,
        wsg_candidates(host)[i].root == host.root,
        wsg_candidates(host)[i].names.len() > host.names.len() + 1,
        wsg_candidates(host)[i].names.take(host.names.len() as int + 1) == host.names.push(
            "Frameworks"@,
        ),
        wsg_candidates(host)[i].names.last() == DEFAULT_WSG_IMPL_NAME@,
        wsg_candidates(host)[0] == host.child("Frameworks"@).child(DEFAULT_WSG_IMPL_NAME@),
{
    let frameworks = host.child("Frameworks"@);
    let none = Seq::<Seq<char>>::empty();
    let first = wsg_places(frameworks, none);
    let second = wsg_places(frameworks, seq!["macarm64"@]);
    let third = wsg_places(frameworks, seq!["macx64"@]);
    let all = wsg_candidates(host);
    assert(all == first + second + third);
    assert(all[0] == first[0]);
    assert(frameworks.names + none =~= frameworks.names);
    if i < 4 {
        assert(all[i] == first[i]);
        lemma_wsg_place(frameworks, none, i);
    } else if i < 8 {
        assert(all[i] == second[i - 4]);
        lemma_wsg_place(frameworks, seq!["macarm64"@], i - 4);
    } else {
        assert(all[i] == third[i - 8]);
        lemma_wsg_place(frameworks, seq!["macx64"@], i - 8);
    }
}

proof fn lemma_wsg_place(frameworks: PathView, arch: Seq<Seq<char>>, i: int)
    requires
        0 <= i < 4,
    ensures
        ({
            let p = wsg_places(frameworks, arch)[i];
            &&& p.root == frameworks.root
            &&& p.names.len() > frameworks.names.len()
            &&& p.names.take(frameworks.names.len() as int) == frameworks.names
            &&& p.names.last() == DEFAULT_WSG_IMPL_NAME@
        }),
{
    let p = wsg_places(frameworks, arch)[i];
    assert(i == 0 || i == 1 || i == 2 || i == 3);
    assert(p.names.take(frameworks.names.len() as int) =~= frameworks.names);
}

} // verus!
