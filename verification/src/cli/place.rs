//! Where the tool keeps its files, and where it finds its companions.
use crate::cli::args;
use crate::cli::args::Cli;
use crate::cli::profile::ProviderProfile;
#[allow(unused_imports)]
use crate::cli::profile::ProfileView;
use crate::cli::packages;
use crate::cli::print;
use crate::cli::report;
use crate::openai;
use crate::path;
use crate::path::FilePath;
#[allow(unused_imports)]
use crate::path::PathView;
use crate::qianwen::place;
use crate::table;
use crate::text;
use vstd::prelude::*;
use vstd::string::*;

verus! {

pub const APP_NAME: &'static str = "dicta";

/// The directories that the environment names.
#[derive(Debug, Clone, PartialEq, Eq)]
pub struct Homes {
    pub windows: bool,
    pub macos: bool,
    /// `APPDATA` on Windows.
    pub appdata: Option<FilePath>,
    /// `USERPROFILE` on Windows.
    pub userprofile: Option<FilePath>,
    pub xdg_config_home: Option<FilePath>,
    pub xdg_data_home: Option<FilePath>,
    pub home: Option<FilePath>,
}

pub open spec fn below(base: Option<PathView>, name: Seq<char>) -> Option<PathView> {
    match base {
        Some(p) => Some(p.child(name)),
        None => None,
    }
}

pub open spec fn first_path(a: Option<PathView>, b: Option<PathView>) -> Option<PathView> {
    match a {
        Some(_) => a,
        None => b,
    }
}

fn child_of(base: Option<FilePath>, name: &str) -> (r: Option<FilePath>)
    ensures
        path::path_of(r) == below(path::path_of(base), name@),
{
    match base {
        Some(p) => Some(p.child(name)),
        None => None,
    }
}

fn path_or(a: Option<FilePath>, b: Option<FilePath>) -> (r: Option<FilePath>)
    ensures
        path::path_of(r) == first_path(path::path_of(a), path::path_of(b)),
{
    match a {
        Some(p) => Some(p),
        None => b,
    }
}

/// The directory of the tool's configuration.
pub open spec fn config_place(h: Homes, tool: Seq<char>) -> Option<PathView> {
    below(
        if h.windows {
            first_path(
                path::path_of(h.appdata),
                below(path::path_of(h.userprofile), ".config"@),
            )
        } else {
            first_path(
                path::path_of(h.xdg_config_home),
                below(path::path_of(h.home), ".config"@),
            )
        },
        tool,
    )
}

pub fn config_dir(h: &Homes, tool: &str) -> (r: Option<FilePath>)
    ensures
        path::path_of(r) == config_place(*h, tool@),
{
    let base = if h.windows {
        path_or(path::copy_path(&h.appdata), child_of(path::copy_path(&h.userprofile), ".config"))
    } else {
        path_or(path::copy_path(&h.xdg_config_home), child_of(path::copy_path(&h.home), ".config"))
    };
    child_of(base, tool)
}

/// The directory of the tool's data.
pub open spec fn data_place(h: Homes) -> Option<PathView> {
    if h.macos {
        below(below(below(path::path_of(h.home), "Library"@), "Application Support"@), "dicta"@)
    } else if h.windows {
        below(first_path(path::path_of(h.appdata), path::path_of(h.userprofile)), "dicta"@)
    } else {
        below(
            first_path(
                path::path_of(h.xdg_data_home),
                below(below(path::path_of(h.home), ".local"@), "share"@),
            ),
            "dicta"@,
        )
    }
}

pub fn data_dir(h: &Homes) -> (r: Option<FilePath>)
    ensures
        path::path_of(r) == data_place(*h),
{
    if h.macos {
        let library = child_of(path::copy_path(&h.home), "Library");
        child_of(child_of(library, "Application Support"), APP_NAME)
    } else if h.windows {
        child_of(path_or(path::copy_path(&h.appdata), path::copy_path(&h.userprofile)), APP_NAME)
    } else {
        let own = child_of(child_of(path::copy_path(&h.home), ".local"), "share");
        child_of(path_or(path::copy_path(&h.xdg_data_home), own), APP_NAME)
    }
}

/// The file of provider profiles: the one that is asked for, else the usual one.
pub fn configured_provider_config_path(
    asked: &Option<FilePath>,
    h: &Homes,
    tool: &str,
) -> (r: Option<FilePath>)
    ensures
        path::path_of(r) == first_path(
            path::path_of(*asked),
            below(config_place(*h, tool@), "providers.toml"@),
        ),
{
    path_or(path::copy_path(asked), child_of(config_dir(h, tool), "providers.toml"))
}

/// The file that the active provider's name is kept in.
pub fn provider_state_path(asked: &Option<FilePath>, h: &Homes) -> (r: Option<FilePath>)
    ensures
        path::path_of(r) == first_path(
            path::path_of(*asked),
            below(config_place(*h, "dicta"@), "active-provider.json"@),
        ),
{
    path_or(path::copy_path(asked), child_of(config_dir(h, APP_NAME), "active-provider.json"))
}

/// The directory that provider packages are installed in.
pub fn provider_install_dir(asked: &Option<FilePath>, h: &Homes) -> (r: Option<FilePath>)
    ensures
        path::path_of(r) == first_path(
            path::path_of(*asked),
            below(data_place(*h), "providers"@),
        ),
{
    path_or(path::copy_path(asked), child_of(data_dir(h), "providers"))
}

/// The directory that a package is unpacked in before it is installed.
pub fn staging_name(process: u32, nanos: u64) -> (r: String)
    ensures
        r@ == ".install-"@ + text::decimal(process as nat) + "-"@ + text::decimal(nanos as nat),
{
    text::cat4(
        ".install-",
        text::number(process as u64).as_str(),
        "-",
        text::number(nanos).as_str(),
    )
}

pub open spec fn tray_name(windows: bool) -> Seq<char> {
    if windows {
        "dicta-tray.exe"@
    } else {
        "dicta-tray"@
    }
}

pub fn tray_binary_name(windows: bool) -> (r: &'static str)
    ensures
        r@ == tray_name(windows),
{
    if windows {
        "dicta-tray.exe"
    } else {
        "dicta-tray"
    }
}

/// How the tray is started.
#[derive(Debug, Clone, PartialEq, Eq)]
pub enum TrayLauncher {
    Binary(FilePath),
    CargoRun { repo_root: FilePath },
}

pub enum LauncherView {
    Binary(PathView),
    CargoRun { repo_root: PathView },
}

impl View for TrayLauncher {
    type V = LauncherView;

    open spec fn view(&self) -> LauncherView {
        match self {
            TrayLauncher::Binary(p) => LauncherView::Binary(p@),
            TrayLauncher::CargoRun { repo_root } => LauncherView::CargoRun {
                repo_root: repo_root@,
            },
        }
    }
}

impl TrayLauncher {
    /// The launcher in words; `shown` is its path as it is written.
    pub fn description(&self, shown: &str) -> (r: String)
        ensures
            r@ == match self {
                TrayLauncher::Binary(_) => shown@,
                TrayLauncher::CargoRun { .. } => "cargo run -p dicta-tray in "@ + shown@,
            },
    {
        match self {
            TrayLauncher::Binary(_) => text::copy(shown),
            TrayLauncher::CargoRun { .. } => text::cat("cargo run -p dicta-tray in ", shown),
        }
    }
}

pub open spec fn tray_manifest(dir: PathView) -> PathView {
    dir.child("crates"@).child("dicta-tray"@).child("Cargo.toml"@)
}

/// A directory with the tool's sources, among the files that are `present`.
pub open spec fn is_repo_root(dir: PathView, present: Seq<PathView>) -> bool {
    present.contains(tray_manifest(dir)) && present.contains(dir.child("Cargo.toml"@))
}

/// The first directory with the tool's sources.
pub open spec fn repo_root_in(dirs: Seq<PathView>, present: Seq<PathView>) -> Option<PathView>
    decreases dirs.len(),
{
    if dirs.len() == 0 {
        None
    } else if is_repo_root(dirs[0], present) {
        Some(dirs[0])
    } else {
        repo_root_in(dirs.subrange(1, dirs.len() as int), present)
    }
}

fn tray_manifest_path(dir: &FilePath) -> (r: FilePath)
    ensures
        r@ == tray_manifest(dir@),
{
    dir.child("crates").child("dicta-tray").child("Cargo.toml")
}

pub fn find_repo_root_from(start: &FilePath, present: &Vec<FilePath>) -> (r: Option<FilePath>)
    ensures
        path::path_of(r) == repo_root_in(start@.ancestors(), path::paths(present@)),
{
    let dirs = start.ancestors();
    let ghost all = path::paths(dirs@);
    let n: usize = dirs.len();
    let mut i: usize = 0;
    assert(all.subrange(0, n as int) =~= all);
    while i < n
        invariant
            n == dirs.len(),
            all == path::paths(dirs@),
            all == start@.ancestors(),
            i <= n,
            repo_root_in(all, path::paths(present@)) == repo_root_in(
                all.subrange(i as int, n as int),
                path::paths(present@),
            ),
        decreases n - i,
    {
        let ghost rest = all.subrange(i as int, n as int);
        assert(rest[0] == dirs@[i as int]@);
        if place::has_path(present, &tray_manifest_path(&dirs[i])) && place::has_path(
            present,
            &dirs[i].child("Cargo.toml"),
        ) {
            return Some(dirs[i].copied());
        }
        assert(rest.subrange(1, rest.len() as int) =~= all.subrange(i + 1, n as int));
        i = i + 1;
    }
    None
}

/// The first of the directories that holds the file.
pub open spec fn found_in(dirs: Seq<PathView>, name: Seq<char>, present: Seq<PathView>) -> Option<
    PathView,
>
    decreases dirs.len(),
{
    if dirs.len() == 0 {
        None
    } else if present.contains(dirs[0].child(name)) {
        Some(dirs[0].child(name))
    } else {
        found_in(dirs.subrange(1, dirs.len() as int), name, present)
    }
}

pub fn find_executable_in(dirs: &Vec<FilePath>, name: &str, present: &Vec<FilePath>) -> (r: Option<
    FilePath,
>)
    ensures
        path::path_of(r) == found_in(path::paths(dirs@), name@, path::paths(present@)),
{
    let ghost all = path::paths(dirs@);
    let n: usize = dirs.len();
    let mut i: usize = 0;
    assert(all.subrange(0, n as int) =~= all);
    while i < n
        invariant
            n == dirs.len(),
            all == path::paths(dirs@),
            i <= n,
            found_in(all, name@, path::paths(present@)) == found_in(
                all.subrange(i as int, n as int),
                name@,
                path::paths(present@),
            ),
        decreases n - i,
    {
        let ghost rest = all.subrange(i as int, n as int);
        assert(rest[0] == dirs@[i as int]@);
        let candidate = dirs[i].child(name);
        if place::has_path(present, &candidate) {
            return Some(candidate);
        }
        assert(rest.subrange(1, rest.len() as int) =~= all.subrange(i + 1, n as int));
        i = i + 1;
    }
    None
}

/// The tray beside the tool, else one that was built from the sources, else the sources
/// themselves, else one that the search path leads to.
pub open spec fn launcher(
    exe_dir: PathView,
    windows: bool,
    profile: Seq<char>,
    search: Seq<PathView>,
    present: Seq<PathView>,
) -> Option<LauncherView> {
    let name = tray_name(windows);
    let elsewhere = match found_in(search, name, present) {
        Some(p) => Some(LauncherView::Binary(p)),
        None => None,
    };
    if present.contains(exe_dir.child(name)) {
        Some(LauncherView::Binary(exe_dir.child(name)))
    } else {
        match repo_root_in(exe_dir.ancestors(), present) {
            Some(root) => {
                let built = root.child("target"@).child(profile).child(name);
                if present.contains(built) {
                    Some(LauncherView::Binary(built))
                } else if present.contains(tray_manifest(root)) {
                    Some(LauncherView::CargoRun { repo_root: root })
                } else {
                    elsewhere
                }
            },
            None => elsewhere,
        }
    }
}

pub open spec fn launcher_of(o: Option<TrayLauncher>) -> Option<LauncherView> {
    match o {
        Some(l) => Some(l@),
        None => None,
    }
}

/// Finds the tray. `present` are the files that there are, among those that matter.
pub fn resolve_tray_launcher(
    exe_dir: &FilePath,
    windows: bool,
    profile: &str,
    search: &Vec<FilePath>,
    present: &Vec<FilePath>,
) -> (r: Option<TrayLauncher>)
    ensures
        launcher_of(r) == launcher(
            exe_dir@,
            windows,
            profile@,
            path::paths(search@),
            path::paths(present@),
        ),
{
    let name = tray_binary_name(windows);
    let beside = exe_dir.child(name);
    if place::has_path(present, &beside) {
        return Some(TrayLauncher::Binary(beside));
    }
    if let Some(root) = find_repo_root_from(exe_dir, present) {
        let built = root.child("target").child(profile).child(name);
        if place::has_path(present, &built) {
            return Some(TrayLauncher::Binary(built));
        }
        if place::has_path(present, &tray_manifest_path(&root)) {
            return Some(TrayLauncher::CargoRun { repo_root: root });
        }
    }
    match find_executable_in(search, name, present) {
        Some(p) => Some(TrayLauncher::Binary(p)),
        None => None,
    }
}

/// The provider that becomes active when the tray is started, where one is named.
pub open spec fn ui_choice(
    provider: Option<Seq<char>>,
    profiles: Result<Seq<(Seq<char>, ProfileView)>, Seq<char>>,
) -> Result<Option<Seq<char>>, Seq<char>> {
    match text::filled(provider) {
        None => Ok(None),
        Some(name) => if name == "active"@ {
            Ok(None)
        } else {
            match profiles {
                Err(e) => Err(e),
                Ok(all) => if table::under_name(all, name) is None {
                    Err(packages::unknown_provider(name))
                } else {
                    Ok(Some(name))
                },
            }
        },
    }
}

pub fn choose_for_ui(
    cli: &Cli,
    profiles: &Result<Vec<(String, ProviderProfile)>, String>,
) -> (r: Result<Option<String>, String>)
    ensures
        match (r, ui_choice(text::text_of(cli.provider), packages::profiles_view(*profiles))) {
            (Ok(n), Ok(s)) => text::text_of(n) == s,
            (Err(e), Err(s)) => e@ == s,
            _ => false,
        },
{
    match text::non_empty(&cli.provider) {
        None => Ok(None),
        Some(name) => {
            if text::same(name.as_str(), "active") {
                return Ok(None);
            }
            match profiles {
                Err(e) => Err(text::copy(e.as_str())),
                Ok(all) => {
                    if table::find(all, name.as_str()).is_none() {
                        return Err(
                            text::cat3(
                                "provider '",
                                name.as_str(),
                                "' was not found; run `dicta provider list` to see available providers",
                            ),
                        );
                    }
                    Ok(Some(name))
                },
            }
        },
    }
}

/// The programs that an installation consists of.
pub open spec fn binaries(windows: bool) -> Seq<Seq<char>> {
    if windows {
        seq!["dicta.exe"@, "dicta-tray.exe"@, "dicta-adapter-apple-speech.exe"@]
    } else {
        seq!["dicta"@, "dicta-tray"@, "dicta-adapter-apple-speech"@]
    }
}

pub fn installed_binary_names(windows: bool) -> (r: Vec<String>)
    ensures
        text::texts(r@) == binaries(windows),
{
    let mut names: Vec<String> = Vec::new();
    if windows {
        names.push(text::copy("dicta.exe"));
        names.push(text::copy("dicta-tray.exe"));
        names.push(text::copy("dicta-adapter-apple-speech.exe"));
    } else {
        names.push(text::copy("dicta"));
        names.push(text::copy("dicta-tray"));
        names.push(text::copy("dicta-adapter-apple-speech"));
    }
    assert(text::texts(names@) =~= binaries(windows));
    names
}

/// What is said of one program that was to be removed, by its path as it is written.
pub open spec fn removal_line(shown: Seq<char>, existed: bool) -> Seq<char> {
    if existed {
        "dicta uninstall: removed "@ + shown
    } else {
        "dicta uninstall: "@ + shown + " is not installed"@
    }
}

pub open spec fn removal_lines(v: Seq<(String, bool)>) -> Seq<Seq<char>> {
    v.map_values(|p: (String, bool)| removal_line(p.0@, p.1))
}

pub open spec fn none_existed(v: Seq<(String, bool)>) -> bool {
    forall|i: int| 0 <= i < v.len() ==> !(#[trigger] v[i]).1
}

/// What an uninstallation says: of each program whether it was there, and what is left.
pub fn uninstall_text(programs: &Vec<(String, bool)>, dir: &str) -> (lines: Vec<String>)
    ensures
        text::texts(lines@) == removal_lines(programs@) + (if none_existed(programs@) {
            seq!["dicta uninstall: no installed dicta binaries found in "@ + dir@]
        } else {
            Seq::<Seq<char>>::empty()
        }) + seq!["dicta uninstall: configuration files were left in place"@],
{
    let ghost all = removal_lines(programs@);
    let mut lines: Vec<String> = Vec::new();
    let mut any = false;
    let n: usize = programs.len();
    let mut i: usize = 0;
    assert(text::texts(lines@) =~= all.take(0));
    while i < n
        invariant
            n == programs.len(),
            all == removal_lines(programs@),
            i <= n,
            any <==> exists|k: int| 0 <= k < i && (#[trigger] programs@[k]).1,
            text::texts(lines@) == all.take(i as int),
        decreases n - i,
    {
        let shown = programs[i].0.as_str();
        let ghost before = text::texts(lines@);
        if programs[i].1 {
            lines.push(text::cat("dicta uninstall: removed ", shown));
            any = true;
        } else {
            lines.push(text::cat3("dicta uninstall: ", shown, " is not installed"));
        }
        assert(text::texts(lines@) =~= before.push(all[i as int]));
        assert(all.take(i + 1) =~= all.take(i as int).push(all[i as int]));
        i = i + 1;
    }
    assert(all.take(n as int) =~= all);
    if !any {
        report::say(&mut lines, "dicta uninstall: no installed dicta binaries found in ", dir);
    }
    print::add_line(&mut lines, "dicta uninstall: configuration files were left in place");
    assert(text::texts(lines@) =~= removal_lines(programs@) + (if none_existed(programs@) {
        seq!["dicta uninstall: no installed dicta binaries found in "@ + dir@]
    } else {
        Seq::<Seq<char>>::empty()
    }) + seq!["dicta uninstall: configuration files were left in place"@]);
    lines
}

/// The script that fetches the installer and runs it.
pub fn update_installer_command() -> (r: &'static str)
    ensures
        r@
            == "tmp=\"${TMPDIR:-/tmp}/dicta-install.$$\"; trap 'rm -f \"$tmp\"' EXIT; if command -v curl >/dev/null 2>&1; then curl -fsSL https://raw.githubusercontent.com/kingsword09/dicta/main/install.sh -o \"$tmp\"; elif command -v wget >/dev/null 2>&1; then wget -qO \"$tmp\" https://raw.githubusercontent.com/kingsword09/dicta/main/install.sh; else echo 'dicta update: required command not found: curl or wget' >&2; exit 1; fi && sh \"$tmp\""@,
{
    "tmp=\"${TMPDIR:-/tmp}/dicta-install.$$\"; trap 'rm -f \"$tmp\"' EXIT; if command -v curl >/dev/null 2>&1; then curl -fsSL https://raw.githubusercontent.com/kingsword09/dicta/main/install.sh -o \"$tmp\"; elif command -v wget >/dev/null 2>&1; then wget -qO \"$tmp\" https://raw.githubusercontent.com/kingsword09/dicta/main/install.sh; else echo 'dicta update: required command not found: curl or wget' >&2; exit 1; fi && sh \"$tmp\""
}

/// What the tray finds in its environment when the tool starts it.
pub fn ui_environment(
    cli: &Cli,
    dicta_bin: &str,
    config: &Option<String>,
    state: &Option<String>,
) -> (r: Vec<(&'static str, String)>)
    ensures
        openai::fields(r@) == seq![("DICTA_BIN"@, dicta_bin@)] + openai::field_if(
            "DICTA_PROVIDER_CONFIG"@,
            text::text_of(*config),
        ) + openai::field_if("DICTA_PROVIDER_STATE"@, text::text_of(*state)) + seq![
            ("DICTA_UI_LIVE_ARGS"@, text::joined(args::ui_args(*cli), "\n"@)),
            (
                "DICTA_UI_AUTOSTART"@,
                if cli.live {
                    "1"@
                } else {
                    "0"@
                },
            ),
        ],
{
    let mut r: Vec<(&'static str, String)> = Vec::new();
    r.push(("DICTA_BIN", text::copy(dicta_bin)));
    assert(openai::fields(r@) =~= seq![("DICTA_BIN"@, dicta_bin@)]);
    openai::push_field(&mut r, "DICTA_PROVIDER_CONFIG", config);
    openai::push_field(&mut r, "DICTA_PROVIDER_STATE", state);
    let ghost front = openai::fields(r@);
    let flags = args::live_args_for_ui(cli);
    let words = text::join(&flags, "\n");
    let auto = text::copy(
        if cli.live {
            "1"
        } else {
            "0"
        },
    );
    r.push(("DICTA_UI_LIVE_ARGS", words));
    r.push(("DICTA_UI_AUTOSTART", auto));
    assert(openai::fields(r@) =~= front + seq![
        ("DICTA_UI_LIVE_ARGS"@, words@),
        ("DICTA_UI_AUTOSTART"@, auto@),
    ]);
    r
}

/// Settings are kept below the directory of the settings, which a variable may name, and else
/// below the home directory; where neither is known they have no place.
pub proof fn law_settings_have_one_place(h: Homes, tool: Seq<char>)
    ensures
        !h.windows && h.xdg_config_home is Some ==> config_place(h, tool) == Some(
            h.xdg_config_home->0@.child(tool),
        ),
        !h.windows && h.xdg_config_home is None && h.home is Some ==> config_place(h, tool) == Some(
            h.home->0@.child(".config"@).child(tool),
        ),
        h.windows && h.appdata is Some ==> config_place(h, tool) == Some(h.appdata->0@.child(tool)),
        h.windows && h.appdata is None && h.userprofile is Some ==> config_place(h, tool) == Some(
            h.userprofile->0@.child(".config"@).child(tool),
        ),
        config_place(h, tool) is None <==> if h.windows {
            h.appdata is None && h.userprofile is None
        } else {
            h.xdg_config_home is None && h.home is None
        },
{
}

/// The same of what is installed.
pub proof fn law_data_has_one_place(h: Homes)
    ensures
        h.macos && h.home is Some ==> data_place(h) == Some(
            h.home->0@.child("Library"@).child("Application Support"@).child("dicta"@),
        ),
        h.macos ==> (data_place(h) is None <==> h.home is None),
        !h.macos && h.windows && h.appdata is Some ==> data_place(h) == Some(
            h.appdata->0@.child("dicta"@),
        ),
        !h.macos && h.windows && h.appdata is None && h.userprofile is Some ==> data_place(h)
            == Some(h.userprofile->0@.child("dicta"@)),
        !h.macos && !h.windows && h.xdg_data_home is Some ==> data_place(h) == Some(
            h.xdg_data_home->0@.child("dicta"@),
        ),
        !h.macos && !h.windows && h.xdg_data_home is None && h.home is Some ==> data_place(h)
            == Some(h.home->0@.child(".local"@).child("share"@).child("dicta"@)),
{
}

proof fn lemma_found_in(dirs: Seq<PathView>, name: Seq<char>, present: Seq<PathView>)
    ensures
        forall|i: int|
            0 <= i < dirs.len() && present.contains((#[trigger] dirs[i]).child(name)) && (forall|
                j: int,
            |
                0 <= j < i ==> !present.contains((#[trigger] dirs[j]).child(name))) ==> found_in(
                dirs,
                name,
                present,
            ) == Some(dirs[i].child(name)),
        (forall|j: int| 0 <= j < dirs.len() ==> !present.contains((#[trigger] dirs[j]).child(name)))
            ==> found_in(dirs, name, present) is None,
    decreases dirs.len(),
{
    if dirs.len() > 0 && !present.contains(dirs[0].child(name)) {
        let rest = dirs.subrange(1, dirs.len() as int);
        lemma_found_in(rest, name, present);
        assert forall|i: int|
            0 <= i < dirs.len() && present.contains((#[trigger] dirs[i]).child(name)) && (forall|
                j: int,
            |
                0 <= j < i ==> !present.contains((#[trigger] dirs[j]).child(name))) implies found_in(
            dirs,
            name,
            present,
        ) == Some(dirs[i].child(name)) by {
            assert(rest[i - 1] == dirs[i]);
            assert forall|j: int| 0 <= j < i - 1 implies !present.contains(
                (#[trigger] rest[j]).child(name),
            ) by {
                assert(rest[j] == dirs[j + 1]);
            }
        }
        if forall|j: int|
            0 <= j < dirs.len() ==> !present.contains((#[trigger] dirs[j]).child(name)) {
            assert forall|j: int| 0 <= j < rest.len() implies !present.contains(
                (#[trigger] rest[j]).child(name),
            ) by {
                assert(rest[j] == dirs[j + 1]);
            }
        }
    }
}

/// A program is the one in the first directory of the search that has it.
pub proof fn law_first_directory_with_the_program(
    dirs: Seq<PathView>,
    name: Seq<char>,
    present: Seq<PathView>,
    i: int,
)
    ensures
        0 <= i < dirs.len() && present.contains(dirs[i].child(name)) && (forall|j: int|
            0 <= j < i ==> !present.contains((#[trigger] dirs[j]).child(name))) ==> found_in(
            dirs,
            name,
            present,
        ) == Some(dirs[i].child(name)),
        (forall|j: int| 0 <= j < dirs.len() ==> !present.contains((#[trigger] dirs[j]).child(name)))
            ==> found_in(dirs, name, present) is None,
{
    lemma_found_in(dirs, name, present);
}

/// The tray beside the tool goes before any other; what is launched is there, or is built
/// from sources that are there.
pub proof fn law_launched_tray_is_there(
    exe_dir: PathView,
    windows: bool,
    profile: Seq<char>,
    search: Seq<PathView>,
    present: Seq<PathView>,
)
    ensures
        present.contains(exe_dir.child(tray_name(windows))) ==> launcher(
            exe_dir,
            windows,
            profile,
            search,
            present,
        ) == Some(LauncherView::Binary(exe_dir.child(tray_name(windows)))),
        match launcher(exe_dir, windows, profile, search, present) {
            Some(LauncherView::Binary(p)) => present.contains(p),
            Some(LauncherView::CargoRun { repo_root }) => present.contains(
                tray_manifest(repo_root),
            ),
            None => forall|j: int|
                0 <= j < search.len() ==> !present.contains(
                    (#[trigger] search[j]).child(tray_name(windows)),
                ),
        },
{
    let name = tray_name(windows);
    lemma_found_in(search, name, present);
    if !(forall|j: int| 0 <= j < search.len() ==> !present.contains((#[trigger] search[j]).child(name))) {
        lemma_found_somewhere(search, name, present);
    }
}

proof fn lemma_found_somewhere(dirs: Seq<PathView>, name: Seq<char>, present: Seq<PathView>)
    requires
        exists|j: int| 0 <= j < dirs.len() && present.contains((#[trigger] dirs[j]).child(name)),
    ensures
        found_in(dirs, name, present) is Some,
        present.contains(found_in(dirs, name, present)->0),
    decreases dirs.len(),
{
    if !present.contains(dirs[0].child(name)) {
        let rest = dirs.subrange(1, dirs.len() as int);
        let j = choose|j: int| 0 <= j < dirs.len() && present.contains((#[trigger] dirs[j]).child(name));
        assert(rest[j - 1] == dirs[j]);
        lemma_found_somewhere(rest, name, present);
    }
}

/// The user interface starts with the provider that is named where it is known, and with the
/// active one where none is named or the active one is meant.
pub proof fn law_interface_starts_with_the_named_provider(
    provider: Option<Seq<char>>,
    profiles: Result<Seq<(Seq<char>, ProfileView)>, Seq<char>>,
)
    ensures
        ({
            let named = provider is Some && text::trimmed(provider->0).len() > 0 && text::trimmed(
                provider->0,
            ) != "active"@;
            let known = profiles is Ok && table::under_name(
                profiles->Ok_0,
                text::trimmed(provider->0),
            ) is Some;
            &&& !named ==> ui_choice(provider, profiles) == Ok::<Option<Seq<char>>, Seq<char>>(None)
            &&& named && known ==> ui_choice(provider, profiles) == Ok::<
                Option<Seq<char>>,
                Seq<char>,
            >(Some(text::trimmed(provider->0)))
            &&& named && !known ==> ui_choice(provider, profiles) is Err
        }),
{
}

} // verus!
