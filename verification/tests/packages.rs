//! Provider packages: where they come from, how they are installed and kept up to date.
use std::io::Write;

use base64::Engine;
use dicta::cli::archive::{
    plan_entries, plan_unpacking, sanitize_provider_archive_path, ArchiveEntry,
};
use dicta::cli::args::{AsrBackend, Cli};
use dicta::cli::fetch::{resolve_npm_package_version, version_query, NpmAsk, NpmFetch};
use dicta::cli::installed::{installed_providers, FoundEntry};
use dicta::cli::npm::{
    canonical_provider_package_name, check_digest, filter_search,
    is_probable_provider_platform_package, normal_scope, npm_current_cpu, npm_current_os,
    npm_list_allows, npm_package_url_name, npm_package_version_matches_platform,
    provider_id_from_package_name, resolve_npm_version, search_query, verify_npm_integrity,
    NpmPackageDist, NpmPackageMetadata, NpmPackageVersion, NpmSearchPackage, DEFAULT_NPM_REGISTRY,
};
use dicta::cli::packages::{
    available_report, available_text, check_choice, check_install_place, clears_active,
    install_report, install_source, install_text, is_uninstall_confirmation,
    provider_matches_name_or_package, provider_update_package, provider_update_targets,
    removal_target, removal_text, start_update, up_to_date, update_text, updated,
    validate_provider_manifest, InstallSource, UpdateStart, PROVIDER_PROTOCOL,
};
use dicta::cli::place::{
    choose_for_ui, config_dir, configured_provider_config_path, data_dir, find_executable_in,
    find_repo_root_from, installed_binary_names, provider_install_dir, provider_state_path,
    resolve_tray_launcher, staging_name, ui_environment, uninstall_text, update_installer_command, Homes,
    TrayLauncher,
};
use dicta::cli::profile::{
    builtin_provider_profile, InstalledProvider, ProviderBatchManifest, ProviderInstallMetadata,
    ProviderInstallSourceKind, ProviderPackageManifest,
};
use dicta::cli::update::{ProviderUpdates, UpdateAsk};
use dicta::path::FilePath;
use sha2::Digest;

fn path(text: &str) -> FilePath {
    let (root, rest) = match text.strip_prefix('/') {
        Some(rest) => ("/", rest),
        None => ("", text),
    };
    FilePath {
        root: root.to_owned(),
        names: rest.split('/').filter(|name| !name.is_empty()).map(str::to_owned).collect(),
    }
}

fn test_installed_provider(
    id: &str,
    install_metadata: Option<ProviderInstallMetadata>,
) -> InstalledProvider {
    InstalledProvider {
        root: path("/tmp/dicta-installed-provider"),
        manifest: ProviderPackageManifest {
            id: id.to_owned(),
            name: Some("Test ASR".to_owned()),
            version: Some("0.1.0".to_owned()),
            protocol: PROVIDER_PROTOCOL.to_owned(),
            command: path(&format!("bin/{id}")),
            model: Some(id.to_owned()),
            batch: ProviderBatchManifest::default(),
            live: None,
            notes: Vec::new(),
        },
        install_metadata,
        shown_root: format!("/providers/{id}"),
        shown_command: format!("/providers/{id}/bin/{id}"),
        command_is_file: true,
    }
}

fn from_npm(id: &str) -> InstalledProvider {
    test_installed_provider(
        id,
        Some(ProviderInstallMetadata {
            source: ProviderInstallSourceKind::Npm,
            package: Some(format!("@dicta-asr/{id}")),
            registry: Some(DEFAULT_NPM_REGISTRY.to_owned()),
            version: Some("0.1.0".to_owned()),
            installed_at_ms: 0,
        }),
    )
}

fn version(os: &[&str], deps: &[(&str, &str)], tarball: &str) -> NpmPackageVersion {
    NpmPackageVersion {
        os: os.iter().map(|s| (*s).to_owned()).collect(),
        cpu: vec![],
        optional_dependencies: deps
            .iter()
            .map(|(n, v)| ((*n).to_owned(), (*v).to_owned()))
            .collect(),
        dist: NpmPackageDist { tarball: tarball.to_owned(), integrity: None },
    }
}

fn metadata(name: &str, latest: &str, version: NpmPackageVersion) -> NpmPackageMetadata {
    NpmPackageMetadata {
        name: name.to_owned(),
        dist_tags: vec![("latest".to_owned(), latest.to_owned())],
        versions: vec![(latest.to_owned(), version)],
    }
}

fn homes() -> Homes {
    Homes {
        windows: false,
        macos: false,
        appdata: None,
        userprofile: None,
        xdg_config_home: None,
        xdg_data_home: None,
        home: Some(path("/home/me")),
    }
}

fn tarball(entries: &[(&str, &[u8])]) -> Vec<u8> {
    let encoder = flate2::write::GzEncoder::new(Vec::new(), flate2::Compression::fast());
    let mut builder = tar::Builder::new(encoder);
    for (name, data) in entries {
        let mut header = tar::Header::new_gnu();
        header.set_size(data.len() as u64);
        header.set_mode(0o644);
        header.set_cksum();
        builder.append_data(&mut header, name, *data).unwrap();
    }
    let mut encoder = builder.into_inner().unwrap();
    encoder.flush().unwrap();
    encoder.finish().unwrap()
}

fn names(target: &Option<Vec<Vec<u8>>>) -> Option<String> {
    target.as_ref().map(|parts| {
        parts
            .iter()
            .map(|part| String::from_utf8(part.clone()).unwrap())
            .collect::<Vec<String>>()
            .join("/")
    })
}

#[test]
fn installed_binary_names_include_cli_tray_and_adapter() {
    let names = installed_binary_names(true);
    assert!(names.contains(&"dicta.exe".to_owned()));
    assert!(names.contains(&"dicta-tray.exe".to_owned()));
    assert!(names.contains(&"dicta-adapter-apple-speech.exe".to_owned()));
    let names = installed_binary_names(false);
    assert!(names.contains(&"dicta".to_owned()));
    assert!(names.contains(&"dicta-tray".to_owned()));
    assert!(names.contains(&"dicta-adapter-apple-speech".to_owned()));
}

#[test]
fn update_installer_command_has_fetch_fallbacks() {
    let command = update_installer_command();
    assert!(command.contains("curl"));
    assert!(command.contains("wget"));
    assert!(command.contains("install.sh"));
    assert!(command.contains("sh \"$tmp\""));
}

#[test]
fn uninstall_confirmation_accepts_y_or_yes_only() {
    assert!(is_uninstall_confirmation("y"));
    assert!(is_uninstall_confirmation("Y"));
    assert!(is_uninstall_confirmation("yes"));
    assert!(is_uninstall_confirmation(" yes\n"));
    assert!(!is_uninstall_confirmation(""));
    assert!(!is_uninstall_confirmation("n"));
    assert!(!is_uninstall_confirmation("no"));
}

#[test]
fn provider_remove_deletes_installed_provider_and_clears_active_state() {
    let installed = vec![test_installed_provider("local-asr", None)];
    let target = removal_target(&installed, "local-asr").unwrap();

    assert_eq!(target.shown_root, "/providers/local-asr");
    assert!(clears_active(&target, &Some("local-asr".to_owned())));
    assert!(!clears_active(&target, &Some("other".to_owned())));
    assert!(!clears_active(&target, &None));
    assert!(!removal_text(&target, true).is_empty());
    assert_eq!(
        removal_target(&installed, " nope ").unwrap_err(),
        "installed provider 'nope' was not found"
    );
}

#[test]
fn provider_update_uses_npm_metadata_and_skips_local_sources() {
    let npm_provider = from_npm("example-asr");
    let local_provider = test_installed_provider(
        "local-asr",
        Some(ProviderInstallMetadata::local(ProviderInstallSourceKind::Directory, 0)),
    );
    let legacy_provider = test_installed_provider("legacy-asr", None);

    assert_eq!(
        provider_update_package(&npm_provider).as_deref(),
        Some("@dicta-asr/example-asr")
    );
    assert_eq!(provider_update_package(&local_provider), None);
    assert_eq!(
        provider_update_package(&legacy_provider).as_deref(),
        Some("@dicta-asr/legacy-asr")
    );
}

#[test]
fn provider_package_names_use_logical_scope_and_npm_platform_terms() {
    assert_eq!(canonical_provider_package_name("example-asr"), "@dicta-asr/example-asr");
    assert_eq!(
        canonical_provider_package_name("@dicta-asr/example-asr"),
        "@dicta-asr/example-asr"
    );
    assert_eq!(provider_id_from_package_name("@dicta-asr/example-asr"), "example-asr");
    assert!(is_probable_provider_platform_package(
        "@dicta-asr/example-asr",
        "@dicta-asr/example-asr-darwin-arm64"
    ));
    assert!(!is_probable_provider_platform_package(
        "@dicta-asr/example-asr",
        "@dicta-asr/other-asr-darwin-arm64"
    ));
    assert_ne!(npm_current_os("macos"), "macos");
    assert_ne!(npm_current_cpu("aarch64"), "aarch64");
}

#[test]
fn npm_platform_constraints_follow_current_platform() {
    let current_os = npm_current_os("linux");
    let current_cpu = npm_current_cpu("x86_64");

    assert!(npm_list_allows(&vec![], &current_os));
    assert!(npm_list_allows(&vec![current_os.clone()], &current_os));
    assert!(!npm_list_allows(&vec![format!("!{current_os}")], &current_os));
    assert!(!npm_list_allows(&vec!["definitely-other".to_owned()], &current_os));

    let package = NpmPackageVersion {
        os: vec![current_os.clone()],
        cpu: vec![current_cpu.clone()],
        optional_dependencies: vec![],
        dist: NpmPackageDist {
            tarball: "https://registry.npmjs.org/example/-/example.tgz".to_owned(),
            integrity: None,
        },
    };
    assert!(npm_package_version_matches_platform(&package, &current_os, &current_cpu));
}

#[test]
fn npm_platforms_have_their_own_names() {
    assert_eq!(npm_current_os("macos"), "darwin");
    assert_eq!(npm_current_os("windows"), "win32");
    assert_eq!(npm_current_os("linux"), "linux");
    assert_eq!(npm_current_cpu("aarch64"), "arm64");
    assert_eq!(npm_current_cpu("x86_64"), "x64");
    assert!(npm_list_allows(&vec!["!win32".to_owned()], "linux"));
    assert!(!npm_list_allows(&vec!["linux".to_owned(), "!linux".to_owned()], "linux"));
}

#[test]
fn versions_are_resolved_by_tag_or_by_number() {
    let known = metadata("p", "1.2.0", version(&[], &[], "t"));
    assert_eq!(resolve_npm_version(&known, "latest"), Ok("1.2.0".to_owned()));
    assert_eq!(resolve_npm_version(&known, "1.2.0"), Ok("1.2.0".to_owned()));
    assert!(resolve_npm_version(&known, "9.9.9").unwrap_err().contains("9.9.9"));
    assert_eq!(resolve_npm_package_version(&known, &None), Ok("1.2.0".to_owned()));
    assert!(resolve_npm_package_version(&known, &Some("9.9.9".to_owned())).is_err());
    assert_eq!(
        version_query("qianwen", " https://registry.npmjs.org/ "),
        (
            "@dicta-asr/qianwen".to_owned(),
            "https://registry.npmjs.org/@dicta-asr%2Fqianwen".to_owned()
        )
    );
}

#[test]
fn integrity_is_checked_by_its_digest() {
    let data = b"tarball".to_vec();
    let digest = sha2::Sha512::digest(&data);
    let good =
        format!("sha512-{}", base64::engine::general_purpose::STANDARD.encode(digest));
    assert_eq!(verify_npm_integrity(&data, &good), Ok(()));
    assert_eq!(
        verify_npm_integrity(&b"other".to_vec(), &good),
        Err("npm tarball integrity check failed".to_owned())
    );
    assert_eq!(
        verify_npm_integrity(&data, "sha512-***"),
        Err("failed to decode npm sha512 integrity".to_owned())
    );
    assert_eq!(
        verify_npm_integrity(&data, "sha1-abc"),
        Err("unsupported npm integrity algorithm: sha1-abc".to_owned())
    );
    assert_eq!(check_digest(&Some(vec![1, 2]), &vec![1, 2]), Ok(()));
    assert!(check_digest(&Some(vec![1]), &vec![1, 2]).is_err());
    assert!(check_digest(&None, &vec![]).is_err());
}

#[test]
fn searches_are_limited_to_the_scope_and_the_keyword() {
    let (url, words, size) = search_query("https://registry.npmjs.org/", "@dicta-asr", "k", 0);
    assert_eq!(url, "https://registry.npmjs.org/-/v1/search");
    assert_eq!(words, "scope:dicta-asr keywords:k");
    assert_eq!(size, "1");
    let package = |name: &str, keyword: &str| NpmSearchPackage {
        name: name.to_owned(),
        version: "1.0.0".to_owned(),
        description: None,
        keywords: vec![keyword.to_owned()],
    };
    let found = filter_search(
        &vec![package("@dicta-asr/a", "k"), package("@other/b", "k"), package("@dicta-asr/c", "x")],
        "dicta-asr",
        "k",
    );
    assert_eq!(found.len(), 1);
    assert_eq!(found[0].name, "@dicta-asr/a");
    assert_eq!(normal_scope("@dicta-asr"), "dicta-asr");
    assert_eq!(npm_package_url_name("@dicta-asr/a"), "@dicta-asr%2Fa");
}

#[test]
fn fetch_prefers_the_package_of_the_platform() {
    let (mut fetch, ask) =
        NpmFetch::new("example-asr", &None, "https://registry.npmjs.org/", "linux", "x64");
    assert_eq!(
        ask,
        NpmAsk::Metadata {
            name: "@dicta-asr/example-asr".to_owned(),
            url: "https://registry.npmjs.org/@dicta-asr%2Fexample-asr".to_owned(),
        }
    );
    let root = version(
        &[],
        &[
            ("@dicta-asr/unrelated", "1.0.0"),
            ("@dicta-asr/example-asr-darwin-arm64", "1.0.0"),
            ("@dicta-asr/example-asr-linux-x64", "1.0.0"),
        ],
        "https://r/root.tgz",
    );
    let asked = fetch.on_metadata(&metadata("@dicta-asr/example-asr", "1.0.0", root));
    assert!(matches!(asked, NpmAsk::Metadata { name, .. } if name.ends_with("darwin-arm64")));
    let mac = metadata(
        "@dicta-asr/example-asr-darwin-arm64",
        "1.0.0",
        version(&["darwin"], &[], "https://r/mac.tgz"),
    );
    let asked = fetch.on_metadata(&mac);
    assert!(matches!(asked, NpmAsk::Metadata { name, .. } if name.ends_with("linux-x64")));
    let linux = metadata(
        "@dicta-asr/example-asr-linux-x64",
        "1.0.0",
        version(&["linux"], &[], "https://r/linux.tgz"),
    );
    assert!(matches!(fetch.on_metadata(&linux), NpmAsk::Metadata { .. }));
    assert_eq!(
        fetch.on_metadata(&linux),
        NpmAsk::Tarball { url: "https://r/linux.tgz".to_owned() }
    );
    assert_eq!(
        fetch.on_data(&b"data".to_vec()),
        NpmAsk::Done {
            description: "@dicta-asr/example-asr@1.0.0 -> @dicta-asr/example-asr-linux-x64@1.0.0"
                .to_owned(),
            package_name: "@dicta-asr/example-asr".to_owned(),
            version: "1.0.0".to_owned(),
        }
    );
}

#[test]
fn fetch_takes_the_package_itself_where_it_fits() {
    let start = || NpmFetch::new("example-asr", &None, "https://r", "linux", "x64").0;
    let mut fetch = start();
    let own = metadata("@dicta-asr/example-asr", "2.0.0", version(&[], &[], "https://r/own.tgz"));
    assert_eq!(fetch.on_metadata(&own), NpmAsk::Tarball { url: "https://r/own.tgz".to_owned() });
    assert!(matches!(fetch.on_data(&vec![]), NpmAsk::Done { version, .. } if version == "2.0.0"));

    let mut fetch = start();
    let other = metadata("@dicta-asr/example-asr", "2.0.0", version(&["win32"], &[], "t"));
    assert_eq!(
        fetch.on_metadata(&other),
        NpmAsk::Failed(
            "npm package '@dicta-asr/example-asr@2.0.0' does not support this platform (linux / x64)"
                .to_owned()
        )
    );
}

#[test]
fn archives_are_unpacked_below_the_package_only() {
    let data = tarball(&[
        ("package/provider.toml", b"id"),
        ("package/bin/run", b"#!"),
        ("loose.txt", b"x"),
    ]);
    let plan = plan_unpacking(&data, false).unwrap();
    let targets: Vec<Option<String>> = plan.iter().map(names).collect();
    assert_eq!(
        targets,
        vec![
            Some("provider.toml".to_owned()),
            Some("bin/run".to_owned()),
            Some("loose.txt".to_owned()),
        ]
    );
    assert!(plan_unpacking(&b"no archive".to_vec(), false).is_err());
}

#[test]
fn archive_paths_never_leave_the_directory() {
    let clean = |s: &str| names(&sanitize_provider_archive_path(&s.as_bytes().to_vec(), false));
    assert_eq!(clean("package/a/b"), Some("a/b".to_owned()));
    assert_eq!(clean("a/./b"), Some("a/b".to_owned()));
    assert_eq!(clean("/etc/passwd"), None);
    assert_eq!(clean("package/../../x"), None);
    assert_eq!(clean("package"), None);
    assert_eq!(clean("..\\x"), Some("..\\x".to_owned()));
    let on_windows =
        |s: &str| names(&sanitize_provider_archive_path(&s.as_bytes().to_vec(), true));
    assert_eq!(on_windows("package\\a/b"), Some("a/b".to_owned()));
    assert_eq!(on_windows("..\\x"), None);
    assert_eq!(on_windows("\\x"), None);
    assert_eq!(on_windows("C:x"), None);
    assert_eq!(on_windows("a/c:\\x"), None);
    assert_eq!(on_windows("1:x"), Some("1:x".to_owned()));
    let entry = |path: &str, is_file: bool, is_dir: bool| ArchiveEntry {
        path: path.as_bytes().to_vec(),
        is_file,
        is_dir,
    };
    let entries = vec![
        entry("package/link", false, false),
        entry("package/dir", false, true),
        entry("package/file", true, false),
    ];
    let plan = plan_entries(&entries, false).unwrap();
    assert_eq!(plan[0], None);
    assert_eq!(names(&plan[2]), Some("file".to_owned()));
    let unreadable = vec![ArchiveEntry { path: vec![0xff], is_file: true, is_dir: false }];
    assert!(plan_entries(&unreadable, false).is_ok());
    assert_eq!(
        plan_entries(&unreadable, true),
        Err("failed to read provider package entry path".to_owned())
    );
}

#[test]
fn manifests_must_name_a_simple_id_and_a_command_inside() {
    let good = test_installed_provider("a", None).manifest;
    assert_eq!(validate_provider_manifest(&good, true, "/p/a"), Ok(()));
    let fault = |change: &dyn Fn(&mut ProviderPackageManifest), is_file: bool| {
        let mut manifest = test_installed_provider("a", None).manifest;
        change(&mut manifest);
        validate_provider_manifest(&manifest, is_file, "/p/a").unwrap_err()
    };
    assert_eq!(fault(&|m| m.id = " ".to_owned(), true), "provider manifest id is required");
    assert_eq!(
        fault(&|m| m.id = "a/b".to_owned(), true),
        "provider manifest id must be a simple directory name"
    );
    assert_eq!(
        fault(&|m| m.protocol = "x".to_owned(), true),
        "provider 'a' uses unsupported protocol 'x'; expected 'dicta-provider-jsonl-v1'"
    );
    assert_eq!(
        fault(&|m| m.command = path("/bin/a"), true),
        "provider 'a' command must be a relative path"
    );
    assert_eq!(fault(&|_| {}, false), "provider 'a' command does not exist: /p/a");
    let rooted = |root: &str| FilePath { root: root.to_owned(), names: vec!["a".to_owned()] };
    for root in ["C:\\", "\\\\server\\share\\", "\\\\?\\C:"] {
        assert_eq!(
            fault(&|m| m.command = rooted(root), true),
            "provider 'a' command must be a relative path"
        );
    }
    for root in ["\\", "C:"] {
        let mut manifest = test_installed_provider("a", None).manifest;
        manifest.command = rooted(root);
        assert_eq!(validate_provider_manifest(&manifest, true, "/p/a"), Ok(()));
    }
}

#[test]
fn packages_come_from_a_directory_a_file_or_the_registry() {
    assert_eq!(
        install_source(" ./p ", true, false),
        Ok(InstallSource::Directory("./p".to_owned()))
    );
    assert_eq!(
        install_source("p.tgz", false, true),
        Ok(InstallSource::Tarball("p.tgz".to_owned()))
    );
    assert_eq!(install_source("p", false, false), Ok(InstallSource::Npm("p".to_owned())));
    assert!(install_source("  ", false, false).is_err());
    assert!(check_install_place("p", true, true, "/p").is_ok());
    assert_eq!(
        check_install_place("p", true, false, "/p").unwrap_err(),
        "provider 'p' is already installed at /p; pass --force to replace it"
    );
}

#[test]
fn installed_packages_are_reported() {
    let report = install_report(&from_npm("a"), "npm");
    assert_eq!(report.id, "a");
    assert_eq!(report.source_package.as_deref(), Some("@dicta-asr/a"));
    assert!(install_text(&report).iter().any(|line| line.contains("/providers/a")));

    let found = filter_search(
        &vec![NpmSearchPackage {
            name: "@dicta-asr/a".to_owned(),
            version: "0.2.0".to_owned(),
            description: Some("about".to_owned()),
            keywords: vec!["k".to_owned()],
        }],
        "dicta-asr",
        "k",
    );
    let available =
        available_report("https://r", "dicta-asr", "k", &found, &vec![from_npm("a")]);
    assert!(available.packages[0].installed && available.packages[0].update_available);
    assert_eq!(available.packages[0].provider_id, "a");
    assert!(!available_text(&available).is_empty());
}

#[test]
fn updates_skip_what_is_current_or_local() {
    let p = from_npm("a");
    assert_eq!(
        start_update(&p, "https://other"),
        UpdateStart::Check {
            package: "@dicta-asr/a".to_owned(),
            registry: DEFAULT_NPM_REGISTRY.to_owned(),
        }
    );
    let local = test_installed_provider(
        "l",
        Some(ProviderInstallMetadata::local(ProviderInstallSourceKind::Tarball, 0)),
    );
    assert!(matches!(start_update(&local, "https://r"), UpdateStart::Skip(e) if e.skipped));
    assert!(up_to_date(&p, "@dicta-asr/a", "0.1.0", false).unwrap().skipped);
    assert!(up_to_date(&p, "@dicta-asr/a", "0.1.0", true).is_none());
    assert!(up_to_date(&p, "@dicta-asr/a", "0.2.0", false).is_none());
    let entry = updated(&p, install_report(&p, "npm"));
    assert!(!entry.skipped);
    assert!(!update_text("https://r", &vec![entry]).is_empty());
    assert!(provider_matches_name_or_package(&p, "@dicta-asr/a"));
    let all = vec![p, local];
    assert_eq!(provider_update_targets(&all, &None).unwrap().len(), 2);
    assert_eq!(provider_update_targets(&all, &Some("l".to_owned())).unwrap()[0].id(), "l");
    assert!(provider_update_targets(&all, &Some("x".to_owned())).is_err());
    let fetched =
        ProviderInstallMetadata::fetched("p".to_owned(), "https://r", "1".to_owned(), 3);
    assert_eq!(fetched.source, ProviderInstallSourceKind::Npm);
}

#[test]
fn chosen_provider_must_be_known() {
    let known = Ok(vec![("openai".to_owned(), builtin_provider_profile("openai").unwrap())]);
    assert_eq!(check_choice(" openai ", &known), Ok("openai".to_owned()));
    assert!(check_choice("active", &known).is_err());
    assert!(check_choice("x", &known).unwrap_err().contains("'x' was not found"));
    assert_eq!(check_choice("x", &Err("broken".to_owned())), Err("broken".to_owned()));
}

#[test]
fn files_are_kept_in_the_directories_of_the_system() {
    assert_eq!(config_dir(&homes(), "dicta"), Some(path("/home/me/.config/dicta")));
    let xdg = Homes { xdg_config_home: Some(path("/cfg")), ..homes() };
    assert_eq!(config_dir(&xdg, "vo"), Some(path("/cfg/vo")));
    assert!(config_dir(&Homes { home: None, ..homes() }, "vo").is_none());
    assert!(data_dir(&homes()).is_some());
    assert_eq!(
        configured_provider_config_path(&Some(path("/x.toml")), &homes(), "dicta"),
        Some(path("/x.toml"))
    );
    assert_eq!(provider_state_path(&Some(path("/s")), &homes()), Some(path("/s")));
    assert_eq!(provider_install_dir(&Some(path("/i")), &homes()), Some(path("/i")));
    assert!(provider_install_dir(&None, &homes()).is_some());
    assert!(staging_name(7, 9).contains('7') && staging_name(7, 9).contains('9'));
}

#[test]
fn tray_is_found_beside_the_tool_in_the_tree_or_on_the_path() {
    let exe = path("/opt/dicta");
    let beside = path("/opt/dicta/dicta-tray");
    assert_eq!(
        resolve_tray_launcher(&exe, false, "debug", &vec![], &vec![beside.copied()]),
        Some(TrayLauncher::Binary(beside))
    );
    let elsewhere = path("/usr/bin/dicta-tray");
    assert_eq!(
        resolve_tray_launcher(
            &exe,
            false,
            "debug",
            &vec![path("/usr/bin")],
            &vec![elsewhere.copied()]
        ),
        Some(TrayLauncher::Binary(elsewhere.copied()))
    );
    assert_eq!(resolve_tray_launcher(&exe, false, "debug", &vec![], &vec![]), None);
    assert_eq!(
        find_executable_in(&vec![path("/bin"), path("/usr/bin")], "dicta-tray", &vec![elsewhere]),
        Some(path("/usr/bin/dicta-tray"))
    );
    assert_eq!(find_repo_root_from(&exe, &vec![]), None);
}

#[test]
fn uninstalling_names_what_it_removed() {
    let lines = uninstall_text(&vec![("/bin/dicta".to_owned(), true)], "/bin");
    assert_eq!(
        lines,
        vec![
            "dicta uninstall: removed /bin/dicta",
            "dicta uninstall: configuration files were left in place"
        ]
    );
    let none = uninstall_text(&vec![("/bin/dicta".to_owned(), false)], "/bin");
    assert!(none.contains(
        &"dicta uninstall: no installed dicta binaries found in /bin".to_owned()
    ));
}

#[test]
fn interface_starts_with_a_known_provider() {
    let cli = |provider: Option<&str>| Cli {
        asr: AsrBackend::Auto,
        api_base: None,
        api_key: None,
        api_model: None,
        provider: provider.map(str::to_owned),
        provider_config: None,
        src: None,
        dst: None,
        native_adapter: None,
        input: None,
        mic_duration: None,
        live: false,
        live_chunk: None,
        no_mic: false,
        no_speaker: false,
        voice_processing: false,
        select_device: false,
        json: false,
        transcript: None,
        doctor: false,
        capabilities: false,
        ui: true,
        provider_state: None,
        provider_dir: None,
    };
    let environment = ui_environment(&cli(None), "/bin/dicta", &Some("/c".to_owned()), &None);
    assert_eq!(environment[0], ("DICTA_BIN", "/bin/dicta".to_owned()));
    assert_eq!(environment[1], ("DICTA_PROVIDER_CONFIG", "/c".to_owned()));
    assert_eq!(
        environment[2],
        ("DICTA_UI_LIVE_ARGS", "--provider\nactive\n--live".to_owned())
    );
    assert_eq!(environment[3], ("DICTA_UI_AUTOSTART", "0".to_owned()));
    let known = Ok(vec![("openai".to_owned(), builtin_provider_profile("openai").unwrap())]);
    assert_eq!(choose_for_ui(&cli(None), &known), Ok(None));
    assert_eq!(choose_for_ui(&cli(Some("active")), &known), Ok(None));
    assert_eq!(choose_for_ui(&cli(Some("openai")), &known), Ok(Some("openai".to_owned())));
    assert!(choose_for_ui(&cli(Some("x")), &known).is_err());
}

#[test]
fn installed_providers_are_in_order_and_listed_once() {
    let mut newer = test_installed_provider("a", None);
    newer.manifest.version = Some("0.2.0".to_owned());
    let found = vec![
        FoundEntry::Package(test_installed_provider("b", None)),
        FoundEntry::Other,
        FoundEntry::Package(test_installed_provider("a", None)),
        FoundEntry::Package(newer),
    ];
    let all = installed_providers(&found).unwrap();
    assert_eq!(all.iter().map(|p| p.id()).collect::<Vec<&str>>(), vec!["a", "b"]);
    assert_eq!(all[0].manifest.version.as_deref(), Some("0.2.0"));

    let broken = vec![FoundEntry::Broken("failed to load".to_owned()), FoundEntry::Other];
    assert_eq!(installed_providers(&broken).unwrap_err(), "failed to load");
    let mut gone = test_installed_provider("a", None);
    gone.command_is_file = false;
    assert_eq!(
        installed_providers(&vec![FoundEntry::Package(gone)]).unwrap_err(),
        "provider 'a' command does not exist: /providers/a/bin/a"
    );
}

#[test]
fn update_goes_through_the_providers_one_by_one() {
    let local = test_installed_provider(
        "local",
        Some(ProviderInstallMetadata::local(ProviderInstallSourceKind::Directory, 0)),
    );
    let all = vec![from_npm("a"), local, from_npm("b")];
    let (mut updates, ask) =
        ProviderUpdates::new(&all, &None, "https://registry.npmjs.org", false).unwrap();
    let version = |id: &str| UpdateAsk::Version {
        package: format!("@dicta-asr/{id}"),
        registry: DEFAULT_NPM_REGISTRY.to_owned(),
    };
    assert_eq!(ask, version("a"));
    assert_eq!(updates.on_version("0.1.0"), version("b"));
    assert_eq!(
        updates.on_version("0.2.0"),
        UpdateAsk::Install {
            package: "@dicta-asr/b".to_owned(),
            registry: DEFAULT_NPM_REGISTRY.to_owned(),
        }
    );
    assert_eq!(
        updates.on_installed(install_report(&from_npm("b"), "npm")),
        UpdateAsk::Done
    );
    let messages: Vec<&str> = updates.entries.iter().map(|e| e.message.as_str()).collect();
    assert_eq!(
        messages,
        vec![
            "already up to date",
            "provider was installed from a local path; no npm package metadata is available",
            "updated",
        ]
    );
    assert!(ProviderUpdates::new(&all, &Some("x".to_owned()), "https://r", false).is_err());
    let (mut forced, _) =
        ProviderUpdates::new(&all, &Some("a".to_owned()), "https://r", true).unwrap();
    assert!(matches!(forced.on_version("0.1.0"), UpdateAsk::Install { .. }));
}
