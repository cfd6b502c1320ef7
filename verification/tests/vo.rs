//! The vo tool: which provider its options mean, and what it reports.
use dicta::adapter::native_adapter_live_capabilities;
use dicta::asr::{Duration, Transcript};
use dicta::cli::args::{
    live_options_from_cli, resolve_audio_source, should_run_live, validate_batch_options,
    validate_live_options, AsrBackend, Cli, OutputPayload, Seconds,
};
use dicta::cli::log::{transcript_content, validate_transcript_path, PathFacts};
use dicta::cli::profile::{ProfileProviderKind, ProviderProfile};
use dicta::cli::provider::{AppleSupport, ProviderConfig, Surroundings};
use dicta::cli::report::AudioReport;
use dicta::doubao::live::{doubao_live_capabilities, DEFAULT_MODEL};
use dicta::event::{AudioChannel, EventTimestamp};
use dicta::vo::{
    apple_support, backend_details_text, backend_report, build_provider, builtin_provider_profile,
    check_kinds, default_model, default_model_for_name, doctor_audio_hint, doctor_text,
    effective_provider_for, gather_capabilities_report_with_support,
    gather_doctor_report_with_audio, gather_live_report, is_doubao_model_alias,
    live_capabilities_for_backend, resolve_backend_for, resolve_live_backend_for,
    resolve_native_adapter, validate_backend_config, VoBackend, VoCli, VoSetup,
};

fn common() -> Cli {
    Cli {
        asr: AsrBackend::Auto,
        api_base: None,
        api_key: None,
        api_model: None,
        provider: None,
        provider_config: None,
        src: None,
        dst: None,
        native_adapter: None,
        input: None,
        mic_duration: None,
        live: false,
        live_chunk: None,
        no_mic: false,
        no_speaker: false,
        voice_processing: false,
        select_device: false,
        json: false,
        transcript: None,
        doctor: false,
        capabilities: false,
        ui: false,
        provider_state: None,
        provider_dir: None,
    }
}

fn test_cli() -> VoCli {
    VoCli {
        common: common(),
        asr: VoBackend::Auto,
        apple_adapter: None,
        doubao_credential_path: None,
        doubao_device_id: None,
        doubao_token: None,
    }
}

fn with_input() -> VoCli {
    VoCli { common: Cli { input: Some("audio.wav".to_owned()), ..common() }, ..test_cli() }
}

fn with_model(model: &str) -> VoCli {
    VoCli {
        common: Cli { api_model: Some(model.to_owned()), ..with_input().common },
        ..test_cli()
    }
}

fn old_mac() -> AppleSupport {
    AppleSupport {
        version: Some("15.6.1".to_owned()),
        supported: false,
        reason: "macOS 15.6.1 is below 26".to_owned(),
    }
}

fn new_mac() -> AppleSupport {
    AppleSupport {
        version: Some("26.0.0".to_owned()),
        supported: true,
        reason: "macOS 26+ detected".to_owned(),
    }
}

fn around(apple: AppleSupport) -> Surroundings {
    Surroundings {
        apple,
        active: Ok(None),
        installed: Ok(vec![]),
        config: ProviderConfig::Missing,
        environment: vec![],
        either_case: false,
        bundled_adapter: None,
        state_path: None,
    }
}

fn configured(name: &str, profile: ProviderProfile) -> Surroundings {
    Surroundings {
        config: ProviderConfig::Profiles(
            "/config/vo/providers.toml".to_owned(),
            vec![(name.to_owned(), profile)],
        ),
        ..around(old_mac())
    }
}

fn profile(api_base: &str, model: &str) -> ProviderProfile {
    ProviderProfile {
        kind: ProfileProviderKind::OpenaiCompatible,
        api_base: Some(api_base.to_owned()),
        default_model: Some(model.to_owned()),
        api_key: None,
        api_key_env: None,
        batch_file: None,
        streaming: None,
        requires_network: None,
        live_enabled: None,
        notes: vec![],
    }
}

fn seconds(value: f64) -> Seconds {
    Seconds {
        bits: value.to_bits(),
        duration: Duration::from_millis((value * 1000.0) as u64),
        shown: value.to_string(),
    }
}

#[test]
fn auto_uses_doubao_when_apple_on_device_is_unavailable() {
    assert_eq!(
        resolve_backend_for(&with_input(), &around(old_mac())).unwrap(),
        VoBackend::Doubao
    );
}

#[test]
fn auto_keeps_http_provider_until_native_adapter_is_connected() {
    assert_eq!(
        resolve_backend_for(&with_input(), &around(new_mac())).unwrap(),
        VoBackend::OpenaiCompatible
    );
}

#[test]
fn auto_uses_doubao_when_model_is_doubao_default() {
    assert_eq!(
        resolve_backend_for(&with_model(DEFAULT_MODEL), &around(new_mac())).unwrap(),
        VoBackend::Doubao
    );
}

#[test]
fn auto_uses_openai_compatible_when_another_model_is_configured() {
    let cli = VoCli {
        common: Cli {
            api_base: Some("https://example.com".to_owned()),
            api_model: Some("whisper-1".to_owned()),
            input: Some("audio.wav".to_owned()),
            ..common()
        },
        ..test_cli()
    };

    assert_eq!(
        resolve_backend_for(&cli, &around(old_mac())).unwrap(),
        VoBackend::OpenaiCompatible
    );
}

#[test]
fn auto_uses_doubao_when_model_is_compatibility_doubao_alias() {
    assert_eq!(
        resolve_backend_for(&with_model("doubao-asr"), &around(new_mac())).unwrap(),
        VoBackend::Doubao
    );
}

#[test]
fn doubao_builds_without_api_base_or_key() {
    let cli = VoCli { asr: VoBackend::Doubao, ..with_input() };

    assert!(build_provider(VoBackend::Doubao, &cli, &around(old_mac())).is_ok());
}

#[test]
fn doubao_uses_native_ime_model_id() {
    assert_eq!(DEFAULT_MODEL, "doubaoime-asr");
}

#[test]
fn apple_backend_requires_platform_support() {
    let cli = VoCli { asr: VoBackend::Apple, ..with_input() };

    assert!(resolve_backend_for(&cli, &around(old_mac())).is_err());
}

#[test]
fn apple_backend_resolves_when_platform_support_is_available() {
    let cli = VoCli {
        asr: VoBackend::Apple,
        common: Cli {
            native_adapter: Some("vo-adapter-apple-speech".to_owned()),
            ..with_input().common
        },
        ..test_cli()
    };

    assert_eq!(resolve_backend_for(&cli, &around(new_mac())).unwrap(), VoBackend::Apple);
    assert!(build_provider(VoBackend::Apple, &cli, &around(new_mac())).is_ok());
}

#[test]
fn doctor_reports_missing_native_adapter() {
    let cli = VoCli {
        asr: VoBackend::Apple,
        common: Cli { json: true, doctor: true, ..common() },
        ..test_cli()
    };
    let backend = resolve_backend_for(&cli, &around(new_mac())).unwrap();

    assert_eq!(backend, VoBackend::Apple);
    assert!(validate_backend_config(backend, &cli, &around(new_mac()))
        .as_deref()
        .is_some_and(|error| error.contains("--native-adapter")));
}

#[test]
fn rejects_missing_audio_source() {
    assert!(resolve_audio_source(&test_cli().common, false, false).is_err());
}

#[test]
fn rejects_input_and_mic_duration_together() {
    let cli = Cli {
        input: Some("audio.wav".to_owned()),
        mic_duration: Some(seconds(1.0)),
        ..common()
    };

    assert!(resolve_audio_source(&cli, true, true).is_err());
}

#[test]
fn batch_mode_rejects_live_only_translation_target() {
    let cli = Cli { dst: Some("en-US".to_owned()), ..common() };

    assert!(validate_batch_options(&cli).unwrap_err().contains("--dst"));
}

#[test]
fn batch_mode_rejects_live_only_capture_flags() {
    let cli = Cli { select_device: true, ..common() };

    assert!(validate_batch_options(&cli).unwrap_err().contains("--select-device"));
}

#[test]
fn live_mode_requires_apple_backend() {
    let cli = VoCli {
        asr: VoBackend::OpenaiCompatible,
        common: Cli { live: true, ..common() },
        ..test_cli()
    };

    assert!(resolve_live_backend_for(&cli, &around(old_mac()))
        .unwrap_err()
        .contains("--asr apple"));
}

#[test]
fn live_mode_rejects_batch_only_provider_profile() {
    let cli = VoCli {
        common: Cli { live: true, provider: Some("openai".to_owned()), ..common() },
        ..test_cli()
    };

    assert!(resolve_live_backend_for(&cli, &around(old_mac()))
        .unwrap_err()
        .contains("does not support live mode"));
}

#[test]
fn missing_batch_input_defaults_to_live_mode() {
    assert!(should_run_live(&test_cli().common));
}

#[test]
fn input_uses_batch_mode() {
    assert!(!should_run_live(&with_input().common));
}

#[test]
fn live_mode_rejects_disabling_all_capture_sources() {
    let cli = Cli { live: true, no_mic: true, no_speaker: true, ..common() };

    assert!(validate_live_options(&cli, "apple", &native_adapter_live_capabilities(), &None)
        .unwrap_err()
        .contains("--no-mic"));
}

#[test]
fn doubao_live_rejects_apple_only_flags() {
    let cli = Cli { live: true, select_device: true, ..common() };

    assert!(validate_live_options(&cli, "doubao", &doubao_live_capabilities(), &None)
        .unwrap_err()
        .contains("--select-device"));
}

#[test]
fn doubao_live_uses_configured_chunk_duration() {
    let cli = Cli { live: true, live_chunk: Some(seconds(3.0)), ..common() };
    let capabilities = doubao_live_capabilities();

    validate_live_options(&cli, "doubao", &capabilities, &None).unwrap();
    let options = live_options_from_cli(&cli, &capabilities);

    assert_eq!(options.chunk_duration, Duration::from_secs(3));
}

#[test]
fn streaming_live_rejects_chunk_duration() {
    let cli = Cli { live: true, live_chunk: Some(seconds(3.0)), ..common() };

    assert!(validate_live_options(&cli, "apple", &native_adapter_live_capabilities(), &None)
        .unwrap_err()
        .contains("--live-chunk"));
}

fn test_audio_report() -> AudioReport {
    AudioReport {
        default_input_available: false,
        name: None,
        sample_rate: None,
        channels: None,
        sample_format: None,
        error: Some("not probed during tests".to_owned()),
    }
}

#[test]
fn doctor_reports_no_python_sidecar_requirement() {
    let cli = VoCli { common: Cli { json: true, doctor: true, ..common() }, ..test_cli() };
    let w = around(apple_support(false, None));

    let report =
        gather_doctor_report_with_audio(&cli, &w, &None, "linux", "x86_64", test_audio_report());
    assert!(!report.runtime.python_sidecar_required);
    assert!(report.runtime.web_direct_available);
    assert!(report.live.capabilities.is_some() || report.live.error.is_some());
    assert_eq!(report.system.os, "linux");
    let text = doctor_text(&report);
    assert_eq!(text[0], "System");
    assert!(text.contains(&"Backend".to_owned()));
    assert_eq!(text[text.len() - 2], "  Default input: unavailable");
    assert_eq!(text[text.len() - 1], "  Error: not probed during tests");
}

#[test]
fn doctor_reports_native_doubao_without_api_requirement() {
    let cli = VoCli {
        asr: VoBackend::Doubao,
        common: Cli { json: true, doctor: true, ..common() },
        ..test_cli()
    };
    let w = around(old_mac());

    let path = Some("/home/me/.config/vo/doubao-credentials.json".to_owned());
    let report =
        gather_doctor_report_with_audio(&cli, &w, &path, "linux", "x86_64", test_audio_report());
    assert!(doctor_text(&report).iter().any(|line| line.ends_with("doubao-credentials.json")));
    let (backend, live) = (report.backend, report.live);

    assert_eq!(backend.resolved.as_deref(), Some("doubao"));
    assert_eq!(backend.model, DEFAULT_MODEL);
    assert!(!backend.api_base_configured);
    assert!(!backend.api_key_configured);
    assert!(backend.doubao_credential_path.is_some());
    assert!(backend.error.is_none());
    assert_eq!(live.backend.as_deref(), Some("doubao"));
    let told = live.capabilities.expect("doubao live capabilities");
    assert_eq!(told.mode, "chunked");
    assert!(told.mic);
    assert!(!told.speaker);
    assert!(!told.partial_results);
    assert!(told.finalized_results);
    assert_eq!(told.expected_latency.as_deref(), Some("~5s"));
    assert!(backend_details_text(&backend)
        .iter()
        .any(|line| line.contains("doubao-credentials.json")));
}

#[test]
fn capabilities_report_includes_doubao_batch_and_live_flags() {
    let cli = VoCli {
        asr: VoBackend::Doubao,
        common: Cli { capabilities: true, ..common() },
        ..test_cli()
    };

    let report = gather_capabilities_report_with_support(&cli, &around(old_mac()));

    assert_eq!(report.resolved.as_deref(), Some("doubao"));
    assert!(report.local_config_ok);
    assert!(report.batch.as_ref().is_some_and(|batch| batch.batch_file));
    let live = report.live.as_ref().expect("doubao live capabilities");
    assert_eq!(live.mode, "chunked");
    assert!(live.mic);
    assert!(!live.speaker);
    assert!(!live.partial_results);
    assert!(live.finalized_results);
    assert_eq!(live.expected_latency.as_deref(), Some("~5s"));
}

#[test]
fn capabilities_report_marks_openai_compatible_as_batch_only() {
    let cli = VoCli { asr: VoBackend::OpenaiCompatible, ..test_cli() };

    let report = gather_capabilities_report_with_support(&cli, &around(old_mac()));

    assert_eq!(report.resolved.as_deref(), Some("openai-compatible"));
    assert!(report.local_config_ok);
    assert!(report
        .batch
        .as_ref()
        .is_some_and(|batch| batch.batch_file && !batch.streaming && batch.requires_network));
    assert!(report.live.is_none());
}

#[test]
fn provider_profile_resolves_openai_compatible_from_config() {
    let cli = VoCli {
        common: Cli { provider: Some("siliconflow".to_owned()), capabilities: true, ..common() },
        ..test_cli()
    };
    let w = configured(
        "siliconflow",
        ProviderProfile {
            api_key_env: Some("SILICONFLOW_API_KEY".to_owned()),
            notes: vec!["SiliconFlow OpenAI-compatible profile.".to_owned()],
            batch_file: Some(true),
            streaming: Some(false),
            requires_network: Some(true),
            live_enabled: Some(false),
            ..profile("https://api.siliconflow.cn", "FunAudioLLM/SenseVoiceSmall")
        },
    );

    let backend = resolve_backend_for(&cli, &w).unwrap();
    let report = gather_capabilities_report_with_support(&cli, &w);

    assert_eq!(backend, VoBackend::OpenaiCompatible);
    assert_eq!(report.provider.as_deref(), Some("siliconflow"));
    assert_eq!(report.provider_kind.as_deref(), Some("openai-compatible"));
    assert_eq!(report.model, "FunAudioLLM/SenseVoiceSmall");
    assert!(report.local_config_ok);
    assert!(report
        .batch
        .as_ref()
        .is_some_and(|batch| batch.batch_file && !batch.streaming && batch.requires_network));
    assert!(report.live.is_none());
    assert!(report.notes.iter().any(|note| note.contains("SiliconFlow")));
}

#[test]
fn provider_profile_cannot_enable_live_beyond_implementation() {
    let cli = VoCli {
        common: Cli { provider: Some("bad-live".to_owned()), capabilities: true, ..common() },
        ..test_cli()
    };
    let w = configured(
        "bad-live",
        ProviderProfile { live_enabled: Some(true), ..profile("https://example.com", "model") },
    );

    let report = gather_capabilities_report_with_support(&cli, &w);

    assert_eq!(report.resolved.as_deref(), Some("openai-compatible"));
    assert_eq!(report.provider.as_deref(), Some("bad-live"));
    assert!(!report.local_config_ok);
    assert!(report
        .local_config_error
        .as_deref()
        .is_some_and(|error| error.contains("does not support live mode")));
    assert!(report.live.is_none());
}

#[test]
fn provider_profile_accepts_direct_api_key() {
    let cli = VoCli {
        common: Cli { provider: Some("local-key".to_owned()), doctor: true, ..common() },
        ..test_cli()
    };
    let w = configured(
        "local-key",
        ProviderProfile {
            api_key: Some("profile-secret".to_owned()),
            live_enabled: Some(false),
            ..profile("https://example.com", "model")
        },
    );

    let backend = backend_report(&cli, &w, &None);

    assert_eq!(backend.resolved.as_deref(), Some("openai-compatible"));
    assert_eq!(backend.provider.as_deref(), Some("local-key"));
    assert!(backend.api_key_configured);
    assert!(backend.api_base_configured);
}

#[test]
fn builtin_openai_profile_uses_openai_compatible_defaults() {
    let cli = VoCli {
        common: Cli { provider: Some("openai".to_owned()), capabilities: true, ..common() },
        ..test_cli()
    };

    let report = gather_capabilities_report_with_support(&cli, &around(old_mac()));

    assert_eq!(report.resolved.as_deref(), Some("openai-compatible"));
    assert_eq!(report.provider.as_deref(), Some("openai"));
    assert_eq!(report.model, "whisper-1");
    assert!(report.local_config_ok);
}

#[test]
fn capabilities_report_surfaces_apple_adapter_config_error() {
    let cli = VoCli { asr: VoBackend::Apple, ..test_cli() };

    let report = gather_capabilities_report_with_support(&cli, &around(new_mac()));

    assert_eq!(report.resolved.as_deref(), Some("apple"));
    assert!(!report.local_config_ok);
    assert!(report
        .local_config_error
        .as_deref()
        .is_some_and(|error| error.contains("--native-adapter")));
    assert!(report.live.as_ref().is_some_and(|live| live.translation));
}

#[test]
fn capabilities_report_keeps_apple_capabilities_when_platform_is_unavailable() {
    let cli = VoCli { asr: VoBackend::Apple, ..test_cli() };

    let report = gather_capabilities_report_with_support(&cli, &around(old_mac()));

    assert_eq!(report.resolved.as_deref(), Some("apple"));
    assert!(!report.local_config_ok);
    assert!(report.resolution_error.is_none());
    assert!(report
        .local_config_error
        .as_deref()
        .is_some_and(|error| error.contains("unavailable")));
    assert!(report.batch.as_ref().is_some_and(|batch| batch.batch_file));
    assert!(report.live.as_ref().is_some_and(|live| live.translation));
}

#[test]
fn empty_api_values_are_not_treated_as_configured() {
    let cli = VoCli {
        asr: VoBackend::OpenaiCompatible,
        common: Cli {
            api_base: Some("   ".to_owned()),
            api_key: Some("".to_owned()),
            api_model: Some("  ".to_owned()),
            json: true,
            doctor: true,
            ..common()
        },
        ..test_cli()
    };

    let backend = backend_report(&cli, &around(old_mac()), &None);

    assert!(!backend.api_base_configured);
    assert!(!backend.api_key_configured);
    assert_eq!(backend.model, "whisper-1");
}

#[test]
fn writes_plain_transcript_file() {
    let payload = OutputPayload::new(
        Transcript { text: "hello".to_owned(), language: Some("en-US".to_owned()) },
        AudioChannel::File,
        None,
        EventTimestamp::from_unix_second(0).unwrap(),
    );

    let written = transcript_content(false, &payload.event.jsonl(), &payload.text);

    assert_eq!(written, "hello\n");
}

#[test]
fn rejects_transcript_path_when_parent_is_missing() {
    let facts = PathFacts {
        missing_parent: Some("/tmp/vo-definitely-missing-dir".to_owned()),
        is_dir: false,
        exists: false,
    };

    assert!(validate_transcript_path(&facts).is_err());
}

#[test]
fn models_of_doubao_go_by_two_names() {
    assert!(is_doubao_model_alias("doubaoime-asr"));
    assert!(is_doubao_model_alias("doubao-asr"));
    assert!(!is_doubao_model_alias("whisper-1"));
    assert_eq!(default_model(VoBackend::Doubao), "doubaoime-asr");
    assert_eq!(default_model(VoBackend::Apple), "whisper-1");
    assert_eq!(default_model_for_name("doubao"), "doubaoime-asr");
    assert_eq!(default_model_for_name("other"), "whisper-1");
    assert!(builtin_provider_profile("openai").is_some());
    assert!(builtin_provider_profile("doubao").is_none());
}

#[test]
fn adapter_may_be_named_in_either_way() {
    let w = Surroundings { bundled_adapter: Some("/bin/bundled".to_owned()), ..around(new_mac()) };
    assert_eq!(resolve_native_adapter(&test_cli(), &w).as_deref(), Some("/bin/bundled"));
    let apple = VoCli { apple_adapter: Some("/bin/apple".to_owned()), ..test_cli() };
    assert_eq!(resolve_native_adapter(&apple, &w).as_deref(), Some("/bin/apple"));
}

#[test]
fn doubao_is_live_with_its_own_capabilities() {
    let cli = VoCli { asr: VoBackend::Doubao, ..test_cli() };
    let w = around(old_mac());
    assert_eq!(resolve_live_backend_for(&cli, &w), Ok(VoBackend::Doubao));
    assert_eq!(live_capabilities_for_backend(VoBackend::Doubao), doubao_live_capabilities());
    let effective = effective_provider_for(&cli, &w, true).unwrap();
    assert_eq!(effective.backend, VoBackend::Doubao);
    assert_eq!(effective.profile_name(), None);
    let keyed = VoCli { doubao_token: Some("t".to_owned()), ..cli };
    assert!(matches!(
        build_provider(VoBackend::Doubao, &keyed, &w),
        Ok(VoSetup::Doubao { token: Some(t), .. }) if t == "t"
    ));
    assert_eq!(VoBackend::Doubao.as_str(), "doubao");
    assert!(doctor_audio_hint("linux").is_some() || doctor_audio_hint("macos").is_some());
}

#[test]
fn profiles_of_other_kinds_make_the_configuration_unreadable() {
    let good = profile("https://example.com", "m");
    let foreign = ProviderProfile { kind: ProfileProviderKind::External, ..good.clone() };
    assert_eq!(check_kinds(&configured("p", good.clone()).config), Ok(()));
    assert_eq!(check_kinds(&ProviderConfig::Missing), Ok(()));
    let w = Surroundings {
        config: ProviderConfig::Profiles(
            "/config/vo/providers.toml".to_owned(),
            vec![("p".to_owned(), good), ("q".to_owned(), foreign)],
        ),
        ..around(old_mac())
    };
    let named = |name: &str| VoCli {
        common: Cli { provider: Some(name.to_owned()), ..common() },
        ..test_cli()
    };
    assert_eq!(
        resolve_backend_for(&named("p"), &w),
        Err("failed to parse provider config from /config/vo/providers.toml".to_owned())
    );
    assert_eq!(resolve_backend_for(&named("openai"), &w), Ok(VoBackend::OpenaiCompatible));
}
