//! The options of the dicta tool and the provider they mean.
use dicta::adapter::native_adapter_live_capabilities;
use dicta::asr::{AsrProvider, Duration, LiveAsrProvider, ProviderCapabilities, Transcript};
use dicta::cli::args::{
    live_args_for_ui, live_expected_latency, live_options_from_cli, recording_file_name,
    resolve_audio_source, should_run_live, validate_batch_options, validate_live_options,
    AsrBackend, AudioSource, Cli, OutputPayload, Seconds,
};
use dicta::cli::external::ExternalProvider;
use dicta::cli::health::{
    build_provider, plan_request, serve_health_report, serve_models, ProviderSetup,
};
use dicta::cli::listing::{
    available_provider_profiles, gather_current_provider_report, gather_provider_list_report,
};
use dicta::cli::print::{
    capabilities_text, current_provider_text, doctor_text, provider_list_text,
};
use dicta::cli::profile::{
    builtin_provider_profile, InstalledProvider, ProfileProviderKind, ProviderBatchManifest,
    ProviderLiveManifest, ProviderLiveModeManifest, ProviderPackageManifest, ProviderProfile,
};
use dicta::cli::provider::{
    apple_support, effective_provider_for, live_options, openai_compatible_api_base, openai_compatible_api_key,
    openai_compatible_model, resolve_backend_for, resolve_live_backend_for,
    resolve_provider_profile_for, validate_backend_config, AppleSupport, ProviderConfig,
    Surroundings,
};
use dicta::cli::report::{
    format_duration, gather_capabilities_report_with_support, gather_doctor_report_with_audio,
    gather_live_report, AudioReport,
};
use dicta::cli::serve::{ServeResponseFormat, ServeTranscriptionRequest, ServeUploadedAudio};
use dicta::event::{AudioChannel, EventTimestamp};
use dicta::path::FilePath;

fn test_cli() -> Cli {
    Cli {
        asr: AsrBackend::Auto,
        api_base: None,
        api_key: None,
        api_model: None,
        provider: None,
        provider_config: None,
        src: None,
        dst: None,
        native_adapter: None,
        input: None,
        mic_duration: None,
        live: false,
        live_chunk: None,
        no_mic: false,
        no_speaker: false,
        voice_processing: false,
        select_device: false,
        json: false,
        transcript: None,
        doctor: false,
        capabilities: false,
        ui: false,
        provider_state: None,
        provider_dir: None,
    }
}

fn test_audio_report() -> AudioReport {
    AudioReport {
        default_input_available: false,
        name: None,
        sample_rate: None,
        channels: None,
        sample_format: None,
        error: Some("not probed during tests".to_owned()),
    }
}

fn old_mac() -> AppleSupport {
    AppleSupport {
        version: Some("15.6.1".to_owned()),
        supported: false,
        reason: "macOS 15.6.1 is below 26".to_owned(),
    }
}

fn new_mac() -> AppleSupport {
    AppleSupport {
        version: Some("26.0.0".to_owned()),
        supported: true,
        reason: "macOS 26+ detected".to_owned(),
    }
}

fn around(apple: AppleSupport) -> Surroundings {
    Surroundings {
        apple,
        active: Ok(None),
        installed: Ok(vec![]),
        config: ProviderConfig::Missing,
        environment: vec![],
        either_case: false,
        bundled_adapter: None,
        state_path: Some("/state/active-provider.json".to_owned()),
    }
}

fn seconds(value: f64) -> Seconds {
    Seconds {
        bits: value.to_bits(),
        duration: Duration::from_millis((value * 1000.0) as u64),
        shown: value.to_string(),
    }
}

fn profile(kind: ProfileProviderKind) -> ProviderProfile {
    ProviderProfile {
        kind,
        api_base: None,
        default_model: None,
        api_key: None,
        api_key_env: None,
        batch_file: None,
        streaming: None,
        requires_network: None,
        live_enabled: None,
        notes: vec![],
    }
}

fn configured(apple: AppleSupport, name: &str, profile: ProviderProfile) -> Surroundings {
    Surroundings {
        config: ProviderConfig::Profiles(
            "/config/providers.toml".to_owned(),
            vec![(name.to_owned(), profile)],
        ),
        ..around(apple)
    }
}

fn siliconflow() -> ProviderProfile {
    ProviderProfile {
        api_base: Some("https://api.siliconflow.cn".to_owned()),
        default_model: Some("FunAudioLLM/SenseVoiceSmall".to_owned()),
        api_key_env: Some("SILICONFLOW_API_KEY".to_owned()),
        notes: vec!["SiliconFlow OpenAI-compatible profile.".to_owned()],
        batch_file: Some(true),
        streaming: Some(false),
        requires_network: Some(true),
        live_enabled: Some(false),
        ..profile(ProfileProviderKind::OpenaiCompatible)
    }
}

fn local_asr() -> InstalledProvider {
    InstalledProvider {
        root: FilePath {
            root: "/".to_owned(),
            names: vec!["providers".to_owned(), "local-asr".to_owned()],
        },
        manifest: ProviderPackageManifest {
            id: "local-asr".to_owned(),
            name: Some("Test ASR".to_owned()),
            version: Some("0.1.0".to_owned()),
            protocol: "dicta-provider-jsonl-v1".to_owned(),
            command: FilePath {
                root: String::new(),
                names: vec!["bin".to_owned(), "local-asr".to_owned()],
            },
            model: Some("local-asr".to_owned()),
            batch: ProviderBatchManifest::default(),
            live: Some(ProviderLiveManifest {
                mode: ProviderLiveModeManifest::Chunked,
                mic: true,
                finalized_results: true,
                expected_latency_ms: Some(5000),
                ..ProviderLiveManifest::default()
            }),
            notes: vec!["Installed from a local directory.".to_owned()],
        },
        install_metadata: None,
        shown_root: "/providers/local-asr".to_owned(),
        shown_command: "/providers/local-asr/bin/local-asr".to_owned(),
        command_is_file: true,
    }
}

#[test]
fn manifests_may_offer_push_to_talk() {
    let live = ProviderLiveManifest { ptt: true, ..ProviderLiveManifest::default() };
    assert!(live.capabilities().ptt);
    assert!(!ProviderLiveManifest::default().capabilities().ptt);
}

#[test]
fn auto_uses_openai_compatible_when_apple_on_device_is_unavailable() {
    let cli = Cli { input: Some("audio.wav".to_owned()), ..test_cli() };

    assert_eq!(
        resolve_backend_for(&cli, &around(old_mac())).unwrap(),
        AsrBackend::OpenaiCompatible
    );
}

#[test]
fn main_auto_keeps_http_provider_until_native_adapter_is_connected() {
    let cli = Cli { input: Some("audio.wav".to_owned()), ..test_cli() };

    assert_eq!(
        resolve_backend_for(&cli, &around(new_mac())).unwrap(),
        AsrBackend::OpenaiCompatible
    );
}

#[test]
fn auto_uses_openai_compatible_when_model_is_configured() {
    let cli = Cli {
        api_base: Some("https://example.com".to_owned()),
        api_model: Some("whisper-1".to_owned()),
        input: Some("audio.wav".to_owned()),
        ..test_cli()
    };

    assert_eq!(
        resolve_backend_for(&cli, &around(old_mac())).unwrap(),
        AsrBackend::OpenaiCompatible
    );
}

#[test]
fn main_apple_backend_requires_platform_support() {
    let cli = Cli {
        asr: AsrBackend::Apple,
        input: Some("audio.wav".to_owned()),
        ..test_cli()
    };

    assert!(resolve_backend_for(&cli, &around(old_mac())).is_err());
}

#[test]
fn main_apple_backend_resolves_when_platform_support_is_available() {
    let cli = Cli {
        asr: AsrBackend::Apple,
        native_adapter: Some("dicta-adapter-apple-speech".to_owned()),
        input: Some("audio.wav".to_owned()),
        ..test_cli()
    };
    let w = around(new_mac());

    assert_eq!(resolve_backend_for(&cli, &w).unwrap(), AsrBackend::Apple);
    assert!(build_provider(AsrBackend::Apple, &cli, &w).is_ok());
}

#[test]
fn main_doctor_reports_missing_native_adapter() {
    let cli = Cli { asr: AsrBackend::Apple, json: true, doctor: true, ..test_cli() };
    let w = around(new_mac());
    let backend = resolve_backend_for(&cli, &w).unwrap();

    assert_eq!(backend, AsrBackend::Apple);
    assert!(validate_backend_config(backend, &cli, &w)
        .as_deref()
        .is_some_and(|error| error.contains("--native-adapter")));
}

#[test]
fn main_rejects_missing_audio_source() {
    let cli = test_cli();

    assert!(resolve_audio_source(&cli, false, false).is_err());
}

#[test]
fn main_rejects_input_and_mic_duration_together() {
    let cli = Cli {
        input: Some("audio.wav".to_owned()),
        mic_duration: Some(seconds(1.0)),
        ..test_cli()
    };

    assert!(resolve_audio_source(&cli, true, true).is_err());
}

#[test]
fn main_batch_mode_rejects_live_only_translation_target() {
    let cli = Cli { dst: Some("en-US".to_owned()), ..test_cli() };

    assert!(validate_batch_options(&cli).unwrap_err().contains("--dst"));
}

#[test]
fn main_batch_mode_rejects_live_only_capture_flags() {
    let cli = Cli { select_device: true, ..test_cli() };

    assert!(validate_batch_options(&cli).unwrap_err().contains("--select-device"));
}

#[test]
fn live_mode_rejects_openai_compatible_backend() {
    let cli = Cli { live: true, asr: AsrBackend::OpenaiCompatible, ..test_cli() };

    assert!(resolve_live_backend_for(&cli, &around(old_mac()))
        .unwrap_err()
        .contains("installed live provider"));
}

#[test]
fn main_live_mode_rejects_batch_only_provider_profile() {
    let cli = Cli { live: true, provider: Some("openai".to_owned()), ..test_cli() };

    assert!(resolve_live_backend_for(&cli, &around(old_mac()))
        .unwrap_err()
        .contains("does not support live mode"));
}

#[test]
fn main_missing_batch_input_defaults_to_live_mode() {
    let cli = test_cli();

    assert!(should_run_live(&cli));
}

#[test]
fn main_input_uses_batch_mode() {
    let cli = Cli { input: Some("audio.wav".to_owned()), ..test_cli() };

    assert!(!should_run_live(&cli));
}

#[test]
fn main_live_mode_rejects_disabling_all_capture_sources() {
    let cli = Cli {
        live: true,
        asr: AsrBackend::Apple,
        no_mic: true,
        no_speaker: true,
        ..test_cli()
    };

    assert!(validate_live_options(&cli, "apple", &native_adapter_live_capabilities(), &None)
        .unwrap_err()
        .contains("--no-mic"));
}

#[test]
fn main_streaming_live_rejects_chunk_duration() {
    let cli = Cli {
        live: true,
        asr: AsrBackend::Apple,
        live_chunk: Some(seconds(3.0)),
        ..test_cli()
    };

    assert!(validate_live_options(&cli, "apple", &native_adapter_live_capabilities(), &None)
        .unwrap_err()
        .contains("--live-chunk"));
}

#[test]
fn main_doctor_reports_no_python_sidecar_requirement() {
    let cli = Cli { json: true, doctor: true, ..test_cli() };

    let report = gather_doctor_report_with_audio(
        &cli,
        &around(apple_support(false, None)),
        "linux",
        "x86_64",
        test_audio_report(),
    );
    assert!(!report.runtime.python_sidecar_required);
    assert!(report.runtime.web_direct_available);
    assert!(report.live.capabilities.is_some() || report.live.error.is_some());
    assert_eq!(report.system.os, "linux");
    assert!(doctor_text(&report).iter().any(|line| line.contains("linux")));
}

#[test]
fn main_capabilities_report_marks_openai_compatible_as_batch_only() {
    let cli = Cli { asr: AsrBackend::OpenaiCompatible, capabilities: true, ..test_cli() };

    let report = gather_capabilities_report_with_support(&cli, &around(old_mac()));

    assert_eq!(report.resolved.as_deref(), Some("openai-compatible"));
    assert!(report.local_config_ok);
    assert!(report
        .batch
        .as_ref()
        .is_some_and(|batch| batch.batch_file && !batch.streaming && batch.requires_network));
    assert!(report.live.is_none());
}

#[test]
fn main_provider_profile_resolves_openai_compatible_from_config() {
    let cli = Cli { provider: Some("siliconflow".to_owned()), capabilities: true, ..test_cli() };
    let w = configured(old_mac(), "siliconflow", siliconflow());

    let backend = resolve_backend_for(&cli, &w).unwrap();
    let report = gather_capabilities_report_with_support(&cli, &w);

    assert_eq!(backend, AsrBackend::OpenaiCompatible);
    assert_eq!(report.provider.as_deref(), Some("siliconflow"));
    assert_eq!(report.provider_kind.as_deref(), Some("openai-compatible"));
    assert_eq!(report.model, "FunAudioLLM/SenseVoiceSmall");
    assert!(report.local_config_ok);
    assert!(report
        .batch
        .as_ref()
        .is_some_and(|batch| batch.batch_file && !batch.streaming && batch.requires_network));
    assert!(report.live.is_none());
    assert!(report.notes.iter().any(|note| note.contains("SiliconFlow")));
}

#[test]
fn main_provider_profile_cannot_enable_live_beyond_implementation() {
    let bad = ProviderProfile {
        api_base: Some("https://example.com".to_owned()),
        default_model: Some("model".to_owned()),
        live_enabled: Some(true),
        ..profile(ProfileProviderKind::OpenaiCompatible)
    };
    let cli = Cli { provider: Some("bad-live".to_owned()), capabilities: true, ..test_cli() };

    let report =
        gather_capabilities_report_with_support(&cli, &configured(old_mac(), "bad-live", bad));

    assert_eq!(report.resolved.as_deref(), Some("openai-compatible"));
    assert_eq!(report.provider.as_deref(), Some("bad-live"));
    assert!(!report.local_config_ok);
    assert!(report
        .local_config_error
        .as_deref()
        .is_some_and(|error| error.contains("does not support live mode")));
    assert!(report.live.is_none());
}

#[test]
fn main_provider_profile_accepts_direct_api_key() {
    let keyed = ProviderProfile {
        api_base: Some("https://example.com".to_owned()),
        default_model: Some("model".to_owned()),
        api_key: Some("profile-secret".to_owned()),
        live_enabled: Some(false),
        ..profile(ProfileProviderKind::OpenaiCompatible)
    };
    let cli = Cli { provider: Some("local-key".to_owned()), doctor: true, ..test_cli() };

    let report = gather_doctor_report_with_audio(
        &cli,
        &configured(old_mac(), "local-key", keyed),
        "linux",
        "x86_64",
        test_audio_report(),
    );

    assert_eq!(report.backend.resolved.as_deref(), Some("openai-compatible"));
    assert_eq!(report.backend.provider.as_deref(), Some("local-key"));
    assert!(report.backend.api_key_configured);
    assert!(report.backend.api_base_configured);
}

#[test]
fn active_provider_state_resolves_provider_profile() {
    let cli = Cli { provider: Some("active".to_owned()), capabilities: true, ..test_cli() };
    let w = Surroundings {
        active: Ok(Some("local-asr".to_owned())),
        installed: Ok(vec![local_asr()]),
        ..around(old_mac())
    };

    let report = gather_capabilities_report_with_support(&cli, &w);

    assert_eq!(report.provider.as_deref(), Some("local-asr"));
    assert_eq!(report.resolved.as_deref(), Some("external"));
    assert!(report.live.is_some());
}

#[test]
fn active_provider_has_no_default_when_state_is_missing_and_apple_is_unavailable() {
    let cli = Cli { provider: Some("active".to_owned()), capabilities: true, ..test_cli() };

    let report = gather_capabilities_report_with_support(&cli, &around(old_mac()));

    assert_eq!(report.provider, None);
    assert_eq!(report.resolved, None);
    assert!(!report.local_config_ok);
    assert!(report
        .resolution_error
        .as_deref()
        .is_some_and(|error| error.contains("no active provider is set")));
}

#[test]
fn active_provider_defaults_to_apple_when_state_is_missing_and_apple_is_available() {
    let cli = Cli {
        provider: Some("active".to_owned()),
        native_adapter: Some("dicta-adapter-apple-speech".to_owned()),
        capabilities: true,
        ..test_cli()
    };

    let report = gather_capabilities_report_with_support(&cli, &around(new_mac()));

    assert_eq!(report.provider.as_deref(), Some("apple"));
    assert_eq!(report.resolved.as_deref(), Some("apple"));
    assert!(report.local_config_ok);
    assert!(report.live.is_some());
}

#[test]
fn provider_list_includes_builtins_and_custom_profiles() {
    let w = Surroundings {
        active: Ok(Some("siliconflow".to_owned())),
        ..configured(old_mac(), "siliconflow", siliconflow())
    };

    let report = gather_provider_list_report(&test_cli(), &w).unwrap();

    assert_eq!(report.current.as_deref(), Some("siliconflow"));
    assert!(report
        .providers
        .iter()
        .any(|provider| provider.name == "openai" && provider.built_in));
    assert!(report.providers.iter().any(|provider| provider.name == "siliconflow"
        && provider.selected
        && !provider.built_in));
    assert!(provider_list_text(&report).iter().any(|line| line.contains("siliconflow")));
}

#[test]
fn installed_providers_are_listed_with_what_they_are() {
    let w = Surroundings { installed: Ok(vec![local_asr()]), ..around(old_mac()) };

    let report = gather_provider_list_report(&test_cli(), &w).unwrap();
    let installed = report
        .providers
        .iter()
        .find(|provider| provider.name == "local-asr")
        .expect("installed provider listed");
    assert!(installed.installed);
    assert!(!installed.built_in);
    assert_eq!(installed.kind, "external");
    assert_eq!(installed.model, "local-asr");
    assert_eq!(installed.installed_version.as_deref(), Some("0.1.0"));
    assert_eq!(installed.source_package, None);
    assert!(installed.live);
    let mut names: Vec<String> = report.providers.iter().map(|p| p.name.clone()).collect();
    let all = names.len();
    names.dedup();
    assert_eq!(names.len(), all);
}

#[test]
fn current_provider_reports_none_when_state_is_missing_and_no_platform_default_exists() {
    let report = gather_current_provider_report(&test_cli(), &around(old_mac())).unwrap();

    assert_eq!(report.provider, None);
    assert!(!report.live);
    assert!(report
        .local_config_error
        .as_deref()
        .is_some_and(|error| error.contains("no active provider is set")));
    assert!(!current_provider_text(&report).is_empty());
}

#[test]
fn main_builtin_openai_profile_uses_openai_compatible_defaults() {
    let cli = Cli { provider: Some("openai".to_owned()), capabilities: true, ..test_cli() };

    let report = gather_capabilities_report_with_support(&cli, &around(old_mac()));

    assert_eq!(report.resolved.as_deref(), Some("openai-compatible"));
    assert_eq!(report.provider.as_deref(), Some("openai"));
    assert_eq!(report.model, "whisper-1");
    assert!(report.local_config_ok);
}

#[test]
fn capabilities_report_surfaces_native_adapter_config_error() {
    let cli = Cli { asr: AsrBackend::Apple, capabilities: true, ..test_cli() };

    let report = gather_capabilities_report_with_support(&cli, &around(new_mac()));

    assert_eq!(report.resolved.as_deref(), Some("apple"));
    assert!(!report.local_config_ok);
    assert!(report
        .local_config_error
        .as_deref()
        .is_some_and(|error| error.contains("--native-adapter")));
    assert!(report.live.as_ref().is_some_and(|live| live.translation));
}

#[test]
fn main_capabilities_report_keeps_apple_capabilities_when_platform_is_unavailable() {
    let cli = Cli { asr: AsrBackend::Apple, capabilities: true, ..test_cli() };

    let report = gather_capabilities_report_with_support(&cli, &around(old_mac()));

    assert_eq!(report.resolved.as_deref(), Some("apple"));
    assert!(!report.local_config_ok);
    assert!(report.resolution_error.is_none());
    assert!(report
        .local_config_error
        .as_deref()
        .is_some_and(|error| error.contains("unavailable")));
    assert!(report.batch.as_ref().is_some_and(|batch| batch.batch_file));
    assert!(report.live.as_ref().is_some_and(|live| live.translation));
    assert!(capabilities_text(&report).iter().any(|line| line.contains("apple")));
}

#[test]
fn main_empty_api_values_are_not_treated_as_configured() {
    let cli = Cli {
        asr: AsrBackend::OpenaiCompatible,
        api_base: Some("   ".to_owned()),
        api_key: Some("".to_owned()),
        api_model: Some("  ".to_owned()),
        json: true,
        doctor: true,
        ..test_cli()
    };

    let report = gather_doctor_report_with_audio(
        &cli,
        &around(apple_support(false, None)),
        "linux",
        "x86_64",
        test_audio_report(),
    );

    assert!(!report.backend.api_base_configured);
    assert!(!report.backend.api_key_configured);
    assert_eq!(report.backend.model, "whisper-1");
}

#[test]
fn audio_sources_are_files_or_the_microphone() {
    let file = Cli { input: Some("audio.wav".to_owned()), ..test_cli() };
    let source = resolve_audio_source(&file, true, true).unwrap();
    assert_eq!(source, AudioSource::File("audio.wav".to_owned()));
    assert_eq!(source.channel(), AudioChannel::File);
    assert!(resolve_audio_source(&file, false, false).unwrap_err().contains("audio.wav"));
    assert!(resolve_audio_source(&file, true, false).unwrap_err().contains("audio.wav"));

    let mic = Cli { mic_duration: Some(seconds(2.5)), ..test_cli() };
    let source = resolve_audio_source(&mic, false, false).unwrap();
    assert_eq!(source, AudioSource::Microphone(Duration::from_millis(2500)));
    assert_eq!(source.channel(), AudioChannel::Mic);
    for wrong in [0.0, -1.0, f64::NAN, f64::INFINITY] {
        let cli = Cli { mic_duration: Some(seconds(wrong)), ..test_cli() };
        assert!(resolve_audio_source(&cli, false, false).is_err());
    }
    assert_eq!(recording_file_name("dicta", 12), "dicta-mic-12.wav");
}

#[test]
fn live_options_follow_the_flags_and_the_provider() {
    let capabilities = native_adapter_live_capabilities();
    let cli = Cli {
        src: Some("en".to_owned()),
        dst: Some("ja".to_owned()),
        no_speaker: true,
        voice_processing: true,
        ..test_cli()
    };
    assert!(validate_live_options(&cli, "apple", &capabilities, &None).is_ok());
    let options = live_options_from_cli(&cli, &capabilities);
    assert_eq!(options.src.as_deref(), Some("en"));
    assert_eq!(options.dst.as_deref(), Some("ja"));
    assert!(options.mic && !options.speaker && options.voice_processing);
    assert_eq!(live_expected_latency(&cli, &capabilities), None);
    assert_eq!(
        validate_live_options(
            &Cli { transcript: Some("out.jsonl".to_owned()), ..cli },
            "apple",
            &capabilities,
            &Some("bad path".to_owned())
        ),
        Err("bad path".to_owned())
    );
}

#[test]
fn ui_is_started_with_the_live_flags() {
    let cli = Cli { src: Some("en".to_owned()), no_mic: true, ..test_cli() };
    let args = live_args_for_ui(&cli);
    assert!(args.windows(2).any(|pair| pair == ["--src", "en"]));
    assert!(args.contains(&"--no-mic".to_owned()));
}

#[test]
fn main_writes_plain_transcript_file() {
    let payload = OutputPayload::new(
        Transcript { text: "hello".to_owned(), language: Some("en-US".to_owned()) },
        AudioChannel::File,
        None,
        EventTimestamp::from_unix_second(0).unwrap(),
    );
    let written = dicta::cli::log::transcript_content(false, &payload.event.jsonl(), &payload.text);

    assert_eq!(written, "hello\n");
    let line = dicta::cli::log::transcript_content(true, &payload.event.jsonl(), &payload.text);
    assert!(line.contains(r#""lang":"en-US""#) && line.ends_with("}\n"));
}

#[test]
fn transcripts_without_a_language_take_the_hint() {
    let made = |language: Option<&str>, hint: Option<&str>| {
        OutputPayload::new(
            Transcript { text: " hi ".to_owned(), language: language.map(str::to_owned) },
            AudioChannel::Mic,
            hint.map(str::to_owned),
            EventTimestamp::from_unix_second(0).unwrap(),
        )
        .event
        .src
        .lang
    };
    assert_eq!(made(Some("en"), Some("de")), "en");
    assert_eq!(made(None, Some("de")), "de");
    assert_eq!(made(None, None), "und");
}

#[test]
fn keys_are_taken_from_the_option_first() {
    let keyed = ProviderProfile {
        api_key: Some("from-profile".to_owned()),
        api_key_env: Some("PROFILE_KEY".to_owned()),
        ..siliconflow()
    };
    let w = Surroundings {
        environment: vec![("PROFILE_KEY".to_owned(), "from-environment".to_owned())],
        ..configured(old_mac(), "p", keyed)
    };
    let plain = Cli { provider: Some("p".to_owned()), ..test_cli() };
    let given = Cli { api_key: Some("given".to_owned()), ..plain.clone() };
    let resolved = resolve_provider_profile_for(&plain, &w).unwrap();
    assert_eq!(openai_compatible_api_key(&given, &w, &resolved).as_deref(), Some("given"));
    assert_eq!(openai_compatible_api_key(&plain, &w, &resolved).as_deref(), Some("from-profile"));
    assert_eq!(openai_compatible_api_base(&plain, &resolved), "https://api.siliconflow.cn");
    assert_eq!(openai_compatible_model(&plain, &resolved), "FunAudioLLM/SenseVoiceSmall");
    assert_eq!(openai_compatible_api_base(&plain, &None), "https://api.openai.com");
}

#[test]
fn unknown_providers_and_broken_configurations_are_reported() {
    let cli = Cli { provider: Some("nope".to_owned()), ..test_cli() };
    assert!(resolve_provider_profile_for(&cli, &around(old_mac())).is_err());
    assert!(resolve_provider_profile_for(&cli, &configured(old_mac(), "other", siliconflow()))
        .unwrap_err()
        .contains("nope"));
    for config in [
        ProviderConfig::Unreadable("/config/providers.toml".to_owned()),
        ProviderConfig::Unparsed("/config/providers.toml".to_owned()),
    ] {
        let w = Surroundings { config, ..around(old_mac()) };
        assert!(resolve_provider_profile_for(&cli, &w)
            .unwrap_err()
            .contains("/config/providers.toml"));
    }
    let w = Surroundings { active: Err("state is broken".to_owned()), ..around(old_mac()) };
    let active = Cli { provider: Some("active".to_owned()), ..test_cli() };
    assert!(resolve_provider_profile_for(&active, &w).is_err());
}

#[test]
fn installed_providers_are_run_with_their_environment() {
    let provider = ExternalProvider { package: local_asr() };
    assert_eq!(
        provider.environment(),
        vec![
            ("DICTA_PROVIDER_ID", "local-asr".to_owned()),
            ("DICTA_PROVIDER_ROOT", "/providers/local-asr".to_owned()),
        ]
    );
    assert_eq!(provider.name(), "external-provider");
    assert_eq!(provider.live_name(), "external-provider");
    assert!(provider.capabilities().batch_file);
    assert_eq!(
        provider.live_capabilities().expected_latency,
        Some(Duration::from_millis(5000))
    );
    let ProviderCapabilities { notes, .. } = provider.provider_capabilities();
    assert_eq!(notes, vec!["Installed from a local directory."]);
}

#[test]
fn external_provider_is_set_up_from_its_package() {
    let w = Surroundings { installed: Ok(vec![local_asr()]), ..around(old_mac()) };
    let cli = Cli { provider: Some("local-asr".to_owned()), ..test_cli() };
    assert_eq!(resolve_backend_for(&cli, &w), Ok(AsrBackend::External));
    assert_eq!(resolve_live_backend_for(&cli, &w), Ok(AsrBackend::External));
    assert!(matches!(
        build_provider(AsrBackend::External, &cli, &w),
        Ok(ProviderSetup::External(p)) if p.id() == "local-asr"
    ));
    assert!(matches!(
        build_provider(AsrBackend::External, &test_cli(), &w),
        Err(m) if m == "external provider requires --provider <installed-provider>"
    ));
    let effective = effective_provider_for(&cli, &w, true).unwrap();
    assert_eq!(effective.profile_name().as_deref(), Some("local-asr"));
    assert_eq!(effective.profile_kind().as_deref(), Some("external"));
}

#[test]
fn macos_version_decides_on_the_system_recogniser() {
    assert!(apple_support(true, Some("26.1".to_owned())).supported);
    assert!(!apple_support(true, Some("15.6.1".to_owned())).supported);
    assert_eq!(
        apple_support(true, Some("15.6.1".to_owned())).reason,
        "macOS 15.6.1 is below 26; use an HTTP provider or install a live provider"
    );
    assert!(!apple_support(true, None).supported);
    assert!(!apple_support(false, None).supported);
}

#[test]
fn builtin_profiles_are_known_by_name() {
    assert_eq!(
        builtin_provider_profile("openai").unwrap().kind,
        ProfileProviderKind::OpenaiCompatible
    );
    assert!(builtin_provider_profile("nope").is_none());
    let names: Vec<String> = available_provider_profiles(&around(old_mac()))
        .unwrap()
        .into_iter()
        .map(|(name, _)| name)
        .collect();
    assert!(names.contains(&"openai".to_owned()));
}

#[test]
fn service_reports_its_provider() {
    let cli = Cli { asr: AsrBackend::OpenaiCompatible, ..test_cli() };
    let health = serve_health_report(&cli, &around(old_mac()), "1.2.3");
    assert_eq!(health.status, "ok");
    assert_eq!(health.version, "1.2.3");
    assert_eq!(health.backend.as_deref(), Some("openai-compatible"));
    assert_eq!(health.model, "whisper-1");
    assert!(health.local_config_ok);
    let models = serve_models(&cli, &around(old_mac()));
    assert!(models.contains(&"dicta".to_owned()) && models.contains(&"whisper-1".to_owned()));

    let degraded = serve_health_report(
        &Cli { asr: AsrBackend::Apple, ..test_cli() },
        &around(new_mac()),
        "1.2.3",
    );
    assert_eq!(degraded.status, "degraded");
    assert!(!degraded.local_config_ok);
}

#[test]
fn service_requests_are_planned_for_the_provider() {
    let request = ServeTranscriptionRequest {
        audio: ServeUploadedAudio {
            data: vec![1],
            filename: "a.wav".to_owned(),
            mime_type: None,
        },
        model: Some(" tiny ".to_owned()),
        language: Some("en".to_owned()),
        prompt: None,
        response_format: ServeResponseFormat::Json,
    };
    let cli = Cli { asr: AsrBackend::OpenaiCompatible, ..test_cli() };
    let plan = plan_request(&cli, &around(old_mac()), &request).unwrap();
    assert!(matches!(&plan.setup, ProviderSetup::OpenAi(p) if p.config.model == "tiny"));
    assert_eq!(plan.options.language.as_deref(), Some("en"));
    let apple = Cli { asr: AsrBackend::Apple, ..test_cli() };
    assert_eq!(plan_request(&apple, &around(old_mac()), &request).err().unwrap().status, 500);
}

#[test]
fn durations_are_shown_in_seconds() {
    assert_eq!(format_duration(&Duration::from_secs(5)), "~5s");
    assert_eq!(format_duration(&Duration::from_millis(1750)), "~1.8s");
}

#[test]
fn plain_live_sessions_take_the_active_live_provider() {
    let w = Surroundings {
        active: Ok(Some("local-asr".to_owned())),
        installed: Ok(vec![local_asr()]),
        ..around(old_mac())
    };
    assert_eq!(resolve_live_backend_for(&test_cli(), &w), Ok(AsrBackend::External));
    let means = live_options(&test_cli(), &w);
    assert_eq!(means.provider.as_deref(), Some("active"));
    assert!(matches!(
        build_provider(AsrBackend::External, &means, &w),
        Ok(ProviderSetup::External(p)) if p.id() == "local-asr"
    ));
    let report = gather_live_report(&test_cli(), &w);
    assert_eq!(report.backend.as_deref(), Some("external"));
    assert_eq!(report.error, None);

    let named = Cli { asr: AsrBackend::Apple, ..test_cli() };
    assert!(resolve_live_backend_for(&named, &w).is_err());
    let batch_only = Surroundings {
        active: Ok(Some("openai".to_owned())),
        ..around(old_mac())
    };
    assert!(resolve_live_backend_for(&test_cli(), &batch_only)
        .unwrap_err()
        .contains("requires Apple on-device ASR"));
    assert_eq!(live_options(&test_cli(), &batch_only).provider, None);
    let unreadable = Surroundings { active: Err("gone".to_owned()), ..around(old_mac()) };
    assert!(resolve_live_backend_for(&test_cli(), &unreadable).is_err());
    assert_eq!(
        resolve_live_backend_for(&test_cli(), &around(new_mac())),
        Ok(AsrBackend::Apple)
    );
}

#[test]
fn another_model_leaves_the_other_options() {
    let cli = Cli {
        json: true,
        dst: Some("ja".to_owned()),
        provider: Some("openai".to_owned()),
        ..test_cli()
    };
    let other = cli.with_model(Some("m".to_owned()));
    assert_eq!(other, Cli { api_model: Some("m".to_owned()), ..cli });
}

#[test]
fn variables_are_named_in_either_case_where_the_system_does_so() {
    let keyed =
        ProviderProfile { api_key_env: Some("Profile_Key".to_owned()), ..siliconflow() };
    let exact = Surroundings {
        environment: vec![("PROFILE_KEY".to_owned(), "found".to_owned())],
        ..configured(old_mac(), "p", keyed)
    };
    let cli = Cli { provider: Some("p".to_owned()), ..test_cli() };
    let resolved = resolve_provider_profile_for(&cli, &exact).unwrap();
    assert_eq!(openai_compatible_api_key(&cli, &exact, &resolved), None);
    let blind = Surroundings { either_case: true, ..exact };
    assert_eq!(openai_compatible_api_key(&cli, &blind, &resolved).as_deref(), Some("found"));
}
