//! The providers that are reached over the network or run as processes.
use dicta::adapter::{
    batch_command, live_command, native_adapter_live_capabilities, parse_adapter_jsonl,
    parse_external_live_event, parse_external_provider_jsonl, parse_legacy_jsonl, parse_live_event,
    AppleLegacyAsr, AppleLegacyConfig, LiveProcess, NativeAdapterAsr, NativeAdapterConfig,
    NativeLiveOptions, ProcessAction, ProcessKind,
};
use dicta::asr::{
    AsrError, AsrOptions, AsrProvider, LiveAsrOptions, LiveAsrProvider, LiveModeKind,
};
use dicta::event::{AudioInput, LiveEvent};
use dicta::openai::{
    check_audio, reply_transcript, OpenAiCompatibleAsr, OpenAiCompatibleConfig,
};
use dicta::path::FilePath;

fn openai(base_url: &str, model: &str) -> Result<OpenAiCompatibleAsr, AsrError> {
    OpenAiCompatibleAsr::new(OpenAiCompatibleConfig {
        base_url: base_url.to_owned(),
        api_key: None,
        model: model.to_owned(),
    })
}

fn error_of<T>(r: Result<T, AsrError>) -> AsrError {
    match r {
        Ok(_) => panic!("no error"),
        Err(e) => e,
    }
}

#[test]
fn parses_legacy_jsonl_source_text() {
    let transcript = parse_legacy_jsonl(
        r#"{"seq":0,"channel":"file","timestamp":"2026-01-01T00:00:00+00:00","src":{"lang":"en-US","text":"hello"}}
{"seq":1,"channel":"file","timestamp":"2026-01-01T00:00:01+00:00","src":{"lang":"en-US","text":"world"}}"#,
    )
    .unwrap();

    assert_eq!(transcript.text, "hello\nworld");
    assert_eq!(transcript.language.as_deref(), Some("en-US"));
}

#[test]
fn rejects_empty_legacy_output() {
    let err = parse_legacy_jsonl("").unwrap_err();

    assert!(matches!(err, AsrError::InvalidResponse(_)));
}

#[test]
fn parses_typed_live_event() {
    let event = parse_live_event(r#"{"type":"volatile","channel":"mic","text":"hel"}"#).unwrap();

    assert!(matches!(event, LiveEvent::Volatile(_)));
}

#[test]
fn lib_parses_typed_live_event() {
    let event = parse_live_event(r#"{"type":"volatile","channel":"mic","text":"hel"}"#).unwrap();

    assert!(matches!(event, LiveEvent::Volatile(_)));
}

#[test]
fn wraps_legacy_live_transcript_event() {
    let event = parse_live_event(
        r#"{"seq":0,"channel":"mic","timestamp":"2026-01-01T00:00:00+00:00","src":{"lang":"en-US","text":"hello"}}"#,
    )
    .unwrap();

    assert!(matches!(event, LiveEvent::Finalized(_)));
}

#[test]
fn native_adapter_live_capabilities_are_streaming() {
    let capabilities = native_adapter_live_capabilities();

    assert_eq!(capabilities.mode, LiveModeKind::Streaming);
    assert!(capabilities.mic);
    assert!(capabilities.speaker);
    assert!(capabilities.streaming_audio);
    assert!(capabilities.partial_results);
    assert!(capabilities.finalized_results);
    assert!(capabilities.translation);
    assert!(capabilities.voice_processing);
    assert!(capabilities.device_selection);
    assert!(!capabilities.requires_network);
}

#[test]
fn parses_adapter_jsonl_source_text() {
    let transcript = parse_adapter_jsonl(
        r#"{"seq":0,"channel":"file","timestamp":"2026-01-01T00:00:00+00:00","src":{"lang":"en-US","text":"hello"}}
{"seq":1,"channel":"file","timestamp":"2026-01-01T00:00:01+00:00","src":{"lang":"en-US","text":"world"}}"#,
    )
    .unwrap();

    assert_eq!(transcript.text, "hello\nworld");
    assert_eq!(transcript.language.as_deref(), Some("en-US"));
}

#[test]
fn rejects_empty_adapter_output() {
    let err = parse_adapter_jsonl("").unwrap_err();

    assert!(matches!(err, AsrError::InvalidResponse(_)));
}

#[test]
fn parses_typed_status_live_event() {
    let event = parse_live_event(
        r#"{"type":"status","phase":"recording","message":"recording 3s chunk"}"#,
    )
    .unwrap();

    assert!(matches!(event, LiveEvent::Status(_)));
}

#[test]
fn wraps_adapter_live_transcript_event() {
    let event = parse_live_event(
        r#"{"seq":0,"channel":"mic","timestamp":"2026-01-01T00:00:00+00:00","src":{"lang":"en-US","text":"hello"}}"#,
    )
    .unwrap();

    assert!(matches!(event, LiveEvent::Finalized(_)));
}

#[test]
fn lib_appends_v1_audio_transcriptions_to_plain_base_url() {
    let asr = openai("https://example.com", "model").unwrap();

    assert_eq!(asr.transcriptions_url(), "https://example.com/v1/audio/transcriptions");
}

#[test]
fn lib_reuses_base_url_that_already_points_at_v1() {
    let asr = openai("https://example.com/v1/", "model").unwrap();

    assert_eq!(asr.transcriptions_url(), "https://example.com/v1/audio/transcriptions");
}

#[test]
fn rejects_empty_model() {
    let err = error_of(openai("https://example.com", ""));

    assert!(matches!(err, AsrError::Config(_)));
}

#[test]
fn slashes_and_the_version_make_no_difference_to_the_endpoint() {
    let plain = openai("https://example.com", "m").unwrap().transcriptions_url();
    for base in ["https://example.com///", "https://example.com/v1", "https://example.com/v1//"] {
        assert_eq!(openai(base, "m").unwrap().transcriptions_url(), plain);
    }
}

#[test]
fn transcription_form_holds_the_options_that_are_set() {
    let asr = openai("https://example.com", "whisper-1").unwrap();
    let fields = asr.form_fields(&AsrOptions {
        language: Some("en".to_owned()),
        prompt: None,
        ..AsrOptions::default()
    });
    let plain: Vec<(&str, &str)> = fields.iter().map(|(n, v)| (*n, v.as_str())).collect();
    assert_eq!(
        plain,
        vec![("model", "whisper-1"), ("response_format", "json"), ("language", "en")]
    );
}

#[test]
fn empty_audio_is_not_sent() {
    assert_eq!(
        check_audio(&vec![]).unwrap_err(),
        AsrError::Input("audio input is empty".to_owned())
    );
    assert!(check_audio(&vec![0]).is_ok());
}

#[test]
fn replies_of_the_service_become_transcripts_or_errors() {
    let body = r#"{"text":" hi "}"#;
    let good = reply_transcript(true, "200 OK", body, Ok((" hi ".to_owned(), None))).unwrap();
    assert_eq!(good.text, " hi ");
    assert!(matches!(
        reply_transcript(false, "500 Internal Server Error", "oops", Err("x".to_owned())),
        Err(AsrError::Request(m)) if m.contains("500 Internal Server Error") && m.contains("oops")
    ));
    assert_eq!(
        reply_transcript(true, "200 OK", "oops", Err("expected value".to_owned())).unwrap_err(),
        AsrError::InvalidResponse("expected value: oops".to_owned())
    );
}

#[test]
fn adapters_need_a_command() {
    let none = NativeAdapterConfig { command: String::new() };
    assert_eq!(
        error_of(NativeAdapterAsr::new(none)),
        AsrError::Config("native adapter command is required".to_owned())
    );
    let none = AppleLegacyConfig { command: String::new() };
    assert_eq!(
        error_of(AppleLegacyAsr::new(none)),
        AsrError::Config("apple legacy adapter command is required".to_owned())
    );
}

#[test]
fn providers_tell_their_names_and_what_they_offer() {
    let native =
        NativeAdapterAsr::new(NativeAdapterConfig { command: "adapter".to_owned() }).unwrap();
    assert_eq!(native.name(), "native-adapter");
    assert_eq!(native.live_name(), "apple");
    assert!(native.capabilities().batch_file);
    assert!(native.provider_capabilities().live.is_none());
    assert_eq!(native.live_capabilities(), native_adapter_live_capabilities());

    let legacy = AppleLegacyAsr::new(AppleLegacyConfig { command: "adapter".to_owned() }).unwrap();
    assert_eq!(legacy.name(), "apple-legacy");
    assert!(!legacy.capabilities().requires_network);

    let openai = openai("https://example.com", "m").unwrap();
    assert_eq!(openai.name(), "openai-compatible");
    assert!(openai.capabilities().requires_network);
    assert!(openai.provider_capabilities().notes.is_empty());
}

#[test]
fn processes_take_files_only() {
    let file = FilePath { root: "/".to_owned(), names: vec!["a.wav".to_owned()] };
    let bytes = || AudioInput::Bytes {
        data: vec![1],
        filename: "a.wav".to_owned(),
        mime_type: None,
    };
    assert_eq!(
        ProcessKind::NativeAdapter.file_of(AudioInput::File(file.copied())).unwrap(),
        file
    );
    assert_eq!(
        ProcessKind::NativeAdapter.file_of(bytes()).unwrap_err(),
        AsrError::Input("native adapter only accepts file input".to_owned())
    );
    assert_eq!(
        ProcessKind::AppleLegacy.file_of(bytes()).unwrap_err(),
        AsrError::Input("apple legacy adapter only accepts file input".to_owned())
    );
    assert_eq!(
        ProcessKind::Provider("x".to_owned()).file_of(bytes()).unwrap_err(),
        AsrError::Input("external providers currently require file input".to_owned())
    );
}

#[test]
fn commands_spell_out_what_is_asked() {
    assert_eq!(
        batch_command("/tmp/a.wav", &Some("en".to_owned())),
        vec!["--input", "/tmp/a.wav", "--json", "--src", "en"]
    );
    let options = NativeLiveOptions::from(LiveAsrOptions {
        src: Some("en".to_owned()),
        speaker: true,
        ..LiveAsrOptions::default()
    });
    assert!(options.json && options.mic && options.speaker && options.transcript.is_none());
}

#[test]
fn external_output_may_hold_plain_members() {
    let transcript =
        parse_external_provider_jsonl("{\"text\":\" a \",\"language\":\"en\"}\n\n{\"text\":\"b\"}")
            .unwrap();
    assert_eq!(transcript.text, "a\nb");
    assert_eq!(transcript.language.as_deref(), Some("en"));
    assert_eq!(
        parse_external_provider_jsonl("{}").unwrap_err(),
        AsrError::InvalidResponse("external provider produced no transcript text".to_owned())
    );
    assert!(matches!(
        parse_external_provider_jsonl("oops"),
        Err(AsrError::InvalidResponse(m)) if m.ends_with(": oops")
    ));
}

#[test]
fn lines_that_are_no_events_are_quoted() {
    assert!(matches!(
        parse_live_event("oops"),
        Err(AsrError::InvalidResponse(m))
            if m.starts_with("invalid apple live JSONL event: ") && m.ends_with(": oops")
    ));
    assert!(matches!(
        parse_external_live_event("{}"),
        Err(AsrError::InvalidResponse(m))
            if m.starts_with("invalid provider JSONL event: ") && m.ends_with(": {}")
    ));
    assert!(matches!(parse_external_live_event(r#"{"type":"eof"}"#), Ok(LiveEvent::Eof)));
    assert!(parse_external_live_event(r#"{"type":"other"}"#).is_err());
}

#[test]
fn process_failures_name_the_process() {
    let provider = ProcessKind::Provider("acme".to_owned());
    assert_eq!(
        ProcessKind::NativeAdapter.run_failed("/bin/a", "gone").message(),
        "ASR request failed: failed to run native adapter /bin/a: gone"
    );
    assert_eq!(
        provider.run_failed("/bin/a", "gone").message(),
        "ASR request failed: failed to run provider acme at /bin/a: gone"
    );
    assert_eq!(
        ProcessKind::AppleLegacy.wait_failed("/bin/a", "gone").message(),
        "ASR request failed: failed to wait for apple legacy adapter /bin/a: gone"
    );
    assert_eq!(
        provider.not_piped().message(),
        "ASR request failed: provider acme stdout was not piped"
    );
    assert_eq!(
        ProcessKind::NativeAdapter.read_failed("cut").message(),
        "ASR request failed: failed to read native adapter stdout: cut"
    );
    assert!(provider.batch_exit(true, "exit status: 0", "").is_ok());
    assert_eq!(
        provider.batch_exit(false, "exit status: 1", " why \n").unwrap_err(),
        AsrError::Request("provider acme exited with exit status: 1: why".to_owned())
    );
    assert!(provider.live_exit(true, false, "signal: 2").is_ok());
    assert_eq!(
        provider.live_exit(false, false, "exit status: 1").unwrap_err(),
        AsrError::Request("provider acme exited with exit status: 1".to_owned())
    );
}

#[test]
fn installed_providers_get_time_to_end() {
    let mut live = LiveProcess::new(&ProcessKind::Provider("acme".to_owned()));
    assert_eq!(live.on_interrupt(1_000), ProcessAction::RequestShutdown);
    assert_eq!(live.on_interrupt(1_001), ProcessAction::Wait);
    assert_eq!(live.on_time(30_999), ProcessAction::Wait);
    assert_eq!(live.on_time(31_000), ProcessAction::KillAndEnd);

    let mut adapter = LiveProcess::new(&ProcessKind::NativeAdapter);
    assert_eq!(adapter.on_interrupt(1), ProcessAction::KillAndEnd);
    assert_eq!(adapter.on_line(&Some("  ".to_owned())), ProcessAction::Wait);
    assert_eq!(adapter.on_line(&Some(" x ".to_owned())), ProcessAction::Line("x".to_owned()));
    assert_eq!(adapter.on_line(&None), ProcessAction::Stop);
}
