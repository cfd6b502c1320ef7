//! The Qianwen runtime: where it is found, what it reports, how a session goes.
use dicta::asr::{AsrError, AsrOptions, AsrProvider, Duration, LiveAsrOptions, LiveAsrProvider};
use dicta::event::{AudioInput, EventTimestamp, LiveEvent, LiveStatusPhase};
use dicta::json::Json;
use dicta::path::FilePath;
use dicta::qianwen::live::{
    finalizing, opening, started, validate_live_options, Deadline, QianwenEvent, QianwenLive,
};
use dicta::qianwen::place::{
    default_qianwen_host_bundle_path, has_path, host_bundle_from_runtime_path,
    push_relative_qianwen_candidates, qianwen_embedded_runtime_path_from_host,
    qianwen_host_bundle_candidates, qianwen_unet_runtime_path_from_host,
    qianwen_wsg_impl_path_candidates_from_host, resolve_host_bundle_path, resolve_runtime_path,
    resolve_wsg_impl_path, unique_paths, QianwenAsr, QianwenConfig, DEFAULT_WSG_IMPL_NAME,
};
use dicta::qianwen::report::{
    parse_voice_result, parse_voice_results_json, parse_voice_text_event,
    parse_voice_text_events_json, read_entry, read_history, SeenHistory, VoiceHistoryEntry,
};
use dicta::qianwen::session::{
    buffer_text, call_status, device_setting, drain_outcome, grow_buffer_capacity,
    qianwen_capabilities, qianwen_process_args_json, qianwen_settings_with_default_microphone, session_file, temp_file_name,
    user_settings, AudioDeviceSetting, Drain, SessionPlan, DEFAULT_MICROPHONE_SETTING_KEY,
};

fn path(text: &str) -> FilePath {
    let (root, rest) = match text.strip_prefix('/') {
        Some(rest) => ("/", rest),
        None => ("", text),
    };
    FilePath {
        root: root.to_owned(),
        names: rest.split('/').filter(|name| !name.is_empty()).map(str::to_owned).collect(),
    }
}

fn text(value: &str) -> Json {
    Json::Text(value.to_owned())
}

fn object(members: Vec<(&str, Json)>) -> Json {
    Json::Object(members.into_iter().map(|(name, value)| (name.to_owned(), value)).collect())
}

fn moment() -> EventTimestamp {
    EventTimestamp::from_unix_second(0).unwrap()
}

fn final_of(event: Option<LiveEvent>) -> (u64, String, String) {
    match event {
        Some(LiveEvent::Finalized(e)) => (e.seq, e.src.lang, e.src.text),
        other => panic!("no finalized event: {other:?}"),
    }
}

fn entry(id: Option<&str>, at: u64, said: &str) -> VoiceHistoryEntry {
    VoiceHistoryEntry {
        id: id.map(str::to_owned),
        created_at_ms: Some(at),
        input_text: None,
        text: Some(said.to_owned()),
        action_kind: Some("InsertText".to_owned()),
    }
}

#[test]
fn qianwen_is_live_only() {
    let capabilities = qianwen_capabilities();
    assert!(!capabilities.batch.batch_file);
    assert!(capabilities.live.is_some());
    assert!(capabilities.live.unwrap().mic);
}

#[test]
fn host_bundle_resolves_from_runtime_path() {
    let runtime = path("/tmp/qw/Frameworks/qianwen_shell/libQianwenShellEmbedded.dylib");
    assert_eq!(host_bundle_from_runtime_path(&runtime).unwrap(), path("/tmp/qw"));
}

#[test]
fn host_bundle_candidates_include_executable_ancestor_qw() {
    let mut candidates = Vec::new();
    push_relative_qianwen_candidates(&mut candidates, &path("/tmp/dicta/target/debug"));

    assert!(candidates.contains(&path("/tmp/dicta/target/debug/qw")));
    assert!(candidates.contains(&path("/tmp/dicta/target/qw")));
    assert!(candidates.contains(&path("/tmp/dicta/qw")));
    assert!(candidates.contains(&path("/tmp/dicta/QianwenIME.app/Contents")));
}

#[test]
fn runtime_path_resolves_from_explicit_host_bundle() {
    let root = path("/tmp/dicta-qianwen-test-1-ThreadId(2)");
    let runtime = qianwen_embedded_runtime_path_from_host(&root);
    let present = vec![runtime.copied()];

    assert_eq!(
        resolve_runtime_path(&None, &Some(root.copied()), &vec![], &present).unwrap(),
        runtime
    );
    assert_eq!(resolve_runtime_path(&None, &Some(root), &vec![], &vec![]), None);
}

#[test]
fn wsg_impl_resolves_from_explicit_path() {
    let root = path("/tmp/dicta-qianwen-wsg-test-1-ThreadId(2)");
    let wsg_impl = root.child(DEFAULT_WSG_IMPL_NAME);
    let present = vec![wsg_impl.copied()];

    assert_eq!(
        resolve_wsg_impl_path(&Some(wsg_impl.copied()), &None, &None, &present).unwrap(),
        wsg_impl
    );
}

#[test]
fn wsg_impl_candidates_include_frameworks_path() {
    let root = path("/tmp/qw");
    assert!(qianwen_wsg_impl_path_candidates_from_host(&root)
        .contains(&path("/tmp/qw/Frameworks/libwsg_impl.dylib")));
}

#[test]
fn unet_runtime_resolves_from_host_bundle() {
    let root = path("/tmp/qw");
    assert_eq!(
        qianwen_unet_runtime_path_from_host(&root),
        path("/tmp/qw/Frameworks/libqianwen_unet_runtime.dylib")
    );
}

#[test]
fn qianwen_settings_injects_default_microphone() {
    let settings = vec![(
        "browser.quark.ai.voiceinput.command.migration_done".to_owned(),
        Json::Bool(true),
    )];

    let value = qianwen_settings_with_default_microphone(
        settings,
        &AudioDeviceSetting {
            id: "ByteviewAudioDevice_UID".to_owned(),
            name: "LarkAudioDevice".to_owned(),
        },
    );

    assert_eq!(
        value.get("browser.quark.ai.voiceinput.command.migration_done").and_then(Json::as_bool),
        Some(true)
    );
    let mic = value.get(DEFAULT_MICROPHONE_SETTING_KEY).expect("default microphone setting");
    assert!(matches!(mic, Json::Object(_)));
    assert_eq!(
        mic.get("device_id").and_then(Json::as_str).map(String::as_str),
        Some("ByteviewAudioDevice_UID")
    );
    assert_eq!(
        mic.get("device_name").and_then(Json::as_str).map(String::as_str),
        Some("LarkAudioDevice")
    );
    assert_eq!(mic.get("is_default").and_then(Json::as_bool), Some(false));
}

#[test]
fn parses_commit_text_event() {
    let event =
        parse_voice_text_event(&object(vec![("kind", text("commit_text")), ("text", text("你好"))]));
    assert!(matches!(event, Some(QianwenEvent::Final(text)) if text == "你好"));
}

#[test]
fn parses_direct_results_json() {
    let events =
        parse_voice_results_json(r#"{"results":[{"state":"completed","text":"今天星期几？"}]}"#);
    assert!(matches!(
        events.as_slice(),
        [QianwenEvent::Final(text)] if text == "今天星期几？"
    ));
}

#[test]
fn parses_direct_text_events_json() {
    let events = parse_voice_text_events_json(
        r#"{"events":[{"kind":"partialText","partialText":"今天"},{"kind":"commitText","commitText":"今天星期几？"}]}"#,
    );
    assert!(matches!(
        events.as_slice(),
        [QianwenEvent::Volatile(partial), QianwenEvent::Final(final_text)]
            if partial == "今天" && final_text == "今天星期几？"
    ));
}

#[test]
fn parses_voice_history_entry() {
    let entry = read_entry(&object(vec![
        ("actionKind", text("InsertText")),
        ("createdAtMs", Json::Number(1782981137844_u64.to_string())),
        ("id", text("0c820e1b-4b65-4457-8d93-237de9cb5c16")),
        ("inputText", text("今天星期几？")),
        ("text", text("今天星期几？")),
    ]))
    .unwrap();

    assert_eq!(entry.id.as_deref(), Some("0c820e1b-4b65-4457-8d93-237de9cb5c16"));
    assert_eq!(entry.created_at_ms, Some(1782981137844));
    assert_eq!(entry.final_text().as_deref(), Some("今天星期几？"));
}

#[test]
fn history_is_a_list_of_entries() {
    let all = read_history(
        r#"[{"id":"a","createdAtMs":2,"text":" hi "},{"id":null,"createdAtMs":null,"other":[]}]"#,
    )
    .unwrap();
    assert_eq!(all.len(), 2);
    assert_eq!(all[0].id.as_deref(), Some("a"));
    assert_eq!(all[0].final_text().as_deref(), Some("hi"));
    assert_eq!(all[1].id, None);
    assert_eq!(all[1].created_at_ms, None);

    assert!(read_history("{}").is_none());
    assert!(read_history("[1]").is_none());
    assert!(read_history(r#"[{"id":1}]"#).is_none());
    assert!(read_history(r#"[{"createdAtMs":-1}]"#).is_none());
    assert!(read_history("[").is_none());
    assert!(read_history("[]").unwrap().is_empty());
}

#[test]
fn history_gives_each_new_entry_once_oldest_first() {
    let mut seen = SeenHistory::new();
    let all = || vec![entry(Some("b"), 20, "second"), entry(Some("a"), 10, "first")];

    assert_eq!(seen.next_history_event(all()), Some(QianwenEvent::Final("first".to_owned())));
    assert_eq!(seen.next_history_event(all()), Some(QianwenEvent::Final("second".to_owned())));
    assert_eq!(seen.next_history_event(all()), None);
}

#[test]
fn other_actions_insert_nothing() {
    let mut other = entry(Some("a"), 1, "text");
    other.action_kind = Some("OpenApp".to_owned());
    assert_eq!(other.final_text(), None);
    other.action_kind = None;
    other.text = Some("  ".to_owned());
    other.input_text = Some(" typed ".to_owned());
    assert_eq!(other.final_text().as_deref(), Some("typed"));
}

#[test]
fn blank_results_are_no_events() {
    assert!(parse_voice_results_json(r#"{"results":[{"state":"completed","text":"  "}]}"#)
        .is_empty());
    assert!(parse_voice_results_json("not json").is_empty());
    assert!(parse_voice_result(&Json::Null).is_none());
}

#[test]
fn explicit_paths_must_stand() {
    let here = path("/opt/qw");
    let there = path("/opt/other");
    let present = vec![here.copied()];
    assert_eq!(
        resolve_host_bundle_path(&Some(here.copied()), &None, &vec![], &present),
        Some(here.copied())
    );
    assert_eq!(
        default_qianwen_host_bundle_path(
            &vec![there.copied(), here.copied()],
            &vec![qianwen_embedded_runtime_path_from_host(&here)]
        ),
        Some(here.copied())
    );
    assert_eq!(default_qianwen_host_bundle_path(&vec![there], &present), None);
}

#[test]
fn candidates_are_listed_once() {
    let doubled = vec![path("/a"), path("/b"), path("/a")];
    assert_eq!(unique_paths(&doubled), vec![path("/a"), path("/b")]);
    assert!(has_path(&doubled, &path("/b")));
    assert!(!has_path(&doubled, &path("/c")));

    let all = qianwen_host_bundle_candidates(
        &Some(path("/named")),
        &Some(path("/work")),
        &Some(path("/work")),
        &Some(path("/home/me")),
        &path("/Applications"),
    );
    assert_eq!(all[0], path("/named"));
    assert_eq!(unique_paths(&all).iter().filter(|p| **p == path("/work/qw")).count(), 1);
}

#[test]
fn bundle_of_a_runtime_is_the_bundle_it_came_from() {
    let host = path("/opt/qw");
    let runtime = qianwen_embedded_runtime_path_from_host(&host);
    assert_eq!(host_bundle_from_runtime_path(&runtime), Some(host));
    assert_eq!(host_bundle_from_runtime_path(&path("/lib/other.dylib")), None);
}

#[test]
fn provider_finds_its_runtime_and_its_helper() {
    let host = path("/opt/qw");
    let runtime = qianwen_embedded_runtime_path_from_host(&host);
    let helper = qianwen_wsg_impl_path_candidates_from_host(&host).remove(0);
    let present = vec![host.copied(), runtime.copied(), helper.copied()];
    let provider = QianwenAsr::new(QianwenConfig {
        host_bundle_path: Some(host.copied()),
        ..QianwenConfig::default()
    })
    .unwrap();
    assert_eq!(provider.resolved_runtime_path(&vec![], &present), Some(runtime));
    assert_eq!(provider.resolved_runtime_path(&vec![], &vec![]), None);
    assert_eq!(provider.resolved_wsg_impl_path(&None, &vec![], &present), Some(helper));
    assert!(qianwen_process_args_json().contains(r#""headless":true"#));
}

#[test]
fn provider_refuses_files_and_tells_its_name() {
    let provider = QianwenAsr::new(QianwenConfig::default()).unwrap();
    let input = AudioInput::File(path("/tmp/a.wav"));
    let error = provider.transcribe(&input, &AsrOptions::default()).unwrap_err();
    assert_eq!(
        error,
        AsrError::Input(
            "qianwen uses the local Qianwen Shell embedded runtime and only supports live microphone transcription; run with --asr qianwen --live".to_owned()
        )
    );
    assert_eq!(provider.name(), "qianwen");
    assert_eq!(provider.live_name(), "qianwen");
    assert!(!provider.capabilities().batch_file);
    assert_eq!(provider.provider_capabilities().live, Some(provider.live_capabilities()));
}

#[test]
fn live_options_that_do_not_fit_are_refused() {
    let fits = || LiveAsrOptions::default();
    assert!(validate_live_options(&fits()).is_ok());
    for wrong in [
        LiveAsrOptions { mic: false, ..fits() },
        LiveAsrOptions { speaker: true, ..fits() },
        LiveAsrOptions { dst: Some("en".to_owned()), ..fits() },
        LiveAsrOptions { voice_processing: true, ..fits() },
        LiveAsrOptions { select_device: true, ..fits() },
    ] {
        assert!(matches!(validate_live_options(&wrong), Err(AsrError::Config(_))));
    }
    assert!(validate_live_options(&LiveAsrOptions {
        chunk_duration: Duration::from_secs(9),
        ..fits()
    })
    .is_ok());
}

#[test]
fn session_numbers_its_finals_and_never_repeats_one() {
    let mut live = QianwenLive::new(&LiveAsrOptions::default(), 0);
    let said = |t: &str| QianwenEvent::Final(t.to_owned());
    assert_eq!(
        final_of(live.on_event(said(" 你好 "), 1, moment())),
        (0, "zh-CN".to_owned(), "你好".to_owned())
    );
    assert!(live.on_event(said("你好"), 2, moment()).is_none());
    assert!(live.on_event(said("   "), 2, moment()).is_none());
    assert_eq!(
        final_of(live.on_event(said("再见"), 3, moment())),
        (1, "zh-CN".to_owned(), "再见".to_owned())
    );
    let volatile = live.on_event(QianwenEvent::Volatile(" raw ".to_owned()), 4, moment());
    assert!(matches!(volatile, Some(LiveEvent::Volatile(v)) if v.text == " raw "));
}

#[test]
fn session_holds_the_key_and_releases_it_once() {
    let mut live = QianwenLive::new(&LiveAsrOptions::default(), 1_000);
    let keys = live.poll(1_399, false);
    assert!(!keys.long_press_timer && !keys.release);
    assert!(live.poll(1_400, false).long_press_timer);
    assert!(!live.poll(1_500, false).long_press_timer);
    assert!(live.poll(2_000, true).release);
    assert!(!live.poll(2_001, true).release);
    assert!(!live.finished(21_999));
    assert!(live.finished(22_000));
}

#[test]
fn session_ends_a_while_after_the_last_final() {
    let mut live = QianwenLive::new(&LiveAsrOptions::default(), 0);
    assert!(live.poll(500, true).release);
    assert!(!live.finished(501));
    live.on_event(QianwenEvent::Final("done".to_owned()), 600, moment());
    assert!(!live.finished(600));
    assert!(live.finished(600 + 20_000));
    assert_eq!(live.closing(None), vec![LiveEvent::Eof]);
}

#[test]
fn session_without_text_says_so_at_its_end() {
    let mut live = QianwenLive::new(&LiveAsrOptions::default(), 0);
    live.on_event(QianwenEvent::Done, 10, moment());
    assert!(live.finished(10));
    let events = live.closing(Some("log".to_owned()));
    assert_eq!(events.len(), 2);
    assert!(matches!(
        &events[0],
        LiveEvent::Status(s) if s.phase == LiveStatusPhase::Recovering
            && s.message == "Qianwen live session ended without finalized text"
            && s.detail.as_deref() == Some("log")
    ));
    assert_eq!(events[1], LiveEvent::Eof);
}

#[test]
fn session_events_announce_what_happens() {
    let events = opening("qianwen", &LiveAsrOptions::default());
    assert!(matches!(
        &events[0],
        LiveEvent::Meta(m) if m.backend == "qianwen" && m.src == "zh-CN" && m.mic && !m.speaker
    ));
    assert!(matches!(
        &events[1],
        LiveEvent::Status(s) if s.message == "starting Qianwen Shell runtime"
    ));
    assert!(matches!(
        started(None),
        LiveEvent::Status(s) if s.message == "Qianwen Shell runtime started; press Ctrl-C to stop"
    ));
    assert!(matches!(
        finalizing(None),
        LiveEvent::Status(s) if s.message == "Qianwen Shell finalizing voice input"
            && s.phase == LiveStatusPhase::Transcribing
    ));
}

#[test]
fn deadlines_do_not_wrap() {
    let late = Deadline { from: u64::MAX - 1, wait: 10 };
    assert!(!late.reached(u64::MAX));
    assert!(!late.reached(0));
    assert!(Deadline { from: 5, wait: 0 }.reached(5));
}

#[test]
fn buffers_grow_to_the_next_power_of_two() {
    assert_eq!(grow_buffer_capacity(0).unwrap(), 1);
    assert_eq!(grow_buffer_capacity(1).unwrap(), 2);
    assert_eq!(grow_buffer_capacity(65_536).unwrap(), 131_072);
    assert_eq!(grow_buffer_capacity(4_194_303).unwrap(), 4_194_304);
    assert_eq!(
        grow_buffer_capacity(4_194_304).unwrap_err(),
        AsrError::InvalidResponse(
            "qianwen JSON payload too large: required 4194304 bytes".to_owned()
        )
    );
}

#[test]
fn drained_buffers_are_grown_refused_or_taken() {
    assert_eq!(drain_outcome("results", 8, 9, 1, 0).unwrap(), Drain::Grow(16));
    assert_eq!(
        drain_outcome("results", 8, 8, -2, 0).unwrap_err(),
        AsrError::Request("qianwen results drain failed with status -2".to_owned())
    );
    assert_eq!(drain_outcome("results", 8, 8, 0, 5).unwrap(), Drain::Take(5));
    assert_eq!(drain_outcome("results", 8, 8, 0, 50).unwrap(), Drain::Take(8));
    assert!(matches!(
        drain_outcome("results", 8, 5_000_000, 0, 0),
        Err(AsrError::InvalidResponse(_))
    ));
}

#[test]
fn buffer_text_ends_at_the_first_zero() {
    assert_eq!(buffer_text("results", &b"ab\0c".to_vec()).unwrap(), "ab");
    assert_eq!(buffer_text("results", &"你".as_bytes().to_vec()).unwrap(), "你");
    assert_eq!(
        buffer_text("results", &vec![0xff, b'a']).unwrap_err(),
        AsrError::InvalidResponse(
            "qianwen results json is not utf-8: invalid utf-8 sequence of 1 bytes from index 0"
                .to_owned()
        )
    );
}

#[test]
fn calls_into_the_runtime_fail_with_their_status() {
    assert!(call_status("start", 0).is_ok());
    assert_eq!(
        call_status("start", -7).unwrap_err(),
        AsrError::Request("qianwen embedded call start failed with status -7".to_owned())
    );
}

#[test]
fn device_setting_takes_the_first_identifier() {
    let some = |s: &str| Some(s.to_owned());
    assert_eq!(device_setting(0, some("uid"), None, None), None);
    assert_eq!(device_setting(1, None, None, some("Mic")), None);
    assert_eq!(
        device_setting(1, some("global"), some("input"), some("Mic")),
        Some(AudioDeviceSetting { id: "global".to_owned(), name: "Mic".to_owned() })
    );
    assert_eq!(
        device_setting(1, None, some("input"), some(" ")),
        Some(AudioDeviceSetting { id: "input".to_owned(), name: "input".to_owned() })
    );
}

#[test]
fn user_settings_are_a_json_object() {
    let read = user_settings(&Some(r#"{"a":1,"b":{"c":null}}"#.to_owned()));
    assert_eq!(
        read,
        vec![
            ("a".to_owned(), Json::Number("1".to_owned())),
            ("b".to_owned(), object(vec![("c", Json::Null)])),
        ]
    );
    assert!(user_settings(&Some("[]".to_owned())).is_empty());
    assert!(user_settings(&Some("{".to_owned())).is_empty());
    assert!(user_settings(&None).is_empty());
}

#[test]
fn session_files_carry_the_session_in_their_names() {
    assert!(session_file("1-2", "debug.log").contains("1-2"));
    assert!(session_file("1-2", "debug.log").ends_with("debug.log"));
    assert!(temp_file_name(99, "settings.json").contains("99"));
}

#[test]
fn session_environment_names_the_bundle_parts() {
    let plan = SessionPlan {
        session_id: "s".to_owned(),
        runtime: "/rt".to_owned(),
        history: "/h".to_owned(),
        debug_log: "/log".to_owned(),
        observability_dir: "/obs".to_owned(),
        settings: Some("/set".to_owned()),
        microphone: None,
        asr_query_sign: None,
        frameworks: Some("/fw".to_owned()),
        unet_runtime: Some("/unet".to_owned()),
        wsg_impl: Some("/wsg".to_owned()),
    };
    let all = plan.environment_settings();
    let find = |key: &str| all.iter().find(|s| s.key == key).map(|s| s.value.clone());
    assert_eq!(find("QIANWEN_SHELL_SETTINGS_PATH").as_deref(), Some("/set"));
    assert_eq!(find("QIANWEN_WSG_IMPL_PATH").as_deref(), Some("/wsg"));
    assert_eq!(find("DICTA_QIANWEN_UNET_RUNTIME_PATH").as_deref(), Some("/unet"));
    assert_eq!(find("DICTA_QIANWEN_UNET_PROCESS_NAME").as_deref(), Some("qianwen-ime"));
    assert!(plan.status_detail().starts_with("runtime=/rt, log=/log, observability=/obs, wsg=/wsg"));
}
