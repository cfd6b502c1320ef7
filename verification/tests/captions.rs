//! Live captions on a terminal, and the transcript of a session.
use dicta::audio::{AudioError, InputDeviceInfo};
use dicta::cli::captions::{Caption, CaptionAction, LiveRenderer};
use dicta::cli::log::{
    aside_name, log_path_answer, open_log, overwrite_confirmed, save_step, suggested_path,
    validate_transcript_path, LiveSessionLog, LogEnding, LogOpening, PathFacts, SaveStep,
};
use dicta::cli::render::{
    ansi256, display_width, is_passthrough_translation, is_wide_char, physical_rows,
    primary_language_subtag, status_text, strip_ansi, terminal_width,
};
use dicta::cli::report::audio_report;
use dicta::event::{
    AudioChannel, EventTimestamp, LiveEvent, LiveMetaEvent, LiveStatusEvent, LiveStatusPhase,
    LiveTranslatedEvent, LiveVolatileEvent, TranscriptEvent, TranscriptSource, TranscriptTarget,
};

fn test_event(channel: AudioChannel, src: &str, dst: Option<&str>) -> TranscriptEvent {
    test_event_with_lang(channel, src, "en-US", dst, "ja-JP")
}

fn test_event_with_lang(
    channel: AudioChannel,
    src: &str,
    src_lang: &str,
    dst: Option<&str>,
    dst_lang: &str,
) -> TranscriptEvent {
    TranscriptEvent {
        seq: 7,
        channel,
        timestamp: EventTimestamp::from_unix_second(1_700_000_000).unwrap(),
        audio: None,
        src: TranscriptSource {
            lang: src_lang.to_owned(),
            text: src.to_owned(),
            confidence: None,
        },
        dst: dst.map(|text| TranscriptTarget {
            lang: dst_lang.to_owned(),
            text: text.to_owned(),
        }),
    }
}

fn renderer(tool: &str, json: bool, labels: bool, dst: Option<&str>) -> LiveRenderer {
    LiveRenderer::new(
        tool,
        "1.0.0",
        json,
        labels,
        Some("en-US".to_owned()),
        dst.map(str::to_owned),
    )
}

fn caption(event: TranscriptEvent) -> Caption {
    Caption { event, clock: "12:34:56".to_owned() }
}

/// The lines that a session writes to its transcript.
fn recorded(actions: &[CaptionAction]) -> String {
    actions
        .iter()
        .filter_map(|action| match action {
            CaptionAction::Record(event) => Some(event.jsonl() + "\n"),
            _ => None,
        })
        .collect()
}

fn facts(missing_parent: Option<&str>, is_dir: bool, exists: bool) -> PathFacts {
    PathFacts { missing_parent: missing_parent.map(str::to_owned), is_dir, exists }
}

fn formats_channel_labels(tool: &str) {
    let lines = renderer(tool, true, true, Some("ja-JP")).tty_lines(&caption(test_event(
        AudioChannel::Speaker,
        "hello",
        Some("こんにちは"),
    )));

    assert_eq!(lines.len(), 2);
    assert!(lines[0].contains("[spk]"));
    assert!(lines[0].contains("\x1b[38;5;24m"));
    assert!(lines[0].ends_with("hello"));
    assert!(lines[1].contains("\x1b[38;5;244m"));
    assert!(lines[1].contains("こんにちは"));
}

fn suppresses_passthrough(tool: &str) {
    let lines = renderer(tool, true, false, None).tty_lines(&caption(test_event_with_lang(
        AudioChannel::Mic,
        "same",
        "ja-JP",
        Some("same"),
        "ja",
    )));

    assert_eq!(lines.len(), 1);
}

fn keeps_cross_language(tool: &str) {
    let lines = renderer(tool, true, false, None).tty_lines(&caption(test_event_with_lang(
        AudioChannel::Mic,
        "OK",
        "en-US",
        Some("OK"),
        "ja-JP",
    )));

    assert_eq!(lines.len(), 2);
}

fn appends_jsonl(tool: &str) {
    let mut renderer = renderer(tool, true, false, None);
    let actions = renderer.handle_live_event(
        LiveEvent::Finalized(test_event(AudioChannel::Mic, "hello", None)),
        "12:34:56",
        80,
    );

    let written = recorded(&actions);
    assert!(written.contains(r#""seq":7"#));
    assert!(written.contains(r#""text":"hello""#));
}

fn keeps_status_out(tool: &str) {
    let mut renderer = renderer(tool, true, false, None);
    let mut actions = renderer.handle_live_event(
        LiveEvent::Status(LiveStatusEvent {
            phase: LiveStatusPhase::Recording,
            message: "recording 3s chunk".to_owned(),
            detail: None,
        }),
        "12:34:56",
        80,
    );
    actions.extend(renderer.handle_live_event(
        LiveEvent::Finalized(test_event(AudioChannel::Mic, "hello", None)),
        "12:34:56",
        80,
    ));

    let written = recorded(&actions);
    assert!(!written.contains(r#""type":"status""#));
    assert!(!written.contains("recording 3s chunk"));
    assert!(written.contains(r#""text":"hello""#));
}

fn status_detail() {
    let status = LiveStatusEvent {
        phase: LiveStatusPhase::Recovering,
        message: "chunk failed; continuing".to_owned(),
        detail: Some("network timeout".to_owned()),
    };

    assert_eq!(status_text(&status), "chunk failed; continuing: network timeout");
}

fn finalizes_explicit(tool: &str) {
    let mut renderer = renderer(tool, false, false, None);
    let actions = renderer.handle_live_event(
        LiveEvent::Finalized(test_event(AudioChannel::Mic, "hello", None)),
        "12:34:56",
        80,
    );
    let mut log = LiveSessionLog {
        path: "out.jsonl".to_owned(),
        suggested_path: "out.jsonl".to_owned(),
        explicit: true,
        has_content: false,
    };
    let written = recorded(&actions);
    log.appended();

    assert!(written.contains(r#""text":"hello""#));
    assert_eq!(log.finish(false, false), LogEnding::Kept("Saved transcript: out.jsonl".to_owned()));
}

fn commits_pending(tool: &str) {
    let mut renderer = renderer(tool, true, false, Some("ja-JP"));
    let first = renderer.handle_live_event(
        LiveEvent::Finalized(test_event(AudioChannel::Mic, "hello", None)),
        "12:34:56",
        80,
    );
    assert!(recorded(&first).is_empty());

    let second = renderer.handle_live_event(
        LiveEvent::Translated(LiveTranslatedEvent {
            seq: 7,
            lang: Some("zh-CN".to_owned()),
            text: "你好".to_owned(),
        }),
        "12:34:57",
        80,
    );

    let written = recorded(&second);
    assert!(written.contains(r#""text":"hello""#));
    assert!(written.contains(r#""lang":"zh-CN""#));
    assert!(written.contains(r#""text":"你好""#));
}

#[test]
fn main_live_renderer_formats_channel_labels() {
    formats_channel_labels("dicta");
}

#[test]
fn live_renderer_formats_channel_labels() {
    formats_channel_labels("vo");
}

#[test]
fn main_live_renderer_suppresses_passthrough_translation_line() {
    suppresses_passthrough("dicta");
}

#[test]
fn live_renderer_suppresses_passthrough_translation_line() {
    suppresses_passthrough("vo");
}

#[test]
fn main_live_renderer_keeps_same_text_cross_language_translation_line() {
    keeps_cross_language("dicta");
}

#[test]
fn live_renderer_keeps_same_text_cross_language_translation_line() {
    keeps_cross_language("vo");
}

#[test]
fn main_live_renderer_appends_transcript_jsonl() {
    appends_jsonl("dicta");
}

#[test]
fn live_renderer_appends_transcript_jsonl() {
    appends_jsonl("vo");
}

#[test]
fn main_live_renderer_keeps_status_out_of_transcript_log() {
    keeps_status_out("dicta");
}

#[test]
fn live_renderer_keeps_status_out_of_transcript_log() {
    keeps_status_out("vo");
}

#[test]
fn main_status_text_includes_non_empty_detail() {
    status_detail();
}

#[test]
fn status_text_includes_non_empty_detail() {
    status_detail();
}

#[test]
fn main_live_renderer_finalizes_explicit_transcript() {
    finalizes_explicit("dicta");
}

#[test]
fn live_renderer_finalizes_explicit_transcript() {
    finalizes_explicit("vo");
}

#[test]
fn main_live_renderer_commits_pending_translation_with_event_language() {
    commits_pending("dicta");
}

#[test]
fn live_renderer_commits_pending_translation_with_event_language() {
    commits_pending("vo");
}

#[test]
fn main_rejects_transcript_path_when_parent_is_missing() {
    let missing = facts(Some("/tmp/dicta-definitely-missing-dir"), false, false);

    assert_eq!(
        validate_transcript_path(&missing).unwrap_err(),
        "transcript directory does not exist: /tmp/dicta-definitely-missing-dir"
    );
    assert!(validate_transcript_path(&facts(None, false, true)).is_ok());
}

#[test]
fn end_of_session_records_what_waits() {
    let mut renderer = renderer("dicta", false, false, Some("ja-JP"));
    renderer.handle_live_event(
        LiveEvent::Finalized(test_event(AudioChannel::Mic, "hello", None)),
        "12:34:56",
        80,
    );
    let actions = renderer.handle_live_event(LiveEvent::Eof, "12:34:57", 80);
    assert!(recorded(&actions).contains(r#""text":"hello""#));
    assert_eq!(renderer.count, 1);
    assert_eq!(renderer.summary(75), vec!["", "1 utterance in 1m 15s"]);
}

#[test]
fn other_translations_leave_what_waits() {
    let mut renderer = renderer("dicta", true, false, Some("ja-JP"));
    renderer.handle_live_event(
        LiveEvent::Finalized(test_event(AudioChannel::Mic, "hello", None)),
        "12:34:56",
        80,
    );
    let actions = renderer.handle_live_event(
        LiveEvent::Translated(LiveTranslatedEvent {
            seq: 8,
            lang: None,
            text: "other".to_owned(),
        }),
        "12:34:56",
        80,
    );
    assert!(recorded(&actions).is_empty());
    assert_eq!(renderer.pending.len(), 1);
}

#[test]
fn recovering_is_told_among_the_errors_of_json_output() {
    let mut renderer = renderer("vo", true, false, None);
    let actions = renderer.handle_live_event(
        LiveEvent::Status(LiveStatusEvent {
            phase: LiveStatusPhase::Recovering,
            message: "m".to_owned(),
            detail: Some(" d ".to_owned()),
        }),
        "",
        80,
    );
    assert!(matches!(&actions[0], CaptionAction::Warn(line) if line.starts_with("vo: m")));
}

#[test]
fn banner_is_printed_once() {
    let mut renderer = renderer("dicta", false, false, None);
    let meta = || {
        LiveEvent::Meta(LiveMetaEvent {
            backend: "apple".to_owned(),
            src: "en-US".to_owned(),
            dst: None,
            mic: true,
            speaker: false,
            devices: vec![],
        })
    };
    let first = renderer.handle_live_event(meta(), "", 80);
    assert!(first.iter().any(|a| matches!(a, CaptionAction::Line(l) if l.contains("dicta"))));
    assert!(renderer.banner_printed);
}

#[test]
fn live_region_is_taken_back_before_it_is_drawn_anew() {
    let mut renderer = renderer("dicta", false, false, None);
    let volatile = |text: &str| {
        LiveEvent::Volatile(LiveVolatileEvent {
            channel: AudioChannel::Mic,
            text: text.to_owned(),
        })
    };
    renderer.handle_live_event(volatile("he"), "", 80);
    let rows = renderer.rows;
    assert!(rows > 0);
    let actions = renderer.handle_live_event(volatile("hello"), "", 80);
    assert!(matches!(actions[0], CaptionAction::Clear(n) if n == rows));
    assert_eq!(renderer.live_region_lines().len(), 1);
}

#[test]
fn widths_count_columns() {
    assert_eq!(display_width("abc"), 3);
    assert_eq!(display_width("你好"), 4);
    assert!(is_wide_char('漢') && !is_wide_char('a'));
    assert_eq!(strip_ansi("\x1b[38;5;24mhi\x1b[0m"), "hi");
    assert_eq!(ansi256(24, "hi"), "\x1b[38;5;24mhi\x1b[0m");
    assert_eq!(physical_rows("abcd", 3), 2);
    assert_eq!(physical_rows("", 3), 1);
    assert_eq!(physical_rows("\x1b[38;5;24mabc\x1b[0m", 3), 1);
    assert_eq!(terminal_width(&Some("120".to_owned())), 120);
    assert_eq!(terminal_width(&None), 80);
    assert_eq!(terminal_width(&Some("wide".to_owned())), 80);
}

#[test]
fn languages_are_compared_by_their_first_part() {
    assert_eq!(primary_language_subtag("en-US"), "en");
    assert!(is_passthrough_translation("ja-JP", "ja", "same", "same"));
    assert!(!is_passthrough_translation("ja-JP", "en", "same", "same"));
    assert!(!is_passthrough_translation("ja-JP", "ja", "same", "other"));
}

#[test]
fn transcript_is_opened_as_asked() {
    let path = Some("out.jsonl".to_owned());
    let fine = facts(None, false, false);
    let there = facts(None, false, true);
    assert_eq!(open_log(&None, &fine, true, true, None), LogOpening::NotKept);
    assert_eq!(open_log(&None, &fine, false, true, None), LogOpening::Aside);
    assert_eq!(open_log(&path, &fine, false, true, None), LogOpening::Asked);
    assert_eq!(open_log(&path, &there, false, true, None), LogOpening::Confirm);
    assert_eq!(open_log(&path, &there, false, true, Some(true)), LogOpening::Asked);
    assert_eq!(
        open_log(&path, &there, false, true, Some(false)),
        LogOpening::Refused("aborted: out.jsonl already exists".to_owned())
    );
    assert_eq!(
        open_log(&path, &facts(None, true, true), false, true, None),
        LogOpening::Refused("transcript path is a directory: out.jsonl".to_owned())
    );
    assert!(matches!(
        open_log(&path, &facts(Some("/x"), false, false), false, true, None),
        LogOpening::Refused(_)
    ));
}

#[test]
fn transcript_kept_aside_may_be_saved() {
    let mut log = LiveSessionLog {
        path: "/tmp/x".to_owned(),
        suggested_path: "./dicta-1.jsonl".to_owned(),
        explicit: false,
        has_content: false,
    };
    assert_eq!(log.finish(false, true), LogEnding::Discarded);
    log.appended();
    assert_eq!(log.finish(false, true), LogEnding::Ask);
    assert_eq!(log.finish(true, true), LogEnding::Discarded);
    log.explicit = true;
    log.has_content = false;
    assert_eq!(
        log.finish(false, true),
        LogEnding::Kept("Saved transcript: /tmp/x (no utterances)".to_owned())
    );
    assert_eq!(aside_name("dicta", "20260101", 7), "dicta-20260101-7.jsonl");
    assert_eq!(suggested_path("vo", "20260101"), "./vo-20260101.jsonl");
}

#[test]
fn answers_choose_where_to_save() {
    assert_eq!(log_path_answer("\n", "s").as_deref(), Some("s"));
    assert_eq!(log_path_answer(" YES ", "s").as_deref(), Some("s"));
    assert_eq!(log_path_answer("No", "s"), None);
    assert_eq!(log_path_answer(" a.jsonl\n", "s").as_deref(), Some("a.jsonl"));
    assert!(overwrite_confirmed("y\n"));
    assert!(!overwrite_confirmed(""));
    assert_eq!(
        save_step("t", &facts(None, false, false), None),
        SaveStep::Save("Saved transcript: t".to_owned())
    );
    assert_eq!(save_step("t", &facts(None, false, true), None), SaveStep::Confirm);
    assert_eq!(save_step("t", &facts(None, false, true), Some(false)), SaveStep::AskAgain);
    assert!(matches!(save_step("t", &facts(None, true, true), None), SaveStep::Again(_)));
    assert!(matches!(save_step("t", &facts(Some("/"), false, false), None), SaveStep::Again(_)));
}

#[test]
fn default_device_is_reported_or_its_fault() {
    let found = audio_report(Ok(InputDeviceInfo {
        name: "Mic".to_owned(),
        sample_rate: 48_000,
        channels: 2,
        sample_format: "F32".to_owned(),
    }));
    assert!(found.default_input_available && found.channels == Some(2));
    let missing = audio_report(Err(AudioError::NoInputDevice));
    assert_eq!(
        missing.error.as_deref(),
        Some("no default input audio device is available")
    );
}

#[test]
fn ended_sessions_record_each_utterance_once() {
    let mut live = renderer("dicta", true, false, Some("ja"));
    let said = |seq: u64, dst: Option<&str>| TranscriptEvent {
        seq,
        ..test_event(AudioChannel::Mic, "said", dst)
    };
    let translated = |seq: u64| {
        LiveEvent::Translated(LiveTranslatedEvent { seq, lang: None, text: "T".to_owned() })
    };
    let volatile = |channel: AudioChannel, text: &str| {
        LiveEvent::Volatile(LiveVolatileEvent { channel, text: text.to_owned() })
    };
    let mut actions = Vec::new();
    for event in [
        LiveEvent::Finalized(said(1, None)),
        volatile(AudioChannel::Speaker, "a"),
        LiveEvent::Finalized(said(2, None)),
        translated(9),
        translated(2),
        translated(2),
        LiveEvent::Finalized(said(3, Some("t"))),
        LiveEvent::Eof,
    ] {
        actions.extend(live.handle_live_event(event, "12:34:56", 80));
    }
    let log: Vec<(u64, Option<String>)> = actions
        .iter()
        .filter_map(|action| match action {
            CaptionAction::Record(e) => Some((e.seq, e.dst.as_ref().map(|t| t.text.clone()))),
            _ => None,
        })
        .collect();
    assert_eq!(
        log,
        vec![(2, Some("T".to_owned())), (3, Some("t".to_owned())), (1, None)]
    );
    assert_eq!(live.count, 3);
    assert!(live.pending.is_empty());
}

#[test]
fn each_channel_is_being_said_once() {
    let mut live = renderer("dicta", false, true, None);
    let mut say = |channel: AudioChannel, text: &str| {
        live.handle_live_event(
            LiveEvent::Volatile(LiveVolatileEvent { channel, text: text.to_owned() }),
            "12:34:56",
            80,
        );
        let held: Vec<String> = live.volatile.iter().map(|v| v.text.clone()).collect();
        held
    };
    assert_eq!(say(AudioChannel::Mic, "a"), vec!["a"]);
    assert_eq!(say(AudioChannel::Speaker, "b"), vec!["a", "b"]);
    assert_eq!(say(AudioChannel::Mic, "c"), vec!["c", "b"]);
}
