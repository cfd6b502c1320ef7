//! Events and the lines of JSON they are written as.
use dicta::adapter::parse_live_event;
use dicta::event::{
    AudioChannel, AudioInput, AudioRange, EventTimestamp, LiveDeviceEvent, LiveEvent,
    LiveMetaEvent, LiveStatusEvent, LiveStatusPhase, LiveTranslatedEvent, LiveVolatileEvent,
    TranscriptConfidence, TranscriptEvent, TranscriptSource, TranscriptTarget,
};
use dicta::json::{compact_text, Json};
use dicta::jsonl::{read_event, read_line, read_live_event};
use dicta::path::FilePath;
use dicta::web::{
    authorization, body_of, check_direct, form_fields, openai_compatible_transcription_url,
    parse_provider_body, read_answer, recommended_recording_extension, recommended_recording_mime_type,
    recorder_mime_type, recording_file_name, transcription, transcription_url, validate_config,
    WebProviderConfig, WebProviderKind,
};

fn event() -> TranscriptEvent {
    TranscriptEvent {
        seq: 0,
        channel: AudioChannel::File,
        timestamp: EventTimestamp::from_unix_second(0).unwrap(),
        audio: None,
        src: TranscriptSource {
            lang: "en-US".to_owned(),
            text: "hello".to_owned(),
            confidence: None,
        },
        dst: None,
    }
}

fn rich_event() -> TranscriptEvent {
    TranscriptEvent {
        seq: u64::MAX,
        channel: AudioChannel::Speaker,
        timestamp: EventTimestamp::parse("2026-01-01T00:00:00.5+08:00").unwrap(),
        audio: Some(AudioRange { start: "0.25".to_owned(), end: "1.0".to_owned() }),
        src: TranscriptSource {
            lang: "zh".to_owned(),
            text: "\"引\"\n".to_owned(),
            confidence: Some(TranscriptConfidence {
                mean: "0.5".to_owned(),
                min: "1e-7".to_owned(),
            }),
        },
        dst: Some(TranscriptTarget { lang: "en".to_owned(), text: "quote".to_owned() }),
    }
}

fn finalized(line: &str) -> TranscriptEvent {
    match read_line(line).unwrap() {
        LiveEvent::Finalized(event) => event,
        other => panic!("not final: {other:?}"),
    }
}

#[test]
fn transcript_event_json_omits_optional_fields_when_absent() {
    let json = event().jsonl();
    assert!(json.contains(r#""channel":"file""#));
    assert!(json.contains(r#""timestamp":"1970-01-01T00:00:00Z""#));
    assert!(json.contains(r#""text":"hello""#));
    assert!(!json.contains(r#""audio""#));
    assert!(!json.contains(r#""dst""#));
}

#[test]
fn transcript_event_json_preserves_input_timestamp_string() {
    let json = r#"{"seq":0,"channel":"file","timestamp":"2026-01-01T00:00:00+00:00","src":{"lang":"en-US","text":"hello"}}"#;

    let event = finalized(json);
    assert_eq!(event.jsonl(), json);
    assert_eq!(
        jiff::Timestamp::from_nanosecond(event.timestamp.nanosecond).unwrap().to_string(),
        "2026-01-01T00:00:00Z"
    );
}

#[test]
fn live_event_json_uses_tagged_shape() {
    let event = LiveEvent::Volatile(LiveVolatileEvent {
        channel: AudioChannel::Mic,
        text: "partial".to_owned(),
    });

    let json = event.jsonl();
    assert!(json.contains(r#""type":"volatile""#));
    assert!(json.contains(r#""channel":"mic""#));
}

#[test]
fn live_status_event_json_uses_tagged_shape() {
    let event = LiveEvent::Status(LiveStatusEvent {
        phase: LiveStatusPhase::Recording,
        message: "recording 3s chunk".to_owned(),
        detail: None,
    });

    let json = event.jsonl();
    assert!(json.contains(r#""type":"status""#));
    assert!(json.contains(r#""phase":"recording""#));
    assert!(json.contains(r#""message":"recording 3s chunk""#));
    assert!(!json.contains(r#""detail""#));
}

#[test]
fn whole_event_is_written_in_order() {
    assert_eq!(
        rich_event().jsonl(),
        r#"{"seq":18446744073709551615,"channel":"speaker","timestamp":"2026-01-01T00:00:00.5+08:00","audio":{"start":0.25,"end":1.0},"src":{"lang":"zh","text":"\"引\"\n","confidence":{"mean":0.5,"min":1e-7}},"dst":{"lang":"en","text":"quote"}}"#
    );
}

#[test]
fn live_events_read_back_as_they_were_written() {
    let all = vec![
        LiveEvent::Meta(LiveMetaEvent {
            backend: "apple".to_owned(),
            src: "en".to_owned(),
            dst: Some("zh".to_owned()),
            mic: true,
            speaker: false,
            devices: vec![LiveDeviceEvent {
                channel: AudioChannel::Mic,
                name: "Built-in".to_owned(),
                pinned: true,
            }],
        }),
        LiveEvent::Status(LiveStatusEvent {
            phase: LiveStatusPhase::Recovering,
            message: "m".to_owned(),
            detail: Some("d".to_owned()),
        }),
        LiveEvent::Volatile(LiveVolatileEvent {
            channel: AudioChannel::Speaker,
            text: "…".to_owned(),
        }),
        LiveEvent::Finalized(rich_event()),
        LiveEvent::Finalized(event()),
        LiveEvent::Translated(LiveTranslatedEvent {
            seq: 7,
            lang: None,
            text: "x".to_owned(),
        }),
        LiveEvent::Eof,
    ];
    for event in all {
        assert_eq!(parse_live_event(&event.jsonl()).unwrap(), event);
    }
}

#[test]
fn bare_utterances_are_final() {
    assert_eq!(finalized(&rich_event().jsonl()), rich_event());
}

#[test]
fn absent_and_null_members_are_the_same() {
    let line = r#"{"type":"meta","backend":"b","src":"s","dst":null,"mic":true,"speaker":true}"#;
    assert!(matches!(
        read_line(line).unwrap(),
        LiveEvent::Meta(m) if m.dst.is_none() && m.devices.is_empty()
    ));
    let nulls = r#"{"seq":1,"channel":"mic","timestamp":"1970-01-01T00:00:00Z","audio":null,"src":{"lang":"","text":"","confidence":null},"dst":null,"more":1}"#;
    let event = finalized(nulls);
    assert!(event.audio.is_none() && event.dst.is_none() && event.src.confidence.is_none());
}

#[test]
fn values_of_other_shapes_are_no_events() {
    for line in [
        r#"{"type":"meta","backend":"b","src":"s","mic":true,"speaker":true,"devices":null}"#,
        r#"{"type":"status","phase":"sleeping","message":"m"}"#,
        r#"{"type":"volatile","channel":"left","text":"t"}"#,
        r#"{"type":"translated","seq":-1,"text":"t"}"#,
        r#"{"seq":0,"channel":"mic","timestamp":"yesterday","src":{"lang":"l","text":"t"}}"#,
        r#"{"seq":0,"channel":"mic","timestamp":"1970-01-01T00:00:00Z","src":{"lang":"l"}}"#,
        r#"{"seq":0,"channel":"mic","timestamp":"1970-01-01T00:00:00Z","audio":{"start":0},"src":{"lang":"l","text":"t"}}"#,
    ] {
        assert_eq!(read_line(line).unwrap_err(), "not an event");
    }
    assert!(read_line("{").is_err());
    assert!(read_event(&Json::Null).is_none());
    assert!(read_live_event(&Json::Array(vec![])).is_none());
}

#[test]
fn numbers_of_a_range_are_written_as_doubles() {
    let line = r#"{"seq":0,"channel":"mic","timestamp":"1970-01-01T00:00:00Z","audio":{"start":1,"end":2.50},"src":{"lang":"l","text":"t"}}"#;
    let range = finalized(line).audio.unwrap();
    assert_eq!((range.start.as_str(), range.end.as_str()), ("1.0", "2.5"));
}

#[test]
fn moments_are_read_and_written() {
    let epoch = EventTimestamp::from_unix_second(0).unwrap();
    assert_eq!((epoch.nanosecond, epoch.formatted.as_str()), (0, "1970-01-01T00:00:00Z"));
    let later = EventTimestamp::parse("1970-01-01T00:00:01.5Z").unwrap();
    assert_eq!(later.nanosecond, 1_500_000_000);
    assert_eq!(later.formatted, "1970-01-01T00:00:01.5Z");
    assert!(EventTimestamp::parse("noon").is_none());
    assert!(EventTimestamp::from_unix_second(i64::MAX).is_none());
}

#[test]
fn json_is_written_without_spaces() {
    let value = Json::Object(vec![
        ("a\"".to_owned(), Json::Array(vec![Json::Null, Json::Bool(true)])),
        ("b".to_owned(), Json::Number("1.5".to_owned())),
        ("c".to_owned(), Json::Text("\u{1}/é".to_owned())),
        ("d".to_owned(), Json::Object(vec![])),
    ]);
    assert_eq!(compact_text(&value), r#"{"a\"":[null,true],"b":1.5,"c":"\u0001/é","d":{}}"#);
}

#[test]
fn audio_goes_by_the_name_of_its_file() {
    let file = FilePath { root: "/".to_owned(), names: vec!["t".to_owned(), "a.wav".to_owned()] };
    assert_eq!(AudioInput::File(file).filename(), "a.wav");
    let root = FilePath { root: "/".to_owned(), names: vec![] };
    assert_eq!(AudioInput::File(root).filename(), "audio");
    let bytes = AudioInput::Bytes {
        data: vec![],
        filename: "b.ogg".to_owned(),
        mime_type: None,
    };
    assert_eq!(bytes.filename(), "b.ogg");
}

fn web_config() -> WebProviderConfig {
    WebProviderConfig {
        provider: WebProviderKind::OpenAiCompatible,
        api_base: "https://example.com".to_owned(),
        api_key: None,
        model: " m ".to_owned(),
        language: None,
        prompt: None,
    }
}

#[test]
fn provider_appends_v1_audio_transcriptions_to_plain_base_url() {
    assert_eq!(
        openai_compatible_transcription_url("https://example.com"),
        "https://example.com/v1/audio/transcriptions"
    );
}

#[test]
fn spaces_around_a_base_url_do_not_count() {
    assert_eq!(
        transcription_url(" https://example.com/ "),
        "https://example.com/v1/audio/transcriptions"
    );
}

#[test]
fn provider_reuses_base_url_that_already_points_at_v1() {
    assert_eq!(
        openai_compatible_transcription_url("https://example.com/v1/"),
        "https://example.com/v1/audio/transcriptions"
    );
}

#[test]
fn parses_plain_text_provider_body_as_transcript_text() {
    assert_eq!(
        parse_provider_body("hello"),
        Json::Object(vec![("text".to_owned(), Json::Text("hello".to_owned()))])
    );
}

#[test]
fn provider_bodies_that_are_json_stay_as_they_are() {
    assert_eq!(
        parse_provider_body(r#"{"text":"a"}"#),
        Json::Object(vec![("text".to_owned(), Json::Text("a".to_owned()))])
    );
    assert_eq!(body_of(Ok(Json::Null), "raw"), Json::Null);
}

#[test]
fn web_configurations_are_checked() {
    assert_eq!(validate_config(&web_config()), Ok(()));
    assert_eq!(
        validate_config(&WebProviderConfig { model: " ".to_owned(), ..web_config() }),
        Err("model is required".to_owned())
    );
    assert_eq!(
        validate_config(&WebProviderConfig { api_base: " ".to_owned(), ..web_config() }),
        Err("apiBase is required".to_owned())
    );
    assert_eq!(check_direct(&web_config()), Ok(()));
    assert_eq!(
        check_direct(&WebProviderConfig { provider: WebProviderKind::DoubaoIme, ..web_config() }),
        Err("doubao-ime is not available in browser direct mode; use openai-compatible with a CORS-enabled HTTP endpoint".to_owned())
    );
}

#[test]
fn web_requests_hold_what_is_filled_in() {
    let config = WebProviderConfig {
        language: Some(" en ".to_owned()),
        prompt: Some("  ".to_owned()),
        api_key: Some(" key ".to_owned()),
        ..web_config()
    };
    let fields = form_fields(&config);
    let plain: Vec<(&str, &str)> = fields.iter().map(|(n, v)| (*n, v.as_str())).collect();
    assert_eq!(plain, vec![("model", "m"), ("response_format", "json"), ("language", "en")]);
    assert_eq!(authorization(&config).as_deref(), Some("Bearer key"));
    assert_eq!(authorization(&web_config()), None);
}

#[test]
fn web_transcriptions_fall_back_to_the_whole_reply() {
    let made = transcription(&web_config(), "raw", Json::Null, None, None, None);
    assert_eq!(made.source.text, "raw");
    assert_eq!(made.source.lang, "und");
    let made = transcription(
        &web_config(),
        "raw",
        Json::Null,
        Some("said".to_owned()),
        Some("en".to_owned()),
        None,
    );
    assert_eq!((made.source.text.as_str(), made.source.lang.as_str()), ("said", "en"));
}

#[test]
fn recordings_are_named_after_their_type() {
    assert_eq!(recommended_recording_extension("audio/mp4"), "m4a");
    assert_eq!(recommended_recording_extension("audio/ogg;codecs=opus"), "ogg");
    assert_eq!(recommended_recording_extension("video/x"), "webm");
    assert_eq!(recording_file_name("audio/webm"), "vo-recording.webm");
    assert_eq!(
        recommended_recording_mime_type(&vec![false, false, true, true]),
        "audio/mp4"
    );
    assert_eq!(recommended_recording_mime_type(&vec![false; 4]), "audio/webm");
    assert_eq!(recorder_mime_type(" audio/ogg ", "audio/webm"), "audio/ogg");
    assert_eq!(recorder_mime_type("", "audio/webm"), "audio/webm");
}

#[test]
fn web_answers_are_read_or_refused() {
    assert_eq!(
        read_answer(&web_config(), false, 503, "busy"),
        Err("HTTP 503: busy".to_owned())
    );
    let made = read_answer(
        &web_config(),
        true,
        200,
        r#"{"text":"hi","language":"en","confidence":{"mean":0.5,"min":0.25}}"#,
    )
    .unwrap();
    assert_eq!((made.source.text.as_str(), made.source.lang.as_str()), ("hi", "en"));
    assert_eq!(made.source.confidence.unwrap().min, "0.25");
    let plain = read_answer(&web_config(), true, 200, "just text").unwrap();
    assert_eq!((plain.source.text.as_str(), plain.source.lang.as_str()), ("just text", "und"));
    for raw in ["1", r#"{"text":1}"#, r#"{"confidence":{"mean":1}}"#] {
        assert_eq!(
            read_answer(&web_config(), true, 200, raw).unwrap_err(),
            format!("invalid transcription response: not a transcription: {raw}")
        );
    }
}

#[test]
fn names_that_the_parser_keeps_for_itself_are_no_event() {
    let inner = rich_event().jsonl();
    let line = format!("{{\"other\":1,\"$serde_json::private::RawValue\":{inner:?}}}");
    assert!(read_line(&line).is_err());
    assert!(read_line(r#"{"$serde_json::private::RawValue":"1"}"#).is_err());
}
