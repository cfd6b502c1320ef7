//! The Doubao provider: its credentials, its messages, its audio and its live mode.
use dicta::asr::{
    AsrError, AsrProvider, Duration, LiveAsrOptions, LiveAsrProvider, LiveModeKind, Transcript,
};
use dicta::doubao::account::{
    body_stub, default_config_dir_from_values, default_credential_path, device_register_header,
    device_register_params, doubao_credential_path, random_hex_8, refused, register_device,
    settings_params, to_hex, token_from_app_key, websocket_url, CredentialFlow, CredentialStep,
    DeviceCredentials, DoubaoAsr, DoubaoConfig,
};
use dicta::doubao::live::{
    doubao_live_capabilities, format_status_duration, recording_file_name, validate_live_options,
    DoubaoLive, DEFAULT_MODEL,
};
use dicta::doubao::protocol::{
    check_started, ends_session, finish_session, listen, parse_response_pb, parse_result_json,
    parse_ws_message, start_session, start_task, task_request, AsrRequestPb, AsrResponsePb,
    FrameState, Hearing, ParsedResponse, ResponseKind, WsMessage, SAMPLE_RATE,
};
use dicta::doubao::sound::{
    check_pcm_format, pcm_frames, read_wav_bytes, read_wav_file, resample_to_16k_mono, to_mono,
    Resampled, WavFormat,
};
use dicta::event::{EventTimestamp, LiveEvent, LiveStatusPhase};
use dicta::path::FilePath;

fn path(root: &str, names: &[&str]) -> FilePath {
    FilePath {
        root: root.to_owned(),
        names: names.iter().map(|name| (*name).to_owned()).collect(),
    }
}

fn reply(kind: ResponseKind, text: &str, error_msg: &str) -> ParsedResponse {
    ParsedResponse { kind, text: text.to_owned(), error_msg: error_msg.to_owned() }
}

fn response(message_type: &str, result_json: &str, status_message: &str) -> AsrResponsePb {
    AsrResponsePb {
        request_id: "r".to_owned(),
        task_id: "t".to_owned(),
        service_name: "ASR".to_owned(),
        message_type: message_type.to_owned(),
        status_code: 0,
        status_message: status_message.to_owned(),
        result_json: result_json.to_owned(),
        unknown_field_9: 0,
    }
}

fn wav(spec: hound::WavSpec, samples: &[i16]) -> Vec<u8> {
    let mut cursor = std::io::Cursor::new(Vec::new());
    let mut writer = hound::WavWriter::new(&mut cursor, spec).unwrap();
    for sample in samples {
        writer.write_sample(*sample).unwrap();
    }
    writer.finalize().unwrap();
    cursor.into_inner()
}

fn pcm(channels: u16, sample_rate: u32) -> hound::WavSpec {
    hound::WavSpec {
        channels,
        sample_rate,
        bits_per_sample: 16,
        sample_format: hound::SampleFormat::Int,
    }
}

#[test]
fn doubao_live_capabilities_are_chunked_final_only() {
    let capabilities = doubao_live_capabilities();

    assert_eq!(capabilities.mode, LiveModeKind::Chunked);
    assert!(capabilities.mic);
    assert!(!capabilities.speaker);
    assert!(!capabilities.streaming_audio);
    assert!(!capabilities.partial_results);
    assert!(capabilities.finalized_results);
    assert!(!capabilities.translation);
    assert!(capabilities.requires_network);
}

#[test]
fn formats_live_status_duration_for_chunk_prompt() {
    assert_eq!(format_status_duration(Duration::from_secs(3)), "3s");
    assert_eq!(format_status_duration(Duration::from_millis(1500)), "1.5s");
}

#[test]
fn defaults_to_cached_credentials_without_api_key() {
    let place = default_credential_path(
        false,
        &Some(path("/", &["home", "me"])),
        &None,
        &None,
    );
    let config = DoubaoConfig::with_default_path(&place);

    assert_eq!(config.credential_path, place);
    assert!(config.device_id.is_none());
    assert!(config.token.is_none());
}

#[test]
fn uses_windows_appdata_for_default_config_dir() {
    let config_dir = default_config_dir_from_values(
        true,
        &None,
        &Some(path(r"C:\Users\runneradmin\AppData\Roaming", &[])),
        &Some(path(r"C:\Users\runneradmin", &[])),
    );

    assert_eq!(config_dir, Some(path(r"C:\Users\runneradmin\AppData\Roaming", &[])));
}

#[test]
fn falls_back_to_windows_userprofile_for_default_config_dir() {
    let config_dir = default_config_dir_from_values(
        true,
        &None,
        &None,
        &Some(path(r"C:\Users\runneradmin", &[])),
    );

    assert_eq!(
        config_dir,
        Some(path(r"C:\Users\runneradmin", &[]).child("AppData").child("Roaming"))
    );
}

#[test]
fn downmixes_stereo_to_mono() {
    let mono = to_mono(&vec![100, 300, -100, -300], 2);

    assert_eq!(mono, vec![200, -200]);
}

#[test]
fn keeps_16k_rate_when_resampling_not_needed() {
    let samples = vec![1, 2, 3];

    assert_eq!(resample_to_16k_mono(&samples, SAMPLE_RATE, 1), Resampled::Ready(samples));
}

#[test]
fn parses_final_result_json() {
    let parsed = parse_result_json(
        r#"{"results":[{"text":"hello","is_interim":false,"is_vad_finished":true}],"extra":{}}"#,
    )
    .unwrap();

    assert_eq!(parsed.kind, ResponseKind::Final);
    assert_eq!(parsed.text, "hello");
}

#[test]
fn builds_start_task_protobuf() {
    let request = start_task("request-id", "token");
    let bytes = request.encode();
    let decoded = AsrRequestPb::decode(&bytes).unwrap();

    assert_eq!(decoded.token, "token");
    assert_eq!(decoded.method_name, "StartTask");
    assert_eq!(decoded.request_id, "request-id");
}

#[test]
fn requests_are_written_field_by_field() {
    let request = task_request("id", vec![0, 255], FrameState::Middle, 7);
    let mut expected = Vec::new();
    prost::encoding::string::encode(3, &request.service_name, &mut expected);
    prost::encoding::string::encode(5, &request.method_name, &mut expected);
    prost::encoding::string::encode(6, &request.payload, &mut expected);
    prost::encoding::bytes::encode(7, &request.audio_data, &mut expected);
    prost::encoding::string::encode(8, &request.request_id, &mut expected);
    prost::encoding::int32::encode(9, &request.frame_state, &mut expected);
    assert!(request.token.is_empty());
    assert_ne!(request.frame_state, 0);
    assert_eq!(request.encode(), expected);
}

#[test]
fn messages_read_back_as_they_were_written() {
    let request = AsrRequestPb {
        token: "tök".to_owned(),
        service_name: String::new(),
        method_name: "m".repeat(300),
        payload: "{}".to_owned(),
        audio_data: (0..=255).collect(),
        request_id: "id".to_owned(),
        frame_state: -1,
    };
    assert_eq!(AsrRequestPb::decode(&request.encode()).unwrap(), request);
    let response = response("ResultUpdate", "{}", "ok");
    assert_eq!(AsrResponsePb::decode(&response.encode()).unwrap(), response);
}

#[test]
fn unknown_fields_are_passed_over() {
    let mut bytes = start_task("id", "token").encode();
    prost::encoding::string::encode(31, &"later".to_owned(), &mut bytes);
    prost::encoding::double::encode(32, &1.5, &mut bytes);
    assert_eq!(AsrRequestPb::decode(&bytes).unwrap(), start_task("id", "token"));
}

#[test]
fn broken_messages_are_refused_in_words() {
    assert_eq!(
        AsrRequestPb::decode(&vec![0x80]).unwrap_err(),
        "failed to decode Protobuf message: invalid varint"
    );
    assert_eq!(
        AsrRequestPb::decode(&vec![0x12, 5, b'a']).unwrap_err(),
        "failed to decode Protobuf message: AsrRequestPb.token: buffer underflow"
    );
    assert_eq!(
        AsrRequestPb::decode(&vec![0x10, 1]).unwrap_err(),
        "failed to decode Protobuf message: AsrRequestPb.token: invalid wire type: Varint (expected LengthDelimited)"
    );
    assert_eq!(
        AsrRequestPb::decode(&vec![0x12, 1, 0xff]).unwrap_err(),
        "failed to decode Protobuf message: AsrRequestPb.token: invalid string value: data is not UTF-8 encoded"
    );
    assert_eq!(
        AsrRequestPb::decode(&vec![0x17]).unwrap_err(),
        "failed to decode Protobuf message: invalid wire type value: 7"
    );
}

#[test]
fn session_requests_carry_their_configuration() {
    let start = start_session("id", "token", "device");
    assert_eq!(start.method_name, "StartSession");
    assert!(start.payload.contains("\"device\""));
    let value: serde_json::Value = serde_json::from_str(&start.payload).unwrap();
    assert_eq!(value["audio_info"]["sample_rate"], serde_json::Value::from(16_000));
    assert_eq!(finish_session("id", "token").method_name, "FinishSession");
}

#[test]
fn frames_know_their_place() {
    assert_eq!(FrameState::at(0, 1), FrameState::First);
    assert_eq!(FrameState::at(0, 3), FrameState::First);
    assert_eq!(FrameState::at(1, 3), FrameState::Middle);
    assert_eq!(FrameState::at(2, 3), FrameState::Last);
}

#[test]
fn replies_are_told_apart() {
    let kind = |message_type: &str| {
        parse_response_pb(&response(message_type, "", "").encode()).unwrap().kind
    };
    assert_eq!(kind("TaskStarted"), ResponseKind::TaskStarted);
    assert_eq!(kind("SessionStarted"), ResponseKind::SessionStarted);
    assert_eq!(kind("SessionFinished"), ResponseKind::SessionFinished);
    let failed = parse_response_pb(&response("TaskFailed", "", "why").encode()).unwrap();
    assert_eq!(failed, reply(ResponseKind::Error, "", "why"));
    assert!(matches!(
        parse_result_json("oops"),
        Err(AsrError::InvalidResponse(_))
    ));
}

#[test]
fn socket_messages_must_be_binary() {
    let bytes = response("TaskStarted", "", "").encode();
    assert_eq!(
        parse_ws_message(&WsMessage::Binary(bytes)).unwrap().kind,
        ResponseKind::TaskStarted
    );
    assert_eq!(
        parse_ws_message(&WsMessage::Text("hm".to_owned())).unwrap_err(),
        AsrError::InvalidResponse("doubao returned text websocket message: hm".to_owned())
    );
    assert_eq!(
        parse_ws_message(&WsMessage::Close).unwrap_err(),
        AsrError::Request("doubao websocket closed".to_owned())
    );
    assert_eq!(parse_ws_message(&WsMessage::Control).unwrap().kind, ResponseKind::Heartbeat);
}

#[test]
fn last_final_text_is_the_transcript() {
    let heard = listen(
        vec![
            reply(ResponseKind::Interim, "he", ""),
            reply(ResponseKind::Final, "hel", ""),
            reply(ResponseKind::Final, " hello ", ""),
            reply(ResponseKind::SessionFinished, "", ""),
            reply(ResponseKind::Final, "late", ""),
        ],
        Some("en".to_owned()),
    )
    .unwrap();
    assert_eq!(heard.text, "hello");
    assert_eq!(heard.language.as_deref(), Some("en"));
    assert_eq!(
        listen(vec![reply(ResponseKind::Error, "", "busy")], None).unwrap_err(),
        AsrError::Request("doubao ASR failed: busy".to_owned())
    );
    assert_eq!(listen(vec![], None).unwrap().text, "");

    let mut hearing = Hearing::new();
    assert!(!hearing.take(reply(ResponseKind::Final, " x ", "")).unwrap());
    assert!(hearing.take(reply(ResponseKind::SessionFinished, "", "")).unwrap());
    assert_eq!(hearing.transcript(None).text, "x");
    assert!(ends_session(&reply(ResponseKind::Error, "", "")));
    assert!(!ends_session(&reply(ResponseKind::Interim, "", "")));
}

#[test]
fn opening_steps_fail_by_name() {
    assert!(check_started("StartTask", &reply(ResponseKind::TaskStarted, "", "")).is_ok());
    assert_eq!(
        check_started("StartTask", &reply(ResponseKind::Error, "", "no")).unwrap_err(),
        AsrError::Request("doubao StartTask failed: no".to_owned())
    );
}

#[test]
fn wav_audio_is_read_with_its_format() {
    let bytes = wav(pcm(2, 44_100), &[1, -1, 300, i16::MIN]);
    let (samples, format) = read_wav_bytes(&bytes, "a.wav").unwrap();
    assert_eq!(samples, vec![1, -1, 300, i16::MIN]);
    assert_eq!(
        format,
        WavFormat { channels: 2, sample_rate: 44_100, bits_per_sample: 16, float: false }
    );
    assert!(matches!(
        read_wav_file(&b"nope".to_vec(), "a.wav"),
        Err(AsrError::Input(m))
            if m.starts_with("doubao currently accepts WAV input; failed to open a.wav: ")
    ));
    assert!(matches!(
        read_wav_bytes(&b"nope".to_vec(), "a.wav"),
        Err(AsrError::Input(m)) if m.starts_with("doubao currently accepts WAV bytes: a.wav: ")
    ));
}

#[test]
fn other_sample_formats_are_refused() {
    assert_eq!(
        check_pcm_format(
            WavFormat { channels: 1, sample_rate: 16_000, bits_per_sample: 32, float: true },
            "a.wav"
        )
        .unwrap_err(),
        AsrError::Input(
            "doubao currently accepts 16-bit PCM WAV input, got Float 32-bit in a.wav".to_owned()
        )
    );
    let mut cursor = std::io::Cursor::new(Vec::new());
    let spec = hound::WavSpec {
        channels: 1,
        sample_rate: 16_000,
        bits_per_sample: 8,
        sample_format: hound::SampleFormat::Int,
    };
    let mut writer = hound::WavWriter::new(&mut cursor, spec).unwrap();
    writer.write_sample(1_i8).unwrap();
    writer.finalize().unwrap();
    assert!(matches!(
        read_wav_file(&cursor.into_inner(), "a.wav"),
        Err(AsrError::Input(m)) if m.contains("got Int 8-bit in a.wav")
    ));
}

#[test]
fn resampling_knows_how_many_samples_come_out() {
    assert_eq!(
        resample_to_16k_mono(&vec![0; 441], 44_100, 1),
        Resampled::Stretch { mono: vec![0; 441], input_rate: 44_100, output_len: 160 }
    );
    assert_eq!(
        resample_to_16k_mono(&vec![5], 48_000, 1),
        Resampled::Stretch { mono: vec![5], input_rate: 48_000, output_len: 1 }
    );
    assert_eq!(resample_to_16k_mono(&vec![], 48_000, 1), Resampled::Ready(vec![]));
}

#[test]
fn audio_is_cut_into_frames_filled_with_silence() {
    let mut pcm: Vec<i16> = (0..330).collect();
    let frames = pcm_frames(&pcm);
    assert_eq!(frames.len(), 2);
    assert!(frames.iter().all(|frame| frame.len() == 320));
    assert_eq!(frames[1][..10], pcm[320..]);
    assert!(frames[1][10..].iter().all(|sample| *sample == 0));
    pcm.truncate(320);
    assert_eq!(pcm_frames(&pcm), vec![pcm]);
}

#[test]
fn credentials_are_registered_completed_and_kept() {
    let config = DoubaoConfig { credential_path: None, device_id: None, token: None };
    let mut flow = CredentialFlow::new(None, &config);
    assert_eq!(flow.next(), CredentialStep::Register);
    flow.registered(register_device(7, 8, "c", "o", "u").unwrap());
    assert_eq!(
        flow.next(),
        CredentialStep::FetchToken { device_id: "7".to_owned(), cdid: Some("c".to_owned()) }
    );
    flow.got_token("t".to_owned());
    assert_eq!(flow.next(), CredentialStep::Save);
    flow.saved();
    assert_eq!(flow.next(), CredentialStep::Ready);
    assert_eq!(flow.credentials.install_id.as_deref(), Some("8"));
}

#[test]
fn configured_credentials_go_before_kept_ones() {
    let kept = DeviceCredentials {
        device_id: Some("old".to_owned()),
        token: Some("kept".to_owned()),
        ..DeviceCredentials::default()
    };
    let config = DoubaoConfig {
        credential_path: None,
        device_id: Some("new".to_owned()),
        token: None,
    };
    let flow = CredentialFlow::new(Some(kept), &config);
    assert_eq!(flow.credentials.device_id.as_deref(), Some("new"));
    assert_eq!(flow.credentials.token.as_deref(), Some("kept"));
    assert_eq!(flow.next(), CredentialStep::Ready);
}

#[test]
fn registration_and_token_replies_are_checked() {
    assert_eq!(
        register_device(0, 1, "", "", "").unwrap_err(),
        AsrError::InvalidResponse("doubao registration returned empty device_id".to_owned())
    );
    assert_eq!(token_from_app_key(" key ").unwrap(), "key");
    assert_eq!(
        token_from_app_key("  ").unwrap_err(),
        AsrError::InvalidResponse("doubao token response did not contain app_key".to_owned())
    );
    assert_eq!(
        refused("token", "403 Forbidden", "no"),
        AsrError::Request("doubao token HTTP 403 Forbidden: no".to_owned())
    );
}

#[test]
fn identifiers_are_written_in_base_16() {
    assert_eq!(to_hex(&vec![0, 15, 16, 255]), "000f10ff");
    assert_eq!(random_hex_8(&vec![1, 2, 3, 4, 5, 6, 7, 8, 9]), "0102030405060708");
}

#[test]
fn body_stub_is_the_digest_in_upper_case() {
    assert_eq!(body_stub("body=null"), format!("{:X}", md5::compute("body=null")));
    assert_eq!(body_stub(""), "D41D8CD98F00B204E9800998ECF8427E");
}

#[test]
fn requests_to_the_account_service_name_the_app() {
    let find = |all: Vec<(&'static str, String)>, name: &str| {
        all.into_iter().find(|(n, _)| *n == name).map(|(_, v)| v)
    };
    assert_eq!(find(device_register_params(12, "c"), "_rticket").as_deref(), Some("12"));
    assert_eq!(find(device_register_params(12, "c"), "cdid").as_deref(), Some("c"));
    assert_eq!(find(settings_params(12, "d", "c"), "device_id").as_deref(), Some("d"));
    assert_eq!(find(settings_params(12, "d", "c"), "aid").as_deref(), Some("401734"));
    let header = device_register_header("c", "o", "u");
    assert_eq!(header.text_at("openudid").as_deref(), Some("o"));
    assert_eq!(
        websocket_url("d"),
        "wss://frontier-audio-ime-ws.doubao.com/ocean/api/v1/ws?aid=401734&device_id=d"
    );
}

#[test]
fn credentials_live_below_the_configuration_directory() {
    assert_eq!(
        doubao_credential_path(&path("/", &["home", "me", ".config"])),
        path("/", &["home", "me", ".config", "vo", "doubao-credentials.json"])
    );
    assert_eq!(default_credential_path(false, &None, &None, &None), None);
}

#[test]
fn live_session_numbers_its_chunks_and_survives_failures() {
    let mut live = DoubaoLive::new(&LiveAsrOptions::default());
    let at = || EventTimestamp::from_unix_second(1).unwrap();
    assert!(matches!(live.meta(), LiveEvent::Meta(m) if m.backend == "doubao" && m.src == "und"));
    let said = |text: &str| Ok(Transcript { text: text.to_owned(), language: None });
    assert!(matches!(
        live.chunk_done(said(" hi "), at()),
        Some(LiveEvent::Finalized(e)) if e.seq == 0 && e.src.text == "hi" && e.src.lang == "und"
    ));
    assert!(live.chunk_done(said("  "), at()).is_none());
    assert!(matches!(
        live.chunk_done(Err(AsrError::Request("busy".to_owned())), at()),
        Some(LiveEvent::Status(s)) if s.phase == LiveStatusPhase::Recovering
            && s.message == "chunk failed; continuing"
            && s.detail.as_deref() == Some("ASR request failed: busy")
    ));
    assert!(matches!(
        live.chunk_done(said("again"), at()),
        Some(LiveEvent::Finalized(e)) if e.seq == 1
    ));
    assert!(matches!(
        DoubaoLive::recording(Duration::from_millis(2500)),
        LiveEvent::Status(s) if s.message == "recording 2.5s chunk"
    ));
    assert!(matches!(
        DoubaoLive::transcribing(),
        LiveEvent::Status(s) if s.message == "transcribing chunk"
    ));
    assert_eq!(recording_file_name(5), "vo-doubao-live-5.wav");
}

#[test]
fn live_mode_takes_the_microphone_only() {
    let fits = || LiveAsrOptions::default();
    assert!(validate_live_options(&fits()).is_ok());
    let fault = |options: LiveAsrOptions| validate_live_options(&options).unwrap_err().message();
    assert_eq!(
        fault(LiveAsrOptions { mic: false, ..fits() }),
        "ASR configuration error: doubao live mode requires microphone input"
    );
    assert_eq!(
        fault(LiveAsrOptions { speaker: true, ..fits() }),
        "ASR configuration error: doubao live mode does not support speaker capture"
    );
    assert_eq!(
        fault(LiveAsrOptions { dst: Some("en".to_owned()), ..fits() }),
        "ASR configuration error: doubao live mode does not support translation"
    );
    assert_eq!(
        fault(LiveAsrOptions { voice_processing: true, ..fits() }),
        "ASR configuration error: doubao live mode does not support Apple-only capture controls"
    );
}

#[test]
fn provider_tells_its_name_and_offers_both_modes() {
    let config = DoubaoConfig { credential_path: None, device_id: None, token: None };
    let place = Some(path("/", &["c.json"]));
    let provider = DoubaoAsr::new(config, &place).unwrap();
    assert_eq!(provider.config.credential_path, place);
    assert_eq!(provider.name(), "doubao");
    assert_eq!(provider.live_name(), "doubao");
    assert!(provider.capabilities().batch_file);
    assert_eq!(provider.provider_capabilities().live, Some(doubao_live_capabilities()));
    assert_eq!(DEFAULT_MODEL, "doubaoime-asr");
}

#[test]
fn long_unknown_groups_are_passed_over() {
    let mut bytes = start_task("id", "token").encode();
    prost::encoding::encode_key(31, prost::encoding::WireType::StartGroup, &mut bytes);
    for _ in 0..200_000 {
        prost::encoding::int32::encode(1, &1, &mut bytes);
    }
    prost::encoding::encode_key(31, prost::encoding::WireType::EndGroup, &mut bytes);
    assert_eq!(AsrRequestPb::decode(&bytes).unwrap(), start_task("id", "token"));
}
