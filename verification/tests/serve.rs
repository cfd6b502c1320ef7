//! The service: the requests it takes and the answers it gives.
use dicta::asr::{AsrError, ResponseFormat, Transcript};
use dicta::cli::answer::{models_body, transcript_body};
use dicta::cli::health::ServeHealth;
use dicta::cli::serve::{
    cors_origins, is_audio_field, max_upload_bytes, parse_form_bool, parse_serve_response_format,
    parse_transcription_multipart, request_model, request_options, safe_upload_extension,
    serve_model_override, temp_upload_name, transcription_response, CorsOrigins, FieldContent,
    FormField, ServeAnswer, ServeApiError, ServeResponseFormat, TranscriptionForm, BAD_GATEWAY,
    BAD_REQUEST, INTERNAL_SERVER_ERROR,
};
use dicta::path::FilePath;

fn file(name: &str) -> FilePath {
    FilePath { root: String::new(), names: vec![name.to_owned()] }
}

fn field(name: &str, content: FieldContent) -> FormField {
    FormField { name: Some(name.to_owned()), file_name: None, content_type: None, content }
}

fn words(name: &str, value: &str) -> FormField {
    field(name, FieldContent::Text(value.to_owned()))
}

fn audio(data: &[u8]) -> FormField {
    FormField {
        file_name: Some("a.wav".to_owned()),
        content_type: Some("audio/wav".to_owned()),
        ..field("file", FieldContent::Audio(data.to_vec()))
    }
}

fn some(value: &str) -> Option<String> {
    Some(value.to_owned())
}

#[test]
fn serve_response_format_supports_json_and_text_only() {
    assert_eq!(parse_serve_response_format(&None).unwrap(), ServeResponseFormat::Json);
    assert_eq!(parse_serve_response_format(&some("json")).unwrap(), ServeResponseFormat::Json);
    assert_eq!(parse_serve_response_format(&some("text")).unwrap(), ServeResponseFormat::Text);

    let err = parse_serve_response_format(&some("verbose_json")).unwrap_err();
    assert_eq!(err.status, BAD_REQUEST);
    assert_eq!(err.param.as_deref(), Some("response_format"));
}

#[test]
fn serve_model_alias_keeps_configured_provider_model() {
    assert_eq!(serve_model_override("dicta"), None);
    assert_eq!(serve_model_override("default"), None);
    assert_eq!(serve_model_override(" whisper-1 ").as_deref(), Some("whisper-1"));
}

#[test]
fn serve_bool_parser_matches_form_values() {
    assert!(parse_form_bool("true", "stream").unwrap());
    assert!(parse_form_bool("1", "stream").unwrap());
    assert!(!parse_form_bool("false", "stream").unwrap());
    assert!(!parse_form_bool("0", "stream").unwrap());

    let err = parse_form_bool("maybe", "stream").unwrap_err();
    assert_eq!(err.param.as_deref(), Some("stream"));
}

#[test]
fn serve_upload_extension_is_sanitized() {
    assert_eq!(safe_upload_extension(&file("recording.wav")).as_deref(), Some("wav"));
    assert_eq!(safe_upload_extension(&file("recording.w@v")).as_deref(), Some("wv"));
    assert!(safe_upload_extension(&file("recording")).is_none());
}

#[test]
fn serve_rejects_zero_upload_limit() {
    assert!(max_upload_bytes(0).is_err());
    assert_eq!(max_upload_bytes(2).unwrap(), 2 * 1024 * 1024);
    assert_eq!(max_upload_bytes(usize::MAX).unwrap_err(), "--max-upload-mb is too large");
}

#[test]
fn forms_become_requests() {
    let request = parse_transcription_multipart(
        vec![
            words("model", " tiny "),
            words("language", "  "),
            words("prompt", "names"),
            words("response_format", "text"),
            words("stream", "false"),
            words("temperature", "0"),
            words("unknown", "x"),
            audio(b"data"),
        ],
        None,
    )
    .unwrap();
    assert_eq!(request.audio.data, b"data");
    assert_eq!(request.audio.filename, "a.wav");
    assert_eq!(request.audio.mime_type.as_deref(), Some("audio/wav"));
    assert_eq!(request.model.as_deref(), Some("tiny"));
    assert_eq!(request.language, None);
    assert_eq!(request.prompt.as_deref(), Some("names"));
    assert_eq!(request.response_format, ServeResponseFormat::Text);
    assert!(is_audio_field("file") && !is_audio_field("model"));
}

#[test]
fn forms_are_refused_for_what_is_wrong_with_them() {
    let refused = |fields: Vec<FormField>| {
        let error = parse_transcription_multipart(fields, None).unwrap_err();
        assert_eq!(error.status, BAD_REQUEST);
        assert_eq!(error.error_type, "invalid_request_error");
        (error.param, error.message)
    };
    assert_eq!(refused(vec![]).0.as_deref(), Some("file"));
    assert_eq!(refused(vec![audio(b"")]).0.as_deref(), Some("file"));
    assert_eq!(
        refused(vec![audio(b"a"), audio(b"b")]).1,
        "only one audio file is supported"
    );
    assert_eq!(refused(vec![audio(b"a"), words("stream", "true")]).0.as_deref(), Some("stream"));
    assert_eq!(
        refused(vec![audio(b"a"), words("timestamp_granularities[]", "word")]).0.as_deref(),
        Some("timestamp_granularities")
    );
    assert_eq!(
        refused(vec![words("response_format", "srt")]).0.as_deref(),
        Some("response_format")
    );
    let failed = field("model", FieldContent::Failed("cut off".to_owned()));
    assert!(refused(vec![failed]).1.contains("cut off"));
    let broken = parse_transcription_multipart(vec![audio(b"a")], some("early end")).unwrap_err();
    assert_eq!(broken.message, "invalid multipart field: early end");
}

#[test]
fn form_is_filled_field_by_field() {
    let mut form = TranscriptionForm::new();
    assert!(form.take(FormField { name: None, ..words("x", "y") }).is_ok());
    assert!(form.take(words("model", "m")).is_ok());
    assert!(form.take(audio(b"a")).is_ok());
    let request = form.finish().unwrap();
    assert_eq!(request.model.as_deref(), Some("m"));
    let options = request_options(&request, &some("de"));
    assert_eq!(options.language.as_deref(), Some("de"));
    assert_eq!(options.response_format, ResponseFormat::Json);
    assert_eq!(request_model(&request, &some("other")).as_deref(), Some("m"));
}

#[test]
fn errors_of_a_provider_choose_the_status() {
    let status = |error: AsrError| ServeApiError::from_asr_error(error).status;
    assert_eq!(status(AsrError::Input("m".to_owned())), BAD_REQUEST);
    assert_eq!(status(AsrError::Config("m".to_owned())), INTERNAL_SERVER_ERROR);
    assert_eq!(status(AsrError::Request("m".to_owned())), BAD_GATEWAY);
    assert_eq!(status(AsrError::InvalidResponse("m".to_owned())), BAD_GATEWAY);
    assert_eq!(
        ServeApiError::from_multipart_rejection(413, "too large").message,
        "invalid multipart form: too large"
    );
    assert_eq!(ServeApiError::invalid_param("p", "m".to_owned()).param.as_deref(), Some("p"));
}

#[test]
fn answers_are_json_or_plain_text() {
    let transcript = || Transcript { text: "hi".to_owned(), language: some("en") };
    assert_eq!(
        transcription_response(transcript(), ServeResponseFormat::Json),
        ServeAnswer::Json { text: "hi".to_owned(), language: some("en") }
    );
    assert!(matches!(
        transcription_response(transcript(), ServeResponseFormat::Text),
        ServeAnswer::Text { text, .. } if text == "hi"
    ));
    assert_eq!(ServeResponseFormat::Text.as_asr_response_format(), ResponseFormat::Text);
}

#[test]
fn origins_are_listed_or_any() {
    let origins = |all: &[&str]| cors_origins(&all.iter().map(|s| (*s).to_owned()).collect());
    assert_eq!(
        origins(&[" http://localhost:3000 ", "", "http://127.0.0.1:5173"]),
        CorsOrigins::Listed(vec![
            "http://localhost:3000".to_owned(),
            "http://127.0.0.1:5173".to_owned(),
        ])
    );
    assert_eq!(origins(&["http://a", "*"]), CorsOrigins::Any);
    assert_eq!(origins(&[]), CorsOrigins::Listed(vec![]));
}

#[test]
fn uploads_keep_their_extension() {
    let name = temp_upload_name(&file("a.w@v"), 7, 9);
    assert!(name.contains('7') && name.contains('9') && name.ends_with(".wv"));
    assert!(!temp_upload_name(&file("a"), 7, 9).ends_with('.'));
}

#[test]
fn bodies_are_json() {
    assert_eq!(
        ServeApiError::invalid_param("file", "no \"file\"".to_owned()).body(),
        r#"{"error":{"message":"no \"file\"","type":"invalid_request_error","param":"file","code":null}}"#
    );
    assert_eq!(
        models_body(&vec!["dicta".to_owned(), "m".to_owned()]),
        r#"{"object":"list","data":[{"id":"dicta","object":"model","owned_by":"dicta"},{"id":"m","object":"model","owned_by":"dicta"}]}"#
    );
    assert_eq!(transcript_body("hi", &None), r#"{"text":"hi"}"#);
    assert_eq!(
        transcript_body("hi", &some("en")),
        r#"{"text":"hi","language":"en"}"#
    );
    let health = ServeHealth {
        status: "ok",
        version: "1".to_owned(),
        backend: None,
        provider: some("p"),
        model: "m".to_owned(),
        local_config_ok: true,
        local_config_error: None,
    };
    assert_eq!(
        health.body(),
        r#"{"status":"ok","version":"1","backend":null,"provider":"p","model":"m","local_config_ok":true,"local_config_error":null}"#
    );
}
