//! The HTTP service: what a request for a transcription holds, and how it is answered.
use crate::asr::{AsrError, AsrOptions, ResponseFormat, Transcript};
#[allow(unused_imports)]
use crate::asr::AsrErrorView;
use crate::path::FilePath;
use crate::text;
use vstd::prelude::*;
use vstd::string::*;

verus! {

pub const BAD_REQUEST: u16 = 400;

pub const INTERNAL_SERVER_ERROR: u16 = 500;

pub const BAD_GATEWAY: u16 = 502;

/// The limit of an upload in bytes.
pub fn max_upload_bytes(max_upload_mb: usize) -> (r: Result<usize, String>)
    ensures
        match r {
            Ok(n) => max_upload_mb > 0 && n == max_upload_mb * 1_048_576,
            Err(e) => if max_upload_mb == 0 {
                e@ == "--max-upload-mb must be greater than zero"@
            } else {
                max_upload_mb * 1_048_576 > usize::MAX && e@ == "--max-upload-mb is too large"@
            },
        },
{
    if max_upload_mb == 0 {
        return Err(text::copy("--max-upload-mb must be greater than zero"));
    }
    match max_upload_mb.checked_mul(1_048_576) {
        Some(n) => Ok(n),
        None => Err(text::copy("--max-upload-mb is too large")),
    }
}

/// Which origins may call from a browser.
#[derive(Debug, Clone, PartialEq, Eq)]
pub enum CorsOrigins {
    Any,
    Listed(Vec<String>),
}

/// The origins that are not blank, trimmed.
pub open spec fn filled_origins(origins: Seq<Seq<char>>) -> Seq<Seq<char>>
    decreases origins.len(),
{
    if origins.len() == 0 {
        origins
    } else {
        let front = filled_origins(origins.drop_last());
        match text::filled(Some(origins.last())) {
            Some(o) => front.push(o),
            None => front,
        }
    }
}

/// The origins: any, where one of them is a star.
pub fn cors_origins(origins: &Vec<String>) -> (r: CorsOrigins)
    ensures
        ({
            let all = filled_origins(text::texts(origins@));
            if all.contains("*"@) {
                r is Any
            } else {
                r matches CorsOrigins::Listed(v) && text::texts(v@) == all
            }
        }),
{
    let ghost given = text::texts(origins@);
    let mut listed: Vec<String> = Vec::new();
    let mut any = false;
    let mut i: usize = 0;
    assert(given.take(0) =~= Seq::empty());
    assert(text::texts(listed@) =~= Seq::empty());
    while i < origins.len()
        invariant
            i <= origins@.len(),
            given == text::texts(origins@),
            text::texts(listed@) == filled_origins(given.take(i as int)),
            any == text::texts(listed@).contains("*"@),
        decreases origins@.len() - i,
    {
        let ghost before = text::texts(listed@);
        proof {
            assert(given.take(i + 1).drop_last() =~= given.take(i as int));
            assert(given.take(i + 1).last() == origins@[i as int]@);
        }
        let origin = text::trim(origins[i].as_str());
        if !origin.as_str().is_empty() {
            let star = text::same(origin.as_str(), "*");
            let ghost shown = origin@;
            listed.push(origin);
            proof {
                assert(text::texts(listed@) =~= before.push(shown));
                let after = before.push(shown);
                if before.contains("*"@) {
                    let k = choose|k: int| 0 <= k < before.len() && before[k] == "*"@;
                    assert(after[k] == "*"@);
                }
                if star {
                    assert(after[before.len() as int] == "*"@);
                }
                if after.contains("*"@) && !star {
                    let k = choose|k: int| 0 <= k < after.len() && after[k] == "*"@;
                    assert(before[k] == "*"@);
                }
            }
            any = any || star;
        }
        i = i + 1;
    }
    assert(given.take(i as int) =~= given);
    if any {
        CorsOrigins::Any
    } else {
        CorsOrigins::Listed(listed)
    }
}

/// How the service refuses a request.
#[derive(Debug, Clone, PartialEq, Eq)]
pub struct ServeApiError {
    pub status: u16,
    pub message: String,
    pub error_type: &'static str,
    pub param: Option<String>,
    pub code: Option<String>,
}

pub struct ApiErrorView {
    pub status: u16,
    pub message: Seq<char>,
    pub error_type: Seq<char>,
    pub param: Option<Seq<char>>,
    pub code: Option<Seq<char>>,
}

impl View for ServeApiError {
    type V = ApiErrorView;

    open spec fn view(&self) -> ApiErrorView {
        ApiErrorView {
            status: self.status,
            message: self.message@,
            error_type: self.error_type@,
            param: text::text_of(self.param),
            code: text::text_of(self.code),
        }
    }
}

/// A request that is refused for what the client sent.
pub open spec fn refused(param: Option<Seq<char>>, message: Seq<char>) -> ApiErrorView {
    ApiErrorView {
        status: BAD_REQUEST,
        message,
        error_type: "invalid_request_error"@,
        param,
        code: None,
    }
}

impl ServeApiError {
    pub fn bad_request(message: String) -> (r: ServeApiError)
        ensures
            r@ == refused(None, message@),
    {
        ServeApiError {
            status: BAD_REQUEST,
            message,
            error_type: "invalid_request_error",
            param: None,
            code: None,
        }
    }

    pub fn invalid_param(param: &str, message: String) -> (r: ServeApiError)
        ensures
            r@ == refused(Some(param@), message@),
    {
        ServeApiError {
            status: BAD_REQUEST,
            message,
            error_type: "invalid_request_error",
            param: Some(text::copy(param)),
            code: None,
        }
    }

    pub fn server_config(message: String) -> (r: ServeApiError)
        ensures
            r@ == (ApiErrorView {
                status: INTERNAL_SERVER_ERROR,
                message: message@,
                error_type: "server_error"@,
                param: None,
                code: None,
            }),
    {
        ServeApiError {
            status: INTERNAL_SERVER_ERROR,
            message,
            error_type: "server_error",
            param: None,
            code: None,
        }
    }

    pub fn provider(message: String) -> (r: ServeApiError)
        ensures
            r@ == (ApiErrorView {
                status: BAD_GATEWAY,
                message: message@,
                error_type: "provider_error"@,
                param: None,
                code: None,
            }),
    {
        ServeApiError {
            status: BAD_GATEWAY,
            message,
            error_type: "provider_error",
            param: None,
            code: None,
        }
    }

    /// The body was no form: `status` and `error` are what the framework says of it.
    pub fn from_multipart_rejection(status: u16, error: &str) -> (r: ServeApiError)
        ensures
            r@ == (ApiErrorView {
                status,
                message: "invalid multipart form: "@ + error@,
                error_type: "invalid_request_error"@,
                param: None,
                code: None,
            }),
    {
        ServeApiError {
            status,
            message: text::cat("invalid multipart form: ", error),
            error_type: "invalid_request_error",
            param: None,
            code: None,
        }
    }

    /// A failed transcription: what was wrong with the audio is the client's fault,
    /// with the configuration the server's, and with the rest the provider's.
    pub fn from_asr_error(error: AsrError) -> (r: ServeApiError)
        ensures
            r@ == asr_refusal(error@),
    {
        match error {
            AsrError::Input(m) => ServeApiError::bad_request(m),
            AsrError::Config(m) => ServeApiError::server_config(m),
            AsrError::Request(m) => ServeApiError::provider(m),
            AsrError::InvalidResponse(m) => ServeApiError::provider(m),
        }
    }
}

pub open spec fn asr_refusal(error: AsrErrorView) -> ApiErrorView {
    match error {
        AsrErrorView::Input(m) => refused(None, m),
        AsrErrorView::Config(m) => ApiErrorView {
            status: INTERNAL_SERVER_ERROR,
            message: m,
            error_type: "server_error"@,
            param: None,
            code: None,
        },
        AsrErrorView::Request(m) => provider_refusal(m),
        AsrErrorView::InvalidResponse(m) => provider_refusal(m),
    }
}

pub open spec fn provider_refusal(message: Seq<char>) -> ApiErrorView {
    ApiErrorView {
        status: BAD_GATEWAY,
        message,
        error_type: "provider_error"@,
        param: None,
        code: None,
    }
}

#[derive(Debug, Clone, Copy, PartialEq, Eq, Structural)]
pub enum ServeResponseFormat {
    Json,
    Text,
}

impl ServeResponseFormat {
    pub open spec fn wanted(self) -> ResponseFormat {
        match self {
            ServeResponseFormat::Json => ResponseFormat::Json,
            ServeResponseFormat::Text => ResponseFormat::Text,
        }
    }

    pub fn as_asr_response_format(self) -> (r: ResponseFormat)
        ensures
            r == self.wanted(),
    {
        match self {
            ServeResponseFormat::Json => ResponseFormat::Json,
            ServeResponseFormat::Text => ResponseFormat::Text,
        }
    }
}

/// The format that a field asks for: JSON unless it says otherwise.
pub open spec fn format_in(value: Option<Seq<char>>) -> Result<ServeResponseFormat, ApiErrorView> {
    match text::filled(value) {
        None => Ok(ServeResponseFormat::Json),
        Some(v) => if v == "json"@ {
            Ok(ServeResponseFormat::Json)
        } else if v == "text"@ {
            Ok(ServeResponseFormat::Text)
        } else {
            Err(
                refused(
                    Some("response_format"@),
                    "response_format '"@ + v + "' is not supported; use 'json' or 'text'"@,
                ),
            )
        },
    }
}

pub fn parse_serve_response_format(value: &Option<String>) -> (r: Result<
    ServeResponseFormat,
    ServeApiError,
>)
    ensures
        match r {
            Ok(f) => format_in(text::text_of(*value)) == Ok::<ServeResponseFormat, ApiErrorView>(f),
            Err(e) => format_in(text::text_of(*value)) == Err::<ServeResponseFormat, ApiErrorView>(
                e@,
            ),
        },
{
    match text::non_empty(value) {
        None => Ok(ServeResponseFormat::Json),
        Some(v) => if text::same(v.as_str(), "json") {
            Ok(ServeResponseFormat::Json)
        } else if text::same(v.as_str(), "text") {
            Ok(ServeResponseFormat::Text)
        } else {
            Err(
                ServeApiError::invalid_param(
                    "response_format",
                    text::cat3(
                        "response_format '",
                        v.as_str(),
                        "' is not supported; use 'json' or 'text'",
                    ),
                ),
            )
        },
    }
}

/// The model that a request asks for, unless it leaves it to the service.
pub open spec fn model_asked(model: Seq<char>) -> Option<Seq<char>> {
    match text::filled(Some(model)) {
        Some(m) => if m == "dicta"@ || m == "default"@ {
            None
        } else {
            Some(m)
        },
        None => None,
    }
}

pub fn serve_model_override(model: &str) -> (r: Option<String>)
    ensures
        text::text_of(r) == model_asked(model@),
{
    let rest = text::trim(model);
    if rest.as_str().is_empty() || text::same(rest.as_str(), "dicta") || text::same(
        rest.as_str(),
        "default",
    ) {
        None
    } else {
        Some(rest)
    }
}

/// The words for no and for yes, in any case.
pub open spec fn says_no(v: Seq<char>) -> bool {
    v.len() == 0 || v == "false"@ || v == "0"@ || v == "no"@ || v == "off"@
}

pub open spec fn says_yes(v: Seq<char>) -> bool {
    v == "true"@ || v == "1"@ || v == "yes"@ || v == "on"@
}

pub open spec fn truth_in(value: Seq<char>, param: Seq<char>) -> Result<bool, ApiErrorView> {
    let v = text::lowered(text::trimmed(value));
    if says_no(v) {
        Ok(false)
    } else if says_yes(v) {
        Ok(true)
    } else {
        Err(refused(Some(param), param + " must be true or false"@))
    }
}

pub fn parse_form_bool(value: &str, param: &str) -> (r: Result<bool, ServeApiError>)
    ensures
        match r {
            Ok(b) => truth_in(value@, param@) == Ok::<bool, ApiErrorView>(b),
            Err(e) => truth_in(value@, param@) == Err::<bool, ApiErrorView>(e@),
        },
{
    let v = text::ascii_lowercase(text::trim(value).as_str());
    let v = v.as_str();
    if v.is_empty() || text::same(v, "false") || text::same(v, "0") || text::same(v, "no")
        || text::same(v, "off") {
        Ok(false)
    } else if text::same(v, "true") || text::same(v, "1") || text::same(v, "yes") || text::same(
        v,
        "on",
    ) {
        Ok(true)
    } else {
        Err(ServeApiError::invalid_param(param, text::cat(param, " must be true or false")))
    }
}

/// The audio that was uploaded.
#[derive(Debug, Clone, PartialEq, Eq)]
pub struct ServeUploadedAudio {
    pub data: Vec<u8>,
    pub filename: String,
    pub mime_type: Option<String>,
}

/// A request for a transcription.
#[derive(Debug, Clone, PartialEq, Eq)]
pub struct ServeTranscriptionRequest {
    pub audio: ServeUploadedAudio,
    pub model: Option<String>,
    pub language: Option<String>,
    pub prompt: Option<String>,
    pub response_format: ServeResponseFormat,
}

/// What reading the content of a field gave.
#[derive(Debug, Clone, PartialEq, Eq)]
pub enum FieldContent {
    Audio(Vec<u8>),
    Text(String),
    /// It could not be read.
    Failed(String),
}

/// A field of the form.
#[derive(Debug, Clone, PartialEq, Eq)]
pub struct FormField {
    /// One without a name is passed over.
    pub name: Option<String>,
    pub file_name: Option<String>,
    pub content_type: Option<String>,
    pub content: FieldContent,
}

/// Whether a field holds audio, which is read as bytes.
pub fn is_audio_field(name: &str) -> (r: bool)
    ensures
        r == (name@ == "file"@),
{
    text::same(name, "file")
}

#[verifier::ext_equal]
pub struct AudioView {
    pub data: Seq<u8>,
    pub filename: Seq<char>,
    pub mime_type: Option<Seq<char>>,
}

impl View for ServeUploadedAudio {
    type V = AudioView;

    open spec fn view(&self) -> AudioView {
        AudioView {
            data: self.data@,
            filename: self.filename@,
            mime_type: text::text_of(self.mime_type),
        }
    }
}

/// What the fields so far say.
#[verifier::ext_equal]
pub struct FormView {
    pub audio: Option<AudioView>,
    pub model: Option<Seq<char>>,
    pub language: Option<Seq<char>>,
    pub prompt: Option<Seq<char>>,
    pub response_format: ServeResponseFormat,
}

impl FormView {
    pub open spec fn blank() -> FormView {
        FormView {
            audio: None,
            model: None,
            language: None,
            prompt: None,
            response_format: ServeResponseFormat::Json,
        }
    }
}

/// The text of a field, or the refusal where it could not be read.
pub open spec fn text_in(field: FormField) -> Result<Seq<char>, ApiErrorView> {
    match field.content {
        FieldContent::Text(t) => Ok(t@),
        FieldContent::Audio(_) => Ok(Seq::empty()),
        FieldContent::Failed(e) => Err(refused(None, "failed to read multipart field: "@ + e@)),
    }
}

/// The audio of a field; its name is "audio" where the client gives none.
pub open spec fn audio_in(field: FormField) -> Result<AudioView, ApiErrorView> {
    match field.content {
        FieldContent::Audio(data) => Ok(
            AudioView {
                data: data@,
                filename: match text::filled(text::text_of(field.file_name)) {
                    Some(name) => name,
                    None => "audio"@,
                },
                mime_type: text::filled(text::text_of(field.content_type)),
            },
        ),
        FieldContent::Text(t) => Ok(
            AudioView {
                data: Seq::empty(),
                filename: match text::filled(text::text_of(field.file_name)) {
                    Some(name) => name,
                    None => "audio"@,
                },
                mime_type: text::filled(text::text_of(field.content_type)),
            },
        ),
        FieldContent::Failed(e) => Err(refused(None, "failed to read uploaded file: "@ + e@)),
    }
}

/// The form with one more field, or the refusal that the field brings.
pub open spec fn with_field(form: FormView, field: FormField) -> Result<FormView, ApiErrorView> {
    match field.name {
        None => Ok(form),
        Some(name) => if name@ == "file"@ {
            if form.audio is Some {
                Err(refused(Some("file"@), "only one audio file is supported"@))
            } else {
                match audio_in(field) {
                    Ok(audio) => Ok(FormView { audio: Some(audio), ..form }),
                    Err(e) => Err(e),
                }
            }
        } else if name@ == "model"@ {
            match text_in(field) {
                Ok(t) => Ok(FormView { model: text::filled(Some(t)), ..form }),
                Err(e) => Err(e),
            }
        } else if name@ == "language"@ {
            match text_in(field) {
                Ok(t) => Ok(FormView { language: text::filled(Some(t)), ..form }),
                Err(e) => Err(e),
            }
        } else if name@ == "prompt"@ {
            match text_in(field) {
                Ok(t) => Ok(FormView { prompt: text::filled(Some(t)), ..form }),
                Err(e) => Err(e),
            }
        } else if name@ == "response_format"@ {
            match text_in(field) {
                Ok(t) => match format_in(Some(t)) {
                    Ok(response_format) => Ok(FormView { response_format, ..form }),
                    Err(e) => Err(e),
                },
                Err(e) => Err(e),
            }
        } else if name@ == "stream"@ {
            match text_in(field) {
                Ok(t) => match truth_in(t, "stream"@) {
                    Ok(false) => Ok(form),
                    Ok(true) => Err(
                        refused(
                            Some("stream"@),
                            "streaming transcription is not supported by dicta serve yet"@,
                        ),
                    ),
                    Err(e) => Err(e),
                },
                Err(e) => Err(e),
            }
        } else if name@ == "timestamp_granularities"@ || name@ == "timestamp_granularities[]"@ {
            match text_in(field) {
                Ok(_) => Err(
                    refused(
                        Some("timestamp_granularities"@),
                        "timestamp granularities are not supported by dicta serve yet"@,
                    ),
                ),
                Err(e) => Err(e),
            }
        } else if name@ == "temperature"@ {
            match text_in(field) {
                Ok(_) => Ok(form),
                Err(e) => Err(e),
            }
        } else {
            Ok(form)
        },
    }
}

/// A form as its fields come in.
pub struct TranscriptionForm {
    pub audio: Option<ServeUploadedAudio>,
    pub model: Option<String>,
    pub language: Option<String>,
    pub prompt: Option<String>,
    pub response_format: ServeResponseFormat,
}

impl View for TranscriptionForm {
    type V = FormView;

    open spec fn view(&self) -> FormView {
        FormView {
            audio: match self.audio {
                Some(a) => Some(a@),
                None => None,
            },
            model: text::text_of(self.model),
            language: text::text_of(self.language),
            prompt: text::text_of(self.prompt),
            response_format: self.response_format,
        }
    }
}

fn read_multipart_text(content: FieldContent) -> (r: Result<String, ServeApiError>)
    ensures
        match r {
            Ok(t) => match content {
                FieldContent::Text(s) => t@ == s@,
                FieldContent::Audio(_) => t@ == Seq::<char>::empty(),
                FieldContent::Failed(_) => false,
            },
            Err(e) => content matches FieldContent::Failed(m) && e@ == refused(
                None,
                "failed to read multipart field: "@ + m@,
            ),
        },
{
    match content {
        FieldContent::Text(t) => Ok(t),
        FieldContent::Audio(_) => Ok(String::new()),
        FieldContent::Failed(e) => Err(
            ServeApiError::bad_request(text::cat("failed to read multipart field: ", e.as_str())),
        ),
    }
}

fn read_uploaded_audio(field: FormField) -> (r: Result<ServeUploadedAudio, ServeApiError>)
    ensures
        match r {
            Ok(a) => audio_in(field) == Ok::<AudioView, ApiErrorView>(a@),
            Err(e) => audio_in(field) == Err::<AudioView, ApiErrorView>(e@),
        },
{
    let filename = match text::non_empty(&field.file_name) {
        Some(name) => name,
        None => text::copy("audio"),
    };
    let mime_type = text::non_empty(&field.content_type);
    match field.content {
        FieldContent::Audio(data) => Ok(ServeUploadedAudio { data, filename, mime_type }),
        FieldContent::Text(_) => Ok(ServeUploadedAudio { data: Vec::new(), filename, mime_type }),
        FieldContent::Failed(e) => Err(
            ServeApiError::bad_request(text::cat("failed to read uploaded file: ", e.as_str())),
        ),
    }
}

impl TranscriptionForm {
    pub fn new() -> (r: TranscriptionForm)
        ensures
            r@ == FormView::blank(),
    {
        TranscriptionForm {
            audio: None,
            model: None,
            language: None,
            prompt: None,
            response_format: ServeResponseFormat::Json,
        }
    }

    /// Takes one more field.
    pub fn take(&mut self, field: FormField) -> (r: Result<(), ServeApiError>)
        ensures
            match r {
                Ok(()) => with_field(old(self)@, field) == Ok::<FormView, ApiErrorView>(
                    final(self)@,
                ),
                Err(e) => with_field(old(self)@, field) == Err::<FormView, ApiErrorView>(e@),
            },
    {
        let name = match &field.name {
            Some(name) => text::copy(name.as_str()),
            None => {
                return Ok(());
            },
        };
        let name = name.as_str();
        if text::same(name, "file") {
            if self.audio.is_some() {
                return Err(
                    ServeApiError::invalid_param(
                        "file",
                        text::copy("only one audio file is supported"),
                    ),
                );
            }
            return match read_uploaded_audio(field) {
                Ok(audio) => {
                    self.audio = Some(audio);
                    Ok(())
                },
                Err(e) => Err(e),
            };
        }
        let known = text::same(name, "model") || text::same(name, "language") || text::same(
            name,
            "prompt",
        ) || text::same(name, "response_format") || text::same(name, "stream") || text::same(
            name,
            "timestamp_granularities",
        ) || text::same(name, "timestamp_granularities[]") || text::same(name, "temperature");
        if !known {
            return Ok(());
        }
        let value = match read_multipart_text(field.content) {
            Ok(value) => value,
            Err(e) => {
                return Err(e);
            },
        };
        if text::same(name, "model") {
            self.model = text::non_empty(&Some(value));
        } else if text::same(name, "language") {
            self.language = text::non_empty(&Some(value));
        } else if text::same(name, "prompt") {
            self.prompt = text::non_empty(&Some(value));
        } else if text::same(name, "response_format") {
            match parse_serve_response_format(&Some(value)) {
                Ok(f) => {
                    self.response_format = f;
                },
                Err(e) => {
                    return Err(e);
                },
            }
        } else if text::same(name, "stream") {
            match parse_form_bool(value.as_str(), "stream") {
                Ok(false) => {},
                Ok(true) => {
                    return Err(
                        ServeApiError::invalid_param(
                            "stream",
                            text::copy(
                                "streaming transcription is not supported by dicta serve yet",
                            ),
                        ),
                    );
                },
                Err(e) => {
                    return Err(e);
                },
            }
        } else if text::same(name, "timestamp_granularities") || text::same(
            name,
            "timestamp_granularities[]",
        ) {
            return Err(
                ServeApiError::invalid_param(
                    "timestamp_granularities",
                    text::copy("timestamp granularities are not supported by dicta serve yet"),
                ),
            );
        }
        Ok(())
    }

    /// The request that the form makes.
    pub fn finish(self) -> (r: Result<ServeTranscriptionRequest, ServeApiError>)
        ensures
            request_says(complete(self@), r),
    {
        match self.audio {
            None => Err(
                ServeApiError::invalid_param(
                    "file",
                    text::copy("multipart field 'file' is required"),
                ),
            ),
            Some(audio) => {
                if audio.data.is_empty() {
                    return Err(
                        ServeApiError::invalid_param(
                            "file",
                            text::copy("uploaded audio file is empty"),
                        ),
                    );
                }
                Ok(
                    ServeTranscriptionRequest {
                        audio,
                        model: self.model,
                        language: self.language,
                        prompt: self.prompt,
                        response_format: self.response_format,
                    },
                )
            },
        }
    }
}

/// The form with all its fields, or the refusal for want of audio.
pub open spec fn complete(form: FormView) -> Result<FormView, ApiErrorView> {
    match form.audio {
        None => Err(refused(Some("file"@), "multipart field 'file' is required"@)),
        Some(audio) => if audio.data.len() == 0 {
            Err(refused(Some("file"@), "uploaded audio file is empty"@))
        } else {
            Ok(form)
        },
    }
}

/// The request holds what the form says, or is refused for the same.
pub open spec fn request_says(
    form: Result<FormView, ApiErrorView>,
    r: Result<ServeTranscriptionRequest, ServeApiError>,
) -> bool {
    match r {
        Ok(q) => form == Ok::<FormView, ApiErrorView>(
            FormView {
                audio: Some(q.audio@),
                model: text::text_of(q.model),
                language: text::text_of(q.language),
                prompt: text::text_of(q.prompt),
                response_format: q.response_format,
            },
        ),
        Err(e) => form == Err::<FormView, ApiErrorView>(e@),
    }
}

/// The form that the fields make, or the first refusal.
pub open spec fn form_of(fields: Seq<FormField>) -> Result<FormView, ApiErrorView>
    decreases fields.len(),
{
    if fields.len() == 0 {
        Ok(FormView::blank())
    } else {
        match form_of(fields.drop_last()) {
            Err(e) => Err(e),
            Ok(form) => with_field(form, fields.last()),
        }
    }
}

/// The request that the fields make, or the refusal; `broken` is as below.
pub open spec fn request_of(fields: Seq<FormField>, broken: Option<Seq<char>>) -> Result<
    FormView,
    ApiErrorView,
> {
    match form_of(fields) {
        Err(e) => Err(e),
        Ok(form) => match broken {
            Some(m) => Err(refused(None, "invalid multipart field: "@ + m)),
            None => complete(form),
        },
    }
}

/// Reads a form. `fields` are the fields that came; `broken` is what went wrong
/// where the form broke off behind them.
pub fn parse_transcription_multipart(fields: Vec<FormField>, broken: Option<String>) -> (r: Result<
    ServeTranscriptionRequest,
    ServeApiError,
>)
    ensures
        match form_of(fields@) {
            Err(e) => r is Err && r->Err_0@ == e,
            Ok(form) => match broken {
                Some(m) => r is Err && r->Err_0@ == refused(
                    None,
                    "invalid multipart field: "@ + m@,
                ),
                None => request_says(complete(form), r),
            },
        },
        request_says(request_of(fields@, text::text_of(broken)), r),
{
    let mut form = TranscriptionForm::new();
    let ghost all = fields@;
    let n: usize = fields.len();
    let mut rest = reversed(fields);
    let mut i: usize = 0;
    assert(all.take(0) =~= Seq::empty());
    assert(all.subrange(0, n as int) =~= all);
    while i < n
        invariant
            i <= n,
            n == all.len(),
            all == fields@,
            rest@ == all.subrange(i as int, n as int).reverse(),
            form_of(all.take(i as int)) == Ok::<FormView, ApiErrorView>(form@),
        decreases n - i,
    {
        let ghost tail = all.subrange(i as int, n as int);
        proof {
            assert(rest@.last() == tail[0]);
            assert(all.take(i + 1).drop_last() =~= all.take(i as int));
            assert(all.take(i + 1).last() == all[i as int]);
        }
        if let Some(field) = rest.pop() {
            assert(field == all[i as int]);
            assert(rest@ =~= all.subrange(i + 1, n as int).reverse());
            match form.take(field) {
                Ok(()) => {},
                Err(e) => {
                    proof {
                        lemma_refusal_stays(all, i + 1);
                    }
                    return Err(e);
                },
            }
        }
        i = i + 1;
    }
    assert(all.take(i as int) =~= all);
    if let Some(m) = broken {
        return Err(
            ServeApiError::bad_request(text::cat("invalid multipart field: ", m.as_str())),
        );
    }
    form.finish()
}

fn reversed(fields: Vec<FormField>) -> (r: Vec<FormField>)
    ensures
        r@ == fields@.reverse(),
{
    let ghost all = fields@;
    let mut waiting = fields;
    let mut r: Vec<FormField> = Vec::new();
    while waiting.len() > 0
        invariant
            waiting@ == all.take(waiting@.len() as int),
            waiting@.len() <= all.len(),
            r@ == all.subrange(waiting@.len() as int, all.len() as int).reverse(),
        decreases waiting@.len(),
    {
        let ghost n = waiting@.len();
        if let Some(field) = waiting.pop() {
            r.push(field);
            assert(waiting@ =~= all.take(n - 1));
            assert(r@ =~= all.subrange(n - 1, all.len() as int).reverse());
        }
    }
    assert(all.subrange(0, all.len() as int) =~= all);
    r
}

proof fn lemma_refusal_stays(fields: Seq<FormField>, n: int)
    requires
        0 <= n <= fields.len(),
        form_of(fields.take(n)) is Err,
    ensures
        form_of(fields) == form_of(fields.take(n)),
    decreases fields.len() - n,
{
    if n == fields.len() {
        assert(fields.take(n) =~= fields);
    } else {
        assert(fields.take(n + 1).drop_last() =~= fields.take(n));
        lemma_refusal_stays(fields, n + 1);
    }
}

/// Every refusal of a form is answered as an invalid request, and with status 400.
pub proof fn law_form_refusals(fields: Seq<FormField>)
    ensures
        form_of(fields) matches Err(e) ==> e.status == BAD_REQUEST && e.error_type
            == "invalid_request_error"@,
    decreases fields.len(),
{
    if fields.len() > 0 {
        law_form_refusals(fields.drop_last());
    }
}

/// Nothing is transcribed without audio: a form that is accepted has some.
pub proof fn law_accepted_form_has_audio(form: FormView)
    ensures
        complete(form) matches Ok(f) ==> f.audio is Some && f.audio->0.data.len() > 0 && f == form,
{
}

/// The extension of an upload's file: at most 16 ASCII letters and digits.
pub open spec fn letters_and_digits(s: Seq<char>) -> Seq<char>
    decreases s.len(),
{
    if s.len() == 0 {
        s
    } else {
        let front = letters_and_digits(s.drop_last());
        if text::ascii_alphanumeric(s.last()) {
            front.push(s.last())
        } else {
            front
        }
    }
}

pub open spec fn first_sixteen(s: Seq<char>) -> Seq<char> {
    if s.len() <= 16 {
        s
    } else {
        s.take(16)
    }
}

pub open spec fn safe_extension(extension: Option<Seq<char>>) -> Option<Seq<char>> {
    match text::filled(extension) {
        Some(e) => {
            let kept = first_sixteen(letters_and_digits(e));
            if kept.len() > 0 {
                Some(kept)
            } else {
                None
            }
        },
        None => None,
    }
}

fn keep_letters_and_digits(s: &str) -> (r: String)
    ensures
        r@ == first_sixteen(letters_and_digits(s@)),
{
    let chars = text::to_chars(s);
    let mut kept: Vec<char> = Vec::new();
    let mut i: usize = 0;
    while i < chars.len()
        invariant
            i <= chars@.len(),
            kept@ == letters_and_digits(chars@.take(i as int)),
        decreases chars@.len() - i,
    {
        let c = chars[i];
        assert(chars@.take(i + 1).drop_last() =~= chars@.take(i as int));
        if ('a' <= c && c <= 'z') || ('A' <= c && c <= 'Z') || ('0' <= c && c <= '9') {
            kept.push(c);
        }
        i = i + 1;
    }
    assert(chars@.take(i as int) =~= chars@);
    if kept.len() <= 16 {
        text::of_chars(&kept)
    } else {
        let r = text::from_chars(&kept, 0, 16);
        assert(kept@.subrange(0, 16) =~= kept@.take(16));
        r
    }
}

pub fn safe_upload_extension(filename: &FilePath) -> (r: Option<String>)
    ensures
        text::text_of(r) == safe_extension(filename@.extension()),
{
    match text::non_empty(&filename.extension()) {
        Some(e) => {
            let kept = keep_letters_and_digits(e.as_str());
            if kept.as_str().is_empty() {
                None
            } else {
                Some(kept)
            }
        },
        None => None,
    }
}

/// The name of the file that an upload is staged in.
pub fn temp_upload_name(filename: &FilePath, process_id: u32, nanos: u64) -> (r: String)
    ensures
        r@ == "dicta-serve-"@ + text::decimal(process_id as nat) + "-"@ + text::decimal(
            nanos as nat,
        ) + "."@ + match safe_extension(filename@.extension()) {
            Some(e) => e,
            None => "audio"@,
        },
{
    let extension = match safe_upload_extension(filename) {
        Some(e) => e,
        None => text::copy("audio"),
    };
    let front = text::cat4(
        "dicta-serve-",
        text::number(process_id as u64).as_str(),
        "-",
        text::number(nanos).as_str(),
    );
    text::cat3(front.as_str(), ".", extension.as_str())
}

/// What a transcript is asked with: the request's language goes before the
/// configured one.
pub fn request_options(request: &ServeTranscriptionRequest, src: &Option<String>) -> (r: AsrOptions)
    ensures
        text::text_of(r.language) == if request.language is Some {
            text::text_of(request.language)
        } else {
            text::text_of(*src)
        },
        text::text_of(r.prompt) == text::text_of(request.prompt),
        r.response_format == request.response_format.wanted(),
        (text::text_of(r.language), text::text_of(r.prompt), r.response_format) == asked_with(
            request_view(*request),
            text::text_of(*src),
        ),
{
    let language = if request.language.is_some() {
        text::copy_opt(&request.language)
    } else {
        text::copy_opt(src)
    };
    AsrOptions {
        language,
        prompt: text::copy_opt(&request.prompt),
        response_format: request.response_format.as_asr_response_format(),
    }
}

/// The model that a request is served with: the one it asks for, or the configured one.
pub fn request_model(request: &ServeTranscriptionRequest, api_model: &Option<String>) -> (r: Option<
    String,
>)
    ensures
        text::text_of(r) == match request.model {
            Some(m) => if model_asked(m@) is Some {
                model_asked(m@)
            } else {
                text::text_of(*api_model)
            },
            None => text::text_of(*api_model),
        },
{
    if let Some(m) = &request.model {
        let asked = serve_model_override(m.as_str());
        if asked.is_some() {
            return asked;
        }
    }
    text::copy_opt(api_model)
}

/// The answer to a request that was served.
#[derive(Debug, Clone, PartialEq, Eq)]
pub enum ServeAnswer {
    Json { text: String, language: Option<String> },
    /// Plain text, with its content type.
    Text { content_type: &'static str, text: String },
}

pub fn transcription_response(transcript: Transcript, response_format: ServeResponseFormat) -> (r:
    ServeAnswer)
    ensures
        match response_format {
            ServeResponseFormat::Json => r == (ServeAnswer::Json {
                text: transcript.text,
                language: transcript.language,
            }),
            ServeResponseFormat::Text => r matches ServeAnswer::Text { content_type, text }
                && content_type@ == "text/plain; charset=utf-8"@ && text == transcript.text,
        },
{
    match response_format {
        ServeResponseFormat::Json => ServeAnswer::Json {
            text: transcript.text,
            language: transcript.language,
        },
        ServeResponseFormat::Text => ServeAnswer::Text {
            content_type: "text/plain; charset=utf-8",
            text: transcript.text,
        },
    }
}

/// Whether a field has that name.
pub open spec fn named(field: FormField, name: Seq<char>) -> bool {
    field.name matches Some(n) && n@ == name
}

/// The last field with that name is the one at `at`.
pub open spec fn last_named(fields: Seq<FormField>, name: Seq<char>, at: int) -> bool {
    &&& 0 <= at < fields.len()
    &&& named(fields[at], name)
    &&& forall|j: int| at < j < fields.len() ==> !named(#[trigger] fields[j], name)
}

/// No field has that name.
pub open spec fn none_named(fields: Seq<FormField>, name: Seq<char>) -> bool {
    forall|j: int| 0 <= j < fields.len() ==> !named(#[trigger] fields[j], name)
}

proof fn lemma_names_differ()
    ensures
        "file"@.len() == 4,
        "model"@.len() == 5,
        "prompt"@.len() == 6 && "prompt"@[0] == 'p',
        "stream"@.len() == 6 && "stream"@[0] == 's',
        "language"@.len() == 8,
        "temperature"@.len() == 11,
        "response_format"@.len() == 15,
        "timestamp_granularities"@.len() == 23,
        "timestamp_granularities[]"@.len() == 25,
{
    reveal_strlit("file");
    reveal_strlit("model");
    reveal_strlit("prompt");
    reveal_strlit("stream");
    reveal_strlit("language");
    reveal_strlit("temperature");
    reveal_strlit("response_format");
    reveal_strlit("timestamp_granularities");
    reveal_strlit("timestamp_granularities[]");
}

/// From `from` on, what no field names stays as it was.
proof fn lemma_unnamed_is_kept(fields: Seq<FormField>, from: int)
    requires
        form_of(fields) is Ok,
        0 <= from <= fields.len(),
    ensures
        form_of(fields.take(from)) is Ok,
        (forall|j: int| from <= j < fields.len() ==> !named(#[trigger] fields[j], "language"@))
            ==> form_of(fields)->Ok_0.language == form_of(fields.take(from))->Ok_0.language,
        (forall|j: int| from <= j < fields.len() ==> !named(#[trigger] fields[j], "prompt"@))
            ==> form_of(fields)->Ok_0.prompt == form_of(fields.take(from))->Ok_0.prompt,
        (forall|j: int| from <= j < fields.len() ==> !named(#[trigger] fields[j], "model"@))
            ==> form_of(fields)->Ok_0.model == form_of(fields.take(from))->Ok_0.model,
        (forall|j: int|
            from <= j < fields.len() ==> !named(#[trigger] fields[j], "response_format"@))
            ==> form_of(fields)->Ok_0.response_format == form_of(
            fields.take(from),
        )->Ok_0.response_format,
        (forall|j: int| from <= j < fields.len() ==> !named(#[trigger] fields[j], "file"@))
            ==> form_of(fields)->Ok_0.audio == form_of(fields.take(from))->Ok_0.audio,
        form_of(fields.take(from))->Ok_0.audio is Some ==> form_of(fields)->Ok_0.audio == form_of(
            fields.take(from),
        )->Ok_0.audio,
    decreases fields.len(),
{
    if from == fields.len() {
        assert(fields.take(from) =~= fields);
    } else {
        lemma_names_differ();
        let front = fields.drop_last();
        assert(front.take(from) =~= fields.take(from));
        assert(fields.last() == fields[fields.len() - 1]);
        lemma_unnamed_is_kept(front, from);
        assert(forall|j: int| from <= j < front.len() ==> front[j] == #[trigger] fields[j]);
    }
}

proof fn lemma_step(fields: Seq<FormField>, at: int)
    requires
        0 <= at < fields.len(),
    ensures
        form_of(fields.take(at + 1)) == match form_of(fields.take(at)) {
            Err(e) => Err::<FormView, ApiErrorView>(e),
            Ok(form) => with_field(form, fields[at]),
        },
{
    assert(fields.take(at + 1).drop_last() =~= fields.take(at));
    assert(fields.take(at + 1).last() == fields[at]);
}

/// The language of an accepted form is the text, trimmed, of its last field of that name,
/// and is left open where that text is blank or no field has the name.
pub proof fn law_last_language_counts(fields: Seq<FormField>, at: int)
    requires
        request_of(fields, None) is Ok,
    ensures
        last_named(fields, "language"@, at) ==> match fields[at].content {
            FieldContent::Text(t) => request_of(fields, None)->Ok_0.language == if text::trimmed(
                t@,
            ).len() > 0 {
                Some(text::trimmed(t@))
            } else {
                None
            },
            FieldContent::Audio(_) => request_of(fields, None)->Ok_0.language is None,
            FieldContent::Failed(_) => false,
        },
        none_named(fields, "language"@) ==> request_of(fields, None)->Ok_0.language is None,
{
    lemma_names_differ();
    lemma_unnamed_is_kept(fields, 0);
    assert(fields.take(0) =~= Seq::empty());
    if last_named(fields, "language"@, at) {
        lemma_unnamed_is_kept(fields, at + 1);
        lemma_step(fields, at);
        text::lemma_nothing_to_trim();
    }
}

/// The same of the prompt.
pub proof fn law_last_prompt_counts(fields: Seq<FormField>, at: int)
    requires
        request_of(fields, None) is Ok,
    ensures
        last_named(fields, "prompt"@, at) ==> match fields[at].content {
            FieldContent::Text(t) => request_of(fields, None)->Ok_0.prompt == if text::trimmed(
                t@,
            ).len() > 0 {
                Some(text::trimmed(t@))
            } else {
                None
            },
            FieldContent::Audio(_) => request_of(fields, None)->Ok_0.prompt is None,
            FieldContent::Failed(_) => false,
        },
        none_named(fields, "prompt"@) ==> request_of(fields, None)->Ok_0.prompt is None,
{
    lemma_names_differ();
    lemma_unnamed_is_kept(fields, 0);
    assert(fields.take(0) =~= Seq::empty());
    if last_named(fields, "prompt"@, at) {
        lemma_unnamed_is_kept(fields, at + 1);
        lemma_step(fields, at);
        text::lemma_nothing_to_trim();
    }
}

/// The same of the model.
pub proof fn law_last_model_counts(fields: Seq<FormField>, at: int)
    requires
        request_of(fields, None) is Ok,
    ensures
        last_named(fields, "model"@, at) ==> match fields[at].content {
            FieldContent::Text(t) => request_of(fields, None)->Ok_0.model == if text::trimmed(
                t@,
            ).len() > 0 {
                Some(text::trimmed(t@))
            } else {
                None
            },
            FieldContent::Audio(_) => request_of(fields, None)->Ok_0.model is None,
            FieldContent::Failed(_) => false,
        },
        none_named(fields, "model"@) ==> request_of(fields, None)->Ok_0.model is None,
{
    lemma_names_differ();
    lemma_unnamed_is_kept(fields, 0);
    assert(fields.take(0) =~= Seq::empty());
    if last_named(fields, "model"@, at) {
        lemma_unnamed_is_kept(fields, at + 1);
        lemma_step(fields, at);
        text::lemma_nothing_to_trim();
    }
}

/// An accepted form is answered in plain text where its last word on the format is
/// "text", and in JSON where it is "json", is blank or is missing.
pub proof fn law_last_format_counts(fields: Seq<FormField>, at: int)
    requires
        request_of(fields, None) is Ok,
    ensures
        last_named(fields, "response_format"@, at) ==> match fields[at].content {
            FieldContent::Text(t) => {
                let v = text::trimmed(t@);
                &&& v == "text"@ || v == "json"@ || v.len() == 0
                &&& request_of(fields, None)->Ok_0.response_format == ServeResponseFormat::Text
                    <==> v == "text"@
            },
            FieldContent::Audio(_) => request_of(fields, None)->Ok_0.response_format
                == ServeResponseFormat::Json,
            FieldContent::Failed(_) => false,
        },
        none_named(fields, "response_format"@) ==> request_of(fields, None)->Ok_0.response_format
            == ServeResponseFormat::Json,
{
    lemma_names_differ();
    reveal_strlit("json");
    reveal_strlit("text");
    assert("json"@[0] == 'j' && "text"@[0] == 't' && "text"@.len() == 4);
    lemma_unnamed_is_kept(fields, 0);
    assert(fields.take(0) =~= Seq::empty());
    if last_named(fields, "response_format"@, at) {
        lemma_unnamed_is_kept(fields, at + 1);
        lemma_step(fields, at);
        text::lemma_nothing_to_trim();
    }
}

/// The audio of an accepted form is that of its one file, byte for byte, under the name and
/// the type that the client gave it, trimmed; a file without a name is called "audio".
pub proof fn law_audio_is_the_file(fields: Seq<FormField>, at: int)
    requires
        request_of(fields, None) is Ok,
        0 <= at < fields.len(),
        named(fields[at], "file"@),
    ensures
        last_named(fields, "file"@, at),
        fields[at].content matches FieldContent::Audio(data) && data@.len() > 0 && (match request_of(
            fields,
            None,
        )->Ok_0.audio {
            Some(audio) => {
                &&& audio.data == data@
                &&& audio.filename == match fields[at].file_name {
                    Some(n) => if text::trimmed(n@).len() > 0 {
                        text::trimmed(n@)
                    } else {
                        "audio"@
                    },
                    None => "audio"@,
                }
                &&& audio.mime_type == match fields[at].content_type {
                    Some(n) => if text::trimmed(n@).len() > 0 {
                        Some(text::trimmed(n@))
                    } else {
                        None
                    },
                    None => None,
                }
            },
            None => false,
        }),
{
    lemma_unnamed_is_kept(fields, at + 1);
    lemma_step(fields, at);
    assert forall|j: int| at < j < fields.len() implies !named(#[trigger] fields[j], "file"@) by {
        lemma_unnamed_is_kept(fields, j + 1);
        lemma_step(fields, j);
        assert(fields.take(j + 1).take(at + 1) =~= fields.take(at + 1));
        assert(fields.take(j).take(at + 1) =~= fields.take(at + 1));
        lemma_unnamed_is_kept(fields.take(j), at + 1);
    }
}

/// Whether a field by itself stands in the way of a form.
pub open spec fn objectionable(field: FormField) -> bool {
    let known = named(field, "file"@) || named(field, "model"@) || named(field, "language"@)
        || named(field, "prompt"@) || named(field, "response_format"@) || named(field, "stream"@)
        || named(field, "timestamp_granularities"@) || named(field, "timestamp_granularities[]"@)
        || named(field, "temperature"@);
    let t = match field.content {
        FieldContent::Text(t) => text::trimmed(t@),
        _ => Seq::empty(),
    };
    ||| known && field.content is Failed
    ||| named(field, "timestamp_granularities"@)
    ||| named(field, "timestamp_granularities[]"@)
    ||| named(field, "response_format"@) && t.len() > 0 && t != "json"@ && t != "text"@
    ||| named(field, "stream"@) && t.len() > 0 && text::lowered(t) != "false"@ && text::lowered(t)
        != "0"@ && text::lowered(t) != "no"@ && text::lowered(t) != "off"@
}

/// A form is refused only for a field that cannot be read or is not supported, for a second
/// file, for breaking off, or for want of audio; in each of these cases it is refused.
pub proof fn law_forms_are_refused_for_cause(fields: Seq<FormField>, broken: Option<Seq<char>>)
    ensures
        request_of(fields, broken) is Ok <==> {
            &&& forall|i: int| 0 <= i < fields.len() ==> !objectionable(#[trigger] fields[i])
            &&& forall|i: int, j: int|
                0 <= i < j < fields.len() && named(#[trigger] fields[i], "file"@) ==> !named(
                    #[trigger] fields[j],
                    "file"@,
                )
            &&& exists|i: int|
                0 <= i < fields.len() && named(#[trigger] fields[i], "file"@) && (
                fields[i].content matches FieldContent::Audio(data) && data@.len() > 0)
            &&& broken is None
        },
{
    lemma_forms(fields);
}

proof fn lemma_forms(fields: Seq<FormField>)
    ensures
        form_of(fields) is Ok <==> {
            &&& forall|i: int| 0 <= i < fields.len() ==> !objectionable(#[trigger] fields[i])
            &&& forall|i: int, j: int|
                0 <= i < j < fields.len() && named(#[trigger] fields[i], "file"@) ==> !named(
                    #[trigger] fields[j],
                    "file"@,
                )
        },
        form_of(fields) matches Ok(form) ==> {
            &&& form.audio is Some <==> exists|i: int|
                0 <= i < fields.len() && named(#[trigger] fields[i], "file"@)
            &&& form.audio is Some && form.audio->0.data.len() > 0 <==> exists|i: int|
                0 <= i < fields.len() && named(#[trigger] fields[i], "file"@) && (
                fields[i].content matches FieldContent::Audio(data) && data@.len() > 0)
        },
    decreases fields.len(),
{
    if fields.len() > 0 {
        let front = fields.drop_last();
        let n = front.len() as int;
        let last = fields.last();
        lemma_forms(front);
        assert(fields[n] == last);
        assert(forall|i: int| 0 <= i < n ==> front[i] == #[trigger] fields[i]);
        if form_of(front) is Ok {
            lemma_one_more(form_of(front)->Ok_0, last);
            if form_of(front)->Ok_0.audio is Some {
                let i = choose|i: int| 0 <= i < n && named(#[trigger] front[i], "file"@);
                assert(named(fields[i], "file"@));
            }
            if named(last, "file"@) {
                assert(named(fields[n], "file"@));
            }
            if form_of(fields) is Ok {
                lemma_held(front, fields);
            }
        } else {
            lemma_front_objects(front, fields);
        }
    }
}

proof fn lemma_front_objects(front: Seq<FormField>, fields: Seq<FormField>)
    requires
        fields.len() > 0,
        front == fields.drop_last(),
        !((forall|i: int| 0 <= i < front.len() ==> !objectionable(#[trigger] front[i])) && (forall|
            i: int,
            j: int,
        |
            0 <= i < j < front.len() && named(#[trigger] front[i], "file"@) ==> !named(
                #[trigger] front[j],
                "file"@,
            ))),
    ensures
        !((forall|i: int| 0 <= i < fields.len() ==> !objectionable(#[trigger] fields[i])) && (
        forall|i: int, j: int|
            0 <= i < j < fields.len() && named(#[trigger] fields[i], "file"@) ==> !named(
                #[trigger] fields[j],
                "file"@,
            ))),
{
    if exists|i: int| 0 <= i < front.len() && objectionable(#[trigger] front[i]) {
        let i = choose|i: int| 0 <= i < front.len() && objectionable(#[trigger] front[i]);
        assert(objectionable(fields[i]));
    } else {
        let (i, j) = choose|i: int, j: int|
            0 <= i < j < front.len() && named(#[trigger] front[i], "file"@) && named(
                #[trigger] front[j],
                "file"@,
            );
        assert(named(fields[i], "file"@) && named(fields[j], "file"@));
    }
}

proof fn lemma_one_more(form: FormView, field: FormField)
    ensures
        with_field(form, field) is Ok <==> !objectionable(field) && !(named(field, "file"@)
            && form.audio is Some),
        with_field(form, field) is Ok && !named(field, "file"@) ==> with_field(
            form,
            field,
        )->Ok_0.audio == form.audio,
        with_field(form, field) is Ok && named(field, "file"@) ==> with_field(
            form,
            field,
        )->Ok_0.audio is Some && (with_field(form, field)->Ok_0.audio->0.data.len() > 0 <==> (
        field.content matches FieldContent::Audio(data) && data@.len() > 0)),
{
    lemma_names_differ();
    text::lemma_nothing_to_trim();
    reveal_strlit("true");
    reveal_strlit("1");
    reveal_strlit("yes");
    reveal_strlit("on");
    reveal_strlit("false");
    reveal_strlit("0");
    reveal_strlit("no");
    reveal_strlit("off");
    if let FieldContent::Text(t) = field.content {
        let v = text::trimmed(t@);
        assert(text::lowered(v).len() == v.len());
    }
    assert(text::lowered(Seq::<char>::empty()) =~= Seq::empty());
}

proof fn lemma_held(front: Seq<FormField>, fields: Seq<FormField>)
    requires
        fields.len() > 0,
        front == fields.drop_last(),
        forall|i: int, j: int|
            0 <= i < j < fields.len() && named(#[trigger] fields[i], "file"@) ==> !named(
                #[trigger] fields[j],
                "file"@,
            ),
    ensures
        (exists|i: int| 0 <= i < fields.len() && named(#[trigger] fields[i], "file"@)) <==> ((
        exists|i: int| 0 <= i < front.len() && named(#[trigger] front[i], "file"@)) || named(
            fields.last(),
            "file"@,
        )),
        named(fields.last(), "file"@) ==> !(exists|i: int|
            0 <= i < front.len() && named(#[trigger] front[i], "file"@)),
        (exists|i: int|
            0 <= i < fields.len() && named(#[trigger] fields[i], "file"@) && (
            fields[i].content matches FieldContent::Audio(data) && data@.len() > 0)) <==> ((exists|
            i: int,
        |
            0 <= i < front.len() && named(#[trigger] front[i], "file"@) && (
            front[i].content matches FieldContent::Audio(data) && data@.len() > 0)) || (named(
            fields.last(),
            "file"@,
        ) && (fields.last().content matches FieldContent::Audio(data) && data@.len() > 0))),
{
    let n = front.len() as int;
    assert(fields[n] == fields.last());
    assert(forall|i: int| 0 <= i < n ==> #[trigger] front[i] == fields[i]);
    assert(forall|i: int| 0 <= i < n ==> front[i] == #[trigger] fields[i]);
}

/// A form that breaks off is refused even where its fields so far make a request.
pub proof fn law_broken_form_is_refused(fields: Seq<FormField>, m: Seq<char>)
    ensures
        request_of(fields, Some(m)) is Err,
        form_of(fields) is Ok ==> request_of(fields, Some(m))->Err_0.message
            == "invalid multipart field: "@ + m,
{
}

/// A failed transcription keeps its message. It counts against the client only where the
/// input was at fault, and against the server only where its configuration was.
pub proof fn law_failures_are_answered_by_whose_fault(error: AsrErrorView)
    ensures
        asr_refusal(error).message == match error {
            AsrErrorView::Input(m) => m,
            AsrErrorView::Config(m) => m,
            AsrErrorView::Request(m) => m,
            AsrErrorView::InvalidResponse(m) => m,
        },
        asr_refusal(error).status == 400 <==> error is Input,
        asr_refusal(error).status == 500 <==> error is Config,
        asr_refusal(error).status == 502 <==> error is Request || error is InvalidResponse,
        asr_refusal(error).error_type == if error is Input {
            "invalid_request_error"@
        } else if error is Config {
            "server_error"@
        } else {
            "provider_error"@
        },
{
}

/// A model is asked for by any name that is not blank, trimmed, but for the two names that
/// leave the choice to the service.
pub proof fn law_asked_model_is_the_name_trimmed(model: Seq<char>)
    ensures
        match model_asked(model) {
            Some(m) => m == text::trimmed(model) && m.len() > 0 && m != "dicta"@ && m != "default"@,
            None => text::trimmed(model).len() == 0 || text::trimmed(model) == "dicta"@
                || text::trimmed(model) == "default"@,
        },
{
}

proof fn lemma_letters(s: Seq<char>)
    ensures
        forall|i: int|
            0 <= i < letters_and_digits(s).len() ==> text::ascii_alphanumeric(
                #[trigger] letters_and_digits(s)[i],
            ),
        letters_and_digits(s).len() <= s.len(),
        (forall|i: int| 0 <= i < s.len() ==> text::ascii_alphanumeric(#[trigger] s[i]))
            ==> letters_and_digits(s) == s,
        letters_and_digits(s).len() == 0 ==> forall|i: int|
            0 <= i < s.len() ==> !text::ascii_alphanumeric(#[trigger] s[i]),
    decreases s.len(),
{
    if s.len() > 0 {
        let front = s.drop_last();
        lemma_letters(front);
        assert(s.last() == s[s.len() - 1]);
        assert(forall|i: int| 0 <= i < front.len() ==> front[i] == #[trigger] s[i]);
        if forall|i: int| 0 <= i < s.len() ==> text::ascii_alphanumeric(#[trigger] s[i]) {
            assert forall|i: int| 0 <= i < front.len() implies text::ascii_alphanumeric(
                #[trigger] front[i],
            ) by {
                assert(front[i] == s[i]);
            }
            assert(front.push(s.last()) =~= s);
        }
    }
}

/// The extension that an upload is staged under is made of one to sixteen ASCII letters and
/// digits, so it names no other place; a short one made of these alone is kept.
pub proof fn law_staged_extension_is_harmless(extension: Option<Seq<char>>)
    ensures
        safe_extension(extension) matches Some(e) ==> 1 <= e.len() <= 16 && forall|i: int|
            0 <= i < e.len() ==> text::ascii_alphanumeric(#[trigger] e[i]),
        extension matches Some(x) && 1 <= text::trimmed(x).len() <= 16 && (forall|i: int|
            0 <= i < text::trimmed(x).len() ==> text::ascii_alphanumeric(
                #[trigger] text::trimmed(x)[i],
            )) ==> safe_extension(extension) == Some(text::trimmed(extension->0)),
        extension matches Some(x) && (exists|i: int|
            0 <= i < text::trimmed(x).len() && text::ascii_alphanumeric(
                #[trigger] text::trimmed(x)[i],
            )) ==> safe_extension(extension) is Some,
{
    if let Some(x) = extension {
        lemma_letters(text::trimmed(x));
    }
}

proof fn lemma_filled_origins(origins: Seq<Seq<char>>)
    ensures
        forall|o: Seq<char>| #[trigger]
            filled_origins(origins).contains(o) <==> o.len() > 0 && exists|i: int|
                0 <= i < origins.len() && text::trimmed(#[trigger] origins[i]) == o,
    decreases origins.len(),
{
    if origins.len() > 0 {
        let front = origins.drop_last();
        lemma_filled_origins(front);
        let n = front.len() as int;
        let last = text::trimmed(origins[n]);
        assert(origins.last() == origins[n]);
        assert forall|o: Seq<char>| #[trigger]
            filled_origins(origins).contains(o) <==> o.len() > 0 && exists|i: int|
                0 <= i < origins.len() && text::trimmed(#[trigger] origins[i]) == o by {
            let before = filled_origins(front);
            let after = filled_origins(origins);
            if after.contains(o) {
                let k = choose|k: int| 0 <= k < after.len() && after[k] == o;
                if k < before.len() {
                    assert(before[k] == o);
                    assert(before.contains(o));
                    let i = choose|i: int|
                        0 <= i < n && text::trimmed(#[trigger] front[i]) == o;
                    assert(text::trimmed(origins[i]) == o);
                } else {
                    assert(text::trimmed(origins[n]) == o);
                }
            }
            if o.len() > 0 && exists|i: int|
                0 <= i < origins.len() && text::trimmed(#[trigger] origins[i]) == o {
                let i = choose|i: int|
                    0 <= i < origins.len() && text::trimmed(#[trigger] origins[i]) == o;
                if i < n {
                    assert(text::trimmed(front[i]) == o);
                    assert(before.contains(o));
                    let k = choose|k: int| 0 <= k < before.len() && before[k] == o;
                    assert(after[k] == o);
                } else {
                    assert(after[after.len() - 1] == o);
                }
            }
        }
    }
}

/// An origin may call just where some entry names it, white space round it aside; blank
/// entries name none.
pub proof fn law_origins_are_those_named(origins: Seq<Seq<char>>, origin: Seq<char>)
    ensures
        filled_origins(origins).contains(origin) <==> origin.len() > 0 && exists|i: int|
            0 <= i < origins.len() && text::trimmed(#[trigger] origins[i]) == origin,
{
    lemma_filled_origins(origins);
}

/// What a transcript is asked with: the language, the prompt and the format.
pub open spec fn asked_with(form: FormView, src: Option<Seq<char>>) -> (
    Option<Seq<char>>,
    Option<Seq<char>>,
    ResponseFormat,
) {
    (
        if form.language is Some {
            form.language
        } else {
            src
        },
        form.prompt,
        form.response_format.wanted(),
    )
}

/// The view of a request.
pub open spec fn request_view(q: ServeTranscriptionRequest) -> FormView {
    FormView {
        audio: Some(q.audio@),
        model: text::text_of(q.model),
        language: text::text_of(q.language),
        prompt: text::text_of(q.prompt),
        response_format: q.response_format,
    }
}

/// From the form to the question: the last language that the form names, trimmed, is the one
/// asked with, whatever is configured; the configured one is asked with where the form names
/// none. The prompt is the form's or none, and the format is as the form wants it.
pub proof fn law_form_language_is_asked_with(
    fields: Seq<FormField>,
    at: int,
    src: Option<Seq<char>>,
)
    requires
        request_of(fields, None) is Ok,
    ensures
        last_named(fields, "language"@, at) && (fields[at].content matches FieldContent::Text(t)
            && text::trimmed(t@).len() > 0) ==> asked_with(request_of(fields, None)->Ok_0, src).0
            == Some(text::trimmed(fields[at].content->Text_0@)),
        none_named(fields, "language"@) ==> asked_with(request_of(fields, None)->Ok_0, src).0
            == src,
        last_named(fields, "prompt"@, at) && (fields[at].content matches FieldContent::Text(t)
            && text::trimmed(t@).len() > 0) ==> asked_with(request_of(fields, None)->Ok_0, src).1
            == Some(text::trimmed(fields[at].content->Text_0@)),
        none_named(fields, "prompt"@) ==> asked_with(request_of(fields, None)->Ok_0, src).1 is None,
        asked_with(request_of(fields, None)->Ok_0, src).2 == ResponseFormat::Text <==> request_of(
            fields,
            None,
        )->Ok_0.response_format == ServeResponseFormat::Text,
{
    law_last_language_counts(fields, at);
    law_last_prompt_counts(fields, at);
}

} // verus!
