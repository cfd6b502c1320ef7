//! The browser's side: a provider that is asked directly, and recordings.
#[allow(unused_imports)]
use crate::event;
use crate::event::{TranscriptConfidence, TranscriptSource};
use crate::json;
use crate::json::{Json, JsonView};
use crate::jsonl;
use crate::openai;
use crate::text;
use vstd::prelude::*;
use vstd::string::*;

verus! {

/// Where the browser keeps the provider's configuration.
pub const PROVIDER_CONFIG_KEY: &'static str = "dicta.provider.config";

#[derive(Debug, Clone, Copy, PartialEq, Eq, Structural)]
pub enum WebProviderKind {
    OpenAiCompatible,
    DoubaoIme,
}

#[derive(Debug, Clone, PartialEq, Eq)]
pub struct WebProviderConfig {
    pub provider: WebProviderKind,
    pub api_base: String,
    pub api_key: Option<String>,
    pub model: String,
    pub language: Option<String>,
    pub prompt: Option<String>,
}

/// A transcription, with the reply it comes from.
#[derive(Debug, PartialEq, Eq)]
pub struct WebTranscription {
    pub provider: WebProviderKind,
    pub source: TranscriptSource,
    pub raw: Json,
}

pub fn transcription_url(api_base: &str) -> (r: String)
    ensures
        r@ == openai::endpoint(text::trimmed(api_base@)),
{
    openai_compatible_transcription_url(api_base)
}

pub fn openai_compatible_transcription_url(api_base: &str) -> (r: String)
    ensures
        r@ == openai::endpoint(text::trimmed(api_base@)),
{
    openai::endpoint_of(text::trim(api_base).as_str())
}

/// What is wrong with a configuration.
pub open spec fn config_fault(config: WebProviderConfig) -> Option<Seq<char>> {
    if text::trimmed(config.model@).len() == 0 {
        Some("model is required"@)
    } else if config.provider == WebProviderKind::OpenAiCompatible && text::trimmed(
        config.api_base@,
    ).len() == 0 {
        Some("apiBase is required"@)
    } else {
        None
    }
}

pub fn validate_config(config: &WebProviderConfig) -> (r: Result<(), String>)
    ensures
        match config_fault(*config) {
            None => r is Ok,
            Some(m) => r is Err && r->Err_0@ == m,
        },
{
    if text::trim(config.model.as_str()).as_str().is_empty() {
        return Err(text::copy("model is required"));
    }
    if config.provider == WebProviderKind::OpenAiCompatible && text::trim(
        config.api_base.as_str(),
    ).as_str().is_empty() {
        return Err(text::copy("apiBase is required"));
    }
    Ok(())
}

/// The configuration can be used, and its provider can be asked from a browser.
pub fn check_direct(config: &WebProviderConfig) -> (r: Result<(), String>)
    ensures
        match config_fault(*config) {
            Some(m) => r is Err && r->Err_0@ == m,
            None => match config.provider {
                WebProviderKind::OpenAiCompatible => r is Ok,
                WebProviderKind::DoubaoIme => r is Err && r->Err_0@
                    == "doubao-ime is not available in browser direct mode; use openai-compatible with a CORS-enabled HTTP endpoint"@,
            },
        },
{
    match validate_config(config) {
        Err(e) => {
            return Err(e);
        },
        Ok(()) => {},
    }
    match config.provider {
        WebProviderKind::OpenAiCompatible => Ok(()),
        WebProviderKind::DoubaoIme => Err(
            text::copy(
                "doubao-ime is not available in browser direct mode; use openai-compatible with a CORS-enabled HTTP endpoint",
            ),
        ),
    }
}

/// The text fields of a request.
pub fn form_fields(config: &WebProviderConfig) -> (r: Vec<(&'static str, String)>)
    ensures
        openai::fields(r@) == seq![
            ("model"@, text::trimmed(config.model@)),
            ("response_format"@, "json"@),
        ] + openai::field_if("language"@, text::filled(text::text_of(config.language)))
            + openai::field_if("prompt"@, text::filled(text::text_of(config.prompt))),
        openai::fields(r@) == openai::form(
            text::trimmed(config.model@),
            text::filled(text::text_of(config.language)),
            text::filled(text::text_of(config.prompt)),
        ),
{
    let mut r: Vec<(&'static str, String)> = Vec::new();
    r.push(("model", text::trim(config.model.as_str())));
    r.push(("response_format", text::copy("json")));
    assert(openai::fields(r@) =~= seq![
        ("model"@, text::trimmed(config.model@)),
        ("response_format"@, "json"@),
    ]);
    openai::push_field(&mut r, "language", &text::non_empty(&config.language));
    openai::push_field(&mut r, "prompt", &text::non_empty(&config.prompt));
    r
}

/// The header that a request is authorised by, where there is a key.
pub fn authorization(config: &WebProviderConfig) -> (r: Option<String>)
    ensures
        text::text_of(r) == match text::filled(text::text_of(config.api_key)) {
            Some(key) => Some("Bearer "@ + key),
            None => None,
        },
{
    match text::non_empty(&config.api_key) {
        Some(key) => Some(text::cat("Bearer ", key.as_str())),
        None => None,
    }
}

/// A reply as JSON: one that is none is the text itself.
pub open spec fn body_value(raw: Seq<char>) -> JsonView {
    match json::parsed(raw) {
        Ok(value) => value,
        Err(_) => json::object(seq![("text"@, JsonView::Text(raw))]),
    }
}

pub fn parse_provider_body(raw: &str) -> (r: Json)
    ensures
        r.value() == body_value(raw@),
{
    let parsed = json::parse(raw);
    body_of(parsed, raw)
}

/// The reply for what came of parsing it.
pub fn body_of(parsed: Result<Json, String>, raw: &str) -> (r: Json)
    ensures
        r.value() == match parsed {
            Ok(value) => value.value(),
            Err(_) => json::object(seq![("text"@, JsonView::Text(raw@))]),
        },
{
    match parsed {
        Ok(value) => value,
        Err(_) => {
            let mut members: Vec<(String, Json)> = Vec::new();
            json::push_member(&mut members, "text", json::text_value(raw));
            assert(json::member_views(members@) =~= seq![("text"@, JsonView::Text(raw@))]);
            json::object_value(members)
        },
    }
}

/// The transcription that a reply gives: its text, else the whole reply; its
/// language, else the one asked for.
pub fn transcription(
    config: &WebProviderConfig,
    raw: &str,
    reply: Json,
    found: Option<String>,
    language: Option<String>,
    confidence: Option<TranscriptConfidence>,
) -> (r: WebTranscription)
    ensures
        r.provider == WebProviderKind::OpenAiCompatible,
        r.source.text@ == match found {
            Some(t) => t@,
            None => raw@,
        },
        r.source.lang@ == match language {
            Some(l) => l@,
            None => match config.language {
                Some(l) => l@,
                None => "und"@,
            },
        },
        r.source.confidence == confidence,
        r.raw == reply,
{
    let lang = match language {
        Some(l) => l,
        None => match &config.language {
            Some(l) => text::copy(l.as_str()),
            None => text::copy("und"),
        },
    };
    let text = match found {
        Some(t) => t,
        None => text::copy(raw),
    };
    WebTranscription {
        provider: WebProviderKind::OpenAiCompatible,
        source: TranscriptSource { lang, text, confidence },
        raw: reply,
    }
}

/// What a reply says: the text, the language and how sure the recogniser is, each of
/// which may be left out; nothing, where something else stands there.
pub open spec fn reply_in(v: JsonView) -> Option<
    (Option<Seq<char>>, Option<Seq<char>>, Option<(Seq<char>, Seq<char>)>),
> {
    match (
        v,
        jsonl::text_given(v, "text"@),
        jsonl::text_given(v, "language"@),
        jsonl::pair_given(v, "confidence"@, "mean"@, "min"@),
    ) {
        (JsonView::Object(_), Some(found), Some(language), Some(confidence)) => Some(
            (found, language, confidence),
        ),
        _ => None,
    }
}

/// The transcription that the value of a reply gives, or the complaint about it.
pub open spec fn transcribed(
    r: Result<WebTranscription, String>,
    config: WebProviderConfig,
    raw: Seq<char>,
    reply: JsonView,
) -> bool {
    match reply_in(reply) {
        None => r is Err && r->Err_0@ == "invalid transcription response: not a transcription: "@
            + raw,
        Some((found, language, confidence)) => {
            &&& r is Ok
            &&& r->Ok_0.provider == WebProviderKind::OpenAiCompatible
            &&& r->Ok_0.source.text@ == match found {
                Some(t) => t,
                None => raw,
            }
            &&& r->Ok_0.source.lang@ == match language {
                Some(l) => l,
                None => match config.language {
                    Some(l) => l@,
                    None => "und"@,
                },
            }
            &&& event::confidence_of(r->Ok_0.source.confidence) == confidence
            &&& r->Ok_0.raw.value() == reply
        },
    }
}

/// Reads the value of a reply.
pub fn read_reply(config: &WebProviderConfig, raw: &str, reply: Json) -> (r: Result<
    WebTranscription,
    String,
>)
    ensures
        transcribed(r, *config, raw@, reply.value()),
{
    let is_object = match &reply {
        Json::Object(_) => true,
        _ => false,
    };
    assert(is_object == (reply.value() is Object));
    let found = jsonl::read_text_given(&reply, "text");
    let language = jsonl::read_text_given(&reply, "language");
    let pair = jsonl::read_pair_given(&reply, "confidence", "mean", "min");
    match (is_object, found, language, pair) {
        (true, Some(found), Some(language), Some(pair)) => {
            let confidence = match pair {
                Some((mean, min)) => Some(TranscriptConfidence { mean, min }),
                None => None,
            };
            Ok(transcription(config, raw, reply, found, language, confidence))
        },
        _ => Err(text::cat("invalid transcription response: not a transcription: ", raw)),
    }
}

/// Reads an answer of the provider: its status, and what it holds.
pub fn read_answer(config: &WebProviderConfig, ok: bool, status: u16, raw: &str) -> (r: Result<
    WebTranscription,
    String,
>)
    ensures
        if ok {
            transcribed(r, *config, raw@, body_value(raw@))
        } else {
            r is Err && r->Err_0@ == "HTTP "@ + text::decimal(status as nat) + ": "@ + raw@
        },
{
    if !ok {
        return Err(text::cat4("HTTP ", text::number(status as u64).as_str(), ": ", raw));
    }
    read_reply(config, raw, parse_provider_body(raw))
}

/// The file name extension for a type of recording.
pub open spec fn extension(mime_type: Seq<char>) -> Seq<char> {
    if text::starts(mime_type, "audio/webm"@) {
        "webm"@
    } else if text::starts(mime_type, "audio/mp4"@) {
        "m4a"@
    } else if text::starts(mime_type, "audio/ogg"@) {
        "ogg"@
    } else {
        "webm"@
    }
}

pub fn extension_for_mime(mime_type: &str) -> (r: &'static str)
    ensures
        r@ == extension(mime_type@),
{
    if text::starts_with(mime_type, "audio/webm") {
        "webm"
    } else if text::starts_with(mime_type, "audio/mp4") {
        "m4a"
    } else if text::starts_with(mime_type, "audio/ogg") {
        "ogg"
    } else {
        "webm"
    }
}

pub fn recommended_recording_extension(mime_type: &str) -> (r: String)
    ensures
        r@ == extension(mime_type@),
{
    text::copy(extension_for_mime(mime_type))
}

/// The types of recording, the preferred one first.
pub open spec fn recording_types() -> Seq<Seq<char>> {
    seq!["audio/webm;codecs=opus"@, "audio/webm"@, "audio/mp4"@, "audio/ogg;codecs=opus"@]
}

pub open spec fn first_supported(types: Seq<Seq<char>>, supported: Seq<bool>) -> Seq<char>
    decreases types.len(),
{
    if types.len() == 0 || supported.len() == 0 {
        "audio/webm"@
    } else if supported[0] {
        types[0]
    } else {
        first_supported(
            types.subrange(1, types.len() as int),
            supported.subrange(1, supported.len() as int),
        )
    }
}

/// The type to record in, where `supported` says for each type in order whether
/// the browser can.
pub fn recommended_recording_mime_type(supported: &Vec<bool>) -> (r: String)
    ensures
        r@ == first_supported(recording_types(), supported@),
{
    let types: Vec<&str> = vec![
        "audio/webm;codecs=opus",
        "audio/webm",
        "audio/mp4",
        "audio/ogg;codecs=opus",
    ];
    let ghost all = recording_types();
    let ghost told = supported@;
    let mut i: usize = 0;
    assert(all.subrange(0, all.len() as int) =~= all);
    assert(told.subrange(0, told.len() as int) =~= told);
    while i < types.len() && i < supported.len()
        invariant
            i <= types@.len(),
            i <= supported@.len(),
            told == supported@,
            all == recording_types(),
            types@.len() == all.len(),
            forall|j: int| 0 <= j < all.len() ==> types@[j]@ == all[j],
            first_supported(all, told) == first_supported(
                all.subrange(i as int, all.len() as int),
                told.subrange(i as int, told.len() as int),
            ),
        decreases types@.len() - i,
    {
        let ghost a = all.subrange(i as int, all.len() as int);
        let ghost t = told.subrange(i as int, told.len() as int);
        assert(a.subrange(1, a.len() as int) =~= all.subrange(i + 1, all.len() as int));
        assert(t.subrange(1, t.len() as int) =~= told.subrange(i + 1, told.len() as int));
        if supported[i] {
            return text::copy(types[i]);
        }
        i = i + 1;
    }
    text::copy("audio/webm")
}

/// The type of a recording: what the recorder says, unless that is blank.
pub fn recorder_mime_type(reported: &str, wanted: &str) -> (r: String)
    ensures
        r@ == if text::trimmed(reported@).len() > 0 {
            text::trimmed(reported@)
        } else {
            wanted@
        },
{
    let rest = text::trim(reported);
    if rest.as_str().is_empty() {
        text::copy(wanted)
    } else {
        rest
    }
}

/// The name of a recording's file.
pub fn recording_file_name(mime_type: &str) -> (r: String)
    ensures
        r@ == "vo-recording."@ + extension(mime_type@),
{
    text::cat("vo-recording.", extension_for_mime(mime_type))
}

/// A configuration is complete with a model and, for a service of one's own, its address.
pub proof fn law_configuration_is_complete(config: WebProviderConfig)
    ensures
        config_fault(config) is None <==> text::trimmed(config.model@).len() > 0 && (
        config.provider == WebProviderKind::OpenAiCompatible ==> text::trimmed(
            config.api_base@,
        ).len() > 0),
{
}

/// What a reply says goes before what stands in for it: its text before the raw body, and
/// its language before the configured one.
pub proof fn law_reply_goes_before_its_stand_ins(
    r: Result<WebTranscription, String>,
    config: WebProviderConfig,
    raw: Seq<char>,
    reply: JsonView,
)
    requires
        transcribed(r, config, raw, reply),
        r is Ok,
    ensures
        reply.get("text"@) matches Some(JsonView::Text(t)) ==> r->Ok_0.source.text@ == t,
        reply.get("text"@) is None ==> r->Ok_0.source.text@ == raw,
        reply.get("language"@) matches Some(JsonView::Text(l)) ==> r->Ok_0.source.lang@ == l,
        reply.get("language"@) is None && config.language is Some ==> r->Ok_0.source.lang@
            == config.language->0@,
        reply.get("language"@) is None && config.language is None ==> r->Ok_0.source.lang@
            == "und"@,
        r->Ok_0.raw.value() == reply,
{
}

proof fn lemma_first_supported(types: Seq<Seq<char>>, supported: Seq<bool>, i: int)
    requires
        0 <= i < types.len(),
        i < supported.len(),
        supported[i],
        forall|j: int| 0 <= j < i ==> !#[trigger] supported[j],
    ensures
        first_supported(types, supported) == types[i],
    decreases i,
{
    if i > 0 {
        let rest = supported.subrange(1, supported.len() as int);
        assert forall|j: int| 0 <= j < i - 1 implies !#[trigger] rest[j] by {
            assert(rest[j] == supported[j + 1]);
        }
        lemma_first_supported(types.subrange(1, types.len() as int), rest, i - 1);
    }
}

proof fn lemma_none_supported(types: Seq<Seq<char>>, supported: Seq<bool>)
    requires
        forall|j: int| 0 <= j < supported.len() && j < types.len() ==> !#[trigger] supported[j],
    ensures
        first_supported(types, supported) == "audio/webm"@,
    decreases types.len(),
{
    if types.len() > 0 && supported.len() > 0 {
        assert(!supported[0]);
        let rest = supported.subrange(1, supported.len() as int);
        let types_left = types.subrange(1, types.len() as int);
        assert forall|j: int| 0 <= j < rest.len() && j < types_left.len() implies !#[trigger] rest[j] by {
            assert(rest[j] == supported[j + 1]);
        }
        lemma_none_supported(types_left, rest);
    }
}

/// A recording is made in the first type that the browser supports, in WebM where it says
/// that it supports none.
pub proof fn law_first_supported_type_is_taken(supported: Seq<bool>)
    ensures
        forall|i: int|
            0 <= i < supported.len() && i < recording_types().len() && #[trigger] supported[i] && (
            forall|j: int| 0 <= j < i ==> !#[trigger] supported[j]) ==> first_supported(
                recording_types(),
                supported,
            ) == recording_types()[i],
        (forall|j: int|
            0 <= j < supported.len() && j < recording_types().len() ==> !#[trigger] supported[j])
            ==> first_supported(recording_types(), supported) == "audio/webm"@,
        recording_types().len() == 4,
{
    assert forall|i: int|
        0 <= i < supported.len() && i < recording_types().len() && #[trigger] supported[i] && (
        forall|j: int| 0 <= j < i ==> !#[trigger] supported[j]) implies first_supported(
        recording_types(),
        supported,
    ) == recording_types()[i] by {
        lemma_first_supported(recording_types(), supported, i);
    }
    if forall|j: int|
        0 <= j < supported.len() && j < recording_types().len() ==> !#[trigger] supported[j] {
        lemma_none_supported(recording_types(), supported);
    }
}

/// What follows the kind of a recording, such as its codecs, does not change its file's
/// extension; a kind that is not known is taken for WebM.
pub proof fn law_extension_goes_by_the_kind(rest: Seq<char>, mime_type: Seq<char>)
    ensures
        extension("audio/webm"@ + rest) == "webm"@,
        extension("audio/mp4"@ + rest) == "m4a"@,
        extension("audio/ogg"@ + rest) == "ogg"@,
        !text::starts(mime_type, "audio/mp4"@) && !text::starts(mime_type, "audio/ogg"@)
            ==> extension(mime_type) == "webm"@,
{
    reveal_strlit("audio/webm");
    reveal_strlit("audio/mp4");
    reveal_strlit("audio/ogg");
    let w = "audio/webm"@ + rest;
    let m = "audio/mp4"@ + rest;
    let o = "audio/ogg"@ + rest;
    assert(w.take(10) =~= "audio/webm"@);
    assert(m.take(9) =~= "audio/mp4"@);
    assert(o.take(9) =~= "audio/ogg"@);
    assert(w[6] == 'w' && m[6] == 'm' && o[6] == 'o');
    assert(text::starts(m, "audio/webm"@) ==> m.take(10)[6] == m[6]);
    assert(text::starts(o, "audio/webm"@) ==> o.take(10)[6] == o[6]);
    assert(text::starts(o, "audio/mp4"@) ==> o.take(9)[6] == o[6]);
}

} // verus!
