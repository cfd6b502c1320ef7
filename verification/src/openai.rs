//! Providers that speak the HTTP interface of OpenAI's transcriptions.
use crate::asr::{AsrCapabilities, AsrError, AsrOptions, AsrProvider, Transcript};
#[allow(unused_imports)]
use crate::asr::AsrErrorView;
use crate::text;
use vstd::prelude::*;
use vstd::string::*;

verus! {

#[derive(Debug, Clone, PartialEq, Eq)]
pub struct OpenAiCompatibleConfig {
    pub base_url: String,
    pub api_key: Option<String>,
    pub model: String,
}

/// A provider behind an HTTP interface.
pub struct OpenAiCompatibleAsr {
    pub config: OpenAiCompatibleConfig,
}

/// Where transcriptions are asked for, below a base that may end in slashes or in
/// the version.
pub open spec fn endpoint(base: Seq<char>) -> Seq<char> {
    let b = text::trimmed_end_of(base, '/');
    if text::ends(b, "/v1"@) {
        b + "/audio/transcriptions"@
    } else {
        b + "/v1/audio/transcriptions"@
    }
}

pub fn endpoint_of(base: &str) -> (r: String)
    ensures
        r@ == endpoint(base@),
{
    let b = text::trim_end_of(base, '/');
    if text::ends_with(b.as_str(), "/v1") {
        text::cat(b.as_str(), "/audio/transcriptions")
    } else {
        text::cat(b.as_str(), "/v1/audio/transcriptions")
    }
}

/// A slash at the end of the base makes no difference.
pub proof fn law_slash_makes_no_difference(base: Seq<char>)
    ensures
        endpoint(base.push('/')) == endpoint(base),
{
    assert(base.push('/').drop_last() =~= base);
}

/// Whatever the base, transcriptions are asked for under the version, once.
pub proof fn law_endpoint_is_versioned(base: Seq<char>)
    ensures
        text::ends(endpoint(base), "/v1/audio/transcriptions"@),
        text::starts(endpoint(base), text::trimmed_end_of(base, '/')),
{
    reveal_strlit("/v1");
    reveal_strlit("/audio/transcriptions");
    reveal_strlit("/v1/audio/transcriptions");
    let b = text::trimmed_end_of(base, '/');
    let u = endpoint(base);
    let tail = "/v1/audio/transcriptions"@;
    assert(tail =~= "/v1"@ + "/audio/transcriptions"@);
    assert(u.subrange(0, b.len() as int) =~= b);
    if text::ends(b, "/v1"@) {
        assert(b =~= b.subrange(0, b.len() - 3) + "/v1"@);
        assert(u =~= b.subrange(0, b.len() - 3) + tail);
        assert(u.subrange(u.len() - tail.len(), u.len() as int) =~= tail);
    } else {
        assert(u.subrange(u.len() - tail.len(), u.len() as int) =~= tail);
    }
}

/// A base that names the version and the same base without it mean the same place.
pub proof fn law_version_may_be_left_out(base: Seq<char>)
    requires
        base.len() == 0 || base.last() != '/',
        !text::ends(base, "/v1"@),
    ensures
        endpoint(base + "/v1"@) == endpoint(base),
{
    reveal_strlit("/v1");
    reveal_strlit("/audio/transcriptions");
    reveal_strlit("/v1/audio/transcriptions");
    let with = base + "/v1"@;
    assert(with.last() == '1');
    assert(with.subrange(with.len() - 3, with.len() as int) =~= "/v1"@);
    assert(with + "/audio/transcriptions"@ =~= base + "/v1/audio/transcriptions"@);
}

impl OpenAiCompatibleAsr {
    pub fn new(config: OpenAiCompatibleConfig) -> (r: Result<OpenAiCompatibleAsr, AsrError>)
        ensures
            match r {
                Ok(a) => text::trimmed(config.base_url@).len() > 0 && text::trimmed(
                    config.model@,
                ).len() > 0 && a.config == config,
                Err(e) => if text::trimmed(config.base_url@).len() == 0 {
                    e@ == AsrErrorView::Config("api base URL is required"@)
                } else {
                    text::trimmed(config.model@).len() == 0 && e@ == AsrErrorView::Config(
                        "api model is required"@,
                    )
                },
            },
    {
        if text::trim(config.base_url.as_str()).as_str().is_empty() {
            return Err(AsrError::Config(text::copy("api base URL is required")));
        }
        if text::trim(config.model.as_str()).as_str().is_empty() {
            return Err(AsrError::Config(text::copy("api model is required")));
        }
        Ok(OpenAiCompatibleAsr { config })
    }

    pub fn transcriptions_url(&self) -> (r: String)
        ensures
            r@ == endpoint(self.config.base_url@),
    {
        endpoint_of(self.config.base_url.as_str())
    }

    /// The text fields of a request.
    pub fn form_fields(&self, options: &AsrOptions) -> (r: Vec<(&'static str, String)>)
        ensures
            fields(r@) == seq![
                ("model"@, self.config.model@),
                ("response_format"@, "json"@),
            ] + field_if("language"@, text::text_of(options.language)) + field_if(
                "prompt"@,
                text::text_of(options.prompt),
            ),
            fields(r@) == form(
                self.config.model@,
                text::text_of(options.language),
                text::text_of(options.prompt),
            ),
    {
        let mut r: Vec<(&'static str, String)> = Vec::new();
        r.push(("model", text::copy(self.config.model.as_str())));
        r.push(("response_format", text::copy("json")));
        assert(fields(r@) =~= seq![
            ("model"@, self.config.model@),
            ("response_format"@, "json"@),
        ]);
        push_field(&mut r, "language", &options.language);
        push_field(&mut r, "prompt", &options.prompt);
        r
    }
}

/// The fields of a request for a transcription.
pub open spec fn form(model: Seq<char>, language: Option<Seq<char>>, prompt: Option<Seq<char>>) -> Seq<
    (Seq<char>, Seq<char>),
> {
    seq![("model"@, model), ("response_format"@, "json"@)] + field_if("language"@, language)
        + field_if("prompt"@, prompt)
}

pub open spec fn fields(v: Seq<(&'static str, String)>) -> Seq<(Seq<char>, Seq<char>)> {
    Seq::new(v.len(), |i: int| (v[i].0@, v[i].1@))
}

/// The field, where it has a value.
pub open spec fn field_if(name: Seq<char>, value: Option<Seq<char>>) -> Seq<
    (Seq<char>, Seq<char>),
> {
    match value {
        Some(v) => seq![(name, v)],
        None => Seq::empty(),
    }
}

pub fn push_field(r: &mut Vec<(&'static str, String)>, name: &'static str, value: &Option<String>)
    ensures
        fields(final(r)@) == fields(old(r)@) + field_if(name@, text::text_of(*value)),
{
    let ghost before = fields(r@);
    if let Some(v) = value {
        r.push((name, text::copy(v.as_str())));
    }
    assert(fields(r@) =~= before + field_if(name@, text::text_of(*value)));
}

/// Audio without a byte is refused.
pub fn check_audio(data: &Vec<u8>) -> (r: Result<(), AsrError>)
    ensures
        r is Ok <==> data@.len() > 0,
        r matches Err(e) ==> e@ == AsrErrorView::Input("audio input is empty"@),
{
    if data.is_empty() {
        Err(AsrError::Input(text::copy("audio input is empty")))
    } else {
        Ok(())
    }
}

/// What a reply that was read says: `parsed` is its text and language, or what is
/// wrong with it.
pub fn reply_transcript(
    success: bool,
    status: &str,
    body: &str,
    parsed: Result<(String, Option<String>), String>,
) -> (r: Result<Transcript, AsrError>)
    ensures
        match r {
            Ok(t) => success && parsed is Ok && t.text == parsed->Ok_0.0 && t.language
                == parsed->Ok_0.1,
            Err(e) => if !success {
                e@ == AsrErrorView::Request("HTTP "@ + status@ + ": "@ + body@)
            } else {
                parsed is Err && e@ == AsrErrorView::InvalidResponse(
                    parsed->Err_0@ + ": "@ + body@,
                )
            },
        },
{
    if !success {
        return Err(AsrError::Request(text::cat4("HTTP ", status, ": ", body)));
    }
    match parsed {
        Ok((found, language)) => Ok(Transcript { text: found, language }),
        Err(e) => Err(AsrError::InvalidResponse(text::cat3(e.as_str(), ": ", body))),
    }
}

pub open spec fn batch_offer() -> AsrCapabilities {
    AsrCapabilities { batch_file: true, streaming: false, requires_network: true }
}

pub fn openai_capabilities() -> (r: AsrCapabilities)
    ensures
        r == batch_offer(),
{
    AsrCapabilities { batch_file: true, streaming: false, requires_network: true }
}

impl AsrProvider for OpenAiCompatibleAsr {
    open spec fn called(&self) -> Seq<char> {
        "openai-compatible"@
    }

    open spec fn offers(&self) -> AsrCapabilities {
        batch_offer()
    }

    fn name(&self) -> &'static str {
        "openai-compatible"
    }

    fn capabilities(&self) -> AsrCapabilities {
        openai_capabilities()
    }
}

/// A request holds the model, asks for JSON, and holds the language and the prompt just where
/// they are given, each under its own name.
pub proof fn law_request_holds_what_is_given(
    model: Seq<char>,
    language: Option<Seq<char>>,
    prompt: Option<Seq<char>>,
)
    ensures
        ({
            let all = form(model, language, prompt);
            &&& all.contains(("model"@, model))
            &&& all.contains(("response_format"@, "json"@))
            &&& language is Some ==> all.contains(("language"@, language->0))
            &&& prompt is Some ==> all.contains(("prompt"@, prompt->0))
            &&& all.len() == 2 + (if language is Some {
                1int
            } else {
                0
            }) + (if prompt is Some {
                1int
            } else {
                0
            })
        }),
{
    let all = form(model, language, prompt);
    assert(all[0] == ("model"@, model));
    assert(all[1] == ("response_format"@, "json"@));
    if language is Some {
        assert(all[2] == ("language"@, language->0));
    }
    if prompt is Some {
        assert(all[all.len() - 1] == ("prompt"@, prompt->0));
    }
}

} // verus!
