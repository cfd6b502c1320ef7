//! The bodies of the service's answers.
use crate::cli::health::ServeHealth;
use crate::cli::serve::ServeApiError;
use crate::json;
use crate::json::Json;
#[allow(unused_imports)]
use crate::json::JsonView;
use crate::text;
use vstd::prelude::*;

verus! {

/// A text, or null where there is none.
pub open spec fn text_or_null(o: Option<Seq<char>>) -> JsonView {
    match o {
        Some(t) => JsonView::Text(t),
        None => JsonView::Null,
    }
}

pub(crate) fn text_or_null_value(o: &Option<String>) -> (r: Json)
    ensures
        r.value() == text_or_null(text::text_of(*o)),
{
    match o {
        Some(t) => json::text_value(t.as_str()),
        None => Json::Null,
    }
}

/// What an answer says that is an error.
pub open spec fn error_value(e: ServeApiError) -> JsonView {
    json::object(
        seq![
            (
                "error"@,
                json::object(
                    seq![
                        ("message"@, JsonView::Text(e.message@)),
                        ("type"@, JsonView::Text(e.error_type@)),
                        ("param"@, text_or_null(text::text_of(e.param))),
                        ("code"@, text_or_null(text::text_of(e.code))),
                    ],
                ),
            ),
        ],
    )
}

impl ServeApiError {
    pub fn body(&self) -> (r: String)
        ensures
            r@ == json::compact(error_value(*self)),
    {
        let mut inner: Vec<(String, Json)> = Vec::new();
        json::push_member(&mut inner, "message", json::text_value(self.message.as_str()));
        json::push_member(&mut inner, "type", json::text_value(self.error_type));
        json::push_member(&mut inner, "param", text_or_null_value(&self.param));
        json::push_member(&mut inner, "code", text_or_null_value(&self.code));
        assert(json::member_views(inner@) =~= seq![
            ("message"@, JsonView::Text(self.message@)),
            ("type"@, JsonView::Text(self.error_type@)),
            ("param"@, text_or_null(text::text_of(self.param))),
            ("code"@, text_or_null(text::text_of(self.code))),
        ]);
        let error = json::object_value(inner);
        let mut outer: Vec<(String, Json)> = Vec::new();
        json::push_member(&mut outer, "error", error);
        assert(json::member_views(outer@) =~= seq![("error"@, error.value())]);
        json::compact_text(&json::object_value(outer))
    }
}

/// What the service tells of itself.
pub open spec fn health_value(h: ServeHealth) -> JsonView {
    json::object(
        seq![
            ("status"@, JsonView::Text(h.status@)),
            ("version"@, JsonView::Text(h.version@)),
            ("backend"@, text_or_null(text::text_of(h.backend))),
            ("provider"@, text_or_null(text::text_of(h.provider))),
            ("model"@, JsonView::Text(h.model@)),
            ("local_config_ok"@, JsonView::Bool(h.local_config_ok)),
            ("local_config_error"@, text_or_null(text::text_of(h.local_config_error))),
        ],
    )
}

impl ServeHealth {
    pub fn body(&self) -> (r: String)
        ensures
            r@ == json::compact(health_value(*self)),
    {
        let mut all: Vec<(String, Json)> = Vec::new();
        json::push_member(&mut all, "status", json::text_value(self.status));
        json::push_member(&mut all, "version", json::text_value(self.version.as_str()));
        json::push_member(&mut all, "backend", text_or_null_value(&self.backend));
        json::push_member(&mut all, "provider", text_or_null_value(&self.provider));
        json::push_member(&mut all, "model", json::text_value(self.model.as_str()));
        json::push_member(&mut all, "local_config_ok", Json::Bool(self.local_config_ok));
        json::push_member(
            &mut all,
            "local_config_error",
            text_or_null_value(&self.local_config_error),
        );
        assert(json::member_views(all@) =~= seq![
            ("status"@, JsonView::Text(self.status@)),
            ("version"@, JsonView::Text(self.version@)),
            ("backend"@, text_or_null(text::text_of(self.backend))),
            ("provider"@, text_or_null(text::text_of(self.provider))),
            ("model"@, JsonView::Text(self.model@)),
            ("local_config_ok"@, JsonView::Bool(self.local_config_ok)),
            ("local_config_error"@, text_or_null(text::text_of(self.local_config_error))),
        ]);
        json::compact_text(&json::object_value(all))
    }
}

pub open spec fn model_value(id: Seq<char>) -> JsonView {
    json::object(
        seq![
            ("id"@, JsonView::Text(id)),
            ("object"@, JsonView::Text("model"@)),
            ("owned_by"@, JsonView::Text("dicta"@)),
        ],
    )
}

fn model_entry(id: &str) -> (r: Json)
    ensures
        r.value() == model_value(id@),
{
    let mut all: Vec<(String, Json)> = Vec::new();
    json::push_member(&mut all, "id", json::text_value(id));
    json::push_member(&mut all, "object", json::text_value("model"));
    json::push_member(&mut all, "owned_by", json::text_value("dicta"));
    assert(json::member_views(all@) =~= seq![
        ("id"@, JsonView::Text(id@)),
        ("object"@, JsonView::Text("model"@)),
        ("owned_by"@, JsonView::Text("dicta"@)),
    ]);
    json::object_value(all)
}

/// The list of the models.
pub open spec fn models_value(ids: Seq<Seq<char>>) -> JsonView {
    json::object(
        seq![
            ("object"@, JsonView::Text("list"@)),
            ("data"@, JsonView::Array(ids.map_values(|id: Seq<char>| model_value(id)))),
        ],
    )
}

pub fn models_body(ids: &Vec<String>) -> (r: String)
    ensures
        r@ == json::compact(models_value(text::texts(ids@))),
{
    let ghost expected = text::texts(ids@).map_values(|id: Seq<char>| model_value(id));
    let mut items: Vec<Json> = Vec::new();
    let n: usize = ids.len();
    let mut i: usize = 0;
    while i < n
        invariant
            n == ids.len(),
            expected == text::texts(ids@).map_values(|id: Seq<char>| model_value(id)),
            i <= n,
            items.len() == i,
            forall|k: int| 0 <= k < i ==> (#[trigger] items@[k]).value() == expected[k],
        decreases n - i,
    {
        items.push(model_entry(ids[i].as_str()));
        i = i + 1;
    }
    let list = Json::Array(items);
    assert(list.value()->Array_0 =~= expected);
    let mut all: Vec<(String, Json)> = Vec::new();
    json::push_member(&mut all, "object", json::text_value("list"));
    json::push_member(&mut all, "data", list);
    assert(json::member_views(all@) =~= seq![
        ("object"@, JsonView::Text("list"@)),
        ("data"@, list.value()),
    ]);
    json::compact_text(&json::object_value(all))
}

/// What is answered with a transcript, where JSON was asked for.
pub open spec fn transcript_value(said: Seq<char>, language: Option<Seq<char>>) -> JsonView {
    json::object(
        seq![("text"@, JsonView::Text(said))] + match language {
            Some(l) => seq![("language"@, JsonView::Text(l))],
            None => Seq::empty(),
        },
    )
}

pub fn transcript_body(said: &str, language: &Option<String>) -> (r: String)
    ensures
        r@ == json::compact(transcript_value(said@, text::text_of(*language))),
{
    let mut all: Vec<(String, Json)> = Vec::new();
    json::push_member(&mut all, "text", json::text_value(said));
    if let Some(l) = language {
        json::push_member(&mut all, "language", json::text_value(l.as_str()));
    }
    assert(json::member_views(all@) =~= seq![("text"@, JsonView::Text(said@))] + match language {
        Some(l) => seq![("language"@, JsonView::Text(l@))],
        None => Seq::empty(),
    });
    json::compact_text(&json::object_value(all))
}

/// The answer to a refused request says why, of what kind the refusal is, and which parameter
/// it is about, under the names that clients look for.
pub proof fn law_error_says_why(e: ServeApiError)
    ensures
        error_value(e).get("error"@) matches Some(body) && body.get("message"@) == Some(
            JsonView::Text(e.message@),
        ) && body.get("type"@) == Some(JsonView::Text(e.error_type@)) && body.get("param"@) == Some(
            match e.param {
                Some(p) => JsonView::Text(p@),
                None => JsonView::Null,
            },
        ) && body.get("code"@) == Some(
            match e.code {
                Some(c) => JsonView::Text(c@),
                None => JsonView::Null,
            },
        ),
{
    let all = error_value(e)->Object_0;
    json::law_first_member_of_a_name(all, all[0].0);
    let m = all[0].1->Object_0;
    assert(m[0].0.len() == 7 && m[1].0[0] == 't' && m[2].0.len() == 5 && m[3].0[0] == 'c'
        && m[1].0.len() == 4 && m[3].0.len() == 4) by {
        reveal_strlit("message");
        reveal_strlit("type");
        reveal_strlit("param");
        reveal_strlit("code");
    }
    json::law_first_member_of_a_name(m, m[0].0);
    json::law_first_member_of_a_name(m, m[1].0);
    json::law_first_member_of_a_name(m, m[2].0);
    json::law_first_member_of_a_name(m, m[3].0);
}

/// The answer to a request that was served holds the text, and the language just where it is
/// known.
pub proof fn law_transcript_is_answered(said: Seq<char>, language: Option<Seq<char>>)
    ensures
        transcript_value(said, language).get("text"@) == Some(JsonView::Text(said)),
        language matches Some(l) ==> transcript_value(said, language).get("language"@) == Some(
            JsonView::Text(l),
        ),
        language is None ==> transcript_value(said, language).get("language"@) is None,
{
    reveal_strlit("text");
    reveal_strlit("language");
    let m = transcript_value(said, language)->Object_0;
    assert(m[0].0 == "text"@ && "text"@.len() == 4 && "language"@.len() == 8);
    json::law_first_member_of_a_name(m, "text"@);
    json::law_first_member_of_a_name(m, "language"@);
    if language is Some {
        assert(m[1].0 == "language"@);
    }
}

/// The list of models has an entry for each model, in their order, under its name.
pub proof fn law_every_model_is_listed(ids: Seq<Seq<char>>, i: int)
    requires
        0 <= i < ids.len(),
    ensures
        models_value(ids).get("data"@) matches Some(JsonView::Array(entries)) && entries.len()
            == ids.len() && entries[i].get("id"@) == Some(JsonView::Text(ids[i])),
{
    reveal_strlit("object");
    reveal_strlit("data");
    reveal_strlit("id");
    let m = models_value(ids)->Object_0;
    assert(m[0].0 == "object"@ && m[1].0 == "data"@ && "object"@.len() == 6 && "data"@.len() == 4);
    json::law_first_member_of_a_name(m, "data"@);
    let e = model_value(ids[i])->Object_0;
    assert(e[0].0 == "id"@);
    json::law_first_member_of_a_name(e, "id"@);
}

/// The health of the service is told with its state and with what serves it.
pub proof fn law_health_tells_the_state(h: ServeHealth)
    ensures
        health_value(h).get("status"@) == Some(JsonView::Text(h.status@)),
        health_value(h).get("version"@) == Some(JsonView::Text(h.version@)),
        health_value(h).get("model"@) == Some(JsonView::Text(h.model@)),
        health_value(h).get("local_config_ok"@) == Some(JsonView::Bool(h.local_config_ok)),
        health_value(h).get("local_config_error"@) == Some(
            match h.local_config_error {
                Some(e) => JsonView::Text(e@),
                None => JsonView::Null,
            },
        ),
{
    let m = health_value(h)->Object_0;
    assert(m[0].0.len() == 6 && m[1].0.len() == 7 && m[1].0[0] == 'v' && m[2].0.len() == 7
        && m[2].0[0] == 'b' && m[3].0.len() == 8 && m[4].0.len() == 5 && m[5].0.len() == 15
        && m[6].0.len() == 18) by {
        reveal_strlit("status");
        reveal_strlit("version");
        reveal_strlit("backend");
        reveal_strlit("provider");
        reveal_strlit("model");
        reveal_strlit("local_config_ok");
        reveal_strlit("local_config_error");
    }
    json::law_first_member_of_a_name(m, m[0].0);
    json::law_first_member_of_a_name(m, m[1].0);
    json::law_first_member_of_a_name(m, m[4].0);
    json::law_first_member_of_a_name(m, m[5].0);
    json::law_first_member_of_a_name(m, m[6].0);
}

} // verus!
