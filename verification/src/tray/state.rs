//! What the tray and the pages around it say to each other, as JSON.
use super::app;
use super::app::{ProviderListEntry, ProviderListReport, TrayApp};
#[allow(unused_imports)]
use super::app::{ListedView, ReportView, TrayView};
use crate::cli::answer;
use crate::json;
use crate::json::Json;
#[allow(unused_imports)]
use crate::json::JsonView;
use crate::jsonl;
use crate::text;
use vstd::prelude::*;

verus! {

/// A truth that is false where it is left out; nothing, where something else stands there.
pub open spec fn truth_given(v: JsonView, key: Seq<char>) -> Option<bool> {
    match v.get(key) {
        None => Some(false),
        Some(x) => x.truth(),
    }
}

fn read_truth_given(v: &Json, key: &str) -> (r: Option<bool>)
    ensures
        r == truth_given(v.value(), key@),
{
    match v.get(key) {
        None => Some(false),
        Some(x) => x.as_bool(),
    }
}

/// The provider that a value stands for.
pub open spec fn entry_in(v: JsonView) -> Option<ListedView> {
    match (
        v.text_at("name"@),
        v.text_at("kind"@),
        truth_given(v, "selected"@),
        truth_given(v, "live"@),
        truth_given(v, "local_config_ok"@),
        jsonl::text_given(v, "local_config_error"@),
        v.text_at("model"@),
    ) {
        (
            Some(name),
            Some(kind),
            Some(selected),
            Some(live),
            Some(local_config_ok),
            Some(local_config_error),
            Some(model),
        ) => Some(
            ListedView { name, kind, selected, live, local_config_ok, local_config_error, model },
        ),
        _ => None,
    }
}

fn read_entry(v: &Json) -> (r: Option<ProviderListEntry>)
    ensures
        match r {
            Some(p) => entry_in(v.value()) == Some(p@),
            None => entry_in(v.value()) is None,
        },
{
    match (
        v.text_at("name"),
        v.text_at("kind"),
        read_truth_given(v, "selected"),
        read_truth_given(v, "live"),
        read_truth_given(v, "local_config_ok"),
        jsonl::read_text_given(v, "local_config_error"),
        v.text_at("model"),
    ) {
        (
            Some(name),
            Some(kind),
            Some(selected),
            Some(live),
            Some(local_config_ok),
            Some(local_config_error),
            Some(model),
        ) => Some(
            ProviderListEntry {
                name,
                kind,
                selected,
                live,
                local_config_ok,
                local_config_error,
                model,
            },
        ),
        _ => None,
    }
}

/// The providers in a list, if each of them is one.
pub open spec fn entries_in(items: Seq<JsonView>) -> Option<Seq<ListedView>>
    decreases items.len(),
{
    if items.len() == 0 {
        Some(Seq::empty())
    } else {
        match (entries_in(items.drop_last()), entry_in(items.last())) {
            (Some(before), Some(p)) => Some(before.push(p)),
            _ => None,
        }
    }
}

/// The report that a value stands for.
pub open spec fn report_in(v: JsonView) -> Option<ReportView> {
    match (jsonl::text_given(v, "current"@), v.get("providers"@)) {
        (Some(current), Some(JsonView::Array(items))) => match entries_in(items) {
            Some(providers) => Some(ReportView { current, providers }),
            None => None,
        },
        _ => None,
    }
}

proof fn lemma_entries_stop(items: Seq<JsonView>, i: int)
    requires
        0 <= i <= items.len(),
        entries_in(items.take(i)) is None,
    ensures
        entries_in(items) is None,
    decreases items.len() - i,
{
    if i == items.len() {
        assert(items.take(i) =~= items);
    } else {
        assert(items.take(i + 1).drop_last() =~= items.take(i));
        lemma_entries_stop(items, i + 1);
    }
}

fn read_entries(list: &Json) -> (r: Option<Vec<ProviderListEntry>>)
    ensures
        match list.value() {
            JsonView::Array(all) => match r {
                Some(v) => entries_in(all) == Some(app::listed(v@)),
                None => entries_in(all) is None,
            },
            _ => r is None,
        },
{
    match list {
        Json::Array(items) => {
            let ghost all = list.value()->Array_0;
            let n: usize = items.len();
            let mut found: Vec<ProviderListEntry> = Vec::new();
            let mut i: usize = 0;
            assert(app::listed(found@) =~= Seq::empty());
            assert(all.take(0) =~= Seq::empty());
            while i < n
                invariant
                    n == items.len(),
                    *list == Json::Array(*items),
                    all == list.value()->Array_0,
                    all.len() == n,
                    i <= n,
                    entries_in(all.take(i as int)) == Some(app::listed(found@)),
                decreases n - i,
            {
                let ghost more = all.take(i + 1);
                assert(more.drop_last() =~= all.take(i as int));
                assert(more.last() == items@[i as int].value());
                match read_entry(&items[i]) {
                    Some(p) => {
                        let ghost before = app::listed(found@);
                        found.push(p);
                        assert(app::listed(found@) =~= before.push(p@));
                    },
                    None => {
                        proof {
                            lemma_entries_stop(all, i + 1);
                        }
                        return None;
                    },
                }
                i = i + 1;
            }
            assert(all.take(n as int) =~= all);
            Some(found)
        },
        _ => None,
    }
}

fn read_report(v: &Json) -> (r: Option<ProviderListReport>)
    ensures
        match r {
            Some(report) => report_in(v.value()) == Some(report@),
            None => report_in(v.value()) is None,
        },
{
    match (jsonl::read_text_given(v, "current"), v.get("providers")) {
        (Some(current), Some(list)) => match read_entries(list) {
            Some(providers) => Some(ProviderListReport { current, providers }),
            None => None,
        },
        _ => None,
    }
}

/// The report in what the tool printed.
pub open spec fn printed_report(said: Seq<char>) -> Result<ReportView, Seq<char>> {
    match json::parsed(said) {
        Ok(v) => match report_in(v) {
            Some(report) => Ok(report),
            None => Err("failed to parse provider list JSON"@),
        },
        Err(_) => Err("failed to parse provider list JSON"@),
    }
}

/// Reads the list of the providers that the tool printed.
pub fn read_provider_list(said: &str) -> (r: Result<ProviderListReport, String>)
    ensures
        match (r, printed_report(said@)) {
            (Ok(report), Ok(v)) => report@ == v,
            (Err(e), Err(m)) => e@ == m,
            _ => false,
        },
{
    match json::parse(said) {
        Ok(v) => match read_report(&v) {
            Some(report) => Ok(report),
            None => Err(text::copy("failed to parse provider list JSON")),
        },
        Err(_) => Err(text::copy("failed to parse provider list JSON")),
    }
}

/// What the panel asks for: an action, and the provider it is about.
pub open spec fn message_in(body: Seq<char>) -> Option<(Seq<char>, Option<Seq<char>>)> {
    match json::parsed(body) {
        Ok(v) => match (v.text_at("action"@), jsonl::text_given(v, "provider"@)) {
            (Some(action), Some(provider)) => Some((action, provider)),
            _ => None,
        },
        Err(_) => None,
    }
}

/// Reads a message of the panel.
pub fn read_panel_message(body: &str) -> (r: Option<(String, Option<String>)>)
    ensures
        match r {
            Some(m) => message_in(body@) == Some((m.0@, text::text_of(m.1))),
            None => message_in(body@) is None,
        },
{
    match json::parse(body) {
        Ok(v) => match (v.text_at("action"), jsonl::read_text_given(&v, "provider")) {
            (Some(action), Some(provider)) => Some((action, provider)),
            _ => None,
        },
        Err(_) => None,
    }
}

/// A provider as the panel sees it.
pub open spec fn entry_value(p: ListedView) -> JsonView {
    json::object(
        seq![
            ("name"@, JsonView::Text(p.name)),
            ("kind"@, JsonView::Text(p.kind)),
            ("selected"@, JsonView::Bool(p.selected)),
            ("live"@, JsonView::Bool(p.live)),
            ("local_config_ok"@, JsonView::Bool(p.local_config_ok)),
            ("local_config_error"@, answer::text_or_null(p.local_config_error)),
            ("model"@, JsonView::Text(p.model)),
        ],
    )
}

fn entry_json(p: &ProviderListEntry) -> (r: Json)
    ensures
        r.value() == entry_value(p@),
{
    let mut all: Vec<(String, Json)> = Vec::new();
    json::push_member(&mut all, "name", json::text_value(p.name.as_str()));
    json::push_member(&mut all, "kind", json::text_value(p.kind.as_str()));
    json::push_member(&mut all, "selected", Json::Bool(p.selected));
    json::push_member(&mut all, "live", Json::Bool(p.live));
    json::push_member(&mut all, "local_config_ok", Json::Bool(p.local_config_ok));
    json::push_member(
        &mut all,
        "local_config_error",
        answer::text_or_null_value(&p.local_config_error),
    );
    json::push_member(&mut all, "model", json::text_value(p.model.as_str()));
    assert(json::member_views(all@) =~= seq![
        ("name"@, JsonView::Text(p.name@)),
        ("kind"@, JsonView::Text(p.kind@)),
        ("selected"@, JsonView::Bool(p.selected)),
        ("live"@, JsonView::Bool(p.live)),
        ("local_config_ok"@, JsonView::Bool(p.local_config_ok)),
        ("local_config_error"@, answer::text_or_null(text::text_of(p.local_config_error))),
        ("model"@, JsonView::Text(p.model@)),
    ]);
    json::object_value(all)
}

pub open spec fn entry_values(v: Seq<ListedView>) -> Seq<JsonView> {
    v.map_values(|p: ListedView| entry_value(p))
}

/// The state of the tray as the panel sees it.
pub open spec fn state_value(s: TrayView) -> JsonView {
    json::object(
        seq![
            ("status"@, JsonView::Text(s.status)),
            ("current"@, answer::text_or_null(s.selected())),
            ("live_running"@, JsonView::Bool(s.running)),
            ("selected_ready"@, JsonView::Bool(s.ready())),
            (
                "providers"@,
                JsonView::Array(
                    match s.report {
                        Some(r) => entry_values(r.providers),
                        None => Seq::empty(),
                    },
                ),
            ),
        ],
    )
}

fn entries_json(v: &Vec<ProviderListEntry>) -> (r: Json)
    ensures
        r.value() == JsonView::Array(entry_values(app::listed(v@))),
{
    let ghost expected = entry_values(app::listed(v@));
    let mut items: Vec<Json> = Vec::new();
    let n: usize = v.len();
    let mut i: usize = 0;
    while i < n
        invariant
            n == v.len(),
            expected == entry_values(app::listed(v@)),
            i <= n,
            items.len() == i,
            forall|k: int| 0 <= k < i ==> (#[trigger] items@[k]).value() == expected[k],
        decreases n - i,
    {
        items.push(entry_json(&v[i]));
        i = i + 1;
    }
    let r = Json::Array(items);
    assert(r.value()->Array_0 =~= expected);
    r
}

impl TrayApp {
    /// The state for the panel, as a line of JSON.
    pub fn panel_state(&self) -> (r: String)
        ensures
            r@ == json::compact(state_value(self@)),
    {
        let providers = match &self.report {
            Some(report) => entries_json(&report.providers),
            None => {
                let none = Json::Array(Vec::new());
                assert(none.value()->Array_0 =~= Seq::empty());
                none
            },
        };
        let ghost listed = match self@.report {
            Some(r) => entry_values(r.providers),
            None => Seq::empty(),
        };
        assert(providers.value() == JsonView::Array(listed));
        let mut all: Vec<(String, Json)> = Vec::new();
        json::push_member(&mut all, "status", json::text_value(self.status.as_str()));
        json::push_member(
            &mut all,
            "current",
            answer::text_or_null_value(&self.selected_provider()),
        );
        json::push_member(&mut all, "live_running", Json::Bool(self.running));
        json::push_member(&mut all, "selected_ready", Json::Bool(self.selected_provider_ready()));
        json::push_member(&mut all, "providers", providers);
        assert(json::member_views(all@) =~= seq![
            ("status"@, JsonView::Text(self.status@)),
            ("current"@, answer::text_or_null(self@.selected())),
            ("live_running"@, JsonView::Bool(self.running)),
            ("selected_ready"@, JsonView::Bool(self@.ready())),
            ("providers"@, JsonView::Array(listed)),
        ]);
        let state = json::object_value(all);
        assert(state.value()->Object_0 =~= state_value(self@)->Object_0);
        json::compact_text(&state)
    }
}

/// What is told of a provider reads back as what it is.
pub proof fn law_listed_provider_reads_back(p: ListedView)
    ensures
        entry_in(entry_value(p)) == Some(p),
{
    let m = entry_value(p)->Object_0;
    assert(m[0].0.len() == 4 && m[1].0.len() == 4 && m[2].0.len() == 8 && m[3].0.len() == 4
        && m[4].0.len() == 15 && m[5].0.len() == 18 && m[6].0.len() == 5 && m[0].0[0] == 'n'
        && m[1].0[0] == 'k' && m[3].0[0] == 'l') by {
        reveal_strlit("name");
        reveal_strlit("kind");
        reveal_strlit("selected");
        reveal_strlit("live");
        reveal_strlit("local_config_ok");
        reveal_strlit("local_config_error");
        reveal_strlit("model");
    }
    json::law_first_member_of_a_name(m, m[0].0);
    json::law_first_member_of_a_name(m, m[1].0);
    json::law_first_member_of_a_name(m, m[2].0);
    json::law_first_member_of_a_name(m, m[3].0);
    json::law_first_member_of_a_name(m, m[4].0);
    json::law_first_member_of_a_name(m, m[5].0);
    json::law_first_member_of_a_name(m, m[6].0);
}

proof fn lemma_entries_read_back(v: Seq<ListedView>)
    ensures
        entries_in(entry_values(v)) == Some(v),
    decreases v.len(),
{
    if v.len() > 0 {
        let front = v.drop_last();
        lemma_entries_read_back(front);
        law_listed_provider_reads_back(v.last());
        assert(entry_values(v).drop_last() =~= entry_values(front));
        assert(entry_values(v).last() == entry_value(v.last()));
        assert(front.push(v.last()) =~= v);
    } else {
        assert(entry_values(v) =~= Seq::empty());
        assert(v =~= Seq::empty());
    }
}

/// The panel is told the status, whether live runs and whether its provider is ready, and
/// every provider that the tray shows, in their order.
pub proof fn law_panel_is_told_the_state(s: TrayView)
    ensures
        state_value(s).get("status"@) == Some(JsonView::Text(s.status)),
        state_value(s).get("live_running"@) == Some(JsonView::Bool(s.running)),
        state_value(s).get("selected_ready"@) == Some(JsonView::Bool(s.ready())),
        state_value(s).get("current"@) == Some(
            match s.selected() {
                Some(n) => JsonView::Text(n),
                None => JsonView::Null,
            },
        ),
        state_value(s).get("providers"@) matches Some(JsonView::Array(items)) && entries_in(items)
            == Some(
            match s.report {
                Some(r) => r.providers,
                None => Seq::empty(),
            },
        ),
{
    let m = state_value(s)->Object_0;
    assert(m[0].0.len() == 6 && m[1].0.len() == 7 && m[2].0.len() == 12 && m[3].0.len() == 14
        && m[4].0.len() == 9) by {
        reveal_strlit("status");
        reveal_strlit("current");
        reveal_strlit("live_running");
        reveal_strlit("selected_ready");
        reveal_strlit("providers");
    }
    json::law_first_member_of_a_name(m, m[0].0);
    json::law_first_member_of_a_name(m, m[1].0);
    json::law_first_member_of_a_name(m, m[2].0);
    json::law_first_member_of_a_name(m, m[3].0);
    json::law_first_member_of_a_name(m, m[4].0);
    match s.report {
        Some(r) => {
            lemma_entries_read_back(r.providers);
        },
        None => {
            lemma_entries_read_back(Seq::empty());
            assert(entry_values(Seq::empty()) =~= Seq::empty());
        },
    }
}

} // verus!
