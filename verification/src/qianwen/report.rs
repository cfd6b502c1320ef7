//! The JSON reports of the Qianwen runtime, and the history it keeps.
use super::live::{QianwenEvent, QianwenEventView};
use crate::json;
use crate::json::{Json, JsonView};
use crate::jsonl;
use crate::text;
use vstd::prelude::*;

verus! {

/// The two feeds that the runtime is drained by.
#[derive(Debug, Clone, Copy, PartialEq, Eq, Structural)]
pub enum Feed {
    Results,
    TextEvents,
}

pub open spec fn reports(v: Seq<QianwenEvent>) -> Seq<QianwenEventView> {
    Seq::new(v.len(), |i: int| v[i]@)
}

/// The text of the first of the members that is a string, if it is not blank.
pub open spec fn text_under(payload: JsonView, keys: Seq<Seq<char>>) -> Option<Seq<char>>
    decreases keys.len(),
{
    if keys.len() == 0 {
        None
    } else if payload.text_at(keys[0]) is Some {
        text::filled(payload.text_at(keys[0]))
    } else {
        text_under(payload, keys.subrange(1, keys.len() as int))
    }
}

pub open spec fn result_keys() -> Seq<Seq<char>> {
    seq!["text"@, "finalText"@, "displayText"@, "partialText"@]
}

pub open spec fn text_event_keys() -> Seq<Seq<char>> {
    seq!["text"@, "commitText"@, "finalText"@, "partialText"@, "displayText"@]
}

fn first_text(payload: &Json, keys: &Vec<&str>) -> (r: Option<String>)
    ensures
        text::text_of(r) == text_under(
            payload.value(),
            Seq::new(keys@.len(), |i: int| keys@[i]@),
        ),
{
    let ghost all = Seq::new(keys@.len(), |i: int| keys@[i]@);
    let mut i: usize = 0;
    assert(all.subrange(0, all.len() as int) =~= all);
    while i < keys.len()
        invariant
            i <= keys@.len(),
            all == Seq::new(keys@.len(), |i: int| keys@[i]@),
            text_under(payload.value(), all) == text_under(
                payload.value(),
                all.subrange(i as int, all.len() as int),
            ),
        decreases keys@.len() - i,
    {
        let ghost rest = all.subrange(i as int, all.len() as int);
        assert(rest.subrange(1, rest.len() as int) =~= all.subrange(i + 1, all.len() as int));
        let found = payload.text_at(keys[i]);
        if found.is_some() {
            return text::non_empty(&found);
        }
        i = i + 1;
    }
    None
}

/// The states of a result that is complete.
pub open spec fn complete_state(state: Seq<char>) -> bool {
    ||| state == "completed"@
    ||| state == "complete"@
    ||| state == "final"@
    ||| state == "done"@
    ||| state == "committed"@
}

/// Whether a result is final: by the first of its three flags that it has, else
/// by its state or by its action.
pub open spec fn complete(payload: JsonView) -> bool {
    if payload.truth_at("completed"@) is Some {
        payload.truth_at("completed"@)->0
    } else if payload.truth_at("isFinal"@) is Some {
        payload.truth_at("isFinal"@)->0
    } else if payload.truth_at("final"@) is Some {
        payload.truth_at("final"@)->0
    } else {
        ||| payload.text_at("state"@) is Some && complete_state(payload.text_at("state"@)->0)
        ||| payload.text_at("actionKind"@) == Some("InsertText"@)
    }
}

/// What one result reports.
pub open spec fn voice_result(payload: JsonView) -> Option<QianwenEventView> {
    match text_under(payload, result_keys()) {
        None => None,
        Some(t) => Some(
            if complete(payload) {
                QianwenEventView::Final(t)
            } else {
                QianwenEventView::Volatile(t)
            },
        ),
    }
}

fn is_complete(payload: &Json) -> (r: bool)
    ensures
        r == complete(payload.value()),
{
    if let Some(b) = payload.bool_at("completed") {
        return b;
    }
    if let Some(b) = payload.bool_at("isFinal") {
        return b;
    }
    if let Some(b) = payload.bool_at("final") {
        return b;
    }
    if let Some(state) = payload.text_at("state") {
        let state = state.as_str();
        if text::same(state, "completed") || text::same(state, "complete") || text::same(
            state,
            "final",
        ) || text::same(state, "done") || text::same(state, "committed") {
            return true;
        }
    }
    match payload.text_at("actionKind") {
        Some(kind) => text::same(kind.as_str(), "InsertText"),
        None => false,
    }
}

pub fn parse_voice_result(payload: &Json) -> (r: Option<QianwenEvent>)
    ensures
        match r {
            Some(e) => voice_result(payload.value()) == Some(e@),
            None => voice_result(payload.value()) is None,
        },
{
    let keys: Vec<&str> = vec!["text", "finalText", "displayText", "partialText"];
    let found = first_text(payload, &keys);
    proof {
        assert(Seq::new(keys@.len(), |i: int| keys@[i]@) =~= result_keys());
    }
    match found {
        None => None,
        Some(t) => if is_complete(payload) {
            Some(QianwenEvent::Final(t))
        } else {
            Some(QianwenEvent::Volatile(t))
        },
    }
}

/// The kind of a text event: the first of its three names that it has, where that
/// is a string.
pub open spec fn event_kind(payload: JsonView) -> Seq<char> {
    let named = if payload.get("kind"@) is Some {
        payload.get("kind"@)
    } else if payload.get("type"@) is Some {
        payload.get("type"@)
    } else {
        payload.get("event"@)
    };
    match named {
        Some(JsonView::Text(t)) => t,
        _ => Seq::empty(),
    }
}

pub open spec fn ending_kind(kind: Seq<char>) -> bool {
    kind == "done"@ || kind == "finished"@ || kind == "eof"@
}

pub open spec fn clearing_kind(kind: Seq<char>) -> bool {
    kind == "clear_stream_text"@ || kind == "clearStreamText"@
}

pub open spec fn committing_kind(kind: Seq<char>) -> bool {
    ||| kind == "commit_text"@
    ||| kind == "commitText"@
    ||| kind == "completed"@
    ||| kind == "final"@
    ||| kind == "finalText"@
}

pub open spec fn streaming_kind(kind: Seq<char>) -> bool {
    ||| kind == "insert_text"@
    ||| kind == "insertText"@
    ||| kind == "partial"@
    ||| kind == "partialText"@
    ||| kind == "stream_text"@
    ||| kind == "streamText"@
}

/// What one text event reports.
pub open spec fn voice_text_event(payload: JsonView) -> Option<QianwenEventView> {
    let kind = event_kind(payload);
    let found = text_under(payload, text_event_keys());
    if ending_kind(kind) {
        Some(QianwenEventView::Done)
    } else if clearing_kind(kind) {
        Some(QianwenEventView::Volatile(Seq::empty()))
    } else if found is None {
        None
    } else if committing_kind(kind) || (!streaming_kind(kind) && (text::holds_part(
        kind,
        "commit"@,
    ) || text::holds_part(kind, "final"@))) {
        Some(QianwenEventView::Final(found->0))
    } else {
        Some(QianwenEventView::Volatile(found->0))
    }
}

fn kind_of(payload: &Json) -> (r: String)
    ensures
        r@ == event_kind(payload.value()),
{
    let mut named = payload.get("kind");
    if named.is_none() {
        named = payload.get("type");
        if named.is_none() {
            named = payload.get("event");
        }
    }
    match named {
        Some(v) => match v.as_str() {
            Some(t) => text::copy(t.as_str()),
            None => String::new(),
        },
        None => String::new(),
    }
}

pub fn parse_voice_text_event(payload: &Json) -> (r: Option<QianwenEvent>)
    ensures
        match r {
            Some(e) => voice_text_event(payload.value()) == Some(e@),
            None => voice_text_event(payload.value()) is None,
        },
{
    let kind = kind_of(payload);
    let kind = kind.as_str();
    let keys: Vec<&str> = vec!["text", "commitText", "finalText", "partialText", "displayText"];
    let found = first_text(payload, &keys);
    proof {
        assert(Seq::new(keys@.len(), |i: int| keys@[i]@) =~= text_event_keys());
    }
    if text::same(kind, "done") || text::same(kind, "finished") || text::same(kind, "eof") {
        return Some(QianwenEvent::Done);
    }
    if text::same(kind, "clear_stream_text") || text::same(kind, "clearStreamText") {
        return Some(QianwenEvent::Volatile(String::new()));
    }
    let found = match found {
        Some(t) => t,
        None => {
            return None;
        },
    };
    if text::same(kind, "commit_text") || text::same(kind, "commitText") || text::same(
        kind,
        "completed",
    ) || text::same(kind, "final") || text::same(kind, "finalText") {
        return Some(QianwenEvent::Final(found));
    }
    if text::same(kind, "insert_text") || text::same(kind, "insertText") || text::same(
        kind,
        "partial",
    ) || text::same(kind, "partialText") || text::same(kind, "stream_text") || text::same(
        kind,
        "streamText",
    ) {
        return Some(QianwenEvent::Volatile(found));
    }
    if text::contains(kind, "commit") || text::contains(kind, "final") {
        Some(QianwenEvent::Final(found))
    } else {
        Some(QianwenEvent::Volatile(found))
    }
}

pub open spec fn feed_key(feed: Feed) -> Seq<char> {
    match feed {
        Feed::Results => "results"@,
        Feed::TextEvents => "events"@,
    }
}

/// What a value that is no list reports.
pub open spec fn single(feed: Feed, value: JsonView) -> Option<QianwenEventView> {
    match feed {
        Feed::Results => voice_result(value),
        Feed::TextEvents => voice_text_event(value),
    }
}

/// The list that a value holds: under the feed's own name, under "items", or itself.
pub open spec fn list_in(feed: Feed, value: JsonView) -> Option<Seq<JsonView>> {
    if let Some(JsonView::Array(items)) = value.get(feed_key(feed)) {
        Some(items)
    } else if let Some(JsonView::Array(items)) = value.get("items"@) {
        Some(items)
    } else if let JsonView::Array(items) = value {
        Some(items)
    } else {
        None
    }
}

proof fn lemma_member_smaller(members: Seq<(Seq<char>, JsonView)>, key: Seq<char>)
    requires
        json::member(members, key) is Some,
    ensures
        exists|i: int|
            0 <= i < members.len() && #[trigger] members[i].1 == json::member(members, key)->0,
    decreases members.len(),
{
    if members[0].0 != key {
        let rest = members.subrange(1, members.len() as int);
        lemma_member_smaller(rest, key);
        let i = choose|i: int|
            0 <= i < rest.len() && #[trigger] rest[i].1 == json::member(rest, key)->0;
        assert(members[i + 1].1 == rest[i].1);
    } else {
        assert(members[0].1 == json::member(members, key)->0);
    }
}

proof fn lemma_get_smaller(value: JsonView, key: Seq<char>)
    requires
        value.get(key) matches Some(JsonView::Array(_)),
    ensures
        decreases_to!(value => value.get(key)->0->Array_0),
{
    let members = value->Object_0;
    lemma_member_smaller(members, key);
    let i = choose|i: int|
        0 <= i < members.len() && #[trigger] members[i].1 == json::member(members, key)->0;
    assert(decreases_to!(value => value->Object_0));
    assert(decreases_to!(members => members[i]));
    assert(decreases_to!(members[i] => members[i].1));
    assert(decreases_to!(members[i].1 => members[i].1->Array_0));
}

pub proof fn lemma_list_smaller(feed: Feed, value: JsonView)
    requires
        list_in(feed, value) is Some,
    ensures
        decreases_to!(value => list_in(feed, value)->0),
{
    if let Some(JsonView::Array(items)) = value.get(feed_key(feed)) {
        lemma_get_smaller(value, feed_key(feed));
    } else if let Some(JsonView::Array(items)) = value.get("items"@) {
        lemma_get_smaller(value, "items"@);
    } else {
        assert(decreases_to!(value => value->Array_0));
    }
}

/// All that a value reports, lists in lists walked in order.
pub open spec fn voice_events(feed: Feed, value: JsonView) -> Seq<QianwenEventView>
    decreases value,
{
    match list_in(feed, value) {
        Some(items) => {
            proof {
                lemma_list_smaller(feed, value);
            }
            voice_events_of_all(feed, items)
        },
        None => match single(feed, value) {
            Some(e) => seq![e],
            None => Seq::empty(),
        },
    }
}

pub open spec fn voice_events_of_all(feed: Feed, items: Seq<JsonView>) -> Seq<QianwenEventView>
    decreases items,
{
    if items.len() == 0 {
        Seq::empty()
    } else {
        voice_events_of_all(feed, items.drop_last()) + voice_events(feed, items.last())
    }
}

/// The values of a list.
pub open spec fn values(items: Seq<Json>) -> Seq<JsonView> {
    Seq::new(items.len(), |i: int| items[i].value())
}

fn list_under<'a>(feed: Feed, value: &'a Json) -> (r: Option<&'a Vec<Json>>)
    ensures
        match r {
            Some(items) => list_in(feed, value.value()) == Some(values(items@)),
            None => list_in(feed, value.value()) is None,
        },
        r matches Some(items) ==> decreases_to!(value => items@),
{
    let key = match feed {
        Feed::Results => "results",
        Feed::TextEvents => "events",
    };
    if let Some(found) = value.get(key) {
        if let Json::Array(items) = found {
            assert(found.value()->Array_0 =~= values(items@));
            assert(decreases_to!(found => found->Array_0));
            assert(decreases_to!(found->Array_0 => found->Array_0@));
            return Some(items);
        }
    }
    if let Some(found) = value.get("items") {
        if let Json::Array(items) = found {
            assert(found.value()->Array_0 =~= values(items@));
            assert(decreases_to!(found => found->Array_0));
            assert(decreases_to!(found->Array_0 => found->Array_0@));
            return Some(items);
        }
    }
    if let Json::Array(items) = value {
        assert(value.value()->Array_0 =~= values(items@));
        assert(decreases_to!(value => value->Array_0));
        assert(decreases_to!(value->Array_0 => value->Array_0@));
        return Some(items);
    }
    None
}

/// Appends what the value reports.
fn collect_voice_events(feed: Feed, value: &Json, events: &mut Vec<QianwenEvent>)
    ensures
        reports(final(events)@) == reports(old(events)@) + voice_events(feed, value.value()),
    decreases value,
{
    let ghost start = reports(events@);
    if let Some(items) = list_under(feed, value) {
        let ghost all = values(items@);
        let mut i: usize = 0;
        assert(all.take(0) =~= Seq::empty());
        assert(start + voice_events_of_all(feed, all.take(0)) =~= start);
        while i < items.len()
            invariant
                i <= items@.len(),
                all == values(items@),
                decreases_to!(value => items@),
                reports(events@) == start + voice_events_of_all(feed, all.take(i as int)),
            decreases items@.len() - i,
        {
            assert(decreases_to!(items@ => items@[i as int]));
            collect_voice_events(feed, &items[i], events);
            proof {
                assert(all.take(i + 1).drop_last() =~= all.take(i as int));
                assert(all.take(i + 1).last() == items@[i as int].value());
                assert(reports(events@) =~= start + voice_events_of_all(feed, all.take(i + 1)));
            }
            i = i + 1;
        }
        assert(all.take(all.len() as int) =~= all);
        return;
    }
    let event = match feed {
        Feed::Results => parse_voice_result(value),
        Feed::TextEvents => parse_voice_text_event(value),
    };
    match event {
        Some(e) => {
            events.push(e);
            assert(reports(events@) =~= start + seq![e@]);
        },
        None => {
            assert(start + Seq::<QianwenEventView>::empty() =~= start);
        },
    }
}

/// What a drained text reports: nothing where it is blank or no JSON.
pub open spec fn drained(feed: Feed, raw: Seq<char>) -> Seq<QianwenEventView> {
    if text::trimmed(raw).len() == 0 {
        Seq::empty()
    } else {
        match json::parsed(text::trimmed(raw)) {
            Ok(value) => voice_events(feed, value),
            Err(_) => Seq::empty(),
        }
    }
}

/// The events in a value of that feed.
pub fn voice_events_in(feed: Feed, value: &Json) -> (r: Vec<QianwenEvent>)
    ensures
        reports(r@) == voice_events(feed, value.value()),
{
    let mut events: Vec<QianwenEvent> = Vec::new();
    collect_voice_events(feed, value, &mut events);
    assert(reports(events@) =~= voice_events(feed, value.value()));
    events
}

fn drain(feed: Feed, raw: &str) -> (r: Vec<QianwenEvent>)
    ensures
        reports(r@) == drained(feed, raw@),
{
    let rest = text::trim(raw);
    let r: Vec<QianwenEvent> = if rest.as_str().is_empty() {
        Vec::new()
    } else {
        match json::parse(rest.as_str()) {
            Ok(value) => voice_events_in(feed, &value),
            Err(_) => Vec::new(),
        }
    };
    assert(reports(r@) =~= drained(feed, raw@));
    r
}

pub fn parse_voice_results_json(raw: &str) -> (r: Vec<QianwenEvent>)
    ensures
        reports(r@) == drained(Feed::Results, raw@),
{
    drain(Feed::Results, raw)
}

pub fn parse_voice_text_events_json(raw: &str) -> (r: Vec<QianwenEvent>)
    ensures
        reports(r@) == drained(Feed::TextEvents, raw@),
{
    drain(Feed::TextEvents, raw)
}

/// An entry of the history that the runtime writes.
#[derive(Debug, Clone, PartialEq, Eq)]
pub struct VoiceHistoryEntry {
    pub id: Option<String>,
    pub created_at_ms: Option<u64>,
    pub input_text: Option<String>,
    pub text: Option<String>,
    pub action_kind: Option<String>,
}

impl VoiceHistoryEntry {
    /// The text that the entry inserted, where inserting is what it did.
    pub open spec fn inserted(self) -> Option<Seq<char>> {
        if self.action_kind is Some && self.action_kind->0@ != "InsertText"@ {
            None
        } else if text::filled(text::text_of(self.text)) is Some {
            text::filled(text::text_of(self.text))
        } else {
            text::filled(text::text_of(self.input_text))
        }
    }

    pub open spec fn created(self) -> u64 {
        match self.created_at_ms {
            Some(t) => t,
            None => 0,
        }
    }

    pub fn final_text(&self) -> (r: Option<String>)
        ensures
            text::text_of(r) == self.inserted(),
    {
        if let Some(kind) = &self.action_kind {
            if !text::same(kind.as_str(), "InsertText") {
                return None;
            }
        }
        let found = text::non_empty(&self.text);
        if found.is_some() {
            found
        } else {
            text::non_empty(&self.input_text)
        }
    }

    fn created_at(&self) -> (r: u64)
        ensures
            r == self.created(),
    {
        match self.created_at_ms {
            Some(t) => t,
            None => 0,
        }
    }
}

/// Where an entry goes among entries that are in order: behind those that are not younger.
pub open spec fn place(sorted: Seq<VoiceHistoryEntry>, entry: VoiceHistoryEntry) -> int
    decreases sorted.len(),
{
    if sorted.len() == 0 || sorted.last().created() <= entry.created() {
        sorted.len() as int
    } else {
        place(sorted.drop_last(), entry)
    }
}

/// The entries from the oldest to the youngest, those of one time as they stood.
pub open spec fn by_age(entries: Seq<VoiceHistoryEntry>) -> Seq<VoiceHistoryEntry>
    decreases entries.len(),
{
    if entries.len() == 0 {
        entries
    } else {
        let sorted = by_age(entries.drop_last());
        sorted.insert(place(sorted, entries.last()), entries.last())
    }
}

pub proof fn lemma_place_bounds(sorted: Seq<VoiceHistoryEntry>, entry: VoiceHistoryEntry)
    ensures
        0 <= place(sorted, entry) <= sorted.len(),
        forall|i: int|
            #![trigger sorted[i]]
            place(sorted, entry) <= i < sorted.len() ==> sorted[i].created() > entry.created(),
        place(sorted, entry) > 0 ==> sorted[place(sorted, entry) - 1].created() <= entry.created(),
    decreases sorted.len(),
{
    if sorted.len() > 0 && sorted.last().created() > entry.created() {
        lemma_place_bounds(sorted.drop_last(), entry);
        assert forall|i: int| #![trigger sorted[i]]
            place(sorted, entry) <= i < sorted.len() implies sorted[i].created()
            > entry.created() by {
            if i < sorted.len() - 1 {
                assert(sorted.drop_last()[i] == sorted[i]);
            }
        }
    }
}

/// Sorting by age keeps every entry, once, and puts no older one behind a younger one.
pub proof fn law_by_age_sorts(entries: Seq<VoiceHistoryEntry>)
    ensures
        by_age(entries).len() == entries.len(),
        by_age(entries).to_multiset() == entries.to_multiset(),
        forall|i: int, j: int|
            #![trigger by_age(entries)[i], by_age(entries)[j]]
            0 <= i <= j < entries.len() ==> by_age(entries)[i].created() <= by_age(
                entries,
            )[j].created(),
    decreases entries.len(),
{
    broadcast use vstd::seq_lib::group_to_multiset_ensures;

    if entries.len() > 0 {
        let front = entries.drop_last();
        let entry = entries.last();
        let sorted = by_age(front);
        law_by_age_sorts(front);
        lemma_place_bounds(sorted, entry);
        let at = place(sorted, entry);
        assert(entries =~= front.push(entry));
        let all = by_age(entries);
        assert forall|i: int, j: int| #![trigger all[i], all[j]]
            0 <= i <= j < entries.len() implies all[i].created() <= all[j].created() by {
            let i0 = if i < at { i } else { i - 1 };
            let j0 = if j < at { j } else { j - 1 };
            if i != at {
                assert(all[i] == sorted[i0]);
            }
            if j != at {
                assert(all[j] == sorted[j0]);
            }
            if i == at && j > at {
                assert(sorted[j0].created() > entry.created());
            }
            if j == at && i < at {
                assert(sorted[i0].created() <= sorted[at - 1].created());
            }
        }
    }
}

fn sort_by_age(entries: Vec<VoiceHistoryEntry>) -> (r: Vec<VoiceHistoryEntry>)
    ensures
        r@ == by_age(entries@),
    decreases entries@.len(),
{
    let mut waiting = entries;
    if waiting.len() == 0 {
        return waiting;
    }
    let last = waiting.pop();
    assert(waiting@ =~= entries@.drop_last());
    match last {
        None => waiting,
        Some(entry) => {
            let mut sorted = sort_by_age(waiting);
            let ghost all = sorted@;
            let mut at: usize = sorted.len();
            assert(all.take(at as int) =~= all);
            while at > 0 && sorted[at - 1].created_at() > entry.created_at()
                invariant
                    at <= sorted@.len(),
                    sorted@ == all,
                    place(all, entry) == place(all.take(at as int), entry),
                decreases at,
            {
                assert(all.take(at as int).drop_last() =~= all.take(at - 1));
                at = at - 1;
            }
            sorted.insert(at, entry);
            sorted
        },
    }
}

/// What is found in the history, and which entries have been looked at then.
pub open spec fn walk(seen: Seq<Seq<char>>, sorted: Seq<VoiceHistoryEntry>) -> (
    Seq<Seq<char>>,
    Option<Seq<char>>,
)
    decreases sorted.len(),
{
    if sorted.len() == 0 {
        (seen, None)
    } else {
        let rest = sorted.subrange(1, sorted.len() as int);
        match text::filled(text::text_of(sorted[0].id)) {
            None => walk(seen, rest),
            Some(id) => if seen.contains(id) {
                walk(seen, rest)
            } else if sorted[0].inserted() is Some {
                (seen.push(id), sorted[0].inserted())
            } else {
                walk(seen.push(id), rest)
            },
        }
    }
}

#[verifier::ext_equal]
pub struct EntryView {
    pub id: Option<Seq<char>>,
    pub created_at_ms: Option<u64>,
    pub input_text: Option<Seq<char>>,
    pub text: Option<Seq<char>>,
    pub action_kind: Option<Seq<char>>,
}

impl View for VoiceHistoryEntry {
    type V = EntryView;

    open spec fn view(&self) -> EntryView {
        EntryView {
            id: text::text_of(self.id),
            created_at_ms: self.created_at_ms,
            input_text: text::text_of(self.input_text),
            text: text::text_of(self.text),
            action_kind: text::text_of(self.action_kind),
        }
    }
}

/// The time that may be left out; nothing, where something else stands there.
pub open spec fn time_given(v: JsonView) -> Option<Option<u64>> {
    match jsonl::given(v, "createdAtMs"@) {
        None => Some(None),
        Some(JsonView::Number(n)) => match text::number_in(n, u64::MAX as nat) {
            Some(at) => Some(Some(at as u64)),
            None => None,
        },
        Some(_) => None,
    }
}

fn read_time_given(v: &Json) -> (r: Option<Option<u64>>)
    ensures
        r == time_given(v.value()),
{
    match jsonl::read_given(v, "createdAtMs") {
        None => Some(None),
        Some(x) => match x.as_number() {
            Some(n) => match text::parse_number(n.as_str(), u64::MAX) {
                Some(at) => Some(Some(at)),
                None => None,
            },
            None => None,
        },
    }
}

/// The entry that a value stands for.
pub open spec fn entry_in(v: JsonView) -> Option<EntryView> {
    match (
        jsonl::text_given(v, "id"@),
        time_given(v),
        jsonl::text_given(v, "inputText"@),
        jsonl::text_given(v, "text"@),
        jsonl::text_given(v, "actionKind"@),
    ) {
        (
            Some(id),
            Some(created_at_ms),
            Some(input_text),
            Some(text),
            Some(action_kind),
        ) => if v is Object {
            Some(EntryView { id, created_at_ms, input_text, text, action_kind })
        } else {
            None
        },
        _ => None,
    }
}

pub open spec fn entry_of(o: Option<VoiceHistoryEntry>) -> Option<EntryView> {
    match o {
        Some(e) => Some(e@),
        None => None,
    }
}

/// Reads an entry of the history.
pub fn read_entry(v: &Json) -> (r: Option<VoiceHistoryEntry>)
    ensures
        entry_of(r) == entry_in(v.value()),
{
    match v {
        Json::Object(_) => {},
        _ => {
            return None;
        },
    }
    match (
        jsonl::read_text_given(v, "id"),
        read_time_given(v),
        jsonl::read_text_given(v, "inputText"),
        jsonl::read_text_given(v, "text"),
        jsonl::read_text_given(v, "actionKind"),
    ) {
        (
            Some(id),
            Some(created_at_ms),
            Some(input_text),
            Some(said),
            Some(action_kind),
        ) => Some(VoiceHistoryEntry { id, created_at_ms, input_text, text: said, action_kind }),
        _ => None,
    }
}

/// The entries in a list, if each of them is one.
pub open spec fn entries_in(items: Seq<JsonView>) -> Option<Seq<EntryView>>
    decreases items.len(),
{
    if items.len() == 0 {
        Some(Seq::empty())
    } else {
        match (entries_in(items.drop_last()), entry_in(items.last())) {
            (Some(before), Some(e)) => Some(before.push(e)),
            _ => None,
        }
    }
}

pub open spec fn entry_views(v: Seq<VoiceHistoryEntry>) -> Seq<EntryView> {
    v.map_values(|e: VoiceHistoryEntry| e@)
}

/// The history in the text of its file: a list of entries, or nothing.
pub open spec fn history_in(content: Seq<char>) -> Option<Seq<EntryView>> {
    match json::parsed(content) {
        Ok(JsonView::Array(items)) => entries_in(items),
        _ => None,
    }
}

proof fn lemma_entries_stop(items: Seq<JsonView>, i: int)
    requires
        0 <= i <= items.len(),
        entries_in(items.take(i)) is None,
    ensures
        entries_in(items) is None,
    decreases items.len() - i,
{
    if i == items.len() {
        assert(items.take(i) =~= items);
    } else {
        assert(items.take(i + 1).drop_last() =~= items.take(i));
        lemma_entries_stop(items, i + 1);
    }
}

/// Reads the history.
pub fn read_history(content: &str) -> (r: Option<Vec<VoiceHistoryEntry>>)
    ensures
        match r {
            Some(v) => history_in(content@) == Some(entry_views(v@)),
            None => history_in(content@) is None,
        },
{
    let list = match json::parse(content) {
        Ok(list) => list,
        Err(_) => {
            return None;
        },
    };
    match &list {
        Json::Array(items) => {
            let ghost all = list.value()->Array_0;
            let n: usize = items.len();
            let mut found: Vec<VoiceHistoryEntry> = Vec::new();
            let mut i: usize = 0;
            assert(entry_views(found@) =~= Seq::empty());
            assert(all.take(0) =~= Seq::empty());
            while i < n
                invariant
                    n == items.len(),
                    list == Json::Array(*items),
                    all == list.value()->Array_0,
                    all.len() == n,
                    history_in(content@) == entries_in(all),
                    i <= n,
                    entries_in(all.take(i as int)) == Some(entry_views(found@)),
                decreases n - i,
            {
                let ghost more = all.take(i + 1);
                assert(more.drop_last() =~= all.take(i as int));
                assert(more.last() == items@[i as int].value());
                match read_entry(&items[i]) {
                    Some(e) => {
                        let ghost before = entry_views(found@);
                        found.push(e);
                        assert(entry_views(found@) =~= before.push(e@));
                    },
                    None => {
                        proof {
                            lemma_entries_stop(all, i + 1);
                        }
                        return None;
                    },
                }
                i = i + 1;
            }
            assert(all.take(n as int) =~= all);
            Some(found)
        },
        _ => None,
    }
}

/// The history entries that were looked at, by their ids.
pub struct SeenHistory {
    pub ids: Vec<String>,
}

impl SeenHistory {
    pub fn new() -> (r: SeenHistory)
        ensures
            text::texts(r.ids@) == Seq::<Seq<char>>::empty(),
    {
        let r = SeenHistory { ids: Vec::new() };
        assert(text::texts(r.ids@) =~= Seq::empty());
        r
    }

    fn has(&self, id: &str) -> (r: bool)
        ensures
            r == text::texts(self.ids@).contains(id@),
    {
        let mut i: usize = 0;
        while i < self.ids.len()
            invariant
                i <= self.ids@.len(),
                forall|j: int| 0 <= j < i ==> self.ids@[j]@ != id@,
            decreases self.ids@.len() - i,
        {
            if text::same(self.ids[i].as_str(), id) {
                assert(text::texts(self.ids@)[i as int] == id@);
                return true;
            }
            i = i + 1;
        }
        false
    }

    /// The oldest text in the history that was not given out yet.
    pub fn next_history_event(&mut self, entries: Vec<VoiceHistoryEntry>) -> (r: Option<
        QianwenEvent,
    >)
        ensures
            text::texts(final(self).ids@) == walk(text::texts(old(self).ids@), by_age(entries@)).0,
            match walk(text::texts(old(self).ids@), by_age(entries@)).1 {
                Some(t) => r is Some && r->0@ == QianwenEventView::Final(t),
                None => r is None,
            },
    {
        let sorted = sort_by_age(entries);
        let ghost all = sorted@;
        let ghost start = text::texts(self.ids@);
        let mut i: usize = 0;
        assert(all.subrange(0, all.len() as int) =~= all);
        while i < sorted.len()
            invariant
                i <= sorted@.len(),
                all == sorted@,
                all == by_age(entries@),
                start == text::texts(old(self).ids@),
                walk(start, all) == walk(
                    text::texts(self.ids@),
                    all.subrange(i as int, all.len() as int),
                ),
            decreases sorted@.len() - i,
        {
            let ghost rest = all.subrange(i as int, all.len() as int);
            assert(rest.subrange(1, rest.len() as int) =~= all.subrange(i + 1, all.len() as int));
            let entry = &sorted[i];
            i = i + 1;
            if let Some(id) = text::non_empty(&entry.id) {
                if !self.has(id.as_str()) {
                    let ghost before = text::texts(self.ids@);
                    self.ids.push(text::copy(id.as_str()));
                    assert(text::texts(self.ids@) =~= before.push(id@));
                    if let Some(found) = entry.final_text() {
                        return Some(QianwenEvent::Final(found));
                    }
                }
            }
        }
        None
    }
}

/// An entry that was looked at is not given out again.
pub proof fn law_history_given_once(
    seen: Seq<Seq<char>>,
    sorted: Seq<VoiceHistoryEntry>,
    id: Seq<char>,
)
    requires
        seen.contains(id),
        forall|i: int|
            0 <= i < sorted.len() ==> text::filled(#[trigger] text::text_of(sorted[i].id)) == Some(id),
    ensures
        walk(seen, sorted) == (seen, None::<Seq<char>>),
    decreases sorted.len(),
{
    if sorted.len() > 0 {
        let rest = sorted.subrange(1, sorted.len() as int);
        assert forall|i: int| 0 <= i < rest.len() implies text::filled(
            #[trigger] text::text_of(rest[i].id),
        ) == Some(id) by {
            assert(rest[i] == sorted[i + 1]);
        }
        assert(text::filled(text::text_of(sorted[0].id)) == Some(id));
        law_history_given_once(seen, rest, id);
    }
}

proof fn lemma_text_under(payload: JsonView, keys: Seq<Seq<char>>, i: int)
    requires
        0 <= i < keys.len(),
        payload.text_at(keys[i]) is Some,
        forall|j: int| 0 <= j < i ==> payload.text_at(#[trigger] keys[j]) is None,
    ensures
        text_under(payload, keys) == text::filled(payload.text_at(keys[i])),
    decreases i,
{
    if i > 0 {
        assert(payload.text_at(keys[0]) is None);
        let rest = keys.subrange(1, keys.len() as int);
        assert forall|j: int| 0 <= j < i - 1 implies payload.text_at(#[trigger] rest[j]) is None by {
            assert(rest[j] == keys[j + 1]);
        }
        lemma_text_under(payload, rest, i - 1);
    }
}

proof fn lemma_no_text_under(payload: JsonView, keys: Seq<Seq<char>>)
    requires
        forall|j: int| 0 <= j < keys.len() ==> payload.text_at(#[trigger] keys[j]) is None,
    ensures
        text_under(payload, keys) is None,
    decreases keys.len(),
{
    if keys.len() > 0 {
        assert(payload.text_at(keys[0]) is None);
        let rest = keys.subrange(1, keys.len() as int);
        assert forall|j: int| 0 <= j < rest.len() implies payload.text_at(#[trigger] rest[j]) is None by {
            assert(rest[j] == keys[j + 1]);
        }
        lemma_no_text_under(payload, rest);
    }
}

/// The text of a report is the one under the first of the names that has a text, trimmed; a
/// blank one there is no text, and one under another name does not stand in for it.
pub proof fn law_text_under_the_first_name(payload: JsonView, keys: Seq<Seq<char>>, i: int)
    ensures
        0 <= i < keys.len() && (payload.get(keys[i]) matches Some(JsonView::Text(_))) && (forall|
            j: int,
        |
            0 <= j < i ==> !(payload.get(#[trigger] keys[j]) matches Some(JsonView::Text(_))))
            ==> text_under(payload, keys) == text::filled(
            Some(payload.get(keys[i])->0->Text_0),
        ),
        (forall|j: int|
            0 <= j < keys.len() ==> !(payload.get(#[trigger] keys[j]) matches Some(
                JsonView::Text(_),
            ))) ==> text_under(payload, keys) is None,
{
    if 0 <= i < keys.len() && (payload.get(keys[i]) matches Some(JsonView::Text(_))) && (forall|
        j: int,
    |
        0 <= j < i ==> !(payload.get(#[trigger] keys[j]) matches Some(JsonView::Text(_)))) {
        lemma_text_under(payload, keys, i);
    }
    if forall|j: int|
        0 <= j < keys.len() ==> !(payload.get(#[trigger] keys[j]) matches Some(JsonView::Text(_))) {
        lemma_no_text_under(payload, keys);
    }
}

/// A result with a text is told with it. It is final where the first of its three flags says
/// so, and without a flag where its state or its action does.
pub proof fn law_result_is_told_with_its_text(payload: JsonView, t: Seq<char>)
    requires
        payload.get("text"@) == Some(JsonView::Text(t)),
    ensures
        text::trimmed(t).len() == 0 ==> voice_result(payload) is None,
        text::trimmed(t).len() > 0 ==> ({
            let told = QianwenEventView::Final(text::trimmed(t));
            let open = QianwenEventView::Volatile(text::trimmed(t));
            &&& voice_result(payload) == Some(told) || voice_result(payload) == Some(open)
            &&& payload.get("completed"@) == Some(JsonView::Bool(true)) ==> voice_result(payload)
                == Some(told)
            &&& payload.get("completed"@) == Some(JsonView::Bool(false)) ==> voice_result(payload)
                == Some(open)
            &&& payload.get("completed"@) is None ==> {
                &&& payload.get("isFinal"@) == Some(JsonView::Bool(true)) ==> voice_result(payload)
                    == Some(told)
                &&& payload.get("isFinal"@) == Some(JsonView::Bool(false)) ==> voice_result(payload)
                    == Some(open)
                &&& payload.get("isFinal"@) is None ==> {
                    &&& payload.get("final"@) == Some(JsonView::Bool(true)) ==> voice_result(
                        payload,
                    ) == Some(told)
                    &&& payload.get("final"@) == Some(JsonView::Bool(false)) ==> voice_result(
                        payload,
                    ) == Some(open)
                    &&& payload.get("final"@) is None ==> {
                        &&& payload.get("actionKind"@) == Some(JsonView::Text("InsertText"@))
                            ==> voice_result(payload) == Some(told)
                        &&& payload.get("state"@) == Some(JsonView::Text("completed"@))
                            || payload.get("state"@) == Some(JsonView::Text("complete"@))
                            || payload.get("state"@) == Some(JsonView::Text("final"@))
                            || payload.get("state"@) == Some(JsonView::Text("done"@))
                            || payload.get("state"@) == Some(JsonView::Text("committed"@))
                            ==> voice_result(payload) == Some(told)
                        &&& payload.get("actionKind"@) is None && payload.get("state"@) is None
                            ==> voice_result(payload) == Some(open)
                    }
                }
            }
        }),
{
    law_text_under_the_first_name(payload, result_keys(), 0);
    assert(result_keys()[0] == "text"@);
}

/// An event that tells the end is told as the end, whatever text it has; one that clears the
/// stream as an empty text. Any other has to have a text, and is final where it commits one.
pub proof fn law_event_is_told_by_its_kind(payload: JsonView, kind: Seq<char>, t: Seq<char>)
    requires
        payload.get("kind"@) == Some(JsonView::Text(kind)),
    ensures
        kind == "done"@ || kind == "finished"@ || kind == "eof"@ ==> voice_text_event(payload)
            == Some(QianwenEventView::Done),
        payload.get("text"@) == Some(JsonView::Text(t)) && text::trimmed(t).len() > 0 && (kind
            == "commit_text"@ || kind == "commitText"@ || kind == "completed"@ || kind == "final"@
            || kind == "finalText"@) && !ending_kind(kind) && !clearing_kind(kind)
            ==> voice_text_event(payload) == Some(QianwenEventView::Final(text::trimmed(t))),
        payload.get("text"@) == Some(JsonView::Text(t)) && text::trimmed(t).len() > 0 && (kind
            == "insert_text"@ || kind == "insertText"@ || kind == "partial"@ || kind
            == "partialText"@ || kind == "stream_text"@ || kind == "streamText"@)
            && !ending_kind(kind) && !clearing_kind(kind) && !committing_kind(kind)
            ==> voice_text_event(payload) == Some(QianwenEventView::Volatile(text::trimmed(t))),
        payload.get("text"@) == Some(JsonView::Text(t)) && text::trimmed(t).len() == 0
            && !ending_kind(kind) && !clearing_kind(kind) ==> voice_text_event(payload) is None,
        !ending_kind(kind) && (kind == "clear_stream_text"@ || kind == "clearStreamText"@)
            ==> voice_text_event(payload) == Some(QianwenEventView::Volatile(Seq::empty())),
{
    law_text_under_the_first_name(payload, text_event_keys(), 0);
    assert(text_event_keys()[0] == "text"@);
}

/// Events are told in the order of the list that they stand in, and a list of one tells what
/// its one item does.
pub proof fn law_events_in_their_order(feed: Feed, a: Seq<JsonView>, b: Seq<JsonView>, x: JsonView)
    ensures
        voice_events_of_all(feed, a + b) == voice_events_of_all(feed, a) + voice_events_of_all(
            feed,
            b,
        ),
        voice_events_of_all(feed, seq![x]) == voice_events(feed, x),
        voice_events_of_all(feed, Seq::empty()).len() == 0,
        voice_events(feed, JsonView::Array(a)) == voice_events_of_all(feed, a),
    decreases b.len(),
{
    let none = Seq::<JsonView>::empty();
    assert(voice_events_of_all(feed, none) =~= Seq::empty());
    assert(seq![x].drop_last() =~= none);
    assert(seq![x].last() == x);
    assert(voice_events_of_all(feed, seq![x]) =~= voice_events(feed, x));
    if b.len() == 0 {
        assert(a + b =~= a);
        assert(b =~= none);
        assert(voice_events_of_all(feed, a) + voice_events_of_all(feed, b) =~= voice_events_of_all(
            feed,
            a,
        ));
    } else {
        law_events_in_their_order(feed, a, b.drop_last(), x);
        assert((a + b).drop_last() =~= a + b.drop_last());
        assert((a + b).last() == b.last());
        assert(voice_events_of_all(feed, a + b) =~= voice_events_of_all(feed, a)
            + voice_events_of_all(feed, b));
    }
}

/// A list is found under the feed's own name before any other.
pub proof fn law_list_under_the_feeds_name(feed: Feed, value: JsonView, items: Seq<JsonView>)
    ensures
        value.get(feed_key(feed)) == Some(JsonView::Array(items)) ==> voice_events(feed, value)
            == voice_events_of_all(feed, items),
        !(value.get(feed_key(feed)) matches Some(JsonView::Array(_))) && value.get("items"@) == Some(
            JsonView::Array(items),
        ) ==> voice_events(feed, value) == voice_events_of_all(feed, items),
        feed_key(Feed::Results) == "results"@ && feed_key(Feed::TextEvents) == "events"@,
{
}

/// An entry of the history gives a text only where it was inserted: its text, or else what
/// was spoken.
pub proof fn law_only_inserted_texts_count(e: VoiceHistoryEntry)
    ensures
        (e.action_kind matches Some(k) && k@ != "InsertText"@) ==> e.inserted() is None,
        !(e.action_kind matches Some(k) && k@ != "InsertText"@) ==> {
            &&& (e.text matches Some(t) && text::trimmed(t@).len() > 0) ==> e.inserted() == Some(
                text::trimmed(e.text->0@),
            )
            &&& !(e.text matches Some(t) && text::trimmed(t@).len() > 0) && (
            e.input_text matches Some(t) && text::trimmed(t@).len() > 0) ==> e.inserted() == Some(
                text::trimmed(e.input_text->0@),
            )
            &&& !(e.text matches Some(t) && text::trimmed(t@).len() > 0) && !(
            e.input_text matches Some(t) && text::trimmed(t@).len() > 0) ==> e.inserted() is None
        },
{
}

/// Of the entries that were not seen before, the oldest that gives a text is told, and is
/// seen from then on; the ones before it that give none are not waited for.
pub proof fn law_oldest_new_entry_is_told(
    seen: Seq<Seq<char>>,
    sorted: Seq<VoiceHistoryEntry>,
    i: int,
    id: Seq<char>,
)
    requires
        0 <= i < sorted.len(),
        text::filled(text::text_of(sorted[i].id)) == Some(id),
        !seen.contains(id),
        sorted[i].inserted() is Some,
        forall|j: int|
            0 <= j < i ==> {
                let e = #[trigger] sorted[j];
                let own = text::filled(text::text_of(e.id));
                own is None || (own != Some(id) && (seen.contains(own->0) || e.inserted() is None))
            },
    ensures
        walk(seen, sorted).1 == sorted[i].inserted(),
        walk(seen, sorted).0.contains(id),
    decreases i,
{
    if i == 0 {
        assert(seen.push(id)[seen.len() as int] == id);
    } else {
        let rest = sorted.subrange(1, sorted.len() as int);
        assert(rest[i - 1] == sorted[i]);
        let first = sorted[0];
        let own = text::filled(text::text_of(first.id));
        let now = if own is None || seen.contains(own->0) {
            seen
        } else {
            seen.push(own->0)
        };
        assert forall|j: int| 0 <= j < i - 1 implies {
            let e = #[trigger] rest[j];
            let other = text::filled(text::text_of(e.id));
            other is None || (other != Some(id) && (now.contains(other->0) || e.inserted() is None))
        } by {
            assert(rest[j] == sorted[j + 1]);
            let other = text::filled(text::text_of(rest[j].id));
            if other is Some && seen.contains(other->0) {
                let k = choose|k: int| 0 <= k < seen.len() && seen[k] == other->0;
                assert(now[k] == other->0);
            }
        }
        if now.contains(id) {
            let k = choose|k: int| 0 <= k < now.len() && now[k] == id;
            if k < seen.len() {
                assert(seen[k] == id);
            }
        }
        law_oldest_new_entry_is_told(now, rest, i - 1, id);
    }
}

} // verus!
