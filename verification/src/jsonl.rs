//! Events as lines of JSON.
//!
//! An event is an object. A live event names its kind in the member `type`; what is
//! missing from an event is left out of its object.
use crate::event::{
    AudioChannel, AudioRange, EventTimestamp, LiveDeviceEvent, LiveEvent, LiveMetaEvent,
    LiveStatusEvent, LiveStatusPhase, LiveTranslatedEvent, LiveVolatileEvent, TranscriptConfidence,
    TranscriptEvent, TranscriptSource, TranscriptTarget,
};
use crate::event;
#[allow(unused_imports)]
use crate::event::{EventView, LiveEventView};
use crate::json;
use crate::json::Json;
#[allow(unused_imports)]
use crate::json::JsonView;
use crate::text;
use vstd::prelude::*;
use vstd::string::*;

verus! {

pub open spec fn channel_word(channel: AudioChannel) -> Seq<char> {
    match channel {
        AudioChannel::Mic => "mic"@,
        AudioChannel::Speaker => "speaker"@,
        AudioChannel::File => "file"@,
    }
}

fn word_of_channel(channel: AudioChannel) -> (r: &'static str)
    ensures
        r@ == channel_word(channel),
{
    match channel {
        AudioChannel::Mic => "mic",
        AudioChannel::Speaker => "speaker",
        AudioChannel::File => "file",
    }
}

pub open spec fn channel_in(v: Option<JsonView>) -> Option<AudioChannel> {
    match v {
        Some(JsonView::Text(word)) => if word == "mic"@ {
            Some(AudioChannel::Mic)
        } else if word == "speaker"@ {
            Some(AudioChannel::Speaker)
        } else if word == "file"@ {
            Some(AudioChannel::File)
        } else {
            None
        },
        _ => None,
    }
}

/// The view of a member that may be missing.
pub open spec fn value_of(o: Option<&Json>) -> Option<JsonView> {
    match o {
        Some(v) => Some(v.value()),
        None => None,
    }
}

fn read_channel(v: Option<&Json>) -> (r: Option<AudioChannel>)
    ensures
        r == channel_in(value_of(v)),
{
    match v {
        Some(v) => match v.as_str() {
            Some(word) => {
                if text::same(word.as_str(), "mic") {
                    Some(AudioChannel::Mic)
                } else if text::same(word.as_str(), "speaker") {
                    Some(AudioChannel::Speaker)
                } else if text::same(word.as_str(), "file") {
                    Some(AudioChannel::File)
                } else {
                    None
                }
            },
            None => None,
        },
        None => None,
    }
}

pub open spec fn phase_word(phase: LiveStatusPhase) -> Seq<char> {
    match phase {
        LiveStatusPhase::Recording => "recording"@,
        LiveStatusPhase::Transcribing => "transcribing"@,
        LiveStatusPhase::Recovering => "recovering"@,
    }
}

fn word_of_phase(phase: LiveStatusPhase) -> (r: &'static str)
    ensures
        r@ == phase_word(phase),
{
    match phase {
        LiveStatusPhase::Recording => "recording",
        LiveStatusPhase::Transcribing => "transcribing",
        LiveStatusPhase::Recovering => "recovering",
    }
}

pub open spec fn phase_in(v: Option<JsonView>) -> Option<LiveStatusPhase> {
    match v {
        Some(JsonView::Text(word)) => if word == "recording"@ {
            Some(LiveStatusPhase::Recording)
        } else if word == "transcribing"@ {
            Some(LiveStatusPhase::Transcribing)
        } else if word == "recovering"@ {
            Some(LiveStatusPhase::Recovering)
        } else {
            None
        },
        _ => None,
    }
}

fn read_phase(v: Option<&Json>) -> (r: Option<LiveStatusPhase>)
    ensures
        r == phase_in(value_of(v)),
{
    match v {
        Some(v) => match v.as_str() {
            Some(word) => {
                if text::same(word.as_str(), "recording") {
                    Some(LiveStatusPhase::Recording)
                } else if text::same(word.as_str(), "transcribing") {
                    Some(LiveStatusPhase::Transcribing)
                } else if text::same(word.as_str(), "recovering") {
                    Some(LiveStatusPhase::Recovering)
                } else {
                    None
                }
            },
            None => None,
        },
        None => None,
    }
}

/// A member that is there only where there is something to say.
pub open spec fn member_if(key: Seq<char>, v: Option<JsonView>) -> Seq<(Seq<char>, JsonView)> {
    match v {
        Some(v) => seq![(key, v)],
        None => Seq::<(Seq<char>, JsonView)>::empty(),
    }
}

pub open spec fn text_json(o: Option<Seq<char>>) -> Option<JsonView> {
    match o {
        Some(t) => Some(JsonView::Text(t)),
        None => None,
    }
}

/// Two numbers under their names.
pub open spec fn pair_value(first: Seq<char>, second: Seq<char>, v: (Seq<char>, Seq<char>)) -> JsonView {
    json::object(seq![(first, JsonView::Number(v.0)), (second, JsonView::Number(v.1))])
}

pub open spec fn source_members(e: EventView) -> Seq<(Seq<char>, JsonView)> {
    seq![("lang"@, JsonView::Text(e.lang)), ("text"@, JsonView::Text(e.text))] + member_if(
        "confidence"@,
        match e.confidence {
            Some(c) => Some(pair_value("mean"@, "min"@, c)),
            None => None,
        },
    )
}

pub open spec fn target_value(t: (Seq<char>, Seq<char>)) -> JsonView {
    json::object(seq![("lang"@, JsonView::Text(t.0)), ("text"@, JsonView::Text(t.1))])
}

/// The members of an utterance's object.
pub open spec fn event_members(e: EventView) -> Seq<(Seq<char>, JsonView)> {
    seq![
        ("seq"@, JsonView::Number(text::decimal(e.seq as nat))),
        ("channel"@, JsonView::Text(channel_word(e.channel))),
        ("timestamp"@, JsonView::Text(e.formatted)),
    ] + member_if(
        "audio"@,
        match e.audio {
            Some(r) => Some(pair_value("start"@, "end"@, r)),
            None => None,
        },
    ) + seq![("src"@, json::object(source_members(e)))] + member_if(
        "dst"@,
        match e.translation {
            Some(t) => Some(target_value(t)),
            None => None,
        },
    )
}

pub open spec fn device_members(d: (AudioChannel, Seq<char>, bool)) -> Seq<
    (Seq<char>, JsonView),
> {
    seq![
        ("channel"@, JsonView::Text(channel_word(d.0))),
        ("name"@, JsonView::Text(d.1)),
        ("pinned"@, JsonView::Bool(d.2)),
    ]
}

pub open spec fn device_values(v: Seq<(AudioChannel, Seq<char>, bool)>) -> Seq<JsonView> {
    v.map_values(|d: (AudioChannel, Seq<char>, bool)| json::object(device_members(d)))
}

/// The members of a live event's object.
pub open spec fn live_members(event: LiveEventView) -> Seq<(Seq<char>, JsonView)> {
    match event {
        LiveEventView::Meta { backend, src, dst, mic, speaker, devices } => seq![
            ("type"@, JsonView::Text("meta"@)),
            ("backend"@, JsonView::Text(backend)),
            ("src"@, JsonView::Text(src)),
        ] + member_if("dst"@, text_json(dst)) + seq![
            ("mic"@, JsonView::Bool(mic)),
            ("speaker"@, JsonView::Bool(speaker)),
        ] + member_if(
            "devices"@,
            if devices.len() == 0 {
                None
            } else {
                Some(JsonView::Array(device_values(devices)))
            },
        ),
        LiveEventView::Status { phase, message, detail } => seq![
            ("type"@, JsonView::Text("status"@)),
            ("phase"@, JsonView::Text(phase_word(phase))),
            ("message"@, JsonView::Text(message)),
        ] + member_if("detail"@, text_json(detail)),
        LiveEventView::Volatile { channel, text } => seq![
            ("type"@, JsonView::Text("volatile"@)),
            ("channel"@, JsonView::Text(channel_word(channel))),
            ("text"@, JsonView::Text(text)),
        ],
        LiveEventView::Finalized(e) => seq![("type"@, JsonView::Text("finalized"@))]
            + event_members(e),
        LiveEventView::Translated { seq, lang, text } => seq![
            ("type"@, JsonView::Text("translated"@)),
            ("seq"@, JsonView::Number(text::decimal(seq as nat))),
        ] + member_if("lang"@, text_json(lang)) + seq![("text"@, JsonView::Text(text))],
        LiveEventView::Eof => seq![("type"@, JsonView::Text("eof"@))],
    }
}

fn push_pair(
    members: &mut Vec<(String, Json)>,
    key: &str,
    first: &str,
    second: &str,
    a: &str,
    b: &str,
)
    ensures
        json::member_views(final(members)@) == json::member_views(old(members)@).push(
            (key@, pair_value(first@, second@, (a@, b@))),
        ),
{
    let mut own: Vec<(String, Json)> = Vec::new();
    json::push_member(&mut own, first, Json::Number(text::copy(a)));
    json::push_member(&mut own, second, Json::Number(text::copy(b)));
    assert(json::member_views(own@) =~= seq![
        (first@, JsonView::Number(a@)),
        (second@, JsonView::Number(b@)),
    ]);
    json::push_member(members, key, json::object_value(own));
}

fn push_text(members: &mut Vec<(String, Json)>, key: &str, value: &str)
    ensures
        json::member_views(final(members)@) == json::member_views(old(members)@).push(
            (key@, JsonView::Text(value@)),
        ),
{
    json::push_member(members, key, json::text_value(value));
}

fn push_text_if(members: &mut Vec<(String, Json)>, key: &str, value: &Option<String>)
    ensures
        json::member_views(final(members)@) == json::member_views(old(members)@) + member_if(
            key@,
            text_json(text::text_of(*value)),
        ),
{
    if let Some(v) = value {
        push_text(members, key, v.as_str());
    }
    assert(json::member_views(members@) =~= json::member_views(old(members)@) + member_if(
        key@,
        text_json(text::text_of(*value)),
    ));
}

fn push_event(members: &mut Vec<(String, Json)>, e: &TranscriptEvent)
    ensures
        json::member_views(final(members)@) == json::member_views(old(members)@) + event_members(
            e@,
        ),
{
    json::push_member(members, "seq", json::number_value(e.seq));
    push_text(members, "channel", word_of_channel(e.channel));
    push_text(members, "timestamp", e.timestamp.formatted.as_str());
    if let Some(r) = &e.audio {
        push_pair(members, "audio", "start", "end", r.start.as_str(), r.end.as_str());
    }
    let mut src: Vec<(String, Json)> = Vec::new();
    push_text(&mut src, "lang", e.src.lang.as_str());
    push_text(&mut src, "text", e.src.text.as_str());
    if let Some(c) = &e.src.confidence {
        push_pair(&mut src, "confidence", "mean", "min", c.mean.as_str(), c.min.as_str());
    }
    assert(json::member_views(src@) =~= source_members(e@));
    json::push_member(members, "src", json::object_value(src));
    if let Some(t) = &e.dst {
        let mut dst: Vec<(String, Json)> = Vec::new();
        push_text(&mut dst, "lang", t.lang.as_str());
        push_text(&mut dst, "text", t.text.as_str());
        assert(json::object(json::member_views(dst@)) == target_value((t.lang@, t.text@))) by {
            assert(json::member_views(dst@) =~= seq![
                ("lang"@, JsonView::Text(t.lang@)),
                ("text"@, JsonView::Text(t.text@)),
            ]);
        }
        json::push_member(members, "dst", json::object_value(dst));
    }
    assert(json::member_views(members@) =~= json::member_views(old(members)@) + event_members(e@));
}

impl TranscriptEvent {
    pub fn jsonl(&self) -> (r: String)
        ensures
            r@ == json::compact(json::object(event_members(self@))),
    {
        let mut members: Vec<(String, Json)> = Vec::new();
        let ghost none = json::member_views(members@);
        push_event(&mut members, self);
        assert(json::member_views(members@) =~= event_members(self@));
        json::compact_text(&json::object_value(members))
    }
}

fn device_json(d: &LiveDeviceEvent) -> (r: Json)
    ensures
        r.value() == json::object(device_members((d.channel, d.name@, d.pinned))),
{
    let mut own: Vec<(String, Json)> = Vec::new();
    push_text(&mut own, "channel", word_of_channel(d.channel));
    push_text(&mut own, "name", d.name.as_str());
    json::push_member(&mut own, "pinned", Json::Bool(d.pinned));
    assert(json::member_views(own@) =~= device_members((d.channel, d.name@, d.pinned)));
    json::object_value(own)
}

fn devices_json(v: &Vec<LiveDeviceEvent>) -> (r: Json)
    ensures
        r.value() == JsonView::Array(device_values(event::devices(v@))),
{
    let ghost all = device_values(event::devices(v@));
    let mut items: Vec<Json> = Vec::new();
    let n: usize = v.len();
    let mut i: usize = 0;
    while i < n
        invariant
            n == v.len(),
            all == device_values(event::devices(v@)),
            i <= n,
            items.len() == i,
            forall|k: int| 0 <= k < i ==> (#[trigger] items@[k]).value() == all[k],
        decreases n - i,
    {
        items.push(device_json(&v[i]));
        i = i + 1;
    }
    let r = Json::Array(items);
    assert(r.value()->Array_0 =~= all);
    r
}

impl LiveEvent {
    pub fn jsonl(&self) -> (r: String)
        ensures
            r@ == json::compact(json::object(live_members(self@))),
    {
        let mut members: Vec<(String, Json)> = Vec::new();
        let ghost none = json::member_views(members@);
        assert(none =~= Seq::<(Seq<char>, JsonView)>::empty());
        match self {
            LiveEvent::Meta(m) => {
                push_text(&mut members, "type", "meta");
                push_text(&mut members, "backend", m.backend.as_str());
                push_text(&mut members, "src", m.src.as_str());
                push_text_if(&mut members, "dst", &m.dst);
                json::push_member(&mut members, "mic", Json::Bool(m.mic));
                json::push_member(&mut members, "speaker", Json::Bool(m.speaker));
                if m.devices.len() > 0 {
                    json::push_member(&mut members, "devices", devices_json(&m.devices));
                }
            },
            LiveEvent::Status(s) => {
                push_text(&mut members, "type", "status");
                push_text(&mut members, "phase", word_of_phase(s.phase));
                push_text(&mut members, "message", s.message.as_str());
                push_text_if(&mut members, "detail", &s.detail);
            },
            LiveEvent::Volatile(v) => {
                push_text(&mut members, "type", "volatile");
                push_text(&mut members, "channel", word_of_channel(v.channel));
                push_text(&mut members, "text", v.text.as_str());
            },
            LiveEvent::Finalized(e) => {
                push_text(&mut members, "type", "finalized");
                push_event(&mut members, e);
            },
            LiveEvent::Translated(t) => {
                push_text(&mut members, "type", "translated");
                json::push_member(&mut members, "seq", json::number_value(t.seq));
                push_text_if(&mut members, "lang", &t.lang);
                push_text(&mut members, "text", t.text.as_str());
            },
            LiveEvent::Eof => {
                push_text(&mut members, "type", "eof");
            },
        }
        assert(json::member_views(members@) =~= live_members(self@));
        json::compact_text(&json::object_value(members))
    }
}

/// A member that is there and not null.
pub open spec fn given(v: JsonView, key: Seq<char>) -> Option<JsonView> {
    match v.get(key) {
        Some(JsonView::Null) => None,
        other => other,
    }
}

pub(crate) fn read_given<'a>(v: &'a Json, key: &str) -> (r: Option<&'a Json>)
    ensures
        value_of(r) == given(v.value(), key@),
{
    match v.get(key) {
        Some(x) => match x {
            Json::Null => None,
            _ => Some(x),
        },
        None => None,
    }
}

/// A text that may be left out; nothing, where something else stands there.
pub open spec fn text_given(v: JsonView, key: Seq<char>) -> Option<Option<Seq<char>>> {
    match given(v, key) {
        None => Some(None),
        Some(JsonView::Text(t)) => Some(Some(t)),
        Some(_) => None,
    }
}

pub(crate) fn read_text_given(v: &Json, key: &str) -> (r: Option<Option<String>>)
    ensures
        match r {
            Some(t) => text_given(v.value(), key@) == Some(text::text_of(t)),
            None => text_given(v.value(), key@) is None,
        },
{
    match read_given(v, key) {
        None => Some(None),
        Some(x) => match x.as_str() {
            Some(t) => Some(Some(text::copy(t.as_str()))),
            None => None,
        },
    }
}

pub open spec fn count_in(v: JsonView, key: Seq<char>) -> Option<nat> {
    match v.get(key) {
        Some(JsonView::Number(n)) => text::number_in(n, u64::MAX as nat),
        _ => None,
    }
}

fn read_count(v: &Json, key: &str) -> (r: Option<u64>)
    ensures
        match count_in(v.value(), key@) {
            Some(n) => r is Some && r->0 == n,
            None => r is None,
        },
{
    match v.get(key) {
        Some(x) => match x.as_number() {
            Some(n) => text::parse_number(n.as_str(), u64::MAX),
            None => None,
        },
        None => None,
    }
}

pub open spec fn double_in(v: JsonView, key: Seq<char>) -> Option<Seq<char>> {
    match v.get(key) {
        Some(JsonView::Number(n)) => json::double_text(n),
        _ => None,
    }
}

fn read_double(v: &Json, key: &str) -> (r: Option<String>)
    ensures
        text::text_of(r) == double_in(v.value(), key@),
{
    match v.get(key) {
        Some(x) => match x.as_number() {
            Some(n) => json::show_double(n.as_str()),
            None => None,
        },
        None => None,
    }
}

/// Two numbers that may be left out; nothing, where something else stands there.
pub open spec fn pair_given(
    v: JsonView,
    key: Seq<char>,
    first: Seq<char>,
    second: Seq<char>,
) -> Option<Option<(Seq<char>, Seq<char>)>> {
    match given(v, key) {
        None => Some(None),
        Some(pair) => match (double_in(pair, first), double_in(pair, second)) {
            (Some(a), Some(b)) => Some(Some((a, b))),
            _ => None,
        },
    }
}

pub open spec fn pair_of(o: Option<(String, String)>) -> Option<(Seq<char>, Seq<char>)> {
    match o {
        Some(p) => Some((p.0@, p.1@)),
        None => None,
    }
}

pub(crate) fn read_pair_given(v: &Json, key: &str, first: &str, second: &str) -> (r: Option<
    Option<(String, String)>,
>)
    ensures
        match r {
            Some(p) => pair_given(v.value(), key@, first@, second@) == Some(pair_of(p)),
            None => pair_given(v.value(), key@, first@, second@) is None,
        },
{
    match read_given(v, key) {
        None => Some(None),
        Some(pair) => match (read_double(pair, first), read_double(pair, second)) {
            (Some(a), Some(b)) => Some(Some((a, b))),
            _ => None,
        },
    }
}

/// A translation that may be left out; nothing, where something else stands there.
pub open spec fn target_given(v: JsonView) -> Option<Option<(Seq<char>, Seq<char>)>> {
    match given(v, "dst"@) {
        None => Some(None),
        Some(t) => match (t.text_at("lang"@), t.text_at("text"@)) {
            (Some(lang), Some(said)) => Some(Some((lang, said))),
            _ => None,
        },
    }
}

fn read_target_given(v: &Json) -> (r: Option<Option<TranscriptTarget>>)
    ensures
        match r {
            Some(Some(t)) => target_given(v.value()) == Some(Some((t.lang@, t.text@))),
            Some(None) => target_given(v.value()) == Some(None::<(Seq<char>, Seq<char>)>),
            None => target_given(v.value()) is None,
        },
{
    match read_given(v, "dst") {
        None => Some(None),
        Some(t) => match (t.text_at("lang"), t.text_at("text")) {
            (Some(lang), Some(said)) => Some(Some(TranscriptTarget { lang, text: said })),
            _ => None,
        },
    }
}

/// The moment in a member: its nanoseconds since the epoch, and how it is written.
pub open spec fn moment_in(v: JsonView) -> Option<(i128, Seq<char>)> {
    match v.text_at("timestamp"@) {
        Some(t) => match event::read_timestamp(t) {
            Some(n) => Some((n, t)),
            None => None,
        },
        None => None,
    }
}

fn read_moment(v: &Json) -> (r: Option<EventTimestamp>)
    ensures
        match r {
            Some(t) => moment_in(v.value()) == Some((t.nanosecond, t.formatted@)),
            None => moment_in(v.value()) is None,
        },
{
    match v.text_at("timestamp") {
        Some(t) => EventTimestamp::parse(t.as_str()),
        None => None,
    }
}

/// What was said: the language, the words, and how sure the recogniser is.
pub open spec fn source_in(v: JsonView) -> Option<
    (Seq<char>, Seq<char>, Option<(Seq<char>, Seq<char>)>),
> {
    match v.get("src"@) {
        Some(s) => match (
            s.text_at("lang"@),
            s.text_at("text"@),
            pair_given(s, "confidence"@, "mean"@, "min"@),
        ) {
            (Some(lang), Some(said), Some(confidence)) => Some((lang, said, confidence)),
            _ => None,
        },
        None => None,
    }
}

fn read_source(v: &Json) -> (r: Option<TranscriptSource>)
    ensures
        match r {
            Some(s) => source_in(v.value()) == Some(
                (s.lang@, s.text@, event::confidence_of(s.confidence)),
            ),
            None => source_in(v.value()) is None,
        },
{
    match v.get("src") {
        Some(s) => match (
            s.text_at("lang"),
            s.text_at("text"),
            read_pair_given(s, "confidence", "mean", "min"),
        ) {
            (Some(lang), Some(said), Some(pair)) => Some(
                TranscriptSource {
                    lang,
                    text: said,
                    confidence: match pair {
                        Some((mean, min)) => Some(TranscriptConfidence { mean, min }),
                        None => None,
                    },
                },
            ),
            _ => None,
        },
        None => None,
    }
}

/// The utterance that a value stands for.
pub open spec fn event_in(v: JsonView) -> Option<EventView> {
    match (
        count_in(v, "seq"@),
        channel_in(v.get("channel"@)),
        moment_in(v),
        pair_given(v, "audio"@, "start"@, "end"@),
        source_in(v),
        target_given(v),
    ) {
        (
            Some(seq),
            Some(channel),
            Some((nanosecond, formatted)),
            Some(audio),
            Some((lang, text, confidence)),
            Some(translation),
        ) => Some(
            EventView {
                seq: seq as u64,
                channel,
                nanosecond,
                formatted,
                audio,
                lang,
                text,
                confidence,
                translation,
            },
        ),
        _ => None,
    }
}

pub open spec fn event_of(o: Option<TranscriptEvent>) -> Option<EventView> {
    match o {
        Some(e) => Some(e@),
        None => None,
    }
}

/// Reads an utterance.
pub fn read_event(v: &Json) -> (r: Option<TranscriptEvent>)
    ensures
        event_of(r) == event_in(v.value()),
{
    match (
        read_count(v, "seq"),
        read_channel(v.get("channel")),
        read_moment(v),
        read_pair_given(v, "audio", "start", "end"),
        read_source(v),
        read_target_given(v),
    ) {
        (Some(seq), Some(channel), Some(timestamp), Some(audio), Some(src), Some(dst)) => Some(
            TranscriptEvent {
                seq,
                channel,
                timestamp,
                audio: match audio {
                    Some((start, end)) => Some(AudioRange { start, end }),
                    None => None,
                },
                src,
                dst,
            },
        ),
        _ => None,
    }
}

pub open spec fn device_in(v: JsonView) -> Option<(AudioChannel, Seq<char>, bool)> {
    match (channel_in(v.get("channel"@)), v.text_at("name"@), v.truth_at("pinned"@)) {
        (Some(channel), Some(name), Some(pinned)) => Some((channel, name, pinned)),
        _ => None,
    }
}

/// The devices in a list, if each of them is one.
pub open spec fn devices_in(items: Seq<JsonView>) -> Option<Seq<(AudioChannel, Seq<char>, bool)>>
    decreases items.len(),
{
    if items.len() == 0 {
        Some(Seq::empty())
    } else {
        match (devices_in(items.drop_last()), device_in(items.last())) {
            (Some(before), Some(d)) => Some(before.push(d)),
            _ => None,
        }
    }
}

/// The devices that may be left out; nothing, where something else stands there.
pub open spec fn devices_given(v: JsonView) -> Option<Seq<(AudioChannel, Seq<char>, bool)>> {
    match v.get("devices"@) {
        None => Some(Seq::empty()),
        Some(JsonView::Array(items)) => devices_in(items),
        Some(_) => None,
    }
}

proof fn lemma_devices_stop(items: Seq<JsonView>, i: int)
    requires
        0 <= i <= items.len(),
        devices_in(items.take(i)) is None,
    ensures
        devices_in(items) is None,
    decreases items.len() - i,
{
    if i == items.len() {
        assert(items.take(i) =~= items);
    } else {
        assert(items.take(i + 1).drop_last() =~= items.take(i));
        lemma_devices_stop(items, i + 1);
    }
}

fn read_device(v: &Json) -> (r: Option<LiveDeviceEvent>)
    ensures
        match r {
            Some(d) => device_in(v.value()) == Some((d.channel, d.name@, d.pinned)),
            None => device_in(v.value()) is None,
        },
{
    match (read_channel(v.get("channel")), v.text_at("name"), v.bool_at("pinned")) {
        (Some(channel), Some(name), Some(pinned)) => Some(
            LiveDeviceEvent { channel, name, pinned },
        ),
        _ => None,
    }
}

fn read_devices(v: &Json) -> (r: Option<Vec<LiveDeviceEvent>>)
    ensures
        match r {
            Some(d) => devices_given(v.value()) == Some(event::devices(d@)),
            None => devices_given(v.value()) is None,
        },
{
    let list = match v.get("devices") {
        None => {
            let none: Vec<LiveDeviceEvent> = Vec::new();
            assert(event::devices(none@) =~= Seq::empty());
            return Some(none);
        },
        Some(list) => list,
    };
    match list {
        Json::Array(items) => {
            let ghost all = list.value()->Array_0;
            let n: usize = items.len();
            let mut found: Vec<LiveDeviceEvent> = Vec::new();
            let mut i: usize = 0;
            assert(event::devices(found@) =~= Seq::empty());
            assert(all.take(0) =~= Seq::empty());
            while i < n
                invariant
                    n == items.len(),
                    list == Json::Array(*items),
                    all == list.value()->Array_0,
                    all.len() == n,
                    devices_given(v.value()) == devices_in(all),
                    i <= n,
                    devices_in(all.take(i as int)) == Some(event::devices(found@)),
                decreases n - i,
            {
                let ghost more = all.take(i + 1);
                assert(more.drop_last() =~= all.take(i as int));
                assert(more.last() == items@[i as int].value());
                match read_device(&items[i]) {
                    Some(d) => {
                        let ghost before = event::devices(found@);
                        found.push(d);
                        assert(event::devices(found@) =~= before.push((d.channel, d.name@, d.pinned)));
                    },
                    None => {
                        proof {
                            lemma_devices_stop(all, i + 1);
                        }
                        return None;
                    },
                }
                i = i + 1;
            }
            assert(all.take(n as int) =~= all);
            Some(found)
        },
        _ => None,
    }
}

/// The live event that a value stands for.
pub open spec fn live_in(v: JsonView) -> Option<LiveEventView> {
    match v.text_at("type"@) {
        None => None,
        Some(kind) => if kind == "meta"@ {
            match (
                v.text_at("backend"@),
                v.text_at("src"@),
                text_given(v, "dst"@),
                v.truth_at("mic"@),
                v.truth_at("speaker"@),
                devices_given(v),
            ) {
                (
                    Some(backend),
                    Some(src),
                    Some(dst),
                    Some(mic),
                    Some(speaker),
                    Some(devices),
                ) => Some(LiveEventView::Meta { backend, src, dst, mic, speaker, devices }),
                _ => None,
            }
        } else if kind == "status"@ {
            match (phase_in(v.get("phase"@)), v.text_at("message"@), text_given(v, "detail"@)) {
                (Some(phase), Some(message), Some(detail)) => Some(
                    LiveEventView::Status { phase, message, detail },
                ),
                _ => None,
            }
        } else if kind == "volatile"@ {
            match (channel_in(v.get("channel"@)), v.text_at("text"@)) {
                (Some(channel), Some(text)) => Some(LiveEventView::Volatile { channel, text }),
                _ => None,
            }
        } else if kind == "finalized"@ {
            match event_in(v) {
                Some(e) => Some(LiveEventView::Finalized(e)),
                None => None,
            }
        } else if kind == "translated"@ {
            match (count_in(v, "seq"@), text_given(v, "lang"@), v.text_at("text"@)) {
                (Some(seq), Some(lang), Some(text)) => Some(
                    LiveEventView::Translated { seq: seq as u64, lang, text },
                ),
                _ => None,
            }
        } else if kind == "eof"@ {
            Some(LiveEventView::Eof)
        } else {
            None
        },
    }
}

pub open spec fn live_of(o: Option<LiveEvent>) -> Option<LiveEventView> {
    match o {
        Some(e) => Some(e@),
        None => None,
    }
}

/// Reads a live event.
pub fn read_live_event(v: &Json) -> (r: Option<LiveEvent>)
    ensures
        live_of(r) == live_in(v.value()),
{
    let kind = match v.text_at("type") {
        None => {
            return None;
        },
        Some(kind) => kind,
    };
    let kind = kind.as_str();
    if text::same(kind, "meta") {
        match (
            v.text_at("backend"),
            v.text_at("src"),
            read_text_given(v, "dst"),
            v.bool_at("mic"),
            v.bool_at("speaker"),
            read_devices(v),
        ) {
            (Some(backend), Some(src), Some(dst), Some(mic), Some(speaker), Some(devices)) => Some(
                LiveEvent::Meta(LiveMetaEvent { backend, src, dst, mic, speaker, devices }),
            ),
            _ => None,
        }
    } else if text::same(kind, "status") {
        match (read_phase(v.get("phase")), v.text_at("message"), read_text_given(v, "detail")) {
            (Some(phase), Some(message), Some(detail)) => Some(
                LiveEvent::Status(LiveStatusEvent { phase, message, detail }),
            ),
            _ => None,
        }
    } else if text::same(kind, "volatile") {
        match (read_channel(v.get("channel")), v.text_at("text")) {
            (Some(channel), Some(said)) => Some(
                LiveEvent::Volatile(LiveVolatileEvent { channel, text: said }),
            ),
            _ => None,
        }
    } else if text::same(kind, "finalized") {
        match read_event(v) {
            Some(e) => Some(LiveEvent::Finalized(e)),
            None => None,
        }
    } else if text::same(kind, "translated") {
        match (read_count(v, "seq"), read_text_given(v, "lang"), v.text_at("text")) {
            (Some(seq), Some(lang), Some(said)) => Some(
                LiveEvent::Translated(LiveTranslatedEvent { seq, lang, text: said }),
            ),
            _ => None,
        }
    } else if text::same(kind, "eof") {
        Some(LiveEvent::Eof)
    } else {
        None
    }
}

/// The event on a line of a provider: a live event, or an utterance by itself.
pub open spec fn line_event(v: JsonView) -> Option<LiveEventView> {
    match live_in(v) {
        Some(e) => Some(e),
        None => match event_in(v) {
            Some(e) => Some(LiveEventView::Finalized(e)),
            None => None,
        },
    }
}

/// Reads the event on a line that was parsed.
pub fn read_line_event(v: &Json) -> (r: Option<LiveEvent>)
    ensures
        live_of(r) == line_event(v.value()),
{
    if let Some(e) = read_live_event(v) {
        return Some(e);
    }
    match read_event(v) {
        Some(e) => Some(LiveEvent::Finalized(e)),
        None => None,
    }
}

/// What a line says, or what is wrong with it.
pub open spec fn line_result(line: Seq<char>) -> Result<LiveEventView, Seq<char>> {
    match json::parsed(line) {
        Err(e) => Err(e),
        Ok(v) => match line_event(v) {
            Some(e) => Ok(e),
            None => Err("not an event"@),
        },
    }
}

pub open spec fn event_result(r: Result<LiveEvent, String>) -> Result<LiveEventView, Seq<char>> {
    match r {
        Ok(e) => Ok(e@),
        Err(e) => Err(e@),
    }
}

/// An event whose moment and whose numbers read as they are written.
pub open spec fn plain(e: LiveEventView) -> bool {
    e matches LiveEventView::Finalized(u) ==> plain_event(u)
}

/// Reads the event on a line. A line that was written for an event gives the event back.
pub fn read_line(line: &str) -> (r: Result<LiveEvent, String>)
    ensures
        event_result(r) == line_result(line@),
        forall|e: LiveEventView|
            plain(e) && line@ == json::compact(json::object(#[trigger] live_members(e)))
                ==> event_result(r) == Ok::<LiveEventView, Seq<char>>(e),
        forall|e: EventView|
            plain_event(e) && line@ == json::compact(json::object(#[trigger] event_members(e)))
                ==> event_result(r) == Ok::<LiveEventView, Seq<char>>(LiveEventView::Finalized(e)),
{
    let value = json::parse(line);
    proof {
        assert forall|e: LiveEventView|
            plain(e) && line@ == json::compact(
                json::object(#[trigger] live_members(e)),
            ) implies line_result(line@) == Ok::<LiveEventView, Seq<char>>(e) by {
            lemma_live_kept(e);
            law_live_event_reads_back(e);
            lemma_alike_line(value->Ok_0.value(), json::object(live_members(e)));
        }
        assert forall|e: EventView|
            plain_event(e) && line@ == json::compact(
                json::object(#[trigger] event_members(e)),
            ) implies line_result(line@) == Ok::<LiveEventView, Seq<char>>(
            LiveEventView::Finalized(e),
        ) by {
            lemma_event_kept(e, json::DEPTH as nat);
            law_bare_utterance_is_final(e);
            lemma_alike_line(value->Ok_0.value(), json::object(event_members(e)));
        }
    }
    match value {
        Err(e) => Err(e),
        Ok(v) => match read_line_event(&v) {
            Some(e) => Ok(e),
            None => Err(text::copy("not an event")),
        },
    }
}

proof fn lemma_alike_pair(
    a: JsonView,
    b: JsonView,
    key: Seq<char>,
    first: Seq<char>,
    second: Seq<char>,
)
    requires
        json::alike(a, b),
    ensures
        pair_given(a, key, first, second) == pair_given(b, key, first, second),
{
    json::lemma_alike_get(a, b, key);
    if let (Some(x), Some(y)) = (a.get(key), b.get(key)) {
        json::lemma_alike_get(x, y, first);
        json::lemma_alike_get(x, y, second);
    }
}

/// Values that are alike stand for the same utterance.
proof fn lemma_alike_event(a: JsonView, b: JsonView)
    requires
        json::alike(a, b),
    ensures
        event_in(a) == event_in(b),
{
    json::lemma_alike_get(a, b, "seq"@);
    json::lemma_alike_get(a, b, "channel"@);
    json::lemma_alike_get(a, b, "timestamp"@);
    lemma_alike_pair(a, b, "audio"@, "start"@, "end"@);
    json::lemma_alike_get(a, b, "src"@);
    if let (Some(x), Some(y)) = (a.get("src"@), b.get("src"@)) {
        json::lemma_alike_get(x, y, "lang"@);
        json::lemma_alike_get(x, y, "text"@);
        lemma_alike_pair(x, y, "confidence"@, "mean"@, "min"@);
    }
    json::lemma_alike_get(a, b, "dst"@);
    if let (Some(x), Some(y)) = (a.get("dst"@), b.get("dst"@)) {
        json::lemma_alike_get(x, y, "lang"@);
        json::lemma_alike_get(x, y, "text"@);
    }
}

proof fn lemma_alike_devices(a: Seq<JsonView>, b: Seq<JsonView>)
    requires
        a.len() == b.len(),
        forall|i: int| 0 <= i < b.len() ==> json::alike(a[i], #[trigger] b[i]),
    ensures
        devices_in(a) == devices_in(b),
    decreases b.len(),
{
    if b.len() > 0 {
        assert forall|i: int| 0 <= i < b.drop_last().len() implies json::alike(
            a.drop_last()[i],
            #[trigger] b.drop_last()[i],
        ) by {
            assert(b.drop_last()[i] == b[i]);
        }
        lemma_alike_devices(a.drop_last(), b.drop_last());
        assert(b.last() == b[b.len() - 1]);
        json::lemma_alike_get(a.last(), b.last(), "channel"@);
        json::lemma_alike_get(a.last(), b.last(), "name"@);
        json::lemma_alike_get(a.last(), b.last(), "pinned"@);
    }
}

/// What stands for itself in a member is the same in values that are alike.
proof fn lemma_alike_member(a: JsonView, b: JsonView, key: Seq<char>)
    requires
        json::alike(a, b),
    ensures
        a.text_at(key) == b.text_at(key),
        a.truth_at(key) == b.truth_at(key),
        text_given(a, key) == text_given(b, key),
        count_in(a, key) == count_in(b, key),
        channel_in(a.get(key)) == channel_in(b.get(key)),
        phase_in(a.get(key)) == phase_in(b.get(key)),
{
    json::lemma_alike_get(a, b, key);
}

proof fn lemma_alike_given(a: JsonView, b: JsonView)
    requires
        json::alike(a, b),
    ensures
        devices_given(a) == devices_given(b),
{
    json::lemma_alike_get(a, b, "devices"@);
    if let (Some(JsonView::Array(x)), Some(JsonView::Array(y))) = (
        a.get("devices"@),
        b.get("devices"@),
    ) {
        lemma_alike_devices(x, y);
    }
}

/// Values that are alike stand for the same event.
proof fn lemma_alike_line(a: JsonView, b: JsonView)
    requires
        json::alike(a, b),
    ensures
        line_event(a) == line_event(b),
{
    lemma_alike_event(a, b);
    lemma_alike_given(a, b);
    lemma_alike_member(a, b, "type"@);
    lemma_alike_member(a, b, "backend"@);
    lemma_alike_member(a, b, "src"@);
    lemma_alike_member(a, b, "dst"@);
    lemma_alike_member(a, b, "mic"@);
    lemma_alike_member(a, b, "speaker"@);
    lemma_alike_member(a, b, "phase"@);
    lemma_alike_member(a, b, "message"@);
    lemma_alike_member(a, b, "detail"@);
    lemma_alike_member(a, b, "channel"@);
    lemma_alike_member(a, b, "text"@);
    lemma_alike_member(a, b, "seq"@);
    lemma_alike_member(a, b, "lang"@);
}

/// The names that the objects of events begin with are not reserved.
proof fn lemma_first_names()
    ensures
        !json::reserved("mean"@),
        !json::reserved("start"@),
        !json::reserved("lang"@),
        !json::reserved("seq"@),
        !json::reserved("channel"@),
        !json::reserved("type"@),
{
    reveal_strlit("mean");
    json::lemma_short_name("mean"@);
    reveal_strlit("start");
    json::lemma_short_name("start"@);
    reveal_strlit("lang");
    json::lemma_short_name("lang"@);
    reveal_strlit("seq");
    json::lemma_short_name("seq"@);
    reveal_strlit("channel");
    json::lemma_short_name("channel"@);
    reveal_strlit("type");
    json::lemma_short_name("type"@);
}

proof fn lemma_pair_kept(first: Seq<char>, second: Seq<char>, p: (Seq<char>, Seq<char>), depth: nat)
    requires
        first != second,
        !json::reserved(first),
        plain_pair(Some(p)),
        depth > 0,
    ensures
        json::kept(pair_value(first, second, p), depth),
{
    reveal_with_fuel(json::kept, 2);
}

proof fn lemma_source_kept(e: EventView, depth: nat)
    requires
        plain_event(e),
        depth > 1,
    ensures
        json::kept(json::object(source_members(e)), depth),
{
    lemma_source_keys();
    lemma_confidence_keys();
    lemma_first_names();
    reveal_with_fuel(json::kept, 2);
    if let Some(c) = e.confidence {
        lemma_pair_kept("mean"@, "min"@, c, (depth - 1) as nat);
    }
}

/// The text of an utterance holds it whole.
proof fn lemma_event_kept(e: EventView, depth: nat)
    requires
        plain_event(e),
        depth > 2,
    ensures
        json::kept(json::object(event_members(e)), depth),
        forall|i: int|
            0 <= i < event_members(e).len() ==> (#[trigger] event_members(e)[i]).0 != "type"@,
{
    lemma_event_keys();
    lemma_source_keys();
    lemma_audio_keys();
    lemma_first_names();
    reveal_with_fuel(json::kept, 2);
    lemma_source_kept(e, (depth - 1) as nat);
    if let Some(r) = e.audio {
        lemma_pair_kept("start"@, "end"@, r, (depth - 1) as nat);
    }
    if let Some(t) = e.translation {
        assert(json::kept(target_value(t), (depth - 1) as nat));
    }
}

/// The text of an event holds it whole.
proof fn lemma_live_kept(e: LiveEventView)
    requires
        plain(e),
    ensures
        json::kept(json::object(live_members(e)), json::DEPTH as nat),
{
    let depth = json::DEPTH as nat;
    lemma_first_names();
    reveal_with_fuel(json::kept, 2);
    match e {
        LiveEventView::Meta { devices, .. } => {
            lemma_meta_keys();
            lemma_device_keys();
            let items = device_values(devices);
            assert forall|i: int| 0 <= i < items.len() implies json::kept(
                #[trigger] items[i],
                (depth - 2) as nat,
            ) by {
                assert(items[i] == json::object(device_members(devices[i])));
            }
            assert(json::kept(JsonView::Array(items), (depth - 1) as nat));
        },
        LiveEventView::Status { .. } => lemma_status_keys(),
        LiveEventView::Volatile { .. } => lemma_volatile_keys(),
        LiveEventView::Finalized(u) => lemma_event_kept(u, depth),
        LiveEventView::Translated { .. } => lemma_translated_keys(),
        LiveEventView::Eof => {},
    }
}

proof fn lemma_event_keys()
    ensures
        "type"@ != "seq"@,
        "type"@ != "channel"@,
        "seq"@ != "channel"@,
        "type"@ != "timestamp"@,
        "seq"@ != "timestamp"@,
        "channel"@ != "timestamp"@,
        "type"@ != "audio"@,
        "seq"@ != "audio"@,
        "channel"@ != "audio"@,
        "timestamp"@ != "audio"@,
        "type"@ != "src"@,
        "seq"@ != "src"@,
        "channel"@ != "src"@,
        "timestamp"@ != "src"@,
        "audio"@ != "src"@,
        "type"@ != "dst"@,
        "seq"@ != "dst"@,
        "channel"@ != "dst"@,
        "timestamp"@ != "dst"@,
        "audio"@ != "dst"@,
        "src"@ != "dst"@,
{
    reveal_strlit("type");
    assert("type"@.len() == 4);
    reveal_strlit("seq");
    assert("seq"@.len() == 3);
    reveal_strlit("channel");
    assert("channel"@.len() == 7);
    reveal_strlit("timestamp");
    assert("timestamp"@.len() == 9);
    reveal_strlit("audio");
    assert("audio"@.len() == 5);
    reveal_strlit("src");
    assert("src"@.len() == 3);
    reveal_strlit("dst");
    assert("dst"@.len() == 3);
    assert("seq"@[1] != "src"@[1]);
    assert("seq"@[0] != "dst"@[0]);
    assert("src"@[0] != "dst"@[0]);
}

proof fn lemma_source_keys()
    ensures
        "lang"@ != "text"@,
        "lang"@ != "confidence"@,
        "text"@ != "confidence"@,
{
    reveal_strlit("lang");
    assert("lang"@.len() == 4);
    reveal_strlit("text");
    assert("text"@.len() == 4);
    reveal_strlit("confidence");
    assert("confidence"@.len() == 10);
    assert("lang"@[0] != "text"@[0]);
}

proof fn lemma_confidence_keys()
    ensures
        "mean"@ != "min"@,
{
    reveal_strlit("mean");
    assert("mean"@.len() == 4);
    reveal_strlit("min");
    assert("min"@.len() == 3);
}

proof fn lemma_audio_keys()
    ensures
        "start"@ != "end"@,
{
    reveal_strlit("start");
    assert("start"@.len() == 5);
    reveal_strlit("end");
    assert("end"@.len() == 3);
}

proof fn lemma_meta_keys()
    ensures
        "type"@ != "backend"@,
        "type"@ != "src"@,
        "backend"@ != "src"@,
        "type"@ != "dst"@,
        "backend"@ != "dst"@,
        "src"@ != "dst"@,
        "type"@ != "mic"@,
        "backend"@ != "mic"@,
        "src"@ != "mic"@,
        "dst"@ != "mic"@,
        "type"@ != "speaker"@,
        "backend"@ != "speaker"@,
        "src"@ != "speaker"@,
        "dst"@ != "speaker"@,
        "mic"@ != "speaker"@,
        "type"@ != "devices"@,
        "backend"@ != "devices"@,
        "src"@ != "devices"@,
        "dst"@ != "devices"@,
        "mic"@ != "devices"@,
        "speaker"@ != "devices"@,
{
    reveal_strlit("type");
    assert("type"@.len() == 4);
    reveal_strlit("backend");
    assert("backend"@.len() == 7);
    reveal_strlit("src");
    assert("src"@.len() == 3);
    reveal_strlit("dst");
    assert("dst"@.len() == 3);
    reveal_strlit("mic");
    assert("mic"@.len() == 3);
    reveal_strlit("speaker");
    assert("speaker"@.len() == 7);
    reveal_strlit("devices");
    assert("devices"@.len() == 7);
    assert("src"@[0] != "dst"@[0]);
    assert("src"@[0] != "mic"@[0]);
    assert("dst"@[0] != "mic"@[0]);
    assert("backend"@[0] != "speaker"@[0]);
    assert("backend"@[0] != "devices"@[0]);
    assert("speaker"@[0] != "devices"@[0]);
}

proof fn lemma_device_keys()
    ensures
        "channel"@ != "name"@,
        "channel"@ != "pinned"@,
        "name"@ != "pinned"@,
{
    reveal_strlit("channel");
    assert("channel"@.len() == 7);
    reveal_strlit("name");
    assert("name"@.len() == 4);
    reveal_strlit("pinned");
    assert("pinned"@.len() == 6);
}

proof fn lemma_status_keys()
    ensures
        "type"@ != "phase"@,
        "type"@ != "message"@,
        "phase"@ != "message"@,
        "type"@ != "detail"@,
        "phase"@ != "detail"@,
        "message"@ != "detail"@,
{
    reveal_strlit("type");
    assert("type"@.len() == 4);
    reveal_strlit("phase");
    assert("phase"@.len() == 5);
    reveal_strlit("message");
    assert("message"@.len() == 7);
    reveal_strlit("detail");
    assert("detail"@.len() == 6);
}

proof fn lemma_volatile_keys()
    ensures
        "type"@ != "channel"@,
        "type"@ != "text"@,
        "channel"@ != "text"@,
{
    reveal_strlit("type");
    assert("type"@.len() == 4);
    reveal_strlit("channel");
    assert("channel"@.len() == 7);
    reveal_strlit("text");
    assert("text"@.len() == 4);
    assert("type"@[1] != "text"@[1]);
}

proof fn lemma_translated_keys()
    ensures
        "type"@ != "seq"@,
        "type"@ != "lang"@,
        "seq"@ != "lang"@,
        "type"@ != "text"@,
        "seq"@ != "text"@,
        "lang"@ != "text"@,
{
    reveal_strlit("type");
    assert("type"@.len() == 4);
    reveal_strlit("seq");
    assert("seq"@.len() == 3);
    reveal_strlit("lang");
    assert("lang"@.len() == 4);
    reveal_strlit("text");
    assert("text"@.len() == 4);
    assert("type"@[0] != "lang"@[0]);
    assert("type"@[1] != "text"@[1]);
    assert("lang"@[0] != "text"@[0]);
}

proof fn lemma_kinds()
    ensures
        "meta"@ != "status"@,
        "meta"@ != "volatile"@,
        "status"@ != "volatile"@,
        "meta"@ != "finalized"@,
        "status"@ != "finalized"@,
        "volatile"@ != "finalized"@,
        "meta"@ != "translated"@,
        "status"@ != "translated"@,
        "volatile"@ != "translated"@,
        "finalized"@ != "translated"@,
        "meta"@ != "eof"@,
        "status"@ != "eof"@,
        "volatile"@ != "eof"@,
        "finalized"@ != "eof"@,
        "translated"@ != "eof"@,
{
    reveal_strlit("meta");
    assert("meta"@.len() == 4);
    reveal_strlit("status");
    assert("status"@.len() == 6);
    reveal_strlit("volatile");
    assert("volatile"@.len() == 8);
    reveal_strlit("finalized");
    assert("finalized"@.len() == 9);
    reveal_strlit("translated");
    assert("translated"@.len() == 10);
    reveal_strlit("eof");
    assert("eof"@.len() == 3);
}

proof fn lemma_channels()
    ensures
        "mic"@ != "speaker"@,
        "mic"@ != "file"@,
        "speaker"@ != "file"@,
{
    reveal_strlit("mic");
    assert("mic"@.len() == 3);
    reveal_strlit("speaker");
    assert("speaker"@.len() == 7);
    reveal_strlit("file");
    assert("file"@.len() == 4);
}

proof fn lemma_phases()
    ensures
        "recording"@ != "transcribing"@,
        "recording"@ != "recovering"@,
        "transcribing"@ != "recovering"@,
{
    reveal_strlit("recording");
    assert("recording"@.len() == 9);
    reveal_strlit("transcribing");
    assert("transcribing"@.len() == 12);
    reveal_strlit("recovering");
    assert("recovering"@.len() == 10);
}

proof fn lemma_one_member(key: Seq<char>, v: Option<JsonView>, asked: Seq<char>)
    ensures
        json::member(member_if(key, v), asked) == if key == asked {
            v
        } else {
            None
        },
{
    reveal_with_fuel(json::member, 2);
}

proof fn lemma_three_members(
    a: (Seq<char>, JsonView),
    b: (Seq<char>, JsonView),
    c: (Seq<char>, JsonView),
    asked: Seq<char>,
)
    ensures
        json::member(seq![a, b, c], asked) == if a.0 == asked {
            Some(a.1)
        } else if b.0 == asked {
            Some(b.1)
        } else if c.0 == asked {
            Some(c.1)
        } else {
            None
        },
{
    reveal_with_fuel(json::member, 4);
}

proof fn lemma_two_members(a: (Seq<char>, JsonView), b: (Seq<char>, JsonView), asked: Seq<char>)
    ensures
        json::member(seq![a, b], asked) == if a.0 == asked {
            Some(a.1)
        } else if b.0 == asked {
            Some(b.1)
        } else {
            None
        },
{
    reveal_with_fuel(json::member, 3);
}

proof fn lemma_single_member(a: (Seq<char>, JsonView), asked: Seq<char>)
    ensures
        json::member(seq![a], asked) == if a.0 == asked {
            Some(a.1)
        } else {
            None
        },
{
    reveal_with_fuel(json::member, 2);
}

/// A pair of numbers that stand for themselves when they are read.
pub open spec fn plain_pair(o: Option<(Seq<char>, Seq<char>)>) -> bool {
    match o {
        Some(p) => json::double_text(p.0) == Some(p.0) && json::double_text(p.1) == Some(p.1),
        None => true,
    }
}

/// An utterance whose moment and whose numbers read as they are written.
pub open spec fn plain_event(e: EventView) -> bool {
    event::read_timestamp(e.formatted) == Some(e.nanosecond) && plain_pair(e.audio) && plain_pair(
        e.confidence,
    )
}

proof fn lemma_pair_reads_back(
    first: Seq<char>,
    second: Seq<char>,
    p: (Seq<char>, Seq<char>),
)
    requires
        first != second,
        plain_pair(Some(p)),
    ensures
        double_in(pair_value(first, second, p), first) == Some(p.0),
        double_in(pair_value(first, second, p), second) == Some(p.1),
{
    let a = (first, JsonView::Number(p.0));
    let b = (second, JsonView::Number(p.1));
    lemma_two_members(a, b, first);
    lemma_two_members(a, b, second);
}

proof fn lemma_channel_reads_back(channel: AudioChannel)
    ensures
        channel_in(Some(JsonView::Text(channel_word(channel)))) == Some(channel),
{
    lemma_channels();
}

proof fn lemma_source_reads_back(e: EventView)
    requires
        plain_event(e),
    ensures
        json::object(source_members(e)).text_at("lang"@) == Some(e.lang),
        json::object(source_members(e)).text_at("text"@) == Some(e.text),
        pair_given(json::object(source_members(e)), "confidence"@, "mean"@, "min"@) == Some(
            e.confidence,
        ),
{
    lemma_source_keys();
    lemma_confidence_keys();
    let a = ("lang"@, JsonView::Text(e.lang));
    let b = ("text"@, JsonView::Text(e.text));
    let v = match e.confidence {
        Some(c) => Some(pair_value("mean"@, "min"@, c)),
        None => None,
    };
    let tail = member_if("confidence"@, v);
    json::lemma_member_join(seq![a, b], tail, "lang"@);
    json::lemma_member_join(seq![a, b], tail, "text"@);
    json::lemma_member_join(seq![a, b], tail, "confidence"@);
    lemma_two_members(a, b, "lang"@);
    lemma_two_members(a, b, "text"@);
    lemma_two_members(a, b, "confidence"@);
    lemma_one_member("confidence"@, v, "confidence"@);
    if let Some(c) = e.confidence {
        lemma_pair_reads_back("mean"@, "min"@, c);
    }
}

proof fn lemma_target_reads_back(t: (Seq<char>, Seq<char>))
    ensures
        target_value(t).text_at("lang"@) == Some(t.0),
        target_value(t).text_at("text"@) == Some(t.1),
{
    lemma_source_keys();
    let a = ("lang"@, JsonView::Text(t.0));
    let b = ("text"@, JsonView::Text(t.1));
    lemma_two_members(a, b, "lang"@);
    lemma_two_members(a, b, "text"@);
}

proof fn lemma_event_member(e: EventView, asked: Seq<char>)
    ensures
        json::member(event_members(e), asked) == if asked == "seq"@ {
            Some(JsonView::Number(text::decimal(e.seq as nat)))
        } else if asked == "channel"@ {
            Some(JsonView::Text(channel_word(e.channel)))
        } else if asked == "timestamp"@ {
            Some(JsonView::Text(e.formatted))
        } else if asked == "audio"@ {
            match e.audio {
                Some(r) => Some(pair_value("start"@, "end"@, r)),
                None => None,
            }
        } else if asked == "src"@ {
            Some(json::object(source_members(e)))
        } else if asked == "dst"@ {
            match e.translation {
                Some(t) => Some(target_value(t)),
                None => None,
            }
        } else {
            None
        },
{
    lemma_event_keys();
    let a = ("seq"@, JsonView::Number(text::decimal(e.seq as nat)));
    let b = ("channel"@, JsonView::Text(channel_word(e.channel)));
    let c = ("timestamp"@, JsonView::Text(e.formatted));
    let audio = match e.audio {
        Some(r) => Some(pair_value("start"@, "end"@, r)),
        None => None,
    };
    let src = ("src"@, json::object(source_members(e)));
    let dst = match e.translation {
        Some(t) => Some(target_value(t)),
        None => None,
    };
    let head = seq![a, b, c];
    json::lemma_member_join(head + member_if("audio"@, audio) + seq![src], member_if("dst"@, dst), asked);
    json::lemma_member_join(head + member_if("audio"@, audio), seq![src], asked);
    json::lemma_member_join(head, member_if("audio"@, audio), asked);
    lemma_three_members(a, b, c, asked);
    lemma_one_member("audio"@, audio, asked);
    lemma_one_member("dst"@, dst, asked);
    lemma_single_member(src, asked);
}

/// An object in which the members of an utterance are found holds that utterance.
proof fn lemma_event_in(v: JsonView, e: EventView)
    requires
        plain_event(e),
        v.get("seq"@) == json::member(event_members(e), "seq"@),
        v.get("channel"@) == json::member(event_members(e), "channel"@),
        v.get("timestamp"@) == json::member(event_members(e), "timestamp"@),
        v.get("audio"@) == json::member(event_members(e), "audio"@),
        v.get("src"@) == json::member(event_members(e), "src"@),
        v.get("dst"@) == json::member(event_members(e), "dst"@),
    ensures
        event_in(v) == Some(e),
{
    lemma_event_keys();
    lemma_event_member(e, "seq"@);
    lemma_event_member(e, "channel"@);
    lemma_event_member(e, "timestamp"@);
    lemma_event_member(e, "audio"@);
    lemma_event_member(e, "src"@);
    lemma_event_member(e, "dst"@);
    text::law_decimal_reads_back(e.seq as nat, u64::MAX as nat);
    lemma_channel_reads_back(e.channel);
    lemma_audio_keys();
    if let Some(r) = e.audio {
        lemma_pair_reads_back("start"@, "end"@, r);
    }
    lemma_source_reads_back(e);
    if let Some(t) = e.translation {
        lemma_target_reads_back(t);
    }
}

/// An utterance is read back from the object that stands for it.
pub proof fn law_event_reads_back(e: EventView)
    requires
        plain_event(e),
    ensures
        event_in(json::object(event_members(e))) == Some(e),
{
    lemma_event_in(json::object(event_members(e)), e);
}

proof fn lemma_devices_read_back(devices: Seq<(AudioChannel, Seq<char>, bool)>)
    ensures
        devices_in(device_values(devices)) == Some(devices),
    decreases devices.len(),
{
    let items = device_values(devices);
    if devices.len() == 0 {
        assert(devices =~= Seq::empty());
    } else {
        let d = devices.last();
        assert(items.drop_last() =~= device_values(devices.drop_last()));
        lemma_devices_read_back(devices.drop_last());
        lemma_device_keys();
        let a = ("channel"@, JsonView::Text(channel_word(d.0)));
        let b = ("name"@, JsonView::Text(d.1));
        let c = ("pinned"@, JsonView::Bool(d.2));
        lemma_three_members(a, b, c, "channel"@);
        lemma_three_members(a, b, c, "name"@);
        lemma_three_members(a, b, c, "pinned"@);
        lemma_channel_reads_back(d.0);
        assert(items.last() == json::object(device_members(d)));
        assert(device_in(items.last()) == Some(d));
        assert(devices.drop_last().push(d) =~= devices);
    }
}

proof fn lemma_meta_reads_back(e: LiveEventView)
    requires
        e is Meta,
    ensures
        live_in(json::object(live_members(e))) == Some(e),
{
    lemma_meta_keys();
    if let LiveEventView::Meta { backend, src, dst, mic, speaker, devices } = e {
        let a = ("type"@, JsonView::Text("meta"@));
        let b = ("backend"@, JsonView::Text(backend));
        let c = ("src"@, JsonView::Text(src));
        let d = ("mic"@, JsonView::Bool(mic));
        let f = ("speaker"@, JsonView::Bool(speaker));
        let head = seq![a, b, c];
        let target = member_if("dst"@, text_json(dst));
        let middle = seq![d, f];
        let list = if devices.len() == 0 {
            None
        } else {
            Some(JsonView::Array(device_values(devices)))
        };
        let tail = member_if("devices"@, list);
        assert forall|asked: Seq<char>| #[trigger]
            json::member(live_members(e), asked) == if asked == "type"@ {
                Some(a.1)
            } else if asked == "backend"@ {
                Some(b.1)
            } else if asked == "src"@ {
                Some(c.1)
            } else if asked == "dst"@ {
                text_json(dst)
            } else if asked == "mic"@ {
                Some(d.1)
            } else if asked == "speaker"@ {
                Some(f.1)
            } else if asked == "devices"@ {
                list
            } else {
                None
            } by {
            json::lemma_member_join(head + target + middle, tail, asked);
            json::lemma_member_join(head + target, middle, asked);
            json::lemma_member_join(head, target, asked);
            lemma_three_members(a, b, c, asked);
            lemma_one_member("dst"@, text_json(dst), asked);
            lemma_two_members(d, f, asked);
            lemma_one_member("devices"@, list, asked);
        }
        lemma_devices_read_back(devices);
        if devices.len() == 0 {
            assert(devices =~= Seq::empty());
        }
        let v = json::object(live_members(e));
        assert(v.get("type"@) == Some(a.1));
        assert(v.get("backend"@) == Some(b.1));
        assert(v.get("src"@) == Some(c.1));
        assert(v.get("dst"@) == text_json(dst));
        assert(v.get("mic"@) == Some(d.1));
        assert(v.get("speaker"@) == Some(f.1));
        assert(v.get("devices"@) == list);
    }
}

proof fn lemma_status_reads_back(e: LiveEventView)
    requires
        e is Status,
    ensures
        live_in(json::object(live_members(e))) == Some(e),
{
    lemma_status_keys();
    lemma_kinds();
    lemma_phases();
    if let LiveEventView::Status { phase, message, detail } = e {
        let a = ("type"@, JsonView::Text("status"@));
        let b = ("phase"@, JsonView::Text(phase_word(phase)));
        let c = ("message"@, JsonView::Text(message));
        let head = seq![a, b, c];
        let tail = member_if("detail"@, text_json(detail));
        json::lemma_member_join(head, tail, "type"@);
        json::lemma_member_join(head, tail, "phase"@);
        json::lemma_member_join(head, tail, "message"@);
        json::lemma_member_join(head, tail, "detail"@);
        lemma_three_members(a, b, c, "type"@);
        lemma_three_members(a, b, c, "phase"@);
        lemma_three_members(a, b, c, "message"@);
        lemma_three_members(a, b, c, "detail"@);
        lemma_one_member("detail"@, text_json(detail), "detail"@);
    }
}

proof fn lemma_volatile_reads_back(e: LiveEventView)
    requires
        e is Volatile,
    ensures
        live_in(json::object(live_members(e))) == Some(e),
{
    lemma_volatile_keys();
    lemma_kinds();
    if let LiveEventView::Volatile { channel, text } = e {
        let a = ("type"@, JsonView::Text("volatile"@));
        let b = ("channel"@, JsonView::Text(channel_word(channel)));
        let c = ("text"@, JsonView::Text(text));
        lemma_three_members(a, b, c, "type"@);
        lemma_three_members(a, b, c, "channel"@);
        lemma_three_members(a, b, c, "text"@);
        lemma_channel_reads_back(channel);
    }
}

proof fn lemma_translated_reads_back(e: LiveEventView)
    requires
        e is Translated,
    ensures
        live_in(json::object(live_members(e))) == Some(e),
{
    lemma_translated_keys();
    lemma_kinds();
    if let LiveEventView::Translated { seq, lang, text } = e {
        let a = ("type"@, JsonView::Text("translated"@));
        let b = ("seq"@, JsonView::Number(text::decimal(seq as nat)));
        let c = ("text"@, JsonView::Text(text));
        let head = seq![a, b];
        let middle = member_if("lang"@, text_json(lang));
        let tail = seq![c];
        assert forall|asked: Seq<char>| #[trigger]
            json::member(live_members(e), asked) == if asked == "type"@ {
                Some(a.1)
            } else if asked == "seq"@ {
                Some(b.1)
            } else if asked == "lang"@ {
                text_json(lang)
            } else if asked == "text"@ {
                Some(c.1)
            } else {
                None
            } by {
            json::lemma_member_join(head + middle, tail, asked);
            json::lemma_member_join(head, middle, asked);
            lemma_two_members(a, b, asked);
            lemma_one_member("lang"@, text_json(lang), asked);
            lemma_single_member(c, asked);
        }
        text::law_decimal_reads_back(seq as nat, u64::MAX as nat);
        let v = json::object(live_members(e));
        assert(v.get("type"@) == Some(a.1));
        assert(v.get("seq"@) == Some(b.1));
        assert(v.get("lang"@) == text_json(lang));
        assert(v.get("text"@) == Some(c.1));
    }
}

proof fn lemma_finalized_reads_back(e: EventView)
    requires
        plain_event(e),
    ensures
        live_in(json::object(live_members(LiveEventView::Finalized(e)))) == Some(
            LiveEventView::Finalized(e),
        ),
{
    lemma_event_keys();
    lemma_kinds();
    let a = ("type"@, JsonView::Text("finalized"@));
    let v = json::object(live_members(LiveEventView::Finalized(e)));
    assert forall|asked: Seq<char>| #[trigger]
        json::member(live_members(LiveEventView::Finalized(e)), asked) == if asked == "type"@ {
            Some(a.1)
        } else {
            json::member(event_members(e), asked)
        } by {
        json::lemma_member_join(seq![a], event_members(e), asked);
        lemma_single_member(a, asked);
    }
    assert(v.get("type"@) == Some(a.1));
    assert(v.get("seq"@) == json::member(event_members(e), "seq"@));
    assert(v.get("channel"@) == json::member(event_members(e), "channel"@));
    assert(v.get("timestamp"@) == json::member(event_members(e), "timestamp"@));
    assert(v.get("audio"@) == json::member(event_members(e), "audio"@));
    assert(v.get("src"@) == json::member(event_members(e), "src"@));
    assert(v.get("dst"@) == json::member(event_members(e), "dst"@));
    lemma_event_in(v, e);
}

/// A live event is read back from the object that stands for it.
pub proof fn law_live_event_reads_back(e: LiveEventView)
    requires
        plain(e),
    ensures
        live_in(json::object(live_members(e))) == Some(e),
        line_event(json::object(live_members(e))) == Some(e),
{
    match e {
        LiveEventView::Meta { .. } => lemma_meta_reads_back(e),
        LiveEventView::Status { .. } => lemma_status_reads_back(e),
        LiveEventView::Volatile { .. } => lemma_volatile_reads_back(e),
        LiveEventView::Finalized(u) => lemma_finalized_reads_back(u),
        LiveEventView::Translated { .. } => lemma_translated_reads_back(e),
        LiveEventView::Eof => {
            lemma_kinds();
            lemma_single_member(("type"@, JsonView::Text("eof"@)), "type"@);
        },
    }
}

/// An utterance on a line of its own, which names no kind, is taken as one that is final.
pub proof fn law_bare_utterance_is_final(e: EventView)
    requires
        plain_event(e),
    ensures
        line_event(json::object(event_members(e))) == Some(LiveEventView::Finalized(e)),
{
    law_event_reads_back(e);
    lemma_event_keys();
    lemma_event_member(e, "type"@);
}

proof fn lemma_nth_member(members: Seq<(Seq<char>, JsonView)>, i: int)
    requires
        0 <= i < members.len(),
        forall|j: int| 0 <= j < i ==> (#[trigger] members[j]).0 != members[i].0,
    ensures
        json::object(members).get(members[i].0) == Some(members[i].1),
{
    json::law_first_member_of_a_name(members, members[i].0);
}

proof fn lemma_event_names()
    ensures
        "seq"@.len() == 3 && "channel"@.len() == 7 && "timestamp"@.len() == 9 && "audio"@.len() == 5
            && "src"@.len() == 3 && "dst"@.len() == 3 && "seq"@[1] == 'e' && "src"@[1] == 'r'
            && "dst"@[0] == 'd' && "src"@[0] == 's' && "seq"@[0] == 's',
{
    reveal_strlit("seq");
    reveal_strlit("channel");
    reveal_strlit("timestamp");
    reveal_strlit("audio");
    reveal_strlit("src");
    reveal_strlit("dst");
}

/// A line of an utterance tells its number, its channel and its time.
pub proof fn law_utterance_is_told_with_its_time(e: EventView)
    ensures
        ({
            let v = json::object(event_members(e));
            &&& v.get("seq"@) == Some(JsonView::Number(text::decimal(e.seq as nat)))
            &&& v.get("channel"@) == Some(
                JsonView::Text(
                    match e.channel {
                        AudioChannel::Mic => "mic"@,
                        AudioChannel::Speaker => "speaker"@,
                        AudioChannel::File => "file"@,
                    },
                ),
            )
            &&& v.get("timestamp"@) == Some(JsonView::Text(e.formatted))
        }),
{
    lemma_event_names();
    let m = event_members(e);
    assert(m[0] == ("seq"@, JsonView::Number(text::decimal(e.seq as nat))));
    assert(m[1] == ("channel"@, JsonView::Text(channel_word(e.channel))));
    assert(m[2] == ("timestamp"@, JsonView::Text(e.formatted)));
    lemma_nth_member(m, 0);
    lemma_nth_member(m, 1);
    lemma_nth_member(m, 2);
}

/// It tells what was said and in which language.
pub proof fn law_utterance_is_told_with_its_text(e: EventView)
    ensures
        json::object(event_members(e)).get("src"@) matches Some(src) && src.get("text"@) == Some(
            JsonView::Text(e.text),
        ) && src.get("lang"@) == Some(JsonView::Text(e.lang)),
{
    lemma_event_names();
    let m = event_members(e);
    let at: int = if e.audio is Some {
        4
    } else {
        3
    };
    assert(m[0].0 == "seq"@ && m[1].0 == "channel"@ && m[2].0 == "timestamp"@);
    assert(e.audio is Some ==> m[3].0 == "audio"@);
    assert(m[at] == ("src"@, json::object(source_members(e))));
    lemma_nth_member(m, at);
    let s = source_members(e);
    assert(s[0] == ("lang"@, JsonView::Text(e.lang)) && s[1] == ("text"@, JsonView::Text(e.text)));
    assert("lang"@[0] == 'l' && "text"@[0] == 't') by {
        reveal_strlit("lang");
        reveal_strlit("text");
    }
    lemma_nth_member(s, 0);
    lemma_nth_member(s, 1);
}

/// It tells the translation just where there is one.
pub proof fn law_utterance_is_told_with_its_translation(e: EventView)
    ensures
        e.translation is None ==> json::object(event_members(e)).get("dst"@) is None,
        e.translation matches Some((lang, said)) ==> json::object(event_members(e)).get("dst"@)
            == Some(
            json::object(seq![("lang"@, JsonView::Text(lang)), ("text"@, JsonView::Text(said))]),
        ),
{
    lemma_event_names();
    let m = event_members(e);
    let at: int = if e.audio is Some {
        4
    } else {
        3
    };
    assert(m[0].0 == "seq"@ && m[1].0 == "channel"@ && m[2].0 == "timestamp"@);
    assert(e.audio is Some ==> m[3].0 == "audio"@);
    assert(m[at].0 == "src"@);
    if let Some(t) = e.translation {
        assert(m[at + 1] == ("dst"@, target_value(t)));
        lemma_nth_member(m, at + 1);
    } else {
        assert(m.len() == at + 1);
        assert forall|j: int| 0 <= j < m.len() implies (#[trigger] m[j]).0 != "dst"@ by {
            assert(j == 0 || j == 1 || j == 2 || j == 3 || j == at);
        }
        json::law_first_member_of_a_name(m, "dst"@);
    }
}

} // verus!
