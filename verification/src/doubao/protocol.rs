//! The conversation with the recognition service: what is sent, and what the
//! replies mean.
use super::wire;
use super::wire::{Decoded, Field, FieldKind, FieldValue, ValueView};
use crate::asr::{AsrError, Transcript};
#[allow(unused_imports)]
use crate::asr::AsrErrorView;
use crate::json;
use crate::json::{Json, JsonView};
use crate::text;
use vstd::prelude::*;
use vstd::string::*;

verus! {

pub const SAMPLE_RATE: u32 = 16_000;

pub const CHANNELS: u16 = 1;

/// A request of the service.
#[derive(Debug, Clone, PartialEq, Eq)]
pub struct AsrRequestPb {
    pub token: String,
    pub service_name: String,
    pub method_name: String,
    pub payload: String,
    pub audio_data: Vec<u8>,
    pub request_id: String,
    pub frame_state: i32,
}

/// A reply of the service.
#[derive(Debug, Clone, PartialEq, Eq)]
pub struct AsrResponsePb {
    pub request_id: String,
    pub task_id: String,
    pub service_name: String,
    pub message_type: String,
    pub status_code: i32,
    pub status_message: String,
    pub result_json: String,
    pub unknown_field_9: i32,
}

pub open spec fn request_layout() -> Seq<Field> {
    seq![
        Field { tag: 2, name: "token", kind: FieldKind::Text },
        Field { tag: 3, name: "service_name", kind: FieldKind::Text },
        Field { tag: 5, name: "method_name", kind: FieldKind::Text },
        Field { tag: 6, name: "payload", kind: FieldKind::Text },
        Field { tag: 7, name: "audio_data", kind: FieldKind::Bytes },
        Field { tag: 8, name: "request_id", kind: FieldKind::Text },
        Field { tag: 9, name: "frame_state", kind: FieldKind::Int },
    ]
}

pub open spec fn response_layout() -> Seq<Field> {
    seq![
        Field { tag: 1, name: "request_id", kind: FieldKind::Text },
        Field { tag: 2, name: "task_id", kind: FieldKind::Text },
        Field { tag: 3, name: "service_name", kind: FieldKind::Text },
        Field { tag: 4, name: "message_type", kind: FieldKind::Text },
        Field { tag: 5, name: "status_code", kind: FieldKind::Int },
        Field { tag: 6, name: "status_message", kind: FieldKind::Text },
        Field { tag: 7, name: "result_json", kind: FieldKind::Text },
        Field { tag: 9, name: "unknown_field_9", kind: FieldKind::Int },
    ]
}

fn request_fields() -> (r: Vec<Field>)
    ensures
        r@ == request_layout(),
{
    let r: Vec<Field> = vec![
        Field { tag: 2, name: "token", kind: FieldKind::Text },
        Field { tag: 3, name: "service_name", kind: FieldKind::Text },
        Field { tag: 5, name: "method_name", kind: FieldKind::Text },
        Field { tag: 6, name: "payload", kind: FieldKind::Text },
        Field { tag: 7, name: "audio_data", kind: FieldKind::Bytes },
        Field { tag: 8, name: "request_id", kind: FieldKind::Text },
        Field { tag: 9, name: "frame_state", kind: FieldKind::Int },
    ];
    assert(r@ =~= request_layout());
    r
}

fn response_fields() -> (r: Vec<Field>)
    ensures
        r@ == response_layout(),
{
    let r: Vec<Field> = vec![
        Field { tag: 1, name: "request_id", kind: FieldKind::Text },
        Field { tag: 2, name: "task_id", kind: FieldKind::Text },
        Field { tag: 3, name: "service_name", kind: FieldKind::Text },
        Field { tag: 4, name: "message_type", kind: FieldKind::Text },
        Field { tag: 5, name: "status_code", kind: FieldKind::Int },
        Field { tag: 6, name: "status_message", kind: FieldKind::Text },
        Field { tag: 7, name: "result_json", kind: FieldKind::Text },
        Field { tag: 9, name: "unknown_field_9", kind: FieldKind::Int },
    ];
    assert(r@ =~= response_layout());
    r
}

impl AsrRequestPb {
    pub open spec fn values(self) -> Seq<ValueView> {
        seq![
            ValueView::Text(self.token@),
            ValueView::Text(self.service_name@),
            ValueView::Text(self.method_name@),
            ValueView::Text(self.payload@),
            ValueView::Bytes(self.audio_data@),
            ValueView::Text(self.request_id@),
            ValueView::Int(self.frame_state),
        ]
    }

    /// The bytes of the request.
    pub fn encode(&self) -> (r: Vec<u8>)
        ensures
            r@ == wire::encoded(request_layout(), self.values()),
    {
        let v: Vec<FieldValue> = vec![
            FieldValue::Text(text::copy(self.token.as_str())),
            FieldValue::Text(text::copy(self.service_name.as_str())),
            FieldValue::Text(text::copy(self.method_name.as_str())),
            FieldValue::Text(text::copy(self.payload.as_str())),
            FieldValue::Bytes(copy_bytes(&self.audio_data)),
            FieldValue::Text(text::copy(self.request_id.as_str())),
            FieldValue::Int(self.frame_state),
        ];
        let fields = request_fields();
        assert(wire::values(v@) =~= self.values());
        wire::encode(&fields, &v)
    }

    /// Reads a request.
    pub fn decode(bytes: &Vec<u8>) -> (r: Result<AsrRequestPb, String>)
        ensures
            match wire::decoded(request_layout(), wire::blanks(request_layout()), bytes@) {
                Decoded::Message(v) => r is Ok && r->Ok_0.values() == v,
                Decoded::Fault(field, fault) => r is Err && r->Err_0@ == fault_words(
                    "AsrRequestPb"@,
                    field,
                    fault,
                ),
            },
    {
        let fields = request_fields();
        let mut v = match wire::decode(&fields, bytes) {
            Ok(v) => v,
            Err(e) => {
                return Err(e.message("AsrRequestPb"));
            },
        };
        proof {
            wire::lemma_decoded_fits(request_layout(), wire::blanks(request_layout()), bytes@);
        }
        let ghost all = wire::values(v@);
        assert(v@.len() == 7);
        let frame_state = last_int(&mut v);
        let request_id = last_text(&mut v);
        let audio_data = last_bytes(&mut v);
        let payload = last_text(&mut v);
        let method_name = last_text(&mut v);
        let service_name = last_text(&mut v);
        let token = last_text(&mut v);
        let r = AsrRequestPb {
            token,
            service_name,
            method_name,
            payload,
            audio_data,
            request_id,
            frame_state,
        };
        assert(r.values() =~= all);
        Ok(r)
    }
}

fn copy_bytes(b: &Vec<u8>) -> (r: Vec<u8>)
    ensures
        r@ == b@,
{
    let mut r: Vec<u8> = Vec::new();
    r.extend_from_slice(b.as_slice());
    assert(r@ =~= b@);
    r
}

fn last_text(v: &mut Vec<FieldValue>) -> (r: String)
    requires
        old(v)@.len() > 0,
        old(v)@.last() is Text,
    ensures
        final(v)@ == old(v)@.drop_last(),
        old(v)@.last()@ == ValueView::Text(r@),
{
    match v.pop() {
        Some(FieldValue::Text(t)) => t,
        _ => String::new(),
    }
}

fn last_bytes(v: &mut Vec<FieldValue>) -> (r: Vec<u8>)
    requires
        old(v)@.len() > 0,
        old(v)@.last() is Bytes,
    ensures
        final(v)@ == old(v)@.drop_last(),
        old(v)@.last()@ == ValueView::Bytes(r@),
{
    match v.pop() {
        Some(FieldValue::Bytes(b)) => b,
        _ => Vec::new(),
    }
}

fn last_int(v: &mut Vec<FieldValue>) -> (r: i32)
    requires
        old(v)@.len() > 0,
        old(v)@.last() is Int,
    ensures
        final(v)@ == old(v)@.drop_last(),
        old(v)@.last()@ == ValueView::Int(r),
{
    match v.pop() {
        Some(FieldValue::Int(n)) => n,
        _ => 0,
    }
}

impl AsrResponsePb {
    pub open spec fn values(self) -> Seq<ValueView> {
        seq![
            ValueView::Text(self.request_id@),
            ValueView::Text(self.task_id@),
            ValueView::Text(self.service_name@),
            ValueView::Text(self.message_type@),
            ValueView::Int(self.status_code),
            ValueView::Text(self.status_message@),
            ValueView::Text(self.result_json@),
            ValueView::Int(self.unknown_field_9),
        ]
    }

    /// The bytes of the reply.
    pub fn encode(&self) -> (r: Vec<u8>)
        ensures
            r@ == wire::encoded(response_layout(), self.values()),
    {
        let v: Vec<FieldValue> = vec![
            FieldValue::Text(text::copy(self.request_id.as_str())),
            FieldValue::Text(text::copy(self.task_id.as_str())),
            FieldValue::Text(text::copy(self.service_name.as_str())),
            FieldValue::Text(text::copy(self.message_type.as_str())),
            FieldValue::Int(self.status_code),
            FieldValue::Text(text::copy(self.status_message.as_str())),
            FieldValue::Text(text::copy(self.result_json.as_str())),
            FieldValue::Int(self.unknown_field_9),
        ];
        let fields = response_fields();
        assert(wire::values(v@) =~= self.values());
        wire::encode(&fields, &v)
    }

    /// Reads a reply; the error is what is wrong with the bytes, in words.
    pub fn decode(bytes: &Vec<u8>) -> (r: Result<AsrResponsePb, String>)
        ensures
            match wire::decoded(response_layout(), wire::blanks(response_layout()), bytes@) {
                Decoded::Message(v) => r is Ok && r->Ok_0.values() == v,
                Decoded::Fault(field, fault) => r is Err && r->Err_0@ == fault_words(
                    "AsrResponsePb"@,
                    field,
                    fault,
                ),
            },
    {
        let fields = response_fields();
        let mut v = match wire::decode(&fields, bytes) {
            Ok(v) => v,
            Err(e) => {
                return Err(e.message("AsrResponsePb"));
            },
        };
        proof {
            wire::lemma_decoded_fits(response_layout(), wire::blanks(response_layout()), bytes@);
        }
        let ghost all = wire::values(v@);
        assert(v@.len() == 8);
        let unknown_field_9 = last_int(&mut v);
        let result_json = last_text(&mut v);
        let status_message = last_text(&mut v);
        let status_code = last_int(&mut v);
        let message_type = last_text(&mut v);
        let service_name = last_text(&mut v);
        let task_id = last_text(&mut v);
        let request_id = last_text(&mut v);
        let r = AsrResponsePb {
            request_id,
            task_id,
            service_name,
            message_type,
            status_code,
            status_message,
            result_json,
            unknown_field_9,
        };
        assert(r.values() =~= all);
        Ok(r)
    }
}

/// What is wrong with the bytes of a message of that name, in words.
pub open spec fn fault_words(
    message: Seq<char>,
    field: Option<Seq<char>>,
    fault: wire::WireFault,
) -> Seq<char> {
    "failed to decode Protobuf message: "@ + (match field {
        Some(f) => message + "."@ + f + ": "@,
        None => Seq::empty(),
    }) + fault.words()
}

/// A request that is sent is read by the service as it was meant.
pub proof fn law_request_round_trip(request: AsrRequestPb)
    requires
        forall|i: int|
            #![trigger request.values()[i]]
            0 <= i < 7 ==> wire::countable(request.values()[i]),
    ensures
        wire::decoded(
            request_layout(),
            wire::blanks(request_layout()),
            wire::encoded(request_layout(), request.values()),
        ) == Decoded::Message(request.values()),
{
    wire::law_message_round_trip(request_layout(), request.values());
}

/// The same of a reply.
pub proof fn law_response_round_trip(response: AsrResponsePb)
    requires
        forall|i: int|
            #![trigger response.values()[i]]
            0 <= i < 8 ==> wire::countable(response.values()[i]),
    ensures
        wire::decoded(
            response_layout(),
            wire::blanks(response_layout()),
            wire::encoded(response_layout(), response.values()),
        ) == Decoded::Message(response.values()),
{
    wire::law_message_round_trip(response_layout(), response.values());
}

/// Where a frame stands in the audio.
#[derive(Debug, Clone, Copy, PartialEq, Eq, Structural)]
pub enum FrameState {
    Unspecified,
    First,
    Middle,
    Last,
}

impl FrameState {
    /// The number that stands for it in a request.
    pub open spec fn number(self) -> i32 {
        match self {
            FrameState::Unspecified => 0,
            FrameState::First => 1,
            FrameState::Middle => 3,
            FrameState::Last => 9,
        }
    }

    pub fn code(self) -> (r: i32)
        ensures
            r == self.number(),
    {
        match self {
            FrameState::Unspecified => 0,
            FrameState::First => 1,
            FrameState::Middle => 3,
            FrameState::Last => 9,
        }
    }

    /// The state of the frame at `index` of `count`: the only frame is a first one.
    pub open spec fn of(index: int, count: int) -> FrameState {
        if index == 0 {
            FrameState::First
        } else if index == count - 1 {
            FrameState::Last
        } else {
            FrameState::Middle
        }
    }

    pub fn at(index: usize, count: usize) -> (r: FrameState)
        requires
            index < count,
        ensures
            r == FrameState::of(index as int, count as int),
    {
        if index == 0 {
            FrameState::First
        } else if index == count - 1 {
            FrameState::Last
        } else {
            FrameState::Middle
        }
    }
}

/// A request with a token and nothing to carry.
pub open spec fn plain_request(
    r: AsrRequestPb,
    method: Seq<char>,
    request_id: Seq<char>,
    token: Seq<char>,
    payload: Seq<char>,
) -> bool {
    &&& r.token@ == token
    &&& r.service_name@ == "ASR"@
    &&& r.method_name@ == method
    &&& r.payload@ == payload
    &&& r.audio_data@ == Seq::<u8>::empty()
    &&& r.request_id@ == request_id
    &&& r.frame_state == 0
}

fn request(method: &str, request_id: &str, token: &str, payload: String) -> (r: AsrRequestPb)
    ensures
        plain_request(r, method@, request_id@, token@, payload@),
{
    AsrRequestPb {
        token: text::copy(token),
        service_name: text::copy("ASR"),
        method_name: text::copy(method),
        payload,
        audio_data: Vec::new(),
        request_id: text::copy(request_id),
        frame_state: 0,
    }
}

pub fn start_task(request_id: &str, token: &str) -> (r: AsrRequestPb)
    ensures
        plain_request(r, "StartTask"@, request_id@, token@, Seq::empty()),
{
    request("StartTask", request_id, token, String::new())
}

pub fn finish_session(request_id: &str, token: &str) -> (r: AsrRequestPb)
    ensures
        plain_request(r, "FinishSession"@, request_id@, token@, Seq::empty()),
{
    request("FinishSession", request_id, token, String::new())
}

/// What a session is opened with: the audio's format, and how it is recognised.
pub open spec fn session_config(device_id: Seq<char>) -> JsonView {
    json::object(
        seq![
            (
                "audio_info"@,
                json::object(
                    seq![
                        ("channel"@, JsonView::Number(text::decimal(CHANNELS as nat))),
                        ("format"@, JsonView::Text("speech_opus"@)),
                        ("sample_rate"@, JsonView::Number(text::decimal(SAMPLE_RATE as nat))),
                    ],
                ),
            ),
            ("enable_punctuation"@, JsonView::Bool(true)),
            ("enable_speech_rejection"@, JsonView::Bool(false)),
            (
                "extra"@,
                json::object(
                    seq![
                        ("app_name"@, JsonView::Text("com.android.chrome"@)),
                        ("cell_compress_rate"@, JsonView::Number(text::decimal(8))),
                        ("did"@, JsonView::Text(device_id)),
                        ("enable_asr_threepass"@, JsonView::Bool(true)),
                        ("enable_asr_twopass"@, JsonView::Bool(true)),
                        ("input_mode"@, JsonView::Text("tool"@)),
                    ],
                ),
            ),
        ],
    )
}

/// The configuration of a session for a device.
pub fn session_config_value(device_id: &str) -> (r: Json)
    ensures
        r.value() == session_config(device_id@),
{
    let mut audio: Vec<(String, Json)> = Vec::new();
    json::push_member(&mut audio, "channel", json::number_value(CHANNELS as u64));
    json::push_member(&mut audio, "format", json::text_value("speech_opus"));
    json::push_member(&mut audio, "sample_rate", json::number_value(SAMPLE_RATE as u64));
    let mut extra: Vec<(String, Json)> = Vec::new();
    json::push_member(&mut extra, "app_name", json::text_value("com.android.chrome"));
    json::push_member(&mut extra, "cell_compress_rate", json::number_value(8));
    json::push_member(&mut extra, "did", json::text_value(device_id));
    json::push_member(&mut extra, "enable_asr_threepass", Json::Bool(true));
    json::push_member(&mut extra, "enable_asr_twopass", Json::Bool(true));
    json::push_member(&mut extra, "input_mode", json::text_value("tool"));
    let mut payload: Vec<(String, Json)> = Vec::new();
    let ghost none = Seq::<(Seq<char>, JsonView)>::empty();
    let ghost audio_views = json::member_views(audio@);
    let ghost extra_views = json::member_views(extra@);
    json::push_member(&mut payload, "audio_info", json::object_value(audio));
    json::push_member(&mut payload, "enable_punctuation", Json::Bool(true));
    json::push_member(&mut payload, "enable_speech_rejection", Json::Bool(false));
    json::push_member(&mut payload, "extra", json::object_value(extra));
    proof {
        let wanted = session_config(device_id@)->Object_0;
        assert(audio_views =~= wanted[0].1->Object_0);
        assert(extra_views =~= wanted[3].1->Object_0);
        assert(json::member_views(payload@) =~= wanted);
    }
    json::object_value(payload)
}

pub fn start_session(request_id: &str, token: &str, device_id: &str) -> (r: AsrRequestPb)
    ensures
        plain_request(
            r,
            "StartSession"@,
            request_id@,
            token@,
            json::written(session_config(device_id@)),
        ),
{
    let payload = json::write(&session_config_value(device_id));
    request("StartSession", request_id, token, payload)
}

pub open spec fn frame_payload(timestamp_ms: u64) -> JsonView {
    json::object(
        seq![
            ("extra"@, json::object(Seq::empty())),
            ("timestamp_ms"@, JsonView::Number(text::decimal(timestamp_ms as nat))),
        ],
    )
}

/// The request that carries one frame of audio.
pub fn task_request(
    request_id: &str,
    audio_data: Vec<u8>,
    frame_state: FrameState,
    timestamp_ms: u64,
) -> (r: AsrRequestPb)
    ensures
        r.token@ == Seq::<char>::empty(),
        r.service_name@ == "ASR"@,
        r.method_name@ == "TaskRequest"@,
        r.payload@ == json::written(frame_payload(timestamp_ms)),
        r.audio_data@ == audio_data@,
        r.request_id@ == request_id@,
        r.frame_state == frame_state.number(),
{
    let mut members: Vec<(String, Json)> = Vec::new();
    let none: Vec<(String, Json)> = Vec::new();
    assert(json::member_views(none@) =~= Seq::empty());
    json::push_member(&mut members, "extra", json::object_value(none));
    json::push_member(&mut members, "timestamp_ms", json::number_value(timestamp_ms));
    assert(json::member_views(members@) =~= frame_payload(timestamp_ms)->Object_0);
    AsrRequestPb {
        token: String::new(),
        service_name: text::copy("ASR"),
        method_name: text::copy("TaskRequest"),
        payload: json::write(&json::object_value(members)),
        audio_data,
        request_id: text::copy(request_id),
        frame_state: frame_state.code(),
    }
}

#[derive(Debug, Clone, Copy, PartialEq, Eq, Structural)]
pub enum ResponseKind {
    TaskStarted,
    SessionStarted,
    SessionFinished,
    Interim,
    Final,
    Heartbeat,
    Error,
    Unknown,
}

/// What a reply says.
#[derive(Debug, Clone, PartialEq, Eq)]
pub struct ParsedResponse {
    pub kind: ResponseKind,
    pub text: String,
    pub error_msg: String,
}

pub struct ResponseView {
    pub kind: ResponseKind,
    pub text: Seq<char>,
    pub error_msg: Seq<char>,
}

impl View for ParsedResponse {
    type V = ResponseView;

    open spec fn view(&self) -> ResponseView {
        ResponseView { kind: self.kind, text: self.text@, error_msg: self.error_msg@ }
    }
}

/// A reply of that kind that says nothing more.
pub open spec fn bare(kind: ResponseKind) -> ResponseView {
    ResponseView { kind, text: Seq::empty(), error_msg: Seq::empty() }
}

fn bare_response(kind: ResponseKind) -> (r: ParsedResponse)
    ensures
        r@ == bare(kind),
{
    ParsedResponse { kind, text: String::new(), error_msg: String::new() }
}

/// The truth value in a member of a member; false where there is none.
pub open spec fn flag_in(value: JsonView, outer: Seq<char>, inner: Seq<char>) -> bool {
    match value.get(outer) {
        Some(v) => v.truth_at(inner) == Some(true),
        None => false,
    }
}

fn nested_flag(value: &Json, outer: &str, inner: &str) -> (r: bool)
    ensures
        r == flag_in(value.value(), outer@, inner@),
{
    match value.get(outer) {
        Some(v) => match v.bool_at(inner) {
            Some(b) => b,
            None => false,
        },
        None => false,
    }
}

/// The last text of the results that is not empty.
pub open spec fn last_text_of(results: Seq<JsonView>) -> Seq<char>
    decreases results.len(),
{
    if results.len() == 0 {
        Seq::empty()
    } else {
        match results.last().text_at("text"@) {
            Some(t) => if t.len() > 0 {
                t
            } else {
                last_text_of(results.drop_last())
            },
            None => last_text_of(results.drop_last()),
        }
    }
}

/// Some result says that it is not interim.
pub open spec fn settled(results: Seq<JsonView>) -> bool {
    exists|i: int|
        0 <= i < results.len() && #[trigger] results[i].truth_at("is_interim"@) == Some(false)
}

/// Some result says that its speech has ended.
pub open spec fn speech_ended(results: Seq<JsonView>) -> bool {
    exists|i: int|
        0 <= i < results.len() && #[trigger] results[i].truth_at("is_vad_finished"@) == Some(true)
}

/// Some result comes from the second pass over the whole audio.
pub open spec fn second_pass(results: Seq<JsonView>) -> bool {
    exists|i: int|
        0 <= i < results.len() && #[trigger] flag_in(results[i], "extra"@, "nonstream_result"@)
}

/// What the results in a reply say: they are final after a second pass, or where
/// they are settled and their speech has ended.
pub open spec fn results_say(value: JsonView) -> ResponseView {
    match value.get("results"@) {
        Some(JsonView::Array(results)) => if flag_in(value, "extra"@, "vad_start"@) {
            bare(ResponseKind::Interim)
        } else {
            ResponseView {
                kind: if second_pass(results) || (settled(results) && speech_ended(results)) {
                    ResponseKind::Final
                } else {
                    ResponseKind::Interim
                },
                text: last_text_of(results),
                error_msg: Seq::empty(),
            }
        },
        _ => bare(ResponseKind::Heartbeat),
    }
}

/// Reads the results out of a reply's JSON value.
pub fn read_results(value: &Json) -> (r: ParsedResponse)
    ensures
        r@ == results_say(value.value()),
{
    let results = match value.get("results") {
        Some(Json::Array(results)) => results,
        _ => {
            return bare_response(ResponseKind::Heartbeat);
        },
    };
    let ghost all = value.value().get("results"@)->0->Array_0;
    assert(all =~= Seq::new(results@.len(), |i: int| results@[i].value()));
    if nested_flag(value, "extra", "vad_start") {
        return bare_response(ResponseKind::Interim);
    }
    let mut found = String::new();
    let mut is_interim = true;
    let mut vad_finished = false;
    let mut nonstream_result = false;
    let mut i: usize = 0;
    while i < results.len()
        invariant
            i <= results@.len(),
            all == Seq::new(results@.len(), |i: int| results@[i].value()),
            found@ == last_text_of(all.take(i as int)),
            !is_interim <==> settled(all.take(i as int)),
            vad_finished <==> speech_ended(all.take(i as int)),
            nonstream_result <==> second_pass(all.take(i as int)),
        decreases results@.len() - i,
    {
        let result = &results[i];
        let ghost before = all.take(i as int);
        let ghost after = all.take(i + 1);
        proof {
            assert(after.drop_last() =~= before);
            assert(after.last() == result.value());
            assert(forall|j: int| 0 <= j < i ==> before[j] == after[j]);
        }
        if let Some(t) = result.text_at("text") {
            if !t.as_str().is_empty() {
                found = t;
            }
        }
        if let Some(b) = result.bool_at("is_interim") {
            if !b {
                is_interim = false;
                assert(after[i as int].truth_at("is_interim"@) == Some(false));
            }
        }
        if let Some(b) = result.bool_at("is_vad_finished") {
            if b {
                vad_finished = true;
                assert(after[i as int].truth_at("is_vad_finished"@) == Some(true));
            }
        }
        if nested_flag(result, "extra", "nonstream_result") {
            nonstream_result = true;
            assert(flag_in(after[i as int], "extra"@, "nonstream_result"@));
        }
        proof {
            lemma_flags_step(before, after);
        }
        i = i + 1;
    }
    assert(all.take(i as int) =~= all);
    ParsedResponse {
        kind: if nonstream_result || (!is_interim && vad_finished) {
            ResponseKind::Final
        } else {
            ResponseKind::Interim
        },
        text: found,
        error_msg: String::new(),
    }
}

proof fn lemma_flags_step(before: Seq<JsonView>, after: Seq<JsonView>)
    requires
        after.len() == before.len() + 1,
        after.drop_last() == before,
    ensures
        settled(after) <==> settled(before) || after.last().truth_at("is_interim"@) == Some(false),
        speech_ended(after) <==> speech_ended(before) || after.last().truth_at("is_vad_finished"@)
            == Some(true),
        second_pass(after) <==> second_pass(before) || flag_in(
            after.last(),
            "extra"@,
            "nonstream_result"@,
        ),
{
    let n = before.len() as int;
    assert(forall|j: int| 0 <= j < n ==> before[j] == after[j]);
    if settled(before) {
        let j = choose|j: int|
            0 <= j < n && #[trigger] before[j].truth_at("is_interim"@) == Some(false);
        assert(after[j].truth_at("is_interim"@) == Some(false));
    }
    if settled(after) {
        let j = choose|j: int|
            0 <= j <= n && #[trigger] after[j].truth_at("is_interim"@) == Some(false);
        if j < n {
            assert(before[j].truth_at("is_interim"@) == Some(false));
        }
    }
    if speech_ended(before) {
        let j = choose|j: int|
            0 <= j < n && #[trigger] before[j].truth_at("is_vad_finished"@) == Some(true);
        assert(after[j].truth_at("is_vad_finished"@) == Some(true));
    }
    if speech_ended(after) {
        let j = choose|j: int|
            0 <= j <= n && #[trigger] after[j].truth_at("is_vad_finished"@) == Some(true);
        if j < n {
            assert(before[j].truth_at("is_vad_finished"@) == Some(true));
        }
    }
    if second_pass(before) {
        let j = choose|j: int|
            0 <= j < n && #[trigger] flag_in(before[j], "extra"@, "nonstream_result"@);
        assert(flag_in(after[j], "extra"@, "nonstream_result"@));
    }
    if second_pass(after) {
        let j = choose|j: int|
            0 <= j <= n && #[trigger] flag_in(after[j], "extra"@, "nonstream_result"@);
        if j < n {
            assert(flag_in(before[j], "extra"@, "nonstream_result"@));
        }
    }
    assert(after[n] == after.last());
}

pub enum Outcome {
    Reply(ResponseView),
    Fault(AsrErrorView),
}

pub open spec fn outcome(r: Result<ParsedResponse, AsrError>) -> Outcome {
    match r {
        Ok(p) => Outcome::Reply(p@),
        Err(e) => Outcome::Fault(e@),
    }
}

/// What the JSON of a reply says.
pub open spec fn result_json_says(result_json: Seq<char>) -> Outcome {
    match json::parsed(result_json) {
        Ok(value) => Outcome::Reply(results_say(value)),
        Err(e) => Outcome::Fault(
            AsrErrorView::InvalidResponse(
                "invalid doubao result JSON: "@ + e + ": "@ + result_json,
            ),
        ),
    }
}

pub fn parse_result_json(result_json: &str) -> (r: Result<ParsedResponse, AsrError>)
    ensures
        outcome(r) == result_json_says(result_json@),
{
    match json::parse(result_json) {
        Ok(value) => Ok(read_results(&value)),
        Err(e) => Err(
            AsrError::InvalidResponse(
                text::cat4("invalid doubao result JSON: ", e.as_str(), ": ", result_json),
            ),
        ),
    }
}

/// What a reply says, by the kind of message it is.
pub open spec fn response_says(
    message_type: Seq<char>,
    status_message: Seq<char>,
    result_json: Seq<char>,
) -> Outcome {
    if message_type == "TaskStarted"@ {
        Outcome::Reply(bare(ResponseKind::TaskStarted))
    } else if message_type == "SessionStarted"@ {
        Outcome::Reply(bare(ResponseKind::SessionStarted))
    } else if message_type == "SessionFinished"@ {
        Outcome::Reply(bare(ResponseKind::SessionFinished))
    } else if message_type == "TaskFailed"@ || message_type == "SessionFailed"@ {
        Outcome::Reply(
            ResponseView {
                kind: ResponseKind::Error,
                text: Seq::empty(),
                error_msg: status_message,
            },
        )
    } else if text::trimmed(result_json).len() == 0 {
        Outcome::Reply(bare(ResponseKind::Unknown))
    } else {
        result_json_says(result_json)
    }
}

/// What the bytes of a reply say.
pub open spec fn bytes_say(bytes: Seq<u8>) -> Outcome {
    match wire::decoded(response_layout(), wire::blanks(response_layout()), bytes) {
        Decoded::Message(v) => response_says(v[3]->Text_0, v[5]->Text_0, v[6]->Text_0),
        Decoded::Fault(field, fault) => Outcome::Fault(
            AsrErrorView::InvalidResponse(
                "invalid doubao protobuf: "@ + fault_words("AsrResponsePb"@, field, fault),
            ),
        ),
    }
}

pub fn parse_response_pb(bytes: &Vec<u8>) -> (r: Result<ParsedResponse, AsrError>)
    ensures
        outcome(r) == bytes_say(bytes@),
{
    let pb = match AsrResponsePb::decode(bytes) {
        Ok(pb) => pb,
        Err(e) => {
            return Err(
                AsrError::InvalidResponse(text::cat("invalid doubao protobuf: ", e.as_str())),
            );
        },
    };
    assert(pb.values()[3] == ValueView::Text(pb.message_type@));
    assert(pb.values()[5] == ValueView::Text(pb.status_message@));
    assert(pb.values()[6] == ValueView::Text(pb.result_json@));
    let message_type = pb.message_type.as_str();
    if text::same(message_type, "TaskStarted") {
        Ok(bare_response(ResponseKind::TaskStarted))
    } else if text::same(message_type, "SessionStarted") {
        Ok(bare_response(ResponseKind::SessionStarted))
    } else if text::same(message_type, "SessionFinished") {
        Ok(bare_response(ResponseKind::SessionFinished))
    } else if text::same(message_type, "TaskFailed") || text::same(message_type, "SessionFailed") {
        Ok(
            ParsedResponse {
                kind: ResponseKind::Error,
                text: String::new(),
                error_msg: text::copy(pb.status_message.as_str()),
            },
        )
    } else if text::trim(pb.result_json.as_str()).as_str().is_empty() {
        Ok(bare_response(ResponseKind::Unknown))
    } else {
        parse_result_json(pb.result_json.as_str())
    }
}

/// A message of the web socket.
#[derive(Debug, Clone, PartialEq, Eq)]
pub enum WsMessage {
    Binary(Vec<u8>),
    Text(String),
    Close,
    /// A ping, a pong or a raw frame.
    Control,
}

pub open spec fn message_says(message: WsMessage) -> Outcome {
    match message {
        WsMessage::Binary(bytes) => bytes_say(bytes@),
        WsMessage::Text(t) => Outcome::Fault(
            AsrErrorView::InvalidResponse("doubao returned text websocket message: "@ + t@),
        ),
        WsMessage::Close => Outcome::Fault(AsrErrorView::Request("doubao websocket closed"@)),
        WsMessage::Control => Outcome::Reply(bare(ResponseKind::Heartbeat)),
    }
}

pub fn parse_ws_message(message: &WsMessage) -> (r: Result<ParsedResponse, AsrError>)
    ensures
        outcome(r) == message_says(*message),
{
    match message {
        WsMessage::Binary(bytes) => parse_response_pb(bytes),
        WsMessage::Text(t) => Err(
            AsrError::InvalidResponse(
                text::cat("doubao returned text websocket message: ", t.as_str()),
            ),
        ),
        WsMessage::Close => Err(AsrError::Request(text::copy("doubao websocket closed"))),
        WsMessage::Control => Ok(bare_response(ResponseKind::Heartbeat)),
    }
}

/// Whether a step of the opening, `step`, went through.
pub fn check_started(step: &str, reply: &ParsedResponse) -> (r: Result<(), AsrError>)
    ensures
        r is Ok <==> reply.kind != ResponseKind::Error,
        r matches Err(e) ==> e@ == AsrErrorView::Request(
            "doubao "@ + step@ + " failed: "@ + reply.error_msg@,
        ),
{
    match reply.kind {
        ResponseKind::Error => Err(
            AsrError::Request(text::cat4("doubao ", step, " failed: ", reply.error_msg.as_str())),
        ),
        _ => Ok(()),
    }
}

/// The final text in a run of replies: that of the last final one.
pub open spec fn final_text_of(replies: Seq<ResponseView>) -> Option<Seq<char>>
    decreases replies.len(),
{
    if replies.len() == 0 {
        None
    } else if replies.last().kind == ResponseKind::Final {
        Some(replies.last().text)
    } else {
        final_text_of(replies.drop_last())
    }
}

/// What was heard since the audio was sent.
pub struct Hearing {
    pub final_text: Option<String>,
}

impl Hearing {
    pub fn new() -> (r: Hearing)
        ensures
            r.final_text is None,
    {
        Hearing { final_text: None }
    }

    /// Takes a reply. The answer is whether the session is over.
    pub fn take(&mut self, reply: ParsedResponse) -> (r: Result<bool, AsrError>)
        ensures
            match reply.kind {
                ResponseKind::Error => r is Err && r->Err_0@ == AsrErrorView::Request(
                    "doubao ASR failed: "@ + reply.error_msg@,
                ),
                ResponseKind::SessionFinished => r == Ok::<bool, AsrError>(true),
                _ => r == Ok::<bool, AsrError>(false),
            },
            text::text_of(final(self).final_text) == if reply.kind == ResponseKind::Final {
                Some(reply.text@)
            } else {
                text::text_of(old(self).final_text)
            },
    {
        match reply.kind {
            ResponseKind::Final => {
                self.final_text = Some(reply.text);
                Ok(false)
            },
            ResponseKind::Error => Err(
                AsrError::Request(text::cat("doubao ASR failed: ", reply.error_msg.as_str())),
            ),
            ResponseKind::SessionFinished => Ok(true),
            _ => Ok(false),
        }
    }

    /// The transcript: the final text trimmed, empty where there was none.
    pub fn transcript(&self, language: Option<String>) -> (r: Transcript)
        ensures
            r.text@ == match self.final_text {
                Some(t) => text::trimmed(t@),
                None => Seq::empty(),
            },
            r.language == language,
    {
        let found = match &self.final_text {
            Some(t) => text::trim(t.as_str()),
            None => String::new(),
        };
        Transcript { text: found, language }
    }
}

/// Whether nothing more is to be waited for after a reply.
pub fn ends_session(reply: &ParsedResponse) -> (r: bool)
    ensures
        r <==> reply.kind == ResponseKind::Error || reply.kind == ResponseKind::SessionFinished,
{
    match reply.kind {
        ResponseKind::Error => true,
        ResponseKind::SessionFinished => true,
        _ => false,
    }
}

/// What a session says whose replies are these: its text, or why it failed.
pub open spec fn heard(replies: Seq<ResponseView>) -> Result<Seq<char>, AsrErrorView> {
    let over = ending(replies);
    if over < replies.len() && replies[over].kind == ResponseKind::Error {
        Err(AsrErrorView::Request("doubao ASR failed: "@ + replies[over].error_msg))
    } else {
        match final_text_of(replies.take(over)) {
            Some(t) => Ok(text::trimmed(t)),
            None => Ok(Seq::empty()),
        }
    }
}

/// Listens to the replies that came until the session was over or failed.
pub fn listen(replies: Vec<ParsedResponse>, language: Option<String>) -> (r: Result<
    Transcript,
    AsrError,
>)
    ensures
        ({
            let all = Seq::new(replies@.len(), |i: int| replies@[i]@);
            let over = ending(all);
            if over < all.len() && all[over].kind == ResponseKind::Error {
                r is Err && r->Err_0@ == AsrErrorView::Request(
                    "doubao ASR failed: "@ + all[over].error_msg,
                )
            } else {
                &&& r is Ok
                &&& r->Ok_0.language == language
                &&& r->Ok_0.text@ == match final_text_of(all.take(over)) {
                    Some(t) => text::trimmed(t),
                    None => Seq::empty(),
                }
            }
        }),
        match r {
            Ok(t) => t.language == language && heard(
                Seq::new(replies@.len(), |i: int| replies@[i]@),
            ) == Ok::<Seq<char>, AsrErrorView>(t.text@),
            Err(e) => heard(Seq::new(replies@.len(), |i: int| replies@[i]@)) == Err::<
                Seq<char>,
                AsrErrorView,
            >(e@),
        },
{
    let ghost all = Seq::new(replies@.len(), |i: int| replies@[i]@);
    let mut hearing = Hearing::new();
    let mut i: usize = 0;
    assert(all.subrange(0, all.len() as int) =~= all);
    while i < replies.len()
        invariant
            i <= replies@.len(),
            all == Seq::new(replies@.len(), |i: int| replies@[i]@),
            ending(all) == i + ending(all.subrange(i as int, all.len() as int)),
            text::text_of(hearing.final_text) == final_text_of(all.take(i as int)),
        decreases replies@.len() - i,
    {
        let ghost rest = all.subrange(i as int, all.len() as int);
        proof {
            assert(rest[0] == all[i as int]);
            assert(rest.subrange(1, rest.len() as int) =~= all.subrange(i + 1, all.len() as int));
            assert(all.take(i + 1).drop_last() =~= all.take(i as int));
            assert(all.take(i + 1).last() == all[i as int]);
        }
        let reply = copy_reply(&replies[i]);
        match hearing.take(reply) {
            Err(e) => {
                return Err(e);
            },
            Ok(over) => {
                if over {
                    return Ok(hearing.transcript(language));
                }
            },
        }
        i = i + 1;
    }
    assert(all.subrange(i as int, all.len() as int).len() == 0);
    Ok(hearing.transcript(language))
}

fn copy_reply(reply: &ParsedResponse) -> (r: ParsedResponse)
    ensures
        r@ == reply@,
{
    ParsedResponse {
        kind: reply.kind,
        text: text::copy(reply.text.as_str()),
        error_msg: text::copy(reply.error_msg.as_str()),
    }
}

/// The place of the first reply that ends the session, or the number of replies.
pub open spec fn ending(replies: Seq<ResponseView>) -> int
    decreases replies.len(),
{
    if replies.len() == 0 || replies[0].kind == ResponseKind::Error || replies[0].kind
        == ResponseKind::SessionFinished {
        0
    } else {
        1 + ending(replies.subrange(1, replies.len() as int))
    }
}

proof fn lemma_last_text(results: Seq<JsonView>, at: int)
    requires
        0 <= at < results.len(),
        results[at].text_at("text"@) matches Some(t) && t.len() > 0,
        forall|j: int|
            at < j < results.len() ==> !((#[trigger] results[j]).text_at("text"@) matches Some(t)
                && t.len() > 0),
    ensures
        results[at].text_at("text"@) == Some(last_text_of(results)),
    decreases results.len(),
{
    let n = results.len() - 1;
    assert(results.last() == results[n]);
    if at < n {
        let front = results.drop_last();
        assert(front[at] == results[at]);
        assert forall|j: int| at < j < front.len() implies !((#[trigger] front[j]).text_at("text"@)
            matches Some(t) && t.len() > 0) by {
            assert(front[j] == results[j]);
        }
        lemma_last_text(front, at);
    }
}

proof fn lemma_no_text(results: Seq<JsonView>)
    requires
        forall|j: int|
            0 <= j < results.len() ==> !((#[trigger] results[j]).text_at("text"@) matches Some(t)
                && t.len() > 0),
    ensures
        last_text_of(results) == Seq::<char>::empty(),
    decreases results.len(),
{
    if results.len() > 0 {
        let front = results.drop_last();
        assert(results.last() == results[results.len() - 1]);
        assert forall|j: int| 0 <= j < front.len() implies !((#[trigger] front[j]).text_at("text"@)
            matches Some(t) && t.len() > 0) by {
            assert(front[j] == results[j]);
        }
        lemma_no_text(front);
    }
}

/// A result that comes from the second pass over the whole audio makes its reply a
/// final one, whatever the other results say, unless the reply only tells that speech
/// has begun.
pub proof fn law_second_pass_is_final(value: JsonView, results: Seq<JsonView>, i: int)
    requires
        value.get("results"@) == Some(JsonView::Array(results)),
        !(value.get("extra"@) matches Some(x) && x.get("vad_start"@) == Some(JsonView::Bool(true))),
        0 <= i < results.len(),
        results[i].get("extra"@) matches Some(x) && x.get("nonstream_result"@) == Some(
            JsonView::Bool(true),
        ),
    ensures
        results_say(value).kind == ResponseKind::Final,
{
    assert(flag_in(results[i], "extra"@, "nonstream_result"@));
}

/// A result that is not interim and one whose speech has ended, the same or another,
/// make their reply a final one.
pub proof fn law_settled_speech_is_final(value: JsonView, results: Seq<JsonView>, i: int, j: int)
    requires
        value.get("results"@) == Some(JsonView::Array(results)),
        !(value.get("extra"@) matches Some(x) && x.get("vad_start"@) == Some(JsonView::Bool(true))),
        0 <= i < results.len(),
        0 <= j < results.len(),
        results[i].get("is_interim"@) == Some(JsonView::Bool(false)),
        results[j].get("is_vad_finished"@) == Some(JsonView::Bool(true)),
    ensures
        results_say(value).kind == ResponseKind::Final,
{
    assert(results[i].truth_at("is_interim"@) == Some(false));
    assert(results[j].truth_at("is_vad_finished"@) == Some(true));
}

/// A reply is final for no other reason: without a second pass some result must say that
/// it is not interim, and some that its speech has ended.
pub proof fn law_final_has_a_reason(value: JsonView)
    requires
        results_say(value).kind == ResponseKind::Final,
    ensures
        value.get("results"@) matches Some(JsonView::Array(results)) && ((exists|i: int|
            0 <= i < results.len() && ((#[trigger] results[i]).get("extra"@) matches Some(x)
                && x.get("nonstream_result"@) == Some(JsonView::Bool(true)))) || ((exists|i: int|
            0 <= i < results.len() && (#[trigger] results[i]).get("is_interim"@) == Some(
                JsonView::Bool(false),
            )) && (exists|i: int|
            0 <= i < results.len() && (#[trigger] results[i]).get("is_vad_finished"@) == Some(
                JsonView::Bool(true),
            )))),
        !(value.get("extra"@) matches Some(x) && x.get("vad_start"@) == Some(JsonView::Bool(true))),
{
    let results = value.get("results"@)->0->Array_0;
    if second_pass(results) {
        let i = choose|i: int|
            0 <= i < results.len() && #[trigger] flag_in(
                results[i],
                "extra"@,
                "nonstream_result"@,
            );
        assert(results[i].get("extra"@) matches Some(x) && x.get("nonstream_result"@) == Some(
            JsonView::Bool(true),
        ));
    } else {
        let i = choose|i: int|
            0 <= i < results.len() && #[trigger] results[i].truth_at("is_interim"@) == Some(false);
        assert(results[i].get("is_interim"@) == Some(JsonView::Bool(false)));
        let j = choose|j: int|
            0 <= j < results.len() && #[trigger] results[j].truth_at("is_vad_finished"@) == Some(
                true,
            );
        assert(results[j].get("is_vad_finished"@) == Some(JsonView::Bool(true)));
    }
}

/// The text of a reply with results is the last one in them that is not empty, and empty
/// where none is; such a reply is final or interim and never a failure.
pub proof fn law_reply_has_the_last_text(value: JsonView, results: Seq<JsonView>)
    requires
        value.get("results"@) == Some(JsonView::Array(results)),
        !(value.get("extra"@) matches Some(x) && x.get("vad_start"@) == Some(JsonView::Bool(true))),
    ensures
        results_say(value).kind == ResponseKind::Final || results_say(value).kind
            == ResponseKind::Interim,
        results_say(value).error_msg == Seq::<char>::empty(),
        forall|k: int|
            0 <= k < results.len() && ((#[trigger] results[k]).get("text"@) matches Some(
                JsonView::Text(t),
            ) && t.len() > 0) && (forall|j: int|
                k < j < results.len() ==> !((#[trigger] results[j]).get("text"@) matches Some(
                    JsonView::Text(u),
                ) && u.len() > 0)) ==> results[k].get("text"@) == Some(
                JsonView::Text(results_say(value).text),
            ),
        (forall|j: int|
            0 <= j < results.len() ==> !((#[trigger] results[j]).get("text"@) matches Some(
                JsonView::Text(u),
            ) && u.len() > 0)) ==> results_say(value).text == Seq::<char>::empty(),
{
    assert forall|k: int|
        0 <= k < results.len() && ((#[trigger] results[k]).get("text"@) matches Some(
            JsonView::Text(t),
        ) && t.len() > 0) && (forall|j: int|
            k < j < results.len() ==> !((#[trigger] results[j]).get("text"@) matches Some(
                JsonView::Text(u),
            ) && u.len() > 0)) implies results[k].get("text"@) == Some(
        JsonView::Text(results_say(value).text),
    ) by {
        lemma_last_text(results, k);
    }
    if forall|j: int|
        0 <= j < results.len() ==> !((#[trigger] results[j]).get("text"@) matches Some(
            JsonView::Text(u),
        ) && u.len() > 0) {
        lemma_no_text(results);
    }
}

/// A reply that only tells that speech has begun carries no text, and one without
/// results says no more than that the session is alive.
pub proof fn law_reply_without_text(value: JsonView)
    ensures
        ({
            let starts = value.get("extra"@) matches Some(x) && x.get("vad_start"@) == Some(
                JsonView::Bool(true),
            );
            let listed = value.get("results"@) matches Some(JsonView::Array(_));
            &&& listed && starts ==> results_say(value).kind == ResponseKind::Interim
            &&& !listed ==> results_say(value).kind == ResponseKind::Heartbeat
            &&& !listed || starts ==> results_say(value).text == Seq::<char>::empty()
                && results_say(value).error_msg == Seq::<char>::empty()
        }),
{
}

/// A failure carries the status message of its reply, whatever results came with it; no
/// other reply is a failure.
pub proof fn law_failures_carry_their_message(
    message_type: Seq<char>,
    status_message: Seq<char>,
    result_json: Seq<char>,
)
    ensures
        ({
            let failed = message_type == "TaskFailed"@ || message_type == "SessionFailed"@;
            match response_says(message_type, status_message, result_json) {
                Outcome::Reply(r) => {
                    &&& r.kind == ResponseKind::Error <==> failed
                    &&& failed ==> r.error_msg == status_message
                    &&& !failed ==> r.error_msg == Seq::<char>::empty()
                },
                Outcome::Fault(_) => !failed,
            }
        }),
{
    reveal_strlit("TaskStarted");
    reveal_strlit("SessionStarted");
    reveal_strlit("SessionFinished");
    reveal_strlit("TaskFailed");
    reveal_strlit("SessionFailed");
    assert("TaskFailed"@[4] == 'F');
    assert("TaskStarted"@[4] == 'S');
    assert("SessionFailed"@[7] == 'F');
    assert("SessionFailed"@[8] == 'a');
    assert("SessionStarted"@[7] == 'S');
    assert("SessionFinished"@[8] == 'i');
}

/// The steps of a session are known by the type of the message alone.
pub proof fn law_steps_go_by_message_type(
    message_type: Seq<char>,
    status_message: Seq<char>,
    result_json: Seq<char>,
)
    ensures
        response_says(message_type, status_message, result_json) matches Outcome::Reply(r) ==> {
            &&& r.kind == ResponseKind::TaskStarted <==> message_type == "TaskStarted"@
            &&& r.kind == ResponseKind::SessionStarted <==> message_type == "SessionStarted"@
            &&& r.kind == ResponseKind::SessionFinished <==> message_type == "SessionFinished"@
        },
        message_type == "TaskStarted"@ || message_type == "SessionStarted"@ || message_type
            == "SessionFinished"@ ==> response_says(message_type, status_message, result_json)
            == Outcome::Reply(
            ResponseView {
                kind: if message_type == "TaskStarted"@ {
                    ResponseKind::TaskStarted
                } else if message_type == "SessionStarted"@ {
                    ResponseKind::SessionStarted
                } else {
                    ResponseKind::SessionFinished
                },
                text: Seq::empty(),
                error_msg: Seq::empty(),
            },
        ),
{
    reveal_strlit("TaskStarted");
    reveal_strlit("SessionStarted");
    reveal_strlit("SessionFinished");
    assert("TaskStarted"@.len() == 11);
    assert("SessionStarted"@.len() == 14);
    assert("SessionFinished"@.len() == 15);
}

proof fn lemma_ending(replies: Seq<ResponseView>, over: int)
    requires
        0 <= over <= replies.len(),
        forall|j: int|
            0 <= j < over ==> (#[trigger] replies[j]).kind != ResponseKind::Error && replies[j].kind
                != ResponseKind::SessionFinished,
        over < replies.len() ==> replies[over].kind == ResponseKind::Error || replies[over].kind
            == ResponseKind::SessionFinished,
    ensures
        ending(replies) == over,
    decreases over,
{
    if over > 0 {
        let rest = replies.subrange(1, replies.len() as int);
        assert forall|j: int| 0 <= j < over - 1 implies (#[trigger] rest[j]).kind
            != ResponseKind::Error && rest[j].kind != ResponseKind::SessionFinished by {
            assert(rest[j] == replies[j + 1]);
        }
        lemma_ending(rest, over - 1);
    }
}

proof fn lemma_final_text(replies: Seq<ResponseView>, at: int)
    requires
        0 <= at < replies.len(),
        replies[at].kind == ResponseKind::Final,
        forall|j: int| at < j < replies.len() ==> (#[trigger] replies[j]).kind != ResponseKind::Final,
    ensures
        final_text_of(replies) == Some(replies[at].text),
    decreases replies.len(),
{
    if at < replies.len() - 1 {
        assert(replies.last() == replies[replies.len() - 1]);
        lemma_final_text(replies.drop_last(), at);
    }
}

proof fn lemma_no_final_text(replies: Seq<ResponseView>)
    requires
        forall|j: int| 0 <= j < replies.len() ==> (#[trigger] replies[j]).kind != ResponseKind::Final,
    ensures
        final_text_of(replies) is None,
    decreases replies.len(),
{
    if replies.len() > 0 {
        assert(replies.last() == replies[replies.len() - 1]);
        lemma_no_final_text(replies.drop_last());
    }
}

/// The text of a session is that of its last final reply, trimmed. `over` is the place
/// of the reply that finishes the session, or the number of replies where none does;
/// nothing after it counts.
pub proof fn law_session_yields_its_last_final(replies: Seq<ResponseView>, over: int, at: int)
    requires
        0 <= at < over <= replies.len(),
        forall|j: int|
            0 <= j < over ==> (#[trigger] replies[j]).kind != ResponseKind::Error && replies[j].kind
                != ResponseKind::SessionFinished,
        over < replies.len() ==> replies[over].kind == ResponseKind::SessionFinished,
        replies[at].kind == ResponseKind::Final,
        forall|j: int| at < j < over ==> (#[trigger] replies[j]).kind != ResponseKind::Final,
    ensures
        heard(replies) == Ok::<Seq<char>, AsrErrorView>(text::trimmed(replies[at].text)),
{
    lemma_ending(replies, over);
    lemma_final_text(replies.take(over), at);
}

/// A session without a final reply before its end says nothing, which is no failure.
pub proof fn law_session_without_final_is_empty(replies: Seq<ResponseView>, over: int)
    requires
        0 <= over <= replies.len(),
        forall|j: int|
            0 <= j < over ==> (#[trigger] replies[j]).kind != ResponseKind::Error && replies[j].kind
                != ResponseKind::SessionFinished && replies[j].kind != ResponseKind::Final,
        over < replies.len() ==> replies[over].kind == ResponseKind::SessionFinished,
    ensures
        heard(replies) == Ok::<Seq<char>, AsrErrorView>(Seq::empty()),
{
    lemma_ending(replies, over);
    lemma_no_final_text(replies.take(over));
}

/// A failure before the end of a session fails it with the message of the failure,
/// whatever was heard before.
pub proof fn law_failure_fails_the_session(replies: Seq<ResponseView>, at: int)
    requires
        0 <= at < replies.len(),
        forall|j: int|
            0 <= j < at ==> (#[trigger] replies[j]).kind != ResponseKind::Error && replies[j].kind
                != ResponseKind::SessionFinished,
        replies[at].kind == ResponseKind::Error,
    ensures
        heard(replies) == Err::<Seq<char>, AsrErrorView>(
            AsrErrorView::Request("doubao ASR failed: "@ + replies[at].error_msg),
        ),
{
    lemma_ending(replies, at);
}

/// A reply that came from the second pass before the end of its session, with no final
/// reply after it, gives the session its text: the last text of its results that is not
/// empty, trimmed.
pub proof fn law_second_pass_gives_the_text(
    replies: Seq<ResponseView>,
    over: int,
    at: int,
    value: JsonView,
    results: Seq<JsonView>,
    i: int,
    k: int,
)
    requires
        0 <= at < over <= replies.len(),
        forall|j: int|
            0 <= j < over ==> (#[trigger] replies[j]).kind != ResponseKind::Error && replies[j].kind
                != ResponseKind::SessionFinished,
        over < replies.len() ==> replies[over].kind == ResponseKind::SessionFinished,
        forall|j: int| at < j < over ==> (#[trigger] replies[j]).kind != ResponseKind::Final,
        replies[at] == results_say(value),
        value.get("results"@) == Some(JsonView::Array(results)),
        !(value.get("extra"@) matches Some(x) && x.get("vad_start"@) == Some(JsonView::Bool(true))),
        0 <= i < results.len(),
        results[i].get("extra"@) matches Some(x) && x.get("nonstream_result"@) == Some(
            JsonView::Bool(true),
        ),
        0 <= k < results.len(),
        results[k].get("text"@) matches Some(JsonView::Text(t)) && t.len() > 0,
        forall|j: int|
            k < j < results.len() ==> !((#[trigger] results[j]).get("text"@) matches Some(
                JsonView::Text(u),
            ) && u.len() > 0),
    ensures
        heard(replies) == Ok::<Seq<char>, AsrErrorView>(
            text::trimmed(results[k].get("text"@)->0->Text_0),
        ),
{
    law_second_pass_is_final(value, results, i);
    law_reply_has_the_last_text(value, results);
    let t = results[k].get("text"@)->0->Text_0;
    assert(results[k].get("text"@) == Some(JsonView::Text(t)));
    law_session_yields_its_last_final(replies, over, at);
}

/// Of more frames than one exactly the first is marked as the first and exactly the last
/// as the last; a frame that stands alone is a first one. The marks differ on the wire.
pub proof fn law_frames_are_marked(index: int, count: int)
    requires
        0 <= index < count,
    ensures
        FrameState::of(index, count) == FrameState::First <==> index == 0,
        FrameState::of(index, count) == FrameState::Last <==> index == count - 1 && count > 1,
        FrameState::of(index, count) == FrameState::Middle <==> 0 < index < count - 1,
        forall|a: FrameState, b: FrameState| #[trigger]
            a.number() == #[trigger] b.number() ==> a == b,
{
}

/// A session is opened for the device that asks, with both further passes over the audio
/// and punctuation, and for speech of one channel at the rate at which frames are made.
pub proof fn law_session_is_configured(device_id: Seq<char>)
    ensures
        ({
            let c = session_config(device_id);
            &&& c.get("enable_punctuation"@) == Some(JsonView::Bool(true))
            &&& c.get("enable_speech_rejection"@) == Some(JsonView::Bool(false))
            &&& c.get("extra"@) matches Some(x) && x.get("did"@) == Some(JsonView::Text(device_id))
                && x.get("enable_asr_twopass"@) == Some(JsonView::Bool(true)) && x.get(
                "enable_asr_threepass"@,
            ) == Some(JsonView::Bool(true))
            &&& c.get("audio_info"@) matches Some(a) && a.get("sample_rate"@) == Some(
                JsonView::Number(text::decimal(SAMPLE_RATE as nat)),
            ) && a.get("channel"@) == Some(JsonView::Number(text::decimal(1))) && a.get("format"@)
                == Some(JsonView::Text("speech_opus"@))
        }),
{
    let c = session_config(device_id)->Object_0;
    assert(c[0].0.len() == 10 && c[1].0.len() == 18 && c[2].0.len() == 23 && c[3].0.len() == 5)
        by {
        reveal_strlit("audio_info");
        reveal_strlit("enable_punctuation");
        reveal_strlit("enable_speech_rejection");
        reveal_strlit("extra");
    }
    json::law_first_member_of_a_name(c, c[0].0);
    json::law_first_member_of_a_name(c, c[1].0);
    json::law_first_member_of_a_name(c, c[2].0);
    json::law_first_member_of_a_name(c, c[3].0);
    let x = c[3].1->Object_0;
    assert(x[0].0.len() == 8 && x[1].0[0] == 'c' && x[2].0.len() == 3 && x[3].0.len() == 20
        && x[4].0.len() == 18 && x[4].0[0] == 'e' && x[1].0.len() == 18) by {
        reveal_strlit("app_name");
        reveal_strlit("cell_compress_rate");
        reveal_strlit("did");
        reveal_strlit("enable_asr_threepass");
        reveal_strlit("enable_asr_twopass");
    }
    json::law_first_member_of_a_name(x, x[2].0);
    json::law_first_member_of_a_name(x, x[3].0);
    json::law_first_member_of_a_name(x, x[4].0);
    let a = c[0].1->Object_0;
    assert(a[0].0.len() == 7 && a[1].0.len() == 6 && a[2].0.len() == 11) by {
        reveal_strlit("channel");
        reveal_strlit("format");
        reveal_strlit("sample_rate");
    }
    json::law_first_member_of_a_name(a, a[0].0);
    json::law_first_member_of_a_name(a, a[1].0);
    json::law_first_member_of_a_name(a, a[2].0);
}

/// A frame is sent with its time.
pub proof fn law_frame_has_its_time(timestamp_ms: u64)
    ensures
        frame_payload(timestamp_ms).get("timestamp_ms"@) == Some(
            JsonView::Number(text::decimal(timestamp_ms as nat)),
        ),
{
    reveal_strlit("extra");
    reveal_strlit("timestamp_ms");
    let m = frame_payload(timestamp_ms)->Object_0;
    json::law_first_member_of_a_name(m, "timestamp_ms"@);
    assert(m[0].0 == "extra"@ && m[1].0 == "timestamp_ms"@);
}

/// The fields of a reply stand under the numbers that the service gives them.
pub proof fn law_reply_fields_have_their_numbers(i: int)
    requires
        0 <= i < response_layout().len(),
    ensures
        response_layout().len() == 8,
        response_layout()[i].tag == if i < 7 {
            i + 1
        } else {
            9
        },
        response_layout()[i].kind == FieldKind::Int <==> i == 4 || i == 7,
        response_layout()[i].kind == FieldKind::Text <==> i != 4 && i != 7,
{
}

/// The fields of a request stand under the numbers that the service gives them.
pub proof fn law_request_fields_have_their_numbers(i: int)
    requires
        0 <= i < request_layout().len(),
    ensures
        request_layout().len() == 7,
        request_layout()[i].tag == if i < 2 {
            i + 2
        } else {
            i + 3
        },
        request_layout()[i].kind == FieldKind::Bytes <==> i == 4,
        request_layout()[i].kind == FieldKind::Int <==> i == 6,
{
}

/// What the bytes of a reply say is what its message type, its status message and its result
/// say, whatever else is in it.
pub proof fn law_reply_says_what_is_in_it(response: AsrResponsePb)
    requires
        forall|i: int|
            #![trigger response.values()[i]]
            0 <= i < 8 ==> wire::countable(response.values()[i]),
    ensures
        bytes_say(wire::encoded(response_layout(), response.values())) == response_says(
            response.message_type@,
            response.status_message@,
            response.result_json@,
        ),
{
    law_response_round_trip(response);
    assert(response.values()[3] == ValueView::Text(response.message_type@));
    assert(response.values()[5] == ValueView::Text(response.status_message@));
    assert(response.values()[6] == ValueView::Text(response.result_json@));
}

} // verus!
