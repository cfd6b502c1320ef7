//! A session of the embedded Qianwen runtime: what it offers, the files and the
//! environment it gets, and how its buffers are read.
use super::place::QianwenAsr;
use super::report;
use crate::asr::{
    AsrCapabilities, AsrError, AsrOptions, AsrProvider, LiveAsrProvider, LiveCapabilities,
    LiveModeKind, ProviderCapabilities, Transcript,
};
#[allow(unused_imports)]
use crate::asr::AsrErrorView;
use crate::event::AudioInput;
use crate::json;
use crate::json::{Json, JsonView};
use crate::text;
use vstd::prelude::*;
use vstd::string::*;

verus! {

pub const DEFAULT_MODEL: &'static str = "qianwenime-asr";

pub const DEFAULT_WSG_SHIM_NAME: &'static str = "libdicta_qianwen_wsg_shim.dylib";

pub const ENV_HOST_BUNDLE_PATH: &'static str = "DICTA_QIANWEN_HOST_BUNDLE_PATH";

pub const ENV_ASR_QUERY_SIGN: &'static str = "QWEN_SHELL_ASR_QUERY_SIGN";

pub const ENV_UTDID_SDK_DIR: &'static str = "QWEN_SHELL_UTDID_SDK_DIR";

pub const ENV_SETTINGS_PATH: &'static str = "QIANWEN_SHELL_SETTINGS_PATH";

pub const ENV_WSG_IMPL_PATH: &'static str = "QIANWEN_WSG_IMPL_PATH";

pub const ENV_UNET_RUNTIME_PATH: &'static str = "DICTA_QIANWEN_UNET_RUNTIME_PATH";

pub const ENV_UNET_PROCESS_NAME: &'static str = "DICTA_QIANWEN_UNET_PROCESS_NAME";

pub const DEFAULT_MICROPHONE_SETTING_KEY: &'static str =
    "browser.quark.ai.voice_input.default_microphone";

pub const INITIAL_BUFFER_CAPACITY: u32 = 65_536;

pub const MAX_BUFFER_CAPACITY: u32 = 4_194_304;

/// Why a file cannot be transcribed.
pub const BATCH_REFUSAL: &'static str =
    "qianwen uses the local Qianwen Shell embedded runtime and only supports live microphone transcription; run with --asr qianwen --live";

pub const RUNTIME_NOT_FOUND: &'static str =
    "qianwen embedded runtime not found; set --qianwen-host-bundle-path or --qianwen-runtime-path";

pub open spec fn live_offer() -> LiveCapabilities {
    LiveCapabilities {
        mode: LiveModeKind::Streaming,
        mic: true,
        speaker: false,
        streaming_audio: true,
        partial_results: true,
        finalized_results: true,
        translation: false,
        voice_processing: false,
        device_selection: false,
        ptt: false,
        requires_network: true,
        expected_latency: None,
    }
}

pub fn qianwen_live_capabilities() -> (r: LiveCapabilities)
    ensures
        r == live_offer(),
{
    LiveCapabilities {
        mode: LiveModeKind::Streaming,
        mic: true,
        speaker: false,
        streaming_audio: true,
        partial_results: true,
        finalized_results: true,
        translation: false,
        voice_processing: false,
        device_selection: false,
        ptt: false,
        requires_network: true,
        expected_latency: None,
    }
}

pub fn qianwen_capabilities() -> (r: ProviderCapabilities)
    ensures
        r.batch == (AsrCapabilities {
            batch_file: false,
            streaming: false,
            requires_network: true,
        }),
        r.live == Some(live_offer()),
        text::texts(r.notes@) == seq![
            "Qianwen uses the local Qianwen Shell embedded runtime from an installed or supplied qw bundle."@,
            "Batch file transcription is not exposed by the Qianwen IME voice input runtime."@,
        ],
{
    let mut notes: Vec<String> = Vec::new();
    notes.push(
        text::copy(
            "Qianwen uses the local Qianwen Shell embedded runtime from an installed or supplied qw bundle.",
        ),
    );
    notes.push(
        text::copy(
            "Batch file transcription is not exposed by the Qianwen IME voice input runtime.",
        ),
    );
    assert(text::texts(notes@) =~= seq![
        "Qianwen uses the local Qianwen Shell embedded runtime from an installed or supplied qw bundle."@,
        "Batch file transcription is not exposed by the Qianwen IME voice input runtime."@,
    ]);
    ProviderCapabilities {
        batch: AsrCapabilities { batch_file: false, streaming: false, requires_network: true },
        live: Some(qianwen_live_capabilities()),
        notes,
    }
}

/// The name of one of the session's files.
pub fn session_file(session_id: &str, name: &str) -> (r: String)
    ensures
        r@ == session_id@ + "-"@ + name@,
{
    text::cat3(session_id, "-", name)
}

/// The name of a file in the directory for temporary files.
pub fn temp_file_name(now_millis: u64, name: &str) -> (r: String)
    ensures
        r@ == "dicta-qianwen-"@ + text::decimal(now_millis as nat) + "-"@ + name@,
{
    text::cat4("dicta-qianwen-", text::number(now_millis).as_str(), "-", name)
}

/// A variable to set, always or where it is not set yet.
#[derive(Debug, Clone, PartialEq, Eq)]
pub struct EnvSetting {
    pub key: String,
    pub value: String,
    pub only_if_absent: bool,
}

pub struct EnvSettingView {
    pub key: Seq<char>,
    pub value: Seq<char>,
    pub only_if_absent: bool,
}

impl View for EnvSetting {
    type V = EnvSettingView;

    open spec fn view(&self) -> EnvSettingView {
        EnvSettingView {
            key: self.key@,
            value: self.value@,
            only_if_absent: self.only_if_absent,
        }
    }
}

pub open spec fn settings(v: Seq<EnvSetting>) -> Seq<EnvSettingView> {
    Seq::new(v.len(), |i: int| v[i]@)
}

/// What a session is started with, each path as the text it is handed over as.
#[derive(Debug, Clone, PartialEq, Eq)]
pub struct SessionPlan {
    pub session_id: String,
    pub runtime: String,
    pub history: String,
    pub debug_log: String,
    pub observability_dir: String,
    pub settings: Option<String>,
    pub microphone: Option<AudioDeviceSetting>,
    pub asr_query_sign: Option<String>,
    /// The directory of the bundle's frameworks.
    pub frameworks: Option<String>,
    /// The network runtime of the bundle, where it stands.
    pub unet_runtime: Option<String>,
    pub wsg_impl: Option<String>,
}

/// An input device, as the runtime's settings name it.
#[derive(Debug, Clone, PartialEq, Eq)]
pub struct AudioDeviceSetting {
    pub id: String,
    pub name: String,
}

pub open spec fn always(key: Seq<char>, value: Seq<char>) -> EnvSettingView {
    EnvSettingView { key, value, only_if_absent: false }
}

pub open spec fn if_absent(key: Seq<char>, value: Seq<char>) -> EnvSettingView {
    EnvSettingView { key, value, only_if_absent: true }
}

/// At most one setting.
pub open spec fn maybe(key: Seq<char>, value: Option<Seq<char>>) -> Seq<EnvSettingView> {
    match value {
        Some(v) => seq![always(key, v)],
        None => Seq::empty(),
    }
}

impl SessionPlan {
    /// The variables that the runtime reads when it starts, in the order they are set.
    pub open spec fn environment(self) -> Seq<EnvSettingView> {
        seq![
            always("QIANWEN_SHELL_VOICE_HISTORY_PATH"@, self.history@),
            always("QWEN_SHELL_VOICE_DEBUG_LOG"@, self.debug_log@),
            always("QWEN_SHELL_OBSERVABILITY_DIR"@, self.observability_dir@),
            always("QWEN_SHELL_RUN_ID"@, self.session_id@),
        ] + maybe(ENV_SETTINGS_PATH@, text::text_of(self.settings)) + maybe(
            ENV_ASR_QUERY_SIGN@,
            text::filled(text::text_of(self.asr_query_sign)),
        ) + (match self.frameworks {
            Some(dir) => seq![if_absent(ENV_UTDID_SDK_DIR@, dir@)],
            None => Seq::empty(),
        }) + (match self.unet_runtime {
            Some(runtime) => seq![
                always(ENV_UNET_RUNTIME_PATH@, runtime@),
                if_absent(ENV_UNET_PROCESS_NAME@, "qianwen-ime"@),
            ],
            None => Seq::empty(),
        }) + maybe(ENV_WSG_IMPL_PATH@, text::text_of(self.wsg_impl))
    }

    /// Where the parts of the session are, in words.
    pub open spec fn detail(self) -> Seq<char> {
        "runtime="@ + self.runtime@ + ", log="@ + self.debug_log@ + ", observability="@
            + self.observability_dir@ + (match self.wsg_impl {
            Some(p) => ", wsg="@ + p@,
            None => Seq::empty(),
        }) + (match self.settings {
            Some(p) => ", settings="@ + p@,
            None => Seq::empty(),
        }) + (match self.microphone {
            Some(d) => ", mic="@ + d.name@ + " ("@ + d.id@ + ")"@,
            None => Seq::empty(),
        })
    }

    pub fn environment_settings(&self) -> (r: Vec<EnvSetting>)
        ensures
            settings(r@) == self.environment(),
    {
        let mut r: Vec<EnvSetting> = Vec::new();
        push_setting(&mut r, "QIANWEN_SHELL_VOICE_HISTORY_PATH", self.history.as_str(), false);
        push_setting(&mut r, "QWEN_SHELL_VOICE_DEBUG_LOG", self.debug_log.as_str(), false);
        push_setting(
            &mut r,
            "QWEN_SHELL_OBSERVABILITY_DIR",
            self.observability_dir.as_str(),
            false,
        );
        push_setting(&mut r, "QWEN_SHELL_RUN_ID", self.session_id.as_str(), false);
        if let Some(p) = &self.settings {
            push_setting(&mut r, ENV_SETTINGS_PATH, p.as_str(), false);
        }
        if let Some(sign) = text::non_empty(&self.asr_query_sign) {
            push_setting(&mut r, ENV_ASR_QUERY_SIGN, sign.as_str(), false);
        }
        if let Some(dir) = &self.frameworks {
            push_setting(&mut r, ENV_UTDID_SDK_DIR, dir.as_str(), true);
        }
        if let Some(runtime) = &self.unet_runtime {
            push_setting(&mut r, ENV_UNET_RUNTIME_PATH, runtime.as_str(), false);
            push_setting(&mut r, ENV_UNET_PROCESS_NAME, "qianwen-ime", true);
        }
        if let Some(p) = &self.wsg_impl {
            push_setting(&mut r, ENV_WSG_IMPL_PATH, p.as_str(), false);
        }
        assert(settings(r@) =~= self.environment());
        r
    }

    pub fn status_detail(&self) -> (r: String)
        ensures
            r@ == self.detail(),
    {
        let mut r = text::copy("runtime=");
        r.append(self.runtime.as_str());
        r.append(", log=");
        r.append(self.debug_log.as_str());
        r.append(", observability=");
        r.append(self.observability_dir.as_str());
        if let Some(p) = &self.wsg_impl {
            let part = text::cat(", wsg=", p.as_str());
            r.append(part.as_str());
        }
        if let Some(p) = &self.settings {
            let part = text::cat(", settings=", p.as_str());
            r.append(part.as_str());
        }
        if let Some(d) = &self.microphone {
            let part = text::cat5(", mic=", d.name.as_str(), " (", d.id.as_str(), ")");
            r.append(part.as_str());
        }
        assert(r@ =~= self.detail());
        r
    }
}

fn push_setting(all: &mut Vec<EnvSetting>, key: &str, value: &str, only_if_absent: bool)
    ensures
        settings(final(all)@) == settings(old(all)@).push(
            EnvSettingView { key: key@, value: value@, only_if_absent },
        ),
{
    let ghost before = settings(all@);
    all.push(EnvSetting { key: text::copy(key), value: text::copy(value), only_if_absent });
    assert(settings(all@) =~= before.push(
        EnvSettingView { key: key@, value: value@, only_if_absent },
    ));
}

/// The description of the microphone in the runtime's settings.
pub open spec fn describes(v: JsonView, device: AudioDeviceSetting) -> bool {
    &&& v.text_at("device_id"@) == Some(device.id@)
    &&& v.text_at("device_name"@) == Some(device.name@)
    &&& v.truth_at("is_default"@) == Some(false)
    &&& v.text_at("deviceId"@) == Some(device.id@)
    &&& v.text_at("deviceName"@) == Some(device.name@)
    &&& v.truth_at("isDefault"@) == Some(false)
}

fn device_description(device: &AudioDeviceSetting) -> (r: Json)
    ensures
        describes(r.value(), *device),
{
    let id = device.id.as_str();
    let name = device.name.as_str();
    let mut members: Vec<(String, Json)> = Vec::new();
    members = json::with_member(members, "device_id", Json::Text(text::copy(id)));
    members = json::with_member(members, "device_name", Json::Text(text::copy(name)));
    members = json::with_member(members, "is_default", Json::Bool(false));
    members = json::with_member(members, "deviceId", Json::Text(text::copy(id)));
    members = json::with_member(members, "deviceName", Json::Text(text::copy(name)));
    members = json::with_member(members, "isDefault", Json::Bool(false));
    let r = Json::Object(members);
    proof {
        reveal_strlit("device_id");
        reveal_strlit("device_name");
        reveal_strlit("is_default");
        reveal_strlit("deviceId");
        reveal_strlit("deviceName");
        reveal_strlit("isDefault");
        assert("device_id"@.len() == 9);
        assert("device_name"@.len() == 11);
        assert("is_default"@.len() == 10);
        assert("deviceId"@.len() == 8);
        assert("deviceName"@.len() == 10);
        assert("isDefault"@.len() == 9);
        assert("device_id"@[0] != "isDefault"@[0]);
        assert("is_default"@[0] != "deviceName"@[0]);
        assert(r.value()->Object_0 =~= json::member_views(members@));
        let all = json::member_views(members@);
        assert(json::member(all, "isDefault"@) == Some(JsonView::Bool(false)));
        assert(json::member(all, "deviceName"@) == Some(JsonView::Text(name@)));
        assert(json::member(all, "deviceId"@) == Some(JsonView::Text(id@)));
        assert(json::member(all, "is_default"@) == Some(JsonView::Bool(false)));
        assert(json::member(all, "device_name"@) == Some(JsonView::Text(name@)));
        assert(json::member(all, "device_id"@) == Some(JsonView::Text(id@)));
    }
    r
}

/// The user's settings with the microphone set, and all else as it was.
pub fn qianwen_settings_with_default_microphone(
    settings: Vec<(String, Json)>,
    device: &AudioDeviceSetting,
) -> (r: Json)
    ensures
        r.value().get(DEFAULT_MICROPHONE_SETTING_KEY@) is Some,
        describes(r.value().get(DEFAULT_MICROPHONE_SETTING_KEY@)->0, *device),
        forall|key: Seq<char>|
            key != DEFAULT_MICROPHONE_SETTING_KEY@ ==> #[trigger] r.value().get(key)
                == json::member(json::member_views(settings@), key),
{
    let described = device_description(device);
    let members = json::with_member(settings, DEFAULT_MICROPHONE_SETTING_KEY, described);
    let r = Json::Object(members);
    proof {
        let all = json::member_views(members@);
        assert(r.value()->Object_0 =~= all);
        assert(json::member(all, DEFAULT_MICROPHONE_SETTING_KEY@) == Some(described.value()));
        assert forall|key: Seq<char>| key != DEFAULT_MICROPHONE_SETTING_KEY@ implies #[trigger]
            r.value().get(key) == json::member(json::member_views(settings@), key) by {
            assert(r.value().get(key) == json::member(all, key));
        }
    }
    r
}

/// The user's settings in the text of their file: none where it is no JSON object.
pub fn user_settings(content: &Option<String>) -> (r: Vec<(String, Json)>)
    ensures
        json::member_views(r@) == match content {
            Some(c) => match json::parsed(c@) {
                Ok(JsonView::Object(members)) => members,
                _ => Seq::empty(),
            },
            None => Seq::empty(),
        },
{
    let mut r: Vec<(String, Json)> = Vec::new();
    if let Some(c) = content {
        if let Ok(value) = json::parse(c.as_str()) {
            if let Json::Object(members) = value {
                proof {
                    assert(value.value()->Object_0 =~= json::member_views(members@));
                }
                return members;
            }
        }
    }
    assert(json::member_views(r@) =~= Seq::empty());
    r
}

/// The device setting for a device: its identifier by the first scope that has
/// one, its name unless that is blank.
pub fn device_setting(
    device_id: u32,
    global_uid: Option<String>,
    input_uid: Option<String>,
    name: Option<String>,
) -> (r: Option<AudioDeviceSetting>)
    ensures
        r is Some <==> device_id != 0 && (global_uid is Some || input_uid is Some),
        r matches Some(d) ==> {
            let uid = if global_uid is Some {
                global_uid->0@
            } else {
                input_uid->0@
            };
            &&& d.id@ == uid
            &&& d.name@ == if name is Some && text::trimmed(name->0@).len() > 0 {
                name->0@
            } else {
                uid
            }
        },
{
    if device_id == 0 {
        return None;
    }
    let id = match global_uid {
        Some(id) => id,
        None => match input_uid {
            Some(id) => id,
            None => {
                return None;
            },
        },
    };
    let name = match name {
        Some(name) => if text::trim(name.as_str()).as_str().is_empty() {
            text::copy(id.as_str())
        } else {
            name
        },
        None => text::copy(id.as_str()),
    };
    Some(AudioDeviceSetting { id, name })
}

/// What the runtime is told of the process it runs in.
pub fn qianwen_process_args_json() -> (r: &'static str)
    ensures
        r@ == "{\"source\":\"qianwen_desktop_shell_standalone_ime_service\",\"runtimeMode\":\"standalone\",\"headless\":true,\"argv\":[],\"switches\":{\"qianwen-ime\":\"1\",\"qianwen-ime-shell-process\":\"1\",\"qianwen-desktop-shell-standalone\":\"1\"}}"@,
{
    "{\"source\":\"qianwen_desktop_shell_standalone_ime_service\",\"runtimeMode\":\"standalone\",\"headless\":true,\"argv\":[],\"switches\":{\"qianwen-ime\":\"1\",\"qianwen-ime-shell-process\":\"1\",\"qianwen-desktop-shell-standalone\":\"1\"}}"
}

/// A number with its sign.
pub open spec fn signed(n: int) -> Seq<char> {
    if n < 0 {
        "-"@ + text::decimal((-n) as nat)
    } else {
        text::decimal(n as nat)
    }
}

fn signed_number(n: i32) -> (r: String)
    ensures
        r@ == signed(n as int),
{
    let wide: i64 = n as i64;
    if wide < 0 {
        text::cat("-", text::number((-wide) as u64).as_str())
    } else {
        text::number(wide as u64)
    }
}

/// The outcome of a call into the runtime: 0 is success.
pub fn call_status(name: &str, status: i32) -> (r: Result<(), AsrError>)
    ensures
        r is Ok <==> status == 0,
        r matches Err(e) ==> e@ == AsrErrorView::Request(
            "qianwen embedded call "@ + name@ + " failed with status "@ + signed(status as int),
        ),
{
    if status == 0 {
        Ok(())
    } else {
        Err(
            AsrError::Request(
                text::cat4(
                    "qianwen embedded call ",
                    name,
                    " failed with status ",
                    signed_number(status).as_str(),
                ),
            ),
        )
    }
}

/// `n` is the smallest power of two that is greater than `len`.
pub open spec fn room_for(n: int, len: int) -> bool {
    n > len && (exists|k: nat| n == #[trigger] vstd::arithmetic::power2::pow2(k)) && (n == 1 || n / 2 <= len)
}

/// The capacity for a text of `required_len` bytes and its end: the next power of
/// two, unless that is over the limit.
pub fn grow_buffer_capacity(required_len: u32) -> (r: Result<u32, AsrError>)
    ensures
        r is Ok <==> required_len < MAX_BUFFER_CAPACITY,
        r matches Ok(n) ==> room_for(n as int, required_len as int) && n <= MAX_BUFFER_CAPACITY,
        r matches Err(e) ==> e@ == AsrErrorView::InvalidResponse(
            "qianwen JSON payload too large: required "@ + text::decimal(required_len as nat)
                + " bytes"@,
        ),
{
    if required_len >= MAX_BUFFER_CAPACITY {
        return Err(
            AsrError::InvalidResponse(
                text::cat3(
                    "qianwen JSON payload too large: required ",
                    text::number(required_len as u64).as_str(),
                    " bytes",
                ),
            ),
        );
    }
    let mut n: u32 = 1;
    let ghost mut k: nat = 0;
    proof {
        vstd::arithmetic::power2::lemma2_to64();
    }
    while n <= required_len
        invariant
            required_len < MAX_BUFFER_CAPACITY,
            n == vstd::arithmetic::power2::pow2(k),
            k <= 22,
            n == 1 || n / 2 <= required_len,
            n <= MAX_BUFFER_CAPACITY,
        decreases MAX_BUFFER_CAPACITY - n,
    {
        proof {
            vstd::arithmetic::power2::lemma2_to64();
            vstd::arithmetic::power2::lemma_pow2_unfold(k + 1);
            if k >= 22 {
                if k > 22 {
                    assert(false);
                }
                assert(n == 4194304);
                assert(false);
            }
            if k < 21 {
                vstd::arithmetic::power2::lemma_pow2_strictly_increases(k, 21);
            }
            k = k + 1;
        }
        n = n * 2;
    }
    Ok(n)
}

/// What to do with what the runtime wrote into a buffer.
#[derive(Debug, Clone, Copy, PartialEq, Eq, Structural)]
pub enum Drain {
    /// Ask again with a buffer of this capacity.
    Grow(u32),
    /// Take this many bytes.
    Take(u32),
}

/// Reads the outcome of a call that fills a buffer of `capacity` bytes.
pub fn drain_outcome(name: &str, capacity: u32, required_len: u32, status: i32, len: u32) -> (r:
    Result<Drain, AsrError>)
    ensures
        if required_len > capacity {
            match r {
                Ok(Drain::Grow(n)) => required_len < MAX_BUFFER_CAPACITY && room_for(
                    n as int,
                    required_len as int,
                ),
                Ok(Drain::Take(_)) => false,
                Err(e) => required_len >= MAX_BUFFER_CAPACITY && e@
                    == AsrErrorView::InvalidResponse(
                    "qianwen JSON payload too large: required "@ + text::decimal(
                        required_len as nat,
                    ) + " bytes"@,
                ),
            }
        } else if status != 0 {
            r is Err && r->Err_0@ == AsrErrorView::Request(
                "qianwen "@ + name@ + " drain failed with status "@ + signed(status as int),
            )
        } else {
            r == Ok::<Drain, AsrError>(
                Drain::Take(
                    if len < capacity {
                        len
                    } else {
                        capacity
                    },
                ),
            )
        },
{
    if required_len > capacity {
        return match grow_buffer_capacity(required_len) {
            Ok(n) => Ok(Drain::Grow(n)),
            Err(e) => Err(e),
        };
    }
    if status != 0 {
        return Err(
            AsrError::Request(
                text::cat4(
                    "qianwen ",
                    name,
                    " drain failed with status ",
                    signed_number(status).as_str(),
                ),
            ),
        );
    }
    if len < capacity {
        Ok(Drain::Take(len))
    } else {
        Ok(Drain::Take(capacity))
    }
}

/// The bytes before the first zero, or all of them.
pub open spec fn before_nul(bytes: Seq<u8>) -> Seq<u8>
    decreases bytes.len(),
{
    if bytes.len() == 0 || bytes[0] == 0 {
        Seq::empty()
    } else {
        seq![bytes[0]] + before_nul(bytes.subrange(1, bytes.len() as int))
    }
}

fn until_nul(bytes: &Vec<u8>) -> (r: Vec<u8>)
    ensures
        r@ == before_nul(bytes@),
{
    let mut r: Vec<u8> = Vec::new();
    let mut i: usize = 0;
    assert(bytes@.subrange(0, bytes@.len() as int) =~= bytes@);
    assert(r@ + before_nul(bytes@) =~= before_nul(bytes@));
    while i < bytes.len() && bytes[i] != 0
        invariant
            i <= bytes@.len(),
            before_nul(bytes@) == r@ + before_nul(bytes@.subrange(i as int, bytes@.len() as int)),
        decreases bytes@.len() - i,
    {
        let ghost rest = bytes@.subrange(i as int, bytes@.len() as int);
        let ghost before = r@;
        r.push(bytes[i]);
        proof {
            assert(rest.subrange(1, rest.len() as int) =~= bytes@.subrange(
                i + 1,
                bytes@.len() as int,
            ));
            assert(before + (seq![rest[0]] + before_nul(rest.subrange(1, rest.len() as int)))
                =~= r@ + before_nul(rest.subrange(1, rest.len() as int)));
        }
        i = i + 1;
    }
    assert(r@ + Seq::<u8>::empty() =~= r@);
    r
}

/// The text in the bytes of a drained buffer.
pub fn buffer_text(name: &str, bytes: &Vec<u8>) -> (r: Result<String, AsrError>)
    ensures
        match r {
            Ok(s) => text::utf8(s@) == before_nul(bytes@),
            Err(e) => !text::is_utf8(before_nul(bytes@)) && e@ == AsrErrorView::InvalidResponse(
                "qianwen "@ + name@ + " json is not utf-8: "@ + text::utf8_fault(
                    before_nul(bytes@),
                ),
            ),
        },
        r is Ok <==> text::is_utf8(before_nul(bytes@)),
{
    let taken = until_nul(bytes);
    match text::of_utf8(taken) {
        Ok(s) => Ok(s),
        Err(fault) => Err(
            AsrError::InvalidResponse(
                text::cat4("qianwen ", name, " json is not utf-8: ", fault.as_str()),
            ),
        ),
    }
}

impl QianwenAsr {
    /// Files are refused, whatever they hold.
    pub fn transcribe(&self, _input: &AudioInput, _options: &AsrOptions) -> (r: Result<
        Transcript,
        AsrError,
    >)
        ensures
            r is Err,
            r->Err_0@ == AsrErrorView::Input(BATCH_REFUSAL@),
    {
        Err(AsrError::Input(text::copy(BATCH_REFUSAL)))
    }
}

impl AsrProvider for QianwenAsr {
    open spec fn called(&self) -> Seq<char> {
        "qianwen"@
    }

    open spec fn offers(&self) -> AsrCapabilities {
        AsrCapabilities { batch_file: false, streaming: false, requires_network: true }
    }

    fn name(&self) -> &'static str {
        "qianwen"
    }

    fn capabilities(&self) -> AsrCapabilities {
        qianwen_capabilities().batch
    }

    fn provider_capabilities(&self) -> (r: ProviderCapabilities)
        ensures
            r.live == Some(live_offer()),
            text::texts(r.notes@) == seq![
                "Qianwen uses the local Qianwen Shell embedded runtime from an installed or supplied qw bundle."@,
                "Batch file transcription is not exposed by the Qianwen IME voice input runtime."@,
            ],
    {
        qianwen_capabilities()
    }
}

impl LiveAsrProvider for QianwenAsr {
    open spec fn called_live(&self) -> Seq<char> {
        "qianwen"@
    }

    open spec fn offers_live(&self) -> LiveCapabilities {
        live_offer()
    }

    fn live_name(&self) -> &'static str {
        "qianwen"
    }

    fn live_capabilities(&self) -> LiveCapabilities {
        qianwen_live_capabilities()
    }
}

/// What is read from a buffer ends before the first zero, or with the buffer, and misses
/// nothing before that.
pub proof fn law_text_ends_before_the_zero(bytes: Seq<u8>)
    ensures
        before_nul(bytes).len() <= bytes.len(),
        before_nul(bytes) == bytes.take(before_nul(bytes).len() as int),
        forall|i: int| 0 <= i < before_nul(bytes).len() ==> #[trigger] bytes[i] != 0,
        before_nul(bytes).len() < bytes.len() ==> bytes[before_nul(bytes).len() as int] == 0,
    decreases bytes.len(),
{
    if bytes.len() > 0 && bytes[0] != 0 {
        let rest = bytes.subrange(1, bytes.len() as int);
        law_text_ends_before_the_zero(rest);
        let n = before_nul(bytes).len() as int;
        assert(before_nul(bytes) =~= bytes.take(n));
        assert forall|i: int| 0 <= i < n implies #[trigger] bytes[i] != 0 by {
            if i > 0 {
                assert(rest[i - 1] == bytes[i]);
            }
        }
    } else {
        assert(bytes.take(0) =~= Seq::empty());
    }
}

/// The runtime is told where its history, its log and its observations go and under which
/// session it runs; the signature of a query is told where it is not blank, trimmed.
pub proof fn law_runtime_is_told_its_session(s: SessionPlan)
    ensures
        s.environment().contains(always("QIANWEN_SHELL_VOICE_HISTORY_PATH"@, s.history@)),
        s.environment().contains(always("QWEN_SHELL_VOICE_DEBUG_LOG"@, s.debug_log@)),
        s.environment().contains(always("QWEN_SHELL_OBSERVABILITY_DIR"@, s.observability_dir@)),
        s.environment().contains(always("QWEN_SHELL_RUN_ID"@, s.session_id@)),
        (s.asr_query_sign matches Some(q) && text::trimmed(q@).len() > 0)
            ==> s.environment().contains(
            always(ENV_ASR_QUERY_SIGN@, text::trimmed(s.asr_query_sign->0@)),
        ),
        s.settings matches Some(p) ==> s.environment().contains(always(ENV_SETTINGS_PATH@, p@)),
{
    let all = s.environment();
    assert(all[0] == always("QIANWEN_SHELL_VOICE_HISTORY_PATH"@, s.history@));
    assert(all[1] == always("QWEN_SHELL_VOICE_DEBUG_LOG"@, s.debug_log@));
    assert(all[2] == always("QWEN_SHELL_OBSERVABILITY_DIR"@, s.observability_dir@));
    assert(all[3] == always("QWEN_SHELL_RUN_ID"@, s.session_id@));
    let n: int = if s.settings is Some {
        5
    } else {
        4
    };
    if s.settings is Some {
        assert(all[4] == always(ENV_SETTINGS_PATH@, s.settings->0@));
    }
    if let Some(q) = s.asr_query_sign {
        if text::trimmed(q@).len() > 0 {
            assert(all[n] == always(ENV_ASR_QUERY_SIGN@, text::trimmed(q@)));
        }
    }
}

} // verus!
