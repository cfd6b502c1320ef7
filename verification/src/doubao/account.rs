//! The device that the provider is registered as: its credentials, how they are
//! got, and where they are kept.
use crate::asr::AsrError;
#[allow(unused_imports)]
use crate::asr::AsrErrorView;
use crate::json;
use crate::json::{Json, JsonView};
use crate::path;
use crate::path::{FilePath, PathView};
use crate::text;
use vstd::prelude::*;
use vstd::string::*;

verus! {

pub const REGISTER_URL: &'static str = "https://log.snssdk.com/service/2/device_register/";

pub const SETTINGS_URL: &'static str = "https://is.snssdk.com/service/settings/v3/";

pub const WEBSOCKET_URL: &'static str = "wss://frontier-audio-ime-ws.doubao.com/ocean/api/v1/ws";

pub const AID: u32 = 401734;

pub const APP_NAME: &'static str = "oime";

pub const VERSION_CODE: u32 = 100102018;

pub const VERSION_NAME: &'static str = "1.1.2";

pub const CHANNEL: &'static str = "official";

pub const PACKAGE_NAME: &'static str = "com.bytedance.android.doubaoime";

pub const USER_AGENT: &'static str =
    "com.bytedance.android.doubaoime/100102018 (Linux; U; Android 16; en_US; Pixel 7 Pro; Build/BP2A.250605.031.A2; Cronet/TTNetVersion:94cf429a 2025-11-17 QuicVersion:1f89f732 2025-05-08)";

#[derive(Debug, Clone, PartialEq, Eq)]
pub struct DoubaoConfig {
    pub credential_path: Option<FilePath>,
    pub device_id: Option<String>,
    pub token: Option<String>,
}

impl DoubaoConfig {
    /// The configuration that caches its credentials at the usual place.
    pub fn with_default_path(default_path: &Option<FilePath>) -> (r: DoubaoConfig)
        ensures
            path::path_of(r.credential_path) == path::path_of(*default_path),
            r.device_id is None,
            r.token is None,
    {
        DoubaoConfig { credential_path: path::copy_path(default_path), device_id: None, token: None }
    }
}

/// The provider.
pub struct DoubaoAsr {
    pub config: DoubaoConfig,
}

impl DoubaoAsr {
    /// The provider for a configuration, which gets the usual place for the
    /// credentials where it has none.
    pub fn new(config: DoubaoConfig, default_path: &Option<FilePath>) -> (r: Result<
        DoubaoAsr,
        AsrError,
    >)
        ensures
            r is Ok,
            path::path_of(r->Ok_0.config.credential_path) == if config.credential_path is None {
                path::path_of(*default_path)
            } else {
                path::path_of(config.credential_path)
            },
            r->Ok_0.config.device_id == config.device_id,
            r->Ok_0.config.token == config.token,
    {
        let credential_path = if config.credential_path.is_none() {
            path::copy_path(default_path)
        } else {
            config.credential_path
        };
        Ok(
            DoubaoAsr {
                config: DoubaoConfig {
                    credential_path,
                    device_id: config.device_id,
                    token: config.token,
                },
            },
        )
    }
}

/// What the service knows the device by.
#[derive(Debug, Clone, PartialEq, Eq)]
pub struct DeviceCredentials {
    pub device_id: Option<String>,
    pub install_id: Option<String>,
    pub cdid: Option<String>,
    pub openudid: Option<String>,
    pub clientudid: Option<String>,
    pub token: Option<String>,
}

impl Default for DeviceCredentials {
    fn default() -> (r: Self)
        ensures
            r.device_id is None,
            r.install_id is None,
            r.cdid is None,
            r.openudid is None,
            r.clientudid is None,
            r.token is None,
    {
        DeviceCredentials {
            device_id: None,
            install_id: None,
            cdid: None,
            openudid: None,
            clientudid: None,
            token: None,
        }
    }
}

/// A value that is there and not empty.
pub open spec fn present(v: Option<String>) -> bool {
    v is Some && v->0@.len() > 0
}

fn is_present(v: &Option<String>) -> (r: bool)
    ensures
        r == present(*v),
{
    match v {
        Some(s) => !s.as_str().is_empty(),
        None => false,
    }
}

/// What is to be done next to have usable credentials.
#[derive(Debug, Clone, PartialEq, Eq)]
pub enum CredentialStep {
    Register,
    /// Ask for a token for this device, under its identifier or else a fresh one.
    FetchToken { device_id: String, cdid: Option<String> },
    /// Keep the credentials, which are complete and new.
    Save,
    Ready,
}

/// The way to usable credentials.
pub struct CredentialFlow {
    pub credentials: DeviceCredentials,
    /// Whether something was got that is not kept yet.
    pub changed: bool,
}

impl CredentialFlow {
    /// Starts from the kept credentials, where there are some; what is configured
    /// goes before them.
    pub fn new(loaded: Option<DeviceCredentials>, config: &DoubaoConfig) -> (r: CredentialFlow)
        ensures
            !r.changed,
            text::text_of(r.credentials.device_id) == if config.device_id is Some {
                text::text_of(config.device_id)
            } else if loaded is Some {
                text::text_of(loaded->0.device_id)
            } else {
                None
            },
            text::text_of(r.credentials.token) == if config.token is Some {
                text::text_of(config.token)
            } else if loaded is Some {
                text::text_of(loaded->0.token)
            } else {
                None
            },
            loaded is Some ==> r.credentials.install_id == loaded->0.install_id && r.credentials.cdid
                == loaded->0.cdid && r.credentials.openudid == loaded->0.openudid
                && r.credentials.clientudid == loaded->0.clientudid,
            loaded is None ==> r.credentials.install_id is None && r.credentials.cdid is None
                && r.credentials.openudid is None && r.credentials.clientudid is None,
            flow_of(r.credentials, r.changed) == FlowView::begun(
                match loaded {
                    Some(c) => Some(flow_of(c, false)),
                    None => None,
                },
                text::text_of(config.device_id),
                text::text_of(config.token),
            ),
    {
        let mut credentials = match loaded {
            Some(c) => c,
            None => DeviceCredentials::default(),
        };
        if config.device_id.is_some() {
            credentials.device_id = text::copy_opt(&config.device_id);
        }
        if config.token.is_some() {
            credentials.token = text::copy_opt(&config.token);
        }
        CredentialFlow { credentials, changed: false }
    }

    /// The next step: a device first, then a token, then keeping what is new.
    pub fn next(&self) -> (r: CredentialStep)
        ensures
            match r {
                CredentialStep::Register => !present(self.credentials.device_id),
                CredentialStep::FetchToken { device_id, cdid } => {
                    &&& present(self.credentials.device_id)
                    &&& !present(self.credentials.token)
                    &&& device_id@ == self.credentials.device_id->0@
                    &&& text::text_of(cdid) == if present(self.credentials.cdid) {
                        text::text_of(self.credentials.cdid)
                    } else {
                        None
                    }
                },
                CredentialStep::Save => present(self.credentials.device_id) && present(
                    self.credentials.token,
                ) && self.changed,
                CredentialStep::Ready => present(self.credentials.device_id) && present(
                    self.credentials.token,
                ) && !self.changed,
            },
            step_of(r) == flow_of(self.credentials, self.changed).step(),
    {
        match &self.credentials.device_id {
            Some(id) => {
                if id.as_str().is_empty() {
                    return CredentialStep::Register;
                }
                if !is_present(&self.credentials.token) {
                    return CredentialStep::FetchToken {
                        device_id: text::copy(id.as_str()),
                        cdid: if is_present(&self.credentials.cdid) {
                            text::copy_opt(&self.credentials.cdid)
                        } else {
                            None
                        },
                    };
                }
                if self.changed {
                    CredentialStep::Save
                } else {
                    CredentialStep::Ready
                }
            },
            None => CredentialStep::Register,
        }
    }

    /// The device was registered: nothing of the old credentials stays.
    pub fn registered(&mut self, credentials: DeviceCredentials)
        ensures
            final(self).credentials == credentials,
            final(self).changed,
    {
        self.credentials = credentials;
        self.changed = true;
    }

    /// A token was got.
    pub fn got_token(&mut self, token: String)
        ensures
            final(self).credentials == (DeviceCredentials {
                token: Some(token),
                ..old(self).credentials
            }),
            final(self).changed,
            flow_of(final(self).credentials, final(self).changed) == flow_of(
                old(self).credentials,
                old(self).changed,
            ).with_token(token@),
    {
        self.credentials.token = Some(token);
        self.changed = true;
    }

    /// The credentials were kept.
    pub fn saved(&mut self)
        ensures
            final(self).credentials == old(self).credentials,
            !final(self).changed,
            flow_of(final(self).credentials, final(self).changed) == flow_of(
                old(self).credentials,
                old(self).changed,
            ).saved(),
    {
        self.changed = false;
    }
}

/// The error of a reply that is no success.
pub fn refused(what: &str, status: &str, body: &str) -> (r: AsrError)
    ensures
        r@ == AsrErrorView::Request("doubao "@ + what@ + " HTTP "@ + status@ + ": "@ + body@),
{
    let front = text::cat4("doubao ", what, " HTTP ", status);
    AsrError::Request(text::cat3(front.as_str(), ": ", body))
}

/// The credentials of a device that was registered.
pub fn register_device(
    device_id: u64,
    install_id: u64,
    cdid: &str,
    openudid: &str,
    clientudid: &str,
) -> (r: Result<DeviceCredentials, AsrError>)
    ensures
        r is Ok <==> device_id != 0,
        r matches Err(e) ==> e@ == AsrErrorView::InvalidResponse(
            "doubao registration returned empty device_id"@,
        ),
        r matches Ok(c) ==> {
            &&& text::text_of(c.device_id) == Some(text::decimal(device_id as nat))
            &&& text::text_of(c.install_id) == Some(text::decimal(install_id as nat))
            &&& text::text_of(c.cdid) == Some(cdid@)
            &&& text::text_of(c.openudid) == Some(openudid@)
            &&& text::text_of(c.clientudid) == Some(clientudid@)
            &&& c.token is None
        },
{
    if device_id == 0 {
        return Err(
            AsrError::InvalidResponse(text::copy("doubao registration returned empty device_id")),
        );
    }
    Ok(
        DeviceCredentials {
            device_id: Some(text::number(device_id)),
            install_id: Some(text::number(install_id)),
            cdid: Some(text::copy(cdid)),
            openudid: Some(text::copy(openudid)),
            clientudid: Some(text::copy(clientudid)),
            token: None,
        },
    )
}

/// The token in a reply: its key, trimmed.
pub fn token_from_app_key(app_key: &str) -> (r: Result<String, AsrError>)
    ensures
        r is Ok <==> text::trimmed(app_key@).len() > 0,
        r matches Ok(t) ==> t@ == text::trimmed(app_key@),
        r matches Err(e) ==> e@ == AsrErrorView::InvalidResponse(
            "doubao token response did not contain app_key"@,
        ),
{
    let token = text::trim(app_key);
    if token.as_str().is_empty() {
        Err(AsrError::InvalidResponse(text::copy("doubao token response did not contain app_key")))
    } else {
        Ok(token)
    }
}

/// Where the service is talked to by a device.
pub fn websocket_url(device_id: &str) -> (r: String)
    ensures
        r@ == WEBSOCKET_URL@ + "?aid="@ + text::decimal(AID as nat) + "&device_id="@ + device_id@,
{
    text::cat5(
        WEBSOCKET_URL,
        "?aid=",
        text::number(AID as u64).as_str(),
        "&device_id=",
        device_id,
    )
}

/// The MD5 digest of bytes.
pub uninterp spec fn md5_digest(data: Seq<u8>) -> Seq<u8>;

/// `md5::compute`: a digest of 16 bytes.
#[verifier::external_body]
fn compute_md5(data: &[u8]) -> (r: Vec<u8>)
    ensures
        r@ == md5_digest(data@),
        r@.len() == 16,
{
    md5::compute(data).to_vec()
}

/// A digit of base 16: a lower case letter from 10 on.
pub open spec fn hex_digit(n: int) -> char {
    if n < 10 {
        ((48 + n) as u32) as char
    } else {
        ((87 + n) as u32) as char
    }
}

/// Two digits for each byte.
pub open spec fn hex(data: Seq<u8>) -> Seq<char>
    decreases data.len(),
{
    if data.len() == 0 {
        Seq::empty()
    } else {
        hex(data.drop_last()).push(hex_digit(data.last() as int / 16)).push(
            hex_digit(data.last() as int % 16),
        )
    }
}

fn digit_of(n: u8) -> (r: char)
    requires
        n < 16,
    ensures
        r == hex_digit(n as int),
{
    if n < 10 {
        (48 + n) as char
    } else {
        (87 + n) as char
    }
}

/// The bytes in base 16.
pub fn to_hex(data: &Vec<u8>) -> (r: String)
    ensures
        r@ == hex(data@),
{
    let mut r = String::new();
    let mut i: usize = 0;
    while i < data.len()
        invariant
            i <= data@.len(),
            r@ == hex(data@.take(i as int)),
        decreases data@.len() - i,
    {
        let b = data[i];
        r.push(digit_of(b / 16));
        r.push(digit_of(b % 16));
        assert(data@.take(i + 1).drop_last() =~= data@.take(i as int));
        i = i + 1;
    }
    assert(data@.take(i as int) =~= data@);
    r
}

/// The identifier made of the first eight bytes of a random one.
pub fn random_hex_8(random: &Vec<u8>) -> (r: String)
    requires
        random@.len() >= 8,
    ensures
        r@ == hex(random@.take(8)),
{
    let mut front: Vec<u8> = Vec::new();
    let mut i: usize = 0;
    while i < 8
        invariant
            i <= 8,
            random@.len() >= 8,
            front@ == random@.take(i as int),
        decreases 8 - i,
    {
        front.push(random[i]);
        i = i + 1;
        assert(random@.take(i as int) =~= random@.take(i - 1).push(random@[i - 1]));
    }
    to_hex(&front)
}

/// The checksum header of a request: the digest of its body, in upper case.
pub fn body_stub(body: &str) -> (r: String)
    ensures
        r@ == text::uppered(hex(md5_digest(text::utf8(body@)))),
{
    let digest = compute_md5(body.as_bytes());
    text::ascii_uppercase(to_hex(&digest).as_str())
}

pub open spec fn pairs(v: Seq<(&'static str, String)>) -> Seq<(Seq<char>, Seq<char>)> {
    Seq::new(v.len(), |i: int| (v[i].0@, v[i].1@))
}

/// The parameters that both requests start with.
pub open spec fn common_params(now_millis: u64, cdid: Seq<char>) -> Seq<(Seq<char>, Seq<char>)> {
    seq![
        ("device_platform"@, "android"@),
        ("os"@, "android"@),
        ("ssmix"@, "a"@),
        ("_rticket"@, text::decimal(now_millis as nat)),
        ("cdid"@, cdid),
        ("channel"@, CHANNEL@),
        ("aid"@, text::decimal(AID as nat)),
        ("app_name"@, APP_NAME@),
        ("version_code"@, text::decimal(VERSION_CODE as nat)),
        ("version_name"@, VERSION_NAME@),
    ]
}

fn push_common_params(r: &mut Vec<(&'static str, String)>, now_millis: u64, cdid: &str)
    requires
        old(r)@.len() == 0,
    ensures
        pairs(final(r)@) == common_params(now_millis, cdid@),
{
    r.push(("device_platform", text::copy("android")));
    r.push(("os", text::copy("android")));
    r.push(("ssmix", text::copy("a")));
    r.push(("_rticket", text::number(now_millis)));
    r.push(("cdid", text::copy(cdid)));
    r.push(("channel", text::copy(CHANNEL)));
    r.push(("aid", text::number(AID as u64)));
    r.push(("app_name", text::copy(APP_NAME)));
    r.push(("version_code", text::number(VERSION_CODE as u64)));
    r.push(("version_name", text::copy(VERSION_NAME)));
    assert(pairs(r@) =~= common_params(now_millis, cdid@));
}

/// The parameters of a registration.
pub fn device_register_params(now_millis: u64, cdid: &str) -> (r: Vec<(&'static str, String)>)
    ensures
        pairs(r@) == common_params(now_millis, cdid@) + seq![
            ("manifest_version_code"@, text::decimal(VERSION_CODE as nat)),
            ("update_version_code"@, text::decimal(VERSION_CODE as nat)),
            ("resolution"@, "1080*2400"@),
            ("dpi"@, "420"@),
            ("device_type"@, "Pixel 7 Pro"@),
            ("device_brand"@, "google"@),
            ("language"@, "zh"@),
            ("os_api"@, "34"@),
            ("os_version"@, "16"@),
            ("ac"@, "wifi"@),
        ],
{
    let mut r: Vec<(&'static str, String)> = Vec::new();
    push_common_params(&mut r, now_millis, cdid);
    let ghost front = pairs(r@);
    r.push(("manifest_version_code", text::number(VERSION_CODE as u64)));
    r.push(("update_version_code", text::number(VERSION_CODE as u64)));
    r.push(("resolution", text::copy("1080*2400")));
    r.push(("dpi", text::copy("420")));
    r.push(("device_type", text::copy("Pixel 7 Pro")));
    r.push(("device_brand", text::copy("google")));
    r.push(("language", text::copy("zh")));
    r.push(("os_api", text::copy("34")));
    r.push(("os_version", text::copy("16")));
    r.push(("ac", text::copy("wifi")));
    assert(pairs(r@) =~= front + seq![
        ("manifest_version_code"@, text::decimal(VERSION_CODE as nat)),
        ("update_version_code"@, text::decimal(VERSION_CODE as nat)),
        ("resolution"@, "1080*2400"@),
        ("dpi"@, "420"@),
        ("device_type"@, "Pixel 7 Pro"@),
        ("device_brand"@, "google"@),
        ("language"@, "zh"@),
        ("os_api"@, "34"@),
        ("os_version"@, "16"@),
        ("ac"@, "wifi"@),
    ]);
    r
}

/// The parameters of a request for a token.
pub fn settings_params(now_millis: u64, device_id: &str, cdid: &str) -> (r: Vec<
    (&'static str, String),
>)
    ensures
        pairs(r@) == common_params(now_millis, cdid@).push(("device_id"@, device_id@)),
{
    let mut r: Vec<(&'static str, String)> = Vec::new();
    push_common_params(&mut r, now_millis, cdid);
    let ghost front = pairs(r@);
    r.push(("device_id", text::copy(device_id)));
    assert(pairs(r@) =~= front.push(("device_id"@, device_id@)));
    r
}

/// The application, in a registration.
pub open spec fn app_header() -> Seq<(Seq<char>, JsonView)> {
    seq![
        ("device_id"@, JsonView::Number(text::decimal(0))),
        ("install_id"@, JsonView::Number(text::decimal(0))),
        ("aid"@, JsonView::Number(text::decimal(AID as nat))),
        ("app_name"@, JsonView::Text(APP_NAME@)),
        ("version_code"@, JsonView::Number(text::decimal(VERSION_CODE as nat))),
        ("version_name"@, JsonView::Text(VERSION_NAME@)),
        ("manifest_version_code"@, JsonView::Number(text::decimal(VERSION_CODE as nat))),
        ("update_version_code"@, JsonView::Number(text::decimal(VERSION_CODE as nat))),
        ("channel"@, JsonView::Text(CHANNEL@)),
        ("package"@, JsonView::Text(PACKAGE_NAME@)),
    ]
}

/// The phone, in a registration.
pub open spec fn phone_header() -> Seq<(Seq<char>, JsonView)> {
    seq![
        ("device_platform"@, JsonView::Text("android"@)),
        ("os"@, JsonView::Text("android"@)),
        ("os_api"@, JsonView::Text("34"@)),
        ("os_version"@, JsonView::Text("16"@)),
        ("device_type"@, JsonView::Text("Pixel 7 Pro"@)),
        ("device_brand"@, JsonView::Text("google"@)),
        ("device_model"@, JsonView::Text("Pixel 7 Pro"@)),
        ("resolution"@, JsonView::Text("1080*2400"@)),
        ("dpi"@, JsonView::Text("420"@)),
        ("language"@, JsonView::Text("zh"@)),
        ("timezone"@, JsonView::Number(text::decimal(8))),
        ("access"@, JsonView::Text("wifi"@)),
        ("rom"@, JsonView::Text("UP1A.231005.007"@)),
        ("rom_version"@, JsonView::Text("UP1A.231005.007"@)),
    ]
}

/// The user, in a registration.
pub open spec fn user_header(cdid: Seq<char>, openudid: Seq<char>, clientudid: Seq<char>) -> Seq<(Seq<char>, JsonView)> {
    seq![
        ("openudid"@, JsonView::Text(openudid)),
        ("clientudid"@, JsonView::Text(clientudid)),
        ("cdid"@, JsonView::Text(cdid)),
        ("region"@, JsonView::Text("CN"@)),
        ("tz_name"@, JsonView::Text("Asia/Shanghai"@)),
        ("tz_offset"@, JsonView::Number(text::decimal(28800))),
        ("sim_region"@, JsonView::Text("cn"@)),
        ("carrier_region"@, JsonView::Text("cn"@)),
        ("cpu_abi"@, JsonView::Text("arm64-v8a"@)),
        ("build_serial"@, JsonView::Text("unknown"@)),
        ("not_request_sender"@, JsonView::Number(text::decimal(0))),
        ("sig_hash"@, JsonView::Text(""@)),
        ("google_aid"@, JsonView::Text(""@)),
        ("mc"@, JsonView::Text(""@)),
        ("serial_number"@, JsonView::Text(""@)),
    ]
}

fn push_app_header(m: &mut Vec<(String, Json)>)
    ensures
        json::member_views(final(m)@) == json::member_views(old(m)@) + app_header(),
{
    let ghost before = json::member_views(m@);
    json::push_member(m, "device_id", json::number_value(0));
    json::push_member(m, "install_id", json::number_value(0));
    json::push_member(m, "aid", json::number_value(AID as u64));
    json::push_member(m, "app_name", json::text_value(APP_NAME));
    json::push_member(m, "version_code", json::number_value(VERSION_CODE as u64));
    json::push_member(m, "version_name", json::text_value(VERSION_NAME));
    json::push_member(m, "manifest_version_code", json::number_value(VERSION_CODE as u64));
    json::push_member(m, "update_version_code", json::number_value(VERSION_CODE as u64));
    json::push_member(m, "channel", json::text_value(CHANNEL));
    json::push_member(m, "package", json::text_value(PACKAGE_NAME));
    assert(json::member_views(m@) =~= before + app_header());
}

fn push_phone_header(m: &mut Vec<(String, Json)>)
    ensures
        json::member_views(final(m)@) == json::member_views(old(m)@) + phone_header(),
{
    let ghost before = json::member_views(m@);
    json::push_member(m, "device_platform", json::text_value("android"));
    json::push_member(m, "os", json::text_value("android"));
    json::push_member(m, "os_api", json::text_value("34"));
    json::push_member(m, "os_version", json::text_value("16"));
    json::push_member(m, "device_type", json::text_value("Pixel 7 Pro"));
    json::push_member(m, "device_brand", json::text_value("google"));
    json::push_member(m, "device_model", json::text_value("Pixel 7 Pro"));
    json::push_member(m, "resolution", json::text_value("1080*2400"));
    json::push_member(m, "dpi", json::text_value("420"));
    json::push_member(m, "language", json::text_value("zh"));
    json::push_member(m, "timezone", json::number_value(8));
    json::push_member(m, "access", json::text_value("wifi"));
    json::push_member(m, "rom", json::text_value("UP1A.231005.007"));
    json::push_member(m, "rom_version", json::text_value("UP1A.231005.007"));
    assert(json::member_views(m@) =~= before + phone_header());
}

fn push_user_header(m: &mut Vec<(String, Json)>, cdid: &str, openudid: &str, clientudid: &str)
    ensures
        json::member_views(final(m)@) == json::member_views(old(m)@) + user_header(cdid@, openudid@, clientudid@),
{
    let ghost before = json::member_views(m@);
    json::push_member(m, "openudid", json::text_value(openudid));
    json::push_member(m, "clientudid", json::text_value(clientudid));
    json::push_member(m, "cdid", json::text_value(cdid));
    json::push_member(m, "region", json::text_value("CN"));
    json::push_member(m, "tz_name", json::text_value("Asia/Shanghai"));
    json::push_member(m, "tz_offset", json::number_value(28800));
    json::push_member(m, "sim_region", json::text_value("cn"));
    json::push_member(m, "carrier_region", json::text_value("cn"));
    json::push_member(m, "cpu_abi", json::text_value("arm64-v8a"));
    json::push_member(m, "build_serial", json::text_value("unknown"));
    json::push_member(m, "not_request_sender", json::number_value(0));
    json::push_member(m, "sig_hash", json::text_value(""));
    json::push_member(m, "google_aid", json::text_value(""));
    json::push_member(m, "mc", json::text_value(""));
    json::push_member(m, "serial_number", json::text_value(""));
    assert(json::member_views(m@) =~= before + user_header(cdid@, openudid@, clientudid@));
}

/// What a registration says of the device.
pub open spec fn register_header(
    cdid: Seq<char>,
    openudid: Seq<char>,
    clientudid: Seq<char>,
) -> Seq<(Seq<char>, JsonView)> {
    app_header() + phone_header() + user_header(cdid, openudid, clientudid)
}

pub fn device_register_header(cdid: &str, openudid: &str, clientudid: &str) -> (r: Json)
    ensures
        r.value() == json::object(register_header(cdid@, openudid@, clientudid@)),
{
    let mut m: Vec<(String, Json)> = Vec::new();
    push_app_header(&mut m);
    push_phone_header(&mut m);
    push_user_header(&mut m, cdid, openudid, clientudid);
    assert(json::member_views(m@) =~= register_header(cdid@, openudid@, clientudid@));
    json::object_value(m)
}

/// The directory for the user's configuration, by what the environment says.
pub open spec fn config_dir(
    is_windows: bool,
    home: Option<PathView>,
    appdata: Option<PathView>,
    userprofile: Option<PathView>,
) -> Option<PathView> {
    if is_windows && appdata is Some {
        appdata
    } else if is_windows && userprofile is Some {
        Some(userprofile->0.child("AppData"@).child("Roaming"@))
    } else if home is Some {
        Some(home->0.child(".config"@))
    } else {
        None
    }
}

pub fn default_config_dir_from_values(
    is_windows: bool,
    home: &Option<FilePath>,
    appdata: &Option<FilePath>,
    userprofile: &Option<FilePath>,
) -> (r: Option<FilePath>)
    ensures
        path::path_of(r) == config_dir(
            is_windows,
            path::path_of(*home),
            path::path_of(*appdata),
            path::path_of(*userprofile),
        ),
{
    if is_windows {
        if let Some(dir) = appdata {
            return Some(dir.copied());
        }
        if let Some(dir) = userprofile {
            return Some(dir.child("AppData").child("Roaming"));
        }
    }
    match home {
        Some(dir) => Some(dir.child(".config")),
        None => None,
    }
}

pub fn doubao_credential_path(config_dir: &FilePath) -> (r: FilePath)
    ensures
        r@ == config_dir@.child("vo"@).child("doubao-credentials.json"@),
{
    config_dir.child("vo").child("doubao-credentials.json")
}

/// Where the credentials are kept unless another place is given.
pub fn default_credential_path(
    is_windows: bool,
    home: &Option<FilePath>,
    appdata: &Option<FilePath>,
    userprofile: &Option<FilePath>,
) -> (r: Option<FilePath>)
    ensures
        path::path_of(r) == match config_dir(
            is_windows,
            path::path_of(*home),
            path::path_of(*appdata),
            path::path_of(*userprofile),
        ) {
            Some(dir) => Some(dir.child("vo"@).child("doubao-credentials.json"@)),
            None => None,
        },
{
    match default_config_dir_from_values(is_windows, home, appdata, userprofile) {
        Some(dir) => Some(doubao_credential_path(&dir)),
        None => None,
    }
}

/// Two digits stand for each byte, so texts of digits are alike only where the bytes are.
pub proof fn law_hex_tells_bytes_apart(a: Seq<u8>, b: Seq<u8>)
    ensures
        hex(a).len() == 2 * a.len(),
        hex(a) == hex(b) ==> a == b,
        forall|i: int|
            0 <= i < hex(a).len() ==> '0' <= #[trigger] hex(a)[i] <= '9' || 'a' <= hex(a)[i] <= 'f',
    decreases a.len(),
{
    if a.len() > 0 {
        law_hex_tells_bytes_apart(a.drop_last(), b.drop_last());
        lemma_hex_len(a);
        lemma_hex_len(b);
        lemma_hex_digit(a.last() as int / 16);
        lemma_hex_digit(a.last() as int % 16);
        if b.len() > 0 {
            lemma_hex_digit(b.last() as int / 16);
            lemma_hex_digit(b.last() as int % 16);
            if hex(a) == hex(b) {
                let n = hex(a).len() as int;
                assert(hex(a)[n - 1] == hex(b)[n - 1]);
                assert(hex(a)[n - 2] == hex(b)[n - 2]);
                assert(hex(a.drop_last()) =~= hex(a).take(n - 2));
                assert(hex(b.drop_last()) =~= hex(b).take(n - 2));
                assert(a =~= a.drop_last().push(a.last()));
                assert(b =~= b.drop_last().push(b.last()));
            }
        }
    } else if b.len() > 0 {
        lemma_hex_len(b);
    }
}

proof fn lemma_hex_len(data: Seq<u8>)
    ensures
        hex(data).len() == 2 * data.len(),
    decreases data.len(),
{
    if data.len() > 0 {
        lemma_hex_len(data.drop_last());
    }
}

proof fn lemma_hex_digit(n: int)
    requires
        0 <= n < 16,
    ensures
        '0' <= hex_digit(n) <= '9' || 'a' <= hex_digit(n) <= 'f',
        n < 10 ==> hex_digit(n) as int == '0' as int + n,
        n >= 10 ==> hex_digit(n) as int == 'a' as int + n - 10,
{
}

/// Outside Windows only the home directory counts. On Windows the roaming profile goes
/// first, and the home directory counts only where neither it nor a user profile is known.
pub proof fn law_settings_live_in_the_profile(
    is_windows: bool,
    home: Option<PathView>,
    appdata: Option<PathView>,
    userprofile: Option<PathView>,
)
    ensures
        !is_windows ==> config_dir(is_windows, home, appdata, userprofile) == config_dir(
            false,
            home,
            None,
            None,
        ),
        is_windows && appdata is Some ==> config_dir(is_windows, home, appdata, userprofile)
            == appdata,
        is_windows && appdata is None && userprofile is Some ==> config_dir(
            is_windows,
            home,
            appdata,
            userprofile,
        ) == Some(userprofile->0.child("AppData"@).child("Roaming"@)),
        config_dir(is_windows, home, None, None) == match home {
            Some(h) => Some(h.child(".config"@)),
            None => None,
        },
        config_dir(is_windows, home, appdata, userprofile) is None ==> home is None,
{
}

/// What the service knows a device by, and whether something of it is not kept yet.
#[verifier::ext_equal]
pub struct FlowView {
    pub device_id: Option<Seq<char>>,
    pub install_id: Option<Seq<char>>,
    pub cdid: Option<Seq<char>>,
    pub openudid: Option<Seq<char>>,
    pub clientudid: Option<Seq<char>>,
    pub token: Option<Seq<char>>,
    pub changed: bool,
}

pub open spec fn flow_of(c: DeviceCredentials, changed: bool) -> FlowView {
    FlowView {
        device_id: text::text_of(c.device_id),
        install_id: text::text_of(c.install_id),
        cdid: text::text_of(c.cdid),
        openudid: text::text_of(c.openudid),
        clientudid: text::text_of(c.clientudid),
        token: text::text_of(c.token),
        changed,
    }
}

pub enum StepView {
    Register,
    FetchToken { device_id: Seq<char>, cdid: Option<Seq<char>> },
    Save,
    Ready,
}

pub open spec fn step_of(s: CredentialStep) -> StepView {
    match s {
        CredentialStep::Register => StepView::Register,
        CredentialStep::FetchToken { device_id, cdid } => StepView::FetchToken {
            device_id: device_id@,
            cdid: text::text_of(cdid),
        },
        CredentialStep::Save => StepView::Save,
        CredentialStep::Ready => StepView::Ready,
    }
}

pub open spec fn given(v: Option<Seq<char>>) -> bool {
    v is Some && v->0.len() > 0
}

impl FlowView {
    /// The flow that starts from what was kept, where something was, and what is configured.
    pub open spec fn begun(
        kept: Option<FlowView>,
        device_id: Option<Seq<char>>,
        token: Option<Seq<char>>,
    ) -> FlowView {
        let from = match kept {
            Some(f) => f,
            None => FlowView {
                device_id: None,
                install_id: None,
                cdid: None,
                openudid: None,
                clientudid: None,
                token: None,
                changed: false,
            },
        };
        FlowView {
            device_id: if device_id is Some {
                device_id
            } else {
                from.device_id
            },
            token: if token is Some {
                token
            } else {
                from.token
            },
            changed: false,
            ..from
        }
    }

    pub open spec fn step(self) -> StepView {
        if !given(self.device_id) {
            StepView::Register
        } else if !given(self.token) {
            StepView::FetchToken {
                device_id: self.device_id->0,
                cdid: if given(self.cdid) {
                    self.cdid
                } else {
                    None
                },
            }
        } else if self.changed {
            StepView::Save
        } else {
            StepView::Ready
        }
    }

    pub open spec fn with_token(self, token: Seq<char>) -> FlowView {
        FlowView { token: Some(token), changed: true, ..self }
    }

    pub open spec fn saved(self) -> FlowView {
        FlowView { changed: false, ..self }
    }
}

/// What is configured goes before what was kept, the device and the token each by itself, and
/// the rest is what was kept; without either there is nothing.
pub proof fn law_configured_credentials_go_first(
    kept: Option<FlowView>,
    device_id: Option<Seq<char>>,
    token: Option<Seq<char>>,
)
    ensures
        ({
            let f = FlowView::begun(kept, device_id, token);
            &&& device_id is Some ==> f.device_id == device_id
            &&& token is Some ==> f.token == token
            &&& kept matches Some(k) ==> (device_id is None ==> f.device_id == k.device_id) && (token
                is None ==> f.token == k.token) && f.cdid == k.cdid && f.install_id == k.install_id
                && f.openudid == k.openudid && f.clientudid == k.clientudid
            &&& kept is None && device_id is None ==> f.device_id is None
            &&& kept is None && token is None ==> f.token is None
            &&& !f.changed
        }),
{
}

/// The way to usable credentials: a device is registered where none is known, then a token is
/// got for that device, then both are kept, and then they are ready. What is complete from
/// the start is ready at once.
pub proof fn law_way_to_credentials(f: FlowView, device: FlowView, token: Seq<char>)
    ensures
        !given(f.device_id) ==> f.step() is Register,
        given(device.device_id) && !given(device.token) ==> (device.step() matches StepView::FetchToken {
            device_id,
            cdid,
        } && Some(device_id) == device.device_id && (given(device.cdid) ==> cdid == device.cdid) && (
        !given(device.cdid) ==> cdid is None)),
        given(device.device_id) && token.len() > 0 ==> device.with_token(token).step() is Save
            && device.with_token(token).saved().step() is Ready && device.with_token(
            token,
        ).device_id == device.device_id && device.with_token(token).cdid == device.cdid,
        given(f.device_id) && given(f.token) ==> f.saved().step() is Ready,
        f.saved().token == f.token && f.saved().device_id == f.device_id,
        f.step() is Ready ==> given(f.device_id) && given(f.token),
{
}

/// The settings are asked for under the device and the identifier that it was registered
/// with, at the time of the call.
pub proof fn law_parameters_name_the_device(now_millis: u64, cdid: Seq<char>)
    ensures
        common_params(now_millis, cdid).contains(("cdid"@, cdid)),
        common_params(now_millis, cdid).contains(("_rticket"@, text::decimal(now_millis as nat))),
        common_params(now_millis, cdid).contains(("aid"@, text::decimal(AID as nat))),
{
    let all = common_params(now_millis, cdid);
    assert(all[3] == ("_rticket"@, text::decimal(now_millis as nat)));
    assert(all[4] == ("cdid"@, cdid));
    assert(all[6] == ("aid"@, text::decimal(AID as nat)));
}

/// A registration carries the three identifiers that were made up for the device, each under
/// its own name.
pub proof fn law_registration_carries_its_identifiers(
    cdid: Seq<char>,
    openudid: Seq<char>,
    clientudid: Seq<char>,
)
    ensures
        register_header(cdid, openudid, clientudid).contains(("cdid"@, JsonView::Text(cdid))),
        register_header(cdid, openudid, clientudid).contains(
            ("openudid"@, JsonView::Text(openudid)),
        ),
        register_header(cdid, openudid, clientudid).contains(
            ("clientudid"@, JsonView::Text(clientudid)),
        ),
{
    let front = app_header() + phone_header();
    let own = user_header(cdid, openudid, clientudid);
    let all = register_header(cdid, openudid, clientudid);
    let n = front.len() as int;
    assert(all[n] == own[0]);
    assert(all[n + 1] == own[1]);
    assert(all[n + 2] == own[2]);
}

} // verus!
