//! The reports as lines of text.
use crate::asr::AsrCapabilities;
use crate::cli::listing::{CurrentProviderReport, ProviderListEntry, ProviderListReport};
use crate::cli::report;
use crate::cli::report::{
    AudioReport, BackendReport, CapabilitiesReport, DoctorReport, LiveCapabilitiesReport,
    SystemReport,
};
use crate::text;
use vstd::prelude::*;
use vstd::string::*;

verus! {

pub open spec fn batch_lines(b: Option<AsrCapabilities>) -> Seq<Seq<char>> {
    match b {
        Some(b) => report::said("  Batch file: "@, report::yes_or_no(b.batch_file)) + report::said(
            "  Batch streaming: "@,
            report::yes_or_no(b.streaming),
        ) + report::said("  Batch requires network: "@, report::yes_or_no(b.requires_network)),
        None => Seq::<Seq<char>>::empty(),
    }
}

pub open spec fn live_lines(l: Option<LiveCapabilitiesReport>) -> Seq<Seq<char>> {
    match l {
        Some(l) => report::said("  Live mode: "@, l.mode@) + report::said(
            "  Live mic: "@,
            report::yes_or_no(l.mic),
        ) + report::said("  Live speaker: "@, report::yes_or_no(l.speaker)) + report::said(
            "  Live streaming audio: "@,
            report::yes_or_no(l.streaming_audio),
        ) + report::said("  Live partial results: "@, report::yes_or_no(l.partial_results))
            + report::said("  Live finalized results: "@, report::yes_or_no(l.finalized_results))
            + report::said("  Live translation: "@, report::yes_or_no(l.translation))
            + report::said("  Live voice processing: "@, report::yes_or_no(l.voice_processing))
            + report::said("  Live device selection: "@, report::yes_or_no(l.device_selection))
            + report::said("  Live requires network: "@, report::yes_or_no(l.requires_network))
            + report::said_if(
            "  Live expected latency: "@,
            text::text_of(l.expected_latency),
        ),
        None => seq!["  Live: no"@],
    }
}

pub open spec fn capabilities_lines(r: CapabilitiesReport) -> Seq<Seq<char>> {
    seq!["Capabilities"@] + report::said("  Requested: "@, r.requested@) + report::said_if(
        "  Resolved: "@,
        text::text_of(r.resolved),
    ) + report::said_if("  Provider profile: "@, text::text_of(r.provider)) + report::said_if(
        "  Provider kind: "@,
        text::text_of(r.provider_kind),
    ) + report::said_if("  Provider config: "@, text::text_of(r.provider_config)) + report::said(
        "  Model: "@,
        r.model@,
    ) + report::said("  Local config ok: "@, report::yes_or_no(r.local_config_ok))
        + report::said_if("  Resolution error: "@, text::text_of(r.resolution_error))
        + report::said_if("  Local config error: "@, text::text_of(r.local_config_error))
        + batch_lines(r.batch) + live_lines(r.live) + report::said_each(
        "  Note: "@,
        text::texts(r.notes@),
    )
}

fn push_batch(lines: &mut Vec<String>, b: &Option<AsrCapabilities>)
    ensures
        text::texts(final(lines)@) =~= text::texts(old(lines)@) + batch_lines(*b),
{
    if let Some(b) = b {
        report::say(lines, "  Batch file: ", report::yes_no(b.batch_file));
        report::say(lines, "  Batch streaming: ", report::yes_no(b.streaming));
        report::say(lines, "  Batch requires network: ", report::yes_no(b.requires_network));
    }
}

fn live_text(l: &LiveCapabilitiesReport) -> (lines: Vec<String>)
    ensures
        text::texts(lines@) == live_lines(Some(*l)),
{
    let mut lines = no_lines();
    report::say(&mut lines, "  Live mode: ", l.mode.as_str());
    assert(text::texts(lines@) =~= report::said("  Live mode: "@, l.mode@));
    report::say(&mut lines, "  Live mic: ", report::yes_no(l.mic));
    report::say(&mut lines, "  Live speaker: ", report::yes_no(l.speaker));
    report::say(&mut lines, "  Live streaming audio: ", report::yes_no(l.streaming_audio));
    report::say(&mut lines, "  Live partial results: ", report::yes_no(l.partial_results));
    report::say(&mut lines, "  Live finalized results: ", report::yes_no(l.finalized_results));
    report::say(&mut lines, "  Live translation: ", report::yes_no(l.translation));
    report::say(&mut lines, "  Live voice processing: ", report::yes_no(l.voice_processing));
    report::say(&mut lines, "  Live device selection: ", report::yes_no(l.device_selection));
    report::say(&mut lines, "  Live requires network: ", report::yes_no(l.requires_network));
    report::say_if(&mut lines, "  Live expected latency: ", &l.expected_latency);
    lines
}

fn push_live(lines: &mut Vec<String>, l: &Option<LiveCapabilitiesReport>)
    ensures
        text::texts(final(lines)@) =~= text::texts(old(lines)@) + live_lines(*l),
{
    match l {
        Some(l) => {
            let mut more = live_text(l);
            lines.append(&mut more);
        },
        None => {
            lines.push(text::copy("  Live: no"));
        },
    }
}

/// The empty list of lines.
pub fn no_lines() -> (r: Vec<String>)
    ensures
        text::texts(r@) == Seq::<Seq<char>>::empty(),
{
    let lines: Vec<String> = Vec::new();
    assert(text::texts(lines@) =~= Seq::<Seq<char>>::empty());
    lines
}

/// Adds a line as it is.
pub fn add_line(lines: &mut Vec<String>, line: &str)
    ensures
        text::texts(final(lines)@) == text::texts(old(lines)@) + seq![line@],
{
    lines.push(text::copy(line));
    assert(text::texts(lines@) =~= text::texts(old(lines)@) + seq![line@]);
}

#[verifier::spinoff_prover]
#[verifier::rlimit(40)]
pub(crate) fn push_capabilities(lines: &mut Vec<String>, r: &CapabilitiesReport)
    ensures
        text::texts(final(lines)@) == text::texts(old(lines)@) + capabilities_lines(*r),
{
    add_line(lines, "Capabilities");
    report::say(lines, "  Requested: ", r.requested.as_str());
    report::say_if(lines, "  Resolved: ", &r.resolved);
    report::say_if(lines, "  Provider profile: ", &r.provider);
    report::say_if(lines, "  Provider kind: ", &r.provider_kind);
    report::say_if(lines, "  Provider config: ", &r.provider_config);
    report::say(lines, "  Model: ", r.model.as_str());
    report::say(lines, "  Local config ok: ", report::yes_no(r.local_config_ok));
    report::say_if(lines, "  Resolution error: ", &r.resolution_error);
    report::say_if(lines, "  Local config error: ", &r.local_config_error);
    push_batch(lines, &r.batch);
    push_live(lines, &r.live);
    report::say_each(lines, "  Note: ", &r.notes);
    assert(text::texts(lines@) =~= text::texts(old(lines)@) + capabilities_lines(*r));
}

pub fn capabilities_text(r: &CapabilitiesReport) -> (lines: Vec<String>)
    ensures
        text::texts(lines@) == capabilities_lines(*r),
{
    let mut lines = no_lines();
    push_capabilities(&mut lines, r);
    assert(text::texts(lines@) =~= capabilities_lines(*r));
    lines
}

pub open spec fn system_lines(r: SystemReport) -> Seq<Seq<char>> {
    seq!["System"@] + report::said("  OS: "@, r.os@) + report::said("  Arch: "@, r.arch@)
        + report::said_if("  macOS version: "@, text::text_of(r.macos_version)) + report::said(
        "  Apple on-device supported: "@,
        report::yes_or_no(r.apple_on_device_supported),
    ) + report::said("  Apple on-device reason: "@, r.apple_on_device_reason@)
}

/// What is said of a backend beyond its name: of an HTTP provider how it is set up, of
/// the machine's own recogniser its adapter, of others the model.
pub open spec fn backend_details(r: BackendReport) -> Seq<Seq<char>> {
    if text::text_of(r.resolved) == Some("openai-compatible"@) {
        report::said("  API base configured: "@, report::yes_or_no(r.api_base_configured))
            + report::said("  API key configured: "@, report::yes_or_no(r.api_key_configured))
            + report::said("  Model: "@, r.model@)
    } else if text::text_of(r.resolved) == Some("apple"@) {
        report::said_if("  Native adapter: "@, text::text_of(r.native_adapter))
    } else {
        report::said("  Model: "@, r.model@)
    }
}

pub open spec fn backend_lines(r: BackendReport) -> Seq<Seq<char>> {
    seq!["Backend"@] + report::said("  Requested: "@, r.requested@) + report::said_if(
        "  Resolved: "@,
        text::text_of(r.resolved),
    ) + report::said_if("  Provider profile: "@, text::text_of(r.provider)) + report::said_if(
        "  Provider kind: "@,
        text::text_of(r.provider_kind),
    ) + report::said_if("  Provider config: "@, text::text_of(r.provider_config))
        + report::said_if("  Error: "@, text::text_of(r.error)) + backend_details(r)
}

pub open spec fn or_unknown(o: Option<Seq<char>>) -> Seq<char> {
    match o {
        Some(s) => s,
        None => "unknown"@,
    }
}

fn text_or_unknown(o: &Option<String>) -> (r: String)
    ensures
        r@ == or_unknown(text::text_of(*o)),
{
    match o {
        Some(s) => text::copy(s.as_str()),
        None => text::copy("unknown"),
    }
}

pub open spec fn audio_hint(os: Seq<char>) -> Option<Seq<char>> {
    if os == "macos"@ {
        Some(
            "start a microphone capture from the terminal app you use, for example `dicta --mic-duration 1 --asr openai-compatible`, so macOS can show the permission prompt; then allow microphone access in System Settings > Privacy & Security > Microphone, restart the terminal, and check that a default input device is selected"@,
        )
    } else {
        None
    }
}

pub fn doctor_audio_hint(os: &str) -> (r: Option<String>)
    ensures
        text::text_of(r) == audio_hint(os@),
{
    if text::same(os, "macos") {
        Some(
            text::copy(
                "start a microphone capture from the terminal app you use, for example `dicta --mic-duration 1 --asr openai-compatible`, so macOS can show the permission prompt; then allow microphone access in System Settings > Privacy & Security > Microphone, restart the terminal, and check that a default input device is selected",
            ),
        )
    } else {
        None
    }
}

/// What is said of the microphone, and the hint where there is none.
pub open spec fn audio_lines(r: AudioReport, hint: Option<Seq<char>>) -> Seq<Seq<char>> {
    if r.default_input_available {
        seq!["Audio"@] + report::said("  Default input: "@, or_unknown(text::text_of(r.name)))
            + report::said(
            "  Sample rate: "@,
            text::decimal(
                match r.sample_rate {
                    Some(n) => n as nat,
                    None => 0,
                },
            ),
        ) + report::said(
            "  Channels: "@,
            text::decimal(
                match r.channels {
                    Some(n) => n as nat,
                    None => 0,
                },
            ),
        ) + report::said("  Sample format: "@, or_unknown(text::text_of(r.sample_format)))
    } else {
        seq!["Audio"@, "  Default input: unavailable"@] + report::said_if(
            "  Error: "@,
            text::text_of(r.error),
        ) + report::said_if("  Hint: "@, hint)
    }
}

pub open spec fn doctor_lines(r: DoctorReport) -> Seq<Seq<char>> {
    system_lines(r.system) + seq![""@] + backend_lines(r.backend) + seq![""@]
        + capabilities_lines(r.capabilities) + seq![""@] + audio_lines(
        r.audio,
        audio_hint(r.system.os@),
    )
}

pub(crate) fn push_system(lines: &mut Vec<String>, r: &SystemReport)
    ensures
        text::texts(final(lines)@) =~= text::texts(old(lines)@) + system_lines(*r),
{
    add_line(lines, "System");
    report::say(lines, "  OS: ", r.os.as_str());
    report::say(lines, "  Arch: ", r.arch.as_str());
    report::say_if(lines, "  macOS version: ", &r.macos_version);
    report::say(
        lines,
        "  Apple on-device supported: ",
        report::yes_no(r.apple_on_device_supported),
    );
    report::say(lines, "  Apple on-device reason: ", r.apple_on_device_reason.as_str());
}

fn push_details(lines: &mut Vec<String>, r: &BackendReport)
    ensures
        text::texts(final(lines)@) =~= text::texts(old(lines)@) + backend_details(*r),
{
    if let Some(resolved) = &r.resolved {
        if text::same(resolved.as_str(), "openai-compatible") {
            report::say(lines, "  API base configured: ", report::yes_no(r.api_base_configured));
            report::say(lines, "  API key configured: ", report::yes_no(r.api_key_configured));
            report::say(lines, "  Model: ", r.model.as_str());
            return;
        }
        if text::same(resolved.as_str(), "apple") {
            report::say_if(lines, "  Native adapter: ", &r.native_adapter);
            return;
        }
    }
    report::say(lines, "  Model: ", r.model.as_str());
}

fn push_backend(lines: &mut Vec<String>, r: &BackendReport)
    ensures
        text::texts(final(lines)@) =~= text::texts(old(lines)@) + backend_lines(*r),
{
    add_line(lines, "Backend");
    report::say(lines, "  Requested: ", r.requested.as_str());
    report::say_if(lines, "  Resolved: ", &r.resolved);
    report::say_if(lines, "  Provider profile: ", &r.provider);
    report::say_if(lines, "  Provider kind: ", &r.provider_kind);
    report::say_if(lines, "  Provider config: ", &r.provider_config);
    report::say_if(lines, "  Error: ", &r.error);
    push_details(lines, r);
}

pub(crate) fn push_audio(lines: &mut Vec<String>, r: &AudioReport, hint: &Option<String>)
    ensures
        text::texts(final(lines)@) =~= text::texts(old(lines)@) + audio_lines(
            *r,
            text::text_of(*hint),
        ),
{
    add_line(lines, "Audio");
    if r.default_input_available {
        report::say(lines, "  Default input: ", text_or_unknown(&r.name).as_str());
        let rate: u64 = match r.sample_rate {
            Some(n) => n as u64,
            None => 0,
        };
        report::say(lines, "  Sample rate: ", text::number(rate).as_str());
        let channels: u64 = match r.channels {
            Some(n) => n as u64,
            None => 0,
        };
        report::say(lines, "  Channels: ", text::number(channels).as_str());
        report::say(lines, "  Sample format: ", text_or_unknown(&r.sample_format).as_str());
    } else {
        add_line(lines, "  Default input: unavailable");
        report::say_if(lines, "  Error: ", &r.error);
        report::say_if(lines, "  Hint: ", hint);
    }
}

pub fn doctor_text(r: &DoctorReport) -> (lines: Vec<String>)
    ensures
        text::texts(lines@) == doctor_lines(*r),
{
    let mut lines = no_lines();
    push_system(&mut lines, &r.system);
    add_line(&mut lines, "");
    push_backend(&mut lines, &r.backend);
    add_line(&mut lines, "");
    push_capabilities(&mut lines, &r.capabilities);
    add_line(&mut lines, "");
    let hint = doctor_audio_hint(r.system.os.as_str());
    push_audio(&mut lines, &r.audio, &hint);
    assert(text::texts(lines@) =~= doctor_lines(*r));
    lines
}

/// Where a provider comes from.
pub open spec fn origin(p: ProviderListEntry) -> Seq<char> {
    if p.built_in {
        "built-in"@
    } else if p.installed {
        "installed"@
    } else {
        "custom"@
    }
}

pub open spec fn entry_lines(p: ProviderListEntry) -> Seq<Seq<char>> {
    seq![
        (if p.selected {
            "* "@
        } else {
            "  "@
        }) + p.name@ + " ("@ + p.kind@ + ", "@ + origin(p) + ", model "@ + p.model@ + ")"@,
    ] + report::said("    Batch file: "@, report::yes_or_no(p.batch_file)) + report::said(
        "    Live: "@,
        report::yes_or_no(p.live),
    ) + report::said("    Local config ok: "@, report::yes_or_no(p.local_config_ok))
        + report::said_if("    Installed version: "@, text::text_of(p.installed_version))
        + report::said_if("    Package: "@, text::text_of(p.source_package)) + report::said_if(
        "    Installed at: "@,
        text::text_of(p.install_path),
    ) + report::said_if("    Error: "@, text::text_of(p.local_config_error)) + report::said_each(
        "    Note: "@,
        text::texts(p.notes@),
    )
}

fn push_entry(lines: &mut Vec<String>, p: &ProviderListEntry)
    ensures
        text::texts(final(lines)@) =~= text::texts(old(lines)@) + entry_lines(*p),
{
    let marker = if p.selected {
        "* "
    } else {
        "  "
    };
    let source = if p.built_in {
        "built-in"
    } else if p.installed {
        "installed"
    } else {
        "custom"
    };
    let first = text::cat5(marker, p.name.as_str(), " (", p.kind.as_str(), ", ");
    let whole = text::cat5(first.as_str(), source, ", model ", p.model.as_str(), ")");
    add_line(lines, whole.as_str());
    report::say(lines, "    Batch file: ", report::yes_no(p.batch_file));
    report::say(lines, "    Live: ", report::yes_no(p.live));
    report::say(lines, "    Local config ok: ", report::yes_no(p.local_config_ok));
    report::say_if(lines, "    Installed version: ", &p.installed_version);
    report::say_if(lines, "    Package: ", &p.source_package);
    report::say_if(lines, "    Installed at: ", &p.install_path);
    report::say_if(lines, "    Error: ", &p.local_config_error);
    report::say_each(lines, "    Note: ", &p.notes);
}

pub open spec fn all_entry_lines(v: Seq<ProviderListEntry>) -> Seq<Seq<char>>
    decreases v.len(),
{
    if v.len() == 0 {
        Seq::<Seq<char>>::empty()
    } else {
        all_entry_lines(v.drop_last()) + entry_lines(v.last())
    }
}

pub open spec fn list_lines(r: ProviderListReport) -> Seq<Seq<char>> {
    seq![
        "Providers"@,
        "  Current: "@ + match r.current {
            Some(c) => c@,
            None => "none"@,
        },
    ] + report::said_if("  Config: "@, text::text_of(r.provider_config)) + report::said_if(
        "  State: "@,
        text::text_of(r.state_path),
    ) + seq![""@] + all_entry_lines(r.providers@)
}

pub fn provider_list_text(r: &ProviderListReport) -> (lines: Vec<String>)
    ensures
        text::texts(lines@) == list_lines(*r),
{
    let mut lines = no_lines();
    add_line(&mut lines, "Providers");
    match &r.current {
        Some(c) => report::say(&mut lines, "  Current: ", c.as_str()),
        None => report::say(&mut lines, "  Current: ", "none"),
    }
    report::say_if(&mut lines, "  Config: ", &r.provider_config);
    report::say_if(&mut lines, "  State: ", &r.state_path);
    add_line(&mut lines, "");
    let ghost head = text::texts(lines@);
    let ghost all = r.providers@;
    let n: usize = r.providers.len();
    let mut i: usize = 0;
    assert(head + all_entry_lines(all.take(0)) =~= head);
    while i < n
        invariant
            n == r.providers.len(),
            all == r.providers@,
            i <= n,
            text::texts(lines@) == head + all_entry_lines(all.take(i as int)),
        decreases n - i,
    {
        let ghost more = all.take(i + 1);
        assert(more.drop_last() =~= all.take(i as int));
        push_entry(&mut lines, &r.providers[i]);
        assert(text::texts(lines@) =~= head + all_entry_lines(more));
        i = i + 1;
    }
    assert(all.take(n as int) =~= all);
    assert(text::texts(lines@) =~= list_lines(*r));
    lines
}

pub open spec fn current_lines(r: CurrentProviderReport) -> Seq<Seq<char>> {
    seq![
        "Current provider"@,
        "  Provider: "@ + match r.provider {
            Some(c) => c@,
            None => "none"@,
        },
    ] + report::said_if("  Resolved: "@, text::text_of(r.resolved)) + report::said_if(
        "  Kind: "@,
        text::text_of(r.kind),
    ) + report::said_if("  Model: "@, text::text_of(r.model)) + report::said(
        "  Live: "@,
        report::yes_or_no(r.live),
    ) + report::said("  Local config ok: "@, report::yes_or_no(r.local_config_ok))
        + report::said_if("  Error: "@, text::text_of(r.local_config_error)) + report::said_if(
        "  Installed at: "@,
        text::text_of(r.install_path),
    ) + report::said_if("  State: "@, text::text_of(r.state_path))
}

pub fn current_provider_text(r: &CurrentProviderReport) -> (lines: Vec<String>)
    ensures
        text::texts(lines@) == current_lines(*r),
{
    let mut lines = no_lines();
    add_line(&mut lines, "Current provider");
    match &r.provider {
        Some(c) => report::say(&mut lines, "  Provider: ", c.as_str()),
        None => report::say(&mut lines, "  Provider: ", "none"),
    }
    report::say_if(&mut lines, "  Resolved: ", &r.resolved);
    report::say_if(&mut lines, "  Kind: ", &r.kind);
    report::say_if(&mut lines, "  Model: ", &r.model);
    report::say(&mut lines, "  Live: ", report::yes_no(r.live));
    report::say(&mut lines, "  Local config ok: ", report::yes_no(r.local_config_ok));
    report::say_if(&mut lines, "  Error: ", &r.local_config_error);
    report::say_if(&mut lines, "  Installed at: ", &r.install_path);
    report::say_if(&mut lines, "  State: ", &r.state_path);
    assert(text::texts(lines@) =~= current_lines(*r));
    lines
}

/// The text on the capabilities says what was asked for and what serves it, with which
/// model, and every fault that was found.
pub proof fn law_capabilities_are_said(r: CapabilitiesReport)
    ensures
        ({
            let all = capabilities_lines(r);
            &&& all.contains("  Requested: "@ + r.requested@)
            &&& r.resolved matches Some(x) ==> all.contains("  Resolved: "@ + x@)
            &&& r.provider matches Some(x) ==> all.contains("  Provider profile: "@ + x@)
            &&& r.provider_kind matches Some(x) ==> all.contains("  Provider kind: "@ + x@)
            &&& r.provider_config matches Some(x) ==> all.contains("  Provider config: "@ + x@)
            &&& all.contains("  Model: "@ + r.model@)
            &&& all.contains("  Local config ok: "@ + report::yes_or_no(r.local_config_ok))
            &&& r.resolution_error matches Some(x) ==> all.contains("  Resolution error: "@ + x@)
            &&& r.local_config_error matches Some(x) ==> all.contains(
                "  Local config error: "@ + x@,
            )
        }),
{
    let none = Seq::<char>::empty();
    let s0 = seq!["Capabilities"@];
    let s1 = s0 + report::said("  Requested: "@, r.requested@);
    report::lemma_said(s0, "  Requested: "@, r.requested@, None);
    let s2 = s1 + report::said_if("  Resolved: "@, text::text_of(r.resolved));
    report::lemma_said(s1, "  Resolved: "@, none, text::text_of(r.resolved));
    let s3 = s2 + report::said_if("  Provider profile: "@, text::text_of(r.provider));
    report::lemma_said(s2, "  Provider profile: "@, none, text::text_of(r.provider));
    let s4 = s3 + report::said_if("  Provider kind: "@, text::text_of(r.provider_kind));
    report::lemma_said(s3, "  Provider kind: "@, none, text::text_of(r.provider_kind));
    let s5 = s4 + report::said_if("  Provider config: "@, text::text_of(r.provider_config));
    report::lemma_said(s4, "  Provider config: "@, none, text::text_of(r.provider_config));
    let s6 = s5 + report::said("  Model: "@, r.model@);
    report::lemma_said(s5, "  Model: "@, r.model@, None);
    let s7 = s6 + report::said("  Local config ok: "@, report::yes_or_no(r.local_config_ok));
    report::lemma_said(s6, "  Local config ok: "@, report::yes_or_no(r.local_config_ok), None);
    let s8 = s7 + report::said_if("  Resolution error: "@, text::text_of(r.resolution_error));
    report::lemma_said(s7, "  Resolution error: "@, none, text::text_of(r.resolution_error));
    let s9 = s8 + report::said_if("  Local config error: "@, text::text_of(r.local_config_error));
    report::lemma_said(s8, "  Local config error: "@, none, text::text_of(r.local_config_error));
    report::lemma_more_said(s9, batch_lines(r.batch));
    report::lemma_more_said(s9 + batch_lines(r.batch), live_lines(r.live));
    report::lemma_more_said(
        s9 + batch_lines(r.batch) + live_lines(r.live),
        report::said_each("  Note: "@, text::texts(r.notes@)),
    );
    assert(capabilities_lines(r) == s9 + batch_lines(r.batch) + live_lines(r.live)
        + report::said_each("  Note: "@, text::texts(r.notes@)));
}

/// An entry of the list of providers says where it is kept, whether it can be used, and why
/// not where it cannot; the selected one alone is marked.
pub proof fn law_listed_provider_is_said(p: ProviderListEntry)
    ensures
        ({
            let all = entry_lines(p);
            &&& all[0] == (if p.selected {
                "* "@
            } else {
                "  "@
            }) + p.name@ + " ("@ + p.kind@ + ", "@ + (if p.built_in {
                "built-in"@
            } else if p.installed {
                "installed"@
            } else {
                "custom"@
            }) + ", model "@ + p.model@ + ")"@
            &&& all.contains("    Batch file: "@ + report::yes_or_no(p.batch_file))
            &&& all.contains("    Live: "@ + report::yes_or_no(p.live))
            &&& all.contains("    Local config ok: "@ + report::yes_or_no(p.local_config_ok))
            &&& p.installed_version matches Some(x) ==> all.contains(
                "    Installed version: "@ + x@,
            )
            &&& p.source_package matches Some(x) ==> all.contains("    Package: "@ + x@)
            &&& p.install_path matches Some(x) ==> all.contains("    Installed at: "@ + x@)
            &&& p.local_config_error matches Some(x) ==> all.contains("    Error: "@ + x@)
        }),
{
    let none = Seq::<char>::empty();
    let s0 = seq![entry_lines(p)[0]];
    let s1 = s0 + report::said("    Batch file: "@, report::yes_or_no(p.batch_file));
    report::lemma_said(s0, "    Batch file: "@, report::yes_or_no(p.batch_file), None);
    let s2 = s1 + report::said("    Live: "@, report::yes_or_no(p.live));
    report::lemma_said(s1, "    Live: "@, report::yes_or_no(p.live), None);
    let s3 = s2 + report::said("    Local config ok: "@, report::yes_or_no(p.local_config_ok));
    report::lemma_said(s2, "    Local config ok: "@, report::yes_or_no(p.local_config_ok), None);
    let s4 = s3 + report::said_if("    Installed version: "@, text::text_of(p.installed_version));
    report::lemma_said(s3, "    Installed version: "@, none, text::text_of(p.installed_version));
    let s5 = s4 + report::said_if("    Package: "@, text::text_of(p.source_package));
    report::lemma_said(s4, "    Package: "@, none, text::text_of(p.source_package));
    let s6 = s5 + report::said_if("    Installed at: "@, text::text_of(p.install_path));
    report::lemma_said(s5, "    Installed at: "@, none, text::text_of(p.install_path));
    let s7 = s6 + report::said_if("    Error: "@, text::text_of(p.local_config_error));
    report::lemma_said(s6, "    Error: "@, none, text::text_of(p.local_config_error));
    let notes = report::said_each("    Note: "@, text::texts(p.notes@));
    report::lemma_more_said(s7, notes);
    assert(entry_lines(p) =~= s7 + notes);
}

proof fn lemma_entries_said(v: Seq<ProviderListEntry>, i: int)
    requires
        0 <= i < v.len(),
    ensures
        forall|line: Seq<char>|
            entry_lines(v[i]).contains(line) ==> #[trigger] all_entry_lines(v).contains(line),
    decreases v.len(),
{
    let front = v.drop_last();
    report::lemma_more_said(all_entry_lines(front), entry_lines(v.last()));
    if i < v.len() - 1 {
        lemma_entries_said(front, i);
        assert(front[i] == v[i]);
    } else {
        assert(v.last() == v[i]);
    }
}

/// Every line of every provider is in the list, below the name of the current one.
pub proof fn law_every_listed_provider_is_said(r: ProviderListReport, i: int)
    requires
        0 <= i < r.providers@.len(),
    ensures
        forall|line: Seq<char>|
            entry_lines(r.providers@[i]).contains(line) ==> #[trigger] list_lines(r).contains(line),
        list_lines(r)[1] == "  Current: "@ + match r.current {
            Some(c) => c@,
            None => "none"@,
        },
{
    lemma_entries_said(r.providers@, i);
    let s0 = seq![list_lines(r)[0], list_lines(r)[1]];
    let s1 = s0 + report::said_if("  Config: "@, text::text_of(r.provider_config))
        + report::said_if("  State: "@, text::text_of(r.state_path)) + seq![""@];
    report::lemma_more_said(s1, all_entry_lines(r.providers@));
    assert(list_lines(r) =~= s1 + all_entry_lines(r.providers@));
}

/// The text on the current provider says which it is, what serves it and with which model,
/// and every fault.
pub proof fn law_current_provider_is_said(r: CurrentProviderReport)
    ensures
        ({
            let all = current_lines(r);
            &&& all[1] == "  Provider: "@ + match r.provider {
                Some(c) => c@,
                None => "none"@,
            }
            &&& r.resolved matches Some(x) ==> all.contains("  Resolved: "@ + x@)
            &&& r.kind matches Some(x) ==> all.contains("  Kind: "@ + x@)
            &&& r.model matches Some(x) ==> all.contains("  Model: "@ + x@)
            &&& all.contains("  Live: "@ + report::yes_or_no(r.live))
            &&& all.contains("  Local config ok: "@ + report::yes_or_no(r.local_config_ok))
            &&& r.local_config_error matches Some(x) ==> all.contains("  Error: "@ + x@)
            &&& r.install_path matches Some(x) ==> all.contains("  Installed at: "@ + x@)
            &&& r.state_path matches Some(x) ==> all.contains("  State: "@ + x@)
        }),
{
    let none = Seq::<char>::empty();
    let s0 = seq![current_lines(r)[0], current_lines(r)[1]];
    let s1 = s0 + report::said_if("  Resolved: "@, text::text_of(r.resolved));
    report::lemma_said(s0, "  Resolved: "@, none, text::text_of(r.resolved));
    let s2 = s1 + report::said_if("  Kind: "@, text::text_of(r.kind));
    report::lemma_said(s1, "  Kind: "@, none, text::text_of(r.kind));
    let s3 = s2 + report::said_if("  Model: "@, text::text_of(r.model));
    report::lemma_said(s2, "  Model: "@, none, text::text_of(r.model));
    let s4 = s3 + report::said("  Live: "@, report::yes_or_no(r.live));
    report::lemma_said(s3, "  Live: "@, report::yes_or_no(r.live), None);
    let s5 = s4 + report::said("  Local config ok: "@, report::yes_or_no(r.local_config_ok));
    report::lemma_said(s4, "  Local config ok: "@, report::yes_or_no(r.local_config_ok), None);
    let s6 = s5 + report::said_if("  Error: "@, text::text_of(r.local_config_error));
    report::lemma_said(s5, "  Error: "@, none, text::text_of(r.local_config_error));
    let s7 = s6 + report::said_if("  Installed at: "@, text::text_of(r.install_path));
    report::lemma_said(s6, "  Installed at: "@, none, text::text_of(r.install_path));
    let s8 = s7 + report::said_if("  State: "@, text::text_of(r.state_path));
    report::lemma_said(s7, "  State: "@, none, text::text_of(r.state_path));
    assert(current_lines(r) =~= s8);
}

} // verus!
