//! What the tray does, step by step.
//!
//! The tray asks the tool for its providers, has it remember one, and starts and stops it
//! as the live worker. Each of these is asked for in a step and answered in the next.
use crate::text;
use vstd::prelude::*;
use vstd::string::*;

verus! {

#[derive(Debug, Clone, PartialEq, Eq)]
pub struct AppConfig {
    pub dicta_bin: String,
    pub live_args: Vec<String>,
    pub provider_config: Option<String>,
    pub provider_state: Option<String>,
    pub autostart: bool,
    pub native_glass: bool,
}

/// The variables that set the tray up.
#[derive(Debug, Clone, PartialEq, Eq)]
pub struct Environment {
    pub dicta_bin: Option<String>,
    pub live_args: Option<String>,
    pub provider_config: Option<String>,
    pub provider_state: Option<String>,
    pub autostart: Option<String>,
    pub native_glass: Option<String>,
}

/// A value as it is, unless it is blank.
pub open spec fn unless_blank(s: Option<Seq<char>>) -> Option<Seq<char>> {
    match s {
        Some(v) => if text::trimmed(v).len() > 0 {
            Some(v)
        } else {
            None
        },
        None => None,
    }
}

fn keep_unless_blank(s: &Option<String>) -> (r: Option<String>)
    ensures
        text::text_of(r) == unless_blank(text::text_of(*s)),
{
    match s {
        Some(v) => {
            if text::trim(v.as_str()).as_str().is_empty() {
                None
            } else {
                Some(text::copy(v.as_str()))
            }
        },
        None => None,
    }
}

/// The lines that are not blank, trimmed.
pub open spec fn words_in(lines: Seq<Seq<char>>) -> Seq<Seq<char>>
    decreases lines.len(),
{
    if lines.len() == 0 {
        lines
    } else if text::trimmed(lines.last()).len() == 0 {
        words_in(lines.drop_last())
    } else {
        words_in(lines.drop_last()).push(text::trimmed(lines.last()))
    }
}

fn split_words(value: &str) -> (r: Vec<String>)
    ensures
        text::texts(r@) == words_in(text::lines(value@)),
{
    let lines = text::split_lines(value);
    let ghost all = text::texts(lines@);
    let n: usize = lines.len();
    let mut words: Vec<String> = Vec::new();
    let mut i: usize = 0;
    assert(text::texts(words@) =~= words_in(all.take(0)));
    while i < n
        invariant
            n == lines.len(),
            all == text::texts(lines@),
            i <= n,
            text::texts(words@) == words_in(all.take(i as int)),
        decreases n - i,
    {
        let ghost more = all.take(i + 1);
        assert(more.drop_last() =~= all.take(i as int));
        assert(more.last() == lines@[i as int]@);
        let word = text::trim(lines[i].as_str());
        if !word.as_str().is_empty() {
            let ghost before = text::texts(words@);
            words.push(word);
            assert(text::texts(words@) =~= before.push(word@));
        }
        i = i + 1;
    }
    assert(all.take(n as int) =~= all);
    words
}

pub open spec fn default_args() -> Seq<Seq<char>> {
    seq!["--provider"@, "active"@, "--live"@]
}

impl Default for AppConfig {
    fn default() -> (r: Self)
        ensures
            r.dicta_bin@ == "dicta"@,
            text::texts(r.live_args@) == default_args(),
            r.provider_config is None,
            r.provider_state is None,
            !r.autostart,
            !r.native_glass,
    {
        let mut live_args: Vec<String> = Vec::new();
        live_args.push(text::copy("--provider"));
        live_args.push(text::copy("active"));
        live_args.push(text::copy("--live"));
        assert(text::texts(live_args@) =~= default_args());
        AppConfig {
            dicta_bin: text::copy("dicta"),
            live_args,
            provider_config: None,
            provider_state: None,
            autostart: false,
            native_glass: false,
        }
    }
}

fn is_one(s: &Option<String>) -> (r: bool)
    ensures
        r == (text::text_of(*s) == Some("1"@)),
{
    match s {
        Some(v) => text::same(v.as_str(), "1"),
        None => false,
    }
}

impl AppConfig {
    pub fn from_env(e: &Environment) -> (r: AppConfig)
        ensures
            r.dicta_bin@ == match unless_blank(text::text_of(e.dicta_bin)) {
                Some(v) => v,
                None => "dicta"@,
            },
            text::texts(r.live_args@) == match e.live_args {
                Some(v) => if words_in(text::lines(v@)).len() > 0 {
                    words_in(text::lines(v@))
                } else {
                    default_args()
                },
                None => default_args(),
            },
            text::text_of(r.provider_config) == unless_blank(text::text_of(e.provider_config)),
            text::text_of(r.provider_state) == unless_blank(text::text_of(e.provider_state)),
            r.autostart == (text::text_of(e.autostart) == Some("1"@)),
            r.native_glass == (text::text_of(e.native_glass) == Some("1"@)),
    {
        let mut config = AppConfig::default();
        if let Some(v) = keep_unless_blank(&e.dicta_bin) {
            config.dicta_bin = v;
        }
        if let Some(v) = &e.live_args {
            let args = split_words(v.as_str());
            assert(text::texts(args@).len() == args.len());
            if args.len() > 0 {
                config.live_args = args;
            }
        }
        config.provider_config = keep_unless_blank(&e.provider_config);
        config.provider_state = keep_unless_blank(&e.provider_state);
        config.autostart = is_one(&e.autostart);
        config.native_glass = is_one(&e.native_glass);
        config
    }
}

/// A provider as the tool lists it.
#[derive(Debug, Clone, PartialEq, Eq)]
pub struct ProviderListEntry {
    pub name: String,
    pub kind: String,
    pub selected: bool,
    pub live: bool,
    pub local_config_ok: bool,
    pub local_config_error: Option<String>,
    pub model: String,
}

#[verifier::ext_equal]
pub struct ListedView {
    pub name: Seq<char>,
    pub kind: Seq<char>,
    pub selected: bool,
    pub live: bool,
    pub local_config_ok: bool,
    pub local_config_error: Option<Seq<char>>,
    pub model: Seq<char>,
}

impl View for ProviderListEntry {
    type V = ListedView;

    open spec fn view(&self) -> ListedView {
        ListedView {
            name: self.name@,
            kind: self.kind@,
            selected: self.selected,
            live: self.live,
            local_config_ok: self.local_config_ok,
            local_config_error: text::text_of(self.local_config_error),
            model: self.model@,
        }
    }
}

#[derive(Debug, Clone, PartialEq, Eq)]
pub struct ProviderListReport {
    pub current: Option<String>,
    pub providers: Vec<ProviderListEntry>,
}

#[verifier::ext_equal]
pub struct ReportView {
    pub current: Option<Seq<char>>,
    pub providers: Seq<ListedView>,
}

pub open spec fn listed(v: Seq<ProviderListEntry>) -> Seq<ListedView> {
    v.map_values(|p: ProviderListEntry| p@)
}

impl View for ProviderListReport {
    type V = ReportView;

    open spec fn view(&self) -> ReportView {
        ReportView { current: text::text_of(self.current), providers: listed(self.providers@) }
    }
}

impl ListedView {
    /// The provider can run live as it is set up.
    pub open spec fn switchable(self) -> bool {
        self.live && self.local_config_ok
    }

    pub open spec fn label(self) -> Seq<char> {
        let words = self.name + " ("@ + self.kind + ", "@ + self.model + ")"@;
        if !self.live {
            words + " - no live"@
        } else if !self.local_config_ok {
            match self.local_config_error {
                Some(e) => words + (" - "@ + e),
                None => words + " - config needed"@,
            }
        } else {
            words
        }
    }

    /// Why the provider cannot run live.
    pub open spec fn refusal(self) -> Seq<char> {
        if !self.live {
            self.name + " does not support live mode"@
        } else {
            match self.local_config_error {
                Some(e) => e,
                None => self.name + " is not ready"@,
            }
        }
    }
}

pub fn provider_switchable(p: &ProviderListEntry) -> (r: bool)
    ensures
        r == p@.switchable(),
{
    p.live && p.local_config_ok
}

pub fn provider_visible_in_tray(p: &ProviderListEntry) -> (r: bool)
    ensures
        r == p@.live,
{
    p.live
}

pub fn provider_label(p: &ProviderListEntry) -> (r: String)
    ensures
        r@ == p@.label(),
{
    let first = text::cat5(p.name.as_str(), " (", p.kind.as_str(), ", ", p.model.as_str());
    let words = text::cat(first.as_str(), ")");
    if !p.live {
        text::cat(words.as_str(), " - no live")
    } else if !p.local_config_ok {
        match &p.local_config_error {
            Some(e) => text::cat(words.as_str(), text::cat(" - ", e.as_str()).as_str()),
            None => text::cat(words.as_str(), " - config needed"),
        }
    } else {
        words
    }
}

pub fn unavailable_provider_status(p: &ProviderListEntry) -> (r: String)
    ensures
        r@ == p@.refusal(),
{
    if !p.live {
        text::cat(p.name.as_str(), " does not support live mode")
    } else {
        match &p.local_config_error {
            Some(e) => text::copy(e.as_str()),
            None => text::cat(p.name.as_str(), " is not ready"),
        }
    }
}

/// The providers with a live mode.
pub open spec fn live_only(v: Seq<ListedView>) -> Seq<ListedView>
    decreases v.len(),
{
    if v.len() == 0 {
        v
    } else if v.last().live {
        live_only(v.drop_last()).push(v.last())
    } else {
        live_only(v.drop_last())
    }
}

pub open spec fn for_tray(r: ReportView) -> ReportView {
    ReportView { current: r.current, providers: live_only(r.providers) }
}

impl ProviderListEntry {
    pub fn copied(&self) -> (r: ProviderListEntry)
        ensures
            r@ == self@,
    {
        ProviderListEntry {
            name: text::copy(self.name.as_str()),
            kind: text::copy(self.kind.as_str()),
            selected: self.selected,
            live: self.live,
            local_config_ok: self.local_config_ok,
            local_config_error: text::copy_opt(&self.local_config_error),
            model: text::copy(self.model.as_str()),
        }
    }
}

pub fn filter_provider_report_for_tray(report: ProviderListReport) -> (r: ProviderListReport)
    ensures
        r@ == for_tray(report@),
{
    let ghost all = listed(report.providers@);
    let n: usize = report.providers.len();
    let mut kept: Vec<ProviderListEntry> = Vec::new();
    let mut i: usize = 0;
    assert(listed(kept@) =~= live_only(all.take(0)));
    while i < n
        invariant
            n == report.providers.len(),
            all == listed(report.providers@),
            i <= n,
            listed(kept@) == live_only(all.take(i as int)),
        decreases n - i,
    {
        let ghost more = all.take(i + 1);
        assert(more.drop_last() =~= all.take(i as int));
        assert(more.last() == report.providers@[i as int]@);
        if provider_visible_in_tray(&report.providers[i]) {
            let ghost before = listed(kept@);
            kept.push(report.providers[i].copied());
            assert(listed(kept@) =~= before.push(more.last()));
        }
        i = i + 1;
    }
    assert(all.take(n as int) =~= all);
    ProviderListReport { current: report.current, providers: kept }
}

/// The tray shows providers with a live mode only, and no other than were listed.
pub proof fn law_tray_shows_live_providers(v: Seq<ListedView>)
    ensures
        forall|i: int|
            0 <= i < live_only(v).len() ==> (#[trigger] live_only(v)[i]).live && v.contains(
                live_only(v)[i],
            ),
    decreases v.len(),
{
    if v.len() > 0 {
        let rest = v.drop_last();
        law_tray_shows_live_providers(rest);
        assert forall|i: int| 0 <= i < live_only(v).len() implies (#[trigger] live_only(v)[i]).live
            && v.contains(live_only(v)[i]) by {
            if i < live_only(rest).len() {
                assert(live_only(v)[i] == live_only(rest)[i]);
                let k = choose|k: int| 0 <= k < rest.len() && rest[k] == live_only(rest)[i];
                assert(v[k] == rest[k]);
            } else {
                assert(v[v.len() - 1] == live_only(v)[i]);
            }
        }
    }
}

/// The first provider of that name.
pub open spec fn named(v: Seq<ListedView>, name: Seq<char>) -> Option<ListedView>
    decreases v.len(),
{
    if v.len() == 0 {
        None
    } else if v[0].name == name {
        Some(v[0])
    } else {
        named(v.subrange(1, v.len() as int), name)
    }
}

fn find_named(v: &Vec<ProviderListEntry>, name: &str) -> (r: Option<usize>)
    ensures
        match r {
            Some(i) => i < v.len() && named(listed(v@), name@) == Some(v@[i as int]@),
            None => named(listed(v@), name@) is None,
        },
{
    let ghost all = listed(v@);
    let n: usize = v.len();
    let mut i: usize = 0;
    assert(all.subrange(0, n as int) =~= all);
    while i < n
        invariant
            n == v.len(),
            all == listed(v@),
            i <= n,
            named(all, name@) == named(all.subrange(i as int, n as int), name@),
        decreases n - i,
    {
        let ghost rest = all.subrange(i as int, n as int);
        assert(rest[0] == v@[i as int]@);
        if text::same(v[i].name.as_str(), name) {
            return Some(i);
        }
        assert(rest.subrange(1, rest.len() as int) =~= all.subrange(i + 1, n as int));
        i = i + 1;
    }
    None
}

/// The current provider can run live.
pub open spec fn current_ready(r: ReportView) -> bool {
    r.current is Some && exists|i: int|
        0 <= i < r.providers.len() && (#[trigger] r.providers[i]).name == r.current->0
            && r.providers[i].switchable()
}

pub fn report_current_switchable(report: &ProviderListReport) -> (r: bool)
    ensures
        r == current_ready(report@),
{
    let ghost all = listed(report.providers@);
    match &report.current {
        None => false,
        Some(current) => {
            let n: usize = report.providers.len();
            let mut i: usize = 0;
            while i < n
                invariant
                    n == report.providers.len(),
                    all == listed(report.providers@),
                    report.current == Some(*current),
                    i <= n,
                    forall|k: int|
                        0 <= k < i ==> !((#[trigger] all[k]).name == current@
                            && all[k].switchable()),
                decreases n - i,
            {
                let p = &report.providers[i];
                assert(all[i as int] == p@);
                if text::same(p.name.as_str(), current.as_str()) && provider_switchable(p) {
                    return true;
                }
                i = i + 1;
            }
            false
        },
    }
}

/// The first provider that can run live.
pub open spec fn first_ready(v: Seq<ListedView>) -> Option<Seq<char>>
    decreases v.len(),
{
    if v.len() == 0 {
        None
    } else if v[0].switchable() {
        Some(v[0].name)
    } else {
        first_ready(v.subrange(1, v.len() as int))
    }
}

pub fn first_switchable_provider(report: &ProviderListReport) -> (r: Option<String>)
    ensures
        text::text_of(r) == first_ready(report@.providers),
{
    let ghost all = listed(report.providers@);
    let n: usize = report.providers.len();
    let mut i: usize = 0;
    assert(all.subrange(0, n as int) =~= all);
    while i < n
        invariant
            n == report.providers.len(),
            all == listed(report.providers@),
            i <= n,
            first_ready(all) == first_ready(all.subrange(i as int, n as int)),
        decreases n - i,
    {
        let ghost rest = all.subrange(i as int, n as int);
        assert(rest[0] == report.providers@[i as int]@);
        if provider_switchable(&report.providers[i]) {
            return Some(text::copy(report.providers[i].name.as_str()));
        }
        assert(rest.subrange(1, rest.len() as int) =~= all.subrange(i + 1, n as int));
        i = i + 1;
    }
    None
}

/// What a command that failed said, or that it said nothing.
pub open spec fn complaint(said: Seq<char>) -> Seq<char> {
    if text::trimmed(said).len() == 0 {
        "command exited with an error"@
    } else {
        text::trimmed(said)
    }
}

pub fn complaint_of(said: &str) -> (r: String)
    ensures
        r@ == complaint(said@),
{
    let words = text::trim(said);
    if words.as_str().is_empty() {
        text::copy("command exited with an error")
    } else {
        words
    }
}

pub fn command_error(stderr: &Vec<u8>) -> (r: String)
    ensures
        r@ == complaint(text::lossy_text(stderr@)),
{
    let said = text::read_lossy(stderr);
    complaint_of(said.as_str())
}

pub open spec fn log_char(c: char) -> char {
    if text::ascii_alphanumeric(c) || c == '-' || c == '_' {
        c
    } else {
        '-'
    }
}

/// A name that can stand in a file's name.
pub open spec fn log_name(value: Seq<char>) -> Seq<char> {
    if value.len() == 0 {
        "provider"@
    } else {
        value.map_values(|c: char| log_char(c))
    }
}

pub fn sanitize_log_name(value: &str) -> (r: String)
    ensures
        r@ == log_name(value@),
{
    let chars = text::to_chars(value);
    let n: usize = chars.len();
    if n == 0 {
        return text::copy("provider");
    }
    let ghost all = value@.map_values(|c: char| log_char(c));
    let mut out: Vec<char> = Vec::new();
    let mut i: usize = 0;
    while i < n
        invariant
            n == chars.len(),
            chars@ == value@,
            all == value@.map_values(|c: char| log_char(c)),
            i <= n,
            out@ == all.take(i as int),
        decreases n - i,
    {
        let c = chars[i];
        let kept = ('0' <= c && c <= '9') || ('a' <= c && c <= 'z') || ('A' <= c && c <= 'Z') || c
            == '-' || c == '_';
        if kept {
            out.push(c);
        } else {
            out.push('-');
        }
        i = i + 1;
        assert(out@ =~= all.take(i as int));
    }
    assert(all.take(n as int) =~= all);
    text::of_chars(&out)
}

/// A name for a log is never empty, and holds letters, digits, dashes and underscores only.
pub proof fn law_log_name_is_plain(value: Seq<char>)
    ensures
        log_name(value).len() > 0,
        forall|i: int|
            0 <= i < log_name(value).len() ==> text::ascii_alphanumeric(
                #[trigger] log_name(value)[i],
            ) || log_name(value)[i] == '-' || log_name(value)[i] == '_',
{
    reveal_strlit("provider");
}

/// The file that a live worker's errors go to.
pub fn live_worker_log_name(provider: &str, process: u32) -> (r: String)
    ensures
        r@ == "dicta-tray-live-"@ + log_name(provider@) + "-"@ + text::decimal(process as nat)
            + ".log"@,
{
    text::cat5(
        "dicta-tray-live-",
        sanitize_log_name(provider).as_str(),
        "-",
        text::number(process as u64).as_str(),
        ".log",
    )
}

/// What the tray asks for next.
#[derive(Debug, Clone, PartialEq, Eq)]
pub enum TrayAsk {
    Nothing,
    /// The providers, as the tool lists them.
    List,
    /// That the tool remember a provider.
    Remember(String),
    /// That the live worker end.
    Stop,
    /// That the live worker start, with a provider.
    Start(String),
}

pub enum TrayAskView {
    Nothing,
    List,
    Remember(Seq<char>),
    Stop,
    Start(Seq<char>),
}

impl View for TrayAsk {
    type V = TrayAskView;

    open spec fn view(&self) -> TrayAskView {
        match self {
            TrayAsk::Nothing => TrayAskView::Nothing,
            TrayAsk::List => TrayAskView::List,
            TrayAsk::Remember(n) => TrayAskView::Remember(n@),
            TrayAsk::Stop => TrayAskView::Stop,
            TrayAsk::Start(n) => TrayAskView::Start(n@),
        }
    }
}

/// What follows when the providers are known anew: nothing, or what a switch still owes.
#[derive(Debug, Clone, PartialEq, Eq)]
pub enum AfterRefresh {
    Rest,
    Switched { name: String, restart: bool },
}

pub enum AfterRefreshView {
    Rest,
    Switched { name: Seq<char>, restart: bool },
}

impl View for AfterRefresh {
    type V = AfterRefreshView;

    open spec fn view(&self) -> AfterRefreshView {
        match self {
            AfterRefresh::Rest => AfterRefreshView::Rest,
            AfterRefresh::Switched { name, restart } => AfterRefreshView::Switched {
                name: name@,
                restart: *restart,
            },
        }
    }
}

/// What follows when the live worker has ended.
#[derive(Debug, Clone, PartialEq, Eq)]
pub enum AfterStop {
    Rest,
    Switch { name: String },
    Start,
}

pub enum AfterStopView {
    Rest,
    Switch { name: Seq<char> },
    Start,
}

impl View for AfterStop {
    type V = AfterStopView;

    open spec fn view(&self) -> AfterStopView {
        match self {
            AfterStop::Rest => AfterStopView::Rest,
            AfterStop::Switch { name } => AfterStopView::Switch { name: name@ },
            AfterStop::Start => AfterStopView::Start,
        }
    }
}

/// What the tray waits for.
#[derive(Debug, Clone, PartialEq, Eq)]
pub enum TrayStage {
    Idle,
    /// The providers were asked for.
    Listing { after: AfterRefresh },
    /// A provider that can run live is remembered, because the current one cannot.
    Replacing { name: String, after: AfterRefresh },
    /// The providers were asked for again.
    Relisting { name: String, after: AfterRefresh },
    /// A provider that was chosen is remembered.
    Switching { name: String },
    Stopping { after: AfterStop },
    Starting { provider: String },
}

pub enum TrayStageView {
    Idle,
    Listing { after: AfterRefreshView },
    Replacing { name: Seq<char>, after: AfterRefreshView },
    Relisting { name: Seq<char>, after: AfterRefreshView },
    Switching { name: Seq<char> },
    Stopping { after: AfterStopView },
    Starting { provider: Seq<char> },
}

impl View for TrayStage {
    type V = TrayStageView;

    open spec fn view(&self) -> TrayStageView {
        match self {
            TrayStage::Idle => TrayStageView::Idle,
            TrayStage::Listing { after } => TrayStageView::Listing { after: after@ },
            TrayStage::Replacing { name, after } => TrayStageView::Replacing {
                name: name@,
                after: after@,
            },
            TrayStage::Relisting { name, after } => TrayStageView::Relisting {
                name: name@,
                after: after@,
            },
            TrayStage::Switching { name } => TrayStageView::Switching { name: name@ },
            TrayStage::Stopping { after } => TrayStageView::Stopping { after: after@ },
            TrayStage::Starting { provider } => TrayStageView::Starting { provider: provider@ },
        }
    }
}

#[derive(Debug, Clone, PartialEq, Eq)]
pub struct TrayApp {
    pub report: Option<ProviderListReport>,
    pub running: bool,
    pub status: String,
    pub stage: TrayStage,
}

#[verifier::ext_equal]
pub struct TrayView {
    pub report: Option<ReportView>,
    pub running: bool,
    pub status: Seq<char>,
    pub stage: TrayStageView,
}

impl View for TrayApp {
    type V = TrayView;

    open spec fn view(&self) -> TrayView {
        TrayView {
            report: match self.report {
                Some(r) => Some(r@),
                None => None,
            },
            running: self.running,
            status: self.status@,
            stage: self.stage@,
        }
    }
}

impl TrayView {
    pub open spec fn selected(self) -> Option<Seq<char>> {
        match self.report {
            Some(r) => r.current,
            None => None,
        }
    }

    pub open spec fn entry(self, name: Seq<char>) -> Option<ListedView> {
        match self.report {
            Some(r) => named(r.providers, name),
            None => None,
        }
    }

    pub open spec fn selected_entry(self) -> Option<ListedView> {
        match self.selected() {
            Some(name) => self.entry(name),
            None => None,
        }
    }

    /// The selected provider can run live.
    pub open spec fn ready(self) -> bool {
        self.selected_entry() is Some && self.selected_entry()->0.switchable()
    }

    /// At rest with a status.
    pub open spec fn resting(self, status: Seq<char>) -> (TrayView, TrayAskView) {
        (TrayView { status, stage: TrayStageView::Idle, ..self }, TrayAskView::Nothing)
    }
}

/// The providers are asked for.
pub open spec fn refreshing(v: TrayView, after: AfterRefreshView) -> (TrayView, TrayAskView) {
    (TrayView { stage: TrayStageView::Listing { after }, ..v }, TrayAskView::List)
}

/// The live worker is started, with the selected provider, if that can run live.
pub open spec fn starting(v: TrayView) -> (TrayView, TrayAskView) {
    if v.running {
        v.resting("Live already running"@)
    } else if !v.ready() {
        v.resting(
            match v.selected_entry() {
                Some(p) => p.refusal(),
                None => "No live-ready provider is selected"@,
            },
        )
    } else {
        let name = v.selected()->0;
        (
            TrayView {
                status: "Starting live with "@ + name,
                stage: TrayStageView::Starting { provider: name },
                ..v
            },
            TrayAskView::Start(name),
        )
    }
}

/// The live worker is stopped, if it runs.
pub open spec fn stopping(v: TrayView, after: AfterStopView) -> (TrayView, TrayAskView) {
    if v.running {
        (
            TrayView {
                status: "Stopping live"@,
                running: false,
                stage: TrayStageView::Stopping { after },
                ..v
            },
            TrayAskView::Stop,
        )
    } else {
        v.resting("Live is not running"@)
    }
}

pub open spec fn restarting(v: TrayView) -> (TrayView, TrayAskView) {
    let told = TrayView { status: "Restarting live"@, ..v };
    if v.running {
        stopping(told, AfterStopView::Start)
    } else {
        starting(told)
    }
}

/// A provider is chosen, if it can run live.
pub open spec fn choosing(v: TrayView, name: Seq<char>) -> (TrayView, TrayAskView) {
    match v.entry(name) {
        Some(p) => if p.switchable() {
            (
                TrayView {
                    status: "Switching provider to "@ + name,
                    stage: TrayStageView::Switching { name },
                    ..v
                },
                TrayAskView::Remember(name),
            )
        } else {
            v.resting(p.refusal())
        },
        None => v.resting("Provider "@ + name + " is unavailable"@),
    }
}

/// The providers are known, or not: what follows from it.
pub open spec fn refreshed(
    v: TrayView,
    report: Option<ReportView>,
    status: Seq<char>,
    after: AfterRefreshView,
) -> (TrayView, TrayAskView) {
    let known = TrayView { report, status, ..v };
    match after {
        AfterRefreshView::Rest => known.resting(status),
        AfterRefreshView::Switched { name, restart } => {
            let told = TrayView { status: "Provider switched to "@ + name, ..known };
            if restart {
                starting(told)
            } else {
                told.resting("Provider switched to "@ + name)
            }
        },
    }
}

pub open spec fn list_failed(v: TrayView, error: Seq<char>, after: AfterRefreshView) -> (
    TrayView,
    TrayAskView,
) {
    refreshed(v, None, "Provider list failed: "@ + error, after)
}

/// The providers were listed.
pub open spec fn after_list(v: TrayView, list: Result<ReportView, Seq<char>>) -> (
    TrayView,
    TrayAskView,
) {
    match v.stage {
        TrayStageView::Listing { after } => match list {
            Err(e) => list_failed(v, e, after),
            Ok(all) => {
                let report = for_tray(all);
                if current_ready(report) {
                    refreshed(v, Some(report), "Ready"@, after)
                } else {
                    match first_ready(report.providers) {
                        None => refreshed(
                            v,
                            Some(report),
                            "No live-ready providers found"@,
                            after,
                        ),
                        Some(name) => (
                            TrayView { stage: TrayStageView::Replacing { name, after }, ..v },
                            TrayAskView::Remember(name),
                        ),
                    }
                }
            },
        },
        TrayStageView::Relisting { name, after } => match list {
            Err(e) => list_failed(v, e, after),
            Ok(all) => refreshed(
                v,
                Some(for_tray(all)),
                "Provider switched to "@ + name,
                after,
            ),
        },
        _ => (v, TrayAskView::Nothing),
    }
}

/// A provider was remembered, or not.
pub open spec fn after_remember(v: TrayView, result: Result<(), Seq<char>>) -> (
    TrayView,
    TrayAskView,
) {
    match v.stage {
        TrayStageView::Replacing { name, after } => match result {
            Err(e) => list_failed(v, e, after),
            Ok(_) => (
                TrayView { stage: TrayStageView::Relisting { name, after }, ..v },
                TrayAskView::List,
            ),
        },
        TrayStageView::Switching { name } => match result {
            Err(e) => v.resting("Provider switch failed: "@ + e),
            Ok(_) => if v.running {
                stopping(v, AfterStopView::Switch { name })
            } else {
                refreshing(v, AfterRefreshView::Switched { name, restart: false })
            },
        },
        _ => (v, TrayAskView::Nothing),
    }
}

/// The live worker ended, or waiting for that failed.
pub open spec fn after_stop(v: TrayView, result: Result<(), Seq<char>>) -> (
    TrayView,
    TrayAskView,
) {
    let status = match result {
        Ok(_) => "Live stopped"@,
        Err(e) => "Live stop wait failed: "@ + e,
    };
    let told = TrayView { status, ..v };
    match v.stage {
        TrayStageView::Stopping { after } => match after {
            AfterStopView::Rest => told.resting(status),
            AfterStopView::Switch { name } => refreshing(
                told,
                AfterRefreshView::Switched { name, restart: true },
            ),
            AfterStopView::Start => starting(told),
        },
        _ => (v, TrayAskView::Nothing),
    }
}

/// The live worker started, or not.
pub open spec fn after_start(v: TrayView, result: Result<(), Seq<char>>) -> (
    TrayView,
    TrayAskView,
) {
    match v.stage {
        TrayStageView::Starting { provider } => match result {
            Ok(_) => TrayView { running: true, ..v }.resting("Live running with "@ + provider),
            Err(e) => v.resting("Live start failed: "@ + e),
        },
        _ => (v, TrayAskView::Nothing),
    }
}

/// The view of what came of something that was asked for.
pub open spec fn outcome(r: Result<(), String>) -> Result<(), Seq<char>> {
    match r {
        Ok(_) => Ok(()),
        Err(e) => Err(e@),
    }
}

pub open spec fn list_outcome(r: Result<ProviderListReport, String>) -> Result<
    ReportView,
    Seq<char>,
> {
    match r {
        Ok(l) => Ok(l@),
        Err(e) => Err(e@),
    }
}

impl TrayApp {
    pub fn new() -> (r: TrayApp)
        ensures
            r@ == (TrayView {
                report: None,
                running: false,
                status: "Starting"@,
                stage: TrayStageView::Idle,
            }),
    {
        TrayApp {
            report: None,
            running: false,
            status: text::copy("Starting"),
            stage: TrayStage::Idle,
        }
    }

    pub fn selected_provider(&self) -> (r: Option<String>)
        ensures
            text::text_of(r) == self@.selected(),
    {
        match &self.report {
            Some(r) => text::copy_opt(&r.current),
            None => None,
        }
    }

    fn provider_by_name(&self, name: &str) -> (r: Option<ProviderListEntry>)
        ensures
            match r {
                Some(p) => self@.entry(name@) == Some(p@),
                None => self@.entry(name@) is None,
            },
    {
        match &self.report {
            Some(r) => match find_named(&r.providers, name) {
                Some(i) => Some(r.providers[i].copied()),
                None => None,
            },
            None => None,
        }
    }

    fn selected_provider_entry(&self) -> (r: Option<ProviderListEntry>)
        ensures
            match r {
                Some(p) => self@.selected_entry() == Some(p@),
                None => self@.selected_entry() is None,
            },
    {
        match self.selected_provider() {
            Some(name) => self.provider_by_name(name.as_str()),
            None => None,
        }
    }

    pub fn selected_provider_ready(&self) -> (r: bool)
        ensures
            r == self@.ready(),
    {
        match self.selected_provider_entry() {
            Some(p) => provider_switchable(&p),
            None => false,
        }
    }

    fn rest(&mut self, status: String) -> (r: TrayAsk)
        ensures
            (final(self)@, r@) == old(self)@.resting(status@),
    {
        self.status = status;
        self.stage = TrayStage::Idle;
        assert(self@ =~= old(self)@.resting(status@).0);
        TrayAsk::Nothing
    }

    /// Asks for the providers.
    pub fn refresh(&mut self) -> (r: TrayAsk)
        ensures
            (final(self)@, r@) == refreshing(old(self)@, AfterRefreshView::Rest),
    {
        self.refresh_then(AfterRefresh::Rest)
    }

    fn refresh_then(&mut self, after: AfterRefresh) -> (r: TrayAsk)
        ensures
            (final(self)@, r@) == refreshing(old(self)@, after@),
    {
        self.stage = TrayStage::Listing { after };
        assert(self@ =~= refreshing(old(self)@, after@).0);
        TrayAsk::List
    }

    /// Starts the live worker with the selected provider.
    pub fn start_live(&mut self) -> (r: TrayAsk)
        ensures
            (final(self)@, r@) == starting(old(self)@),
    {
        if self.running {
            return self.rest(text::copy("Live already running"));
        }
        if !self.selected_provider_ready() {
            let status = match self.selected_provider_entry() {
                Some(p) => unavailable_provider_status(&p),
                None => text::copy("No live-ready provider is selected"),
            };
            return self.rest(status);
        }
        match self.selected_provider() {
            Some(name) => {
                self.status = text::cat("Starting live with ", name.as_str());
                self.stage = TrayStage::Starting { provider: text::copy(name.as_str()) };
                assert(self@ =~= starting(old(self)@).0);
                TrayAsk::Start(name)
            },
            None => TrayAsk::Nothing,
        }
    }

    /// Ends the live worker.
    pub fn stop_live(&mut self) -> (r: TrayAsk)
        ensures
            (final(self)@, r@) == stopping(old(self)@, AfterStopView::Rest),
    {
        self.stop_then(AfterStop::Rest)
    }

    fn stop_then(&mut self, after: AfterStop) -> (r: TrayAsk)
        ensures
            (final(self)@, r@) == stopping(old(self)@, after@),
    {
        if !self.running {
            return self.rest(text::copy("Live is not running"));
        }
        self.status = text::copy("Stopping live");
        self.running = false;
        self.stage = TrayStage::Stopping { after };
        assert(self@ =~= stopping(old(self)@, after@).0);
        TrayAsk::Stop
    }

    pub fn restart_live(&mut self) -> (r: TrayAsk)
        ensures
            (final(self)@, r@) == restarting(old(self)@),
    {
        self.status = text::copy("Restarting live");
        assert(self@ =~= TrayView { status: "Restarting live"@, ..old(self)@ });
        if self.running {
            self.stop_then(AfterStop::Start)
        } else {
            self.start_live()
        }
    }

    /// Chooses a provider.
    pub fn set_provider(&mut self, name: &str) -> (r: TrayAsk)
        ensures
            (final(self)@, r@) == choosing(old(self)@, name@),
    {
        match self.provider_by_name(name) {
            Some(p) => {
                if provider_switchable(&p) {
                    self.status = text::cat("Switching provider to ", name);
                    self.stage = TrayStage::Switching { name: text::copy(name) };
                    assert(self@ =~= choosing(old(self)@, name@).0);
                    TrayAsk::Remember(text::copy(name))
                } else {
                    let status = unavailable_provider_status(&p);
                    self.rest(status)
                }
            },
            None => self.rest(text::cat3("Provider ", name, " is unavailable")),
        }
    }

    fn refreshed_with(
        &mut self,
        report: Option<ProviderListReport>,
        status: String,
        after: AfterRefresh,
    ) -> (r: TrayAsk)
        ensures
            (final(self)@, r@) == refreshed(
                old(self)@,
                match report {
                    Some(l) => Some(l@),
                    None => None,
                },
                status@,
                after@,
            ),
    {
        self.report = report;
        match after {
            AfterRefresh::Rest => {
                let r = self.rest(status);
                assert(self@ =~= refreshed(
                    old(self)@,
                    match report {
                        Some(l) => Some(l@),
                        None => None,
                    },
                    status@,
                    after@,
                ).0);
                r
            },
            AfterRefresh::Switched { name, restart } => {
                self.status = text::cat("Provider switched to ", name.as_str());
                if restart {
                    assert(self@ =~= TrayView {
                        report: match report {
                            Some(l) => Some(l@),
                            None => None,
                        },
                        status: "Provider switched to "@ + name@,
                        ..old(self)@
                    });
                    self.start_live()
                } else {
                    let r = self.rest(text::cat("Provider switched to ", name.as_str()));
                    assert(self@ =~= refreshed(
                        old(self)@,
                        match report {
                            Some(l) => Some(l@),
                            None => None,
                        },
                        status@,
                        after@,
                    ).0);
                    r
                }
            },
        }
    }

    fn list_failed_with(&mut self, error: &str, after: AfterRefresh) -> (r: TrayAsk)
        ensures
            (final(self)@, r@) == list_failed(old(self)@, error@, after@),
    {
        self.refreshed_with(None, text::cat("Provider list failed: ", error), after)
    }

    /// Takes in the providers that the tool listed.
    pub fn on_list(&mut self, list: Result<ProviderListReport, String>) -> (r: TrayAsk)
        ensures
            (final(self)@, r@) == after_list(old(self)@, list_outcome(list)),
    {
        let ghost v = self@;
        let mut stage = TrayStage::Idle;
        std::mem::swap(&mut stage, &mut self.stage);
        match stage {
            TrayStage::Listing { after } => {
                match list {
                    Err(e) => {
                        let r = self.list_failed_with(e.as_str(), after);
                        assert(self@ =~= after_list(v, list_outcome(list)).0);
                        r
                    },
                    Ok(all) => {
                        let report = filter_provider_report_for_tray(all);
                        if report_current_switchable(&report) {
                            let r = self.refreshed_with(Some(report), text::copy("Ready"), after);
                            assert(self@ =~= after_list(v, list_outcome(list)).0);
                            return r;
                        }
                        match first_switchable_provider(&report) {
                            None => {
                                let r = self.refreshed_with(
                                    Some(report),
                                    text::copy("No live-ready providers found"),
                                    after,
                                );
                                assert(self@ =~= after_list(v, list_outcome(list)).0);
                                r
                            },
                            Some(name) => {
                                self.stage = TrayStage::Replacing {
                                    name: text::copy(name.as_str()),
                                    after,
                                };
                                assert(self@ =~= after_list(v, list_outcome(list)).0);
                                TrayAsk::Remember(name)
                            },
                        }
                    },
                }
            },
            TrayStage::Relisting { name, after } => {
                match list {
                    Err(e) => {
                        let r = self.list_failed_with(e.as_str(), after);
                        assert(self@ =~= after_list(v, list_outcome(list)).0);
                        r
                    },
                    Ok(all) => {
                        let report = filter_provider_report_for_tray(all);
                        let r = self.refreshed_with(
                            Some(report),
                            text::cat("Provider switched to ", name.as_str()),
                            after,
                        );
                        assert(self@ =~= after_list(v, list_outcome(list)).0);
                        r
                    },
                }
            },
            other => {
                self.stage = other;
                assert(self@ =~= v);
                TrayAsk::Nothing
            },
        }
    }

    /// Takes in whether the tool remembered the provider.
    pub fn on_remembered(&mut self, result: Result<(), String>) -> (r: TrayAsk)
        ensures
            (final(self)@, r@) == after_remember(old(self)@, outcome(result)),
    {
        let ghost v = self@;
        let mut stage = TrayStage::Idle;
        std::mem::swap(&mut stage, &mut self.stage);
        match stage {
            TrayStage::Replacing { name, after } => {
                match result {
                    Err(e) => {
                        let r = self.list_failed_with(e.as_str(), after);
                        assert(self@ =~= after_remember(v, outcome(result)).0);
                        r
                    },
                    Ok(_) => {
                        self.stage = TrayStage::Relisting { name, after };
                        assert(self@ =~= after_remember(v, outcome(result)).0);
                        TrayAsk::List
                    },
                }
            },
            TrayStage::Switching { name } => {
                match result {
                    Err(e) => {
                        let r = self.rest(text::cat("Provider switch failed: ", e.as_str()));
                        assert(self@ =~= after_remember(v, outcome(result)).0);
                        r
                    },
                    Ok(_) => {
                        let r = if self.running {
                            self.stop_then(AfterStop::Switch { name })
                        } else {
                            self.refresh_then(AfterRefresh::Switched { name, restart: false })
                        };
                        assert(self@ =~= after_remember(v, outcome(result)).0);
                        r
                    },
                }
            },
            other => {
                self.stage = other;
                assert(self@ =~= v);
                TrayAsk::Nothing
            },
        }
    }

    /// Takes in that the live worker ended.
    pub fn on_stopped(&mut self, result: Result<(), String>) -> (r: TrayAsk)
        ensures
            (final(self)@, r@) == after_stop(old(self)@, outcome(result)),
    {
        let ghost v = self@;
        let status = match &result {
            Ok(_) => text::copy("Live stopped"),
            Err(e) => text::cat("Live stop wait failed: ", e.as_str()),
        };
        let mut stage = TrayStage::Idle;
        std::mem::swap(&mut stage, &mut self.stage);
        match stage {
            TrayStage::Stopping { after } => {
                match after {
                    AfterStop::Rest => {
                        let r = self.rest(status);
                        assert(self@ =~= after_stop(v, outcome(result)).0);
                        r
                    },
                    AfterStop::Switch { name } => {
                        self.status = status;
                        let r = self.refresh_then(AfterRefresh::Switched { name, restart: true });
                        assert(self@ =~= after_stop(v, outcome(result)).0);
                        r
                    },
                    AfterStop::Start => {
                        self.status = status;
                        let ghost told = self@;
                        let r = self.start_live();
                        assert(self@ =~= after_stop(v, outcome(result)).0);
                        r
                    },
                }
            },
            other => {
                self.stage = other;
                assert(self@ =~= v);
                TrayAsk::Nothing
            },
        }
    }

    /// Takes in whether the live worker started.
    pub fn on_started(&mut self, result: Result<(), String>) -> (r: TrayAsk)
        ensures
            (final(self)@, r@) == after_start(old(self)@, outcome(result)),
    {
        let ghost v = self@;
        let mut stage = TrayStage::Idle;
        std::mem::swap(&mut stage, &mut self.stage);
        match stage {
            TrayStage::Starting { provider } => {
                let r = match &result {
                    Ok(_) => {
                        self.running = true;
                        self.rest(text::cat("Live running with ", provider.as_str()))
                    },
                    Err(e) => self.rest(text::cat("Live start failed: ", e.as_str())),
                };
                assert(self@ =~= after_start(v, outcome(result)).0);
                r
            },
            other => {
                self.stage = other;
                assert(self@ =~= v);
                TrayAsk::Nothing
            },
        }
    }

    /// Takes in what became of the live worker by itself: nothing yet, or how it ended.
    pub fn reap_live(&mut self, ended: Option<Result<String, String>>) -> (r: bool)
        ensures
            r == (old(self).running && ended is Some),
            final(self)@ == match ended {
                Some(how) => if old(self).running {
                    TrayView {
                        running: false,
                        status: match how {
                            Ok(status) => "Live exited with "@ + status@,
                            Err(error) => "Live status failed: "@ + error@,
                        },
                        ..old(self)@
                    }
                } else {
                    old(self)@
                },
                None => old(self)@,
            },
    {
        let ghost v = self@;
        if !self.running {
            return false;
        }
        match ended {
            None => false,
            Some(how) => {
                self.running = false;
                self.status = match &how {
                    Ok(status) => text::cat("Live exited with ", status.as_str()),
                    Err(error) => text::cat("Live status failed: ", error.as_str()),
                };
                assert(self@ =~= TrayView { running: false, status: self.status@, ..v });
                true
            },
        }
    }

    pub fn tray_title(&self) -> (r: &'static str)
        ensures
            r@ == if self.running {
                "dicta *"@
            } else {
                "dicta"@
            },
    {
        if self.running {
            "dicta *"
        } else {
            "dicta"
        }
    }

    pub fn tooltip(&self) -> (r: String)
        ensures
            r@ == match self@.selected() {
                Some(p) => "dicta: "@ + p + " ("@ + self.status@ + ")"@,
                None => "dicta: no active provider ("@ + self.status@ + ")"@,
            },
    {
        match self.selected_provider() {
            Some(p) => text::cat5("dicta: ", p.as_str(), " (", self.status.as_str(), ")"),
            None => text::cat3("dicta: no active provider (", self.status.as_str(), ")"),
        }
    }

    /// After how many seconds to look at the live worker again, where it runs.
    pub fn poll_after(&self) -> (r: Option<u64>)
        ensures
            r == if self.running {
                Some(2u64)
            } else {
                None
            },
    {
        if self.running {
            Some(2)
        } else {
            None
        }
    }
}

/// The live worker is only started where none runs, and only with a provider that can run
/// live and is the selected one.
pub proof fn law_only_ready_providers_start(v: TrayView)
    requires
        starting(v).1 is Start,
    ensures
        !v.running,
        v.ready(),
        v.selected() == Some(starting(v).1->Start_0),
{
}

/// Only a provider that is listed and can run live is remembered by choice.
pub proof fn law_only_ready_providers_are_chosen(v: TrayView, name: Seq<char>)
    requires
        choosing(v, name).1 is Remember,
    ensures
        v.entry(name) is Some,
        v.entry(name)->0.switchable(),
        choosing(v, name).1->Remember_0 == name,
{
}

proof fn lemma_named_stands(v: Seq<ListedView>, name: Seq<char>) -> (i: int)
    requires
        named(v, name) is Some,
    ensures
        0 <= i < v.len(),
        v[i].name == name,
        named(v, name) == Some(v[i]),
    decreases v.len(),
{
    if v[0].name == name {
        0
    } else {
        let rest = v.subrange(1, v.len() as int);
        let i = lemma_named_stands(rest, name);
        i + 1
    }
}

/// A switch while the live worker runs stops it, and takes it up again in the end: once
/// the list shows the chosen provider as the current one, and as one that can run live,
/// the worker is started with it.
pub proof fn law_switch_keeps_live_running(
    v: TrayView,
    name: Seq<char>,
    end: Result<(), Seq<char>>,
    list: ReportView,
)
    requires
        v.running,
        v.stage == (TrayStageView::Switching { name }),
    ensures
        after_remember(v, Ok(())).1 is Stop,
        after_stop(after_remember(v, Ok(())).0, end).1 is List,
        after_stop(after_remember(v, Ok(())).0, end).0.stage == (TrayStageView::Listing {
            after: AfterRefreshView::Switched { name, restart: true },
        }),
        ({
            let shown = for_tray(list);
            let found = named(shown.providers, name);
            shown.current == Some(name) && found is Some && found->0.switchable() ==> after_list(
                after_stop(after_remember(v, Ok(())).0, end).0,
                Ok(list),
            ).1 == TrayAskView::Start(name)
        }),
{
    let shown = for_tray(list);
    if shown.current == Some(name) && named(shown.providers, name) is Some && named(
        shown.providers,
        name,
    )->0.switchable() {
        let i = lemma_named_stands(shown.providers, name);
        assert(shown.providers[i].switchable());
        assert(current_ready(shown));
    }
}

/// An entry of the menu.
#[derive(Debug, Clone, PartialEq, Eq)]
pub enum MenuEntry {
    Item { id: Option<String>, label: String, enabled: bool },
    Check { id: String, label: String, enabled: bool, checked: bool },
    Separator,
}

pub enum MenuView {
    Item { id: Option<Seq<char>>, label: Seq<char>, enabled: bool },
    Check { id: Seq<char>, label: Seq<char>, enabled: bool, checked: bool },
    Separator,
}

impl View for MenuEntry {
    type V = MenuView;

    open spec fn view(&self) -> MenuView {
        match self {
            MenuEntry::Item { id, label, enabled } => MenuView::Item {
                id: text::text_of(*id),
                label: label@,
                enabled: *enabled,
            },
            MenuEntry::Check { id, label, enabled, checked } => MenuView::Check {
                id: id@,
                label: label@,
                enabled: *enabled,
                checked: *checked,
            },
            MenuEntry::Separator => MenuView::Separator,
        }
    }
}

pub open spec fn menu_views(v: Seq<MenuEntry>) -> Seq<MenuView> {
    v.map_values(|e: MenuEntry| e@)
}

pub open spec fn item(id: Seq<char>, label: Seq<char>, enabled: bool) -> MenuView {
    MenuView::Item { id: Some(id), label, enabled }
}

/// The identifier of the provider at a place in the menu.
pub open spec fn provider_id(index: nat) -> Seq<char> {
    "provider:"@ + text::decimal(index)
}

pub open spec fn provider_items(v: Seq<ListedView>) -> Seq<MenuView> {
    Seq::new(
        v.len(),
        |i: int|
            MenuView::Check {
                id: provider_id(i as nat),
                label: v[i].label(),
                enabled: v[i].switchable(),
                checked: v[i].selected,
            },
    )
}

pub open spec fn provider_part(v: TrayView) -> Seq<MenuView> {
    match v.report {
        None => seq![
            MenuView::Item { id: None, label: "Provider list unavailable"@, enabled: false },
        ],
        Some(r) => if r.providers.len() == 0 {
            seq![MenuView::Item { id: None, label: "No live providers found"@, enabled: false }]
        } else {
            provider_items(r.providers)
        },
    }
}

pub open spec fn menu(v: TrayView) -> Seq<MenuView> {
    seq![item("status"@, "Status: "@ + v.status, false), MenuView::Separator] + provider_part(v)
        + seq![
        MenuView::Separator,
        item("start"@, "Start Live"@, !v.running && v.ready()),
        item("stop"@, "Stop Live"@, v.running),
        item("restart"@, "Restart Live"@, v.ready()),
        item("refresh"@, "Refresh Providers"@, true),
        MenuView::Separator,
        item("quit"@, "Quit dicta"@, true),
    ]
}

fn menu_item(id: &str, label: &str, enabled: bool) -> (r: MenuEntry)
    ensures
        r@ == item(id@, label@, enabled),
{
    MenuEntry::Item { id: Some(text::copy(id)), label: text::copy(label), enabled }
}

fn push_entry(entries: &mut Vec<MenuEntry>, entry: MenuEntry)
    ensures
        menu_views(final(entries)@) == menu_views(old(entries)@).push(entry@),
{
    entries.push(entry);
    assert(menu_views(entries@) =~= menu_views(old(entries)@).push(entry@));
}

/// What the tray is told to do.
#[derive(Debug, Clone, PartialEq, Eq)]
pub enum TrayCommand {
    Choose(String),
    Start,
    Stop,
    Restart,
    Refresh,
    Hide,
    Quit,
    Ignore,
}

pub enum CommandView {
    Choose(Seq<char>),
    Start,
    Stop,
    Restart,
    Refresh,
    Hide,
    Quit,
    Ignore,
}

impl View for TrayCommand {
    type V = CommandView;

    open spec fn view(&self) -> CommandView {
        match self {
            TrayCommand::Choose(n) => CommandView::Choose(n@),
            TrayCommand::Start => CommandView::Start,
            TrayCommand::Stop => CommandView::Stop,
            TrayCommand::Restart => CommandView::Restart,
            TrayCommand::Refresh => CommandView::Refresh,
            TrayCommand::Hide => CommandView::Hide,
            TrayCommand::Quit => CommandView::Quit,
            TrayCommand::Ignore => CommandView::Ignore,
        }
    }
}

/// The provider with an identifier of the menu, from a place on.
pub open spec fn chosen_from(v: Seq<ListedView>, id: Seq<char>, from: nat) -> Option<Seq<char>>
    decreases v.len() - from,
{
    if from >= v.len() {
        None
    } else if id == provider_id(from) {
        Some(v[from as int].name)
    } else {
        chosen_from(v, id, from + 1)
    }
}

/// What an entry of the menu stands for.
pub open spec fn menu_command(v: TrayView, id: Seq<char>) -> CommandView {
    let chosen = match v.report {
        Some(r) => chosen_from(r.providers, id, 0),
        None => None,
    };
    match chosen {
        Some(name) => CommandView::Choose(name),
        None => if id == "start"@ {
            CommandView::Start
        } else if id == "stop"@ {
            CommandView::Stop
        } else if id == "restart"@ {
            CommandView::Restart
        } else if id == "refresh"@ {
            CommandView::Refresh
        } else if id == "quit"@ {
            CommandView::Quit
        } else {
            CommandView::Ignore
        },
    }
}

/// What a message of the panel stands for.
pub open spec fn panel_command(action: Seq<char>, provider: Option<Seq<char>>) -> CommandView {
    if action == "set_provider"@ {
        match provider {
            Some(name) => CommandView::Choose(name),
            None => CommandView::Ignore,
        }
    } else if action == "start_live"@ {
        CommandView::Start
    } else if action == "stop_live"@ {
        CommandView::Stop
    } else if action == "restart_live"@ {
        CommandView::Restart
    } else if action == "refresh"@ {
        CommandView::Refresh
    } else if action == "hide_panel"@ {
        CommandView::Hide
    } else if action == "quit"@ {
        CommandView::Quit
    } else {
        CommandView::Ignore
    }
}

pub fn handle_panel_message(action: &str, provider: &Option<String>) -> (r: TrayCommand)
    ensures
        r@ == panel_command(action@, text::text_of(*provider)),
{
    if text::same(action, "set_provider") {
        match provider {
            Some(name) => TrayCommand::Choose(text::copy(name.as_str())),
            None => TrayCommand::Ignore,
        }
    } else if text::same(action, "start_live") {
        TrayCommand::Start
    } else if text::same(action, "stop_live") {
        TrayCommand::Stop
    } else if text::same(action, "restart_live") {
        TrayCommand::Restart
    } else if text::same(action, "refresh") {
        TrayCommand::Refresh
    } else if text::same(action, "hide_panel") {
        TrayCommand::Hide
    } else if text::same(action, "quit") {
        TrayCommand::Quit
    } else {
        TrayCommand::Ignore
    }
}

impl TrayApp {
    fn push_providers(&self, entries: &mut Vec<MenuEntry>)
        ensures
            menu_views(final(entries)@) == menu_views(old(entries)@) + provider_part(self@),
    {
        let ghost start = menu_views(entries@);
        match &self.report {
            None => {
                push_entry(
                    entries,
                    MenuEntry::Item {
                        id: None,
                        label: text::copy("Provider list unavailable"),
                        enabled: false,
                    },
                );
            },
            Some(r) => {
                assert(r@.providers.len() == r.providers.len());
                if r.providers.len() == 0 {
                    push_entry(
                        entries,
                        MenuEntry::Item {
                            id: None,
                            label: text::copy("No live providers found"),
                            enabled: false,
                        },
                    );
                } else {
                    let ghost all = provider_items(r@.providers);
                    let n: usize = r.providers.len();
                    let mut i: usize = 0;
                    assert(start + all.take(0) =~= start);
                    while i < n
                        invariant
                            n == r.providers.len(),
                            all == provider_items(r@.providers),
                            start == menu_views(old(entries)@),
                            i <= n,
                            menu_views(entries@) == start + all.take(i as int),
                        decreases n - i,
                    {
                        let p = &r.providers[i];
                        assert(r@.providers[i as int] == p@);
                        let entry = MenuEntry::Check {
                            id: text::cat("provider:", text::number(i as u64).as_str()),
                            label: provider_label(p),
                            enabled: provider_switchable(p),
                            checked: p.selected,
                        };
                        assert(entry@ == all[i as int]);
                        push_entry(entries, entry);
                        assert(start + all.take(i + 1) =~= (start + all.take(i as int)).push(
                            all[i as int],
                        ));
                        i = i + 1;
                    }
                    assert(all.take(n as int) =~= all);
                }
            },
        }
        assert(menu_views(entries@) =~= start + provider_part(self@));
    }

    pub fn build_menu(&self) -> (r: Vec<MenuEntry>)
        ensures
            menu_views(r@) == menu(self@),
    {
        let ready = self.selected_provider_ready();
        let mut entries: Vec<MenuEntry> = Vec::new();
        let status = text::cat("Status: ", self.status.as_str());
        push_entry(&mut entries, menu_item("status", status.as_str(), false));
        push_entry(&mut entries, MenuEntry::Separator);
        self.push_providers(&mut entries);
        push_entry(&mut entries, MenuEntry::Separator);
        push_entry(&mut entries, menu_item("start", "Start Live", !self.running && ready));
        push_entry(&mut entries, menu_item("stop", "Stop Live", self.running));
        push_entry(&mut entries, menu_item("restart", "Restart Live", ready));
        push_entry(&mut entries, menu_item("refresh", "Refresh Providers", true));
        push_entry(&mut entries, MenuEntry::Separator);
        push_entry(&mut entries, menu_item("quit", "Quit dicta", true));
        assert(menu_views(entries@) =~= menu(self@));
        entries
    }

    fn chosen_in_menu(&self, id: &str) -> (r: Option<String>)
        ensures
            text::text_of(r) == match self@.report {
                Some(l) => chosen_from(l.providers, id@, 0),
                None => None,
            },
    {
        match &self.report {
            None => None,
            Some(r) => {
                let ghost all = r@.providers;
                let n: usize = r.providers.len();
                let mut i: usize = 0;
                while i < n
                    invariant
                        n == r.providers.len(),
                        all == listed(r.providers@),
                        self.report == Some(*r),
                        i <= n,
                        chosen_from(all, id@, 0) == chosen_from(all, id@, i as nat),
                    decreases n - i,
                {
                    assert(all[i as int] == r.providers@[i as int]@);
                    if text::same(id, text::cat("provider:", text::number(i as u64).as_str()).as_str()) {
                        return Some(text::copy(r.providers[i].name.as_str()));
                    }
                    i = i + 1;
                }
                None
            },
        }
    }

    /// What was meant by an entry of the menu.
    pub fn on_menu(&self, id: &str) -> (r: TrayCommand)
        ensures
            r@ == menu_command(self@, id@),
    {
        if let Some(name) = self.chosen_in_menu(id) {
            return TrayCommand::Choose(name);
        }
        if text::same(id, "start") {
            TrayCommand::Start
        } else if text::same(id, "stop") {
            TrayCommand::Stop
        } else if text::same(id, "restart") {
            TrayCommand::Restart
        } else if text::same(id, "refresh") {
            TrayCommand::Refresh
        } else if text::same(id, "quit") {
            TrayCommand::Quit
        } else {
            TrayCommand::Ignore
        }
    }
}

/// The tray shows every provider that has a live mode, in the order of the list: one more in
/// the list is one more in the tray, or none where it has no live mode.
pub proof fn law_tray_hides_only_others(v: Seq<ListedView>, p: ListedView)
    ensures
        live_only(v.push(p)) == if p.live {
            live_only(v).push(p)
        } else {
            live_only(v)
        },
        live_only(Seq::empty()).len() == 0,
{
    assert(v.push(p).drop_last() =~= v);
}

proof fn lemma_named(v: Seq<ListedView>, name: Seq<char>, i: int)
    requires
        0 <= i < v.len(),
        v[i].name == name,
        forall|j: int| 0 <= j < i ==> (#[trigger] v[j]).name != name,
    ensures
        named(v, name) == Some(v[i]),
    decreases i,
{
    if i > 0 {
        assert(v[0].name != name);
        let rest = v.subrange(1, v.len() as int);
        assert forall|j: int| 0 <= j < i - 1 implies (#[trigger] rest[j]).name != name by {
            assert(rest[j] == v[j + 1]);
        }
        lemma_named(rest, name, i - 1);
    }
}

proof fn lemma_first_ready(v: Seq<ListedView>)
    ensures
        forall|i: int|
            0 <= i < v.len() && (#[trigger] v[i]).switchable() && (forall|j: int|
                0 <= j < i ==> !(#[trigger] v[j]).switchable()) ==> first_ready(v) == Some(
                v[i].name,
            ),
        (forall|j: int| 0 <= j < v.len() ==> !(#[trigger] v[j]).switchable()) ==> first_ready(v)
            is None,
    decreases v.len(),
{
    if v.len() > 0 && !v[0].switchable() {
        let rest = v.subrange(1, v.len() as int);
        lemma_first_ready(rest);
        assert forall|i: int|
            0 <= i < v.len() && (#[trigger] v[i]).switchable() && (forall|j: int|
                0 <= j < i ==> !(#[trigger] v[j]).switchable()) implies first_ready(v) == Some(
            v[i].name,
        ) by {
            assert(rest[i - 1] == v[i]);
            assert forall|j: int| 0 <= j < i - 1 implies !(#[trigger] rest[j]).switchable() by {
                assert(rest[j] == v[j + 1]);
            }
        }
        if forall|j: int| 0 <= j < v.len() ==> !(#[trigger] v[j]).switchable() {
            assert forall|j: int| 0 <= j < rest.len() implies !(#[trigger] rest[j]).switchable() by {
                assert(rest[j] == v[j + 1]);
            }
        }
    }
}

/// Live starts with the provider that is selected where that one has a live mode and is set
/// up, and where it does not run yet. `i` is the place of the selected provider.
pub proof fn law_ready_provider_starts(v: TrayView, i: int)
    requires
        v.report matches Some(r) && r.current is Some && 0 <= i < r.providers.len()
            && r.providers[i].name == r.current->0 && (forall|j: int|
            0 <= j < i ==> (#[trigger] r.providers[j]).name != r.current->0),
    ensures
        ({
            let r = v.report->0;
            let p = r.providers[i];
            let able = p.live && p.local_config_ok;
            &&& v.ready() <==> able
            &&& !v.running && able ==> starting(v).1 == TrayAskView::Start(p.name)
            &&& v.running || !able ==> starting(v).1 is Nothing && starting(v).0.stage is Idle
            &&& starting(v).0.running == v.running
            &&& starting(v).0.report == v.report
        }),
{
    lemma_named(v.report->0.providers, v.report->0.current->0, i);
}

/// Live is stopped just where it runs, and is then no longer taken to run; else nothing is
/// asked for and nothing but the status changes.
pub proof fn law_running_live_is_stopped(v: TrayView, after: AfterStopView)
    ensures
        v.running ==> stopping(v, after).1 is Stop && !stopping(v, after).0.running,
        !v.running ==> stopping(v, after).1 is Nothing && !stopping(v, after).0.running
            && stopping(v, after).0.stage is Idle,
        stopping(v, after).0.report == v.report,
{
}

/// A restart stops live where it runs and starts it again once it is stopped, whether or not
/// it stopped well; where it does not run, it starts it at once.
pub proof fn law_restart_starts_again(v: TrayView, end: Result<(), Seq<char>>)
    requires
        v.ready(),
    ensures
        v.running ==> restarting(v).1 is Stop && after_stop(restarting(v).0, end).1
            == TrayAskView::Start(v.selected()->0),
        !v.running ==> restarting(v).1 == TrayAskView::Start(v.selected()->0),
{
}

/// A plain stop ends in rest, with live not running.
pub proof fn law_stop_ends_in_rest(v: TrayView, end: Result<(), Seq<char>>)
    requires
        v.running,
    ensures
        ({
            let done = after_stop(stopping(v, AfterStopView::Rest).0, end);
            &&& done.1 is Nothing
            &&& done.0.stage is Idle
            &&& !done.0.running
            &&& end is Ok ==> done.0.status == "Live stopped"@
        }),
{
}

/// Live is taken to run just where its start went well.
pub proof fn law_live_runs_once_started(v: TrayView, result: Result<(), Seq<char>>)
    requires
        v.stage is Starting,
        !v.running,
    ensures
        after_start(v, result).0.running <==> result is Ok,
        after_start(v, result).0.stage is Idle,
        after_start(v, result).1 is Nothing,
        result is Ok ==> after_start(v, result).0.status == "Live running with "@
            + v.stage->provider,
{
}

/// A provider that can run live is remembered when it is chosen; then the list is asked for
/// again, and a switch that cannot be remembered leaves everything as it was but the status.
pub proof fn law_chosen_provider_is_remembered(v: TrayView, name: Seq<char>, e: Seq<char>)
    requires
        v.entry(name) is Some,
        v.entry(name)->0.live && v.entry(name)->0.local_config_ok,
    ensures
        choosing(v, name).1 == TrayAskView::Remember(name),
        !v.running ==> after_remember(choosing(v, name).0, Ok(())).1 is List,
        v.running ==> after_remember(choosing(v, name).0, Ok(())).1 is Stop,
        after_remember(choosing(v, name).0, Err(e)).1 is Nothing,
        after_remember(choosing(v, name).0, Err(e)).0.report == v.report,
        after_remember(choosing(v, name).0, Err(e)).0.running == v.running,
        after_remember(choosing(v, name).0, Err(e)).0.stage is Idle,
{
}

/// A refreshed list keeps the selected provider where it can run live. Where it cannot, the
/// first one that can is selected in its place, and the list is asked for once more; where
/// none can, the selection stays. Whether live runs is not touched.
pub proof fn law_refresh_selects_a_ready_provider(v: TrayView, all: ReportView, i: int)
    requires
        v.stage == (TrayStageView::Listing { after: AfterRefreshView::Rest }),
    ensures
        ({
            let shown = live_only(all.providers);
            let done = after_list(v, Ok(all));
            let kept = all.current is Some && exists|j: int|
                0 <= j < shown.len() && (#[trigger] shown[j]).name == all.current->0
                    && shown[j].live && shown[j].local_config_ok;
            &&& kept ==> done.1 is Nothing && done.0.report == Some(
                ReportView { current: all.current, providers: shown },
            ) && done.0.status == "Ready"@
            &&& !kept && 0 <= i < shown.len() && shown[i].live && shown[i].local_config_ok && (
            forall|j: int|
                0 <= j < i ==> !((#[trigger] shown[j]).live && shown[j].local_config_ok)) ==> {
                &&& done.1 == TrayAskView::Remember(shown[i].name)
                &&& after_remember(done.0, Ok(())).1 is List
            }
            &&& !kept && (forall|j: int|
                0 <= j < shown.len() ==> !((#[trigger] shown[j]).live && shown[j].local_config_ok))
                ==> done.1 is Nothing && done.0.report == Some(
                ReportView { current: all.current, providers: shown },
            )
            &&& done.0.running == v.running
        }),
{
    let shown = live_only(all.providers);
    lemma_first_ready(shown);
    let kept = all.current is Some && exists|j: int|
        0 <= j < shown.len() && (#[trigger] shown[j]).name == all.current->0 && shown[j].live
            && shown[j].local_config_ok;
    assert(kept <==> current_ready(for_tray(all)));
    assert(forall|j: int|
        0 <= j < shown.len() ==> ((#[trigger] shown[j]).switchable() <==> shown[j].live
            && shown[j].local_config_ok));
}

/// A list that fails is told, and what was listed before is no longer shown.
pub proof fn law_failed_list_is_told(v: TrayView, e: Seq<char>)
    requires
        v.stage == (TrayStageView::Listing { after: AfterRefreshView::Rest }),
    ensures
        after_list(v, Err(e)).0.report is None,
        after_list(v, Err(e)).0.status == "Provider list failed: "@ + e,
        after_list(v, Err(e)).1 is Nothing,
        after_list(v, Err(e)).0.running == v.running,
{
}

/// In the menu live can be started where it does not run and its provider is ready, and
/// stopped where it runs; each provider can be chosen where it can run live.
pub proof fn law_menu_offers_what_can_be_done(v: TrayView, i: int)
    ensures
        menu(v).contains(
            MenuView::Item {
                id: Some("start"@),
                label: "Start Live"@,
                enabled: !v.running && v.ready(),
            },
        ),
        menu(v).contains(
            MenuView::Item { id: Some("stop"@), label: "Stop Live"@, enabled: v.running },
        ),
        menu(v).contains(
            MenuView::Item { id: Some("restart"@), label: "Restart Live"@, enabled: v.ready() },
        ),
        menu(v).contains(
            MenuView::Item { id: Some("quit"@), label: "Quit dicta"@, enabled: true },
        ),
        (v.report matches Some(r) && 0 <= i < r.providers.len()) ==> menu(v).contains(
            MenuView::Check {
                id: provider_id(i as nat),
                label: v.report->0.providers[i].label(),
                enabled: v.report->0.providers[i].live
                    && v.report->0.providers[i].local_config_ok,
                checked: v.report->0.providers[i].selected,
            },
        ),
{
    let all = menu(v);
    let n = 2 + provider_part(v).len() as int;
    assert(all[n + 1] == item("start"@, "Start Live"@, !v.running && v.ready()));
    assert(all[n + 2] == item("stop"@, "Stop Live"@, v.running));
    assert(all[n + 3] == item("restart"@, "Restart Live"@, v.ready()));
    assert(all[n + 6] == item("quit"@, "Quit dicta"@, true));
    if let Some(r) = v.report {
        if 0 <= i < r.providers.len() {
            assert(all[2 + i] == provider_part(v)[i]);
        }
    }
}

proof fn lemma_provider_ids(a: nat, b: nat)
    ensures
        provider_id(a) == provider_id(b) ==> a == b,
        provider_id(a).len() > 9,
{
    reveal_strlit("provider:");
    let n = "provider:"@.len() as int;
    let max = if a < b {
        b
    } else {
        a
    };
    text::law_decimal_reads_back(a, max);
    text::law_decimal_reads_back(b, max);
    text::lemma_decimal_has_only_digits(a);
    assert(provider_id(a).subrange(n, provider_id(a).len() as int) =~= text::decimal(a));
    assert(provider_id(b).subrange(n, provider_id(b).len() as int) =~= text::decimal(b));
}

proof fn lemma_chosen_from(v: Seq<ListedView>, i: nat, from: nat)
    requires
        from <= i < v.len(),
    ensures
        chosen_from(v, provider_id(i), from) == Some(v[i as int].name),
    decreases i - from,
{
    lemma_provider_ids(i, from);
    if from < i {
        lemma_chosen_from(v, i, from + 1);
    }
}

/// Choosing the entry of a provider in the menu chooses that provider.
pub proof fn law_menu_entry_chooses_its_provider(v: TrayView, i: nat)
    requires
        v.report matches Some(r) && i < r.providers.len(),
    ensures
        menu_command(v, provider_id(i)) == CommandView::Choose(v.report->0.providers[i as int].name),
{
    lemma_chosen_from(v.report->0.providers, i, 0);
}

proof fn lemma_none_chosen(v: Seq<ListedView>, id: Seq<char>, from: nat)
    requires
        id.len() <= 9,
    ensures
        chosen_from(v, id, from) is None,
    decreases v.len() - from,
{
    if from < v.len() {
        lemma_provider_ids(from, from);
        lemma_none_chosen(v, id, from + 1);
    }
}

/// The other entries of the menu do what they say, whatever providers there are.
pub proof fn law_menu_entries_do_what_they_say(v: TrayView)
    ensures
        menu_command(v, "start"@) is Start,
        menu_command(v, "stop"@) is Stop,
        menu_command(v, "restart"@) is Restart,
        menu_command(v, "refresh"@) is Refresh,
        menu_command(v, "quit"@) is Quit,
        menu_command(v, "status"@) is Ignore,
{
    reveal_strlit("start");
    reveal_strlit("stop");
    reveal_strlit("restart");
    reveal_strlit("refresh");
    reveal_strlit("quit");
    reveal_strlit("status");
    assert("start"@.len() == 5 && "stop"@[0] == 's' && "stop"@.len() == 4 && "restart"@[2] == 's'
        && "refresh"@[2] == 'f' && "quit"@[0] == 'q' && "quit"@.len() == 4 && "status"@.len() == 6
        && "restart"@.len() == 7 && "refresh"@.len() == 7);
    if let Some(r) = v.report {
        lemma_none_chosen(r.providers, "start"@, 0);
        lemma_none_chosen(r.providers, "stop"@, 0);
        lemma_none_chosen(r.providers, "restart"@, 0);
        lemma_none_chosen(r.providers, "refresh"@, 0);
        lemma_none_chosen(r.providers, "quit"@, 0);
        lemma_none_chosen(r.providers, "status"@, 0);
    }
}

/// Each line that is not blank is one argument, trimmed, in the order of the lines.
pub proof fn law_each_line_is_an_argument(lines: Seq<Seq<char>>, line: Seq<char>)
    ensures
        words_in(lines.push(line)) == if text::trimmed(line).len() > 0 {
            words_in(lines).push(text::trimmed(line))
        } else {
            words_in(lines)
        },
        words_in(Seq::empty()).len() == 0,
{
    assert(lines.push(line).drop_last() =~= lines);
}

/// A provider that can run live is shown by its name, kind and model alone; any other with the
/// reason why it cannot.
pub proof fn law_label_says_why_not(p: ListedView)
    ensures
        ({
            let words = p.name + " ("@ + p.kind + ", "@ + p.model + ")"@;
            &&& p.live && p.local_config_ok ==> p.label() == words
            &&& !p.live ==> p.label() == words + " - no live"@ && p.refusal() == p.name
                + " does not support live mode"@
            &&& p.live && !p.local_config_ok && p.local_config_error is Some ==> p.label() == words
                + (" - "@ + p.local_config_error->0) && p.refusal() == p.local_config_error->0
            &&& p.live && !p.local_config_ok && p.local_config_error is None ==> p.label() == words
                + " - config needed"@
        }),
{
}

} // verus!
