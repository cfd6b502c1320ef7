//! The live session of the Qianwen runtime.
//!
//! The session is driven from outside: the caller owns the runtime, the clock and
//! Ctrl-C, and asks here what to send, what to report and when to stop. Times are
//! milliseconds of a clock that does not run backwards.
use crate::asr::{AsrError, LiveAsrOptions};
#[allow(unused_imports)]
use crate::asr::AsrErrorView;
use crate::event::{
    AudioChannel, EventTimestamp, LiveEvent, LiveMetaEvent, LiveStatusEvent, LiveStatusPhase,
    LiveVolatileEvent, TranscriptEvent, TranscriptSource,
};
use crate::text;
use vstd::prelude::*;
use vstd::string::*;

verus! {

/// The kinds of hotkey events: the runtime counts them from 1.
pub const HOTKEY_PRESS: i32 = 1;

pub const HOTKEY_RELEASE: i32 = 2;

pub const HOTKEY_LONG_PRESS_TIMER: i32 = 3;

pub const POLL_INTERVAL_MS: u64 = 100;

pub const FINAL_DRAIN_GRACE_MS: u64 = 500;

pub const FINALIZE_TIMEOUT_MS: u64 = 20_000;

pub const LONG_PRESS_TIMER_DELAY_MS: u64 = 400;

/// What the runtime reports of the voice input.
#[derive(Debug, Clone, PartialEq, Eq)]
pub enum QianwenEvent {
    Volatile(String),
    Final(String),
    Done,
}

pub enum QianwenEventView {
    Volatile(Seq<char>),
    Final(Seq<char>),
    Done,
}

impl View for QianwenEvent {
    type V = QianwenEventView;

    open spec fn view(&self) -> QianwenEventView {
        match self {
            QianwenEvent::Volatile(t) => QianwenEventView::Volatile(t@),
            QianwenEvent::Final(t) => QianwenEventView::Final(t@),
            QianwenEvent::Done => QianwenEventView::Done,
        }
    }
}

/// Why the options do not fit the runtime's live mode.
pub open spec fn live_options_fault(options: LiveAsrOptions) -> Option<Seq<char>> {
    if !options.mic {
        Some("qianwen live mode requires microphone input"@)
    } else if options.speaker {
        Some("qianwen live mode does not support speaker capture"@)
    } else if options.dst is Some {
        Some("qianwen live mode does not support translation"@)
    } else if options.voice_processing || options.select_device {
        Some("qianwen live mode does not support Apple-only capture controls"@)
    } else {
        None
    }
}

pub fn validate_live_options(options: &LiveAsrOptions) -> (r: Result<(), AsrError>)
    ensures
        match live_options_fault(*options) {
            None => r is Ok,
            Some(m) => r is Err && r->Err_0@ == AsrErrorView::Config(m),
        },
{
    if !options.mic {
        return Err(AsrError::Config(text::copy("qianwen live mode requires microphone input")));
    }
    if options.speaker {
        return Err(AsrError::Config(text::copy("qianwen live mode does not support speaker capture")));
    }
    if options.dst.is_some() {
        return Err(AsrError::Config(text::copy("qianwen live mode does not support translation")));
    }
    if options.voice_processing || options.select_device {
        return Err(
            AsrError::Config(
                text::copy("qianwen live mode does not support Apple-only capture controls"),
            ),
        );
    }
    Ok(())
}

/// A moment and how long to wait from it.
#[derive(Debug, Clone, Copy, PartialEq, Eq, Structural)]
pub struct Deadline {
    pub from: u64,
    pub wait: u64,
}

impl Deadline {
    pub open spec fn at(self) -> int {
        self.from + self.wait
    }

    pub fn reached(&self, now: u64) -> (r: bool)
        ensures
            r == (now >= self.at()),
    {
        now >= self.from && now - self.from >= self.wait
    }
}

/// What the caller sends to the runtime before it reads the next reports.
#[derive(Debug, Clone, Copy, PartialEq, Eq, Structural)]
pub struct Keys {
    pub long_press_timer: bool,
    pub release: bool,
}

/// The state of a live session.
pub struct QianwenLive {
    src: String,
    emitted_finals: Vec<String>,
    seq: u64,
    final_text: String,
    long_press_timer: Deadline,
    long_press_timer_sent: bool,
    release_sent: bool,
    final_deadline: Option<Deadline>,
    done_after: Option<Deadline>,
}

/// What the contracts say of a session.
#[verifier::ext_equal]
pub struct LiveState {
    /// The language that the finalized events carry.
    pub src: Seq<char>,
    /// The texts of the finalized events so far.
    pub finals: Seq<Seq<char>>,
    pub long_press_at: int,
    pub long_press_sent: bool,
    /// When the last results are given up on: set once the key was released.
    pub give_up_at: Option<int>,
    /// When the session ends, once it is known.
    pub end_at: Option<int>,
}

impl LiveState {
    /// The texts are trimmed, none is empty and none occurs twice.
    pub open spec fn well_formed(self) -> bool {
        &&& forall|i: int|
            #![trigger self.finals[i]]
            0 <= i < self.finals.len() ==> self.finals[i].len() > 0 && text::trimmed(self.finals[i])
                == self.finals[i]
        &&& forall|i: int, j: int|
            #![trigger self.finals[i], self.finals[j]]
            0 <= i < j < self.finals.len() ==> self.finals[i] != self.finals[j]
    }

    /// A session whose hotkey was pressed at `now`.
    pub open spec fn fresh(options: LiveAsrOptions, now: u64) -> LiveState {
        LiveState {
            src: match options.src {
                Some(s) => s@,
                None => "zh-CN"@,
            },
            finals: Seq::empty(),
            long_press_at: now + LONG_PRESS_TIMER_DELAY_MS,
            long_press_sent: false,
            give_up_at: None,
            end_at: None,
        }
    }

    /// The event that reports `text` as the next final one.
    pub open spec fn finalized(
        self,
        e: TranscriptEvent,
        text: Seq<char>,
        timestamp: EventTimestamp,
    ) -> bool {
        &&& e.seq == self.finals.len()
        &&& e.channel == AudioChannel::Mic
        &&& e.timestamp == timestamp
        &&& e.audio is None
        &&& e.src.lang@ == self.src
        &&& e.src.text@ == text::trimmed(text)
        &&& e.src.confidence is None
        &&& e.dst is None
    }

    pub open spec fn released(self) -> bool {
        self.give_up_at is Some
    }

    pub open spec fn keys(self, now: u64, interrupted: bool) -> Keys {
        Keys {
            long_press_timer: !self.released() && !self.long_press_sent && now
                >= self.long_press_at,
            release: !self.released() && interrupted,
        }
    }

    pub open spec fn after_keys(self, now: u64, interrupted: bool) -> LiveState {
        LiveState {
            long_press_sent: self.long_press_sent || self.keys(now, interrupted).long_press_timer,
            give_up_at: if self.keys(now, interrupted).release {
                Some(now + FINALIZE_TIMEOUT_MS)
            } else {
                self.give_up_at
            },
            ..self
        }
    }

    /// A final text is reported unless nothing is left of it or it was reported before.
    pub open spec fn reports(self, text: Seq<char>) -> bool {
        text::trimmed(text).len() > 0 && !self.finals.contains(text::trimmed(text))
    }

    pub open spec fn after(self, event: QianwenEventView, now: u64) -> LiveState {
        match event {
            QianwenEventView::Volatile(_) => self,
            QianwenEventView::Final(text) => if self.reports(text) {
                LiveState {
                    finals: self.finals.push(text::trimmed(text)),
                    end_at: if self.released() && self.end_at is None {
                        Some(now + FINAL_DRAIN_GRACE_MS)
                    } else {
                        self.end_at
                    },
                    ..self
                }
            } else {
                self
            },
            QianwenEventView::Done => LiveState {
                end_at: if self.end_at is None {
                    Some(now as int)
                } else {
                    self.end_at
                },
                ..self
            },
        }
    }

    pub open spec fn finished(self, now: u64) -> bool {
        ||| self.end_at is Some && now >= self.end_at->0
        ||| self.give_up_at is Some && now >= self.give_up_at->0
    }
}

impl QianwenLive {
    /// The running text is what the reported texts make one after the other, the
    /// next number is how many there are, and no text was reported twice.
    pub closed spec fn well_formed(&self) -> bool {
        &&& self.seq == self.emitted_finals@.len()
        &&& self.state().well_formed()
        &&& self.release_sent == (self.final_deadline is Some)
        &&& self.final_text@ == strung(self.state().finals)
    }

    pub closed spec fn state(&self) -> LiveState {
        LiveState {
            src: self.src@,
            finals: text::texts(self.emitted_finals@),
            long_press_at: self.long_press_timer.at(),
            long_press_sent: self.long_press_timer_sent,
            give_up_at: match self.final_deadline {
                Some(d) => Some(d.at()),
                None => None,
            },
            end_at: match self.done_after {
                Some(d) => Some(d.at()),
                None => None,
            },
        }
    }

    /// The session after the hotkey was pressed at `now`.
    pub fn new(options: &LiveAsrOptions, now: u64) -> (r: QianwenLive)
        ensures
            r.well_formed(),
            r.state() == LiveState::fresh(*options, now),
    {
        let emitted_finals: Vec<String> = Vec::new();
        assert(text::texts(emitted_finals@) =~= Seq::empty());
        QianwenLive {
            src: session_language(options),
            emitted_finals,
            seq: 0,
            final_text: String::new(),
            long_press_timer: Deadline { from: now, wait: LONG_PRESS_TIMER_DELAY_MS },
            long_press_timer_sent: false,
            release_sent: false,
            final_deadline: None,
            done_after: None,
        }
    }

    /// What to send at `now`, where `interrupted` says that Ctrl-C came.
    pub fn poll(&mut self, now: u64, interrupted: bool) -> (r: Keys)
        requires
            old(self).well_formed(),
        ensures
            final(self).well_formed(),
            r == old(self).state().keys(now, interrupted),
            final(self).state() == old(self).state().after_keys(now, interrupted),
    {
        let long_press_timer = !self.release_sent && !self.long_press_timer_sent
            && self.long_press_timer.reached(now);
        let release = !self.release_sent && interrupted;
        if long_press_timer {
            self.long_press_timer_sent = true;
        }
        if release {
            self.release_sent = true;
            self.final_deadline = Some(Deadline { from: now, wait: FINALIZE_TIMEOUT_MS });
        }
        Keys { long_press_timer, release }
    }

    fn was_emitted(&self, text: &str) -> (r: bool)
        ensures
            r == self.state().finals.contains(text@),
    {
        let mut i: usize = 0;
        while i < self.emitted_finals.len()
            invariant
                i <= self.emitted_finals@.len(),
                forall|j: int| 0 <= j < i ==> self.emitted_finals@[j]@ != text@,
            decreases self.emitted_finals@.len() - i,
        {
            if text::same(self.emitted_finals[i].as_str(), text) {
                assert(text::texts(self.emitted_finals@)[i as int] == text@);
                return true;
            }
            i = i + 1;
        }
        false
    }

    /// Takes one report of the runtime at `now`, and says what to pass on.
    ///
    /// A volatile text is passed on as it is. A final text is passed on trimmed,
    /// with the next number, and only where it is new.
    pub fn on_event(&mut self, event: QianwenEvent, now: u64, timestamp: EventTimestamp) -> (r:
        Option<LiveEvent>)
        requires
            old(self).well_formed(),
        ensures
            final(self).well_formed(),
            final(self).state() == old(self).state().after(event@, now),
            match event@ {
                QianwenEventView::Volatile(text) => r matches Some(LiveEvent::Volatile(v))
                    && v.channel == AudioChannel::Mic && v.text@ == text,
                QianwenEventView::Final(text) => if old(self).state().reports(text) {
                    r matches Some(LiveEvent::Finalized(e)) && old(self).state().finalized(
                        e,
                        text,
                        timestamp,
                    )
                } else {
                    r is None
                },
                QianwenEventView::Done => r is None,
            },
    {
        match event {
            QianwenEvent::Volatile(text) => Some(
                LiveEvent::Volatile(LiveVolatileEvent { channel: AudioChannel::Mic, text }),
            ),
            QianwenEvent::Final(raw) => {
                let text = text::trim(raw.as_str());
                if text.as_str().is_empty() || self.was_emitted(text.as_str()) {
                    return None;
                }
                let seq = self.seq;
                let ghost before = text::texts(self.emitted_finals@);
                self.final_text.append(text.as_str());
                self.emitted_finals.push(text::copy(text.as_str()));
                self.seq = self.emitted_finals.len() as u64;
                if self.release_sent && self.done_after.is_none() {
                    self.done_after = Some(Deadline { from: now, wait: FINAL_DRAIN_GRACE_MS });
                }
                proof {
                    let after = text::texts(self.emitted_finals@);
                    assert(after =~= before.push(text@));
                    assert(after.drop_last() =~= before);
                    text::law_trim_idempotent(raw@);
                    assert forall|i: int, j: int| #![trigger after[i], after[j]]
                        0 <= i < j < after.len() implies after[i] != after[j] by {
                        if j == before.len() {
                            assert(before.contains(before[i]));
                        }
                    }
                }
                Some(
                    LiveEvent::Finalized(
                        TranscriptEvent {
                            seq,
                            channel: AudioChannel::Mic,
                            timestamp,
                            audio: None,
                            src: TranscriptSource {
                                lang: text::copy(self.src.as_str()),
                                text,
                                confidence: None,
                            },
                            dst: None,
                        },
                    ),
                )
            },
            QianwenEvent::Done => {
                if self.done_after.is_none() {
                    self.done_after = Some(Deadline { from: now, wait: 0 });
                }
                None
            },
        }
    }

    /// Whether the session is over at `now`.
    pub fn finished(&self, now: u64) -> (r: bool)
        requires
            self.well_formed(),
        ensures
            r == self.state().finished(now),
    {
        if let Some(deadline) = &self.done_after {
            if deadline.reached(now) {
                return true;
            }
        }
        if let Some(deadline) = &self.final_deadline {
            if self.release_sent && deadline.reached(now) {
                return true;
            }
        }
        false
    }

    /// The events that close the session: a notice where nothing was finalized,
    /// then the end.
    pub fn closing(&self, detail: Option<String>) -> (r: Vec<LiveEvent>)
        requires
            self.well_formed(),
        ensures
            if self.state().finals.len() == 0 {
                &&& r@.len() == 2
                &&& r@[0] matches LiveEvent::Status(s)
                &&& s.says(
                    LiveStatusPhase::Recovering,
                    "Qianwen live session ended without finalized text"@,
                    text::text_of(detail),
                )
                &&& r@[1] is Eof
            } else {
                r@.len() == 1 && r@[0] is Eof
            },
    {
        let mut r: Vec<LiveEvent> = Vec::new();
        if text::trim(self.final_text.as_str()).as_str().is_empty() {
            proof {
                if self.state().finals.len() > 0 {
                    lemma_strung_keeps_ink(self.state().finals);
                }
            }
            r.push(
                LiveEvent::Status(
                    LiveStatusEvent::new(
                        LiveStatusPhase::Recovering,
                        "Qianwen live session ended without finalized text",
                        detail,
                    ),
                ),
            );
        }
        r.push(LiveEvent::Eof);
        r
    }
}

/// The events before the runtime starts: what the session is, and that it starts.
pub fn opening(backend: &str, options: &LiveAsrOptions) -> (r: Vec<LiveEvent>)
    ensures
        r@.len() == 2,
        r@[0] matches LiveEvent::Meta(m) && m.backend@ == backend@ && m.src@ == (
        match options.src {
            Some(s) => s@,
            None => "zh-CN"@,
        }) && m.dst is None && m.mic && !m.speaker && m.devices@.len() == 0,
        r@[1] matches LiveEvent::Status(s) && s.says(
            LiveStatusPhase::Recovering,
            "starting Qianwen Shell runtime"@,
            None,
        ),
{
    let mut r: Vec<LiveEvent> = Vec::new();
    r.push(
        LiveEvent::Meta(
            LiveMetaEvent {
                backend: text::copy(backend),
                src: session_language(options),
                dst: None,
                mic: true,
                speaker: false,
                devices: Vec::new(),
            },
        ),
    );
    r.push(
        LiveEvent::Status(
            LiveStatusEvent::new(
                LiveStatusPhase::Recovering,
                "starting Qianwen Shell runtime",
                None,
            ),
        ),
    );
    r
}

/// The event that the runtime has started.
pub fn started(detail: Option<String>) -> (r: LiveEvent)
    ensures
        r matches LiveEvent::Status(s) && s.says(
            LiveStatusPhase::Recording,
            "Qianwen Shell runtime started; press Ctrl-C to stop"@,
            text::text_of(detail),
        ),
{
    LiveEvent::Status(
        LiveStatusEvent::new(
            LiveStatusPhase::Recording,
            "Qianwen Shell runtime started; press Ctrl-C to stop",
            detail,
        ),
    )
}

/// The event that the key was released and the last results are awaited.
pub fn finalizing(detail: Option<String>) -> (r: LiveEvent)
    ensures
        r matches LiveEvent::Status(s) && s.says(
            LiveStatusPhase::Transcribing,
            "Qianwen Shell finalizing voice input"@,
            text::text_of(detail),
        ),
{
    LiveEvent::Status(
        LiveStatusEvent::new(
            LiveStatusPhase::Transcribing,
            "Qianwen Shell finalizing voice input",
            detail,
        ),
    )
}

/// The state after a run of reports, each with the time it came at.
pub open spec fn after_all(state: LiveState, reports: Seq<(QianwenEventView, u64)>) -> LiveState
    decreases reports.len(),
{
    if reports.len() == 0 {
        state
    } else {
        after_all(state, reports.drop_last()).after(reports.last().0, reports.last().1)
    }
}

/// Whatever the runtime reports, no final text is passed on twice or empty, and
/// what was passed on stays.
pub proof fn law_finals_never_repeat(
    state: LiveState,
    reports: Seq<(QianwenEventView, u64)>,
)
    requires
        state.well_formed(),
    ensures
        after_all(state, reports).well_formed(),
        state.finals.is_prefix_of(after_all(state, reports).finals),
        after_all(state, reports).give_up_at == state.give_up_at,
    decreases reports.len(),
{
    if reports.len() > 0 {
        law_finals_never_repeat(state, reports.drop_last());
        let before = after_all(state, reports.drop_last());
        if let QianwenEventView::Final(raw) = reports.last().0 {
            if before.reports(raw) {
                let after = before.finals.push(text::trimmed(raw));
                text::law_trim_idempotent(raw);
                assert forall|i: int, j: int| #![trigger after[i], after[j]]
                    0 <= i < j < after.len() implies after[i] != after[j] by {
                    if j == before.finals.len() {
                        assert(before.finals.contains(before.finals[i]));
                    }
                }
            }
        }
    }
}

/// Once the key is released it is not released again, the long press timer is
/// not sent any more, and the session ends at the latest when the wait for the
/// last results runs out.
pub proof fn law_release_once(
    state: LiveState,
    now: u64,
    reports: Seq<(QianwenEventView, u64)>,
    later: u64,
)
    requires
        state.well_formed(),
        state.keys(now, true).release,
    ensures
        ({
            let released = after_all(state.after_keys(now, true), reports);
            &&& !released.keys(later, true).release
            &&& !released.keys(later, true).long_press_timer
            &&& later >= now + FINALIZE_TIMEOUT_MS ==> released.finished(later)
        }),
{
    law_finals_never_repeat(state.after_keys(now, true), reports);
}

/// The texts one after the other.
pub open spec fn strung(parts: Seq<Seq<char>>) -> Seq<char>
    decreases parts.len(),
{
    if parts.len() == 0 {
        Seq::empty()
    } else {
        strung(parts.drop_last()) + parts.last()
    }
}

proof fn lemma_strung_keeps_ink(parts: Seq<Seq<char>>)
    requires
        parts.len() > 0,
        parts.last().len() > 0,
        text::trimmed(parts.last()) == parts.last(),
    ensures
        text::trimmed(strung(parts)).len() > 0,
{
    let all = strung(parts);
    text::lemma_trimmed_ink(parts.last());
    text::lemma_trimmed_ink(all);
    assert(all[all.len() - 1] == parts.last().last());
}

/// The language of a session: the one asked for, or Mandarin.
fn session_language(options: &LiveAsrOptions) -> (r: String)
    ensures
        r@ == match options.src {
            Some(s) => s@,
            None => "zh-CN"@,
        },
{
    match &options.src {
        Some(s) => text::copy(s.as_str()),
        None => text::copy("zh-CN"),
    }
}

/// The live mode takes the microphone alone, in the language spoken, with no control of the
/// capture, and nothing else stands in its way.
pub proof fn law_live_mode_takes_the_microphone_alone(options: LiveAsrOptions)
    ensures
        live_options_fault(options) is None <==> options.mic && !options.speaker && options.dst
            is None && !options.voice_processing && !options.select_device,
{
}

/// Every final text that is not blank is among the finals of the session, trimmed, and
/// nothing else comes to be among them.
pub proof fn law_finals_are_what_was_reported(
    state: LiveState,
    reports: Seq<(QianwenEventView, u64)>,
    t: Seq<char>,
)
    ensures
        after_all(state, reports).finals.contains(t) <==> state.finals.contains(t) || (t.len() > 0
            && exists|i: int|
            0 <= i < reports.len() && ((#[trigger] reports[i]).0 matches QianwenEventView::Final(u)
                && text::trimmed(u) == t)),
    decreases reports.len(),
{
    if reports.len() > 0 {
        let front = reports.drop_last();
        let n = front.len() as int;
        law_finals_are_what_was_reported(state, front, t);
        let before = after_all(state, front);
        let after = after_all(state, reports);
        assert(reports[n] == reports.last());
        assert(forall|i: int| 0 <= i < n ==> front[i] == #[trigger] reports[i]);
        if before.finals.contains(t) {
            let k = choose|k: int| 0 <= k < before.finals.len() && before.finals[k] == t;
            assert(after.finals[k] == t);
            if !state.finals.contains(t) {
                let i = choose|i: int|
                    0 <= i < front.len() && ((#[trigger] front[i]).0 matches QianwenEventView::Final(
                        u,
                    ) && text::trimmed(u) == t);
                assert(reports[i] == front[i]);
            }
        }
        if let QianwenEventView::Final(u) = reports[n].0 {
            if before.reports(u) {
                assert(after.finals == before.finals.push(text::trimmed(u)));
                assert(after.finals[before.finals.len() as int] == text::trimmed(u));
                if after.finals.contains(t) && !before.finals.contains(t) {
                    let k = choose|k: int| 0 <= k < after.finals.len() && after.finals[k] == t;
                    assert(k == before.finals.len());
                }
            }
        }
    }
}

/// A session ends as soon as its end is told, and half a second after a text that comes once
/// the key is released; before that, without a release and without being told, it goes on.
pub proof fn law_session_goes_on_until_told(
    state: LiveState,
    reports: Seq<(QianwenEventView, u64)>,
    now: u64,
    text: Seq<char>,
    later: u64,
)
    ensures
        state.end_at is None ==> state.after(QianwenEventView::Done, now).finished(now),
        state.end_at is None && state.give_up_at is None && (forall|i: int|
            0 <= i < reports.len() ==> !((#[trigger] reports[i]).0 is Done)) ==> !after_all(
            state,
            reports,
        ).finished(later),
        state.end_at is None && state.released() && state.reports(text) ==> (state.after(
            QianwenEventView::Final(text),
            now,
        ).finished(later) <==> later >= now + 500 || later >= state.give_up_at->0),
        state.end_at is Some ==> state.after(QianwenEventView::Final(text), now).end_at
            == state.end_at && state.after(QianwenEventView::Done, now).end_at == state.end_at,
{
    lemma_goes_on(state, reports);
}

proof fn lemma_goes_on(state: LiveState, reports: Seq<(QianwenEventView, u64)>)
    ensures
        state.end_at is None && state.give_up_at is None && (forall|i: int|
            0 <= i < reports.len() ==> !((#[trigger] reports[i]).0 is Done)) ==> after_all(
            state,
            reports,
        ).end_at is None && after_all(state, reports).give_up_at is None,
    decreases reports.len(),
{
    if reports.len() > 0 {
        let front = reports.drop_last();
        lemma_goes_on(state, front);
        assert(reports.last() == reports[reports.len() - 1]);
        assert(forall|i: int| 0 <= i < front.len() ==> #[trigger] front[i] == reports[i]);
        if forall|i: int| 0 <= i < reports.len() ==> !((#[trigger] reports[i]).0 is Done) {
            assert(!(reports[reports.len() - 1].0 is Done));
            assert forall|i: int| 0 <= i < front.len() implies !((#[trigger] front[i]).0 is Done) by {
                assert(front[i] == reports[i]);
            }
        }
    }
}

/// The long press is told once, four tenths of a second after the start; the key is released
/// when the session is interrupted and not before, and the session gives up twenty seconds
/// later.
pub proof fn law_keys_in_time(options: LiveAsrOptions, start: u64, now: u64, later: u64)
    ensures
        ({
            let s = LiveState::fresh(options, start);
            &&& s.keys(now, false).long_press_timer <==> now >= start + 400
            &&& !s.keys(now, false).release
            &&& s.keys(now, true).release
            &&& s.after_keys(now, false).long_press_sent <==> now >= start + 400
            &&& now >= start + 400 ==> !s.after_keys(now, false).keys(later, false).long_press_timer
            &&& s.after_keys(now, true).finished(later) <==> later >= now + 20_000
            &&& !s.after_keys(now, false).finished(later)
            &&& s.src == match options.src {
                Some(l) => l@,
                None => "zh-CN"@,
            }
        }),
{
}

} // verus!
