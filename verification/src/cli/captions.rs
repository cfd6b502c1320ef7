//! Live captions on a terminal.
//!
//! What is finished scrolls up. Below it stands a region that is drawn anew with every
//! event: utterances that wait for their translation, the status, and what is being said.
use crate::cli::render;
use crate::event::{
    AudioChannel, LiveDeviceEvent, LiveEvent, LiveMetaEvent, LiveStatusEvent, LiveStatusPhase,
    LiveTranslatedEvent, LiveVolatileEvent, TranscriptEvent, TranscriptTarget,
};
#[allow(unused_imports)]
use crate::event::EventView;
use crate::text;
#[allow(unused_imports)]
use vstd::multiset::Multiset;
use vstd::prelude::*;
use vstd::string::*;

verus! {

/// An utterance, with the local time of day at which it was said.
#[derive(Debug, Clone, PartialEq, Eq)]
pub struct Caption {
    pub event: TranscriptEvent,
    pub clock: String,
}

#[verifier::ext_equal]
pub struct CaptionView {
    pub event: EventView,
    pub clock: Seq<char>,
}

impl View for Caption {
    type V = CaptionView;

    open spec fn view(&self) -> CaptionView {
        CaptionView { event: self.event@, clock: self.clock@ }
    }
}

pub open spec fn captions(v: Seq<Caption>) -> Seq<CaptionView> {
    v.map_values(|c: Caption| c@)
}

/// What the tool is to do on the screen and with the transcript.
#[derive(Debug, Clone, PartialEq, Eq)]
pub enum CaptionAction {
    /// Write the event to the transcript, where one is kept.
    Record(TranscriptEvent),
    /// Print the event as a line of JSON.
    Json(TranscriptEvent),
    /// Print a line.
    Line(String),
    /// Print a line among the errors.
    Warn(String),
    /// Take back so many rows, and leave the cursor where the first of them began.
    Clear(usize),
}

pub enum ActionView {
    Record(EventView),
    Json(EventView),
    Line(Seq<char>),
    Warn(Seq<char>),
    Clear(nat),
}

impl View for CaptionAction {
    type V = ActionView;

    open spec fn view(&self) -> ActionView {
        match self {
            CaptionAction::Record(e) => ActionView::Record(e@),
            CaptionAction::Json(e) => ActionView::Json(e@),
            CaptionAction::Line(l) => ActionView::Line(l@),
            CaptionAction::Warn(l) => ActionView::Warn(l@),
            CaptionAction::Clear(n) => ActionView::Clear(*n as nat),
        }
    }
}

pub open spec fn actions(v: Seq<CaptionAction>) -> Seq<ActionView> {
    v.map_values(|a: CaptionAction| a@)
}

#[derive(Debug, Clone, PartialEq, Eq)]
pub struct LiveRenderer {
    pub tool: String,
    pub version: String,
    pub json_mode: bool,
    pub banner_printed: bool,
    pub backend: String,
    pub show_channel_label: bool,
    pub src_lang: String,
    pub dst_lang: Option<String>,
    pub count: u64,
    pub pending: Vec<Caption>,
    pub status: Option<LiveStatusEvent>,
    pub volatile: Vec<LiveVolatileEvent>,
    pub rows: usize,
}

#[verifier::ext_equal]
pub struct RendererView {
    pub tool: Seq<char>,
    pub version: Seq<char>,
    pub json_mode: bool,
    pub banner_printed: bool,
    pub backend: Seq<char>,
    pub labelled: bool,
    pub src_lang: Seq<char>,
    pub dst_lang: Option<Seq<char>>,
    pub count: nat,
    pub pending: Seq<CaptionView>,
    /// The status: its phase, its message and its detail.
    pub status: Option<(LiveStatusPhase, Seq<char>, Option<Seq<char>>)>,
    /// What is being said, by channel.
    pub volatile: Seq<(AudioChannel, Seq<char>)>,
    /// The rows of the region.
    pub rows: nat,
}

pub open spec fn volatile_texts(v: Seq<LiveVolatileEvent>) -> Seq<(AudioChannel, Seq<char>)> {
    v.map_values(|e: LiveVolatileEvent| (e.channel, e.text@))
}

impl View for LiveRenderer {
    type V = RendererView;

    open spec fn view(&self) -> RendererView {
        RendererView {
            tool: self.tool@,
            version: self.version@,
            json_mode: self.json_mode,
            banner_printed: self.banner_printed,
            backend: self.backend@,
            labelled: self.show_channel_label,
            src_lang: self.src_lang@,
            dst_lang: text::text_of(self.dst_lang),
            count: self.count as nat,
            pending: captions(self.pending@),
            status: match self.status {
                Some(s) => Some((s.phase, s.message@, text::text_of(s.detail))),
                None => None,
            },
            volatile: volatile_texts(self.volatile@),
            rows: self.rows as nat,
        }
    }
}

pub open spec fn source_pad(labelled: bool) -> nat {
    if labelled {
        16
    } else {
        11
    }
}

/// What stands before an utterance: the time of day, and the channel where it matters.
pub open spec fn header(labelled: bool, channel: AudioChannel, clock: Seq<char>) -> Seq<char> {
    let color = render::color_of(channel);
    if labelled {
        render::painted(color, clock) + " "@ + render::painted(color, render::label_of(channel))
            + "  "@
    } else {
        render::painted(color, clock) + "   "@
    }
}

/// An utterance as it is printed, with its translation below where that says something new.
pub open spec fn caption_lines(labelled: bool, c: CaptionView) -> Seq<Seq<char>> {
    let first = seq![header(labelled, c.event.channel, c.clock) + c.event.text];
    match c.event.translation {
        Some((lang, t)) => if render::passed_through(c.event.lang, lang, c.event.text, t) {
            first
        } else {
            first.push(text::spaces(source_pad(labelled)) + render::painted(244, t))
        },
        None => first,
    }
}

pub open spec fn pending_lines(labelled: bool, p: Seq<CaptionView>) -> Seq<Seq<char>>
    decreases p.len(),
{
    if p.len() == 0 {
        Seq::<Seq<char>>::empty()
    } else {
        pending_lines(labelled, p.drop_last()) + caption_lines(labelled, p.last()).push(
            text::spaces(source_pad(labelled)) + render::painted(240, "(translating...)"@),
        )
    }
}

pub open spec fn status_lines(
    labelled: bool,
    status: Option<(LiveStatusPhase, Seq<char>, Option<Seq<char>>)>,
) -> Seq<Seq<char>> {
    match status {
        Some((_, message, detail)) => seq![
            text::spaces(source_pad(labelled)) + render::painted(
                244,
                render::status_words(message, detail),
            ),
        ],
        None => Seq::<Seq<char>>::empty(),
    }
}

pub open spec fn volatile_line(labelled: bool, channel: AudioChannel, said: Seq<char>) -> Seq<
    char,
> {
    if labelled {
        text::spaces(9) + (render::painted(render::color_of(channel), render::label_of(channel))
            + "  "@) + render::painted(240, "... "@) + render::painted(244, said)
    } else {
        text::spaces(11) + ""@ + render::painted(240, "... "@) + render::painted(244, said)
    }
}

pub open spec fn volatile_lines(labelled: bool, v: Seq<(AudioChannel, Seq<char>)>) -> Seq<Seq<char>>
    decreases v.len(),
{
    if v.len() == 0 {
        Seq::<Seq<char>>::empty()
    } else if text::trimmed(v.last().1).len() == 0 {
        volatile_lines(labelled, v.drop_last())
    } else {
        volatile_lines(labelled, v.drop_last()).push(
            volatile_line(labelled, v.last().0, v.last().1),
        )
    }
}

/// The region below what is finished.
pub open spec fn region(v: RendererView) -> Seq<Seq<char>> {
    if v.json_mode {
        Seq::<Seq<char>>::empty()
    } else {
        pending_lines(v.labelled, v.pending) + status_lines(v.labelled, v.status) + volatile_lines(
            v.labelled,
            v.volatile,
        )
    }
}

pub open spec fn rows_in(lines: Seq<Seq<char>>, width: nat) -> nat
    decreases lines.len(),
{
    if lines.len() == 0 {
        0
    } else {
        rows_in(lines.drop_last(), width) + render::rows_of(lines.last(), width)
    }
}

pub open spec fn as_lines(lines: Seq<Seq<char>>) -> Seq<ActionView> {
    lines.map_values(|l: Seq<char>| ActionView::Line(l))
}

pub open spec fn cleared(v: RendererView) -> Seq<ActionView> {
    if v.json_mode || v.rows == 0 {
        Seq::<ActionView>::empty()
    } else {
        seq![ActionView::Clear(v.rows)]
    }
}

pub open spec fn wiped(v: RendererView) -> RendererView {
    if v.json_mode {
        v
    } else {
        RendererView { rows: 0, ..v }
    }
}

/// The region drawn anew.
pub open spec fn redrawn(v: RendererView, width: nat) -> (RendererView, Seq<ActionView>) {
    if v.json_mode {
        (v, Seq::<ActionView>::empty())
    } else {
        (
            RendererView { rows: render::capped(rows_in(region(v), width)), ..v },
            cleared(v) + as_lines(region(v)),
        )
    }
}

/// An utterance that is finished: recorded, and printed above the region.
pub open spec fn committed(v: RendererView, c: CaptionView, width: nat) -> (
    RendererView,
    Seq<ActionView>,
) {
    let counted = RendererView { count: v.count + 1, ..v };
    if v.json_mode {
        (counted, seq![ActionView::Record(c.event), ActionView::Json(c.event)])
    } else {
        let below = redrawn(wiped(counted), width);
        (
            below.0,
            seq![ActionView::Record(c.event)] + cleared(v) + as_lines(
                caption_lines(v.labelled, c),
            ) + below.1,
        )
    }
}

pub open spec fn all_committed(v: RendererView, p: Seq<CaptionView>, width: nat) -> (
    RendererView,
    Seq<ActionView>,
)
    decreases p.len(),
{
    if p.len() == 0 {
        (v, Seq::<ActionView>::empty())
    } else {
        let (v1, a1) = all_committed(v, p.drop_last(), width);
        let (v2, a2) = committed(v1, p.last(), width);
        (v2, a1 + a2)
    }
}

/// What is being said on a channel takes the place of what was.
pub open spec fn with_volatile(
    v: Seq<(AudioChannel, Seq<char>)>,
    channel: AudioChannel,
    said: Seq<char>,
) -> Seq<(AudioChannel, Seq<char>)>
    decreases v.len(),
{
    if v.len() == 0 {
        seq![(channel, said)]
    } else if v[0].0 == channel {
        seq![(channel, said)] + v.subrange(1, v.len() as int)
    } else {
        seq![v[0]] + with_volatile(v.subrange(1, v.len() as int), channel, said)
    }
}

pub open spec fn without_channel(
    v: Seq<(AudioChannel, Seq<char>)>,
    channel: AudioChannel,
) -> Seq<(AudioChannel, Seq<char>)>
    decreases v.len(),
{
    if v.len() == 0 {
        v
    } else if v.last().0 == channel {
        without_channel(v.drop_last(), channel)
    } else {
        without_channel(v.drop_last(), channel).push(v.last())
    }
}

/// Where the first utterance with that number waits; the length where none does.
pub open spec fn waiting_at(p: Seq<CaptionView>, seq: u64) -> nat
    decreases p.len(),
{
    if p.len() == 0 || p[0].event.seq == seq {
        0
    } else {
        1 + waiting_at(p.subrange(1, p.len() as int), seq)
    }
}

pub open spec fn translated(
    c: CaptionView,
    lang: Option<Seq<char>>,
    dst_lang: Option<Seq<char>>,
    said: Seq<char>,
) -> CaptionView {
    let spoken = match lang {
        Some(l) => l,
        None => match dst_lang {
            Some(l) => l,
            None => "und"@,
        },
    };
    CaptionView { event: EventView { translation: Some((spoken, said)), ..c.event }, ..c }
}

pub open spec fn listening_on(mic: bool, speaker: bool) -> Seq<char> {
    if mic && speaker {
        "mic + speaker"@
    } else if mic {
        "mic"@
    } else if speaker {
        "speaker"@
    } else {
        ""@
    }
}

pub open spec fn channel_name(channel: AudioChannel) -> Seq<char> {
    match channel {
        AudioChannel::Mic => "mic"@,
        AudioChannel::Speaker => "speaker"@,
        AudioChannel::File => "file"@,
    }
}

/// A text filled up with spaces to a width.
pub open spec fn filled_to(s: Seq<char>, width: nat) -> Seq<char> {
    if s.len() < width {
        s + text::spaces((width - s.len()) as nat)
    } else {
        s + text::spaces(0)
    }
}

pub open spec fn device_line(d: LiveDeviceEvent, both: bool) -> Seq<char> {
    "  "@ + render::painted(
        render::color_of(d.channel),
        filled_to(
            channel_name(d.channel),
            if both {
                7
            } else {
                0
            },
        ),
    ) + "  "@ + d.name@ + " "@ + render::painted(
        244,
        if d.pinned {
            "[pinned]"@
        } else {
            "(default)"@
        },
    )
}

pub open spec fn banner_header(v: RendererView, meta: LiveMetaEvent) -> Seq<char> {
    let provider = if meta.backend@ == "apple"@ {
        ""@
    } else {
        " via "@ + meta.backend@
    };
    let suffix = if meta.dst is Some {
        " translation"@
    } else {
        ""@
    };
    let langs = match meta.dst {
        Some(dst) => meta.src@ + " -> "@ + dst@,
        None => meta.src@,
    };
    v.tool + " "@ + v.version + " - listening on "@ + listening_on(meta.mic, meta.speaker)
        + provider + suffix + " ("@ + langs + ")"@
}

pub open spec fn banner_lines(v: RendererView, meta: LiveMetaEvent) -> Seq<Seq<char>> {
    seq![banner_header(v, meta)] + meta.devices@.map_values(
        |d: LiveDeviceEvent| device_line(d, meta.mic && meta.speaker),
    ) + seq![""@]
}

/// What an event does. `clock` is the local time of day of an utterance that it ends.
pub open spec fn step(v: RendererView, event: LiveEvent, clock: Seq<char>, width: nat) -> (
    RendererView,
    Seq<ActionView>,
) {
    match event {
        LiveEvent::Meta(meta) => {
            let told = RendererView {
                backend: meta.backend@,
                src_lang: meta.src@,
                dst_lang: text::text_of(meta.dst),
                labelled: meta.mic && meta.speaker,
                ..v
            };
            if v.json_mode || v.banner_printed {
                (told, Seq::<ActionView>::empty())
            } else {
                (
                    RendererView { banner_printed: true, ..told },
                    as_lines(banner_lines(told, meta)),
                )
            }
        },
        LiveEvent::Status(s) => {
            let words = render::status_words(s.message@, text::text_of(s.detail));
            let warned = if v.json_mode && s.phase == LiveStatusPhase::Recovering {
                seq![ActionView::Warn(v.tool + ": "@ + words)]
            } else {
                Seq::<ActionView>::empty()
            };
            let below = redrawn(
                RendererView { status: Some((s.phase, s.message@, text::text_of(s.detail))), ..v },
                width,
            );
            (below.0, warned + below.1)
        },
        LiveEvent::Volatile(e) => redrawn(
            RendererView { volatile: with_volatile(v.volatile, e.channel, e.text@), ..v },
            width,
        ),
        LiveEvent::Finalized(e) => {
            let c = CaptionView { event: e@, clock };
            let quiet = RendererView {
                status: None,
                volatile: without_channel(v.volatile, e.channel),
                ..v
            };
            if e.dst is Some || v.dst_lang is None {
                committed(quiet, c, width)
            } else {
                redrawn(RendererView { pending: quiet.pending.push(c), ..quiet }, width)
            }
        },
        LiveEvent::Translated(t) => {
            let quiet = RendererView { status: None, ..v };
            let at = waiting_at(v.pending, t.seq);
            if at < v.pending.len() {
                let c = translated(
                    v.pending[at as int],
                    text::text_of(t.lang),
                    v.dst_lang,
                    t.text@,
                );
                let above = committed(
                    RendererView { pending: v.pending.remove(at as int), ..quiet },
                    c,
                    width,
                );
                let below = redrawn(above.0, width);
                (below.0, above.1 + below.1)
            } else {
                redrawn(quiet, width)
            }
        },
        LiveEvent::Eof => {
            let quiet = RendererView { status: None, pending: Seq::empty(), ..v };
            let done = all_committed(quiet, v.pending, width);
            (wiped(done.0), done.1 + cleared(done.0))
        },
    }
}

fn push_action(out: &mut Vec<CaptionAction>, action: CaptionAction)
    ensures
        actions(final(out)@) == actions(old(out)@).push(action@),
{
    out.push(action);
    assert(actions(out@) =~= actions(old(out)@).push(action@));
}

/// Prints lines.
fn push_lines(out: &mut Vec<CaptionAction>, lines: &Vec<String>)
    ensures
        actions(final(out)@) == actions(old(out)@) + as_lines(text::texts(lines@)),
{
    let ghost start = actions(out@);
    let ghost all = as_lines(text::texts(lines@));
    let n: usize = lines.len();
    let mut i: usize = 0;
    assert(start + all.take(0) =~= start);
    while i < n
        invariant
            n == lines.len(),
            all == as_lines(text::texts(lines@)),
            start == actions(old(out)@),
            i <= n,
            actions(out@) == start + all.take(i as int),
        decreases n - i,
    {
        push_action(out, CaptionAction::Line(text::copy(lines[i].as_str())));
        assert(start + all.take(i + 1) =~= (start + all.take(i as int)).push(all[i as int]));
        i = i + 1;
    }
    assert(all.take(n as int) =~= all);
}

fn name_of_channel(channel: AudioChannel) -> (r: &'static str)
    ensures
        r@ == channel_name(channel),
{
    match channel {
        AudioChannel::Mic => "mic",
        AudioChannel::Speaker => "speaker",
        AudioChannel::File => "file",
    }
}

fn fill_to(s: &str, width: usize) -> (r: String)
    ensures
        r@ == filled_to(s@, width as nat),
{
    let chars = text::to_chars(s);
    let n: usize = chars.len();
    let missing: usize = if n < width {
        width - n
    } else {
        0
    };
    text::cat(s, text::blank(missing).as_str())
}

impl LiveRenderer {
    pub fn new(
        tool: &str,
        version: &str,
        json_mode: bool,
        show_channel_label: bool,
        src: Option<String>,
        dst: Option<String>,
    ) -> (r: LiveRenderer)
        ensures
            r@ == (RendererView {
                tool: tool@,
                version: version@,
                json_mode,
                banner_printed: false,
                backend: ""@,
                labelled: show_channel_label,
                src_lang: match src {
                    Some(s) => s@,
                    None => "und"@,
                },
                dst_lang: text::text_of(dst),
                count: 0,
                pending: Seq::empty(),
                status: None,
                volatile: Seq::empty(),
                rows: 0,
            }),
    {
        let r = LiveRenderer {
            tool: text::copy(tool),
            version: text::copy(version),
            json_mode,
            banner_printed: false,
            backend: text::copy(""),
            show_channel_label,
            src_lang: match src {
                Some(s) => s,
                None => text::copy("und"),
            },
            dst_lang: dst,
            count: 0,
            pending: Vec::new(),
            status: None,
            volatile: Vec::new(),
            rows: 0,
        };
        assert(r@.pending =~= Seq::empty());
        assert(r@.volatile =~= Seq::empty());
        r
    }

    fn source_column_pad(&self) -> (r: usize)
        ensures
            r == source_pad(self.show_channel_label),
    {
        if self.show_channel_label {
            16
        } else {
            11
        }
    }

    pub fn tty_header(&self, channel: AudioChannel, clock: &str) -> (r: String)
        ensures
            r@ == header(self.show_channel_label, channel, clock@),
    {
        let color: u8 = render::channel_color(channel);
        let time = render::ansi256(color, clock);
        if self.show_channel_label {
            text::cat4(
                time.as_str(),
                " ",
                render::ansi256(color, render::channel_label(channel)).as_str(),
                "  ",
            )
        } else {
            text::cat(time.as_str(), "   ")
        }
    }

    pub fn tty_lines(&self, caption: &Caption) -> (r: Vec<String>)
        ensures
            text::texts(r@) == caption_lines(self.show_channel_label, caption@),
    {
        let event = &caption.event;
        let head = self.tty_header(event.channel, caption.clock.as_str());
        let mut lines: Vec<String> = Vec::new();
        lines.push(text::cat(head.as_str(), event.src.text.as_str()));
        assert(text::texts(lines@) =~= seq![
            header(self.show_channel_label, event.channel, caption.clock@) + event.src.text@,
        ]);
        if let Some(dst) = &event.dst {
            if !render::is_passthrough_translation(
                event.src.lang.as_str(),
                dst.lang.as_str(),
                event.src.text.as_str(),
                dst.text.as_str(),
            ) {
                let ghost first = text::texts(lines@);
                lines.push(
                    text::cat(
                        text::blank(self.source_column_pad()).as_str(),
                        render::ansi256(244, dst.text.as_str()).as_str(),
                    ),
                );
                assert(text::texts(lines@) =~= first.push(
                    text::spaces(source_pad(self.show_channel_label)) + render::painted(
                        244,
                        dst.text@,
                    ),
                ));
            }
        }
        lines
    }

    fn push_pending(&self, lines: &mut Vec<String>)
        ensures
            text::texts(final(lines)@) == text::texts(old(lines)@) + pending_lines(
                self.show_channel_label,
                captions(self.pending@),
            ),
    {
        let ghost start = text::texts(lines@);
        let ghost all = captions(self.pending@);
        let ghost labelled = self.show_channel_label;
        let n: usize = self.pending.len();
        let mut i: usize = 0;
        assert(start + pending_lines(labelled, all.take(0)) =~= start);
        while i < n
            invariant
                n == self.pending.len(),
                all == captions(self.pending@),
                labelled == self.show_channel_label,
                start == text::texts(old(lines)@),
                i <= n,
                text::texts(lines@) == start + pending_lines(labelled, all.take(i as int)),
            decreases n - i,
        {
            let ghost more = all.take(i + 1);
            assert(more.drop_last() =~= all.take(i as int));
            assert(more.last() == self.pending@[i as int]@);
            let mut own = self.tty_lines(&self.pending[i]);
            own.push(
                text::cat(
                    text::blank(self.source_column_pad()).as_str(),
                    render::ansi256(240, "(translating...)").as_str(),
                ),
            );
            assert(text::texts(own@) =~= caption_lines(labelled, more.last()).push(
                text::spaces(source_pad(labelled)) + render::painted(240, "(translating...)"@),
            ));
            let ghost before = text::texts(lines@);
            let ghost added = text::texts(own@);
            lines.append(&mut own);
            assert(text::texts(lines@) =~= before + added);
            assert(start + pending_lines(labelled, more) =~= before + added);
            i = i + 1;
        }
        assert(all.take(n as int) =~= all);
    }

    fn push_volatile(&self, lines: &mut Vec<String>)
        ensures
            text::texts(final(lines)@) == text::texts(old(lines)@) + volatile_lines(
                self.show_channel_label,
                volatile_texts(self.volatile@),
            ),
    {
        let ghost start = text::texts(lines@);
        let ghost all = volatile_texts(self.volatile@);
        let ghost labelled = self.show_channel_label;
        let n: usize = self.volatile.len();
        let mut i: usize = 0;
        assert(start + volatile_lines(labelled, all.take(0)) =~= start);
        while i < n
            invariant
                n == self.volatile.len(),
                all == volatile_texts(self.volatile@),
                labelled == self.show_channel_label,
                start == text::texts(old(lines)@),
                i <= n,
                text::texts(lines@) == start + volatile_lines(labelled, all.take(i as int)),
            decreases n - i,
        {
            let ghost more = all.take(i + 1);
            assert(more.drop_last() =~= all.take(i as int));
            let entry = &self.volatile[i];
            assert(more.last() == (entry.channel, entry.text@));
            if !text::trim(entry.text.as_str()).as_str().is_empty() {
                let ghost before = text::texts(lines@);
                let label = if self.show_channel_label {
                    text::cat(
                        render::ansi256(
                            render::channel_color(entry.channel),
                            render::channel_label(entry.channel),
                        ).as_str(),
                        "  ",
                    )
                } else {
                    text::copy("")
                };
                let pad: usize = if self.show_channel_label {
                    9
                } else {
                    11
                };
                let line = text::cat4(
                    text::blank(pad).as_str(),
                    label.as_str(),
                    render::ansi256(240, "... ").as_str(),
                    render::ansi256(244, entry.text.as_str()).as_str(),
                );
                assert(line@ == volatile_line(labelled, entry.channel, entry.text@));
                lines.push(line);
                assert(text::texts(lines@) =~= before.push(line@));
                assert(start + volatile_lines(labelled, more) =~= (start + volatile_lines(
                    labelled,
                    all.take(i as int),
                )).push(line@));
            }
            i = i + 1;
        }
        assert(all.take(n as int) =~= all);
    }

    /// The region as it stands.
    pub fn live_region_lines(&self) -> (r: Vec<String>)
        ensures
            text::texts(r@) == region(self@),
    {
        let mut lines: Vec<String> = Vec::new();
        assert(text::texts(lines@) =~= Seq::<Seq<char>>::empty());
        if self.json_mode {
            return lines;
        }
        self.push_pending(&mut lines);
        let ghost first = text::texts(lines@);
        if let Some(status) = &self.status {
            lines.push(
                text::cat(
                    text::blank(self.source_column_pad()).as_str(),
                    render::ansi256(244, render::status_text(status).as_str()).as_str(),
                ),
            );
        }
        assert(text::texts(lines@) =~= pending_lines(self@.labelled, self@.pending)
            + status_lines(self@.labelled, self@.status));
        self.push_volatile(&mut lines);
        lines
    }
}

fn count_rows(lines: &Vec<String>, width: usize) -> (r: usize)
    ensures
        r == render::capped(rows_in(text::texts(lines@), width as nat)),
{
    let ghost all = text::texts(lines@);
    let n: usize = lines.len();
    let mut total: usize = 0;
    let mut i: usize = 0;
    while i < n
        invariant
            n == lines.len(),
            all == text::texts(lines@),
            i <= n,
            total == render::capped(rows_in(all.take(i as int), width as nat)),
        decreases n - i,
    {
        let ghost more = all.take(i + 1);
        assert(more.drop_last() =~= all.take(i as int));
        assert(more.last() == lines@[i as int]@);
        let rows: usize = render::physical_rows(lines[i].as_str(), width);
        total = render::grown(total, rows);
        i = i + 1;
    }
    assert(all.take(n as int) =~= all);
    total
}

fn device_text(d: &LiveDeviceEvent, both: bool) -> (r: String)
    ensures
        r@ == device_line(*d, both),
{
    let name = fill_to(
        name_of_channel(d.channel),
        if both {
            7
        } else {
            0
        },
    );
    let note = if d.pinned {
        "[pinned]"
    } else {
        "(default)"
    };
    let first = text::cat5(
        "  ",
        render::ansi256(render::channel_color(d.channel), name.as_str()).as_str(),
        "  ",
        d.name.as_str(),
        " ",
    );
    text::cat(first.as_str(), render::ansi256(244, note).as_str())
}

impl LiveRenderer {
    fn clear_live_region(&mut self, out: &mut Vec<CaptionAction>)
        ensures
            final(self)@ == wiped(old(self)@),
            actions(final(out)@) == actions(old(out)@) + cleared(old(self)@),
    {
        if self.json_mode || self.rows == 0 {
            assert(actions(out@) =~= actions(old(out)@) + Seq::<ActionView>::empty());
            assert(self@ =~= wiped(old(self)@));
            return;
        }
        push_action(out, CaptionAction::Clear(self.rows));
        self.rows = 0;
        assert(actions(out@) =~= actions(old(out)@) + cleared(old(self)@));
        assert(self@ =~= wiped(old(self)@));
    }

    fn redraw_live_region(&mut self, width: usize, out: &mut Vec<CaptionAction>)
        ensures
            final(self)@ == redrawn(old(self)@, width as nat).0,
            actions(final(out)@) == actions(old(out)@) + redrawn(old(self)@, width as nat).1,
    {
        if self.json_mode {
            assert(actions(out@) =~= actions(old(out)@) + Seq::<ActionView>::empty());
            return;
        }
        self.clear_live_region(out);
        let lines = self.live_region_lines();
        assert(region(self@) == region(old(self)@));
        push_lines(out, &lines);
        self.rows = count_rows(&lines, width);
        assert(self@ =~= redrawn(old(self)@, width as nat).0);
        assert(actions(out@) =~= actions(old(out)@) + redrawn(old(self)@, width as nat).1);
    }

    fn commit_event(&mut self, caption: Caption, width: usize, out: &mut Vec<CaptionAction>)
        requires
            old(self).count < u64::MAX,
        ensures
            final(self)@ == committed(old(self)@, caption@, width as nat).0,
            actions(final(out)@) == actions(old(out)@) + committed(
                old(self)@,
                caption@,
                width as nat,
            ).1,
    {
        let ghost v = self@;
        let ghost start = actions(out@);
        push_action(out, CaptionAction::Record(caption.event.copied()));
        if self.json_mode {
            push_action(out, CaptionAction::Json(caption.event.copied()));
            self.count = self.count + 1;
            assert(self@ =~= committed(v, caption@, width as nat).0);
            assert(actions(out@) =~= start + committed(v, caption@, width as nat).1);
            return;
        }
        self.clear_live_region(out);
        let lines = self.tty_lines(&caption);
        push_lines(out, &lines);
        self.count = self.count + 1;
        assert(self@ =~= wiped(RendererView { count: v.count + 1, ..v }));
        self.redraw_live_region(width, out);
        assert(actions(out@) =~= start + committed(v, caption@, width as nat).1);
    }

    fn print_banner_header(&self, meta: &LiveMetaEvent) -> (r: String)
        ensures
            r@ == banner_header(self@, *meta),
    {
        let channels = if meta.mic && meta.speaker {
            "mic + speaker"
        } else if meta.mic {
            "mic"
        } else if meta.speaker {
            "speaker"
        } else {
            ""
        };
        let langs = match &meta.dst {
            Some(dst) => text::cat3(meta.src.as_str(), " -> ", dst.as_str()),
            None => text::copy(meta.src.as_str()),
        };
        let provider = if text::same(meta.backend.as_str(), "apple") {
            text::copy("")
        } else {
            text::cat(" via ", meta.backend.as_str())
        };
        let suffix = if meta.dst.is_some() {
            " translation"
        } else {
            ""
        };
        let first = text::cat5(
            self.tool.as_str(),
            " ",
            self.version.as_str(),
            " - listening on ",
            channels,
        );
        let second = text::cat3(first.as_str(), provider.as_str(), suffix);
        text::cat4(second.as_str(), " (", langs.as_str(), ")")
    }

    fn banner(&self, meta: &LiveMetaEvent) -> (r: Vec<String>)
        ensures
            text::texts(r@) == banner_lines(self@, *meta),
    {
        let both = meta.mic && meta.speaker;
        let mut lines: Vec<String> = Vec::new();
        lines.push(self.print_banner_header(meta));
        let ghost first = seq![banner_header(self@, *meta)];
        let ghost all = meta.devices@.map_values(|d: LiveDeviceEvent| device_line(d, both));
        assert(text::texts(lines@) =~= first + all.take(0));
        let n: usize = meta.devices.len();
        let mut i: usize = 0;
        while i < n
            invariant
                n == meta.devices.len(),
                all == meta.devices@.map_values(|d: LiveDeviceEvent| device_line(d, both)),
                i <= n,
                text::texts(lines@) == first + all.take(i as int),
            decreases n - i,
        {
            let ghost before = text::texts(lines@);
            lines.push(device_text(&meta.devices[i], both));
            assert(text::texts(lines@) =~= before.push(all[i as int]));
            assert(first + all.take(i + 1) =~= (first + all.take(i as int)).push(all[i as int]));
            i = i + 1;
        }
        assert(all.take(n as int) =~= all);
        let ghost before = text::texts(lines@);
        lines.push(text::copy(""));
        assert(text::texts(lines@) =~= before.push(""@));
        assert(text::texts(lines@) =~= banner_lines(self@, *meta));
        lines
    }

    fn apply_meta(&mut self, meta: &LiveMetaEvent, out: &mut Vec<CaptionAction>)
        ensures
            final(self)@ == step(old(self)@, LiveEvent::Meta(*meta), ""@, 0).0,
            actions(final(out)@) == actions(old(out)@) + step(
                old(self)@,
                LiveEvent::Meta(*meta),
                ""@,
                0,
            ).1,
    {
        let ghost v = self@;
        self.backend = text::copy(meta.backend.as_str());
        self.src_lang = text::copy(meta.src.as_str());
        self.dst_lang = text::copy_opt(&meta.dst);
        self.show_channel_label = meta.mic && meta.speaker;
        if self.json_mode || self.banner_printed {
            assert(actions(out@) =~= actions(old(out)@) + Seq::<ActionView>::empty());
            assert(self@ =~= step(v, LiveEvent::Meta(*meta), ""@, 0).0);
            return;
        }
        let lines = self.banner(meta);
        push_lines(out, &lines);
        self.banner_printed = true;
        assert(self@ =~= step(v, LiveEvent::Meta(*meta), ""@, 0).0);
    }

    /// Sets what is being said on a channel, which keeps its place among the others.
    fn set_volatile(&mut self, channel: AudioChannel, said: String)
        ensures
            final(self)@ == (RendererView {
                volatile: with_volatile(old(self)@.volatile, channel, said@),
                ..old(self)@
            }),
            one_each(old(self)@.volatile) ==> one_each(final(self)@.volatile),
            final(self)@.volatile.contains((channel, said@)),
            without_channel(final(self)@.volatile, channel) == without_channel(
                old(self)@.volatile,
                channel,
            ),
    {
        let ghost v = self@;
        let ghost all = v.volatile;
        let n: usize = self.volatile.len();
        let mut i: usize = 0;
        assert(all.subrange(0, n as int) =~= all);
        assert(all.take(0) + with_volatile(all, channel, said@) =~= with_volatile(
            all,
            channel,
            said@,
        ));
        while i < n && self.volatile[i].channel != channel
            invariant
                n == self.volatile.len(),
                *self == *old(self),
                all == volatile_texts(self.volatile@),
                i <= n,
                with_volatile(all, channel, said@) == all.take(i as int) + with_volatile(
                    all.subrange(i as int, n as int),
                    channel,
                    said@,
                ),
            decreases n - i,
        {
            let ghost rest = all.subrange(i as int, n as int);
            let ghost tail = with_volatile(all.subrange(i + 1, n as int), channel, said@);
            assert(rest.subrange(1, rest.len() as int) =~= all.subrange(i + 1, n as int));
            assert(all.take(i as int) + (seq![rest[0]] + tail) =~= all.take(i + 1) + tail);
            i = i + 1;
        }
        let ghost rest = all.subrange(i as int, n as int);
        let ghost item = (channel, said@);
        if i < n {
            assert(rest[0] == all[i as int]);
            self.volatile.set(i, LiveVolatileEvent { channel, text: said });
            assert(self@.volatile =~= all.take(i as int) + (seq![item] + rest.subrange(
                1,
                rest.len() as int,
            )));
        } else {
            self.volatile.push(LiveVolatileEvent { channel, text: said });
            assert(self@.volatile =~= all.take(i as int) + seq![item]);
        }
        assert(self@ =~= RendererView { volatile: with_volatile(all, channel, item.1), ..v });
        proof {
            lemma_volatile_set(all, channel, item.1);
            if one_each(all) {
                law_volatile_takes_its_place(all, channel, item.1);
            }
        }
    }

    fn clear_volatile(&mut self, channel: AudioChannel)
        ensures
            final(self)@ == (RendererView {
                volatile: without_channel(old(self)@.volatile, channel),
                ..old(self)@
            }),
    {
        let ghost v = self@;
        let ghost all = v.volatile;
        let n: usize = self.volatile.len();
        let mut kept: Vec<LiveVolatileEvent> = Vec::new();
        let mut i: usize = 0;
        assert(volatile_texts(kept@) =~= without_channel(all.take(0), channel));
        while i < n
            invariant
                n == self.volatile.len(),
                *self == *old(self),
                all == volatile_texts(self.volatile@),
                i <= n,
                volatile_texts(kept@) == without_channel(all.take(i as int), channel),
            decreases n - i,
        {
            let ghost more = all.take(i + 1);
            assert(more.drop_last() =~= all.take(i as int));
            assert(more.last() == (self.volatile@[i as int].channel, self.volatile@[i as int].text@));
            let entry = &self.volatile[i];
            if entry.channel != channel {
                let ghost before = volatile_texts(kept@);
                kept.push(
                    LiveVolatileEvent {
                        channel: entry.channel,
                        text: text::copy(entry.text.as_str()),
                    },
                );
                assert(volatile_texts(kept@) =~= before.push(more.last()));
            }
            i = i + 1;
        }
        assert(all.take(n as int) =~= all);
        self.volatile = kept;
        assert(self@ =~= RendererView { volatile: without_channel(all, channel), ..v });
    }

    /// Where the first utterance with that number waits.
    fn position(&self, seq: u64) -> (r: usize)
        ensures
            r == waiting_at(self@.pending, seq),
            r <= self.pending.len(),
    {
        let ghost all = self@.pending;
        let n: usize = self.pending.len();
        let mut i: usize = 0;
        assert(all.subrange(0, n as int) =~= all);
        while i < n
            invariant
                n == self.pending.len(),
                all == captions(self.pending@),
                i <= n,
                waiting_at(all, seq) == i + waiting_at(all.subrange(i as int, n as int), seq),
            decreases n - i,
        {
            let ghost rest = all.subrange(i as int, n as int);
            assert(rest[0] == self.pending@[i as int]@);
            if self.pending[i].event.seq == seq {
                return i;
            }
            assert(rest.subrange(1, rest.len() as int) =~= all.subrange(i + 1, n as int));
            i = i + 1;
        }
        i
    }

    fn apply_translation(
        &mut self,
        t: &LiveTranslatedEvent,
        width: usize,
        out: &mut Vec<CaptionAction>,
    )
        requires
            old(self).count < u64::MAX,
        ensures
            final(self)@ == step(old(self)@, LiveEvent::Translated(*t), ""@, width as nat).0,
            actions(final(out)@) == actions(old(out)@) + step(
                old(self)@,
                LiveEvent::Translated(*t),
                ""@,
                width as nat,
            ).1,
    {
        let ghost v = self@;
        let ghost start = actions(out@);
        let at: usize = self.position(t.seq);
        self.status = None;
        if at < self.pending.len() {
            let mut caption = self.pending.remove(at);
            assert(self@.pending =~= v.pending.remove(at as int));
            assert(caption@ == v.pending[at as int]);
            let lang = match &t.lang {
                Some(l) => text::copy(l.as_str()),
                None => match &self.dst_lang {
                    Some(l) => text::copy(l.as_str()),
                    None => text::copy("und"),
                },
            };
            caption.event.dst = Some(TranscriptTarget { lang, text: text::copy(t.text.as_str()) });
            assert(caption@ =~= translated(
                v.pending[at as int],
                text::text_of(t.lang),
                v.dst_lang,
                t.text@,
            ));
            assert(self@ =~= RendererView {
                pending: v.pending.remove(at as int),
                status: None,
                ..v
            });
            self.commit_event(caption, width, out);
        } else {
            assert(self@ =~= RendererView { status: None, ..v });
        }
        let ghost above = actions(out@);
        self.redraw_live_region(width, out);
        assert(actions(out@) =~= start + step(v, LiveEvent::Translated(*t), ""@, width as nat).1);
    }

    fn drain_pending_without_translation(&mut self, width: usize, out: &mut Vec<CaptionAction>)
        requires
            old(self).count + old(self).pending.len() <= u64::MAX,
        ensures
            final(self)@ == all_committed(
                (RendererView { pending: Seq::empty(), ..old(self)@ }),
                old(self)@.pending,
                width as nat,
            ).0,
            actions(final(out)@) == actions(old(out)@) + all_committed(
                (RendererView { pending: Seq::empty(), ..old(self)@ }),
                old(self)@.pending,
                width as nat,
            ).1,
    {
        let ghost v = self@;
        let ghost start = actions(out@);
        let mut pending: Vec<Caption> = Vec::new();
        pending.append(&mut self.pending);
        let ghost all = captions(pending@);
        assert(all =~= v.pending);
        assert(self@.pending =~= Seq::empty());
        let ghost quiet = self@;
        assert(quiet =~= RendererView { pending: Seq::empty(), ..v });
        let n: usize = pending.len();
        let mut i: usize = 0;
        assert(start + Seq::<ActionView>::empty() =~= start);
        while i < n
            invariant
                n == pending.len(),
                all == captions(pending@),
                i <= n,
                self.count + n - i <= u64::MAX,
                start == actions(old(out)@),
                self@ == all_committed(quiet, all.take(i as int), width as nat).0,
                actions(out@) == start + all_committed(quiet, all.take(i as int), width as nat).1,
            decreases n - i,
        {
            let ghost more = all.take(i + 1);
            let ghost before = actions(out@);
            assert(more.drop_last() =~= all.take(i as int));
            let caption = Caption {
                event: pending[i].event.copied(),
                clock: text::copy(pending[i].clock.as_str()),
            };
            assert(caption@ =~= more.last());
            self.commit_event(caption, width, out);
            assert(actions(out@) =~= start + all_committed(quiet, more, width as nat).1);
            i = i + 1;
        }
        assert(all.take(n as int) =~= all);
    }

    /// Takes in an event and says what to do on the screen and with the transcript.
    /// `clock` is the local time of day of an utterance that the event ends.
    pub fn handle_live_event(&mut self, event: LiveEvent, clock: &str, width: usize) -> (r: Vec<
        CaptionAction,
    >)
        requires
            old(self).count + old(self).pending.len() < u64::MAX,
        ensures
            final(self)@ == step(old(self)@, event, clock@, width as nat).0,
            actions(r@) == step(old(self)@, event, clock@, width as nat).1,
    {
        let ghost v = self@;
        let mut out: Vec<CaptionAction> = Vec::new();
        let ghost none = actions(out@);
        assert(none =~= Seq::<ActionView>::empty());
        match event {
            LiveEvent::Meta(meta) => {
                self.apply_meta(&meta, &mut out);
            },
            LiveEvent::Status(status) => {
                if self.json_mode && status.phase == LiveStatusPhase::Recovering {
                    let words = render::status_text(&status);
                    push_action(
                        &mut out,
                        CaptionAction::Warn(text::cat3(self.tool.as_str(), ": ", words.as_str())),
                    );
                }
                self.status = Some(status);
                assert(self@ =~= RendererView {
                    status: Some((status.phase, status.message@, text::text_of(status.detail))),
                    ..v
                });
                self.redraw_live_region(width, &mut out);
            },
            LiveEvent::Volatile(volatile) => {
                self.set_volatile(volatile.channel, volatile.text);
                self.redraw_live_region(width, &mut out);
            },
            LiveEvent::Finalized(e) => {
                self.status = None;
                self.clear_volatile(e.channel);
                let done = e.dst.is_some() || self.dst_lang.is_none();
                let caption = Caption { event: e, clock: text::copy(clock) };
                assert(caption@ =~= CaptionView { event: e@, clock: clock@ });
                if done {
                    self.commit_event(caption, width, &mut out);
                } else {
                    self.pending.push(caption);
                    assert(self@.pending =~= v.pending.push(caption@));
                    self.redraw_live_region(width, &mut out);
                }
            },
            LiveEvent::Translated(t) => {
                self.apply_translation(&t, width, &mut out);
            },
            LiveEvent::Eof => {
                self.status = None;
                self.drain_pending_without_translation(width, &mut out);
                self.clear_live_region(&mut out);
            },
        }
        assert(actions(out@) =~= step(v, event, clock@, width as nat).1);
        out
    }

    /// What is said when a session ends, after `elapsed` seconds.
    pub fn summary(&self, elapsed: u64) -> (r: Vec<String>)
        ensures
            text::texts(r@) == if self.json_mode {
                Seq::<Seq<char>>::empty()
            } else {
                seq![
                    ""@,
                    text::decimal(self.count as nat) + " "@ + (if self.count == 1 {
                        "utterance"@
                    } else {
                        "utterances"@
                    }) + " in "@ + text::decimal((elapsed / 60) as nat) + "m "@ + text::decimal(
                        (elapsed % 60) as nat,
                    ) + "s"@,
                ]
            },
    {
        let mut lines: Vec<String> = Vec::new();
        if self.json_mode {
            assert(text::texts(lines@) =~= Seq::<Seq<char>>::empty());
            return lines;
        }
        let noun = if self.count == 1 {
            "utterance"
        } else {
            "utterances"
        };
        let first = text::cat4(text::number(self.count).as_str(), " ", noun, " in ");
        let whole = text::cat5(
            first.as_str(),
            text::number(elapsed / 60).as_str(),
            "m ",
            text::number(elapsed % 60).as_str(),
            "s",
        );
        lines.push(text::copy(""));
        lines.push(whole);
        assert(text::texts(lines@) =~= seq![""@, whole@]);
        lines
    }
}

/// What was said, whatever became of its translation.
pub open spec fn spoken(e: EventView) -> EventView {
    EventView { translation: None, ..e }
}

/// What was said and waits for its translation.
pub open spec fn waiting(p: Seq<CaptionView>) -> Multiset<EventView>
    decreases p.len(),
{
    if p.len() == 0 {
        Multiset::empty()
    } else {
        waiting(p.drop_last()).insert(spoken(p.last().event))
    }
}

/// What the actions record.
pub open spec fn recorded(a: Seq<ActionView>) -> Multiset<EventView>
    decreases a.len(),
{
    if a.len() == 0 {
        Multiset::empty()
    } else {
        match a.last() {
            ActionView::Record(e) => recorded(a.drop_last()).insert(spoken(e)),
            _ => recorded(a.drop_last()),
        }
    }
}

/// What an event reports as said.
pub open spec fn uttered(event: LiveEvent) -> Multiset<EventView> {
    match event {
        LiveEvent::Finalized(e) => Multiset::empty().insert(spoken(e@)),
        _ => Multiset::empty(),
    }
}

proof fn lemma_recorded_sum(a: Seq<ActionView>, b: Seq<ActionView>)
    ensures
        recorded(a + b) =~= recorded(a).add(recorded(b)),
    decreases b.len(),
{
    if b.len() == 0 {
        assert(a + b =~= a);
    } else {
        assert((a + b).drop_last() =~= a + b.drop_last());
        assert((a + b).last() == b.last());
        lemma_recorded_sum(a, b.drop_last());
    }
}

proof fn lemma_lines_record_nothing(lines: Seq<Seq<char>>)
    ensures
        recorded(as_lines(lines)) =~= Multiset::empty(),
    decreases lines.len(),
{
    if lines.len() > 0 {
        assert(as_lines(lines).drop_last() =~= as_lines(lines.drop_last()));
        assert(as_lines(lines).last() == ActionView::Line(lines.last()));
        lemma_lines_record_nothing(lines.drop_last());
    }
}

proof fn lemma_clearing_records_nothing(v: RendererView)
    ensures
        recorded(cleared(v)) =~= Multiset::empty(),
{
    reveal_with_fuel(recorded, 2);
}

proof fn lemma_redrawing_records_nothing(v: RendererView, width: nat)
    ensures
        recorded(redrawn(v, width).1) =~= Multiset::empty(),
        redrawn(v, width).0.pending == v.pending,
{
    lemma_clearing_records_nothing(v);
    lemma_lines_record_nothing(region(v));
    lemma_recorded_sum(cleared(v), as_lines(region(v)));
}

proof fn lemma_commit_records_one(v: RendererView, c: CaptionView, width: nat)
    ensures
        recorded(committed(v, c, width).1) =~= Multiset::empty().insert(spoken(c.event)),
        committed(v, c, width).0.pending == v.pending,
{
    let one = seq![ActionView::Record(c.event)];
    assert(recorded(one) =~= Multiset::empty().insert(spoken(c.event))) by {
        reveal_with_fuel(recorded, 2);
        assert(one.drop_last() =~= Seq::<ActionView>::empty());
    }
    if v.json_mode {
        let json = seq![ActionView::Json(c.event)];
        assert(recorded(json) =~= Multiset::empty()) by {
            reveal_with_fuel(recorded, 2);
            assert(json.drop_last() =~= Seq::<ActionView>::empty());
        }
        assert(committed(v, c, width).1 =~= one + json);
        lemma_recorded_sum(one, json);
    } else {
        let counted = RendererView { count: v.count + 1, ..v };
        let lines = as_lines(caption_lines(v.labelled, c));
        let below = redrawn(wiped(counted), width);
        lemma_redrawing_records_nothing(wiped(counted), width);
        lemma_clearing_records_nothing(v);
        lemma_lines_record_nothing(caption_lines(v.labelled, c));
        lemma_recorded_sum(one, cleared(v));
        lemma_recorded_sum(one + cleared(v), lines);
        lemma_recorded_sum(one + cleared(v) + lines, below.1);
    }
}

proof fn lemma_all_committed(v: RendererView, p: Seq<CaptionView>, width: nat)
    ensures
        recorded(all_committed(v, p, width).1) =~= waiting(p),
        all_committed(v, p, width).0.pending == v.pending,
    decreases p.len(),
{
    if p.len() > 0 {
        lemma_all_committed(v, p.drop_last(), width);
        let (v1, a1) = all_committed(v, p.drop_last(), width);
        lemma_commit_records_one(v1, p.last(), width);
        lemma_recorded_sum(a1, committed(v1, p.last(), width).1);
    }
}

proof fn lemma_waiting_remove(p: Seq<CaptionView>, i: int)
    requires
        0 <= i < p.len(),
    ensures
        waiting(p.remove(i)).insert(spoken(p[i].event)) =~= waiting(p),
    decreases p.len(),
{
    if i == p.len() - 1 {
        assert(p.remove(i) =~= p.drop_last());
    } else {
        assert(p.remove(i).drop_last() =~= p.drop_last().remove(i));
        assert(p.remove(i).last() == p.last());
        lemma_waiting_remove(p.drop_last(), i);
    }
}

/// No utterance is lost and none is recorded twice: with every event, what it records
/// and what then waits for a translation is what waited before and what the event
/// reports as said.
pub proof fn law_no_utterance_lost(
    v: RendererView,
    event: LiveEvent,
    clock: Seq<char>,
    width: nat,
)
    ensures
        recorded(step(v, event, clock, width).1).add(
            waiting(step(v, event, clock, width).0.pending),
        ) =~= waiting(v.pending).add(uttered(event)),
{
    match event {
        LiveEvent::Meta(meta) => {
            let told = RendererView {
                backend: meta.backend@,
                src_lang: meta.src@,
                dst_lang: text::text_of(meta.dst),
                labelled: meta.mic && meta.speaker,
                ..v
            };
            lemma_lines_record_nothing(banner_lines(told, meta));
        },
        LiveEvent::Status(s) => {
            let words = render::status_words(s.message@, text::text_of(s.detail));
            let warned = if v.json_mode && s.phase == LiveStatusPhase::Recovering {
                seq![ActionView::Warn(v.tool + ": "@ + words)]
            } else {
                Seq::<ActionView>::empty()
            };
            assert(recorded(warned) =~= Multiset::empty()) by {
                reveal_with_fuel(recorded, 2);
                if warned.len() > 0 {
                    assert(warned.drop_last() =~= Seq::<ActionView>::empty());
                }
            }
            let told = RendererView {
                status: Some((s.phase, s.message@, text::text_of(s.detail))),
                ..v
            };
            lemma_redrawing_records_nothing(told, width);
            lemma_recorded_sum(warned, redrawn(told, width).1);
        },
        LiveEvent::Volatile(e) => {
            lemma_redrawing_records_nothing(
                RendererView { volatile: with_volatile(v.volatile, e.channel, e.text@), ..v },
                width,
            );
        },
        LiveEvent::Finalized(e) => {
            let c = CaptionView { event: e@, clock };
            let quiet = RendererView {
                status: None,
                volatile: without_channel(v.volatile, e.channel),
                ..v
            };
            let longer = quiet.pending.push(c);
            lemma_commit_records_one(quiet, c, width);
            lemma_redrawing_records_nothing(RendererView { pending: longer, ..quiet }, width);
            assert(longer.drop_last() =~= v.pending);
        },
        LiveEvent::Translated(t) => {
            let quiet = RendererView { status: None, ..v };
            let at = waiting_at(v.pending, t.seq);
            lemma_redrawing_records_nothing(quiet, width);
            if at < v.pending.len() {
                let c = translated(
                    v.pending[at as int],
                    text::text_of(t.lang),
                    v.dst_lang,
                    t.text@,
                );
                let shorter = RendererView { pending: v.pending.remove(at as int), ..quiet };
                lemma_commit_records_one(shorter, c, width);
                let above = committed(shorter, c, width);
                lemma_redrawing_records_nothing(above.0, width);
                lemma_recorded_sum(above.1, redrawn(above.0, width).1);
                lemma_waiting_remove(v.pending, at as int);
                assert(spoken(c.event) =~= spoken(v.pending[at as int].event));
            }
        },
        LiveEvent::Eof => {
            let quiet = RendererView { status: None, pending: Seq::empty(), ..v };
            lemma_all_committed(quiet, v.pending, width);
            let done = all_committed(quiet, v.pending, width);
            lemma_clearing_records_nothing(done.0);
            lemma_recorded_sum(done.1, cleared(done.0));
        },
    }
}

/// When a session ends nothing is left waiting, and everything that waited is recorded.
pub proof fn law_end_records_what_waits(v: RendererView, clock: Seq<char>, width: nat)
    ensures
        step(v, LiveEvent::Eof, clock, width).0.pending.len() == 0,
        recorded(step(v, LiveEvent::Eof, clock, width).1) =~= waiting(v.pending),
{
    let quiet = RendererView { status: None, pending: Seq::empty(), ..v };
    lemma_all_committed(quiet, v.pending, width);
    let done = all_committed(quiet, v.pending, width);
    lemma_clearing_records_nothing(done.0);
    lemma_recorded_sum(done.1, cleared(done.0));
}

/// What the actions record, in order, with its translations.
pub open spec fn records(a: Seq<ActionView>) -> Seq<EventView>
    decreases a.len(),
{
    if a.len() == 0 {
        Seq::empty()
    } else {
        match a.last() {
            ActionView::Record(e) => records(a.drop_last()).push(e),
            _ => records(a.drop_last()),
        }
    }
}

/// What an event puts on record: an utterance that waits for no translation, one whose
/// translation comes, and at the end all that still waits.
pub open spec fn entries(v: RendererView, event: LiveEvent) -> Seq<EventView> {
    match event {
        LiveEvent::Finalized(e) => if e.dst is Some || v.dst_lang is None {
            seq![e@]
        } else {
            Seq::empty()
        },
        LiveEvent::Translated(t) => {
            let at = waiting_at(v.pending, t.seq);
            if at < v.pending.len() {
                seq![
                    translated(
                        v.pending[at as int],
                        text::text_of(t.lang),
                        v.dst_lang,
                        t.text@,
                    ).event,
                ]
            } else {
                Seq::empty()
            }
        },
        LiveEvent::Eof => v.pending.map_values(|c: CaptionView| c.event),
        _ => Seq::empty(),
    }
}

/// The utterances that wait after an event.
pub open spec fn still_waiting(v: RendererView, event: LiveEvent, clock: Seq<char>) -> Seq<
    CaptionView,
> {
    match event {
        LiveEvent::Finalized(e) => if e.dst is Some || v.dst_lang is None {
            v.pending
        } else {
            v.pending.push(CaptionView { event: e@, clock })
        },
        LiveEvent::Translated(t) => {
            let at = waiting_at(v.pending, t.seq);
            if at < v.pending.len() {
                v.pending.remove(at as int)
            } else {
                v.pending
            }
        },
        LiveEvent::Eof => Seq::empty(),
        _ => v.pending,
    }
}

proof fn lemma_records_sum(a: Seq<ActionView>, b: Seq<ActionView>)
    ensures
        records(a + b) == records(a) + records(b),
    decreases b.len(),
{
    if b.len() == 0 {
        assert(a + b =~= a);
        assert(records(a) + records(b) =~= records(a));
    } else {
        assert((a + b).drop_last() =~= a + b.drop_last());
        assert((a + b).last() == b.last());
        lemma_records_sum(a, b.drop_last());
        assert(records(a + b) =~= records(a) + records(b));
    }
}

proof fn lemma_no_records(a: Seq<ActionView>)
    requires
        forall|i: int| 0 <= i < a.len() ==> !((#[trigger] a[i]) is Record),
    ensures
        records(a) == Seq::<EventView>::empty(),
    decreases a.len(),
{
    if a.len() > 0 {
        assert(!(a[a.len() - 1] is Record));
        assert forall|i: int| 0 <= i < a.drop_last().len() implies !((
        #[trigger] a.drop_last()[i]) is Record) by {
            assert(!(a[i] is Record));
        }
        lemma_no_records(a.drop_last());
    }
}

proof fn lemma_redrawn_no_records(v: RendererView, width: nat)
    ensures
        records(redrawn(v, width).1) == Seq::<EventView>::empty(),
        redrawn(v, width).0.pending == v.pending,
        redrawn(v, width).0.count == v.count,
        redrawn(v, width).0.volatile == v.volatile,
{
    lemma_no_records(redrawn(v, width).1);
}

proof fn lemma_committed_records(v: RendererView, c: CaptionView, width: nat)
    ensures
        records(committed(v, c, width).1) == seq![c.event],
        committed(v, c, width).0.pending == v.pending,
        committed(v, c, width).0.count == v.count + 1,
        committed(v, c, width).0.volatile == v.volatile,
{
    let all = committed(v, c, width).1;
    let one = seq![ActionView::Record(c.event)];
    let rest = all.skip(1);
    assert(all =~= one + rest);
    assert(one.drop_last() =~= Seq::<ActionView>::empty());
    assert(records(one) =~= seq![c.event]) by {
        reveal_with_fuel(records, 2);
    }
    lemma_no_records(rest);
    lemma_records_sum(one, rest);
    assert(seq![c.event] + Seq::<EventView>::empty() =~= seq![c.event]);
}

proof fn lemma_all_committed_records(v: RendererView, p: Seq<CaptionView>, width: nat)
    ensures
        records(all_committed(v, p, width).1) == p.map_values(|c: CaptionView| c.event),
        all_committed(v, p, width).0.pending == v.pending,
        all_committed(v, p, width).0.count == v.count + p.len(),
        all_committed(v, p, width).0.volatile == v.volatile,
    decreases p.len(),
{
    let all = p.map_values(|c: CaptionView| c.event);
    if p.len() == 0 {
        assert(all =~= Seq::<EventView>::empty());
    } else {
        let some = p.drop_last();
        lemma_all_committed_records(v, some, width);
        let (v1, a1) = all_committed(v, some, width);
        lemma_committed_records(v1, p.last(), width);
        lemma_records_sum(a1, committed(v1, p.last(), width).1);
        assert(all =~= some.map_values(|c: CaptionView| c.event) + seq![p.last().event]);
    }
}

/// An event records exactly its entries, in order, and each counts as one. A start of
/// the session, a status, what is being said, and a translation that nothing waits for
/// record nothing.
pub proof fn law_event_records(v: RendererView, event: LiveEvent, clock: Seq<char>, width: nat)
    ensures
        records(step(v, event, clock, width).1) == entries(v, event),
        step(v, event, clock, width).0.pending == still_waiting(v, event, clock),
        step(v, event, clock, width).0.count == v.count + entries(v, event).len(),
{
    let none = Seq::<EventView>::empty();
    match event {
        LiveEvent::Meta(_) => {
            lemma_no_records(step(v, event, clock, width).1);
        },
        LiveEvent::Status(_) => {
            lemma_no_records(step(v, event, clock, width).1);
        },
        LiveEvent::Volatile(e) => {
            lemma_redrawn_no_records(
                RendererView { volatile: with_volatile(v.volatile, e.channel, e.text@), ..v },
                width,
            );
        },
        LiveEvent::Finalized(e) => {
            let c = CaptionView { event: e@, clock };
            let quiet = RendererView {
                status: None,
                volatile: without_channel(v.volatile, e.channel),
                ..v
            };
            lemma_committed_records(quiet, c, width);
            lemma_redrawn_no_records(
                RendererView { pending: quiet.pending.push(c), ..quiet },
                width,
            );
        },
        LiveEvent::Translated(t) => {
            let quiet = RendererView { status: None, ..v };
            let at = waiting_at(v.pending, t.seq);
            lemma_redrawn_no_records(quiet, width);
            if at < v.pending.len() {
                let c = translated(
                    v.pending[at as int],
                    text::text_of(t.lang),
                    v.dst_lang,
                    t.text@,
                );
                let rest = RendererView { pending: v.pending.remove(at as int), ..quiet };
                let above = committed(rest, c, width);
                lemma_committed_records(rest, c, width);
                lemma_redrawn_no_records(above.0, width);
                lemma_records_sum(above.1, redrawn(above.0, width).1);
                assert(seq![c.event] + none =~= seq![c.event]);
            }
        },
        LiveEvent::Eof => {
            let quiet = RendererView { status: None, pending: Seq::empty(), ..v };
            lemma_all_committed_records(quiet, v.pending, width);
            let done = all_committed(quiet, v.pending, width);
            lemma_no_records(cleared(done.0));
            lemma_records_sum(done.1, cleared(done.0));
            assert(records(done.1) + none =~= records(done.1));
        },
    }
}

/// An event, with the time of day and the width of the terminal when it came.
pub struct Arrival {
    pub event: LiveEvent,
    pub clock: Seq<char>,
    pub width: nat,
}

/// What a run of events does.
pub open spec fn session(v: RendererView, came: Seq<Arrival>) -> (RendererView, Seq<ActionView>)
    decreases came.len(),
{
    if came.len() == 0 {
        (v, Seq::empty())
    } else {
        let (before, done) = session(v, came.drop_last());
        let last = came.last();
        let (after, more) = step(before, last.event, last.clock, last.width);
        (after, done + more)
    }
}

/// What a run of events puts on record, in order.
pub open spec fn session_entries(v: RendererView, came: Seq<Arrival>) -> Seq<EventView>
    decreases came.len(),
{
    if came.len() == 0 {
        Seq::empty()
    } else {
        session_entries(v, came.drop_last()) + entries(
            session(v, came.drop_last()).0,
            came.last().event,
        )
    }
}

/// How many utterances a run of events reports.
pub open spec fn finals(came: Seq<Arrival>) -> nat
    decreases came.len(),
{
    if came.len() == 0 {
        0
    } else if came.last().event is Finalized {
        finals(came.drop_last()) + 1
    } else {
        finals(came.drop_last())
    }
}

/// What a run of events reports as said.
pub open spec fn all_uttered(came: Seq<Arrival>) -> Multiset<EventView>
    decreases came.len(),
{
    if came.len() == 0 {
        Multiset::empty()
    } else {
        all_uttered(came.drop_last()).add(uttered(came.last().event))
    }
}

/// Over any run of events: what is on record are their entries, in order, each counted;
/// and what is on record and what waits is what waited at first and what was said since,
/// each once.
pub proof fn law_session_records(v: RendererView, came: Seq<Arrival>)
    ensures
        records(session(v, came).1) == session_entries(v, came),
        session(v, came).0.count == v.count + session_entries(v, came).len(),
        session_entries(v, came).len() + session(v, came).0.pending.len() == v.pending.len()
            + finals(came),
        recorded(session(v, came).1).add(waiting(session(v, came).0.pending)) =~= waiting(
            v.pending,
        ).add(all_uttered(came)),
    decreases came.len(),
{
    if came.len() > 0 {
        let some = came.drop_last();
        let last = came.last();
        law_session_records(v, some);
        let (before, done) = session(v, some);
        let (after, more) = step(before, last.event, last.clock, last.width);
        law_event_records(before, last.event, last.clock, last.width);
        law_no_utterance_lost(before, last.event, last.clock, last.width);
        lemma_records_sum(done, more);
        lemma_recorded_sum(done, more);
        let left = recorded(done).add(recorded(more)).add(waiting(after.pending));
        assert(left =~= recorded(done).add(recorded(more).add(waiting(after.pending))));
        let right = waiting(v.pending).add(all_uttered(some)).add(uttered(last.event));
        assert(right =~= waiting(v.pending).add(all_uttered(came)));
        assert(left =~= recorded(done).add(waiting(before.pending)).add(uttered(last.event)));
    }
}

/// A session that began with nothing and has come to its end: nothing waits, the count
/// is the number of utterances that were reported, and each of them is on record once.
pub proof fn law_ended_session_is_recorded(v: RendererView, came: Seq<Arrival>)
    requires
        v.count == 0,
        v.pending.len() == 0,
        came.len() > 0,
        came.last().event is Eof,
    ensures
        session(v, came).0.pending.len() == 0,
        session(v, came).0.count == finals(came),
        records(session(v, came).1) == session_entries(v, came),
        recorded(session(v, came).1) =~= all_uttered(came),
{
    law_session_records(v, came);
    let last = came.last();
    law_event_records(
        session(v, came.drop_last()).0,
        last.event,
        last.clock,
        last.width,
    );
    let now = session(v, came).0.pending;
    assert(recorded(session(v, came).1).add(waiting(now)) =~= recorded(session(v, came).1));
    assert(waiting(v.pending).add(all_uttered(came)) =~= all_uttered(came));
}

/// No channel stands twice among what is being said.
pub open spec fn one_each(v: Seq<(AudioChannel, Seq<char>)>) -> bool {
    forall|i: int, j: int| 0 <= i < j < v.len() ==> (#[trigger] v[i]).0 != (#[trigger] v[j]).0
}

/// What is being said on a channel stands where the channel stood, or at the end, and
/// the other channels stay as they are.
pub proof fn law_volatile_takes_its_place(
    v: Seq<(AudioChannel, Seq<char>)>,
    channel: AudioChannel,
    said: Seq<char>,
)
    requires
        one_each(v),
    ensures
        one_each(with_volatile(v, channel, said)),
        forall|i: int|
            0 <= i < v.len() && (#[trigger] v[i]).0 == channel ==> with_volatile(v, channel, said)
                == v.update(i, (channel, said)),
        (forall|i: int| 0 <= i < v.len() ==> (#[trigger] v[i]).0 != channel) ==> with_volatile(
            v,
            channel,
            said,
        ) == v.push((channel, said)),
    decreases v.len(),
{
    let all = with_volatile(v, channel, said);
    if v.len() == 0 {
        assert(all =~= v.push((channel, said)));
    } else {
        let rest = v.subrange(1, v.len() as int);
        if v[0].0 == channel {
            assert(all =~= v.update(0, (channel, said)));
        } else {
            assert(one_each(rest)) by {
                assert forall|i: int, j: int| 0 <= i < j < rest.len() implies (
                #[trigger] rest[i]).0 != (#[trigger] rest[j]).0 by {
                    assert(v[i + 1].0 != v[j + 1].0);
                }
            }
            law_volatile_takes_its_place(rest, channel, said);
            if exists|i: int| 0 <= i < v.len() && (#[trigger] v[i]).0 == channel {
                let i = choose|i: int| 0 <= i < v.len() && (#[trigger] v[i]).0 == channel;
                assert(rest[i - 1] == v[i]);
                assert(all =~= v.update(i, (channel, said)));
                assert forall|j: int| 0 <= j < v.len() && (#[trigger] v[j]).0 == channel implies all
                    == v.update(j, (channel, said)) by {
                    assert(j == i);
                }
            } else {
                assert forall|i: int| 0 <= i < rest.len() implies (#[trigger] rest[i]).0
                    != channel by {
                    assert(v[i + 1].0 != channel);
                }
                assert(all =~= v.push((channel, said)));
            }
        }
    }
    if exists|i: int| 0 <= i < v.len() && (#[trigger] v[i]).0 == channel {
        let i = choose|i: int| 0 <= i < v.len() && (#[trigger] v[i]).0 == channel;
        assert(all == v.update(i, (channel, said)));
    }
}

proof fn lemma_without_sum(
    a: Seq<(AudioChannel, Seq<char>)>,
    b: Seq<(AudioChannel, Seq<char>)>,
    channel: AudioChannel,
)
    ensures
        without_channel(a + b, channel) == without_channel(a, channel) + without_channel(
            b,
            channel,
        ),
    decreases b.len(),
{
    if b.len() == 0 {
        assert(a + b =~= a);
        assert(without_channel(a, channel) + b =~= without_channel(a, channel));
    } else {
        assert((a + b).drop_last() =~= a + b.drop_last());
        assert((a + b).last() == b.last());
        lemma_without_sum(a, b.drop_last(), channel);
        assert(without_channel(a + b, channel) =~= without_channel(a, channel) + without_channel(
            b,
            channel,
        ));
    }
}

/// What is set is there, and the other channels stay as they are, in their order.
proof fn lemma_volatile_set(
    v: Seq<(AudioChannel, Seq<char>)>,
    channel: AudioChannel,
    said: Seq<char>,
)
    ensures
        with_volatile(v, channel, said).contains((channel, said)),
        without_channel(with_volatile(v, channel, said), channel) == without_channel(v, channel),
    decreases v.len(),
{
    let item = (channel, said);
    let all = with_volatile(v, channel, said);
    reveal_with_fuel(without_channel, 2);
    assert(seq![item].drop_last() =~= Seq::empty());
    if v.len() == 0 {
        assert(all[0] == item);
    } else {
        let rest = v.subrange(1, v.len() as int);
        let first = seq![v[0]];
        assert(v =~= first + rest);
        assert(first.drop_last() =~= Seq::empty());
        lemma_without_sum(first, rest, channel);
        if v[0].0 == channel {
            lemma_without_sum(seq![item], rest, channel);
            assert(all[0] == item);
        } else {
            let tail = with_volatile(rest, channel, said);
            lemma_volatile_set(rest, channel, said);
            lemma_without_sum(first, tail, channel);
            let k = choose|k: int| 0 <= k < tail.len() && tail[k] == item;
            assert(all[k + 1] == item);
        }
    }
}

proof fn lemma_without_channel(v: Seq<(AudioChannel, Seq<char>)>, channel: AudioChannel)
    requires
        one_each(v),
    ensures
        one_each(without_channel(v, channel)),
        forall|i: int|
            0 <= i < without_channel(v, channel).len() ==> v.contains(
                #[trigger] without_channel(v, channel)[i],
            ),
    decreases v.len(),
{
    if v.len() > 0 {
        let some = v.drop_last();
        assert(one_each(some));
        lemma_without_channel(some, channel);
        let fewer = without_channel(some, channel);
        let all = without_channel(v, channel);
        assert forall|i: int| 0 <= i < all.len() implies v.contains(#[trigger] all[i]) by {
            if i < fewer.len() {
                assert(some.contains(fewer[i]));
                let k = choose|k: int| 0 <= k < some.len() && some[k] == fewer[i];
                assert(v[k] == all[i]);
            } else {
                assert(v[v.len() - 1] == all[i]);
            }
        }
        assert forall|i: int, j: int| 0 <= i < j < all.len() implies (#[trigger] all[i]).0 != (
        #[trigger] all[j]).0 by {
            if j == fewer.len() {
                assert(some.contains(fewer[i]));
                let k = choose|k: int| 0 <= k < some.len() && some[k] == fewer[i];
                assert(v[k].0 != v[v.len() - 1].0);
            }
        }
    }
}

/// No event makes a channel stand twice among what is being said.
pub proof fn law_one_volatile_each(v: RendererView, event: LiveEvent, clock: Seq<char>, width: nat)
    requires
        one_each(v.volatile),
    ensures
        one_each(step(v, event, clock, width).0.volatile),
{
    match event {
        LiveEvent::Volatile(e) => {
            law_volatile_takes_its_place(v.volatile, e.channel, e.text@);
        },
        LiveEvent::Finalized(e) => {
            lemma_without_channel(v.volatile, e.channel);
        },
        LiveEvent::Eof => {
            let quiet = RendererView { status: None, pending: Seq::empty(), ..v };
            lemma_all_committed_records(quiet, v.pending, width);
        },
        _ => {},
    }
}

/// A part stands somewhere in a line.
pub open spec fn holds(line: Seq<char>, part: Seq<char>) -> bool {
    exists|i: int|
        0 <= i <= line.len() - part.len() && #[trigger] line.subrange(i, i + part.len()) == part
}

/// A line ends with a part.
pub open spec fn closes(line: Seq<char>, part: Seq<char>) -> bool {
    line.len() >= part.len() && line.skip(line.len() - part.len()) == part
}

proof fn lemma_holds(a: Seq<char>, part: Seq<char>, b: Seq<char>)
    ensures
        holds(a + part + b, part),
{
    let all = a + part + b;
    let i = a.len() as int;
    assert(all.subrange(i, i + part.len()) =~= part);
}

proof fn lemma_holds_more(a: Seq<char>, inner: Seq<char>, b: Seq<char>, part: Seq<char>)
    requires
        holds(inner, part),
    ensures
        holds(a + inner + b, part),
{
    let all = a + inner + b;
    let i = choose|i: int|
        0 <= i <= inner.len() - part.len() && #[trigger] inner.subrange(i, i + part.len()) == part;
    let at = a.len() + i;
    assert(all.subrange(at, at + part.len()) =~= inner.subrange(i, i + part.len()));
}

proof fn lemma_painted_holds(code: nat, part: Seq<char>)
    ensures
        holds(render::painted(code, part), part),
{
    lemma_holds("\x1b[38;5;"@ + text::decimal(code) + "m"@, part, "\x1b[0m"@);
}

proof fn lemma_caption_lines(labelled: bool, c: CaptionView)
    ensures
        ({
            let lines = caption_lines(labelled, c);
            &&& lines.len() >= 1
            &&& closes(lines[0], c.event.text)
            &&& holds(lines[0], c.clock)
            &&& labelled ==> holds(lines[0], render::label_of(c.event.channel))
            &&& match c.event.translation {
                Some((lang, t)) => if t == c.event.text && render::primary_subtag(c.event.lang)
                    == render::primary_subtag(lang) {
                    lines.len() == 1
                } else {
                    lines.len() == 2 && holds(lines[1], t)
                },
                None => lines.len() == 1,
            }
        }),
{
    let e = c.event;
    let color = render::color_of(e.channel);
    let front = header(labelled, e.channel, c.clock);
    let first = front + e.text;
    let none = Seq::<char>::empty();
    assert(first.skip(first.len() - e.text.len()) =~= e.text);
    lemma_painted_holds(color, c.clock);
    lemma_painted_holds(color, render::label_of(e.channel));
    let clock = render::painted(color, c.clock);
    let label = render::painted(color, render::label_of(e.channel));
    if labelled {
        lemma_holds_more(none, clock, " "@ + label + "  "@ + e.text, c.clock);
        assert(first =~= none + clock + (" "@ + label + "  "@ + e.text));
        lemma_holds_more(clock + " "@, label, "  "@ + e.text, render::label_of(e.channel));
        assert(first =~= (clock + " "@) + label + ("  "@ + e.text));
    } else {
        lemma_holds_more(none, clock, "   "@ + e.text, c.clock);
        assert(first =~= none + clock + ("   "@ + e.text));
    }
    if let Some((lang, t)) = e.translation {
        lemma_painted_holds(244, t);
        let pad = text::spaces(source_pad(labelled));
        lemma_holds_more(pad, render::painted(244, t), none, t);
        assert(pad + render::painted(244, t) + none =~= pad + render::painted(244, t));
    }
}

/// An utterance that is finished is recorded, and outside JSON mode it is printed at once:
/// the region below is taken back, then comes a line with the time of day that ends with
/// what was said, below it the translation where that says something new, and then the
/// region is drawn anew. In JSON mode it is printed as JSON and nothing else happens.
pub proof fn law_finished_utterance_is_shown(v: RendererView, c: CaptionView, width: nat)
    ensures
        ({
            let (after, a) = committed(v, c, width);
            let cleared = if v.rows > 0 {
                1int
            } else {
                0
            };
            let new = match c.event.translation {
                Some((lang, t)) => t != c.event.text || render::primary_subtag(c.event.lang)
                    != render::primary_subtag(lang),
                None => false,
            };
            let at = 1 + cleared;
            let rest = at + (if new {
                2int
            } else {
                1
            });
            &&& a.len() > 0 && a[0] == ActionView::Record(c.event)
            &&& v.json_mode ==> a == seq![ActionView::Record(c.event), ActionView::Json(c.event)]
            &&& !v.json_mode ==> {
                &&& a.len() == rest + region(after).len()
                &&& v.rows > 0 ==> a[1] == ActionView::Clear(v.rows)
                &&& a[at] matches ActionView::Line(l) && closes(l, c.event.text) && holds(
                    l,
                    c.clock,
                ) && (v.labelled ==> holds(l, render::label_of(c.event.channel)))
                &&& c.event.translation matches Some((_, t)) ==> new ==> (
                a[at + 1] matches ActionView::Line(l) && holds(l, t))
                &&& a.skip(rest) == as_lines(region(after))
            }
        }),
{
    lemma_caption_lines(v.labelled, c);
    if !v.json_mode {
        let counted = RendererView { count: v.count + 1, ..v };
        let below = redrawn(wiped(counted), width);
        let lines = caption_lines(v.labelled, c);
        let a = committed(v, c, width).1;
        let head = seq![ActionView::Record(c.event)] + cleared(v) + as_lines(lines);
        assert(below.1 =~= as_lines(region(wiped(counted))));
        assert(region(below.0) =~= region(wiped(counted)));
        assert(a =~= head + below.1);
        let at = 1 + cleared(v).len();
        assert(a[at as int] == ActionView::Line(lines[0]));
        if lines.len() == 2 {
            assert(a[at as int + 1] == ActionView::Line(lines[1]));
        }
        assert(a.skip(head.len() as int) =~= below.1);
    }
}

/// What a record in some actions is followed by.
pub open spec fn shown_at(a: Seq<ActionView>, i: int, json_mode: bool) -> bool {
    a[i] matches ActionView::Record(e) ==> if json_mode {
        i + 1 < a.len() && a[i + 1] == ActionView::Json(e)
    } else {
        let j = if i + 1 < a.len() && a[i + 1] is Clear {
            i + 2
        } else {
            i + 1
        };
        &&& j < a.len()
        &&& a[j] matches ActionView::Line(l) && closes(l, e.text)
        &&& e.translation matches Some((lang, t)) ==> (t != e.text || render::primary_subtag(e.lang)
            != render::primary_subtag(lang)) ==> j + 1 < a.len() && (
        a[j + 1] matches ActionView::Line(l) && holds(l, t))
    }
}

pub open spec fn all_shown(a: Seq<ActionView>, json_mode: bool) -> bool {
    forall|i: int| 0 <= i < a.len() ==> #[trigger] shown_at(a, i, json_mode)
}

proof fn lemma_shown_sum(a: Seq<ActionView>, b: Seq<ActionView>, json_mode: bool)
    requires
        all_shown(a, json_mode),
        all_shown(b, json_mode),
    ensures
        all_shown(a + b, json_mode),
{
    let all = a + b;
    assert forall|i: int| 0 <= i < all.len() implies #[trigger] shown_at(all, i, json_mode) by {
        if i < a.len() {
            assert(shown_at(a, i, json_mode));
            assert(all[i] == a[i]);
            if a[i] is Record {
                assert(all[i + 1] == a[i + 1]);
                if !json_mode {
                    let j = if a[i + 1] is Clear {
                        i + 2
                    } else {
                        i + 1
                    };
                    assert(all[j] == a[j]);
                    if j + 1 < a.len() {
                        assert(all[j + 1] == a[j + 1]);
                    }
                }
            }
        } else {
            let k = i - a.len();
            assert(shown_at(b, k, json_mode));
            assert(all[i] == b[k]);
            if b[k] is Record {
                assert(all[i + 1] == b[k + 1]);
                if !json_mode {
                    let j = if b[k + 1] is Clear {
                        k + 2
                    } else {
                        k + 1
                    };
                    assert(all[a.len() + j] == b[j]);
                    if j + 1 < b.len() {
                        assert(all[a.len() + j + 1] == b[j + 1]);
                    }
                }
            }
        }
    }
}

proof fn lemma_none_shown(a: Seq<ActionView>, json_mode: bool)
    requires
        forall|i: int| 0 <= i < a.len() ==> !((#[trigger] a[i]) is Record),
    ensures
        all_shown(a, json_mode),
{
    assert forall|i: int| 0 <= i < a.len() implies #[trigger] shown_at(a, i, json_mode) by {
        assert(!(a[i] is Record));
    }
}

proof fn lemma_commit_shown(v: RendererView, c: CaptionView, width: nat)
    ensures
        all_shown(committed(v, c, width).1, v.json_mode),
        committed(v, c, width).0.json_mode == v.json_mode,
{
    law_finished_utterance_is_shown(v, c, width);
    lemma_caption_lines(v.labelled, c);
    let a = committed(v, c, width).1;
    assert forall|i: int| 0 <= i < a.len() implies #[trigger] shown_at(a, i, v.json_mode) by {
        if i > 0 {
            assert(!(a[i] is Record));
        }
    }
}

proof fn lemma_all_commits_shown(v: RendererView, p: Seq<CaptionView>, width: nat)
    ensures
        all_shown(all_committed(v, p, width).1, v.json_mode),
        all_committed(v, p, width).0.json_mode == v.json_mode,
    decreases p.len(),
{
    if p.len() > 0 {
        lemma_all_commits_shown(v, p.drop_last(), width);
        let (v1, a1) = all_committed(v, p.drop_last(), width);
        lemma_commit_shown(v1, p.last(), width);
        lemma_shown_sum(a1, committed(v1, p.last(), width).1, v.json_mode);
    }
}

/// Whatever an event records is shown right behind its record: a line that ends with what
/// was said, and its translation where that says something new; in JSON mode its JSON.
pub proof fn law_records_are_shown(v: RendererView, event: LiveEvent, clock: Seq<char>, width: nat)
    ensures
        all_shown(step(v, event, clock, width).1, v.json_mode),
        step(v, event, clock, width).0.json_mode == v.json_mode,
{
    match event {
        LiveEvent::Finalized(e) => {
            let c = CaptionView { event: e@, clock };
            let quiet = RendererView {
                status: None,
                volatile: without_channel(v.volatile, e.channel),
                ..v
            };
            lemma_commit_shown(quiet, c, width);
            if !(e.dst is Some || v.dst_lang is None) {
                lemma_none_shown(step(v, event, clock, width).1, v.json_mode);
            }
        },
        LiveEvent::Translated(t) => {
            let quiet = RendererView { status: None, ..v };
            let at = waiting_at(v.pending, t.seq);
            if at < v.pending.len() {
                let c = translated(
                    v.pending[at as int],
                    text::text_of(t.lang),
                    v.dst_lang,
                    t.text@,
                );
                let rest = RendererView { pending: v.pending.remove(at as int), ..quiet };
                let above = committed(rest, c, width);
                lemma_commit_shown(rest, c, width);
                lemma_none_shown(redrawn(above.0, width).1, v.json_mode);
                lemma_shown_sum(above.1, redrawn(above.0, width).1, v.json_mode);
            } else {
                lemma_none_shown(step(v, event, clock, width).1, v.json_mode);
            }
        },
        LiveEvent::Eof => {
            let quiet = RendererView { status: None, pending: Seq::empty(), ..v };
            lemma_all_commits_shown(quiet, v.pending, width);
            let done = all_committed(quiet, v.pending, width);
            lemma_none_shown(cleared(done.0), v.json_mode);
            lemma_shown_sum(done.1, cleared(done.0), v.json_mode);
        },
        _ => {
            lemma_none_shown(step(v, event, clock, width).1, v.json_mode);
        },
    }
}

/// Over a whole session, all that is recorded is shown, each utterance right behind its
/// record and so in the order of the record.
pub proof fn law_session_shows_its_records(v: RendererView, came: Seq<Arrival>)
    ensures
        all_shown(session(v, came).1, v.json_mode),
        session(v, came).0.json_mode == v.json_mode,
    decreases came.len(),
{
    if came.len() > 0 {
        law_session_shows_its_records(v, came.drop_last());
        let (before, done) = session(v, came.drop_last());
        let last = came.last();
        law_records_are_shown(before, last.event, last.clock, last.width);
        lemma_shown_sum(done, step(before, last.event, last.clock, last.width).1, v.json_mode);
    }
}

/// An utterance that brings its translation, or that nobody asked to translate, is
/// recorded at once as it came; any other waits, behind those that wait already. Either
/// way what was being said on its channel is gone, and so is the status.
pub proof fn law_finalized_is_recorded_or_waits(
    v: RendererView,
    e: TranscriptEvent,
    clock: Seq<char>,
    width: nat,
)
    ensures
        ({
            let (after, a) = step(v, LiveEvent::Finalized(e), clock, width);
            &&& e.dst is Some || v.dst_lang is None ==> records(a) == seq![e@] && after.pending
                == v.pending && after.count == v.count + 1
            &&& e.dst is None && v.dst_lang is Some ==> records(a).len() == 0 && after.pending
                == v.pending.push((CaptionView { event: e@, clock })) && after.count == v.count
            &&& after.status is None
            &&& forall|i: int|
                0 <= i < after.volatile.len() ==> (#[trigger] after.volatile[i]).0 != e.channel
            &&& forall|i: int|
                0 <= i < v.volatile.len() && (#[trigger] v.volatile[i]).0 != e.channel
                    ==> after.volatile.contains(v.volatile[i])
        }),
{
    law_event_records(v, LiveEvent::Finalized(e), clock, width);
    let quiet = RendererView {
        status: None,
        volatile: without_channel(v.volatile, e.channel),
        ..v
    };
    let c = CaptionView { event: e@, clock };
    lemma_committed_records(quiet, c, width);
    lemma_cleared_channel(v.volatile, e.channel);
}

proof fn lemma_cleared_channel(v: Seq<(AudioChannel, Seq<char>)>, channel: AudioChannel)
    ensures
        forall|i: int|
            0 <= i < without_channel(v, channel).len() ==> (#[trigger] without_channel(
                v,
                channel,
            )[i]).0 != channel,
        forall|i: int|
            0 <= i < v.len() && (#[trigger] v[i]).0 != channel ==> without_channel(
                v,
                channel,
            ).contains(v[i]),
    decreases v.len(),
{
    if v.len() > 0 {
        let some = v.drop_last();
        lemma_cleared_channel(some, channel);
        let fewer = without_channel(some, channel);
        let all = without_channel(v, channel);
        assert forall|i: int| 0 <= i < v.len() && (#[trigger] v[i]).0 != channel implies
            all.contains(v[i]) by {
            if i < some.len() {
                assert(some[i] == v[i]);
                let k = choose|k: int| 0 <= k < fewer.len() && fewer[k] == v[i];
                assert(all[k] == v[i]);
            } else {
                assert(all[all.len() - 1] == v[i]);
            }
        }
    }
}

/// A translation goes to the first utterance of its number that waits, which is then
/// recorded with it: in its own language, else the one asked for, else an unknown one.
pub proof fn law_translation_completes_the_first(
    v: RendererView,
    t: LiveTranslatedEvent,
    at: int,
    clock: Seq<char>,
    width: nat,
)
    requires
        0 <= at < v.pending.len(),
        v.pending[at].event.seq == t.seq,
        forall|i: int| 0 <= i < at ==> (#[trigger] v.pending[i]).event.seq != t.seq,
    ensures
        ({
            let (after, a) = step(v, LiveEvent::Translated(t), clock, width);
            let lang = match (t.lang, v.dst_lang) {
                (Some(l), _) => l@,
                (None, Some(l)) => l,
                (None, None) => "und"@,
            };
            &&& records(a) == seq![
                EventView { translation: Some((lang, t.text@)), ..v.pending[at].event },
            ]
            &&& after.pending == v.pending.remove(at)
            &&& after.count == v.count + 1
        }),
{
    lemma_waiting_at(v.pending, t.seq, at);
    law_event_records(v, LiveEvent::Translated(t), clock, width);
}

proof fn lemma_waiting_at(p: Seq<CaptionView>, seq: u64, at: int)
    requires
        0 <= at < p.len(),
        p[at].event.seq == seq,
        forall|i: int| 0 <= i < at ==> (#[trigger] p[i]).event.seq != seq,
    ensures
        waiting_at(p, seq) == at,
    decreases p.len(),
{
    if at > 0 {
        assert(p[0].event.seq != seq);
        let rest = p.subrange(1, p.len() as int);
        assert forall|i: int| 0 <= i < at - 1 implies (#[trigger] rest[i]).event.seq != seq by {
            assert(p[i + 1].event.seq != seq);
        }
        lemma_waiting_at(rest, seq, at - 1);
    }
}

proof fn lemma_waiting_nowhere(p: Seq<CaptionView>, seq: u64)
    requires
        forall|i: int| 0 <= i < p.len() ==> (#[trigger] p[i]).event.seq != seq,
    ensures
        waiting_at(p, seq) == p.len(),
    decreases p.len(),
{
    if p.len() > 0 {
        assert(p[0].event.seq != seq);
        let rest = p.subrange(1, p.len() as int);
        assert forall|i: int| 0 <= i < rest.len() implies (#[trigger] rest[i]).event.seq != seq by {
            assert(p[i + 1].event.seq != seq);
        }
        lemma_waiting_nowhere(rest, seq);
    }
}

/// A translation that nothing waits for changes neither the record nor what waits.
pub proof fn law_stray_translation_is_dropped(
    v: RendererView,
    t: LiveTranslatedEvent,
    clock: Seq<char>,
    width: nat,
)
    requires
        forall|i: int| 0 <= i < v.pending.len() ==> (#[trigger] v.pending[i]).event.seq != t.seq,
    ensures
        records(step(v, LiveEvent::Translated(t), clock, width).1).len() == 0,
        step(v, LiveEvent::Translated(t), clock, width).0.pending == v.pending,
        step(v, LiveEvent::Translated(t), clock, width).0.count == v.count,
{
    lemma_waiting_nowhere(v.pending, t.seq);
    law_event_records(v, LiveEvent::Translated(t), clock, width);
}

/// At the end, all that still waits is recorded in its order, without a translation, and
/// the region is gone from the screen.
pub proof fn law_end_shows_what_waits(v: RendererView, clock: Seq<char>, width: nat)
    ensures
        ({
            let (after, a) = step(v, LiveEvent::Eof, clock, width);
            &&& records(a).len() == v.pending.len()
            &&& forall|i: int|
                0 <= i < v.pending.len() ==> #[trigger] records(a)[i] == v.pending[i].event
            &&& after.pending.len() == 0
            &&& after.status is None
            &&& !v.json_mode ==> after.rows == 0
            &&& !v.json_mode && v.pending.len() == 0 && v.rows > 0 ==> a == seq![
                ActionView::Clear(v.rows),
            ]
        }),
{
    law_event_records(v, LiveEvent::Eof, clock, width);
    let quiet = RendererView { status: None, pending: Seq::empty(), ..v };
    lemma_status_kept(quiet, v.pending, width);
    if v.pending.len() == 0 {
        assert(step(v, LiveEvent::Eof, clock, width).1 =~= cleared(quiet));
    }
}

proof fn lemma_status_kept(v: RendererView, p: Seq<CaptionView>, width: nat)
    ensures
        all_committed(v, p, width).0.status == v.status,
        all_committed(v, p, width).0.json_mode == v.json_mode,
    decreases p.len(),
{
    if p.len() > 0 {
        lemma_status_kept(v, p.drop_last(), width);
    }
}

/// A status stands until the next utterance or translation, and only one that tells of a
/// recovery is also told in JSON mode, among the errors.
pub proof fn law_status_is_kept(
    v: RendererView,
    s: LiveStatusEvent,
    clock: Seq<char>,
    width: nat,
)
    ensures
        ({
            let (after, a) = step(v, LiveEvent::Status(s), clock, width);
            &&& after.status == Some((s.phase, s.message@, text::text_of(s.detail)))
            &&& after.pending == v.pending
            &&& after.volatile == v.volatile
            &&& v.json_mode ==> if s.phase == LiveStatusPhase::Recovering {
                a.len() == 1 && (a[0] matches ActionView::Warn(l) && holds(l, s.message@))
            } else {
                a.len() == 0
            }
        }),
{
    let words = render::status_words(s.message@, text::text_of(s.detail));
    let warned = v.tool + ": "@ + words;
    let none = Seq::<char>::empty();
    if words == s.message@ {
        lemma_holds(v.tool + ": "@, s.message@, none);
        assert(v.tool + ": "@ + s.message@ + none =~= warned);
    } else {
        let rest = ": "@ + text::trimmed(s.detail->0@);
        lemma_holds(v.tool + ": "@, s.message@, rest);
        assert(v.tool + ": "@ + s.message@ + rest =~= warned);
    }
    let told = RendererView { status: Some((s.phase, s.message@, text::text_of(s.detail))), ..v };
    if v.json_mode {
        let a = step(v, LiveEvent::Status(s), clock, width).1;
        if s.phase == LiveStatusPhase::Recovering {
            assert(a =~= seq![ActionView::Warn(warned)]);
        } else {
            assert(a =~= Seq::empty());
        }
    }
}

/// The start of a session is told once, and never in JSON mode; it sets the languages and
/// whether channels are labelled.
pub proof fn law_banner_is_printed_once(
    v: RendererView,
    m: LiveMetaEvent,
    clock: Seq<char>,
    width: nat,
)
    ensures
        ({
            let (after, a) = step(v, LiveEvent::Meta(m), clock, width);
            &&& v.json_mode || v.banner_printed ==> a.len() == 0
            &&& !v.json_mode && !v.banner_printed ==> {
                &&& after.banner_printed
                &&& a.len() == m.devices@.len() + 2
                &&& a[0] matches ActionView::Line(l) && holds(l, m.src@) && (m.dst matches Some(
                    d,
                ) ==> holds(l, d@)) && (m.backend@ != "apple"@ ==> holds(l, m.backend@))
                &&& forall|i: int|
                    0 <= i < m.devices@.len() ==> ((#[trigger] a[i + 1]) matches ActionView::Line(
                        l,
                    ) && holds(l, m.devices@[i].name@))
            }
            &&& after.src_lang == m.src@
            &&& after.dst_lang == text::text_of(m.dst)
            &&& after.labelled == (m.mic && m.speaker)
            &&& after.pending == v.pending
            &&& after.count == v.count
        }),
{
    let told = RendererView {
        backend: m.backend@,
        src_lang: m.src@,
        dst_lang: text::text_of(m.dst),
        labelled: m.mic && m.speaker,
        ..v
    };
    if !v.json_mode && !v.banner_printed {
        let a = step(v, LiveEvent::Meta(m), clock, width).1;
        let lines = banner_lines(told, m);
        assert(a == as_lines(lines));
        assert(lines.len() == m.devices@.len() + 2);
        lemma_banner_header(told, m);
        assert(a[0] == ActionView::Line(banner_header(told, m)));
        assert forall|i: int| 0 <= i < m.devices@.len() implies ((
        #[trigger] a[i + 1]) matches ActionView::Line(l) && holds(l, m.devices@[i].name@)) by {
            let d = m.devices@[i];
            assert(lines[i + 1] == device_line(d, m.mic && m.speaker));
            lemma_device_line(d, m.mic && m.speaker);
        }
    }
}

proof fn lemma_device_line(d: LiveDeviceEvent, both: bool)
    ensures
        holds(device_line(d, both), d.name@),
{
    let front = "  "@ + render::painted(
        render::color_of(d.channel),
        filled_to(
            channel_name(d.channel),
            if both {
                7
            } else {
                0
            },
        ),
    ) + "  "@;
    let back = " "@ + render::painted(
        244,
        if d.pinned {
            "[pinned]"@
        } else {
            "(default)"@
        },
    );
    lemma_holds(front, d.name@, back);
    assert(front + d.name@ + back =~= device_line(d, both));
}

proof fn lemma_banner_header(v: RendererView, meta: LiveMetaEvent)
    ensures
        holds(banner_header(v, meta), meta.src@),
        meta.dst matches Some(d) ==> holds(banner_header(v, meta), d@),
        meta.backend@ != "apple"@ ==> holds(banner_header(v, meta), meta.backend@),
{
    let all = banner_header(v, meta);
    let provider = if meta.backend@ == "apple"@ {
        ""@
    } else {
        " via "@ + meta.backend@
    };
    let suffix = if meta.dst is Some {
        " translation"@
    } else {
        ""@
    };
    let start = v.tool + " "@ + v.version + " - listening on "@ + listening_on(
        meta.mic,
        meta.speaker,
    );
    let front = start + provider + suffix + " ("@;
    match meta.dst {
        Some(dst) => {
            lemma_holds(front, meta.src@, " -> "@ + dst@ + ")"@);
            assert(front + meta.src@ + (" -> "@ + dst@ + ")"@) =~= all);
            lemma_holds(front + meta.src@ + " -> "@, dst@, ")"@);
            assert(front + meta.src@ + " -> "@ + dst@ + ")"@ =~= all);
        },
        None => {
            lemma_holds(front, meta.src@, ")"@);
            assert(front + meta.src@ + ")"@ =~= all);
        },
    }
    if meta.backend@ != "apple"@ {
        let langs = match meta.dst {
            Some(dst) => meta.src@ + " -> "@ + dst@,
            None => meta.src@,
        };
        let back = suffix + " ("@ + langs + ")"@;
        lemma_holds(start + " via "@, meta.backend@, back);
        assert(start + " via "@ + meta.backend@ + back =~= all);
    }
}

/// Outside JSON mode, what an event leads to ends with the whole region, drawn anew, and
/// as many rows are remembered as it takes; before it is drawn, the one that stood there
/// is taken back.
pub proof fn law_region_is_drawn_last(
    v: RendererView,
    event: LiveEvent,
    clock: Seq<char>,
    width: nat,
)
    requires
        !v.json_mode,
        !(event is Meta),
        !(event is Eof),
    ensures
        ({
            let (after, a) = step(v, event, clock, width);
            let r = region(after);
            &&& a.len() >= r.len()
            &&& a.skip(a.len() - r.len()) == as_lines(r)
            &&& after.rows == render::capped(rows_in(r, width))
            &&& v.rows > 0 ==> a.contains(ActionView::Clear(v.rows))
        }),
{
    let (after, a) = step(v, event, clock, width);
    match event {
        LiveEvent::Status(s) => {
            let told = RendererView {
                status: Some((s.phase, s.message@, text::text_of(s.detail))),
                ..v
            };
            let below = redrawn(told, width);
            lemma_redrawn_last(told, width);
            assert(a =~= below.1);
        },
        LiveEvent::Volatile(e) => {
            lemma_redrawn_last(
                RendererView { volatile: with_volatile(v.volatile, e.channel, e.text@), ..v },
                width,
            );
        },
        LiveEvent::Finalized(e) => {
            let quiet = RendererView {
                status: None,
                volatile: without_channel(v.volatile, e.channel),
                ..v
            };
            let c = CaptionView { event: e@, clock };
            lemma_committed_last(quiet, c, width);
            lemma_redrawn_last(
                RendererView { pending: quiet.pending.push(c), ..quiet },
                width,
            );
        },
        LiveEvent::Translated(t) => {
            let quiet = RendererView { status: None, ..v };
            let at = waiting_at(v.pending, t.seq);
            lemma_redrawn_last(quiet, width);
            if at < v.pending.len() {
                let c = translated(
                    v.pending[at as int],
                    text::text_of(t.lang),
                    v.dst_lang,
                    t.text@,
                );
                let rest = RendererView { pending: v.pending.remove(at as int), ..quiet };
                let above = committed(rest, c, width);
                let below = redrawn(above.0, width);
                lemma_committed_last(rest, c, width);
                lemma_redrawn_last(above.0, width);
                assert(a == above.1 + below.1);
                let r = region(after);
                assert(a.skip(a.len() - r.len()) =~= below.1.skip(below.1.len() - r.len()));
                if v.rows > 0 {
                    let k = choose|k: int|
                        0 <= k < above.1.len() && above.1[k] == ActionView::Clear(v.rows);
                    assert(a[k] == ActionView::Clear(v.rows));
                }
            }
        },
        _ => {},
    }
}

proof fn lemma_redrawn_last(v: RendererView, width: nat)
    requires
        !v.json_mode,
    ensures
        ({
            let (after, a) = redrawn(v, width);
            let r = region(after);
            &&& a.len() >= r.len()
            &&& a.skip(a.len() - r.len()) == as_lines(r)
            &&& after.rows == render::capped(rows_in(r, width))
            &&& v.rows > 0 ==> a.contains(ActionView::Clear(v.rows))
        }),
{
    let (after, a) = redrawn(v, width);
    let r = region(after);
    assert(r =~= region(v));
    assert(a.skip(a.len() - r.len()) =~= as_lines(r));
    if v.rows > 0 {
        assert(a[0] == ActionView::Clear(v.rows));
    }
}

proof fn lemma_committed_last(v: RendererView, c: CaptionView, width: nat)
    requires
        !v.json_mode,
    ensures
        ({
            let (after, a) = committed(v, c, width);
            let r = region(after);
            &&& a.len() >= r.len()
            &&& a.skip(a.len() - r.len()) == as_lines(r)
            &&& after.rows == render::capped(rows_in(r, width))
            &&& v.rows > 0 ==> a.contains(ActionView::Clear(v.rows))
        }),
{
    law_finished_utterance_is_shown(v, c, width);
    let counted = RendererView { count: v.count + 1, ..v };
    lemma_redrawn_last(wiped(counted), width);
    let (after, a) = committed(v, c, width);
    if v.rows > 0 {
        assert(a[1] == ActionView::Clear(v.rows));
    }
}

/// The region shows every utterance that waits, the status, and what is being said on each
/// channel unless it is blank.
pub proof fn law_region_shows_all(v: RendererView)
    requires
        !v.json_mode,
    ensures
        forall|i: int|
            0 <= i < v.pending.len() ==> exists|k: int|
                0 <= k < region(v).len() && closes(
                    #[trigger] region(v)[k],
                    (#[trigger] v.pending[i]).event.text,
                ),
        v.status matches Some((_, message, _)) ==> exists|k: int|
            0 <= k < region(v).len() && holds(#[trigger] region(v)[k], message),
        forall|i: int|
            0 <= i < v.volatile.len() && text::trimmed((#[trigger] v.volatile[i]).1).len() > 0
                ==> exists|k: int|
                0 <= k < region(v).len() && holds(#[trigger] region(v)[k], v.volatile[i].1),
{
    let waits = pending_lines(v.labelled, v.pending);
    let tells = status_lines(v.labelled, v.status);
    let says = volatile_lines(v.labelled, v.volatile);
    let all = region(v);
    assert(all =~= waits + tells + says);
    assert forall|i: int| 0 <= i < v.pending.len() implies exists|k: int|
        0 <= k < all.len() && closes(
            #[trigger] all[k],
            (#[trigger] v.pending[i]).event.text,
        ) by {
        let k = lemma_pending_lines(v.labelled, v.pending, i);
        assert(all[k] == waits[k]);
    }
    if let Some((_, message, detail)) = v.status {
        let words = render::status_words(message, detail);
        let none = Seq::<char>::empty();
        let back = if words == message {
            none
        } else {
            ": "@ + text::trimmed(detail->0)
        };
        lemma_holds(none, message, back);
        assert(none + message + back =~= words);
        lemma_painted_holds(244, words);
        let front = "\x1b[38;5;"@ + text::decimal(244) + "m"@;
        lemma_holds_more(front, words, "\x1b[0m"@, message);
        assert(front + words + "\x1b[0m"@ =~= render::painted(244, words));
        let pad = text::spaces(source_pad(v.labelled));
        lemma_holds_more(pad, render::painted(244, words), none, message);
        assert(pad + render::painted(244, words) + none =~= tells[0]);
        assert(all[waits.len() as int] == tells[0]);
    }
    assert forall|i: int|
        0 <= i < v.volatile.len() && text::trimmed((#[trigger] v.volatile[i]).1).len()
            > 0 implies exists|k: int|
        0 <= k < all.len() && holds(#[trigger] all[k], v.volatile[i].1) by {
        let k = lemma_volatile_lines(v.labelled, v.volatile, i);
        assert(all[waits.len() + tells.len() + k] == says[k]);
    }
}

proof fn lemma_pending_lines(labelled: bool, p: Seq<CaptionView>, i: int) -> (k: int)
    requires
        0 <= i < p.len(),
    ensures
        0 <= k < pending_lines(labelled, p).len(),
        closes(pending_lines(labelled, p)[k], p[i].event.text),
    decreases p.len(),
{
    let some = p.drop_last();
    let before = pending_lines(labelled, some);
    let last = caption_lines(labelled, p.last());
    let all = pending_lines(labelled, p);
    lemma_caption_lines(labelled, p.last());
    if i == p.len() - 1 {
        assert(all[before.len() as int] == last[0]);
        before.len() as int
    } else {
        let k = lemma_pending_lines(labelled, some, i);
        assert(all[k] == before[k]);
        k
    }
}

proof fn lemma_volatile_lines(labelled: bool, v: Seq<(AudioChannel, Seq<char>)>, i: int) -> (k: int)
    requires
        0 <= i < v.len(),
        text::trimmed(v[i].1).len() > 0,
    ensures
        0 <= k < volatile_lines(labelled, v).len(),
        holds(volatile_lines(labelled, v)[k], v[i].1),
    decreases v.len(),
{
    let some = v.drop_last();
    let before = volatile_lines(labelled, some);
    let all = volatile_lines(labelled, v);
    if i == v.len() - 1 {
        let (channel, said) = v.last();
        let line = volatile_line(labelled, channel, said);
        let none = Seq::<char>::empty();
        lemma_painted_holds(244, said);
        let front = if labelled {
            text::spaces(9) + (render::painted(
                render::color_of(channel),
                render::label_of(channel),
            ) + "  "@) + render::painted(240, "... "@)
        } else {
            text::spaces(11) + ""@ + render::painted(240, "... "@)
        };
        lemma_holds_more(front, render::painted(244, said), none, said);
        assert(front + render::painted(244, said) + none =~= line);
        assert(all[before.len() as int] == line);
        before.len() as int
    } else {
        let k = lemma_volatile_lines(labelled, some, i);
        assert(all[k] == before[k]);
        k
    }
}

} // verus!
