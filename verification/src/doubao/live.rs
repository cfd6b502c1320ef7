//! The provider's live mode: chunk after chunk is recorded and transcribed.
use crate::asr::{
    AsrCapabilities, AsrError, AsrProvider, Duration, LiveAsrOptions, LiveAsrProvider,
    LiveCapabilities, LiveModeKind, ProviderCapabilities, Transcript,
};
#[allow(unused_imports)]
use crate::asr::AsrErrorView;
use crate::doubao::account::DoubaoAsr;
use crate::event::{
    AudioChannel, EventTimestamp, LiveEvent, LiveMetaEvent, LiveStatusEvent, LiveStatusPhase,
    TranscriptEvent, TranscriptSource,
};
use crate::text;
use vstd::prelude::*;
use vstd::string::*;

verus! {

pub const DEFAULT_MODEL: &'static str = "doubaoime-asr";

pub open spec fn live_offer() -> LiveCapabilities {
    LiveCapabilities {
        mode: LiveModeKind::Chunked,
        mic: true,
        speaker: false,
        streaming_audio: false,
        partial_results: false,
        finalized_results: true,
        translation: false,
        voice_processing: false,
        device_selection: false,
        ptt: false,
        requires_network: true,
        expected_latency: Some(Duration { secs: 5, nanos: 0 }),
    }
}

pub fn doubao_live_capabilities() -> (r: LiveCapabilities)
    ensures
        r == live_offer(),
{
    LiveCapabilities {
        mode: LiveModeKind::Chunked,
        mic: true,
        speaker: false,
        streaming_audio: false,
        partial_results: false,
        finalized_results: true,
        translation: false,
        voice_processing: false,
        device_selection: false,
        ptt: false,
        requires_network: true,
        expected_latency: Some(Duration::from_secs(5)),
    }
}

pub fn doubao_capabilities() -> (r: ProviderCapabilities)
    ensures
        r.batch == (AsrCapabilities {
            batch_file: true,
            streaming: false,
            requires_network: true,
        }),
        r.live == Some(live_offer()),
        text::texts(r.notes@) == seq![
            "Doubao credentials can be auto-registered and cached locally."@,
            "Doubao live mode is chunked and emits finalized text only."@,
        ],
{
    let mut notes: Vec<String> = Vec::new();
    notes.push(text::copy("Doubao credentials can be auto-registered and cached locally."));
    notes.push(text::copy("Doubao live mode is chunked and emits finalized text only."));
    assert(text::texts(notes@) =~= seq![
        "Doubao credentials can be auto-registered and cached locally."@,
        "Doubao live mode is chunked and emits finalized text only."@,
    ]);
    ProviderCapabilities {
        batch: AsrCapabilities { batch_file: true, streaming: false, requires_network: true },
        live: Some(doubao_live_capabilities()),
        notes,
    }
}

/// Why the options do not fit the live mode.
pub open spec fn live_options_fault(options: LiveAsrOptions) -> Option<Seq<char>> {
    if !options.mic {
        Some("doubao live mode requires microphone input"@)
    } else if options.speaker {
        Some("doubao live mode does not support speaker capture"@)
    } else if options.dst is Some {
        Some("doubao live mode does not support translation"@)
    } else if options.voice_processing || options.select_device {
        Some("doubao live mode does not support Apple-only capture controls"@)
    } else {
        None
    }
}

pub fn validate_live_options(options: &LiveAsrOptions) -> (r: Result<(), AsrError>)
    ensures
        match live_options_fault(*options) {
            None => r is Ok,
            Some(m) => r is Err && r->Err_0@ == AsrErrorView::Config(m),
        },
{
    if !options.mic {
        return Err(AsrError::Config(text::copy("doubao live mode requires microphone input")));
    }
    if options.speaker {
        return Err(
            AsrError::Config(text::copy("doubao live mode does not support speaker capture")),
        );
    }
    if options.dst.is_some() {
        return Err(AsrError::Config(text::copy("doubao live mode does not support translation")));
    }
    if options.voice_processing || options.select_device {
        return Err(
            AsrError::Config(
                text::copy("doubao live mode does not support Apple-only capture controls"),
            ),
        );
    }
    Ok(())
}

/// A span of time in the prompt of a chunk.
pub fn format_status_duration(duration: Duration) -> (r: String)
    requires
        duration.well_formed(),
    ensures
        r@ == duration.shown(),
{
    duration.show()
}

/// The name of the file that a chunk is recorded to.
pub fn recording_file_name(now_millis: u64) -> (r: String)
    ensures
        r@ == "vo-doubao-live-"@ + text::decimal(now_millis as nat) + ".wav"@,
{
    text::cat3("vo-doubao-live-", text::number(now_millis).as_str(), ".wav")
}

/// A live session: how it goes by its language and by the texts so far.
pub struct DoubaoLive {
    pub src: String,
    pub seq: u64,
}

impl DoubaoLive {
    pub fn new(options: &LiveAsrOptions) -> (r: DoubaoLive)
        ensures
            r.src@ == match options.src {
                Some(s) => s@,
                None => "und"@,
            },
            r.seq == 0,
    {
        let src = match &options.src {
            Some(s) => text::copy(s.as_str()),
            None => text::copy("und"),
        };
        DoubaoLive { src, seq: 0 }
    }

    /// What the session is.
    pub fn meta(&self) -> (r: LiveEvent)
        ensures
            r matches LiveEvent::Meta(m) && m.backend@ == "doubao"@ && m.src@ == self.src@
                && m.dst is None && m.mic && !m.speaker && m.devices@.len() == 0,
    {
        LiveEvent::Meta(
            LiveMetaEvent {
                backend: text::copy("doubao"),
                src: text::copy(self.src.as_str()),
                dst: None,
                mic: true,
                speaker: false,
                devices: Vec::new(),
            },
        )
    }

    /// That a chunk is being recorded.
    pub fn recording(chunk: Duration) -> (r: LiveEvent)
        requires
            chunk.well_formed(),
        ensures
            r matches LiveEvent::Status(s) && s.says(
                LiveStatusPhase::Recording,
                "recording "@ + chunk.shown() + " chunk"@,
                None,
            ),
    {
        let message = text::cat3("recording ", chunk.show().as_str(), " chunk");
        LiveEvent::Status(
            LiveStatusEvent::new(LiveStatusPhase::Recording, message.as_str(), None),
        )
    }

    /// That a chunk is being transcribed.
    pub fn transcribing() -> (r: LiveEvent)
        ensures
            r matches LiveEvent::Status(s) && s.says(
                LiveStatusPhase::Transcribing,
                "transcribing chunk"@,
                None,
            ),
    {
        LiveEvent::Status(
            LiveStatusEvent::new(LiveStatusPhase::Transcribing, "transcribing chunk", None),
        )
    }

    /// What came of a chunk: its text, nothing where it is blank, or the notice that
    /// the session goes on without it.
    pub fn chunk_done(
        &mut self,
        outcome: Result<Transcript, AsrError>,
        timestamp: EventTimestamp,
    ) -> (r: Option<LiveEvent>)
        requires
            old(self).seq < u64::MAX,
        ensures
            final(self).src@ == old(self).src@,
            match outcome {
                Ok(t) => if text::trimmed(t.text@).len() > 0 {
                    &&& final(self).seq == old(self).seq + 1
                    &&& r matches Some(LiveEvent::Finalized(e))
                    &&& e.seq == old(self).seq
                    &&& e.channel == AudioChannel::Mic
                    &&& e.timestamp == timestamp
                    &&& e.audio is None
                    &&& e.src.lang@ == match t.language {
                        Some(l) => l@,
                        None => old(self).src@,
                    }
                    &&& e.src.text@ == text::trimmed(t.text@)
                    &&& e.src.confidence is None
                    &&& e.dst is None
                } else {
                    final(self).seq == old(self).seq && r is None
                },
                Err(e) => {
                    &&& final(self).seq == old(self).seq
                    &&& r matches Some(LiveEvent::Status(s))
                    &&& s.phase == LiveStatusPhase::Recovering
                    &&& s.message@ == "chunk failed; continuing"@
                    &&& s.detail is Some
                    &&& s.detail->0@ == e.words()
                },
            },
            (final(self).seq as nat, told(r)) == after_chunk(
                old(self).src@,
                old(self).seq as nat,
                outcome_of(outcome),
            ),
    {
        match outcome {
            Ok(transcript) => {
                let found = text::trim(transcript.text.as_str());
                if found.as_str().is_empty() {
                    return None;
                }
                let lang = match transcript.language {
                    Some(l) => l,
                    None => text::copy(self.src.as_str()),
                };
                let seq = self.seq;
                self.seq = self.seq + 1;
                Some(
                    LiveEvent::Finalized(
                        TranscriptEvent {
                            seq,
                            channel: AudioChannel::Mic,
                            timestamp,
                            audio: None,
                            src: TranscriptSource { lang, text: found, confidence: None },
                            dst: None,
                        },
                    ),
                )
            },
            Err(e) => Some(
                LiveEvent::Status(
                    LiveStatusEvent::new(
                        LiveStatusPhase::Recovering,
                        "chunk failed; continuing",
                        Some(e.message()),
                    ),
                ),
            ),
        }
    }
}

impl AsrProvider for DoubaoAsr {
    open spec fn called(&self) -> Seq<char> {
        "doubao"@
    }

    open spec fn offers(&self) -> AsrCapabilities {
        AsrCapabilities { batch_file: true, streaming: false, requires_network: true }
    }

    fn name(&self) -> &'static str {
        "doubao"
    }

    fn capabilities(&self) -> AsrCapabilities {
        doubao_capabilities().batch
    }

    fn provider_capabilities(&self) -> (r: ProviderCapabilities)
        ensures
            r.live == Some(live_offer()),
            text::texts(r.notes@) == seq![
                "Doubao credentials can be auto-registered and cached locally."@,
                "Doubao live mode is chunked and emits finalized text only."@,
            ],
    {
        doubao_capabilities()
    }
}

impl LiveAsrProvider for DoubaoAsr {
    open spec fn called_live(&self) -> Seq<char> {
        "doubao"@
    }

    open spec fn offers_live(&self) -> LiveCapabilities {
        live_offer()
    }

    fn live_name(&self) -> &'static str {
        "doubao"
    }

    fn live_capabilities(&self) -> LiveCapabilities {
        doubao_live_capabilities()
    }
}

/// The live mode takes the microphone alone, in the language spoken, with no control of
/// the capture, and nothing else stands in its way.
pub proof fn law_live_mode_takes_the_microphone_alone(options: LiveAsrOptions)
    ensures
        live_options_fault(options) is None <==> options.mic && !options.speaker && options.dst
            is None && !options.voice_processing && !options.select_device,
{
}

/// What was made of a chunk: its text with its language where it has one, or why it failed.
pub enum ChunkOutcome {
    Heard { text: Seq<char>, language: Option<Seq<char>> },
    Failed(Seq<char>),
}

pub open spec fn outcome_of(outcome: Result<Transcript, AsrError>) -> ChunkOutcome {
    match outcome {
        Ok(t) => ChunkOutcome::Heard { text: t.text@, language: text::text_of(t.language) },
        Err(e) => ChunkOutcome::Failed(e.words()),
    }
}

/// What is told of a chunk.
pub enum ChunkTold {
    Nothing,
    Text { seq: nat, lang: Seq<char>, text: Seq<char> },
    Trouble { phase: LiveStatusPhase, detail: Option<Seq<char>> },
    Other,
}

pub open spec fn told(event: Option<LiveEvent>) -> ChunkTold {
    match event {
        None => ChunkTold::Nothing,
        Some(LiveEvent::Finalized(e)) => ChunkTold::Text {
            seq: e.seq as nat,
            lang: e.src.lang@,
            text: e.src.text@,
        },
        Some(LiveEvent::Status(s)) => ChunkTold::Trouble {
            phase: s.phase,
            detail: text::text_of(s.detail),
        },
        _ => ChunkTold::Other,
    }
}

/// The number of the next text after a chunk, and what is told of the chunk.
pub open spec fn after_chunk(src: Seq<char>, seq: nat, outcome: ChunkOutcome) -> (nat, ChunkTold) {
    match outcome {
        ChunkOutcome::Heard { text: said, language } => if text::trimmed(said).len() > 0 {
            (
                seq + 1,
                ChunkTold::Text {
                    seq,
                    lang: match language {
                        Some(l) => l,
                        None => src,
                    },
                    text: text::trimmed(said),
                },
            )
        } else {
            (seq, ChunkTold::Nothing)
        },
        ChunkOutcome::Failed(why) => (
            seq,
            ChunkTold::Trouble { phase: LiveStatusPhase::Recovering, detail: Some(why) },
        ),
    }
}

/// The same of chunk after chunk, from the start of a session.
pub open spec fn after_chunks(src: Seq<char>, outcomes: Seq<ChunkOutcome>) -> (nat, Seq<ChunkTold>)
    decreases outcomes.len(),
{
    if outcomes.len() == 0 {
        (0, Seq::empty())
    } else {
        let before = after_chunks(src, outcomes.drop_last());
        let last = after_chunk(src, before.0, outcomes.last());
        (last.0, before.1.push(last.1))
    }
}

/// How many of the chunks have a text.
pub open spec fn spoken(outcomes: Seq<ChunkOutcome>) -> nat
    decreases outcomes.len(),
{
    if outcomes.len() == 0 {
        0
    } else {
        spoken(outcomes.drop_last()) + if outcomes.last() matches ChunkOutcome::Heard {
            text: said,
            ..
        } && text::trimmed(said).len() > 0 {
            1nat
        } else {
            0
        }
    }
}

/// Every chunk with a text is told, trimmed and in its language, and the texts are numbered
/// one by one from zero; a blank chunk is passed over, and one that fails neither ends the
/// session nor takes a number.
pub proof fn law_each_spoken_chunk_is_told(src: Seq<char>, outcomes: Seq<ChunkOutcome>, i: int)
    requires
        0 <= i < outcomes.len(),
    ensures
        after_chunks(src, outcomes).1.len() == outcomes.len(),
        match outcomes[i] {
            ChunkOutcome::Heard { text: said, language } => if text::trimmed(said).len() > 0 {
                after_chunks(src, outcomes).1[i] == (ChunkTold::Text {
                    seq: spoken(outcomes.take(i)),
                    lang: match language {
                        Some(l) => l,
                        None => src,
                    },
                    text: text::trimmed(said),
                })
            } else {
                after_chunks(src, outcomes).1[i] is Nothing
            },
            ChunkOutcome::Failed(why) => after_chunks(src, outcomes).1[i] == (ChunkTold::Trouble {
                phase: LiveStatusPhase::Recovering,
                detail: Some(why),
            }),
        },
    decreases outcomes.len(),
{
    let n = outcomes.len() - 1;
    let front = outcomes.drop_last();
    lemma_numbers(src, outcomes);
    lemma_numbers(src, front);
    assert(outcomes.last() == outcomes[n]);
    if i < n {
        law_each_spoken_chunk_is_told(src, front, i);
        assert(front[i] == outcomes[i]);
        assert(front.take(i) =~= outcomes.take(i));
    } else {
        assert(outcomes.take(n) =~= front);
    }
}

proof fn lemma_numbers(src: Seq<char>, outcomes: Seq<ChunkOutcome>)
    ensures
        after_chunks(src, outcomes).0 == spoken(outcomes),
        after_chunks(src, outcomes).1.len() == outcomes.len(),
    decreases outcomes.len(),
{
    if outcomes.len() > 0 {
        lemma_numbers(src, outcomes.drop_last());
    }
}

} // verus!
