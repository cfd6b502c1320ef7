//! Voice endpoints: where an utterance begins and where it ends.
//!
//! A detector scores frames of audio. Enough speech in a row begins an utterance,
//! which then starts with the audio just before; enough silence, or its greatest
//! length, ends it.
use std::collections::VecDeque;
use vstd::prelude::*;

verus! {

pub const VOICE_ENDPOINT_SAMPLE_RATE: u32 = 16_000;

pub const EARSHOT_VAD_FRAME_SAMPLES: usize = 256;

/// A score or a threshold: the bit pattern of a single-precision float.
#[derive(Debug, Clone, Copy, PartialEq, Eq, Structural)]
pub struct Score {
    pub bits: u32,
}

/// The bit patterns of 0.5 and of 1.
pub const HALF_BITS: u32 = 0x3f00_0000;

pub const ONE_BITS: u32 = 0x3f80_0000;

impl Score {
    /// An integer that orders scores as their values do; none for what is not a number.
    /// Both zeros have the same.
    pub open spec fn rank(self) -> Option<int> {
        if self.bits < 0x8000_0000 {
            if self.bits > 0x7f80_0000 {
                None
            } else {
                Some(self.bits as int)
            }
        } else if self.bits > 0xff80_0000 {
            None
        } else {
            Some(0x8000_0000 - self.bits)
        }
    }

    /// The rank of the score confined to the range from 0 to 1.
    pub open spec fn clamped_rank(self) -> Option<int> {
        match self.rank() {
            None => None,
            Some(n) => Some(
                if n < 0 {
                    0
                } else if n > ONE_BITS {
                    ONE_BITS as int
                } else {
                    n
                },
            ),
        }
    }

    pub open spec fn reaches(self, other: Score) -> bool {
        self.rank() is Some && other.rank() is Some && self.rank()->0 >= other.rank()->0
    }

    /// The score confined to the range from 0 to 1; what is not a number stays.
    pub open spec fn confined(self) -> Score {
        match self.rank() {
            None => self,
            Some(n) => if n < 0 {
                Score { bits: 0 }
            } else if n > ONE_BITS {
                Score { bits: ONE_BITS }
            } else {
                self
            },
        }
    }

    pub fn clamped(self) -> (r: Score)
        ensures
            r == self.confined(),
            r.rank() == self.clamped_rank(),
    {
        if self.bits < 0x8000_0000 {
            if self.bits > ONE_BITS && self.bits <= 0x7f80_0000 {
                Score { bits: ONE_BITS }
            } else {
                self
            }
        } else if self.bits > 0xff80_0000 || self.bits == 0x8000_0000 {
            self
        } else {
            Score { bits: 0 }
        }
    }

    fn order(self) -> (r: Option<i64>)
        ensures
            match r {
                Some(n) => self.rank() == Some(n as int),
                None => self.rank() is None,
            },
    {
        if self.bits < 0x8000_0000 {
            if self.bits > 0x7f80_0000 {
                None
            } else {
                Some(self.bits as i64)
            }
        } else if self.bits > 0xff80_0000 {
            None
        } else {
            Some(0x8000_0000 - self.bits as i64)
        }
    }

    /// Whether the score is at least `other`: never where one is not a number.
    pub fn at_least(self, other: Score) -> (r: bool)
        ensures
            r == self.reaches(other),
    {
        match (self.order(), other.order()) {
            (Some(a), Some(b)) => a >= b,
            _ => false,
        }
    }
}

#[derive(Debug, Clone, Copy, PartialEq, Eq, Structural)]
pub struct VoiceEndpointConfig {
    pub sample_rate: u32,
    pub speech_threshold: Score,
    pub start_confirm_ms: u64,
    pub start_padding_ms: u64,
    pub end_silence_ms: u64,
    pub max_utterance_ms: u64,
}

impl Default for VoiceEndpointConfig {
    fn default() -> (r: Self)
        ensures
            r == (VoiceEndpointConfig {
                sample_rate: VOICE_ENDPOINT_SAMPLE_RATE,
                speech_threshold: Score { bits: HALF_BITS },
                start_confirm_ms: 160,
                start_padding_ms: 300,
                end_silence_ms: 900,
                max_utterance_ms: 30_000,
            }),
    {
        VoiceEndpointConfig {
            sample_rate: VOICE_ENDPOINT_SAMPLE_RATE,
            speech_threshold: Score { bits: HALF_BITS },
            start_confirm_ms: 160,
            start_padding_ms: 300,
            end_silence_ms: 900,
            max_utterance_ms: 30_000,
        }
    }
}

/// How many samples a span of time has.
pub open spec fn span(sample_rate: int, ms: int) -> int {
    (sample_rate * ms) / 1000
}

/// The samples of the span can be counted.
pub open spec fn countable(sample_rate: u32, ms: u64) -> bool {
    sample_rate * ms <= u64::MAX && span(sample_rate as int, ms as int) <= usize::MAX
}

pub fn samples_for_ms(sample_rate: u32, ms: u64) -> (r: usize)
    requires
        countable(sample_rate, ms),
    ensures
        r == span(sample_rate as int, ms as int),
{
    ((sample_rate as u64 * ms) / 1000) as usize
}

impl VoiceEndpointConfig {
    /// The spans of the configuration can be counted at that rate.
    pub open spec fn fits(self, rate: u32) -> bool {
        &&& countable(rate, self.start_confirm_ms)
        &&& countable(rate, self.start_padding_ms)
        &&& countable(rate, self.end_silence_ms)
        &&& countable(rate, self.max_utterance_ms)
    }
}

/// A frame that a detector was asked about, and the score that it gave.
#[verifier::ext_equal]
pub struct Asked {
    pub frame: Seq<i16>,
    pub update_background: bool,
    pub score: Score,
}

/// A voice activity detector. The functions without code say what it heard and by
/// which rule it answers; they are there for detectors that are proved, and any other
/// may leave them as they are.
pub trait VoiceActivityDetector: Sized {
    /// What it was asked since it was made, or last reset, and what it said.
    open spec fn history(&self) -> Seq<Asked> {
        Seq::empty()
    }

    /// The answers that it may give: the last one, after those before it.
    open spec fn answers(&self, before: Seq<Asked>, now: Asked) -> bool {
        true
    }

    /// Its history is what it heard.
    open spec fn faithful(&self) -> bool {
        true
    }

    /// The rate that it wants.
    open spec fn rate(&self) -> u32 {
        0
    }

    /// The size of a frame that it wants.
    open spec fn frame_size(&self) -> usize {
        0
    }

    fn sample_rate(&self) -> (r: u32)
        ensures
            r == self.rate(),
    ;

    fn frame_samples(&self) -> (r: usize)
        ensures
            r == self.frame_size(),
    ;

    fn predict_i16(&mut self, frame: &[i16], update_background: bool) -> (r: Score)
        ensures
            final(self).history() == old(self).history().push(
                Asked { frame: frame@, update_background, score: r },
            ),
            old(self).answers(
                old(self).history(),
                Asked { frame: frame@, update_background, score: r },
            ),
            old(self).faithful() ==> final(self).faithful(),
            forall|before: Seq<Asked>, now: Asked| #[trigger]
                final(self).answers(before, now) == old(self).answers(before, now),
    ;

    fn reset(&mut self)
        ensures
            final(self).history() == Seq::<Asked>::empty(),
            final(self).faithful(),
            forall|before: Seq<Asked>, now: Asked| #[trigger]
                final(self).answers(before, now) == old(self).answers(before, now),
    ;
}

/// Both detectors answer by the same rule.
pub open spec fn same_rule<D: VoiceActivityDetector>(a: D, b: D) -> bool {
    forall|before: Seq<Asked>, now: Asked| #[trigger]
        b.answers(before, now) == a.answers(before, now)
}

/// The answer to a frame follows from what was heard before.
pub open spec fn decided<D: VoiceActivityDetector>(d: D) -> bool {
    forall|before: Seq<Asked>, a: Asked, b: Asked| #[trigger]
        d.answers(before, a) && #[trigger] d.answers(before, b) && a.frame == b.frame
            && a.update_background == b.update_background ==> a.score == b.score
}

#[verifier::external_type_specification]
#[verifier::external_body]
#[verifier::reject_recursive_types(P)]
pub struct ExDetector<P>(earshot::Detector<P>);

#[verifier::external_type_specification]
#[verifier::external_body]
pub struct ExDefaultPredictor(earshot::DefaultPredictor);

/// The frames that a detector of earshot has scored since it was made, or last reset,
/// each with the bit pattern of its score.
pub uninterp spec fn heard_by(
    detector: earshot::Detector<earshot::DefaultPredictor>,
) -> Seq<(Seq<i16>, u32)>;

/// `earshot::Detector::default_boxed`: a detector that has heard nothing.
#[verifier::external_body]
fn fresh_detector() -> (r: Box<earshot::Detector<earshot::DefaultPredictor>>)
    ensures
        heard_by(*r) == Seq::<(Seq<i16>, u32)>::empty(),
{
    earshot::Detector::default_boxed()
}

/// `earshot::Detector::predict_i16`, its score as a bit pattern: the detector has heard
/// the frame, and gave it that score. Which score it is rests on all the frames that
/// the detector has heard, and on floating-point functions of std whose precision is
/// left to the platform, so nothing more is said of it. The detector takes frames of
/// 256 samples only.
#[verifier::external_body]
fn detector_score(
    detector: &mut Box<earshot::Detector<earshot::DefaultPredictor>>,
    frame: &[i16],
) -> (r: Score)
    requires
        frame@.len() == EARSHOT_VAD_FRAME_SAMPLES,
    ensures
        heard_by(**final(detector)) == heard_by(**old(detector)).push((frame@, r.bits)),
{
    Score { bits: detector.predict_i16(frame).to_bits() }
}

/// `earshot::Detector::reset`: the detector forgets what it has heard.
#[verifier::external_body]
fn detector_reset(detector: &mut Box<earshot::Detector<earshot::DefaultPredictor>>)
    ensures
        heard_by(**final(detector)) == Seq::<(Seq<i16>, u32)>::empty(),
{
    detector.reset()
}

/// The detector of the earshot crate.
pub struct EarshotVadDetector {
    detector: Box<earshot::Detector<earshot::DefaultPredictor>>,
    asked: Ghost<Seq<Asked>>,
}

/// The answers go back to what was heard: a frame of the right size has the score that
/// was given to it, confined to the range from 0 to 1, and any other has 0.
pub open spec fn grounded(asked: Seq<Asked>, heard: Seq<(Seq<i16>, u32)>) -> bool
    decreases asked.len(),
{
    if asked.len() == 0 {
        heard.len() == 0
    } else if asked.last().frame.len() == EARSHOT_VAD_FRAME_SAMPLES {
        &&& heard.len() > 0
        &&& heard.last().0 == asked.last().frame
        &&& asked.last().score.rank() == (Score { bits: heard.last().1 }).clamped_rank()
        &&& grounded(asked.drop_last(), heard.drop_last())
    } else {
        asked.last().score.rank() == Some(0int) && grounded(asked.drop_last(), heard)
    }
}

impl EarshotVadDetector {
    /// The frames that the detector of earshot has scored, with the bit patterns.
    pub closed spec fn heard(&self) -> Seq<(Seq<i16>, u32)> {
        heard_by(*self.detector)
    }

    pub fn new() -> (r: EarshotVadDetector)
        ensures
            r.heard() == Seq::<(Seq<i16>, u32)>::empty(),
            r.history() == Seq::<Asked>::empty(),
            r.faithful(),
    {
        EarshotVadDetector { detector: fresh_detector(), asked: Ghost(Seq::empty()) }
    }
}

impl VoiceActivityDetector for EarshotVadDetector {
    closed spec fn history(&self) -> Seq<Asked> {
        self.asked@
    }

    /// A score is confined to the range from 0 to 1, and that of a frame of the wrong
    /// size is 0.
    open spec fn answers(&self, before: Seq<Asked>, now: Asked) -> bool {
        &&& now.score.rank() is Some ==> 0 <= now.score.rank()->0 <= ONE_BITS
        &&& now.frame.len() != EARSHOT_VAD_FRAME_SAMPLES ==> now.score.rank() == Some(0int)
    }

    open spec fn faithful(&self) -> bool {
        grounded(self.history(), self.heard())
    }

    open spec fn rate(&self) -> u32 {
        VOICE_ENDPOINT_SAMPLE_RATE
    }

    open spec fn frame_size(&self) -> usize {
        EARSHOT_VAD_FRAME_SAMPLES
    }

    fn sample_rate(&self) -> u32 {
        VOICE_ENDPOINT_SAMPLE_RATE
    }

    fn frame_samples(&self) -> usize {
        EARSHOT_VAD_FRAME_SAMPLES
    }

    /// The score of a frame; that of a frame of another size is negative, which
    /// confines it to 0.
    fn predict_i16(&mut self, frame: &[i16], update_background: bool) -> (r: Score)
        ensures
            frame@.len() == EARSHOT_VAD_FRAME_SAMPLES ==> {
                let heard = final(self).heard();
                &&& heard.len() == old(self).heard().len() + 1
                &&& heard == old(self).heard().push((frame@, heard.last().1))
                &&& r.rank() == (Score { bits: heard.last().1 }).clamped_rank()
            },
            frame@.len() != EARSHOT_VAD_FRAME_SAMPLES ==> final(self).heard() == old(
                self,
            ).heard() && r.rank() == Some(0int),
    {
        let score = if frame.len() != EARSHOT_VAD_FRAME_SAMPLES {
            Score { bits: 0 }
        } else {
            detector_score(&mut self.detector, frame).clamped()
        };
        proof {
            self.asked@ = self.asked@.push(Asked { frame: frame@, update_background, score });
            assert(self.asked@.drop_last() =~= old(self).asked@);
            if frame@.len() == EARSHOT_VAD_FRAME_SAMPLES {
                assert(self.heard().drop_last() =~= old(self).heard());
            }
        }
        score
    }

    fn reset(&mut self)
        ensures
            final(self).heard() == Seq::<(Seq<i16>, u32)>::empty(),
    {
        detector_reset(&mut self.detector);
        proof {
            self.asked@ = Seq::empty();
        }
    }
}

#[derive(Debug, Clone, PartialEq, Eq)]
pub enum VoiceEndpointAction {
    Start,
    Audio(Vec<i16>),
    Stop,
}

pub enum ActionView {
    Start,
    Audio(Seq<i16>),
    Stop,
}

impl View for VoiceEndpointAction {
    type V = ActionView;

    open spec fn view(&self) -> ActionView {
        match self {
            VoiceEndpointAction::Start => ActionView::Start,
            VoiceEndpointAction::Audio(a) => ActionView::Audio(a@),
            VoiceEndpointAction::Stop => ActionView::Stop,
        }
    }
}

pub open spec fn actions_of(v: Seq<VoiceEndpointAction>) -> Seq<ActionView> {
    Seq::new(v.len(), |i: int| v[i]@)
}

/// The spans that decide, in samples.
pub struct Limits {
    pub padding: int,
    pub confirm: int,
    pub silence: int,
    pub longest: int,
}

/// A count that stops at the largest number.
pub open spec fn counted(n: int, more: int) -> int {
    if n + more > u64::MAX {
        u64::MAX as int
    } else {
        n + more
    }
}

/// The last `n` samples.
pub open spec fn tail(s: Seq<i16>, n: int) -> Seq<i16> {
    if s.len() <= n {
        s
    } else {
        s.subrange(s.len() - n, s.len() as int)
    }
}

/// Where the endpoint stands between two frames.
#[verifier::ext_equal]
pub struct Phase {
    pub in_speech: bool,
    /// The audio just before, while nothing is spoken.
    pub pre_roll: Seq<i16>,
    /// The samples of speech in a row, while nothing is spoken.
    pub streak: int,
    /// The samples of silence in a row, while something is spoken.
    pub silence: int,
    /// The samples of the utterance.
    pub spoken: int,
}

impl Phase {
    pub open spec fn quiet() -> Phase {
        Phase { in_speech: false, pre_roll: Seq::empty(), streak: 0, silence: 0, spoken: 0 }
    }

    /// What a frame leads to, and what is to be done.
    pub open spec fn step(self, l: Limits, frame: Seq<i16>, speech: bool) -> (
        Phase,
        Seq<ActionView>,
    ) {
        if self.in_speech {
            let spoken = counted(self.spoken, frame.len() as int);
            let silence = if speech {
                0
            } else {
                counted(self.silence, frame.len() as int)
            };
            if silence >= l.silence || spoken >= l.longest {
                (Phase::quiet(), seq![ActionView::Audio(frame), ActionView::Stop])
            } else {
                (Phase { spoken, silence, ..self }, seq![ActionView::Audio(frame)])
            }
        } else {
            let roll = tail(self.pre_roll + frame, l.padding);
            let streak = if speech {
                counted(self.streak, frame.len() as int)
            } else {
                0
            };
            if streak < l.confirm {
                (Phase { pre_roll: roll, streak, ..self }, Seq::empty())
            } else {
                (
                    Phase {
                        in_speech: true,
                        pre_roll: Seq::empty(),
                        streak,
                        silence: 0,
                        spoken: roll.len() as int,
                    },
                    seq![ActionView::Start, ActionView::Audio(roll)],
                )
            }
        }
    }

    /// What a run of frames leads to, each with whether it is speech.
    pub open spec fn run(self, l: Limits, frames: Seq<(Seq<i16>, bool)>) -> (
        Phase,
        Seq<ActionView>,
    )
        decreases frames.len(),
    {
        if frames.len() == 0 {
            (self, Seq::empty())
        } else {
            let (before, done) = self.run(l, frames.drop_last());
            let (after, more) = before.step(l, frames.last().0, frames.last().1);
            (after, done + more)
        }
    }
}

/// The part of a voice endpoint that decides, without a detector.
pub struct EndpointCore {
    config: VoiceEndpointConfig,
    pre_roll: VecDeque<i16>,
    in_speech: bool,
    speech_streak_samples: u64,
    silence_samples: u64,
    utterance_samples: u64,
}

impl EndpointCore {
    pub closed spec fn well_formed(&self) -> bool {
        &&& self.config.sample_rate >= 1
        &&& self.config.fits(self.config.sample_rate)
    }

    pub closed spec fn limits(&self) -> Limits {
        let rate = self.config.sample_rate as int;
        Limits {
            padding: span(rate, self.config.start_padding_ms as int),
            confirm: span(rate, self.config.start_confirm_ms as int),
            silence: span(rate, self.config.end_silence_ms as int),
            longest: span(rate, self.config.max_utterance_ms as int),
        }
    }

    /// The score from which a frame is speech.
    pub closed spec fn threshold(&self) -> Score {
        self.config.speech_threshold
    }

    pub closed spec fn phase(&self) -> Phase {
        Phase {
            in_speech: self.in_speech,
            pre_roll: self.pre_roll@,
            streak: self.speech_streak_samples as int,
            silence: self.silence_samples as int,
            spoken: self.utterance_samples as int,
        }
    }

    /// The core for a configuration; a rate of 0 stands for that of the detector,
    /// and the threshold is confined to the range from 0 to 1.
    pub fn new(config: VoiceEndpointConfig, detector_rate: u32) -> (r: EndpointCore)
        requires
            config.fits(rate_for(config, detector_rate)),
        ensures
            r.well_formed(),
            r.phase() == Phase::quiet(),
            r.threshold() == config.speech_threshold.confined(),
            r.threshold().rank() == config.speech_threshold.clamped_rank(),
            r.limits() == limits_for(config, rate_for(config, detector_rate)),
    {
        let rate: u32 = if config.sample_rate == 0 {
            detector_rate
        } else {
            config.sample_rate
        };
        let rate: u32 = if rate == 0 {
            1
        } else {
            rate
        };
        let config = VoiceEndpointConfig {
            sample_rate: rate,
            speech_threshold: config.speech_threshold.clamped(),
            start_confirm_ms: config.start_confirm_ms,
            start_padding_ms: config.start_padding_ms,
            end_silence_ms: config.end_silence_ms,
            max_utterance_ms: config.max_utterance_ms,
        };
        EndpointCore {
            config,
            pre_roll: VecDeque::new(),
            in_speech: false,
            speech_streak_samples: 0,
            silence_samples: 0,
            utterance_samples: 0,
        }
    }

    /// Whether something is being spoken.
    pub fn speaking(&self) -> (r: bool)
        ensures
            r == self.phase().in_speech,
    {
        self.in_speech
    }

    pub fn is_speech_score(&self, score: Score) -> (r: bool)
        ensures
            r == score.reaches(self.threshold()),
    {
        score.at_least(self.config.speech_threshold)
    }

    fn push_pre_roll(&mut self, frame: &Vec<i16>)
        requires
            old(self).well_formed(),
        ensures
            final(self).well_formed(),
            final(self).config == old(self).config,
            final(self).phase() == (Phase {
                pre_roll: tail(old(self).phase().pre_roll + frame@, old(self).limits().padding),
                ..old(self).phase()
            }),
    {
        let ghost start = self.pre_roll@;
        let mut i: usize = 0;
        assert(start + frame@.take(0) =~= start);
        while i < frame.len()
            invariant
                i <= frame@.len(),
                self.pre_roll@ == start + frame@.take(i as int),
                self.config == old(self).config,
                self.in_speech == old(self).in_speech,
                self.speech_streak_samples == old(self).speech_streak_samples,
                self.silence_samples == old(self).silence_samples,
                self.utterance_samples == old(self).utterance_samples,
            decreases frame@.len() - i,
        {
            self.pre_roll.push_back(frame[i]);
            assert(start + frame@.take(i + 1) =~= (start + frame@.take(i as int)).push(
                frame@[i as int],
            ));
            i = i + 1;
        }
        assert(frame@.take(frame@.len() as int) =~= frame@);
        let max = samples_for_ms(self.config.sample_rate, self.config.start_padding_ms);
        let ghost all = self.pre_roll@;
        assert(all.subrange(0, all.len() as int) =~= all);
        while self.pre_roll.len() > max
            invariant
                self.pre_roll@.len() <= all.len(),
                self.pre_roll@ == all.subrange(all.len() - self.pre_roll@.len(), all.len() as int),
                self.pre_roll@.len() >= max || self.pre_roll@.len() == all.len(),
                self.config == old(self).config,
                self.in_speech == old(self).in_speech,
                self.speech_streak_samples == old(self).speech_streak_samples,
                self.silence_samples == old(self).silence_samples,
                self.utterance_samples == old(self).utterance_samples,
            decreases self.pre_roll@.len(),
        {
            let ghost before = self.pre_roll@;
            let _ = self.pre_roll.pop_front();
            assert(self.pre_roll@ =~= all.subrange(
                all.len() - self.pre_roll@.len(),
                all.len() as int,
            ));
        }
    }

    fn take_pre_roll(&mut self) -> (r: Vec<i16>)
        ensures
            r@ == old(self).phase().pre_roll,
            final(self).config == old(self).config,
            final(self).phase() == (Phase { pre_roll: Seq::empty(), ..old(self).phase() }),
    {
        let mut r: Vec<i16> = Vec::new();
        let mut i: usize = 0;
        let n: usize = self.pre_roll.len();
        while i < n
            invariant
                i <= n,
                n == self.pre_roll@.len(),
                r@ == self.pre_roll@.take(i as int),
            decreases n - i,
        {
            r.push(self.pre_roll[i]);
            assert(self.pre_roll@.take(i + 1) =~= self.pre_roll@.take(i as int).push(
                self.pre_roll@[i as int],
            ));
            i = i + 1;
        }
        assert(self.pre_roll@.take(n as int) =~= self.pre_roll@);
        self.pre_roll.clear();
        r
    }

    /// Ends the utterance, if there is one, and forgets what led to it.
    pub fn reset_utterance(&mut self)
        requires
            old(self).well_formed(),
        ensures
            final(self).well_formed(),
            final(self).limits() == old(self).limits(),
            final(self).threshold() == old(self).threshold(),
            final(self).phase() == Phase::quiet(),
    {
        self.in_speech = false;
        self.speech_streak_samples = 0;
        self.silence_samples = 0;
        self.utterance_samples = 0;
        self.pre_roll.clear();
    }

    /// Takes one frame, `speech` saying whether it is speech.
    pub fn push_frame(&mut self, frame: Vec<i16>, speech: bool) -> (r: Vec<VoiceEndpointAction>)
        requires
            old(self).well_formed(),
        ensures
            final(self).well_formed(),
            final(self).limits() == old(self).limits(),
            final(self).threshold() == old(self).threshold(),
            final(self).phase() == old(self).phase().step(old(self).limits(), frame@, speech).0,
            actions_of(r@) == old(self).phase().step(old(self).limits(), frame@, speech).1,
    {
        let ghost wanted = self.phase().step(self.limits(), frame@, speech);
        let samples: u64 = frame.len() as u64;
        let mut r: Vec<VoiceEndpointAction> = Vec::new();
        if self.in_speech {
            self.utterance_samples = self.utterance_samples.saturating_add(samples);
            if speech {
                self.silence_samples = 0;
            } else {
                self.silence_samples = self.silence_samples.saturating_add(samples);
            }
            let silence = samples_for_ms(self.config.sample_rate, self.config.end_silence_ms);
            let longest = samples_for_ms(self.config.sample_rate, self.config.max_utterance_ms);
            r.push(VoiceEndpointAction::Audio(frame));
            if self.silence_samples >= silence as u64 || self.utterance_samples >= longest as u64 {
                self.reset_utterance();
                r.push(VoiceEndpointAction::Stop);
            }
            assert(actions_of(r@) =~= wanted.1);
            return r;
        }
        self.push_pre_roll(&frame);
        if speech {
            self.speech_streak_samples = self.speech_streak_samples.saturating_add(samples);
        } else {
            self.speech_streak_samples = 0;
        }
        let confirm = samples_for_ms(self.config.sample_rate, self.config.start_confirm_ms);
        if self.speech_streak_samples >= confirm as u64 {
            self.in_speech = true;
            self.silence_samples = 0;
            let audio = self.take_pre_roll();
            self.utterance_samples = audio.len() as u64;
            r.push(VoiceEndpointAction::Start);
            r.push(VoiceEndpointAction::Audio(audio));
        }
        assert(actions_of(r@) =~= wanted.1);
        r
    }
}

/// The rate that a configuration means: at least 1.
pub open spec fn rate_for(config: VoiceEndpointConfig, detector_rate: u32) -> u32 {
    let rate = if config.sample_rate == 0 {
        detector_rate
    } else {
        config.sample_rate
    };
    if rate == 0 {
        1
    } else {
        rate
    }
}

pub open spec fn limits_for(config: VoiceEndpointConfig, rate: u32) -> Limits {
    Limits {
        padding: span(rate as int, config.start_padding_ms as int),
        confirm: span(rate as int, config.start_confirm_ms as int),
        silence: span(rate as int, config.end_silence_ms as int),
        longest: span(rate as int, config.max_utterance_ms as int),
    }
}

/// The whole frames of `n` samples at the front of the audio.
pub open spec fn whole_frames(audio: Seq<i16>, n: int) -> Seq<Seq<i16>>
    decreases audio.len(),
{
    if n < 1 || audio.len() < n {
        Seq::empty()
    } else {
        seq![audio.subrange(0, n)] + whole_frames(audio.subrange(n, audio.len() as int), n)
    }
}

/// What is left behind the whole frames.
pub open spec fn remainder(audio: Seq<i16>, n: int) -> Seq<i16>
    decreases audio.len(),
{
    if n < 1 || audio.len() < n {
        audio
    } else {
        remainder(audio.subrange(n, audio.len() as int), n)
    }
}

/// Whether a score counts as speech.
pub open spec fn is_speech(score: Score, threshold: Score) -> bool {
    score.clamped_rank() is Some && threshold.rank() is Some && score.clamped_rank()->0
        >= threshold.rank()->0
}

/// Each frame with whether its score counts as speech.
pub open spec fn judged(asked: Seq<Asked>, threshold: Score) -> Seq<(Seq<i16>, bool)> {
    Seq::new(asked.len(), |i: int| (asked[i].frame, is_speech(asked[i].score, threshold)))
}

/// What frames lead to, each asked about in its turn: while nothing is spoken, the
/// detector may learn the background from it.
pub open spec fn pushed(
    before: Phase,
    l: Limits,
    threshold: Score,
    frames: Seq<Seq<i16>>,
    asked: Seq<Asked>,
    after: Phase,
    actions: Seq<ActionView>,
) -> bool {
    &&& asked.len() == frames.len()
    &&& forall|i: int|
        0 <= i < frames.len() ==> {
            &&& (#[trigger] asked[i]).frame == frames[i]
            &&& asked[i].update_background == !before.run(
                l,
                judged(asked.take(i), threshold),
            ).0.in_speech
        }
    &&& before.run(l, judged(asked, threshold)) == (after, actions)
}

/// The samples, followed by silence or cut, so that there are `n` of them.
pub open spec fn padded(samples: Seq<i16>, n: int) -> Seq<i16> {
    Seq::new(
        n as nat,
        |i: int|
            if i < samples.len() {
                samples[i]
            } else {
                0i16
            },
    )
}

/// What the end of the audio leads to, as a detector judged the last frame.
pub open spec fn finished(before: Phase, l: Limits, rest: Seq<i16>, speech: bool) -> (
    Phase,
    Seq<ActionView>,
) {
    let (after, actions) = if rest.len() == 0 {
        (before, Seq::empty())
    } else {
        before.step(l, rest, speech)
    };
    if after.in_speech {
        (Phase::quiet(), actions.push(ActionView::Stop))
    } else {
        (after, actions)
    }
}

/// The samples of a frame, of which a detector wants `n`.
pub open spec fn framed(n: usize) -> int {
    if n < 1 {
        1
    } else {
        n as int
    }
}

/// Each of these answers is one that the detector may give, after those before it.
pub open spec fn answered<D: VoiceActivityDetector>(
    d: D,
    before: Seq<Asked>,
    asked: Seq<Asked>,
) -> bool {
    forall|i: int|
        0 <= i < asked.len() ==> d.answers(before + asked.take(i), #[trigger] asked[i])
}

/// Finds utterances in a stream of audio, with a detector.
pub struct VoiceEndpoint<D: VoiceActivityDetector> {
    core: EndpointCore,
    detector: D,
    frame_buffer: Vec<i16>,
}

/// What more audio does to an endpoint: the detector is asked about each whole frame,
/// and its answers decide.
pub open spec fn took<D: VoiceActivityDetector>(
    before: VoiceEndpoint<D>,
    samples: Seq<i16>,
    after: VoiceEndpoint<D>,
    actions: Seq<ActionView>,
) -> bool {
    let n = framed(before.detector().frame_size());
    let audio = before.pending() + samples;
    let heard = before.detector().history();
    let asked = after.detector().history().skip(heard.len() as int);
    &&& after.limits() == before.limits()
    &&& after.threshold() == before.threshold()
    &&& after.detector().history() == heard + asked
    &&& answered(before.detector(), heard, asked)
    &&& same_rule(before.detector(), after.detector())
    &&& before.detector().faithful() ==> after.detector().faithful()
    &&& pushed(
        before.phase(),
        before.limits(),
        before.threshold(),
        whole_frames(audio, n),
        asked,
        after.phase(),
        actions,
    )
    &&& after.pending() == remainder(audio, n)
}

/// What the end of the audio does to an endpoint: the detector is asked about what is
/// left, filled up with silence, and an utterance stops.
pub open spec fn ended<D: VoiceActivityDetector>(
    before: VoiceEndpoint<D>,
    after: VoiceEndpoint<D>,
    actions: Seq<ActionView>,
) -> bool {
    let rest = before.pending();
    let heard = before.detector().history();
    let asked = after.detector().history().last();
    &&& after.limits() == before.limits()
    &&& after.threshold() == before.threshold()
    &&& after.pending() == Seq::<i16>::empty()
    &&& same_rule(before.detector(), after.detector())
    &&& before.detector().faithful() ==> after.detector().faithful()
    &&& rest.len() == 0 ==> after.detector() == before.detector()
    &&& rest.len() > 0 ==> {
        &&& after.detector().history() == heard.push(asked)
        &&& before.detector().answers(heard, asked)
        &&& asked.frame == padded(rest, framed(before.detector().frame_size()))
        &&& asked.update_background == !before.phase().in_speech
    }
    &&& (after.phase(), actions) == finished(
        before.phase(),
        before.limits(),
        rest,
        rest.len() > 0 && is_speech(asked.score, before.threshold()),
    )
}

/// What a reset does to an endpoint: all the audio is forgotten, by the detector too.
pub open spec fn restarted<D: VoiceActivityDetector>(
    before: VoiceEndpoint<D>,
    after: VoiceEndpoint<D>,
) -> bool {
    &&& after.limits() == before.limits()
    &&& after.threshold() == before.threshold()
    &&& after.phase() == Phase::quiet()
    &&& after.pending() == Seq::<i16>::empty()
    &&& after.detector().history() == Seq::<Asked>::empty()
    &&& after.detector().faithful()
    &&& same_rule(before.detector(), after.detector())
}

impl VoiceEndpoint<EarshotVadDetector> {
    /// An endpoint with the usual settings and the detector of earshot.
    pub fn new() -> (r: VoiceEndpoint<EarshotVadDetector>)
        ensures
            r.well_formed(),
            r.phase() == Phase::quiet(),
            r.pending() == Seq::<i16>::empty(),
            r.detector().heard() == Seq::<(Seq<i16>, u32)>::empty(),
            r.detector().history() == Seq::<Asked>::empty(),
            r.detector().faithful(),
            r.threshold() == (Score { bits: HALF_BITS }),
            r.threshold().rank() == Some(HALF_BITS as int),
            r.limits() == (Limits {
                padding: 4_800,
                confirm: 2_560,
                silence: 14_400,
                longest: 480_000,
            }),
    {
        VoiceEndpoint::new_with_detector(VoiceEndpointConfig::default(), EarshotVadDetector::new())
    }
}

impl<D: VoiceActivityDetector> VoiceEndpoint<D> {
    pub closed spec fn well_formed(&self) -> bool {
        self.core.well_formed()
    }

    pub closed spec fn phase(&self) -> Phase {
        self.core.phase()
    }

    pub closed spec fn limits(&self) -> Limits {
        self.core.limits()
    }

    pub closed spec fn threshold(&self) -> Score {
        self.core.threshold()
    }

    /// The audio that does not make a whole frame yet.
    pub closed spec fn pending(&self) -> Seq<i16> {
        self.frame_buffer@
    }

    pub closed spec fn detector(&self) -> D {
        self.detector
    }

    pub fn new_with_detector(config: VoiceEndpointConfig, detector: D) -> (r: VoiceEndpoint<D>)
        requires
            config.fits(rate_for(config, detector.rate())),
        ensures
            r.well_formed(),
            r.phase() == Phase::quiet(),
            r.pending() == Seq::<i16>::empty(),
            r.detector() == detector,
            r.threshold() == config.speech_threshold.confined(),
            r.threshold().rank() == config.speech_threshold.clamped_rank(),
            r.limits() == limits_for(config, rate_for(config, detector.rate())),
    {
        let rate = detector.sample_rate();
        let core = EndpointCore::new(config, rate);
        VoiceEndpoint { core, detector, frame_buffer: Vec::new() }
    }

    /// The size of a frame: at least 1 sample.
    fn frame_samples(&self) -> (r: usize)
        ensures
            r == framed(self.detector().frame_size()),
    {
        let given: usize = self.detector.frame_samples();
        if given < 1 {
            1
        } else {
            given
        }
    }

    /// Asks the detector about a frame, from which it may learn the background while
    /// nothing is spoken.
    fn ask(&mut self, frame: &[i16]) -> (r: Score)
        ensures
            final(self).core == old(self).core,
            final(self).frame_buffer == old(self).frame_buffer,
            ({
                let now = Asked {
                    frame: frame@,
                    update_background: !old(self).phase().in_speech,
                    score: r,
                };
                &&& final(self).detector().history() == old(self).detector().history().push(now)
                &&& old(self).detector().answers(old(self).detector().history(), now)
            }),
            same_rule(old(self).detector(), final(self).detector()),
            old(self).detector().faithful() ==> final(self).detector().faithful(),
    {
        let update_background = !self.core.speaking();
        self.detector.predict_i16(frame, update_background)
    }

    /// Takes more audio, and says what is to be done.
    pub fn push(&mut self, samples: &[i16]) -> (r: Vec<VoiceEndpointAction>)
        requires
            old(self).well_formed(),
        ensures
            final(self).well_formed(),
            took(*old(self), samples@, *final(self), actions_of(r@)),
    {
        self.frame_buffer.extend_from_slice(samples);
        let ghost audio = old(self).pending() + samples@;
        assert(self.frame_buffer@ =~= audio);
        let n: usize = self.frame_samples();
        let ghost rule = self.detector();
        let ghost heard_before = self.detector().history();
        let mut actions: Vec<VoiceEndpointAction> = Vec::new();
        let ghost mut done: Seq<Asked> = Seq::empty();
        let ghost l = self.core.limits();
        let ghost before = self.core.phase();
        let ghost threshold = self.core.threshold();
        let ghost frames = whole_frames(audio, n as int);
        proof {
            assert(frames.skip(0) =~= frames);
            assert(judged(done, threshold) =~= Seq::empty());
            assert(actions_of(actions@) =~= Seq::empty());
            assert(heard_before + done =~= heard_before);
        }
        while self.frame_buffer.len() >= n
            invariant
                n >= 1,
                self.well_formed(),
                self.core.limits() == l,
                self.core.threshold() == threshold,
                self.detector().history() == heard_before + done,
                same_rule(rule, self.detector()),
                rule.faithful() ==> self.detector().faithful(),
                answered(rule, heard_before, done),
                done.len() <= frames.len(),
                frames.skip(done.len() as int) == whole_frames(self.frame_buffer@, n as int),
                remainder(audio, n as int) == remainder(self.frame_buffer@, n as int),
                pushed(
                    before,
                    l,
                    threshold,
                    frames.take(done.len() as int),
                    done,
                    self.core.phase(),
                    actions_of(actions@),
                ),
            decreases self.frame_buffer@.len(),
        {
            let ghost buffered = self.frame_buffer@;
            let ghost was = self.core.phase();
            let ghost told = actions_of(actions@);
            let mut frame = self.frame_buffer.split_off(n);
            std::mem::swap(&mut self.frame_buffer, &mut frame);
            assert(frame@ =~= buffered.subrange(0, n as int));
            assert(self.frame_buffer@ =~= buffered.subrange(n as int, buffered.len() as int));
            let score = self.ask(frame.as_slice());
            let is_speech = self.core.is_speech_score(score.clamped());
            let ghost now = Asked {
                frame: frame@,
                update_background: !was.in_speech,
                score,
            };
            let mut more = self.core.push_frame(frame, is_speech);
            let ghost extra = actions_of(more@);
            proof {
                let longer = done.push(now);
                let rest = whole_frames(self.frame_buffer@, n as int);
                assert(frames.skip(done.len() as int) == seq![now.frame] + rest);
                assert(frames[done.len() as int] == frames.skip(done.len() as int)[0]);
                assert(frames.skip(longer.len() as int) =~= rest) by {
                    assert forall|i: int| 0 <= i < rest.len() implies #[trigger] frames.skip(
                        longer.len() as int,
                    )[i] == rest[i] by {
                        assert(frames.skip(done.len() as int)[i + 1] == rest[i]);
                    }
                    assert(frames.skip(done.len() as int).len() == rest.len() + 1);
                }
                assert(judged(longer, threshold).drop_last() =~= judged(done, threshold));
                assert(judged(longer, threshold).last() == (now.frame, is_speech));
                assert forall|i: int| 0 <= i < longer.len() implies {
                    &&& (#[trigger] longer[i]).frame == frames.take(longer.len() as int)[i]
                    &&& longer[i].update_background == !before.run(
                        l,
                        judged(longer.take(i), threshold),
                    ).0.in_speech
                } by {
                    assert(longer.take(i) =~= done.take(i));
                    if i < done.len() {
                        assert(done[i].frame == frames.take(done.len() as int)[i]);
                    } else {
                        assert(done.take(i) =~= done);
                    }
                }
                assert forall|i: int| 0 <= i < longer.len() implies rule.answers(
                    heard_before + longer.take(i),
                    #[trigger] longer[i],
                ) by {
                    assert(longer.take(i) =~= done.take(i));
                    if i < done.len() {
                        assert(rule.answers(heard_before + done.take(i), done[i]));
                    } else {
                        assert(done.take(i) =~= done);
                    }
                }
                assert(heard_before + longer =~= (heard_before + done).push(now));
                done = longer;
            }
            actions.append(&mut more);
            assert(actions_of(actions@) =~= told + extra);
        }
        proof {
            assert(frames.skip(done.len() as int).len() == 0);
            assert(frames.take(done.len() as int) =~= frames);
            assert(self.detector().history().skip(heard_before.len() as int) =~= done);
        }
        actions
    }

    /// Ends the audio: the last frame may be short, and an utterance stops.
    pub fn finish(&mut self) -> (r: Vec<VoiceEndpointAction>)
        requires
            old(self).well_formed(),
        ensures
            final(self).well_formed(),
            ended(*old(self), *final(self), actions_of(r@)),
    {
        let ghost rest = self.frame_buffer@;
        let mut actions: Vec<VoiceEndpointAction> = Vec::new();
        if !self.frame_buffer.is_empty() {
            let n: usize = self.frame_samples();
            let mut frame: Vec<i16> = Vec::new();
            std::mem::swap(&mut self.frame_buffer, &mut frame);
            let padded = padded_frame(&frame, n);
            let score = self.ask(padded.as_slice());
            let is_speech = self.core.is_speech_score(score.clamped());
            actions = self.core.push_frame(frame, is_speech);
        }
        let ghost told = actions_of(actions@);
        assert(rest.len() == 0 ==> told =~= Seq::empty());
        if self.core.speaking() {
            self.core.reset_utterance();
            actions.push(VoiceEndpointAction::Stop);
            assert(actions_of(actions@) =~= told.push(ActionView::Stop));
        }
        assert(self.frame_buffer@ =~= Seq::empty());
        actions
    }

    /// Forgets all the audio taken so far.
    pub fn reset(&mut self)
        requires
            old(self).well_formed(),
        ensures
            final(self).well_formed(),
            restarted(*old(self), *final(self)),
    {
        self.frame_buffer.clear();
        self.core.reset_utterance();
        self.detector.reset();
    }
}

/// The frame with exactly `n` samples: filled up with silence, or cut.
fn padded_frame(frame: &Vec<i16>, n: usize) -> (r: Vec<i16>)
    ensures
        r@ == padded(frame@, n as int),
{
    let mut r: Vec<i16> = Vec::new();
    let mut i: usize = 0;
    while i < n
        invariant
            i <= n,
            r@.len() == i,
            forall|j: int|
                0 <= j < i ==> r@[j] == if j < frame@.len() {
                    frame@[j]
                } else {
                    0i16
                },
        decreases n - i,
    {
        if i < frame.len() {
            r.push(frame[i]);
        } else {
            r.push(0);
        }
        i = i + 1;
    }
    r
}

/// Whether something is spoken after the actions, or `None` where a start or a stop
/// is out of place, or audio comes outside an utterance.
pub open spec fn bracketed(speaking: bool, actions: Seq<ActionView>) -> Option<bool>
    decreases actions.len(),
{
    if actions.len() == 0 {
        Some(speaking)
    } else {
        match (bracketed(speaking, actions.drop_last()), actions.last()) {
            (Some(false), ActionView::Start) => Some(true),
            (Some(true), ActionView::Audio(_)) => Some(true),
            (Some(true), ActionView::Stop) => Some(false),
            _ => None,
        }
    }
}

proof fn lemma_bracketed_concat(speaking: bool, a: Seq<ActionView>, b: Seq<ActionView>)
    ensures
        bracketed(speaking, a + b) == match bracketed(speaking, a) {
            Some(s) => bracketed(s, b),
            None => bracketed(speaking, a + b),
        },
    decreases b.len(),
{
    if b.len() == 0 {
        assert(a + b =~= a);
    } else {
        lemma_bracketed_concat(speaking, a, b.drop_last());
        assert((a + b).drop_last() =~= a + b.drop_last());
        assert((a + b).last() == b.last());
    }
}

/// Starts and stops alternate, and audio comes only between a start and its stop,
/// whatever the detector says of the frames.
pub proof fn law_utterances_are_bracketed(
    phase: Phase,
    l: Limits,
    frames: Seq<(Seq<i16>, bool)>,
)
    ensures
        bracketed(phase.in_speech, phase.run(l, frames).1) == Some(
            phase.run(l, frames).0.in_speech,
        ),
    decreases frames.len(),
{
    if frames.len() > 0 {
        law_utterances_are_bracketed(phase, l, frames.drop_last());
        let (before, done) = phase.run(l, frames.drop_last());
        let (after, more) = before.step(l, frames.last().0, frames.last().1);
        lemma_bracketed_concat(phase.in_speech, done, more);
        reveal_with_fuel(bracketed, 3);
        assert(more.len() <= 2);
        if more.len() > 0 {
            assert(more.drop_last().len() == more.len() - 1);
            if more.len() == 2 {
                assert(more.drop_last().last() == more[0]);
            }
        }
    }
}

/// While nothing is spoken, no more audio is held back than the padding, and it
/// is the latest.
pub proof fn law_pre_roll_is_bounded(phase: Phase, l: Limits, frames: Seq<(Seq<i16>, bool)>)
    requires
        l.padding >= 0,
        phase.pre_roll.len() <= l.padding,
    ensures
        phase.run(l, frames).0.pre_roll.len() <= l.padding,
    decreases frames.len(),
{
    if frames.len() > 0 {
        law_pre_roll_is_bounded(phase, l, frames.drop_last());
    }
}

/// All the audio that is handed on, in order.
pub open spec fn audio_in(actions: Seq<ActionView>) -> Seq<i16>
    decreases actions.len(),
{
    if actions.len() == 0 {
        Seq::empty()
    } else {
        match actions.last() {
            ActionView::Audio(a) => audio_in(actions.drop_last()) + a,
            _ => audio_in(actions.drop_last()),
        }
    }
}

/// In an utterance every frame is handed on as it is, the last one included.
pub proof fn law_speech_is_handed_on(phase: Phase, l: Limits, frame: Seq<i16>, speech: bool)
    requires
        phase.in_speech,
    ensures
        audio_in(phase.step(l, frame, speech).1) == frame,
{
    reveal_with_fuel(audio_in, 3);
    let actions = phase.step(l, frame, speech).1;
    assert(actions.drop_last().len() == actions.len() - 1);
    if actions.len() == 2 {
        assert(actions.drop_last().last() == actions[0]);
    }
    assert(Seq::<i16>::empty() + frame =~= frame);
}

/// The audio taken in is the whole frames one after the other, then what is left.
pub proof fn law_frames_lose_nothing(audio: Seq<i16>, n: int)
    requires
        n >= 1,
    ensures
        audio == strung(whole_frames(audio, n)) + remainder(audio, n),
        remainder(audio, n).len() < n,
    decreases audio.len(),
{
    if audio.len() >= n {
        let rest = audio.subrange(n, audio.len() as int);
        law_frames_lose_nothing(rest, n);
        lemma_strung_front(audio.subrange(0, n), whole_frames(rest, n));
        assert(audio =~= audio.subrange(0, n) + rest);
    } else {
        assert(Seq::<i16>::empty() + audio =~= audio);
    }
}

proof fn lemma_frames_of_more(audio: Seq<i16>, more: Seq<i16>, n: int)
    requires
        n >= 1,
    ensures
        whole_frames(audio + more, n) == whole_frames(audio, n) + whole_frames(
            remainder(audio, n) + more,
            n,
        ),
        remainder(audio + more, n) == remainder(remainder(audio, n) + more, n),
    decreases audio.len(),
{
    if audio.len() >= n {
        let rest = audio.subrange(n, audio.len() as int);
        lemma_frames_of_more(rest, more, n);
        let all = audio + more;
        assert(all.subrange(0, n) =~= audio.subrange(0, n));
        assert(all.subrange(n, all.len() as int) =~= rest + more);
        assert(whole_frames(all, n) =~= whole_frames(audio, n) + whole_frames(
            remainder(audio, n) + more,
            n,
        ));
    } else {
        assert(whole_frames(audio, n) + whole_frames(audio + more, n) =~= whole_frames(
            audio + more,
            n,
        ));
    }
}

proof fn lemma_run_of_more(
    phase: Phase,
    l: Limits,
    a: Seq<(Seq<i16>, bool)>,
    b: Seq<(Seq<i16>, bool)>,
)
    ensures
        ({
            let (between, done) = phase.run(l, a);
            let (after, more) = between.run(l, b);
            phase.run(l, a + b) == (after, done + more)
        }),
    decreases b.len(),
{
    let (between, done) = phase.run(l, a);
    if b.len() == 0 {
        assert(a + b =~= a);
        assert(done + Seq::<ActionView>::empty() =~= done);
    } else {
        lemma_run_of_more(phase, l, a, b.drop_last());
        assert((a + b).drop_last() =~= a + b.drop_last());
        assert((a + b).last() == b.last());
        let (before, some) = between.run(l, b.drop_last());
        let last = before.step(l, b.last().0, b.last().1).1;
        assert(done + (some + last) =~= (done + some) + last);
    }
}

/// Two pieces of audio, one after the other, lead to what both at once lead to, where
/// the same is said of the frames.
proof fn lemma_pieces(
    before: Phase,
    l: Limits,
    threshold: Score,
    first: Seq<i16>,
    second: Seq<i16>,
    n: int,
    asked: (Seq<Asked>, Seq<Asked>),
    between: Phase,
    after: Phase,
    actions: (Seq<ActionView>, Seq<ActionView>),
)
    requires
        n >= 1,
        pushed(before, l, threshold, whole_frames(first, n), asked.0, between, actions.0),
        pushed(
            between,
            l,
            threshold,
            whole_frames(remainder(first, n) + second, n),
            asked.1,
            after,
            actions.1,
        ),
    ensures
        pushed(
            before,
            l,
            threshold,
            whole_frames(first + second, n),
            asked.0 + asked.1,
            after,
            actions.0 + actions.1,
        ),
        remainder(first + second, n) == remainder(remainder(first, n) + second, n),
{
    lemma_frames_of_more(first, second, n);
    let all = asked.0 + asked.1;
    let heard = judged(asked.0, threshold);
    assert(judged(all, threshold) =~= heard + judged(asked.1, threshold));
    lemma_run_of_more(before, l, heard, judged(asked.1, threshold));
    let frames = whole_frames(first + second, n);
    assert forall|i: int| 0 <= i < frames.len() implies {
        &&& (#[trigger] all[i]).frame == frames[i]
        &&& all[i].update_background == !before.run(
            l,
            judged(all.take(i), threshold),
        ).0.in_speech
    } by {
        let k = asked.0.len();
        if i < k {
            assert(all[i] == asked.0[i]);
            assert(all.take(i) =~= asked.0.take(i));
        } else {
            assert(all[i] == asked.1[i - k]);
            assert(judged(all.take(i), threshold) =~= heard + judged(
                asked.1.take(i - k),
                threshold,
            ));
            lemma_run_of_more(before, l, heard, judged(asked.1.take(i - k), threshold));
        }
    }
}

/// Two endpoints stand at the same point: they go by the same settings, have the same
/// audio behind them, and their detectors heard the same and answer by the same rule.
pub open spec fn abreast<D: VoiceActivityDetector>(
    a: VoiceEndpoint<D>,
    b: VoiceEndpoint<D>,
) -> bool {
    &&& a.limits() == b.limits()
    &&& a.threshold() == b.threshold()
    &&& a.phase() == b.phase()
    &&& a.pending() == b.pending()
    &&& a.detector().history() == b.detector().history()
    &&& same_rule(a.detector(), b.detector())
}

/// A detector that goes by what it heard says the same of the same frames.
proof fn lemma_same_answers<D: VoiceActivityDetector>(
    d: D,
    heard: Seq<Asked>,
    before: Phase,
    l: Limits,
    threshold: Score,
    frames: Seq<Seq<i16>>,
    one: (Seq<Asked>, Phase, Seq<ActionView>),
    other: (Seq<Asked>, Phase, Seq<ActionView>),
    k: int,
)
    requires
        decided(d),
        answered(d, heard, one.0),
        answered(d, heard, other.0),
        pushed(before, l, threshold, frames, one.0, one.1, one.2),
        pushed(before, l, threshold, frames, other.0, other.1, other.2),
        0 <= k <= frames.len(),
    ensures
        one.0.take(k) == other.0.take(k),
    decreases k,
{
    if k > 0 {
        lemma_same_answers(d, heard, before, l, threshold, frames, one, other, k - 1);
        let a = one.0[k - 1];
        let b = other.0[k - 1];
        assert(a.frame == b.frame && a.update_background == b.update_background);
        assert(d.answers(heard + one.0.take(k - 1), a));
        assert(d.answers(heard + other.0.take(k - 1), b));
        assert(a == b);
        assert(one.0.take(k) =~= one.0.take(k - 1).push(a));
        assert(other.0.take(k) =~= other.0.take(k - 1).push(b));
    } else {
        assert(one.0.take(0) =~= other.0.take(0));
    }
}

/// Endpoints at the same point, with detectors that go by what they heard, do the same
/// on the same audio, and stand at the same point again.
pub proof fn law_same_audio_same_actions<D: VoiceActivityDetector>(
    a: VoiceEndpoint<D>,
    b: VoiceEndpoint<D>,
    samples: Seq<i16>,
    then_a: (VoiceEndpoint<D>, Seq<ActionView>),
    then_b: (VoiceEndpoint<D>, Seq<ActionView>),
)
    requires
        abreast(a, b),
        decided(a.detector()),
        a.detector().frame_size() == b.detector().frame_size(),
        took(a, samples, then_a.0, then_a.1),
        took(b, samples, then_b.0, then_b.1),
    ensures
        then_a.1 == then_b.1,
        abreast(then_a.0, then_b.0),
{
    let heard = a.detector().history();
    let one = then_a.0.detector().history().skip(heard.len() as int);
    let other = then_b.0.detector().history().skip(heard.len() as int);
    let frames = whole_frames(a.pending() + samples, framed(a.detector().frame_size()));
    assert(answered(a.detector(), heard, other)) by {
        assert forall|i: int| 0 <= i < other.len() implies a.detector().answers(
            heard + other.take(i),
            #[trigger] other[i],
        ) by {
            assert(b.detector().answers(heard + other.take(i), other[i]));
        }
    }
    lemma_same_answers(
        a.detector(),
        heard,
        a.phase(),
        a.limits(),
        a.threshold(),
        frames,
        (one, then_a.0.phase(), then_a.1),
        (other, then_b.0.phase(), then_b.1),
        frames.len() as int,
    );
    assert(one.take(frames.len() as int) =~= one);
    assert(other.take(frames.len() as int) =~= other);
    lemma_rule_of_more(a.detector(), b.detector(), then_b.0.detector());
    lemma_rule_of_one(a.detector(), then_a.0.detector(), then_b.0.detector());
}

/// Endpoints at the same point, with detectors that go by what they heard, do the same
/// at the end of the audio, and stand at the same point again.
pub proof fn law_same_end_same_actions<D: VoiceActivityDetector>(
    a: VoiceEndpoint<D>,
    b: VoiceEndpoint<D>,
    then_a: (VoiceEndpoint<D>, Seq<ActionView>),
    then_b: (VoiceEndpoint<D>, Seq<ActionView>),
)
    requires
        abreast(a, b),
        decided(a.detector()),
        a.detector().frame_size() == b.detector().frame_size(),
        ended(a, then_a.0, then_a.1),
        ended(b, then_b.0, then_b.1),
    ensures
        then_a.1 == then_b.1,
        abreast(then_a.0, then_b.0),
{
    lemma_rule_of_more(a.detector(), b.detector(), then_b.0.detector());
    lemma_rule_of_one(a.detector(), then_a.0.detector(), then_b.0.detector());
    let heard = a.detector().history();
    let one = then_a.0.detector().history().last();
    let other = then_b.0.detector().history().last();
    if a.pending().len() > 0 {
        assert(a.detector().answers(heard, one));
        assert(b.detector().answers(heard, other));
        assert(one == other);
    }
}

proof fn lemma_rule_of_more<D: VoiceActivityDetector>(a: D, b: D, c: D)
    requires
        same_rule(a, b),
        same_rule(b, c),
    ensures
        same_rule(a, c),
{
    assert forall|before: Seq<Asked>, now: Asked| #[trigger]
        c.answers(before, now) == a.answers(before, now) by {
        assert(b.answers(before, now) == a.answers(before, now));
    }
}

proof fn lemma_rule_of_one<D: VoiceActivityDetector>(a: D, b: D, c: D)
    requires
        same_rule(a, b),
        same_rule(a, c),
    ensures
        same_rule(b, c),
{
    assert forall|before: Seq<Asked>, now: Asked| #[trigger]
        c.answers(before, now) == b.answers(before, now) by {
        assert(b.answers(before, now) == a.answers(before, now));
    }
}

/// Answers that were given one after the other, by the same rule.
proof fn lemma_answers_of_more<D: VoiceActivityDetector>(
    d: D,
    first: D,
    second: D,
    heard: Seq<Asked>,
    early: Seq<Asked>,
    late: Seq<Asked>,
)
    requires
        same_rule(d, first),
        same_rule(first, second),
        answered(first, heard, early),
        answered(second, heard + early, late),
    ensures
        answered(d, heard, early + late),
{
    let all = early + late;
    assert forall|i: int| 0 <= i < all.len() implies d.answers(
        heard + all.take(i),
        #[trigger] all[i],
    ) by {
        if i < early.len() {
            assert(all.take(i) =~= early.take(i));
            assert(first.answers(heard + early.take(i), early[i]));
        } else {
            let j = i - early.len();
            assert(heard + all.take(i) =~= (heard + early) + late.take(j));
            assert(second.answers((heard + early) + late.take(j), late[j]));
            assert(first.answers(heard + all.take(i), all[i]));
        }
    }
}

/// Two pieces of audio, one after the other, lead to what both at once may lead to.
proof fn lemma_took_both<D: VoiceActivityDetector>(
    before: VoiceEndpoint<D>,
    first: Seq<i16>,
    second: Seq<i16>,
    between: (VoiceEndpoint<D>, Seq<ActionView>),
    after: (VoiceEndpoint<D>, Seq<ActionView>),
)
    requires
        between.0.detector().frame_size() == before.detector().frame_size(),
        took(before, first, between.0, between.1),
        took(between.0, second, after.0, after.1),
    ensures
        took(before, first + second, after.0, between.1 + after.1),
{
    let n = framed(before.detector().frame_size());
    let heard = before.detector().history();
    let early = between.0.detector().history().skip(heard.len() as int);
    let late = after.0.detector().history().skip(between.0.detector().history().len() as int);
    let audio = before.pending() + first;
    assert(before.pending() + (first + second) =~= audio + second);
    assert(after.0.detector().history() =~= heard + (early + late));
    assert(after.0.detector().history().skip(heard.len() as int) =~= early + late);
    assert(answered(before.detector(), heard, early + late)) by {
        assert(same_rule(before.detector(), before.detector()));
        lemma_answers_of_more(
            before.detector(),
            before.detector(),
            between.0.detector(),
            heard,
            early,
            late,
        );
    }
    lemma_rule_of_more(before.detector(), between.0.detector(), after.0.detector());
    lemma_pieces(
        before.phase(),
        before.limits(),
        before.threshold(),
        audio,
        second,
        n,
        (early, late),
        between.0.phase(),
        after.0.phase(),
        (between.1, after.1),
    );
}

/// How audio is cut into pieces makes no difference to a detector that goes by what it
/// heard: two pieces, one after the other, lead to what both at once lead to.
pub proof fn law_pieces_make_no_difference<D: VoiceActivityDetector>(
    a: VoiceEndpoint<D>,
    b: VoiceEndpoint<D>,
    first: Seq<i16>,
    second: Seq<i16>,
    whole: (VoiceEndpoint<D>, Seq<ActionView>),
    between: (VoiceEndpoint<D>, Seq<ActionView>),
    after: (VoiceEndpoint<D>, Seq<ActionView>),
)
    requires
        abreast(a, b),
        decided(a.detector()),
        a.detector().frame_size() == b.detector().frame_size(),
        between.0.detector().frame_size() == b.detector().frame_size(),
        took(a, first + second, whole.0, whole.1),
        took(b, first, between.0, between.1),
        took(between.0, second, after.0, after.1),
    ensures
        whole.1 == between.1 + after.1,
        abreast(whole.0, after.0),
{
    lemma_took_both(b, first, second, between, after);
    law_same_audio_same_actions(
        a,
        b,
        first + second,
        whole,
        (after.0, between.1 + after.1),
    );
}

/// After the end of the audio there is nothing left to end: the end right after it
/// does nothing.
pub proof fn law_end_ends_all<D: VoiceActivityDetector>(
    before: VoiceEndpoint<D>,
    after: VoiceEndpoint<D>,
    actions: Seq<ActionView>,
    again: VoiceEndpoint<D>,
    more: Seq<ActionView>,
)
    requires
        ended(before, after, actions),
        ended(after, again, more),
    ensures
        !after.phase().in_speech,
        more == Seq::<ActionView>::empty(),
        abreast(after, again),
{
}

/// A call to an endpoint.
pub enum Call {
    Push(Seq<i16>),
    Finish,
}

/// A call to an endpoint, how it found it and left it, and what was to be done.
pub struct Turn<D: VoiceActivityDetector> {
    pub before: VoiceEndpoint<D>,
    pub call: Call,
    pub after: VoiceEndpoint<D>,
    pub actions: Seq<ActionView>,
}

impl<D: VoiceActivityDetector> Turn<D> {
    pub open spec fn took_place(self) -> bool {
        match self.call {
            Call::Push(samples) => took(self.before, samples, self.after, self.actions),
            Call::Finish => ended(self.before, self.after, self.actions),
        }
    }
}

/// Where an endpoint stands after some calls.
pub open spec fn reached<D: VoiceActivityDetector>(
    start: VoiceEndpoint<D>,
    turns: Seq<Turn<D>>,
) -> VoiceEndpoint<D> {
    if turns.len() == 0 {
        start
    } else {
        turns.last().after
    }
}

/// The calls came one after the other.
pub open spec fn in_turn<D: VoiceActivityDetector>(
    start: VoiceEndpoint<D>,
    turns: Seq<Turn<D>>,
) -> bool
    decreases turns.len(),
{
    turns.len() > 0 ==> {
        &&& in_turn(start, turns.drop_last())
        &&& turns.last().took_place()
        &&& turns.last().before == reached(start, turns.drop_last())
    }
}

/// All that was to be done, in order.
pub open spec fn told<D: VoiceActivityDetector>(turns: Seq<Turn<D>>) -> Seq<ActionView>
    decreases turns.len(),
{
    if turns.len() == 0 {
        Seq::empty()
    } else {
        told(turns.drop_last()) + turns.last().actions
    }
}

/// Over any calls, starts and stops alternate, and audio comes only between a start and
/// its stop.
pub proof fn law_calls_are_bracketed<D: VoiceActivityDetector>(
    start: VoiceEndpoint<D>,
    turns: Seq<Turn<D>>,
)
    requires
        in_turn(start, turns),
    ensures
        bracketed(start.phase().in_speech, told(turns)) == Some(
            reached(start, turns).phase().in_speech,
        ),
    decreases turns.len(),
{
    if turns.len() > 0 {
        law_calls_are_bracketed(start, turns.drop_last());
        let t = turns.last();
        let before = t.before.phase();
        let l = t.before.limits();
        match t.call {
            Call::Push(_) => {
                let heard = t.before.detector().history().len() as int;
                law_utterances_are_bracketed(
                    before,
                    l,
                    judged(t.after.detector().history().skip(heard), t.before.threshold()),
                );
            },
            Call::Finish => {
                let rest = t.before.pending();
                let asked = t.after.detector().history().last();
                let speech = rest.len() > 0 && is_speech(asked.score, t.before.threshold());
                lemma_end_is_bracketed(before, l, rest, speech);
            },
        }
        lemma_bracketed_concat(start.phase().in_speech, told(turns.drop_last()), t.actions);
    }
}

proof fn lemma_end_is_bracketed(before: Phase, l: Limits, rest: Seq<i16>, speech: bool)
    ensures
        bracketed(before.in_speech, finished(before, l, rest, speech).1) == Some(false),
        !finished(before, l, rest, speech).0.in_speech,
{
    let frames = if rest.len() == 0 {
        Seq::<(Seq<i16>, bool)>::empty()
    } else {
        seq![(rest, speech)]
    };
    law_utterances_are_bracketed(before, l, frames);
    reveal_with_fuel(Phase::run, 2);
    let (after, actions) = before.run(l, frames);
    if rest.len() > 0 {
        assert(frames.drop_last() =~= Seq::empty());
        let now = before.step(l, rest, speech);
        assert(Seq::<ActionView>::empty() + now.1 =~= now.1);
    }
    assert(actions.push(ActionView::Stop).drop_last() =~= actions);
}

/// How many of the actions are starts, and how many are stops.
pub open spec fn starts_and_stops(actions: Seq<ActionView>) -> (nat, nat)
    decreases actions.len(),
{
    if actions.len() == 0 {
        (0, 0)
    } else {
        let (starts, stops) = starts_and_stops(actions.drop_last());
        match actions.last() {
            ActionView::Start => (starts + 1, stops),
            ActionView::Stop => (starts, stops + 1),
            ActionView::Audio(_) => (starts, stops),
        }
    }
}

proof fn lemma_brackets_count(actions: Seq<ActionView>)
    requires
        bracketed(false, actions) is Some,
    ensures
        starts_and_stops(actions).0 == starts_and_stops(actions).1 + (if bracketed(
            false,
            actions,
        )->0 {
            1int
        } else {
            0
        }),
    decreases actions.len(),
{
    if actions.len() > 0 {
        lemma_brackets_count(actions.drop_last());
    }
}

/// Once the audio has ended, there were as many starts as stops, and an utterance that
/// was open is closed by the last action.
pub proof fn law_starts_and_stops_balance<D: VoiceActivityDetector>(
    start: VoiceEndpoint<D>,
    turns: Seq<Turn<D>>,
)
    requires
        in_turn(start, turns),
        !start.phase().in_speech,
        turns.len() > 0,
        turns.last().call is Finish,
    ensures
        starts_and_stops(told(turns)).0 == starts_and_stops(told(turns)).1,
        turns.last().before.phase().in_speech ==> turns.last().actions.len() > 0
            && turns.last().actions.last() == ActionView::Stop,
{
    law_calls_are_bracketed(start, turns);
    let t = turns.last();
    let rest = t.before.pending();
    let asked = t.after.detector().history().last();
    let speech = rest.len() > 0 && is_speech(asked.score, t.before.threshold());
    lemma_end_is_bracketed(t.before.phase(), t.before.limits(), rest, speech);
    lemma_brackets_count(told(turns));
}

/// The same calls, to endpoints whose detectors want frames of the same size.
pub open spec fn same_calls<D: VoiceActivityDetector>(a: Seq<Turn<D>>, b: Seq<Turn<D>>) -> bool {
    &&& a.len() == b.len()
    &&& forall|i: int|
        0 <= i < a.len() ==> (#[trigger] a[i]).call == b[i].call
            && a[i].before.detector().frame_size() == b[i].before.detector().frame_size()
}

/// Endpoints at the same point, with detectors that go by what they heard, do the same
/// over any calls, and stand at the same point again.
pub proof fn law_same_calls_same_actions<D: VoiceActivityDetector>(
    a: VoiceEndpoint<D>,
    b: VoiceEndpoint<D>,
    turns: Seq<Turn<D>>,
    others: Seq<Turn<D>>,
)
    requires
        abreast(a, b),
        decided(a.detector()),
        in_turn(a, turns),
        in_turn(b, others),
        same_calls(turns, others),
    ensures
        told(turns) == told(others),
        abreast(reached(a, turns), reached(b, others)),
        decided(reached(a, turns).detector()),
    decreases turns.len(),
{
    if turns.len() > 0 {
        let some = turns.drop_last();
        let alike = others.drop_last();
        assert(same_calls(some, alike)) by {
            assert forall|i: int| 0 <= i < some.len() implies (#[trigger] some[i]).call
                == alike[i].call && some[i].before.detector().frame_size()
                == alike[i].before.detector().frame_size() by {
                assert(turns[i].call == others[i].call);
            }
        }
        law_same_calls_same_actions(a, b, some, alike);
        let t = turns.last();
        let u = others.last();
        assert(turns[turns.len() - 1].call == others[turns.len() - 1].call);
        match t.call {
            Call::Push(samples) => {
                law_same_audio_same_actions(
                    t.before,
                    u.before,
                    samples,
                    (t.after, t.actions),
                    (u.after, u.actions),
                );
            },
            Call::Finish => {
                law_same_end_same_actions(
                    t.before,
                    u.before,
                    (t.after, t.actions),
                    (u.after, u.actions),
                );
            },
        }
        lemma_decided_by_rule(t.before.detector(), t.after.detector());
    }
}

proof fn lemma_decided_by_rule<D: VoiceActivityDetector>(a: D, b: D)
    requires
        same_rule(a, b),
        decided(a),
    ensures
        decided(b),
{
    assert forall|before: Seq<Asked>, x: Asked, y: Asked| #[trigger]
        b.answers(before, x) && #[trigger] b.answers(before, y) && x.frame == y.frame
            && x.update_background == y.update_background implies x.score == y.score by {
        assert(a.answers(before, x) && a.answers(before, y));
    }
}

/// After a reset an endpoint stands where a new one does that has the same settings and
/// a detector of the same rule: from there both do the same over any calls.
pub proof fn law_reset_starts_anew<D: VoiceActivityDetector>(
    before: VoiceEndpoint<D>,
    after: VoiceEndpoint<D>,
    fresh: VoiceEndpoint<D>,
    turns: Seq<Turn<D>>,
    others: Seq<Turn<D>>,
)
    requires
        restarted(before, after),
        fresh.limits() == before.limits(),
        fresh.threshold() == before.threshold(),
        fresh.phase() == Phase::quiet(),
        fresh.pending() == Seq::<i16>::empty(),
        fresh.detector().history() == Seq::<Asked>::empty(),
        same_rule(before.detector(), fresh.detector()),
        decided(before.detector()),
        in_turn(after, turns),
        in_turn(fresh, others),
        same_calls(turns, others),
    ensures
        abreast(after, fresh),
        told(turns) == told(others),
{
    lemma_rule_of_one(before.detector(), after.detector(), fresh.detector());
    lemma_decided_by_rule(before.detector(), after.detector());
    law_same_calls_same_actions(after, fresh, turns, others);
}

/// The audio of each utterance, in order: what is handed on from a start to its stop.
pub open spec fn utterances(actions: Seq<ActionView>) -> Seq<Seq<i16>>
    decreases actions.len(),
{
    if actions.len() == 0 {
        Seq::empty()
    } else {
        let before = utterances(actions.drop_last());
        match actions.last() {
            ActionView::Start => before.push(Seq::empty()),
            ActionView::Audio(a) => if before.len() == 0 {
                before
            } else {
                before.drop_last().push(before.last() + a)
            },
            ActionView::Stop => before,
        }
    }
}

/// Behind each start comes audio, no more of it than the padding.
pub open spec fn opened(actions: Seq<ActionView>, padding: int) -> bool {
    forall|i: int|
        0 <= i < actions.len() && (#[trigger] actions[i]) is Start ==> {
            &&& i + 1 < actions.len()
            &&& actions[i + 1] matches ActionView::Audio(a) && a.len() <= padding
        }
}

/// All the audio of some frames.
pub open spec fn sound(frames: Seq<(Seq<i16>, bool)>) -> Seq<i16>
    decreases frames.len(),
{
    if frames.len() == 0 {
        Seq::empty()
    } else {
        sound(frames.drop_last()) + frames.last().0
    }
}

/// Each utterance is a stretch of the audio that ends with a frame, none before the
/// end of the one before it: `spots` says where each begins, and with which frame it ends.
pub open spec fn stretches(
    said: Seq<Seq<i16>>,
    frames: Seq<(Seq<i16>, bool)>,
    spots: Seq<(int, int)>,
) -> bool {
    &&& spots.len() == said.len()
    &&& forall|u: int|
        0 <= u < said.len() ==> {
            let (from, last) = #[trigger] spots[u];
            &&& 0 <= last <= frames.len()
            &&& 0 <= from <= sound(frames.take(last)).len()
            &&& said[u] == sound(frames.take(last)).skip(from)
        }
    &&& forall|u: int, v: int|
        0 <= u < v < said.len() ==> sound(frames.take((#[trigger] spots[u]).1)).len() <= (
        #[trigger] spots[v]).0
}

proof fn lemma_utterances_push(actions: Seq<ActionView>, next: ActionView)
    ensures
        utterances(actions.push(next)) == match next {
            ActionView::Start => utterances(actions).push(Seq::empty()),
            ActionView::Audio(a) => if utterances(actions).len() == 0 {
                utterances(actions)
            } else {
                utterances(actions).drop_last().push(utterances(actions).last() + a)
            },
            ActionView::Stop => utterances(actions),
        },
{
    assert(actions.push(next).drop_last() =~= actions);
}

proof fn lemma_opened_more(a: Seq<ActionView>, b: Seq<ActionView>, padding: int)
    requires
        opened(a, padding),
        opened(b, padding),
    ensures
        opened(a + b, padding),
{
    let all = a + b;
    assert forall|i: int| 0 <= i < all.len() && (#[trigger] all[i]) is Start implies {
        &&& i + 1 < all.len()
        &&& all[i + 1] matches ActionView::Audio(x) && x.len() <= padding
    } by {
        if i < a.len() {
            assert(a[i] is Start);
            assert(all[i + 1] == a[i + 1]);
        } else {
            assert(b[i - a.len()] is Start);
            assert(all[i + 1] == b[i - a.len() + 1]);
        }
    }
}

/// Where an endpoint stands over the audio: in an utterance at its end; else what is
/// held back is the end of the audio, and no part of an utterance.
spec fn placed(now: Phase, frames: Seq<(Seq<i16>, bool)>, spots: Seq<(int, int)>) -> bool {
    let audio = sound(frames);
    if now.in_speech {
        spots.len() > 0 && spots.last().1 == frames.len()
    } else {
        &&& now.pre_roll.len() <= audio.len()
        &&& now.pre_roll == audio.skip(audio.len() - now.pre_roll.len())
        &&& spots.len() > 0 ==> sound(frames.take(spots.last().1)).len() <= audio.len()
            - now.pre_roll.len()
    }
}

/// Stretches of the audio stay where they are when more comes.
proof fn lemma_stretches_stay(
    said: Seq<Seq<i16>>,
    frames: Seq<(Seq<i16>, bool)>,
    next: (Seq<i16>, bool),
    spots: Seq<(int, int)>,
)
    requires
        stretches(said, frames, spots),
    ensures
        stretches(said, frames.push(next), spots),
        forall|k: int|
            0 <= k <= frames.len() ==> #[trigger] frames.push(next).take(k) == frames.take(k),
        sound(frames.push(next)) == sound(frames) + next.0,
        frames.push(next).take(frames.len() as int + 1) == frames.push(next),
        frames.take(frames.len() as int) == frames,
{
    let all = frames.push(next);
    assert(all.drop_last() =~= frames);
    assert(all.take(frames.len() as int + 1) =~= all);
    assert(frames.take(frames.len() as int) =~= frames);
    assert forall|k: int| 0 <= k <= frames.len() implies #[trigger] all.take(k) == frames.take(
        k,
    ) by {
        assert(all.take(k) =~= frames.take(k));
    }
    assert forall|u: int| 0 <= u < said.len() implies {
        let (from, last) = #[trigger] spots[u];
        &&& 0 <= last <= all.len()
        &&& 0 <= from <= sound(all.take(last)).len()
        &&& said[u] == sound(all.take(last)).skip(from)
    } by {
        assert(all.take(spots[u].1) == frames.take(spots[u].1));
    }
    assert forall|u: int, v: int| 0 <= u < v < said.len() implies sound(
        all.take((#[trigger] spots[u]).1),
    ).len() <= (#[trigger] spots[v]).0 by {
        assert(all.take(spots[u].1) == frames.take(spots[u].1));
    }
}

proof fn lemma_sound_grows(frames: Seq<(Seq<i16>, bool)>, k: int)
    requires
        0 <= k <= frames.len(),
    ensures
        sound(frames.take(k)).len() <= sound(frames).len(),
        sound(frames.take(k)) == sound(frames).take(sound(frames.take(k)).len() as int),
    decreases frames.len() - k,
{
    if k == frames.len() {
        assert(frames.take(k) =~= frames);
        assert(sound(frames).take(sound(frames).len() as int) =~= sound(frames));
    } else {
        lemma_sound_grows(frames, k + 1);
        let more = frames.take(k + 1);
        assert(more.drop_last() =~= frames.take(k));
        assert(sound(frames.take(k)) =~= sound(frames).take(sound(frames.take(k)).len() as int));
    }
}

/// A frame in an utterance makes its stretch longer.
proof fn lemma_speech_stretches(
    l: Limits,
    now: Phase,
    done: Seq<ActionView>,
    some: Seq<(Seq<i16>, bool)>,
    next: (Seq<i16>, bool),
    spots: Seq<(int, int)>,
) -> (moved: Seq<(int, int)>)
    requires
        l.padding >= 0,
        now.in_speech,
        stretches(utterances(done), some, spots),
        placed(now, some, spots),
    ensures
        stretches(utterances(done + now.step(l, next.0, next.1).1), some.push(next), moved),
        placed(now.step(l, next.0, next.1).0, some.push(next), moved),
{
    let (after, more) = now.step(l, next.0, next.1);
    let said = utterances(done);
    let frames = some.push(next);
    let from = spots.last().0;
    let longer = said.drop_last().push(said.last() + next.0);
    let moved = spots.drop_last().push((from, frames.len() as int));
    lemma_stretches_stay(said, some, next, spots);
    lemma_utterances_push(done, ActionView::Audio(next.0));
    if after.in_speech {
        assert(done + more =~= done.push(ActionView::Audio(next.0)));
    } else {
        lemma_utterances_push(done.push(ActionView::Audio(next.0)), ActionView::Stop);
        assert(done + more =~= done.push(ActionView::Audio(next.0)).push(ActionView::Stop));
        assert(sound(frames).skip(sound(frames).len() as int) =~= Seq::empty());
    }
    assert(utterances(done + more) == longer);
    assert(said.last() == said[spots.len() - 1]);
    assert(spots.last() == spots[spots.len() - 1]);
    assert(said.last() + next.0 =~= sound(frames).skip(from));
    lemma_last_stretch(said, frames, spots, longer, moved);
    moved
}

/// A frame outside an utterance begins a stretch, or is held back.
proof fn lemma_idle_stretches(
    l: Limits,
    now: Phase,
    done: Seq<ActionView>,
    some: Seq<(Seq<i16>, bool)>,
    next: (Seq<i16>, bool),
    spots: Seq<(int, int)>,
) -> (moved: Seq<(int, int)>)
    requires
        l.padding >= 0,
        !now.in_speech,
        stretches(utterances(done), some, spots),
        placed(now, some, spots),
    ensures
        stretches(utterances(done + now.step(l, next.0, next.1).1), some.push(next), moved),
        placed(now.step(l, next.0, next.1).0, some.push(next), moved),
{
    let (after, more) = now.step(l, next.0, next.1);
    let said = utterances(done);
    let frames = some.push(next);
    let audio = sound(some);
    let roll = tail(now.pre_roll + next.0, l.padding);
    lemma_stretches_stay(said, some, next, spots);
    assert(now.pre_roll + next.0 =~= sound(frames).skip(audio.len() - now.pre_roll.len()));
    assert(roll =~= sound(frames).skip(sound(frames).len() - roll.len()));
    if spots.len() > 0 {
        assert(spots.last() == spots[spots.len() - 1]);
        assert(frames.take(spots.last().1) == some.take(spots.last().1));
    }
    if after.in_speech {
        let longer = said.push(roll);
        let moved = spots.push((sound(frames).len() - roll.len(), frames.len() as int));
        lemma_utterances_push(done, ActionView::Start);
        lemma_utterances_push(done.push(ActionView::Start), ActionView::Audio(roll));
        assert(done + more =~= done.push(ActionView::Start).push(ActionView::Audio(roll)));
        assert(said.push(Seq::empty()).drop_last() =~= said);
        assert(Seq::<i16>::empty() + roll =~= roll);
        assert(utterances(done + more) == longer);
        lemma_new_stretch(said, frames, spots, longer, moved);
        moved
    } else {
        assert(done + more =~= done);
        spots
    }
}

/// What the frames hand on are stretches of their audio.
proof fn lemma_run_stretches(l: Limits, frames: Seq<(Seq<i16>, bool)>) -> (spots: Seq<(int, int)>)
    requires
        l.padding >= 0,
    ensures
        stretches(utterances(Phase::quiet().run(l, frames).1), frames, spots),
        opened(Phase::quiet().run(l, frames).1, l.padding),
        placed(Phase::quiet().run(l, frames).0, frames, spots),
    decreases frames.len(),
{
    if frames.len() == 0 {
        assert(sound(frames).skip(0) =~= Seq::empty());
        Seq::empty()
    } else {
        let some = frames.drop_last();
        let next = frames.last();
        let spots = lemma_run_stretches(l, some);
        let (now, done) = Phase::quiet().run(l, some);
        assert(frames =~= some.push(next));
        lemma_opened_more(done, now.step(l, next.0, next.1).1, l.padding);
        if now.in_speech {
            lemma_speech_stretches(l, now, done, some, next, spots)
        } else {
            lemma_idle_stretches(l, now, done, some, next, spots)
        }
    }
}

proof fn lemma_last_stretch(
    said: Seq<Seq<i16>>,
    frames: Seq<(Seq<i16>, bool)>,
    spots: Seq<(int, int)>,
    longer: Seq<Seq<i16>>,
    moved: Seq<(int, int)>,
)
    requires
        stretches(said, frames, spots),
        said.len() > 0,
        frames.take(frames.len() as int) == frames,
        moved == spots.drop_last().push((spots.last().0, frames.len() as int)),
        longer == said.drop_last().push(sound(frames).skip(spots.last().0)),
        0 <= spots.last().0 <= sound(frames).len(),
    ensures
        stretches(longer, frames, moved),
{
    assert forall|u: int| 0 <= u < longer.len() implies {
        let (from, last) = #[trigger] moved[u];
        &&& 0 <= last <= frames.len()
        &&& 0 <= from <= sound(frames.take(last)).len()
        &&& longer[u] == sound(frames.take(last)).skip(from)
    } by {
        if u < said.len() - 1 {
            assert(moved[u] == spots[u]);
        }
    }
    assert forall|u: int, v: int| 0 <= u < v < longer.len() implies sound(
        frames.take((#[trigger] moved[u]).1),
    ).len() <= (#[trigger] moved[v]).0 by {
        assert(moved[u] == spots[u]);
        assert(moved[v].0 == spots[v].0);
    }
}

proof fn lemma_new_stretch(
    said: Seq<Seq<i16>>,
    frames: Seq<(Seq<i16>, bool)>,
    spots: Seq<(int, int)>,
    longer: Seq<Seq<i16>>,
    moved: Seq<(int, int)>,
)
    requires
        stretches(said, frames, spots),
        frames.take(frames.len() as int) == frames,
        moved.len() == spots.len() + 1,
        moved == spots.push((moved.last().0, frames.len() as int)),
        0 <= moved.last().0 <= sound(frames).len(),
        spots.len() > 0 ==> sound(frames.take(spots.last().1)).len() <= moved.last().0,
        longer == said.push(sound(frames).skip(moved.last().0)),
    ensures
        stretches(longer, frames, moved),
{
    assert forall|u: int| 0 <= u < longer.len() implies {
        let (from, last) = #[trigger] moved[u];
        &&& 0 <= last <= frames.len()
        &&& 0 <= from <= sound(frames.take(last)).len()
        &&& longer[u] == sound(frames.take(last)).skip(from)
    } by {
        if u < said.len() {
            assert(moved[u] == spots[u]);
        }
    }
    assert forall|u: int, v: int| 0 <= u < v < longer.len() implies sound(
        frames.take((#[trigger] moved[u]).1),
    ).len() <= (#[trigger] moved[v]).0 by {
        assert(moved[u] == spots[u]);
        if v < said.len() {
            assert(moved[v] == spots[v]);
        } else if u < said.len() - 1 {
            let w = said.len() - 1;
            assert(sound(frames.take(spots[u].1)).len() <= spots[w].0);
            assert(spots[w].0 <= sound(frames.take(spots[w].1)).len());
        }
    }
}

/// All the audio that was pushed, in order.
pub open spec fn fed<D: VoiceActivityDetector>(turns: Seq<Turn<D>>) -> Seq<i16>
    decreases turns.len(),
{
    if turns.len() == 0 {
        Seq::empty()
    } else {
        match turns.last().call {
            Call::Push(samples) => fed(turns.drop_last()) + samples,
            Call::Finish => fed(turns.drop_last()),
        }
    }
}

/// The calls all push audio, and the detector wants frames of the same size at each.
pub open spec fn all_pushed<D: VoiceActivityDetector>(turns: Seq<Turn<D>>, size: usize) -> bool {
    forall|i: int|
        0 <= i < turns.len() ==> (#[trigger] turns[i]).call is Push
            && turns[i].before.detector().frame_size() == size
}

/// Any number of pushes lead to what one push of all the audio may lead to.
proof fn lemma_took_all<D: VoiceActivityDetector>(
    start: VoiceEndpoint<D>,
    turns: Seq<Turn<D>>,
    size: usize,
)
    requires
        in_turn(start, turns),
        all_pushed(turns, size),
        turns.len() > 0,
    ensures
        took(start, fed(turns), reached(start, turns), told(turns)),
        start.detector().frame_size() == size,
    decreases turns.len(),
{
    let some = turns.drop_last();
    let t = turns.last();
    assert(t == turns[turns.len() - 1]);
    let samples = t.call->Push_0;
    if some.len() == 0 {
        assert(fed(some) =~= Seq::empty());
        assert(fed(some) + samples =~= samples);
        assert(told(some) + t.actions =~= t.actions);
    } else {
        assert(all_pushed(some, size)) by {
            assert forall|i: int| 0 <= i < some.len() implies (#[trigger] some[i]).call is Push
                && some[i].before.detector().frame_size() == size by {
                assert(some[i] == turns[i]);
            }
        }
        lemma_took_all(start, some, size);
        lemma_took_both(
            start,
            fed(some),
            samples,
            (reached(start, some), told(some)),
            (t.after, t.actions),
        );
    }
}

proof fn lemma_frames_are_full(audio: Seq<i16>, n: int)
    requires
        n >= 1,
    ensures
        forall|i: int|
            0 <= i < whole_frames(audio, n).len() ==> (#[trigger] whole_frames(audio, n)[i]).len()
                == n,
    decreases audio.len(),
{
    if audio.len() >= n {
        let rest = audio.subrange(n, audio.len() as int);
        lemma_frames_are_full(rest, n);
        let all = whole_frames(audio, n);
        assert forall|i: int| 0 <= i < all.len() implies (#[trigger] all[i]).len() == n by {
            if i > 0 {
                assert(all[i] == whole_frames(rest, n)[i - 1]);
            }
        }
    }
}

proof fn lemma_sound_of_frames(judged: Seq<(Seq<i16>, bool)>, frames: Seq<Seq<i16>>)
    requires
        judged.len() == frames.len(),
        forall|i: int| 0 <= i < frames.len() ==> (#[trigger] judged[i]).0 == frames[i],
    ensures
        sound(judged) == strung(frames),
    decreases frames.len(),
{
    if frames.len() > 0 {
        assert forall|i: int| 0 <= i < frames.len() - 1 implies (#[trigger] judged.drop_last()[i]).0
            == frames.drop_last()[i] by {
            assert(judged[i].0 == frames[i]);
        }
        lemma_sound_of_frames(judged.drop_last(), frames.drop_last());
        assert(judged[frames.len() - 1].0 == frames[frames.len() - 1]);
    }
}

proof fn lemma_sound_len(judged: Seq<(Seq<i16>, bool)>, n: int)
    requires
        forall|i: int| 0 <= i < judged.len() ==> (#[trigger] judged[i]).0.len() == n,
    ensures
        sound(judged).len() == judged.len() * n,
    decreases judged.len(),
{
    if judged.len() > 0 {
        let some = judged.drop_last();
        assert forall|i: int| 0 <= i < some.len() implies (#[trigger] some[i]).0.len() == n by {
            assert(some[i] == judged[i]);
        }
        lemma_sound_len(some, n);
        assert(judged[judged.len() - 1].0.len() == n);
        assert(judged.len() * n == some.len() * n + n) by (nonlinear_arith)
            requires
                judged.len() == some.len() + 1,
        ;
    } else {
        assert(judged.len() * n == 0) by (nonlinear_arith)
            requires
                judged.len() == 0,
        ;
    }
}

/// The audio of the first frames is the front of all the audio.
proof fn lemma_front(
    audio: Seq<i16>,
    n: int,
    judged: Seq<(Seq<i16>, bool)>,
    frames: Seq<Seq<i16>>,
    k: int,
)
    requires
        n >= 1,
        frames == whole_frames(audio, n),
        judged.len() == frames.len(),
        forall|i: int| 0 <= i < frames.len() ==> (#[trigger] judged[i]).0 == frames[i],
        0 <= k <= frames.len(),
    ensures
        sound(judged.take(k)).len() == k * n,
        0 <= k * n <= audio.len(),
        sound(judged.take(k)) == audio.take(k * n),
{
    law_frames_lose_nothing(audio, n);
    lemma_frames_are_full(audio, n);
    lemma_sound_of_frames(judged, frames);
    lemma_sound_grows(judged, k);
    let front = judged.take(k);
    assert forall|i: int| 0 <= i < front.len() implies (#[trigger] front[i]).0.len() == n by {
        assert(front[i] == judged[i]);
        assert(frames[i].len() == n);
    }
    lemma_sound_len(front, n);
    assert(sound(front) =~= audio.take(k * n));
}

/// Over any pushes to an endpoint that has heard nothing: the audio of each utterance is
/// one stretch of all that was pushed, which ends with a frame and lies behind the
/// utterance before it, and it begins with no more than the padding. The result says
/// where each begins, and with how many frames it ends.
pub proof fn law_utterances_are_stretches<D: VoiceActivityDetector>(
    start: VoiceEndpoint<D>,
    turns: Seq<Turn<D>>,
    size: usize,
) -> (spots: Seq<(int, int)>)
    requires
        start.phase() == Phase::quiet(),
        start.pending() == Seq::<i16>::empty(),
        start.limits().padding >= 0,
        in_turn(start, turns),
        all_pushed(turns, size),
    ensures
        spots.len() == utterances(told(turns)).len(),
        forall|u: int|
            0 <= u < spots.len() ==> {
                let (from, last) = #[trigger] spots[u];
                &&& 0 <= from <= last * framed(size) <= fed(turns).len()
                &&& utterances(told(turns))[u] == fed(turns).subrange(from, last * framed(size))
            },
        forall|u: int, v: int|
            0 <= u < v < spots.len() ==> (#[trigger] spots[u]).1 * framed(size) <= (
            #[trigger] spots[v]).0,
        opened(told(turns), start.limits().padding),
        bracketed(false, told(turns)) == Some(reached(start, turns).phase().in_speech),
{
    law_calls_are_bracketed(start, turns);
    if turns.len() == 0 {
        Seq::empty()
    } else {
        lemma_took_all(start, turns, size);
        let n = framed(size);
        let audio = fed(turns);
        assert(start.pending() + audio =~= audio);
        let frames = whole_frames(audio, n);
        let asked = reached(start, turns).detector().history().skip(
            start.detector().history().len() as int,
        );
        let heard = judged(asked, start.threshold());
        assert forall|i: int| 0 <= i < frames.len() implies (#[trigger] heard[i]).0 == frames[i] by {
            assert(asked[i].frame == frames[i]);
        }
        let spots = lemma_run_stretches(start.limits(), heard);
        let said = utterances(told(turns));
        assert forall|u: int| 0 <= u < spots.len() implies {
            let (from, last) = #[trigger] spots[u];
            &&& 0 <= from <= last * n <= audio.len()
            &&& said[u] == audio.subrange(from, last * n)
        } by {
            let (from, last) = spots[u];
            lemma_front(audio, n, heard, frames, last);
            assert(audio.take(last * n).skip(from) =~= audio.subrange(from, last * n));
        }
        assert forall|u: int, v: int| 0 <= u < v < spots.len() implies (#[trigger] spots[u]).1 * n <= (
        #[trigger] spots[v]).0 by {
            lemma_front(audio, n, heard, frames, spots[u].1);
        }
        spots
    }
}

pub open spec fn strung(frames: Seq<Seq<i16>>) -> Seq<i16>
    decreases frames.len(),
{
    if frames.len() == 0 {
        Seq::empty()
    } else {
        strung(frames.drop_last()) + frames.last()
    }
}

proof fn lemma_strung_front(first: Seq<i16>, rest: Seq<Seq<i16>>)
    ensures
        strung(seq![first] + rest) == first + strung(rest),
    decreases rest.len(),
{
    let all = seq![first] + rest;
    if rest.len() == 0 {
        assert(all.drop_last() =~= Seq::empty());
        assert(all.last() == first);
        assert(strung(all.drop_last()) =~= Seq::empty());
        assert(strung(all) =~= first + strung(rest));
    } else {
        lemma_strung_front(first, rest.drop_last());
        assert(all.drop_last() =~= seq![first] + rest.drop_last());
        assert(all.last() == rest.last());
        assert(strung(all) =~= first + strung(rest));
    }
}

/// The silence at the end of some frames: the samples of those behind the last one
/// that is speech.
pub open spec fn hush(frames: Seq<(Seq<i16>, bool)>) -> int
    decreases frames.len(),
{
    if frames.len() == 0 || frames.last().1 {
        0
    } else {
        hush(frames.drop_last()) + frames.last().0.len()
    }
}

/// The speech at the end of some frames: the samples of those behind the last one that
/// is not speech.
pub open spec fn talking(frames: Seq<(Seq<i16>, bool)>) -> int
    decreases frames.len(),
{
    if frames.len() == 0 || !frames.last().1 {
        0
    } else {
        talking(frames.drop_last()) + frames.last().0.len()
    }
}

/// How many pieces of audio were handed on since the last start.
pub open spec fn handed_on(actions: Seq<ActionView>) -> int
    decreases actions.len(),
{
    if actions.len() == 0 {
        0
    } else {
        match actions.last() {
            ActionView::Start => 0,
            ActionView::Audio(_) => handed_on(actions.drop_last()) + 1,
            ActionView::Stop => handed_on(actions.drop_last()),
        }
    }
}

/// The greatest spans that can be counted.
pub open spec fn countable_limits(l: Limits) -> bool {
    0 <= l.padding && 0 <= l.confirm <= u64::MAX && 0 <= l.silence <= u64::MAX && 0 <= l.longest
        <= u64::MAX
}

/// What an endpoint keeps count of, told from the frames and what was handed on: in an
/// utterance, the silence behind its first piece and its whole length; outside of one,
/// the speech since it was quiet.
spec fn tallied(now: Phase, done: Seq<ActionView>, frames: Seq<(Seq<i16>, bool)>) -> bool {
    if now.in_speech {
        let behind = handed_on(done) - 1;
        &&& 0 <= behind <= frames.len()
        &&& now.silence == counted(hush(frames.skip(frames.len() - behind)), 0)
        &&& utterances(done).len() > 0
        &&& now.spoken == counted(utterances(done).last().len() as int, 0)
    } else {
        true
    }
}

proof fn lemma_hush_bound(frames: Seq<(Seq<i16>, bool)>)
    ensures
        hush(frames) >= 0,
        talking(frames) >= 0,
    decreases frames.len(),
{
    if frames.len() > 0 {
        lemma_hush_bound(frames.drop_last());
    }
}

proof fn lemma_handed_on_push(actions: Seq<ActionView>, next: ActionView)
    ensures
        handed_on(actions.push(next)) == match next {
            ActionView::Start => 0,
            ActionView::Audio(_) => handed_on(actions) + 1,
            ActionView::Stop => handed_on(actions),
        },
{
    assert(actions.push(next).drop_last() =~= actions);
}

#[verifier::spinoff_prover]
proof fn lemma_tallied(l: Limits, frames: Seq<(Seq<i16>, bool)>)
    requires
        countable_limits(l),
        sound(frames).len() <= u64::MAX,
    ensures
        tallied(
            Phase::quiet().run(l, frames).0,
            Phase::quiet().run(l, frames).1,
            frames,
        ),
    decreases frames.len(),
{
    if frames.len() > 0 {
        let some = frames.drop_last();
        let next = frames.last();
        let (now, done) = Phase::quiet().run(l, some);
        let (after, more) = now.step(l, next.0, next.1);
        assert(frames =~= some.push(next));
        assert(Phase::quiet().run(l, frames) == (after, done + more));
        assert(sound(frames) == sound(some) + next.0);
        lemma_tallied(l, some);
        if now.in_speech && after.in_speech {
            lemma_speech_tally(l, now, done, some, next);
            assert(done + more == done.push(ActionView::Audio(next.0)));
            assert(tallied(after, done + more, frames));
        } else if !now.in_speech && after.in_speech {
            let spots = lemma_run_stretches(l, some);
            assert(now.pre_roll.len() <= sound(some).len());
            lemma_start_tally(l, now, done, frames, next);
            assert(tallied(after, done + more, frames));
        }
    }
}

#[verifier::spinoff_prover]
proof fn lemma_start_tally(
    l: Limits,
    now: Phase,
    done: Seq<ActionView>,
    frames: Seq<(Seq<i16>, bool)>,
    next: (Seq<i16>, bool),
)
    requires
        0 <= l.padding,
        !now.in_speech,
        now.step(l, next.0, next.1).0.in_speech,
        now.pre_roll.len() + next.0.len() <= u64::MAX,
    ensures
        tallied(
            now.step(l, next.0, next.1).0,
            done + now.step(l, next.0, next.1).1,
            frames,
        ),
{
    let (after, more) = now.step(l, next.0, next.1);
    let roll = tail(now.pre_roll + next.0, l.padding);
    let started = done.push(ActionView::Start);
    lemma_handed_on_push(done, ActionView::Start);
    lemma_handed_on_push(started, ActionView::Audio(roll));
    lemma_utterances_push(done, ActionView::Start);
    lemma_utterances_push(started, ActionView::Audio(roll));
    assert(done + more =~= started.push(ActionView::Audio(roll)));
    assert(Seq::<i16>::empty() + roll =~= roll);
    assert(utterances(done + more).last() == roll);
    assert(handed_on(done + more) == 1);
    assert(frames.skip(frames.len() as int) =~= Seq::empty());
    assert(roll.len() <= (now.pre_roll + next.0).len());
    assert(after.spoken == roll.len());
    assert(after.silence == 0);
}

proof fn lemma_speech_tally(
    l: Limits,
    now: Phase,
    done: Seq<ActionView>,
    some: Seq<(Seq<i16>, bool)>,
    next: (Seq<i16>, bool),
)
    requires
        now.in_speech,
        tallied(now, done, some),
    ensures
        ({
            let more = done.push(ActionView::Audio(next.0));
            let frames = some.push(next);
            let behind = handed_on(more) - 1;
            &&& behind == handed_on(done)
            &&& 0 <= behind <= frames.len()
            &&& (if next.1 {
                0
            } else {
                counted(now.silence, next.0.len() as int)
            }) == counted(hush(frames.skip(frames.len() - behind)), 0)
            &&& utterances(more).len() > 0
            &&& utterances(more).last() == utterances(done).last() + next.0
            &&& counted(now.spoken, next.0.len() as int) == counted(
                utterances(more).last().len() as int,
                0,
            )
        }),
        now.step(l, next.0, next.1).0.in_speech ==> done + now.step(l, next.0, next.1).1
            =~= done.push(ActionView::Audio(next.0)),
{
    let frames = some.push(next);
    let behind = handed_on(done);
    lemma_handed_on_push(done, ActionView::Audio(next.0));
    lemma_utterances_push(done, ActionView::Audio(next.0));
    let late = frames.skip(frames.len() - behind);
    assert(late.drop_last() =~= some.skip(some.len() - (behind - 1)));
    assert(late.last() == next);
    lemma_hush_bound(late.drop_last());
}

/// In an utterance, a frame leads to a stop where the utterance has reached its greatest
/// length, or where the frames at its end, one directly behind the other and none of them
/// speech, make up the silence that ends it; and nowhere else. Silence that speech
/// interrupts before that counts for nothing.
pub proof fn law_stop_needs_silence_or_length(l: Limits, frames: Seq<(Seq<i16>, bool)>)
    requires
        countable_limits(l),
        sound(frames).len() <= u64::MAX,
        frames.len() > 0,
        bracketed(false, Phase::quiet().run(l, frames.drop_last()).1) == Some(true),
    ensures
        ({
            let done = Phase::quiet().run(l, frames.drop_last()).1;
            let all = Phase::quiet().run(l, frames).1;
            let here = frames.skip(frames.len() - handed_on(done));
            let said = utterances(done).last() + frames.last().0;
            let ends = hush(here) >= l.silence || said.len() >= l.longest;
            &&& 0 <= handed_on(done) <= frames.len()
            &&& ends ==> all == done.push(ActionView::Audio(frames.last().0)).push(
                ActionView::Stop,
            )
            &&& !ends ==> all == done.push(ActionView::Audio(frames.last().0))
        }),
{
    let some = frames.drop_last();
    let next = frames.last();
    let (now, done) = Phase::quiet().run(l, some);
    assert(frames =~= some.push(next));
    assert(sound(some).len() <= u64::MAX);
    law_utterances_are_bracketed(Phase::quiet(), l, some);
    lemma_tallied(l, some);
    lemma_speech_tally(l, now, done, some, next);
    lemma_hush_bound(frames.skip(frames.len() - handed_on(done)));
    let all = Phase::quiet().run(l, frames).1;
    let more = now.step(l, next.0, next.1).1;
    if more.len() == 2 {
        assert(all =~= done.push(ActionView::Audio(next.0)).push(ActionView::Stop));
    } else {
        assert(all =~= done.push(ActionView::Audio(next.0)));
    }
}

/// The speech since the endpoint was quiet, and all that it holds back.
proof fn lemma_waiting(l: Limits, frames: Seq<(Seq<i16>, bool)>)
    requires
        countable_limits(l),
        Phase::quiet().run(l, frames).1.len() == 0,
    ensures
        ({
            let now = Phase::quiet().run(l, frames).0;
            let heard = sound(frames);
            &&& !now.in_speech
            &&& now.streak == counted(talking(frames), 0)
            &&& now.pre_roll == tail(heard, l.padding)
        }),
    decreases frames.len(),
{
    law_utterances_are_bracketed(Phase::quiet(), l, frames);
    if frames.len() > 0 {
        let some = frames.drop_last();
        let next = frames.last();
        lemma_waiting(l, some);
        lemma_hush_bound(some);
        let heard = sound(some);
        assert(tail(tail(heard, l.padding) + next.0, l.padding) =~= tail(
            heard + next.0,
            l.padding,
        ));
    } else {
        assert(tail(sound(frames), l.padding) =~= Seq::empty());
    }
}

/// An utterance starts with the first frame that completes enough speech: the frames at
/// the end, one directly behind the other and all of them speech, make up the time that
/// confirms it. What is then handed on is the latest audio, as much of it as the padding.
pub proof fn law_start_needs_speech(l: Limits, frames: Seq<(Seq<i16>, bool)>)
    requires
        countable_limits(l),
        frames.len() > 0,
        Phase::quiet().run(l, frames.drop_last()).1.len() == 0,
    ensures
        ({
            let all = Phase::quiet().run(l, frames).1;
            let heard = sound(frames);
            let kept = if heard.len() < l.padding {
                heard.len() as int
            } else {
                l.padding
            };
            &&& talking(frames) < l.confirm ==> all.len() == 0
            &&& talking(frames) >= l.confirm ==> all == seq![
                ActionView::Start,
                ActionView::Audio(heard.skip(heard.len() - kept)),
            ]
        }),
{
    let some = frames.drop_last();
    let next = frames.last();
    lemma_waiting(l, some);
    lemma_hush_bound(some);
    let now = Phase::quiet().run(l, some).0;
    let done = Phase::quiet().run(l, some).1;
    let heard = sound(frames);
    let roll = tail(now.pre_roll + next.0, l.padding);
    assert(roll =~= tail(heard, l.padding));
    assert(done =~= Seq::empty());
    let all = Phase::quiet().run(l, frames).1;
    assert(all =~= now.step(l, next.0, next.1).1);
    if heard.len() <= l.padding {
        assert(heard.skip(heard.len() - heard.len()) =~= heard);
    }
    if talking(frames) >= l.confirm {
        let kept = if heard.len() < l.padding {
            heard.len() as int
        } else {
            l.padding
        };
        assert(roll =~= heard.skip(heard.len() - kept));
    }
}

/// Behind a stop all begins anew: what comes next leads to what it would lead to by itself.
pub proof fn law_stop_forgets(
    l: Limits,
    frames: Seq<(Seq<i16>, bool)>,
    more: Seq<(Seq<i16>, bool)>,
)
    requires
        Phase::quiet().run(l, frames).1.len() > 0,
        Phase::quiet().run(l, frames).1.last() == ActionView::Stop,
        frames.len() > 0,
        Phase::quiet().run(l, frames.drop_last()).1 != Phase::quiet().run(l, frames).1,
    ensures
        Phase::quiet().run(l, frames + more).1 == Phase::quiet().run(l, frames).1
            + Phase::quiet().run(l, more).1,
{
    let (now, done) = Phase::quiet().run(l, frames.drop_last());
    let (after, last) = now.step(l, frames.last().0, frames.last().1);
    assert(done + last == Phase::quiet().run(l, frames).1);
    if last.len() == 0 {
        assert(done + last =~= done);
    }
    assert((done + last).last() == last.last());
    assert(after == Phase::quiet());
    lemma_run_of_more(Phase::quiet(), l, frames, more);
}

/// A score from 0 to 1 is speech from the threshold on, the threshold itself included,
/// and a higher score is speech where a lower one is.
pub proof fn law_speech_from_the_threshold_on(score: Score, threshold: Score)
    requires
        score.bits <= ONE_BITS,
        threshold.bits <= ONE_BITS,
    ensures
        is_speech(score, threshold) <==> score.bits >= threshold.bits,
        score.confined() == score,
{
}

/// A score outside the range counts as its nearer end, and what is no number is no speech.
pub proof fn law_scores_are_confined(score: Score)
    ensures
        ONE_BITS < score.bits <= 0x7f80_0000 ==> score.confined().bits == ONE_BITS,
        0x8000_0000 < score.bits <= 0xff80_0000 ==> score.confined().bits == 0,
        0x7f80_0000 < score.bits < 0x8000_0000 || score.bits > 0xff80_0000 ==> !is_speech(
            score,
            Score { bits: 0 },
        ) && score.confined() == score,
{
}

/// A second at any rate has as many samples as the rate says, and spans add up by seconds.
pub proof fn law_span_of_seconds(rate: int, seconds: int)
    requires
        rate >= 0,
        seconds >= 0,
    ensures
        span(rate, 1000 * seconds) == rate * seconds,
{
    assert((rate * (1000 * seconds)) == (rate * seconds) * 1000) by (nonlinear_arith);
    let whole = rate * seconds;
    assert((whole * 1000) / 1000 == whole);
}

/// The detector may learn the background from a frame exactly where no utterance is open.
pub proof fn law_background_is_learnt_outside_utterances<D: VoiceActivityDetector>(
    before: VoiceEndpoint<D>,
    samples: Seq<i16>,
    after: VoiceEndpoint<D>,
    actions: Seq<ActionView>,
    i: int,
)
    requires
        took(before, samples, after, actions),
        0 <= i < after.detector().history().len() - before.detector().history().len(),
    ensures
        ({
            let asked = after.detector().history().skip(before.detector().history().len() as int);
            let told = before.phase().run(
                before.limits(),
                judged(asked.take(i), before.threshold()),
            ).1;
            asked[i].update_background <==> bracketed(before.phase().in_speech, told) == Some(false)
        }),
{
    let asked = after.detector().history().skip(before.detector().history().len() as int);
    law_utterances_are_bracketed(
        before.phase(),
        before.limits(),
        judged(asked.take(i), before.threshold()),
    );
    assert(asked[i].update_background == !before.phase().run(
        before.limits(),
        judged(asked.take(i), before.threshold()),
    ).0.in_speech);
}

/// At the end of the audio, an open utterance gets all that is left, and stops.
pub proof fn law_end_hands_on_the_rest<D: VoiceActivityDetector>(
    before: VoiceEndpoint<D>,
    after: VoiceEndpoint<D>,
    actions: Seq<ActionView>,
)
    requires
        ended(before, after, actions),
        before.phase().in_speech,
    ensures
        audio_in(actions) == before.pending(),
        actions.last() == ActionView::Stop,
        bracketed(true, actions) == Some(false),
{
    let rest = before.pending();
    let asked = after.detector().history().last();
    let speech = rest.len() > 0 && is_speech(asked.score, before.threshold());
    lemma_end_is_bracketed(before.phase(), before.limits(), rest, speech);
    if rest.len() > 0 {
        law_speech_is_handed_on(before.phase(), before.limits(), rest, speech);
        let told = before.phase().step(before.limits(), rest, speech).1;
        assert(told.push(ActionView::Stop).drop_last() =~= told);
    } else {
        assert(actions.drop_last() =~= Seq::empty());
        reveal_with_fuel(audio_in, 2);
    }
}

/// What is left at the end of the audio is asked about at the front of a frame of the
/// detector's size, with silence behind it.
pub proof fn law_last_frame_is_filled_up<D: VoiceActivityDetector>(
    before: VoiceEndpoint<D>,
    after: VoiceEndpoint<D>,
    actions: Seq<ActionView>,
)
    requires
        ended(before, after, actions),
        0 < before.pending().len() < before.detector().frame_size(),
    ensures
        ({
            let frame = after.detector().history().last().frame;
            let rest = before.pending();
            &&& frame.len() == before.detector().frame_size()
            &&& frame.take(rest.len() as int) == rest
            &&& forall|i: int| rest.len() <= i < frame.len() ==> #[trigger] frame[i] == 0
        }),
{
    let frame = after.detector().history().last().frame;
    assert(frame.take(before.pending().len() as int) =~= before.pending());
}

/// A count of samples makes up a span of time: it takes no longer than the span, and one
/// sample more would.
pub open spec fn makes_up(samples: int, rate: int, ms: int) -> bool {
    samples * 1000 <= rate * ms < (samples + 1) * 1000
}

/// Each limit of an endpoint is the time that its configuration gives for it, in samples: the
/// silence that ends an utterance, the speech that begins one, the sound kept from before
/// it, and its greatest length.
pub proof fn law_limits_are_the_configured_times(config: VoiceEndpointConfig, rate: u32)
    ensures
        makes_up(
            limits_for(config, rate).silence,
            rate as int,
            config.end_silence_ms as int,
        ),
        makes_up(
            limits_for(config, rate).confirm,
            rate as int,
            config.start_confirm_ms as int,
        ),
        makes_up(
            limits_for(config, rate).padding,
            rate as int,
            config.start_padding_ms as int,
        ),
        makes_up(
            limits_for(config, rate).longest,
            rate as int,
            config.max_utterance_ms as int,
        ),
{
}

/// The rate is the configured one, and the detector's where none is configured; it is never
/// zero.
pub proof fn law_rate_as_configured(config: VoiceEndpointConfig, detector_rate: u32)
    ensures
        config.sample_rate > 0 ==> rate_for(config, detector_rate) == config.sample_rate,
        config.sample_rate == 0 && detector_rate > 0 ==> rate_for(config, detector_rate)
            == detector_rate,
        rate_for(config, detector_rate) > 0,
{
}

} // verus!
