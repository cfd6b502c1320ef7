//! The audio that the service takes: 16 kHz mono, in frames of 20 ms.
use super::protocol::SAMPLE_RATE;
use crate::asr::AsrError;
#[allow(unused_imports)]
use crate::asr::AsrErrorView;
use crate::audio;
use crate::text;
use vstd::prelude::*;
use vstd::string::*;

verus! {

pub const FRAME_DURATION_MS: u32 = 20;

/// The samples of a frame.
pub const SAMPLES_PER_FRAME: usize = 320;

/// How the samples of a WAV file are written.
#[derive(Debug, Clone, Copy, PartialEq, Eq, Structural)]
pub struct WavFormat {
    pub float: bool,
    pub bits_per_sample: u16,
    pub sample_rate: u32,
    pub channels: u16,
}

/// The format that hound reads from the header of a WAV file, or what it says is
/// wrong with it.
pub uninterp spec fn wav_header(bytes: Seq<u8>) -> Result<WavFormat, Seq<char>>;

/// `hound::WavReader::new`, and the format that its reader gives.
#[verifier::external_body]
fn read_wav_header(bytes: &Vec<u8>) -> (r: Result<WavFormat, String>)
    ensures
        match r {
            Ok(f) => wav_header(bytes@) == Ok::<WavFormat, Seq<char>>(f),
            Err(e) => wav_header(bytes@) == Err::<WavFormat, Seq<char>>(e@),
        },
{
    match hound::WavReader::new(bytes.as_slice()).map(|reader| reader.spec()) {
        Ok(spec) => Ok(WavFormat {
            float: match spec.sample_format {
                hound::SampleFormat::Float => true,
                hound::SampleFormat::Int => false,
            },
            bits_per_sample: spec.bits_per_sample,
            sample_rate: spec.sample_rate,
            channels: spec.channels,
        }),
        Err(error) => Err(error.to_string()),
    }
}

/// The 16-bit samples that hound reads from a WAV file, or what goes wrong.
pub uninterp spec fn wav_samples(bytes: Seq<u8>) -> Result<Seq<i16>, Seq<char>>;

/// `hound::WavReader::into_samples`, for 16-bit samples, all of them.
#[verifier::external_body]
fn read_wav_samples(bytes: &Vec<u8>) -> (r: Result<Vec<i16>, String>)
    ensures
        match r {
            Ok(v) => wav_samples(bytes@) == Ok::<Seq<i16>, Seq<char>>(v@),
            Err(e) => wav_samples(bytes@) == Err::<Seq<i16>, Seq<char>>(e@),
        },
{
    match hound::WavReader::new(bytes.as_slice()) {
        Ok(reader) => reader.into_samples::<i16>().collect::<Result<Vec<i16>, hound::Error>>()
            .map_err(|error| error.to_string()),
        Err(error) => Err(error.to_string()),
    }
}

/// Interleaved samples as one channel.
pub fn to_mono(samples: &Vec<i16>, channels: u16) -> (r: Vec<i16>)
    ensures
        r@ == audio::mono(samples@, channels as int),
{
    assert(audio::samples(samples@) =~= samples@);
    audio::downmix_to_i16(samples.as_slice(), channels as usize)
}

/// Audio on its way to 16 kHz.
#[derive(Debug, Clone, PartialEq, Eq)]
pub enum Resampled {
    /// It has that rate.
    Ready(Vec<i16>),
    /// It is to be interpolated to so many samples.
    Stretch { mono: Vec<i16>, input_rate: u32, output_len: u64 },
}

/// How many samples there are after resampling: at least one.
pub open spec fn resampled_len(len: int, input_rate: int) -> int {
    let rate = if input_rate < 1 {
        1
    } else {
        input_rate
    };
    let n = (len * SAMPLE_RATE) / rate;
    if n < 1 {
        1
    } else {
        n
    }
}

/// What is left to do to have the samples at 16 kHz, in one channel.
pub fn resample_to_16k_mono(samples: &Vec<i16>, input_rate: u32, input_channels: u16) -> (r:
    Resampled)
    requires
        samples@.len() * SAMPLE_RATE <= u64::MAX,
    ensures
        ({
            let mono = audio::mono(samples@, input_channels as int);
            if input_rate == SAMPLE_RATE || mono.len() == 0 {
                r matches Resampled::Ready(v) && v@ == mono
            } else {
                r matches Resampled::Stretch { mono: m, input_rate: rate, output_len } && m@ == mono
                    && rate == input_rate && output_len == resampled_len(
                    mono.len() as int,
                    input_rate as int,
                )
            }
        }),
{
    let mono = to_mono(samples, input_channels);
    if input_rate == SAMPLE_RATE || mono.len() == 0 {
        return Resampled::Ready(mono);
    }
    proof {
        lemma_mono_len(samples@, input_channels as int);
    }
    let rate: u64 = if input_rate < 1 {
        1
    } else {
        input_rate as u64
    };
    let len: u64 = mono.len() as u64;
    assert(len * SAMPLE_RATE <= u64::MAX);
    let n: u64 = (len * SAMPLE_RATE as u64) / rate;
    let output_len: u64 = if n < 1 {
        1
    } else {
        n
    };
    Resampled::Stretch { mono, input_rate, output_len }
}

proof fn lemma_mono_len(data: Seq<i16>, channels: int)
    ensures
        audio::mono(data, channels).len() <= data.len(),
    decreases data.len(),
{
    if channels > 1 && data.len() > 0 {
        let n = audio::shorter(channels, data.len() as int);
        lemma_mono_len(data.subrange(n, data.len() as int), channels);
    }
}

pub open spec fn format_words(f: WavFormat) -> Seq<char> {
    (if f.float {
        "Float"@
    } else {
        "Int"@
    }) + " "@ + text::decimal(f.bits_per_sample as nat) + "-bit"@
}

/// What becomes of audio whose header and samples were read.
pub open spec fn pcm_fault(f: WavFormat, samples: Result<Seq<i16>, Seq<char>>, name: Seq<char>) -> Option<
    Seq<char>,
> {
    if f.float || f.bits_per_sample != 16 {
        Some(
            "doubao currently accepts 16-bit PCM WAV input, got "@ + format_words(f) + " in "@
                + name,
        )
    } else {
        match samples {
            Err(e) => Some("failed to read WAV samples from "@ + name + ": "@ + e),
            Ok(_) => None,
        }
    }
}

/// Takes 16-bit PCM only.
pub fn check_pcm_format(format: WavFormat, name: &str) -> (r: Result<(), AsrError>)
    ensures
        r is Ok <==> !format.float && format.bits_per_sample == 16,
        r matches Err(e) ==> e@ == AsrErrorView::Input(
            "doubao currently accepts 16-bit PCM WAV input, got "@ + format_words(format) + " in "@
                + name@,
        ),
{
    if format.float || format.bits_per_sample != 16 {
        let kind = if format.float {
            "Float"
        } else {
            "Int"
        };
        let words = text::cat4(
            kind,
            " ",
            text::number(format.bits_per_sample as u64).as_str(),
            "-bit",
        );
        return Err(
            AsrError::Input(
                text::cat4(
                    "doubao currently accepts 16-bit PCM WAV input, got ",
                    words.as_str(),
                    " in ",
                    name,
                ),
            ),
        );
    }
    Ok(())
}

/// The samples of a WAV file, with their format. `intro` begins the message where
/// the file is none.
pub fn read_wav(bytes: &Vec<u8>, intro: &str, name: &str) -> (r: Result<
    (Vec<i16>, WavFormat),
    AsrError,
>)
    ensures
        match wav_header(bytes@) {
            Err(e) => r is Err && r->Err_0@ == AsrErrorView::Input(intro@ + name@ + ": "@ + e),
            Ok(f) => match pcm_fault(f, wav_samples(bytes@), name@) {
                Some(m) => r is Err && r->Err_0@ == AsrErrorView::Input(m),
                None => r is Ok && wav_samples(bytes@) == Ok::<Seq<i16>, Seq<char>>(r->Ok_0.0@)
                    && r->Ok_0.1 == f,
            },
        },
{
    let format = match read_wav_header(bytes) {
        Ok(f) => f,
        Err(e) => {
            return Err(AsrError::Input(text::cat4(intro, name, ": ", e.as_str())));
        },
    };
    match check_pcm_format(format, name) {
        Err(e) => {
            return Err(e);
        },
        Ok(()) => {},
    }
    match read_wav_samples(bytes) {
        Ok(samples) => Ok((samples, format)),
        Err(e) => Err(
            AsrError::Input(
                text::cat4("failed to read WAV samples from ", name, ": ", e.as_str()),
            ),
        ),
    }
}

/// The samples of a WAV file that was read into memory.
pub fn read_wav_file(bytes: &Vec<u8>, name: &str) -> (r: Result<(Vec<i16>, WavFormat), AsrError>)
    ensures
        match wav_header(bytes@) {
            Err(e) => r is Err && r->Err_0@ == AsrErrorView::Input(
                "doubao currently accepts WAV input; failed to open "@ + name@ + ": "@ + e,
            ),
            Ok(f) => match pcm_fault(f, wav_samples(bytes@), name@) {
                Some(m) => r is Err && r->Err_0@ == AsrErrorView::Input(m),
                None => r is Ok && wav_samples(bytes@) == Ok::<Seq<i16>, Seq<char>>(r->Ok_0.0@)
                    && r->Ok_0.1 == f,
            },
        },
{
    read_wav(bytes, "doubao currently accepts WAV input; failed to open ", name)
}

/// The samples of WAV audio that was handed over as bytes.
pub fn read_wav_bytes(bytes: &Vec<u8>, name: &str) -> (r: Result<(Vec<i16>, WavFormat), AsrError>)
    ensures
        match wav_header(bytes@) {
            Err(e) => r is Err && r->Err_0@ == AsrErrorView::Input(
                "doubao currently accepts WAV bytes: "@ + name@ + ": "@ + e,
            ),
            Ok(f) => match pcm_fault(f, wav_samples(bytes@), name@) {
                Some(m) => r is Err && r->Err_0@ == AsrErrorView::Input(m),
                None => r is Ok && wav_samples(bytes@) == Ok::<Seq<i16>, Seq<char>>(r->Ok_0.0@)
                    && r->Ok_0.1 == f,
            },
        },
{
    read_wav(bytes, "doubao currently accepts WAV bytes: ", name)
}

/// The frame at the front of the samples, filled up with silence.
pub open spec fn frame_at(pcm: Seq<i16>, at: int) -> Seq<i16> {
    Seq::new(
        SAMPLES_PER_FRAME as nat,
        |i: int|
            if at + i < pcm.len() {
                pcm[at + i]
            } else {
                0i16
            },
    )
}

/// The frames from a place on.
pub open spec fn frames_from(pcm: Seq<i16>, at: int) -> Seq<Seq<i16>>
    decreases
            (if at < pcm.len() {
                pcm.len() - at
            } else {
                0
            }),
{
    if at < 0 || at >= pcm.len() {
        Seq::empty()
    } else {
        seq![frame_at(pcm, at)] + frames_from(pcm, at + SAMPLES_PER_FRAME)
    }
}

pub open spec fn frame_views(v: Seq<Vec<i16>>) -> Seq<Seq<i16>> {
    Seq::new(v.len(), |i: int| v[i]@)
}

/// The samples in frames, the last one filled up with silence.
pub fn pcm_frames(pcm: &Vec<i16>) -> (r: Vec<Vec<i16>>)
    ensures
        frame_views(r@) == frames_from(pcm@, 0),
{
    let mut r: Vec<Vec<i16>> = Vec::new();
    let n: usize = pcm.len();
    let mut at: usize = 0;
    assert(frame_views(r@) + frames_from(pcm@, 0) =~= frames_from(pcm@, 0));
    while at < n
        invariant
            at <= n,
            n == pcm@.len(),
            frames_from(pcm@, 0) == frame_views(r@) + frames_from(pcm@, at as int),
        decreases n - at,
    {
        let mut frame: Vec<i16> = Vec::new();
        let mut i: usize = 0;
        while i < SAMPLES_PER_FRAME
            invariant
                i <= SAMPLES_PER_FRAME,
                at < n,
                n == pcm@.len(),
                frame@ == frame_at(pcm@, at as int).take(i as int),
            decreases SAMPLES_PER_FRAME - i,
        {
            if i < n - at {
                frame.push(pcm[at + i]);
            } else {
                frame.push(0);
            }
            assert(frame@ =~= frame_at(pcm@, at as int).take(i + 1));
            i = i + 1;
        }
        assert(frame@ =~= frame_at(pcm@, at as int));
        let ghost before = frame_views(r@);
        let ghost rest = frames_from(pcm@, at + SAMPLES_PER_FRAME);
        r.push(frame);
        proof {
            assert(frame_views(r@) =~= before.push(frame@));
            assert(before + (seq![frame@] + rest) =~= frame_views(r@) + rest);
        }
        if n - at > SAMPLES_PER_FRAME {
            at = at + SAMPLES_PER_FRAME;
        } else {
            assert(rest =~= frames_from(pcm@, n as int));
            at = n;
        }
    }
    assert(frame_views(r@) + Seq::<Seq<i16>>::empty() =~= frame_views(r@));
    r
}

/// Every sample is in its frame, and behind the last one is silence.
pub proof fn law_frames_hold_the_samples(pcm: Seq<i16>, at: int, i: int, k: int)
    requires
        0 <= at,
        0 <= i < frames_from(pcm, at).len(),
        0 <= k < SAMPLES_PER_FRAME,
    ensures
        frames_from(pcm, at)[i].len() == SAMPLES_PER_FRAME,
        frames_from(pcm, at)[i][k] == if at + i * SAMPLES_PER_FRAME + k < pcm.len() {
            pcm[at + i * SAMPLES_PER_FRAME + k]
        } else {
            0i16
        },
    decreases i,
{
    if i > 0 {
        law_frames_hold_the_samples(pcm, at + SAMPLES_PER_FRAME, i - 1, k);
        assert(frames_from(pcm, at)[i] == frames_from(pcm, at + SAMPLES_PER_FRAME)[i - 1]);
    }
}

/// There are just as many frames as the samples need: the last one holds at least one
/// sample, and no sample is behind it.
pub proof fn law_frames_are_as_many_as_needed(pcm: Seq<i16>, at: int)
    requires
        0 <= at,
    ensures
        at < pcm.len() ==> {
            let n = frames_from(pcm, at).len();
            at + (n - 1) * SAMPLES_PER_FRAME < pcm.len() <= at + n * SAMPLES_PER_FRAME
        },
        at >= pcm.len() ==> frames_from(pcm, at).len() == 0,
    decreases
            (if at < pcm.len() {
                pcm.len() - at
            } else {
                0
            }),
{
    if at < pcm.len() {
        law_frames_are_as_many_as_needed(pcm, at + SAMPLES_PER_FRAME);
    }
}

/// Resampling keeps the time: after it there are as many samples as fit into the time that
/// the samples took before, and never none.
pub proof fn law_resampling_keeps_the_time(len: int, input_rate: int)
    requires
        0 <= len,
        0 < input_rate,
    ensures
        ({
            let n = resampled_len(len, input_rate);
            &&& n >= 1
            &&& n > 1 ==> n * input_rate <= len * 16_000
            &&& len * 16_000 < (n + 1) * input_rate
        }),
{
    let total = len * 16_000;
    let q = total / input_rate;
    vstd::arithmetic::div_mod::lemma_fundamental_div_mod(total, input_rate);
    vstd::arithmetic::div_mod::lemma_mod_bound(total, input_rate);
    assert(input_rate * q == q * input_rate) by (nonlinear_arith);
    assert((q + 1) * input_rate == q * input_rate + input_rate) by (nonlinear_arith);
    let n = resampled_len(len, input_rate);
    if n != q {
        assert((n + 1) * input_rate >= (q + 1) * input_rate) by (nonlinear_arith)
            requires
                n >= q,
                input_rate > 0,
        ;
    }
}

/// Only integers of 16 bits are taken, and those always where they can be read.
pub proof fn law_only_sixteen_bit_integers(
    f: WavFormat,
    samples: Result<Seq<i16>, Seq<char>>,
    name: Seq<char>,
)
    ensures
        pcm_fault(f, samples, name) is None <==> !f.float && f.bits_per_sample == 16 && samples is Ok,
{
}

} // verus!
