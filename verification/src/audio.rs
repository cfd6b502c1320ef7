//! Microphone audio: samples, devices and the errors of recording.
use crate::asr::Duration;
use crate::text;
use vstd::prelude::*;
use vstd::string::*;

verus! {

#[derive(Debug, Clone, PartialEq, Eq)]
pub enum AudioError {
    NoInputDevice,
    InputDevices(String),
    NoUsableInputDevice(String),
    MicrophonePermissionDenied,
    MicrophonePermissionUnknown,
    DefaultConfig(String),
    SupportedConfigs(String),
    NoSupportedInputConfig,
    BuildStream(String),
    PlayStream(String),
    CreateWav(String),
    WriteWav(String),
    FinalizeWav(String),
    Stream(String),
}

pub type AudioResult<T> = Result<T, AudioError>;

impl AudioError {
    pub open spec fn words(self) -> Seq<char> {
        match self {
            AudioError::NoInputDevice => "no default input audio device is available"@,
            AudioError::InputDevices(e) => "failed to enumerate input audio devices: "@ + e@,
            AudioError::NoUsableInputDevice(e) => "no usable input audio device found: "@ + e@,
            AudioError::MicrophonePermissionDenied => "microphone permission was denied"@,
            AudioError::MicrophonePermissionUnknown =>
                "failed to determine microphone permission"@,
            AudioError::DefaultConfig(e) => "failed to read default input config: "@ + e@,
            AudioError::SupportedConfigs(e) =>
                "failed to enumerate input configs after default config failed: "@ + e@,
            AudioError::NoSupportedInputConfig =>
                "input device did not report any supported configs"@,
            AudioError::BuildStream(e) => "failed to build input stream: "@ + e@,
            AudioError::PlayStream(e) => "failed to start input stream: "@ + e@,
            AudioError::CreateWav(e) => "failed to create WAV writer: "@ + e@,
            AudioError::WriteWav(e) => "failed to write WAV data: "@ + e@,
            AudioError::FinalizeWav(e) => "failed to finalize WAV data: "@ + e@,
            AudioError::Stream(e) => "audio device stream error: "@ + e@,
        }
    }

    /// The error in words.
    pub fn message(&self) -> (r: String)
        ensures
            r@ == self.words(),
    {
        match self {
            AudioError::NoInputDevice => text::copy("no default input audio device is available"),
            AudioError::InputDevices(e) => text::cat(
                "failed to enumerate input audio devices: ",
                e.as_str(),
            ),
            AudioError::NoUsableInputDevice(e) => text::cat(
                "no usable input audio device found: ",
                e.as_str(),
            ),
            AudioError::MicrophonePermissionDenied => text::copy(
                "microphone permission was denied",
            ),
            AudioError::MicrophonePermissionUnknown => text::copy(
                "failed to determine microphone permission",
            ),
            AudioError::DefaultConfig(e) => text::cat(
                "failed to read default input config: ",
                e.as_str(),
            ),
            AudioError::SupportedConfigs(e) => text::cat(
                "failed to enumerate input configs after default config failed: ",
                e.as_str(),
            ),
            AudioError::NoSupportedInputConfig => text::copy(
                "input device did not report any supported configs",
            ),
            AudioError::BuildStream(e) => text::cat("failed to build input stream: ", e.as_str()),
            AudioError::PlayStream(e) => text::cat("failed to start input stream: ", e.as_str()),
            AudioError::CreateWav(e) => text::cat("failed to create WAV writer: ", e.as_str()),
            AudioError::WriteWav(e) => text::cat("failed to write WAV data: ", e.as_str()),
            AudioError::FinalizeWav(e) => text::cat("failed to finalize WAV data: ", e.as_str()),
            AudioError::Stream(e) => text::cat("audio device stream error: ", e.as_str()),
        }
    }
}

#[derive(Debug, Clone, Copy, PartialEq, Eq, Structural)]
pub struct RecordingInfo {
    pub sample_rate: u32,
    pub channels: u16,
    pub duration: Duration,
}

#[derive(Debug, Clone, PartialEq, Eq)]
pub struct InputDeviceInfo {
    pub name: String,
    pub sample_rate: u32,
    pub channels: u16,
    pub sample_format: String,
}

/// The format of the frames of a live stream.
#[derive(Debug, Clone, Copy, PartialEq, Eq, Structural)]
pub struct InputStreamInfo {
    pub sample_rate: u32,
    pub channels: u16,
}

/// The format of a live stream from a device of that rate: it is always mono.
pub fn stream_info(sample_rate: u32) -> (r: InputStreamInfo)
    ensures
        r == (InputStreamInfo { sample_rate, channels: 1 }),
{
    InputStreamInfo { sample_rate, channels: 1 }
}

/// What the system answers when it is asked for the microphone.
pub fn microphone_permission(status: i32) -> (r: Result<(), AudioError>)
    ensures
        match status {
            0 => r is Ok,
            1 => r == Err::<(), AudioError>(AudioError::MicrophonePermissionDenied),
            _ => r == Err::<(), AudioError>(AudioError::MicrophonePermissionUnknown),
        },
{
    if status == 0 {
        Ok(())
    } else if status == 1 {
        Err(AudioError::MicrophonePermissionDenied)
    } else {
        Err(AudioError::MicrophonePermissionUnknown)
    }
}

/// The sample formats that can be recorded.
#[derive(Debug, Clone, Copy, PartialEq, Eq, Structural)]
pub enum SampleKind {
    F32,
    I16,
    U16,
}

/// The kind of a device's samples, by the name of their format.
pub fn sample_kind(format: &str) -> (r: Result<SampleKind, AudioError>)
    ensures
        match r {
            Ok(SampleKind::F32) => format@ == "F32"@,
            Ok(SampleKind::I16) => format@ == "I16"@,
            Ok(SampleKind::U16) => format@ == "U16"@,
            Err(AudioError::Stream(m)) => format@ != "F32"@ && format@ != "I16"@ && format@
                != "U16"@ && m@ == "unsupported input sample format: "@ + format@,
            Err(_) => false,
        },
{
    if text::same(format, "F32") {
        Ok(SampleKind::F32)
    } else if text::same(format, "I16") {
        Ok(SampleKind::I16)
    } else if text::same(format, "U16") {
        Ok(SampleKind::U16)
    } else {
        Err(AudioError::Stream(text::cat("unsupported input sample format: ", format)))
    }
}

/// What came of trying a device: nothing wrong, or why it cannot be used.
pub type Probe = Option<String>;

/// The device to record from: the default one, or one of the list.
#[derive(Debug, Clone, Copy, PartialEq, Eq, Structural)]
pub enum InputChoice {
    Default,
    Listed(usize),
}

/// The first device of the list that can be used.
pub open spec fn first_usable(devices: Seq<Probe>) -> int
    decreases devices.len(),
{
    if devices.len() == 0 || devices[0] is None {
        0
    } else {
        1 + first_usable(devices.subrange(1, devices.len() as int))
    }
}

/// Why the default device cannot be used.
pub open spec fn default_fault(default: Option<Probe>) -> Seq<char> {
    match default {
        Some(Some(e)) => "default input: "@ + e@,
        _ => "no default input audio device is available"@,
    }
}

pub open spec fn faults(devices: Seq<Probe>) -> Seq<Seq<char>> {
    Seq::new(devices.len(), |i: int| devices[i]->0@)
}

proof fn lemma_first_usable(devices: Seq<Probe>, i: int)
    requires
        0 <= i <= devices.len(),
        forall|j: int| 0 <= j < i ==> devices[j] is Some,
        i < devices.len() ==> devices[i] is None,
    ensures
        first_usable(devices) == i,
    decreases i,
{
    if i > 0 {
        lemma_first_usable(devices.subrange(1, devices.len() as int), i - 1);
    }
}

/// Picks the device to record from. `default` is what came of trying the default
/// device, where there is one; `devices` what came of trying the others, or why
/// they could not be listed.
pub fn choose_input(default: &Option<Probe>, devices: &Result<Vec<Probe>, String>) -> (r: Result<
    InputChoice,
    AudioError,
>)
    ensures
        if *default == Some(None::<String>) {
            r == Ok::<InputChoice, AudioError>(InputChoice::Default)
        } else {
            match devices {
                Err(e) => r matches Err(AudioError::InputDevices(m)) && m@ == e@,
                Ok(all) => if first_usable(all@) < all@.len() {
                    r matches Ok(InputChoice::Listed(i)) && i == first_usable(all@)
                } else {
                    r matches Err(AudioError::NoUsableInputDevice(m)) && m@ == text::joined(
                        seq![default_fault(*default)] + faults(all@),
                        "; "@,
                    )
                },
            }
        },
        match r {
            Ok(choice) => taken_input(
                *default,
                match devices {
                    Ok(all) => Some(all@),
                    Err(_) => None,
                },
            ) == Some(choice),
            Err(_) => taken_input(
                *default,
                match devices {
                    Ok(all) => Some(all@),
                    Err(_) => None,
                },
            ) is None,
        },
{
    let mut errors: Vec<String> = Vec::new();
    match default {
        Some(None) => {
            return Ok(InputChoice::Default);
        },
        Some(Some(e)) => {
            errors.push(text::cat("default input: ", e.as_str()));
        },
        None => {
            errors.push(AudioError::NoInputDevice.message());
        },
    }
    let all = match devices {
        Err(e) => {
            return Err(AudioError::InputDevices(text::copy(e.as_str())));
        },
        Ok(all) => all,
    };
    let ghost expected = seq![default_fault(*default)] + faults(all@);
    assert(text::texts(errors@) =~= expected.take(1));
    let mut i: usize = 0;
    while i < all.len()
        invariant
            i <= all@.len(),
            forall|j: int| 0 <= j < i ==> all@[j] is Some,
            expected == seq![default_fault(*default)] + faults(all@),
            text::texts(errors@) == expected.take(1 + i),
            *devices == Ok::<Vec<Probe>, String>(*all),
            *default != Some(None::<String>),
        decreases all@.len() - i,
    {
        match &all[i] {
            None => {
                proof {
                    lemma_first_usable(all@, i as int);
                }
                return Ok(InputChoice::Listed(i));
            },
            Some(e) => {
                let ghost before = text::texts(errors@);
                errors.push(text::copy(e.as_str()));
                proof {
                    assert(text::texts(errors@) =~= before.push(e@));
                    assert(expected[1 + i] == e@);
                    assert(expected.take(2 + i) =~= expected.take(1 + i).push(e@));
                }
            },
        }
        i = i + 1;
    }
    proof {
        lemma_first_usable(all@, all@.len() as int);
        assert(expected.take(1 + i) =~= expected);
    }
    Err(AudioError::NoUsableInputDevice(text::join(&errors, "; ")))
}

/// A sample of some format, as a signed 16-bit one.
pub trait IntoSampleI16: Sized {
    spec fn sample(self) -> i16;

    fn into_i16(self) -> (r: i16)
        ensures
            r == self.sample(),
    ;
}

impl IntoSampleI16 for i16 {
    open spec fn sample(self) -> i16 {
        self
    }

    fn into_i16(self) -> (r: i16) {
        self
    }
}

impl IntoSampleI16 for u16 {
    /// An unsigned sample is centred at 32768.
    open spec fn sample(self) -> i16 {
        (self - 32768) as i16
    }

    fn into_i16(self) -> (r: i16) {
        (self as i32 - 32768) as i16
    }
}

pub open spec fn samples<S: IntoSampleI16>(data: Seq<S>) -> Seq<i16> {
    Seq::new(data.len(), |i: int| data[i].sample())
}

pub open spec fn total(frame: Seq<i16>) -> int
    decreases frame.len(),
{
    if frame.len() == 0 {
        0
    } else {
        total(frame.drop_last()) + frame.last()
    }
}

/// Division that drops the fraction.
pub open spec fn quotient(a: int, b: int) -> int {
    if a >= 0 {
        a / b
    } else {
        -((-a) / b)
    }
}

/// The mean of the samples of one moment, its fraction dropped.
pub open spec fn mean(frame: Seq<i16>) -> i16 {
    quotient(total(frame), frame.len() as int) as i16
}

pub open spec fn shorter(a: int, b: int) -> int {
    if a < b {
        a
    } else {
        b
    }
}

/// Interleaved samples as one channel: the mean of each moment, the last one as
/// far as it goes.
pub open spec fn mono(data: Seq<i16>, channels: int) -> Seq<i16>
    decreases data.len(),
{
    if channels <= 1 {
        data
    } else if data.len() == 0 {
        Seq::empty()
    } else {
        let n = shorter(channels, data.len() as int);
        seq![mean(data.subrange(0, n))] + mono(data.subrange(n, data.len() as int), channels)
    }
}

proof fn lemma_total_bounds(frame: Seq<i16>)
    ensures
        -32768 * frame.len() <= total(frame) <= 32767 * frame.len(),
    decreases frame.len(),
{
    if frame.len() > 0 {
        lemma_total_bounds(frame.drop_last());
    }
}

/// The mean of samples is a sample: no value is cut off.
pub proof fn law_mean_in_range(frame: Seq<i16>)
    requires
        frame.len() > 0,
    ensures
        -32768 <= quotient(total(frame), frame.len() as int) <= 32767,
{
    lemma_total_bounds(frame);
    let t = total(frame);
    let n = frame.len() as int;
    if t >= 0 {
        assert(0 <= t / n <= 32767) by (nonlinear_arith)
            requires
                0 <= t <= 32767 * n,
                n > 0,
        ;
    } else {
        assert(0 <= (-t) / n <= 32768) by (nonlinear_arith)
            requires
                0 <= -t <= 32768 * n,
                n > 0,
        ;
    }
}

fn mean_of<S: IntoSampleI16 + Copy>(data: &[S], from: usize, to: usize) -> (r: i16)
    requires
        from < to <= data@.len(),
        to - from <= 65535,
    ensures
        r == mean(samples(data@).subrange(from as int, to as int)),
{
    let ghost frame = samples(data@).subrange(from as int, to as int);
    let mut sum: i64 = 0;
    let mut i: usize = from;
    while i < to
        invariant
            from <= i <= to <= data@.len(),
            to - from <= 65535,
            frame == samples(data@).subrange(from as int, to as int),
            sum == total(frame.take(i - from)),
            -32768 * (i - from) <= sum <= 32767 * (i - from),
        decreases to - i,
    {
        proof {
            assert(frame.take(i - from + 1).drop_last() =~= frame.take(i - from));
        }
        sum = sum + data[i].into_i16() as i64;
        i = i + 1;
    }
    assert(frame.take(to - from) =~= frame);
    proof {
        law_mean_in_range(frame);
    }
    let n: i64 = (to - from) as i64;
    if sum >= 0 {
        (sum / n) as i16
    } else {
        (-((-sum) / n)) as i16
    }
}

/// Downmixes interleaved samples to one channel.
pub fn downmix_to_i16<S: IntoSampleI16 + Copy>(data: &[S], channels: usize) -> (r: Vec<i16>)
    requires
        channels <= 65535,
    ensures
        r@ == mono(samples(data@), channels as int),
{
    let mut r: Vec<i16> = Vec::new();
    let ghost all = samples(data@);
    let n: usize = data.len();
    let mut i: usize = 0;
    assert(all.subrange(0, n as int) =~= all);
    if channels <= 1 {
        while i < n
            invariant
                i <= n,
                n == data@.len(),
                all == samples(data@),
                r@ == all.take(i as int),
            decreases n - i,
        {
            r.push(data[i].into_i16());
            assert(all.take(i + 1) =~= all.take(i as int).push(all[i as int]));
            i = i + 1;
        }
        assert(all.take(n as int) =~= all);
        return r;
    }
    assert(r@ + mono(all, channels as int) =~= mono(all, channels as int));
    while i < n
        invariant
            i <= n,
            n == data@.len(),
            1 < channels <= 65535,
            all == samples(data@),
            mono(all, channels as int) == r@ + mono(
                all.subrange(i as int, n as int),
                channels as int,
            ),
        decreases n - i,
    {
        let step: usize = if channels < n - i {
            channels
        } else {
            n - i
        };
        let ghost rest = all.subrange(i as int, n as int);
        let ghost before = r@;
        let m = mean_of(data, i, i + step);
        r.push(m);
        proof {
            assert(rest.subrange(0, step as int) =~= all.subrange(i as int, i + step));
            assert(rest.subrange(step as int, rest.len() as int) =~= all.subrange(
                i + step,
                n as int,
            ));
            let tail = mono(all.subrange(i + step, n as int), channels as int);
            assert(before + (seq![m] + tail) =~= r@ + tail);
        }
        i = i + step;
    }
    assert(all.subrange(n as int, n as int).len() == 0);
    assert(r@ + Seq::<i16>::empty() =~= r@);
    r
}

/// The device that stands in for the default one has no fault, every one before it has, and
/// there is none only where every device has a fault.
pub proof fn law_first_device_without_fault(devices: Seq<Probe>)
    ensures
        0 <= first_usable(devices) <= devices.len(),
        first_usable(devices) < devices.len() ==> devices[first_usable(devices)] is None,
        forall|j: int| 0 <= j < first_usable(devices) ==> (#[trigger] devices[j]) is Some,
    decreases devices.len(),
{
    if devices.len() > 0 && devices[0] is Some {
        let rest = devices.subrange(1, devices.len() as int);
        law_first_device_without_fault(rest);
        assert forall|j: int| 0 <= j < first_usable(devices) implies (#[trigger] devices[j]) is Some by {
            if j > 0 {
                assert(rest[j - 1] == devices[j]);
            }
        }
    }
}

/// A frame's total is that of its parts, and that of one sample is the sample.
pub proof fn law_total_adds_up(a: Seq<i16>, b: Seq<i16>, x: i16)
    ensures
        total(a + b) == total(a) + total(b),
        total(seq![x]) == x,
        total(Seq::<i16>::empty()) == 0,
    decreases b.len(),
{
    reveal_with_fuel(total, 2);
    assert(seq![x].drop_last() =~= Seq::<i16>::empty());
    if b.len() == 0 {
        assert(a + b =~= a);
    } else {
        law_total_adds_up(a, b.drop_last(), x);
        assert((a + b).drop_last() =~= a + b.drop_last());
    }
}

/// The mean lies within one of the exact mean, on the side of silence.
pub proof fn law_mean_is_rounded_to_silence(frame: Seq<i16>)
    requires
        frame.len() > 0,
    ensures
        ({
            let n = frame.len() as int;
            let t = total(frame);
            &&& t >= 0 ==> mean(frame) >= 0 && mean(frame) * n <= t < (mean(frame) + 1) * n
            &&& t <= 0 ==> mean(frame) <= 0 && (mean(frame) - 1) * n < t <= mean(frame) * n
        }),
{
    law_mean_in_range(frame);
    let n = frame.len() as int;
    let t = total(frame);
    let a = if t >= 0 {
        t
    } else {
        -t
    };
    let q = a / n;
    vstd::arithmetic::div_mod::lemma_fundamental_div_mod(a, n);
    vstd::arithmetic::div_mod::lemma_mod_bound(a, n);
    vstd::arithmetic::div_mod::lemma_div_pos_is_pos(a, n);
    assert(n * q == q * n) by (nonlinear_arith);
    assert((q + 1) * n == q * n + n) by (nonlinear_arith);
    assert((-q) * n == -(q * n)) by (nonlinear_arith);
    assert((-q - 1) * n == -(q * n) - n) by (nonlinear_arith);
}

/// Each sample of the one channel is the mean of the samples that the channels had at that
/// moment, and no moment is left out; one channel stays as it is.
pub proof fn law_mono_takes_the_mean_of_each_moment(data: Seq<i16>, channels: int, i: int)
    requires
        channels > 1,
        0 <= i,
    ensures
        mono(data, 1) == data,
        i < mono(data, channels).len() <==> i * channels < data.len(),
        i * channels < data.len() ==> mono(data, channels)[i] == mean(
            data.subrange(
                i * channels,
                if (i + 1) * channels < data.len() {
                    (i + 1) * channels
                } else {
                    data.len() as int
                },
            ),
        ),
    decreases i,
{
    assert(0 <= i * channels) by (nonlinear_arith)
        requires
            0 <= i,
            channels > 1,
    ;
    assert((i + 1) * channels == i * channels + channels) by (nonlinear_arith);
    if data.len() > 0 {
        let n = shorter(channels, data.len() as int);
        let rest = data.subrange(n, data.len() as int);
        if i == 0 {
            assert(0 * channels == 0) by (nonlinear_arith);
        } else {
            law_mono_takes_the_mean_of_each_moment(rest, channels, i - 1);
            assert((i - 1) * channels == i * channels - channels) by (nonlinear_arith);
            assert(i * channels >= channels) by (nonlinear_arith)
                requires
                    i >= 1,
                    channels > 1,
            ;
            if i * channels < data.len() {
                let to = if (i + 1) * channels < data.len() {
                    (i + 1) * channels
                } else {
                    data.len() as int
                };
                assert(rest.subrange((i - 1) * channels, to - n) =~= data.subrange(
                    i * channels,
                    to,
                ));
            }
        }
    }
}

/// The input that is taken of the default one and the listed ones, if one is.
pub open spec fn taken_input(default: Option<Probe>, devices: Option<Seq<Probe>>) -> Option<
    InputChoice,
> {
    if default == Some(None::<String>) {
        Some(InputChoice::Default)
    } else {
        match devices {
            None => None,
            Some(all) => if first_usable(all) < all.len() {
                Some(InputChoice::Listed(first_usable(all) as usize))
            } else {
                None
            },
        }
    }
}

/// The default input is taken where it has no fault. Else the first listed one without a
/// fault is, and none only where all have one or they cannot be listed.
pub proof fn law_default_input_goes_first(
    default: Option<Probe>,
    devices: Option<Seq<Probe>>,
    i: int,
)
    requires
        devices matches Some(all) ==> all.len() <= usize::MAX,
    ensures
        (default matches Some(fault) && fault is None) ==> taken_input(default, devices) == Some(
            InputChoice::Default,
        ),
        !(default matches Some(fault) && fault is None) ==> {
            &&& devices is None ==> taken_input(default, devices) is None
            &&& devices matches Some(all) ==> {
                &&& 0 <= i < all.len() && all[i] is None && (forall|j: int|
                    0 <= j < i ==> (#[trigger] all[j]) is Some) ==> taken_input(default, devices)
                    == Some(InputChoice::Listed(i as usize))
                &&& (forall|j: int| 0 <= j < all.len() ==> (#[trigger] all[j]) is Some)
                    ==> taken_input(default, devices) is None
            }
        },
{
    if let Some(all) = devices {
        law_first_device_without_fault(all);
        let n = first_usable(all);
        if n < all.len() {
            assert(all[n] is None);
        }
    }
}

} // verus!
