//! Microphone audio and where utterances start and end.
use std::cell::RefCell;
use std::rc::Rc;

use dicta::audio::{
    choose_input, downmix_to_i16, microphone_permission, sample_kind, stream_info, AudioError,
    InputChoice, IntoSampleI16, SampleKind,
};
use dicta::endpoint::{
    samples_for_ms, EarshotVadDetector, Score, VoiceActivityDetector, VoiceEndpoint,
    VoiceEndpointAction, VoiceEndpointConfig, EARSHOT_VAD_FRAME_SAMPLES,
    VOICE_ENDPOINT_SAMPLE_RATE,
};

#[derive(Debug, Default)]
struct TestVadDetector {
    reset_count: usize,
}

impl VoiceActivityDetector for TestVadDetector {
    fn sample_rate(&self) -> u32 {
        VOICE_ENDPOINT_SAMPLE_RATE
    }

    fn frame_samples(&self) -> usize {
        EARSHOT_VAD_FRAME_SAMPLES
    }

    fn predict_i16(&mut self, frame: &[i16], _update_background: bool) -> Score {
        let score = if frame.iter().any(|sample| *sample != 0) { 1.0_f32 } else { 0.0 };
        Score { bits: score.to_bits() }
    }

    fn reset(&mut self) {
        self.reset_count += 1;
    }
}

#[test]
fn sample_conversion_centers_unsigned_values() {
    assert_eq!(0_u16.into_i16(), i16::MIN);
    assert_eq!(32768_u16.into_i16(), 0);
    assert_eq!(u16::MAX.into_i16(), i16::MAX);
}

#[test]
fn lib_sample_conversion_centers_unsigned_values() {
    assert_eq!(0_u16.into_i16(), i16::MIN);
    assert_eq!(32768_u16.into_i16(), 0);
    assert_eq!(u16::MAX.into_i16(), i16::MAX);
}

#[test]
fn downmixes_multichannel_audio_to_mono() {
    assert_eq!(downmix_to_i16(&[100_i16, 300, -100, -300], 2), vec![200, -200]);
}

#[test]
fn voice_endpoint_waits_for_voice_before_starting() {
    let mut endpoint = VoiceEndpoint::new_with_detector(
        VoiceEndpointConfig::default(),
        TestVadDetector::default(),
    );
    let silence = vec![0; samples_for_ms(VOICE_ENDPOINT_SAMPLE_RATE, 1_000)];

    assert!(endpoint.push(&silence).is_empty());
}

#[test]
fn voice_endpoint_starts_on_voice_and_stops_after_silence() {
    let config = VoiceEndpointConfig::default();
    let mut endpoint = VoiceEndpoint::new_with_detector(config, TestVadDetector::default());
    let speech = vec![8_000; samples_for_ms(VOICE_ENDPOINT_SAMPLE_RATE, config.start_confirm_ms)];
    let actions = endpoint.push(&speech);

    assert!(matches!(
        actions.as_slice(),
        [VoiceEndpointAction::Start, VoiceEndpointAction::Audio(_)]
    ));

    let silence = vec![0; samples_for_ms(VOICE_ENDPOINT_SAMPLE_RATE, config.end_silence_ms + 16)];
    let actions = endpoint.push(&silence);

    assert!(matches!(actions.last(), Some(VoiceEndpointAction::Stop)));
}

#[test]
fn earshot_vad_uses_expected_frame_size_and_ignores_silence() {
    let mut detector = EarshotVadDetector::new();

    assert_eq!(detector.frame_samples(), EARSHOT_VAD_FRAME_SAMPLES);
    let score = detector.predict_i16(&[0; EARSHOT_VAD_FRAME_SAMPLES], true);
    assert!(f32::from_bits(score.bits) < 0.5);
    detector.reset();
}

#[test]
fn audio_of_an_utterance_begins_with_what_came_before() {
    let config = VoiceEndpointConfig::default();
    let mut endpoint = VoiceEndpoint::new_with_detector(config, TestVadDetector::default());
    assert!(endpoint.push(&vec![0; 16_000]).is_empty());
    let speech = vec![1; samples_for_ms(VOICE_ENDPOINT_SAMPLE_RATE, config.start_confirm_ms)];
    let actions = endpoint.push(&speech);
    let VoiceEndpointAction::Audio(samples) = &actions[1] else {
        panic!("no audio: {actions:?}");
    };
    let padding = samples_for_ms(VOICE_ENDPOINT_SAMPLE_RATE, config.start_padding_ms);
    assert!(samples.len() >= speech.len());
    assert!(samples.len() <= speech.len().max(padding) + EARSHOT_VAD_FRAME_SAMPLES);
}

#[test]
fn finishing_ends_an_utterance_that_is_under_way() {
    let config = VoiceEndpointConfig::default();
    let mut endpoint = VoiceEndpoint::new_with_detector(config, TestVadDetector::default());
    assert!(endpoint.finish().is_empty());
    let speech = vec![1; samples_for_ms(VOICE_ENDPOINT_SAMPLE_RATE, config.start_confirm_ms)];
    assert!(!endpoint.push(&speech).is_empty());
    assert!(matches!(endpoint.finish().last(), Some(VoiceEndpointAction::Stop)));
    assert!(endpoint.finish().is_empty());
}

/// Keeps what it is asked about.
#[derive(Default)]
struct Recorder {
    asked: Rc<RefCell<Vec<(Vec<i16>, bool)>>>,
}

impl VoiceActivityDetector for Recorder {
    fn sample_rate(&self) -> u32 {
        8
    }

    fn frame_samples(&self) -> usize {
        2
    }

    fn predict_i16(&mut self, frame: &[i16], update_background: bool) -> Score {
        self.asked.borrow_mut().push((frame.to_vec(), update_background));
        Score { bits: if frame[0] > 0 { 1.0_f32.to_bits() } else { 0 } }
    }

    fn reset(&mut self) {
        self.asked.borrow_mut().clear();
    }
}

#[test]
fn detector_is_asked_about_each_frame_in_turn() {
    let asked = Rc::new(RefCell::new(Vec::new()));
    let config = VoiceEndpointConfig {
        sample_rate: 0,
        start_confirm_ms: 250,
        start_padding_ms: 1000,
        end_silence_ms: 10_000,
        ..VoiceEndpointConfig::default()
    };
    let mut endpoint =
        VoiceEndpoint::new_with_detector(config, Recorder { asked: Rc::clone(&asked) });
    assert!(endpoint.push(&[0, 1, 2]).is_empty());
    assert_eq!(
        endpoint.push(&[3, 4]),
        vec![VoiceEndpointAction::Start, VoiceEndpointAction::Audio(vec![0, 1, 2, 3])]
    );
    assert_eq!(
        endpoint.finish(),
        vec![VoiceEndpointAction::Audio(vec![4]), VoiceEndpointAction::Stop]
    );
    assert_eq!(
        *asked.borrow(),
        vec![(vec![0, 1], true), (vec![2, 3], true), (vec![4, 0], false)]
    );
    endpoint.reset();
    assert!(asked.borrow().is_empty());
}

fn recorded(pieces: &[&[i16]]) -> (Vec<VoiceEndpointAction>, Vec<(Vec<i16>, bool)>) {
    let asked = Rc::new(RefCell::new(Vec::new()));
    let config = VoiceEndpointConfig {
        sample_rate: 0,
        start_confirm_ms: 250,
        start_padding_ms: 1000,
        ..VoiceEndpointConfig::default()
    };
    let mut endpoint =
        VoiceEndpoint::new_with_detector(config, Recorder { asked: Rc::clone(&asked) });
    let mut actions = Vec::new();
    for piece in pieces {
        actions.extend(endpoint.push(piece));
    }
    let asked = asked.borrow().clone();
    (actions, asked)
}

#[test]
fn pieces_of_audio_lead_to_what_the_whole_leads_to() {
    let whole: &[i16] = &[0, 1, 2, 3, 4, 5, 6];
    let at_once = recorded(&[whole]);
    assert_eq!(at_once.1.len(), 3);
    assert!(matches!(at_once.0[0], VoiceEndpointAction::Start));
    assert_eq!(recorded(&[&whole[..3], &whole[3..]]), at_once);
    assert_eq!(recorded(&[&whole[..1], &whole[1..2], &whole[2..]]), at_once);
    assert_eq!(recorded(&[&[], &whole[..6], &whole[6..]]), at_once);
}

#[test]
fn silence_starts_nothing_with_the_real_detector() {
    let mut endpoint = VoiceEndpoint::new();
    assert!(endpoint.push(&vec![0; 16_000]).is_empty());
    endpoint.reset();
    assert!(endpoint.push(&vec![0; 160]).is_empty());
}

#[test]
fn milliseconds_are_counted_in_samples() {
    assert_eq!(samples_for_ms(16_000, 1_000), 16_000);
    assert_eq!(samples_for_ms(44_100, 10), 441);
    assert_eq!(samples_for_ms(16_000, 0), 0);
    assert_eq!(samples_for_ms(8_000, 3), 24);
}

#[test]
fn scores_compare_as_their_numbers_do() {
    let score = |x: f32| Score { bits: x.to_bits() };
    assert!(score(0.5).at_least(score(0.5)));
    assert!(score(0.75).at_least(score(0.5)));
    assert!(!score(0.25).at_least(score(0.5)));
    assert!(!score(-1.0).at_least(score(0.0)));
    assert!(score(0.0).at_least(score(-0.0)));
    assert!(!score(f32::NAN).at_least(score(0.0)));
    assert_eq!(score(2.0).clamped(), score(1.0));
    assert_eq!(score(-2.0).clamped(), score(0.0));
    assert_eq!(score(0.3).clamped(), score(0.3));
}

#[test]
fn usable_input_is_the_default_or_the_first_of_the_list() {
    let fault = |s: &str| Some(s.to_owned());
    assert_eq!(choose_input(&Some(None), &Ok(vec![])), Ok(InputChoice::Default));
    assert_eq!(
        choose_input(&Some(fault("busy")), &Ok(vec![fault("no"), None, None])),
        Ok(InputChoice::Listed(1))
    );
    assert_eq!(
        choose_input(&Some(fault("busy")), &Ok(vec![fault("no")])),
        Err(AudioError::NoUsableInputDevice("default input: busy; no".to_owned()))
    );
    assert_eq!(
        choose_input(&None, &Ok(vec![])),
        Err(AudioError::NoUsableInputDevice(
            "no default input audio device is available".to_owned()
        ))
    );
    assert_eq!(
        choose_input(&None, &Err("gone".to_owned())),
        Err(AudioError::InputDevices("gone".to_owned()))
    );
}

#[test]
fn sample_formats_are_known_by_name() {
    assert_eq!(sample_kind("F32"), Ok(SampleKind::F32));
    assert_eq!(sample_kind("I16"), Ok(SampleKind::I16));
    assert_eq!(sample_kind("U16"), Ok(SampleKind::U16));
    assert_eq!(
        sample_kind("U8").unwrap_err().message(),
        "audio device stream error: unsupported input sample format: U8"
    );
}

#[test]
fn microphone_may_be_denied() {
    assert_eq!(microphone_permission(0), Ok(()));
    assert_eq!(microphone_permission(1), Err(AudioError::MicrophonePermissionDenied));
    assert_eq!(microphone_permission(-3), Err(AudioError::MicrophonePermissionUnknown));
    assert_eq!(stream_info(48_000).channels, 1);
    assert_eq!(stream_info(48_000).sample_rate, 48_000);
}

#[test]
fn single_channel_audio_is_converted_sample_by_sample() {
    assert_eq!(downmix_to_i16(&[0_u16, 32768, 65535], 1), vec![i16::MIN, 0, i16::MAX]);
    assert_eq!(downmix_to_i16(&[1_i16, 2, 3], 2), vec![1, 3]);
    assert_eq!(downmix_to_i16(&[-1_i16, -2], 2), vec![-1]);
}

#[test]
fn utterances_are_stretches_of_the_audio() {
    let config = VoiceEndpointConfig {
        sample_rate: 0,
        start_confirm_ms: 250,
        start_padding_ms: 500,
        end_silence_ms: 250,
        ..VoiceEndpointConfig::default()
    };
    let asked = Rc::new(RefCell::new(Vec::new()));
    let mut endpoint =
        VoiceEndpoint::new_with_detector(config, Recorder { asked: Rc::clone(&asked) });
    let audio: &[i16] = &[-1, -2, -3, -4, -5, -6, 7, 8, -9, -10, -11, -12, 13, 14, 15];
    let mut actions = Vec::new();
    for piece in audio.chunks(4) {
        actions.extend(endpoint.push(piece));
    }
    assert_eq!(
        actions,
        vec![
            VoiceEndpointAction::Start,
            VoiceEndpointAction::Audio(vec![-5, -6, 7, 8]),
            VoiceEndpointAction::Audio(vec![-9, -10]),
            VoiceEndpointAction::Stop,
            VoiceEndpointAction::Start,
            VoiceEndpointAction::Audio(vec![-11, -12, 13, 14]),
        ]
    );
    actions.extend(endpoint.finish());
    assert_eq!(actions.last(), Some(&VoiceEndpointAction::Stop));
    let count = |wanted: VoiceEndpointAction| actions.iter().filter(|a| **a == wanted).count();
    assert_eq!(count(VoiceEndpointAction::Start), count(VoiceEndpointAction::Stop));
    assert!(endpoint.finish().is_empty());
}

#[test]
fn reset_endpoints_do_what_new_ones_do() {
    let config = VoiceEndpointConfig {
        sample_rate: 0,
        start_confirm_ms: 250,
        start_padding_ms: 1000,
        ..VoiceEndpointConfig::default()
    };
    let make = || {
        let asked = Rc::new(RefCell::new(Vec::new()));
        VoiceEndpoint::new_with_detector(config, Recorder { asked })
    };
    let mut used = make();
    used.push(&[1, 2, 3]);
    used.reset();
    let mut fresh = make();
    for piece in [&[-1_i16, -2, 3][..], &[4, 5], &[-6]] {
        assert_eq!(used.push(piece), fresh.push(piece));
    }
    assert_eq!(used.finish(), fresh.finish());
}

#[test]
fn frames_of_the_wrong_size_score_nothing() {
    let mut detector = EarshotVadDetector::new();
    assert_eq!(detector.predict_i16(&[1, 2, 3], true), Score { bits: 0 });
    let first = detector.predict_i16(&[9000; EARSHOT_VAD_FRAME_SAMPLES], true);
    assert!((0.0..=1.0).contains(&f32::from_bits(first.bits)));
    detector.reset();
    assert_eq!(detector.predict_i16(&[9000; EARSHOT_VAD_FRAME_SAMPLES], true), first);
}
