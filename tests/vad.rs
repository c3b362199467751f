use hyprwhspr_core::profile::FastVadProfile;
use hyprwhspr_core::settings::{FastVadConfig, FastVadSettings};
use hyprwhspr_core::vad::{FastVad, VadError};
use hyprwhspr_core::volatility::VolatilityController;

const RATE: u32 = 16_000;
const FRAME: usize = 480;

fn silence_ms(ms: u32) -> Vec<f32> {
    vec![0.0; (RATE as u64 * ms as u64 / 1000) as usize]
}

fn tone_ms(ms: u32, freq: f32, amplitude: f32) -> Vec<f32> {
    let samples = (RATE as u64 * ms as u64 / 1000) as usize;
    (0..samples)
        .map(|n| {
            let phase = (n as f32 / RATE as f32) * 2.0 * std::f32::consts::PI * freq;
            (phase.sin() * amplitude).clamp(-1.0, 1.0)
        })
        .collect()
}

fn to_pcm(samples: &[f32]) -> Vec<i16> {
    samples
        .iter()
        .map(|s| (s * i16::MAX as f32).round().clamp(i16::MIN as f32, i16::MAX as f32) as i16)
        .collect()
}

fn enabled(config: FastVadConfig) -> FastVad {
    FastVad::maybe_new(&config, RATE).expect("supported rate").expect("enabled")
}

#[test]
fn silence_stream_is_removed() {
    let config = FastVadConfig { enabled: true, ..Default::default() };
    let mut vad = enabled(config);
    let audio = silence_ms(2000);
    let outcome = vad.trim(&audio, &to_pcm(&audio)).unwrap();
    assert!(outcome.trimmed_audio.is_empty());
    assert_eq!(outcome.segments, 0);
}

#[test]
fn speech_keeps_padding_and_drops_long_silence() {
    let config = FastVadConfig { enabled: true, min_speech_ms: 90, ..Default::default() };
    let mut vad = enabled(config);
    let mut audio = Vec::new();
    audio.extend(silence_ms(300));
    audio.extend(tone_ms(600, 220.0, 0.6));
    audio.extend(silence_ms(700));
    audio.extend(tone_ms(400, 220.0, 0.6));
    audio.extend(silence_ms(300));
    let outcome = vad.trim(&audio, &to_pcm(&audio)).unwrap();
    assert!(!outcome.trimmed_audio.is_empty());
    assert!(outcome.segments >= 1);
    let trimmed_ms = outcome.trimmed_audio.len() as u64 * 1000 / RATE as u64;
    let original_ms = audio.len() as u64 * 1000 / RATE as u64;
    assert!(trimmed_ms < original_ms);
    assert!(trimmed_ms >= 900);
}

#[test]
fn volatility_triggers_profile_adjustment() {
    let config = FastVadConfig {
        enabled: true,
        volatility_window: 6,
        volatility_increase_threshold: 500,
        volatility_decrease_threshold: 0,
        ..Default::default()
    };
    let mut controller = VolatilityController::new(FastVadSettings::from_config(&config));
    let pattern = [true, false, true, false, true, false, true, false, true, false];
    for decision in pattern.iter().copied() {
        let volatility = controller.push_decision(decision);
        controller.adjust_profile(volatility);
    }
    assert!(controller.profile_switches() > 0);
}

#[test]
fn end_to_end_tone_between_silences() {
    let config = FastVadConfig {
        enabled: true,
        min_speech_ms: 90,
        silence_timeout_ms: 400,
        pre_roll_ms: 90,
        post_roll_ms: 150,
        ..Default::default()
    };
    let mut vad = enabled(config);
    let mut audio = silence_ms(300);
    audio.extend(tone_ms(600, 440.0, 0.5));
    audio.extend(silence_ms(700));
    let outcome = vad.trim(&audio, &to_pcm(&audio)).expect("no classification error");
    assert_eq!(outcome.segments, 1);
    let trimmed_ms = outcome.trimmed_audio.len() as u64 * 1000 / RATE as u64;
    assert!((900..=1200).contains(&trimmed_ms), "trimmed {trimmed_ms} ms");
    assert!(outcome.dropped_samples > 0);
    assert_eq!(outcome.dropped_samples + outcome.trimmed_audio.len(), audio.len());
    assert_eq!(outcome.evaluated_frames, audio.len().div_ceil(FRAME));
}

#[test]
fn integration_trims_with_expected_padding() {
    let config = FastVadConfig {
        enabled: true,
        pre_roll_ms: 90,
        post_roll_ms: 150,
        min_speech_ms: 120,
        silence_timeout_ms: 450,
        ..Default::default()
    };
    let mut vad = enabled(config);
    let mut audio = silence_ms(600);
    audio.extend(tone_ms(900, 440.0, 0.5));
    audio.extend(silence_ms(700));
    let outcome = vad.trim(&audio, &to_pcm(&audio)).unwrap();
    // earshot keeps calling speech for a few frames after the tone ends (its
    // hangover), so the speech run is the tone's 30 frames plus that tail.
    let first = outcome.decisions.iter().position(|&d| d).expect("tone detected");
    let run = outcome.decisions[first..].iter().take_while(|&&d| d).count();
    assert_eq!(first, 20);
    assert!(run >= 30);
    assert!(outcome.decisions[first + run..].iter().all(|&d| !d));
    let trimmed = outcome.trimmed_audio;
    let expected_frames = 3 + run + 5; // pre + speech + post
    assert_eq!(trimmed.len(), expected_frames * FRAME);
    let leading = &trimmed[..3 * FRAME];
    assert!(leading.iter().all(|s| s.abs() < 1e-6));
    let trailing = &trimmed[trimmed.len() - 5 * FRAME..];
    assert!(trailing.iter().all(|s| s.abs() < 1e-6));
}

#[test]
fn integration_handles_multiple_segments() {
    let config = FastVadConfig {
        enabled: true,
        pre_roll_ms: 60,
        post_roll_ms: 90,
        min_speech_ms: 90,
        silence_timeout_ms: 360,
        ..Default::default()
    };
    let mut vad = enabled(config);
    let mut audio = silence_ms(400);
    audio.extend(tone_ms(500, 260.0, 0.5));
    audio.extend(silence_ms(600));
    audio.extend(tone_ms(400, 520.0, 0.5));
    audio.extend(silence_ms(800));
    let outcome = vad.trim(&audio, &to_pcm(&audio)).unwrap();
    let trimmed = outcome.trimmed_audio;
    assert!(!trimmed.is_empty());
    let speech_ms = 500 + 400;
    let padding_ms = 2 * (60 + 90);
    let expected_min_samples = ((speech_ms + padding_ms) as f32 * RATE as f32 / 1000.0) as usize;
    assert!(trimmed.len() >= expected_min_samples);
    assert!(trimmed.len() < (RATE as usize * 2));
}

#[test]
fn trims_segments_and_preserves_padding() {
    let config = FastVadConfig { enabled: true, min_speech_ms: 90, ..Default::default() };
    let mut vad = enabled(config);
    let mut audio = Vec::new();
    audio.extend(silence_ms(350));
    audio.extend(tone_ms(520, 440.0, 0.5));
    audio.extend(silence_ms(680));
    audio.extend(tone_ms(430, 440.0, 0.5));
    audio.extend(silence_ms(250));
    let outcome = vad.trim(&audio, &to_pcm(&audio)).expect("fast VAD should process audio");
    assert!(outcome.segments >= 1);
    assert!(outcome.trimmed_audio.len() < audio.len());
    assert!(outcome.dropped_samples > 0);
}

#[test]
fn silence_short_circuits_transmission() {
    let config = FastVadConfig { enabled: true, ..Default::default() };
    let mut vad = enabled(config);
    let audio = silence_ms(1200);
    let outcome = vad.trim(&audio, &to_pcm(&audio)).expect("fast VAD should process silence");
    assert_eq!(outcome.trimmed_audio.len(), 0);
    assert_eq!(outcome.segments, 0);
    assert_eq!(outcome.dropped_samples, audio.len());
}

#[test]
fn empty_input_gives_empty_outcome() {
    let mut vad = enabled(FastVadConfig { enabled: true, ..Default::default() });
    let outcome = vad.trim::<f32>(&[], &[]).unwrap();
    assert!(outcome.is_empty());
    assert_eq!(outcome.segments, 0);
    assert_eq!(outcome.evaluated_frames, 0);
    assert_eq!(outcome.dropped_samples, 0);
    assert_eq!(outcome.final_profile, FastVadProfile::Quality);
}

#[test]
fn unsupported_rate_is_a_configuration_error() {
    let config = FastVadConfig { enabled: true, ..Default::default() };
    assert_eq!(
        FastVad::maybe_new(&config, 44_100).err(),
        Some(VadError::UnsupportedSampleRate(44_100))
    );
    let mut vad = FastVad::with_settings(FastVadSettings::from_config(&config), 44_100);
    let audio = silence_ms(100);
    assert_eq!(
        vad.trim(&audio, &to_pcm(&audio)).err(),
        Some(VadError::UnsupportedSampleRate(44_100))
    );
    assert_eq!(vad.set_sample_rate(16_000), Ok(()));
    assert!(vad.trim(&audio, &to_pcm(&audio)).is_ok());
}

#[test]
fn empty_input_needs_no_supported_rate() {
    let config = FastVadConfig { enabled: true, profile: FastVadProfile::Aggressive, ..Default::default() };
    let mut vad = FastVad::with_settings(FastVadSettings::from_config(&config), 44_100);
    let outcome = vad.trim::<f32>(&[], &[]).expect("empty input is not an error");
    assert!(outcome.trimmed_audio.is_empty());
    assert!(outcome.decisions.is_empty());
    assert_eq!(outcome.segments, 0);
    assert_eq!(outcome.evaluated_frames, 0);
    assert_eq!(outcome.profile_switches, 0);
    assert_eq!(outcome.final_profile, FastVadProfile::Aggressive);
    assert_eq!(outcome.dropped_samples, 0);
}

#[test]
fn disabled_config_builds_no_trimmer() {
    let config = FastVadConfig::default();
    assert!(FastVad::maybe_new(&config, RATE).unwrap().is_none());
}

#[test]
fn partial_last_frame_keeps_original_length() {
    let config = FastVadConfig { enabled: true, min_speech_ms: 30, ..Default::default() };
    let mut vad = enabled(config);
    let mut audio = silence_ms(300);
    audio.extend(tone_ms(300, 440.0, 0.5));
    audio.truncate(audio.len() - 100);
    let outcome = vad.trim(&audio, &to_pcm(&audio)).unwrap();
    assert_eq!(outcome.evaluated_frames, 20);
    assert_eq!(outcome.decisions.len(), 20);
    assert_eq!(outcome.dropped_samples + outcome.trimmed_audio.len(), audio.len());
    assert!(outcome.trimmed_audio.len() % FRAME == 0 || outcome.trimmed_audio.len() % FRAME == FRAME - 100);
}

#[test]
fn settings_resolve_milliseconds_to_frames() {
    let config = FastVadConfig {
        enabled: true,
        min_speech_ms: 0,
        silence_timeout_ms: 400,
        pre_roll_ms: 1000,
        post_roll_ms: 31,
        volatility_window: 1,
        ..Default::default()
    };
    let s = FastVadSettings::from_config(&config);
    assert_eq!(s.min_speech_frames, 1);
    assert_eq!(s.silence_timeout_frames, 14);
    assert_eq!(s.pre_roll_frames, 34);
    assert_eq!(s.post_roll_frames, 2);
    assert_eq!(s.volatility_window, 2);
    let big = FastVadConfig { volatility_window: 10_000, ..config };
    assert_eq!(FastVadSettings::from_config(&big).volatility_window, 480);
}

#[test]
fn pre_roll_is_not_capped_by_the_timeout() {
    let config = FastVadConfig {
        pre_roll_ms: 900,
        silence_timeout_ms: 30,
        post_roll_ms: 900,
        ..Default::default()
    };
    let s = FastVadSettings::from_config(&config);
    assert_eq!(s.pre_roll_frames, 30);
    assert_eq!(s.silence_timeout_frames, 1);
    assert_eq!(s.post_roll_frames, 1);
}

#[test]
fn crossed_thresholds_are_pulled_apart() {
    let config = FastVadConfig {
        volatility_increase_threshold: 2000,
        volatility_decrease_threshold: 2000,
        ..Default::default()
    };
    let s = FastVadSettings::from_config(&config);
    assert_eq!(s.volatility_decrease_threshold, 2000);
    assert_eq!(s.volatility_increase_threshold, 2100);
    let config = FastVadConfig {
        volatility_increase_threshold: 0,
        volatility_decrease_threshold: 50_000,
        ..Default::default()
    };
    let s = FastVadSettings::from_config(&config);
    assert_eq!(s.volatility_decrease_threshold, 9800);
    assert_eq!(s.volatility_increase_threshold, 9900);
    let mut controller = VolatilityController::new(s);
    for d in [true, false, true, false] {
        controller.observe(d);
    }
    assert!(controller.profile_switches() >= 1);
}

#[test]
fn alternating_decisions_escalate_but_stop_at_the_top() {
    let config = FastVadConfig {
        volatility_window: 4,
        volatility_increase_threshold: 3500,
        volatility_decrease_threshold: 1000,
        ..Default::default()
    };
    let mut controller = VolatilityController::new(FastVadSettings::from_config(&config));
    let mut switched = Vec::new();
    for i in 0..40 {
        if let Some(p) = controller.observe(i % 2 == 0) {
            switched.push(p);
        }
    }
    assert_eq!(
        switched,
        vec![FastVadProfile::LowBitrate, FastVadProfile::Aggressive, FastVadProfile::VeryAggressive]
    );
    assert_eq!(controller.profile(), FastVadProfile::VeryAggressive);
    assert_eq!(controller.profile_switches(), 3);
}

#[test]
fn steady_decisions_relax_but_not_below_base() {
    let config = FastVadConfig {
        profile: FastVadProfile::LowBitrate,
        volatility_window: 4,
        volatility_increase_threshold: 3500,
        volatility_decrease_threshold: 1000,
        ..Default::default()
    };
    let mut controller = VolatilityController::new(FastVadSettings::from_config(&config));
    controller.observe(true);
    assert_eq!(controller.observe(false), Some(FastVadProfile::Aggressive));
    for _ in 0..20 {
        controller.observe(true);
    }
    assert_eq!(controller.profile(), FastVadProfile::LowBitrate);
    assert_eq!(controller.profile_switches(), 2);
}

#[test]
fn volatility_counts_transitions_in_window() {
    let config = FastVadConfig { volatility_window: 3, ..Default::default() };
    let mut controller = VolatilityController::new(FastVadSettings::from_config(&config));
    let v = controller.push_decision(true);
    assert_eq!((v.transitions, v.pairs), (0, 0));
    let v = controller.push_decision(true);
    assert_eq!((v.transitions, v.pairs), (0, 1));
    let v = controller.push_decision(false);
    assert_eq!((v.transitions, v.pairs), (1, 2));
    let v = controller.push_decision(true);
    assert_eq!((v.transitions, v.pairs), (2, 2));
}

#[test]
fn profile_ladder_is_ordered() {
    assert_eq!(FastVadProfile::Quality.rank(), 0);
    assert_eq!(FastVadProfile::VeryAggressive.rank(), 3);
    assert_eq!(FastVadProfile::Quality.more_aggressive(), Some(FastVadProfile::LowBitrate));
    assert_eq!(FastVadProfile::VeryAggressive.more_aggressive(), None);
    assert_eq!(FastVadProfile::Quality.less_aggressive(), None);
    assert_eq!(FastVadProfile::Aggressive.less_aggressive(), Some(FastVadProfile::LowBitrate));
    assert_eq!(FastVadProfile::LowBitrate.label(), "low_bitrate");
}
