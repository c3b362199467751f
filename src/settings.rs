//! Trimmer configuration in milliseconds and its resolution into frames.

use vstd::prelude::*;
use crate::profile::FastVadProfile;

verus! {

/// Duration of one classified frame, in milliseconds.
pub const FRAME_MS: u32 = 30;

/// Volatility thresholds are fractions written in ten-thousandths:
/// `VOLATILITY_SCALE` stands for 1.0.
pub const VOLATILITY_SCALE: u32 = 10000;

/// Smallest gap kept between the two volatility thresholds (0.01).
pub const MIN_VOLATILITY_DELTA: u32 = 100;

/// Largest decision history the volatility controller keeps.
pub const MAX_VOLATILITY_WINDOW: u32 = 480;

/// User-facing configuration of the trimmer: durations in milliseconds,
/// thresholds in ten-thousandths (`VOLATILITY_SCALE` is 1.0).
#[derive(Debug, Clone, Copy, PartialEq, Eq, Structural)]
pub struct FastVadConfig {
    pub enabled: bool,
    pub profile: FastVadProfile,
    pub min_speech_ms: u32,
    pub silence_timeout_ms: u32,
    pub pre_roll_ms: u32,
    pub post_roll_ms: u32,
    pub volatility_window: u32,
    pub volatility_increase_threshold: u32,
    pub volatility_decrease_threshold: u32,
}

impl Default for FastVadConfig {
    fn default() -> (r: Self)
        ensures
            !r.enabled,
            r.profile == FastVadProfile::Quality,
            r.min_speech_ms == 90,
            r.silence_timeout_ms == 400,
            r.pre_roll_ms == 90,
            r.post_roll_ms == 150,
            r.volatility_window == 24,
            r.volatility_increase_threshold == 3500,
            r.volatility_decrease_threshold == 1000,
    {
        FastVadConfig {
            enabled: false,
            profile: FastVadProfile::Quality,
            min_speech_ms: 90,
            silence_timeout_ms: 400,
            pre_roll_ms: 90,
            post_roll_ms: 150,
            volatility_window: 24,
            volatility_increase_threshold: 3500,
            volatility_decrease_threshold: 1000,
        }
    }
}

/// Resolved, immutable settings of one trimmer, counted in frames.
#[derive(Debug, Clone, Copy, PartialEq, Eq, Structural)]
pub struct FastVadSettings {
    pub base_profile: FastVadProfile,
    pub min_speech_frames: usize,
    pub silence_timeout_frames: usize,
    pub pre_roll_frames: usize,
    pub post_roll_frames: usize,
    pub volatility_window: usize,
    pub volatility_increase_threshold: u32,
    pub volatility_decrease_threshold: u32,
}

/// Whole frames needed to cover `ms` milliseconds, rounded up, at least one.
pub open spec fn frames_for_ms(ms: u32) -> nat {
    if ms == 0 {
        1
    } else {
        ((ms as int + 29) / 30) as nat
    }
}

pub open spec fn min_nat(a: nat, b: nat) -> nat {
    if a <= b { a } else { b }
}

pub open spec fn clamp_scale(x: u32) -> nat {
    min_nat(x as nat, VOLATILITY_SCALE as nat)
}

/// The decrease threshold after sanitation.
pub open spec fn sanitized_decrease(inc: u32, dec: u32) -> nat {
    if clamp_scale(inc) <= clamp_scale(dec) {
        min_nat(clamp_scale(dec), (VOLATILITY_SCALE - 2 * MIN_VOLATILITY_DELTA) as nat)
    } else {
        clamp_scale(dec)
    }
}

/// The increase threshold after sanitation.
pub open spec fn sanitized_increase(inc: u32, dec: u32) -> nat {
    if clamp_scale(inc) <= clamp_scale(dec) {
        (sanitized_decrease(inc, dec) + MIN_VOLATILITY_DELTA) as nat
    } else {
        clamp_scale(inc)
    }
}

/// The settings that a configuration resolves to.
pub open spec fn resolve_config(config: FastVadConfig) -> FastVadSettings {
    let timeout = frames_for_ms(config.silence_timeout_ms);
    FastVadSettings {
        base_profile: config.profile,
        min_speech_frames: frames_for_ms(config.min_speech_ms) as usize,
        silence_timeout_frames: timeout as usize,
        pre_roll_frames: frames_for_ms(config.pre_roll_ms) as usize,
        post_roll_frames: min_nat(frames_for_ms(config.post_roll_ms), timeout) as usize,
        volatility_window: (if config.volatility_window < 2 {
            2
        } else if config.volatility_window > MAX_VOLATILITY_WINDOW {
            MAX_VOLATILITY_WINDOW
        } else {
            config.volatility_window
        }) as usize,
        volatility_increase_threshold: sanitized_increase(
            config.volatility_increase_threshold,
            config.volatility_decrease_threshold,
        ) as u32,
        volatility_decrease_threshold: sanitized_decrease(
            config.volatility_increase_threshold,
            config.volatility_decrease_threshold,
        ) as u32,
    }
}

impl FastVadSettings {
    /// Settings the trimmer can run with: positive speech and silence
    /// thresholds, post-roll within the silence timeout, a window of at least
    /// two decisions, and thresholds ordered within `[0, VOLATILITY_SCALE]`.
    pub open spec fn wf(&self) -> bool {
        &&& self.min_speech_frames >= 1
        &&& self.silence_timeout_frames >= 1
        &&& self.post_roll_frames <= self.silence_timeout_frames
        &&& self.volatility_window >= 2
        &&& self.volatility_decrease_threshold < self.volatility_increase_threshold
        &&& self.volatility_increase_threshold <= VOLATILITY_SCALE
    }

    pub fn from_config(config: &FastVadConfig) -> (r: Self)
        ensures
            r.wf(),
            r == resolve_config(*config),
            r.base_profile == config.profile,
            r.min_speech_frames == frames_for_ms(config.min_speech_ms),
            r.silence_timeout_frames == frames_for_ms(config.silence_timeout_ms),
            r.pre_roll_frames == frames_for_ms(config.pre_roll_ms),
            r.post_roll_frames == min_nat(
                frames_for_ms(config.post_roll_ms),
                frames_for_ms(config.silence_timeout_ms),
            ),
            r.volatility_window == (if config.volatility_window < 2 {
                2
            } else if config.volatility_window > MAX_VOLATILITY_WINDOW {
                MAX_VOLATILITY_WINDOW
            } else {
                config.volatility_window
            }),
            r.volatility_increase_threshold == sanitized_increase(
                config.volatility_increase_threshold,
                config.volatility_decrease_threshold,
            ),
            r.volatility_decrease_threshold == sanitized_decrease(
                config.volatility_increase_threshold,
                config.volatility_decrease_threshold,
            ),
            // Thresholds that were out of order are pulled apart far enough
            // for a fully alternating window to escalate.
            config.volatility_decrease_threshold >= config.volatility_increase_threshold
                ==> r.volatility_increase_threshold < VOLATILITY_SCALE,
    {
        let min_speech_frames = ms_to_frames(config.min_speech_ms);
        let silence_timeout_frames = ms_to_frames(config.silence_timeout_ms);
        let pre = ms_to_frames(config.pre_roll_ms);
        let post = ms_to_frames(config.post_roll_ms);
        let pre_roll_frames = pre;
        let post_roll_frames = if post <= silence_timeout_frames {
            post
        } else {
            silence_timeout_frames
        };
        let window = if config.volatility_window < 2 {
            2
        } else if config.volatility_window > MAX_VOLATILITY_WINDOW {
            MAX_VOLATILITY_WINDOW
        } else {
            config.volatility_window
        };
        let mut increase = if config.volatility_increase_threshold > VOLATILITY_SCALE {
            VOLATILITY_SCALE
        } else {
            config.volatility_increase_threshold
        };
        let mut decrease = if config.volatility_decrease_threshold > VOLATILITY_SCALE {
            VOLATILITY_SCALE
        } else {
            config.volatility_decrease_threshold
        };
        if increase <= decrease {
            let ceiling = VOLATILITY_SCALE - 2 * MIN_VOLATILITY_DELTA;
            if decrease > ceiling {
                decrease = ceiling;
            }
            increase = decrease + MIN_VOLATILITY_DELTA;
        }
        FastVadSettings {
            base_profile: config.profile,
            min_speech_frames,
            silence_timeout_frames,
            pre_roll_frames,
            post_roll_frames,
            volatility_window: window as usize,
            volatility_increase_threshold: increase,
            volatility_decrease_threshold: decrease,
        }
    }
}

/// Converts a duration to a frame count, rounding up, with a floor of one.
pub fn ms_to_frames(ms: u32) -> (r: usize)
    ensures
        r as nat == frames_for_ms(ms),
        r >= 1,
        r as nat * FRAME_MS as nat >= ms as nat,
{
    if ms == 0 {
        1
    } else {
        let q = (ms as u64 + (FRAME_MS - 1) as u64) / FRAME_MS as u64;
        assert(q * 30 >= ms) by (nonlinear_arith)
            requires q == (ms as u64 + 29) / 30;
        q as usize
    }
}

/// The sample rates the frame classifier accepts.
pub open spec fn rate_supported(rate: u32) -> bool {
    rate == 8000 || rate == 16000 || rate == 32000 || rate == 48000
}

/// Samples in one frame at `rate`: 30 ms, rounded up to a whole sample.
pub open spec fn samples_per_frame(rate: u32) -> nat {
    ((rate as int * 30 + 999) / 1000) as nat
}

pub fn supports_sample_rate(rate: u32) -> (r: bool)
    ensures
        r == rate_supported(rate),
{
    rate == 8000 || rate == 16000 || rate == 32000 || rate == 48000
}

pub fn frame_samples(rate: u32) -> (r: usize)
    ensures
        r as nat == samples_per_frame(rate),
        rate >= 1 ==> r >= 1,
        rate_supported(rate) ==> r <= 1440,
{
    let wide = rate as u64;
    assert(wide * 30 <= 0xffff_ffffu64 * 30) by (nonlinear_arith)
        requires wide <= 0xffff_ffffu64;
    let numerator = wide * 30;
    let r = (numerator + 999) / 1000;
    assert(r <= 0xffff_ffffu64) by (nonlinear_arith)
        requires r == (numerator + 999) / 1000, numerator <= 0xffff_ffffu64 * 30;
    r as usize
}

} // verus!
