//! The frame classifier: earshot's voice-activity detector, kept with what
//! its verdicts depend on.

use vstd::prelude::*;
use earshot::VoiceActivityDetector;
use crate::profile::FastVadProfile;
use crate::settings::{rate_supported, samples_per_frame};
use crate::vad::VadError;

verus! {

#[verifier::external_type_specification]
#[verifier::external_body]
pub struct ExVoiceActivityDetector(earshot::VoiceActivityDetector);

#[verifier::external_type_specification]
#[verifier::external_body]
pub struct ExEarshotError(earshot::Error);

/// earshot's verdict (speech or not) on the last of `frames`, when a
/// detector built with `profile` and reset is fed `frames` at `rate`.
pub uninterp spec fn earshot_verdict(profile: FastVadProfile, rate: u32, frames: Seq<Seq<i16>>) -> bool;

/// An earshot detector with the profile it was built with, the sample rate
/// it is fed at, and the frames fed to it since it was built or reset.
pub struct Classifier {
    detector: VoiceActivityDetector,
    profile: Ghost<FastVadProfile>,
    rate: Ghost<u32>,
    fed: Ghost<Seq<Seq<i16>>>,
}

/// Relies on earshot's `VoiceActivityDetector::new`: a detector with the
/// thresholds of the matching earshot profile, which `new` leaves reset.
#[verifier::external_body]
fn new_detector(profile: FastVadProfile) -> VoiceActivityDetector {
    VoiceActivityDetector::new(match profile {
        FastVadProfile::Quality => earshot::VoiceActivityProfile::QUALITY,
        FastVadProfile::LowBitrate => earshot::VoiceActivityProfile::LBR,
        FastVadProfile::Aggressive => earshot::VoiceActivityProfile::AGGRESSIVE,
        FastVadProfile::VeryAggressive => earshot::VoiceActivityProfile::VERY_AGGRESSIVE,
    })
}

/// Relies on earshot's `VoiceActivityDetector::reset`: the detector returns
/// to the state `new` leaves it in; the profile is kept.
#[verifier::external_body]
fn reset_detector(c: &mut Classifier)
    ensures
        final(c).fed_spec() == Seq::<Seq<i16>>::empty(),
        final(c).profile_spec() == old(c).profile_spec(),
        final(c).rate_spec() == old(c).rate_spec(),
{
    c.detector.reset()
}

/// Relies on earshot's `predict_8khz`: a 30 ms frame (240 samples) is a valid
/// frame size, for which the prediction never fails; the verdict depends on
/// the profile and on the frames fed since the last reset.
#[verifier::external_body]
fn predict_at_8khz(c: &mut Classifier, frame: &[i16]) -> (r: Result<bool, earshot::Error>)
    requires
        old(c).rate_spec() == 8000,
        frame@.len() == 240,
    ensures
        r == Ok::<bool, earshot::Error>(
            earshot_verdict(old(c).profile_spec(), 8000, old(c).fed_spec().push(frame@)),
        ),
        final(c).fed_spec() == old(c).fed_spec().push(frame@),
        final(c).profile_spec() == old(c).profile_spec(),
        final(c).rate_spec() == old(c).rate_spec(),
{
    c.detector.predict_8khz(frame)
}

/// Relies on earshot's `predict_16khz`: a 30 ms frame (480 samples) is a valid
/// frame size, for which the prediction never fails; the verdict depends on
/// the profile and on the frames fed since the last reset.
#[verifier::external_body]
fn predict_at_16khz(c: &mut Classifier, frame: &[i16]) -> (r: Result<bool, earshot::Error>)
    requires
        old(c).rate_spec() == 16000,
        frame@.len() == 480,
    ensures
        r == Ok::<bool, earshot::Error>(
            earshot_verdict(old(c).profile_spec(), 16000, old(c).fed_spec().push(frame@)),
        ),
        final(c).fed_spec() == old(c).fed_spec().push(frame@),
        final(c).profile_spec() == old(c).profile_spec(),
        final(c).rate_spec() == old(c).rate_spec(),
{
    c.detector.predict_16khz(frame)
}

/// Relies on earshot's `predict_32khz`: a 30 ms frame (960 samples) is a valid
/// frame size, for which the prediction never fails; the verdict depends on
/// the profile and on the frames fed since the last reset.
#[verifier::external_body]
fn predict_at_32khz(c: &mut Classifier, frame: &[i16]) -> (r: Result<bool, earshot::Error>)
    requires
        old(c).rate_spec() == 32000,
        frame@.len() == 960,
    ensures
        r == Ok::<bool, earshot::Error>(
            earshot_verdict(old(c).profile_spec(), 32000, old(c).fed_spec().push(frame@)),
        ),
        final(c).fed_spec() == old(c).fed_spec().push(frame@),
        final(c).profile_spec() == old(c).profile_spec(),
        final(c).rate_spec() == old(c).rate_spec(),
{
    c.detector.predict_32khz(frame)
}

/// Relies on earshot's `predict_48khz`: a 30 ms frame (1440 samples) is a valid
/// frame size, for which the prediction never fails; the verdict depends on
/// the profile and on the frames fed since the last reset.
#[verifier::external_body]
fn predict_at_48khz(c: &mut Classifier, frame: &[i16]) -> (r: Result<bool, earshot::Error>)
    requires
        old(c).rate_spec() == 48000,
        frame@.len() == 1440,
    ensures
        r == Ok::<bool, earshot::Error>(
            earshot_verdict(old(c).profile_spec(), 48000, old(c).fed_spec().push(frame@)),
        ),
        final(c).fed_spec() == old(c).fed_spec().push(frame@),
        final(c).profile_spec() == old(c).profile_spec(),
        final(c).rate_spec() == old(c).rate_spec(),
{
    c.detector.predict_48khz(frame)
}

impl Classifier {
    pub closed spec fn profile_spec(&self) -> FastVadProfile {
        self.profile@
    }

    pub closed spec fn rate_spec(&self) -> u32 {
        self.rate@
    }

    pub closed spec fn fed_spec(&self) -> Seq<Seq<i16>> {
        self.fed@
    }

    /// A fresh detector for `profile`, to be fed frames at `rate`.
    pub fn new(profile: FastVadProfile, rate: u32) -> (r: Self)
        ensures
            r.profile_spec() == profile,
            r.rate_spec() == rate,
            r.fed_spec() == Seq::<Seq<i16>>::empty(),
    {
        Classifier {
            detector: new_detector(profile),
            profile: Ghost(profile),
            rate: Ghost(rate),
            fed: Ghost(Seq::empty()),
        }
    }

    /// Clears the detector's adaptive state.
    pub fn reset(&mut self)
        ensures
            final(self).fed_spec() == Seq::<Seq<i16>>::empty(),
            final(self).profile_spec() == old(self).profile_spec(),
            final(self).rate_spec() == old(self).rate_spec(),
    {
        reset_detector(self)
    }

    /// Classifies one 30 ms frame; `rate` is the rate the detector is fed at.
    pub fn predict_frame(&mut self, rate: u32, frame: &[i16]) -> (r: Result<bool, VadError>)
        requires
            rate == old(self).rate_spec(),
            rate_supported(rate),
            frame@.len() == samples_per_frame(rate),
        ensures
            r == Ok::<bool, VadError>(
                earshot_verdict(old(self).profile_spec(), rate, old(self).fed_spec().push(frame@)),
            ),
            final(self).fed_spec() == old(self).fed_spec().push(frame@),
            final(self).profile_spec() == old(self).profile_spec(),
            final(self).rate_spec() == old(self).rate_spec(),
    {
        let outcome = if rate == 8000 {
            predict_at_8khz(self, frame)
        } else if rate == 16000 {
            predict_at_16khz(self, frame)
        } else if rate == 32000 {
            predict_at_32khz(self, frame)
        } else {
            predict_at_48khz(self, frame)
        };
        match outcome {
            Ok(speech) => Ok(speech),
            Err(_) => Err(VadError::Classification),
        }
    }
}

} // verus!
