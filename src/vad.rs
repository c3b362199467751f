//! The adaptive trimmer: classifies each 30 ms frame with earshot, lets the
//! volatility controller retune the classifier, and keeps the frames the
//! segmentation state machine selects.

use vstd::prelude::*;
use crate::detector::{Classifier, earshot_verdict};
use crate::profile::FastVadProfile;
use crate::segment::{Segmenter, kept_frames, segment_count, run_from, initial_model, as_ints, span};
use crate::settings::{
    FastVadConfig, FastVadSettings, rate_supported, resolve_config, samples_per_frame, supports_sample_rate,
    frame_samples,
};
use crate::laws::law_order_preserved;
use crate::volatility::{VolatilityController, ControllerModel, controller_run, initial_controller, observe};

verus! {

/// Why a trim did not run.
#[derive(Debug, Clone, Copy, PartialEq, Eq, Structural)]
pub enum VadError {
    /// The sample rate is not one the classifier accepts (8, 16, 32 or 48 kHz).
    UnsupportedSampleRate(u32),
    /// The classifier could not evaluate a frame.
    Classification,
}

/// Number of frames of `fs` samples needed to cover `n` samples.
pub open spec fn frame_count(n: nat, fs: nat) -> nat {
    if fs == 0 { 0 } else { ((n + fs - 1) / fs as int) as nat }
}

/// The sample positions covered by `frames`, frame after frame: frame `k`
/// covers `k * fs .. min((k + 1) * fs, n)`.
pub open spec fn frame_positions(frames: Seq<int>, fs: nat, n: nat) -> Seq<int>
    decreases frames.len(),
{
    if frames.len() == 0 {
        seq![]
    } else {
        let k = frames.last();
        let end = if (k + 1) * fs <= n { (k + 1) * fs } else { n as int };
        frame_positions(frames.drop_last(), fs, n) + span(k * fs, end)
    }
}

/// The samples of `audio` that the frames `frames` cover, in that order.
pub open spec fn gather<S>(audio: Seq<S>, frames: Seq<int>, fs: nat) -> Seq<S> {
    frame_positions(frames, fs, audio.len()).map_values(|i: int| audio[i])
}

/// Frame `k` of `pcm` as the classifier receives it: `fs` samples, the
/// last frame padded with zeros.
pub open spec fn pcm_frame(pcm: Seq<i16>, fs: nat, k: int) -> Seq<i16> {
    Seq::new(fs, |j: int| if k * fs + j < pcm.len() { pcm[k * fs + j] } else { 0i16 })
}

/// All frames of `pcm`, in order.
pub open spec fn pcm_frames(pcm: Seq<i16>, fs: nat) -> Seq<Seq<i16>> {
    Seq::new(frame_count(pcm.len(), fs), |k: int| pcm_frame(pcm, fs, k))
}

/// The controller, the frames fed to the current detector, and the
/// decisions so far.
pub struct ClassifiedRun {
    pub controller: ControllerModel,
    pub fed: Seq<Seq<i16>>,
    pub decisions: Seq<bool>,
}

/// Classification of `frames` at `rate`: each decision is earshot's verdict
/// under the profile active at that frame, on the frames fed since the
/// detector was last rebuilt; a profile switch rebuilds the detector.
pub open spec fn classified_run(cfg: FastVadSettings, rate: u32, frames: Seq<Seq<i16>>) -> ClassifiedRun
    decreases frames.len(),
{
    if frames.len() == 0 {
        ClassifiedRun { controller: initial_controller(cfg), fed: seq![], decisions: seq![] }
    } else {
        let prev = classified_run(cfg, rate, frames.drop_last());
        let f = frames.last();
        let d = earshot_verdict(prev.controller.profile, rate, prev.fed.push(f));
        let c = observe(cfg, prev.controller, d);
        ClassifiedRun {
            controller: c,
            fed: if c.switches == prev.controller.switches { prev.fed.push(f) } else { seq![] },
            decisions: prev.decisions.push(d),
        }
    }
}

/// What a trim returns.
pub struct FastVadOutcome<S> {
    /// The kept samples, in stream order.
    pub trimmed_audio: Vec<S>,
    /// The classifier's decision for each frame.
    pub decisions: Vec<bool>,
    pub segments: usize,
    pub evaluated_frames: usize,
    pub profile_switches: usize,
    pub final_profile: FastVadProfile,
    pub dropped_samples: usize,
}

impl<S> FastVadOutcome<S> {
    pub fn is_empty(&self) -> (r: bool)
        ensures
            r == (self.trimmed_audio@.len() == 0),
    {
        self.trimmed_audio.len() == 0
    }
}

/// The adaptive trimmer: earshot's classifier, the volatility controller and
/// the segmentation state machine, run once per recording.
pub struct FastVad {
    settings: FastVadSettings,
    frame_samples: usize,
    sample_rate_hz: u32,
}

impl FastVad {
    pub closed spec fn settings_spec(&self) -> FastVadSettings {
        self.settings
    }

    pub closed spec fn rate_spec(&self) -> u32 {
        self.sample_rate_hz
    }

    pub closed spec fn wf(&self) -> bool {
        &&& self.settings.wf()
        &&& self.frame_samples as nat == samples_per_frame(self.sample_rate_hz)
    }

    /// A well-formed trimmer runs with valid settings, to which the laws of
    /// the segmentation and of the controller apply.
    pub proof fn lemma_settings_valid(&self)
        requires
            self.wf(),
        ensures
            self.settings_spec().wf(),
    {
    }

    /// A trimmer for `config`, or none when it is disabled.
    pub fn maybe_new(config: &FastVadConfig, sample_rate_hz: u32) -> (r: Result<Option<Self>, VadError>)
        ensures
            !config.enabled ==> r == Ok::<Option<Self>, VadError>(None),
            config.enabled && !rate_supported(sample_rate_hz) ==> r == Err::<Option<Self>, VadError>(
                VadError::UnsupportedSampleRate(sample_rate_hz),
            ),
            config.enabled && rate_supported(sample_rate_hz) ==> (r matches Ok(Some(v)) && v.wf()
                && v.settings_spec() == resolve_config(*config) && v.rate_spec() == sample_rate_hz),
    {
        if !config.enabled {
            return Ok(None);
        }
        if !supports_sample_rate(sample_rate_hz) {
            return Err(VadError::UnsupportedSampleRate(sample_rate_hz));
        }
        let settings = FastVadSettings::from_config(config);
        Ok(Some(Self::with_settings(settings, sample_rate_hz)))
    }

    pub fn with_settings(settings: FastVadSettings, sample_rate_hz: u32) -> (r: Self)
        requires
            settings.wf(),
        ensures
            r.wf(),
            r.settings_spec() == settings,
            r.rate_spec() == sample_rate_hz,
    {
        FastVad {
            settings,
            frame_samples: frame_samples(sample_rate_hz),
            sample_rate_hz,
        }
    }

    pub fn supports_sample_rate(sample_rate_hz: u32) -> (r: bool)
        ensures
            r == rate_supported(sample_rate_hz),
    {
        supports_sample_rate(sample_rate_hz)
    }

    pub fn sample_rate_hz(&self) -> (r: u32)
        ensures
            r == self.rate_spec(),
    {
        self.sample_rate_hz
    }

    pub fn settings(&self) -> (r: &FastVadSettings)
        ensures
            *r == self.settings_spec(),
            self.wf() ==> r.wf(),
    {
        &self.settings
    }

    /// Switches to another sample rate; an unsupported one is refused and
    /// leaves the trimmer as it was.
    pub fn set_sample_rate(&mut self, sample_rate_hz: u32) -> (r: Result<(), VadError>)
        requires
            old(self).wf(),
        ensures
            final(self).wf(),
            final(self).settings_spec() == old(self).settings_spec(),
            rate_supported(sample_rate_hz) ==> r is Ok && final(self).rate_spec() == sample_rate_hz,
            !rate_supported(sample_rate_hz) ==> r == Err::<(), VadError>(
                VadError::UnsupportedSampleRate(sample_rate_hz),
            ) && final(self).rate_spec() == old(self).rate_spec(),
    {
        if !supports_sample_rate(sample_rate_hz) {
            return Err(VadError::UnsupportedSampleRate(sample_rate_hz));
        }
        self.sample_rate_hz = sample_rate_hz;
        self.frame_samples = frame_samples(sample_rate_hz);
        Ok(())
    }

    /// Trims a recording down to its speech. `audio` holds the samples that
    /// are returned; `pcm` holds the same samples as 16-bit PCM, which the
    /// classifier reads. The detector, the profile and the decision history
    /// start afresh on every call. An empty recording gives the empty
    /// outcome at once, whatever the sample rate.
    pub fn trim<S: Copy>(&mut self, audio: &[S], pcm: &[i16]) -> (r: Result<FastVadOutcome<S>, VadError>)
        requires
            old(self).wf(),
            audio@.len() == pcm@.len(),
        ensures
            final(self).wf(),
            final(self).settings_spec() == old(self).settings_spec(),
            final(self).rate_spec() == old(self).rate_spec(),
            audio@.len() == 0 ==> (r matches Ok(o) && o.trimmed_audio@.len() == 0
                && o.decisions@.len() == 0 && o.segments == 0 && o.evaluated_frames == 0
                && o.profile_switches == 0 && o.final_profile == old(self).settings_spec().base_profile
                && o.dropped_samples == 0),
            audio@.len() > 0 && !rate_supported(old(self).rate_spec()) ==> r == Err::<
                FastVadOutcome<S>,
                VadError,
            >(VadError::UnsupportedSampleRate(old(self).rate_spec())),
            rate_supported(old(self).rate_spec()) ==> r is Ok,
            r matches Ok(o) ==> {
                let cfg = old(self).settings_spec();
                let fs = samples_per_frame(old(self).rate_spec());
                let ds = o.decisions@;
                &&& ds == classified_run(cfg, old(self).rate_spec(), pcm_frames(pcm@, fs)).decisions
                &&& ds.len() == frame_count(audio@.len(), fs)
                &&& o.evaluated_frames == ds.len()
                &&& o.trimmed_audio@ == gather(audio@, kept_frames(cfg, ds), fs)
                &&& o.segments == segment_count(cfg, ds)
                &&& o.profile_switches == controller_run(cfg, ds).switches
                &&& o.final_profile == controller_run(cfg, ds).profile
                &&& o.dropped_samples + o.trimmed_audio@.len() == audio@.len()
            },
    {
        if audio.len() == 0 {
            let ghost cfg = self.settings;
            let ghost fs = samples_per_frame(self.sample_rate_hz);
            let trimmed_audio: Vec<S> = Vec::new();
            let decisions: Vec<bool> = Vec::new();
            proof {
                assert(fs >= 1 ==> (fs - 1) / fs as int == 0) by (nonlinear_arith);
                assert(frame_count(0, fs) == 0);
                assert(pcm_frames(pcm@, fs) =~= Seq::<Seq<i16>>::empty());
                assert(decisions@ =~= classified_run(cfg, self.sample_rate_hz, pcm_frames(pcm@, fs)).decisions);
                assert(trimmed_audio@ =~= gather(audio@, kept_frames(cfg, decisions@), fs));
            }
            return Ok(FastVadOutcome {
                trimmed_audio,
                decisions,
                segments: 0,
                evaluated_frames: 0,
                profile_switches: 0,
                final_profile: self.settings.base_profile,
                dropped_samples: 0,
            });
        }
        if !supports_sample_rate(self.sample_rate_hz) {
            return Err(VadError::UnsupportedSampleRate(self.sample_rate_hz));
        }
        let fs = self.frame_samples;
        let n = audio.len();
        let rate = self.sample_rate_hz;
        let mut classifier = Classifier::new(self.settings.base_profile, rate);
        classifier.reset();
        let mut controller = VolatilityController::new(self.settings);
        let mut segmenter = Segmenter::new(self.settings);
        let mut decisions: Vec<bool> = Vec::new();
        let mut start: usize = 0;
        let ghost cfg = self.settings;
        while start < n
            invariant
                self.wf(),
                self.settings == cfg,
                rate_supported(self.sample_rate_hz),
                fs as nat == samples_per_frame(self.sample_rate_hz),
                1 <= fs <= 1440,
                n == audio@.len(),
                n == pcm@.len(),
                start as int == if decisions@.len() * fs <= n { decisions@.len() * fs } else { n as int },
                decisions@.len() >= 1 ==> (decisions@.len() - 1) * fs < n,
                controller.wf(),
                controller.settings_spec() == cfg,
                controller.model() == controller_run(cfg, decisions@),
                rate == self.sample_rate_hz,
                ({
                    let run = classified_run(cfg, rate, pcm_frames(pcm@, fs as nat).take(decisions@.len() as int));
                    &&& run.controller == controller.model()
                    &&& run.fed == classifier.fed_spec()
                    &&& run.decisions == decisions@
                }),
                classifier.profile_spec() == controller.model().profile,
                classifier.rate_spec() == rate,
                controller.model().switches <= decisions@.len(),
                segmenter.wf(),
                segmenter.settings_spec() == cfg,
                segmenter.frames_seen() == decisions@.len(),
                segmenter.model() == run_from(cfg, initial_model(), decisions@, 0),
            decreases n - start,
        {
            proof {
                let len = decisions@.len();
                assert(len <= len * fs) by (nonlinear_arith)
                    requires fs >= 1;
            }
            let ghost k = decisions@.len() as int;
            proof {
                assert(k * fs < n);
                assert(k < frame_count(n as nat, fs as nat)) by (nonlinear_arith)
                    requires k * fs < n, fs >= 1, k >= 0,
                        frame_count(n as nat, fs as nat) == (n + fs - 1) / fs as int;
            }
            let end = if n - start < fs { n } else { start + fs };
            let mut frame: Vec<i16> = Vec::new();
            let mut c: usize = 0;
            while c < fs
                invariant
                    c <= fs,
                    start <= n,
                    start as int == k * fs,
                    frame@.len() == c,
                    n == pcm@.len(),
                    forall|j: int| 0 <= j < c ==> #[trigger] frame@[j] == pcm_frame(pcm@, fs as nat, k)[j],
                decreases fs - c,
            {
                if c < n - start {
                    frame.push(pcm[start + c]);
                } else {
                    frame.push(0);
                }
                c = c + 1;
            }
            proof {
                assert(frame@ =~= pcm_frame(pcm@, fs as nat, k));
            }
            let ghost frames = pcm_frames(pcm@, fs as nat);
            let ghost prev_switches = controller.model().switches;
            let speech = match classifier.predict_frame(rate, frame.as_slice()) {
                Ok(speech) => speech,
                Err(e) => {
                    return Err(e);
                },
            };
            let ghost before = decisions@;
            if let Some(profile) = controller.observe(speech) {
                classifier = Classifier::new(profile, rate);
                classifier.reset();
            }
            segmenter.push(speech);
            decisions.push(speech);
            proof {
                assert(decisions@.drop_last() =~= before);
                assert(frames.take(k + 1).drop_last() =~= frames.take(k));
                assert(frames.take(k + 1).last() == frame@);
                assert(decisions@.len() * fs == before.len() * fs + fs) by (nonlinear_arith)
                    requires decisions@.len() == before.len() + 1;
            }
            start = end;
        }
        let ghost ds = decisions@;
        proof {
            lemma_frame_count(n as nat, fs as nat, ds.len());
            assert(pcm_frames(pcm@, fs as nat).take(ds.len() as int) =~= pcm_frames(pcm@, fs as nat));
        }
        let (kept, segments) = segmenter.finish();
        proof {
            assert forall|i: int| 0 <= i < kept@.len() implies (kept@[i] as int) * fs < audio@.len() by {
                let k = kept@[i] as int;
                assert(k * fs <= (ds.len() - 1) * fs) by (nonlinear_arith)
                    requires k <= ds.len() - 1, fs >= 1;
            }
        }
        let trimmed = gather_frames(audio, &kept, fs);
        let evaluated_frames = decisions.len();
        proof {
            law_order_preserved(cfg, audio@, ds, fs as nat);
        }
        let dropped_samples = n - trimmed.len();
        Ok(FastVadOutcome {
            trimmed_audio: trimmed,
            decisions,
            segments,
            evaluated_frames,
            profile_switches: controller.profile_switches(),
            final_profile: controller.profile(),
            dropped_samples,
        })
    }
}

proof fn lemma_frame_count(n: nat, fs: nat, len: nat)
    requires
        fs >= 1,
        len * fs >= n,
        len >= 1 ==> (len - 1) * fs < n,
    ensures
        frame_count(n, fs) == len,
{
    if len == 0 {
        assert(n == 0);
        assert((fs - 1) / fs as int == 0) by (nonlinear_arith)
            requires fs >= 1;
    } else {
        assert((n + fs - 1) / fs as int == len) by (nonlinear_arith)
            requires len * fs >= n, (len - 1) * fs < n, fs >= 1;
    }
}

/// Copies the samples of the given frames, in the given order.
fn gather_frames<S: Copy>(audio: &[S], kept: &Vec<usize>, fs: usize) -> (r: Vec<S>)
    requires
        fs >= 1,
        forall|i: int| 0 <= i < kept@.len() ==> (kept@[i] as int) * fs < audio@.len(),
    ensures
        r@ == gather(audio@, as_ints(kept@), fs as nat),
{
    let n = audio.len();
    let mut out: Vec<S> = Vec::new();
    let mut j: usize = 0;
    while j < kept.len()
        invariant
            0 <= j <= kept@.len(),
            n == audio@.len(),
            fs >= 1,
            forall|i: int| 0 <= i < kept@.len() ==> (kept@[i] as int) * fs < audio@.len(),
            out@ == frame_positions(as_ints(kept@).take(j as int), fs as nat, n as nat).map_values(
                |i: int| audio@[i],
            ),
        decreases kept@.len() - j,
    {
        let k = kept[j];
        let start = k * fs;
        let end = if n - start < fs { n } else { start + fs };
        let ghost prefix = out@;
        let mut i = start;
        while i < end
            invariant
                start <= i <= end <= n,
                n == audio@.len(),
                out@ == prefix + span(start as int, i as int).map_values(|p: int| audio@[p]),
            decreases end - i,
        {
            let ghost prev = out@;
            out.push(audio[i]);
            proof {
                assert(span(start as int, i + 1) =~= span(start as int, i as int).push(i as int));
                assert(out@ =~= prefix + span(start as int, i + 1).map_values(|p: int| audio@[p]));
            }
            i = i + 1;
        }
        proof {
            let ks = as_ints(kept@).take(j as int + 1);
            assert(ks.drop_last() =~= as_ints(kept@).take(j as int));
            assert(ks.last() == k as int);
            assert((k as int + 1) * fs == k as int * fs + fs) by (nonlinear_arith);
            let before_pos = frame_positions(as_ints(kept@).take(j as int), fs as nat, n as nat);
            let sp = span(start as int, end as int);
            assert(frame_positions(ks, fs as nat, n as nat) == before_pos + sp);
            assert((before_pos + sp).map_values(|i: int| audio@[i]) =~= before_pos.map_values(
                |i: int| audio@[i],
            ) + sp.map_values(|i: int| audio@[i]));
            assert(out@ =~= frame_positions(ks, fs as nat, n as nat).map_values(|i: int| audio@[i]));
        }
        j = j + 1;
    }
    proof {
        assert(as_ints(kept@).take(kept@.len() as int) =~= as_ints(kept@));
    }
    out
}

} // verus!
