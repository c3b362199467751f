//! The segmentation state machine: a model over frame indices, and the
//! executable machine that follows it.

use vstd::prelude::*;
use crate::settings::FastVadSettings;

verus! {

// ---------------------------------------------------------------------------
// Model: the segmentation state machine over frame indices.
// ---------------------------------------------------------------------------

/// The frame indices `a, a + 1, ..., b - 1`.
pub open spec fn span(a: int, b: int) -> Seq<int> {
    Seq::new((b - a) as nat, |i: int| a + i)
}

/// The last `cap` elements of `s` (all of them when there are fewer).
pub open spec fn keep_last<A>(s: Seq<A>, cap: nat) -> Seq<A> {
    if s.len() > cap {
        s.subrange(s.len() - cap, s.len() as int)
    } else {
        s
    }
}

#[verifier::ext_equal]
/// Where the segmentation cursor stands, with the frames it holds back.
pub enum CursorModel {
    /// Idle: only the pre-roll ring buffer is filled.
    Silence,
    /// Speech seen, but fewer than `min_speech_frames` frames of it.
    PendingSpeech { candidate: Seq<int> },
    /// A committed segment; `trailing` holds the most recent silence frames
    /// (at most `post_roll_frames`), `silence_run` counts the silence so far.
    ActiveSpeech { trailing: Seq<int>, silence_run: nat },
}

#[verifier::ext_equal]
/// State of the segmentation: the cursor, the pre-roll buffer, the frames
/// already emitted (in order) and the number of committed segments.
pub struct SegModel {
    pub cursor: CursorModel,
    pub pre_roll: Seq<int>,
    pub kept: Seq<int>,
    pub segments: nat,
}

pub open spec fn initial_model() -> SegModel {
    SegModel { cursor: CursorModel::Silence, pre_roll: seq![], kept: seq![], segments: 0 }
}

/// Emits the pre-roll, then the candidate frames, and opens a segment.
pub open spec fn commit(m: SegModel, candidate: Seq<int>) -> SegModel {
    SegModel {
        cursor: CursorModel::ActiveSpeech { trailing: seq![], silence_run: 0 },
        pre_roll: seq![],
        kept: m.kept + m.pre_roll + candidate,
        segments: m.segments + 1,
    }
}

/// A candidate that has grown to `candidate`: committed once long enough.
pub open spec fn grow_candidate(cfg: FastVadSettings, m: SegModel, candidate: Seq<int>) -> SegModel {
    if candidate.len() >= cfg.min_speech_frames {
        commit(m, candidate)
    } else {
        SegModel { cursor: CursorModel::PendingSpeech { candidate }, ..m }
    }
}

/// One transition: frame `k`, classified as speech or not, enters state `m`.
pub open spec fn step(cfg: FastVadSettings, m: SegModel, k: int, speech: bool) -> SegModel {
    match m.cursor {
        CursorModel::Silence => {
            if speech {
                grow_candidate(cfg, m, seq![k])
            } else {
                SegModel { pre_roll: keep_last(m.pre_roll.push(k), cfg.pre_roll_frames as nat), ..m }
            }
        },
        CursorModel::PendingSpeech { candidate } => {
            if speech {
                grow_candidate(cfg, m, candidate.push(k))
            } else {
                SegModel {
                    cursor: CursorModel::Silence,
                    pre_roll: keep_last(m.pre_roll + candidate.push(k), cfg.pre_roll_frames as nat),
                    ..m
                }
            }
        },
        CursorModel::ActiveSpeech { trailing, silence_run } => {
            if speech {
                SegModel {
                    cursor: CursorModel::ActiveSpeech { trailing: seq![], silence_run: 0 },
                    kept: m.kept + trailing.push(k),
                    ..m
                }
            } else {
                let t = keep_last(trailing.push(k), cfg.post_roll_frames as nat);
                if silence_run + 1 >= cfg.silence_timeout_frames {
                    SegModel {
                        cursor: CursorModel::Silence,
                        pre_roll: seq![],
                        kept: m.kept + t,
                        ..m
                    }
                } else {
                    SegModel {
                        cursor: CursorModel::ActiveSpeech { trailing: t, silence_run: silence_run + 1 },
                        ..m
                    }
                }
            }
        },
    }
}

/// The state after the decisions `ds` for frames `base, base + 1, ...`.
pub open spec fn run_from(cfg: FastVadSettings, m: SegModel, ds: Seq<bool>, base: int) -> SegModel
    decreases ds.len(),
{
    if ds.len() == 0 {
        m
    } else {
        step(cfg, run_from(cfg, m, ds.drop_last(), base), base + ds.len() - 1, ds.last())
    }
}

/// End of stream: an open segment keeps its buffered trailing frames, an
/// unfinished candidate is dropped.
pub open spec fn finish(m: SegModel) -> Seq<int> {
    match m.cursor {
        CursorModel::ActiveSpeech { trailing, .. } => m.kept + trailing,
        _ => m.kept,
    }
}

/// The frames kept from a stream with per-frame decisions `ds`, in order.
pub open spec fn kept_frames(cfg: FastVadSettings, ds: Seq<bool>) -> Seq<int> {
    finish(run_from(cfg, initial_model(), ds, 0))
}

/// The segments committed on a stream with per-frame decisions `ds`.
pub open spec fn segment_count(cfg: FastVadSettings, ds: Seq<bool>) -> nat {
    run_from(cfg, initial_model(), ds, 0).segments
}

// ---------------------------------------------------------------------------
// Executable state machine.
// ---------------------------------------------------------------------------

/// The three-variant cursor. Every buffer it holds back is a run of
/// consecutive frames that ends just before the next frame, so a length
/// names it.
pub enum SegmentCursor {
    Silence,
    PendingSpeech { candidate_frames: usize },
    ActiveSpeech { trailing_frames: usize, silence_run: usize },
}

/// Frame-level segmentation: consumes one decision per frame and records
/// the indices of the frames that belong in the trimmed output.
pub struct Segmenter {
    settings: FastVadSettings,
    cursor: SegmentCursor,
    pre_roll_frames: usize,
    kept: Vec<usize>,
    segments: usize,
    next_frame: usize,
}

pub open spec fn as_ints(v: Seq<usize>) -> Seq<int> {
    v.map_values(|x: usize| x as int)
}

impl Segmenter {
    pub closed spec fn settings_spec(&self) -> FastVadSettings {
        self.settings
    }

    /// Number of frames consumed so far.
    pub closed spec fn frames_seen(&self) -> nat {
        self.next_frame as nat
    }

    pub closed spec fn wf(&self) -> bool {
        &&& self.settings.wf()
        &&& self.pre_roll_frames <= self.settings.pre_roll_frames
        &&& self.segments <= self.next_frame
        &&& forall|i: int| 0 <= i < self.kept@.len() ==> self.kept@[i] < self.next_frame
        &&& match self.cursor {
            SegmentCursor::Silence => self.pre_roll_frames <= self.next_frame,
            SegmentCursor::PendingSpeech { candidate_frames } => {
                &&& 1 <= candidate_frames < self.settings.min_speech_frames
                &&& self.pre_roll_frames + candidate_frames <= self.next_frame
            },
            SegmentCursor::ActiveSpeech { trailing_frames, silence_run } => {
                &&& self.pre_roll_frames == 0
                &&& trailing_frames <= self.settings.post_roll_frames
                &&& trailing_frames <= silence_run
                &&& silence_run < self.settings.silence_timeout_frames
                &&& silence_run <= self.next_frame
            },
        }
    }

    /// The state of the model that this segmenter stands for.
    pub closed spec fn model(&self) -> SegModel {
        let n = self.next_frame as int;
        let p = self.pre_roll_frames as int;
        match self.cursor {
            SegmentCursor::Silence => SegModel {
                cursor: CursorModel::Silence,
                pre_roll: span(n - p, n),
                kept: as_ints(self.kept@),
                segments: self.segments as nat,
            },
            SegmentCursor::PendingSpeech { candidate_frames } => {
                let c = candidate_frames as int;
                SegModel {
                    cursor: CursorModel::PendingSpeech { candidate: span(n - c, n) },
                    pre_roll: span(n - c - p, n - c),
                    kept: as_ints(self.kept@),
                    segments: self.segments as nat,
                }
            },
            SegmentCursor::ActiveSpeech { trailing_frames, silence_run } => SegModel {
                cursor: CursorModel::ActiveSpeech {
                    trailing: span(n - trailing_frames as int, n),
                    silence_run: silence_run as nat,
                },
                pre_roll: seq![],
                kept: as_ints(self.kept@),
                segments: self.segments as nat,
            },
        }
    }

    pub fn new(settings: FastVadSettings) -> (r: Self)
        requires
            settings.wf(),
        ensures
            r.wf(),
            r.model() == initial_model(),
            r.settings_spec() == settings,
            r.frames_seen() == 0,
    {
        let r = Segmenter {
            settings,
            cursor: SegmentCursor::Silence,
            pre_roll_frames: 0,
            kept: Vec::new(),
            segments: 0,
            next_frame: 0,
        };
        assert(r.model().pre_roll =~= seq![]);
        assert(r.model().kept =~= seq![]);
        r
    }

    /// Feeds the decision for the next frame.
    pub fn push(&mut self, speech: bool)
        requires
            old(self).wf(),
            old(self).frames_seen() < usize::MAX,
        ensures
            final(self).wf(),
            final(self).settings_spec() == old(self).settings_spec(),
            final(self).frames_seen() == old(self).frames_seen() + 1,
            final(self).model() == step(
                old(self).settings_spec(),
                old(self).model(),
                old(self).frames_seen() as int,
                speech,
            ),
    {
        let n = self.next_frame;
        let p = self.pre_roll_frames;
        let ghost cfg = self.settings;
        let ghost m0 = self.model();
        proof {
            lemma_span_push(n - p, n as int);
        }
        match self.cursor {
            SegmentCursor::Silence => {
                if speech {
                    if 1 >= self.settings.min_speech_frames {
                        append_span(&mut self.kept, n - p, n + 1);
                        self.cursor = SegmentCursor::ActiveSpeech { trailing_frames: 0, silence_run: 0 };
                        self.pre_roll_frames = 0;
                        self.segments = self.segments + 1;
                        proof {
                            lemma_span_concat(n - p, n as int, n + 1);
                        }
                    } else {
                        self.cursor = SegmentCursor::PendingSpeech { candidate_frames: 1 };
                    }
                    proof {
                        assert(seq![n as int] =~= span(n as int, n + 1));
                    }
                } else {
                    let q = if p < self.settings.pre_roll_frames { p + 1 } else { p };
                    self.pre_roll_frames = q;
                    proof {
                        lemma_keep_last_span(n - p, n + 1, cfg.pre_roll_frames as nat);
                    }
                }
            },
            SegmentCursor::PendingSpeech { candidate_frames } => {
                let c = candidate_frames;
                proof {
                    lemma_span_push(n - c, n as int);
                    lemma_span_concat(n - c - p, n - c, n + 1);
                }
                if speech {
                    if c + 1 >= self.settings.min_speech_frames {
                        append_span(&mut self.kept, n - c - p, n + 1);
                        self.cursor = SegmentCursor::ActiveSpeech { trailing_frames: 0, silence_run: 0 };
                        self.pre_roll_frames = 0;
                        self.segments = self.segments + 1;
                        proof {
                            assert(as_ints(self.kept@) =~= m0.kept + m0.pre_roll + span(n - c, n + 1));
                        }
                    } else {
                        self.cursor = SegmentCursor::PendingSpeech { candidate_frames: c + 1 };
                    }
                } else {
                    let total = p + c + 1;
                    let q = if total <= self.settings.pre_roll_frames {
                        total
                    } else {
                        self.settings.pre_roll_frames
                    };
                    self.cursor = SegmentCursor::Silence;
                    self.pre_roll_frames = q;
                    proof {
                        lemma_keep_last_span(n - c - p, n + 1, cfg.pre_roll_frames as nat);
                    }
                }
            },
            SegmentCursor::ActiveSpeech { trailing_frames, silence_run } => {
                let t = trailing_frames;
                proof {
                    lemma_span_push(n - t, n as int);
                }
                if speech {
                    append_span(&mut self.kept, n - t, n + 1);
                    self.cursor = SegmentCursor::ActiveSpeech { trailing_frames: 0, silence_run: 0 };
                } else {
                    let t2 = if t < self.settings.post_roll_frames { t + 1 } else { t };
                    proof {
                        lemma_keep_last_span(n - t, n + 1, cfg.post_roll_frames as nat);
                    }
                    if silence_run + 1 >= self.settings.silence_timeout_frames {
                        append_span(&mut self.kept, n + 1 - t2, n + 1);
                        self.cursor = SegmentCursor::Silence;
                        self.pre_roll_frames = 0;
                    } else {
                        self.cursor = SegmentCursor::ActiveSpeech {
                            trailing_frames: t2,
                            silence_run: silence_run + 1,
                        };
                    }
                }
                proof {
                    assert(span(n + 1, n + 1) =~= seq![]);
                }
            },
        }
        self.next_frame = n + 1;
        proof {
            assert(span(n + 1, n + 1) =~= seq![]);
            assert(self.model() =~= step(cfg, m0, n as int, speech));
        }
    }

    /// Ends the stream; returns the kept frame indices, in order, and the
    /// number of committed segments.
    pub fn finish(self) -> (r: (Vec<usize>, usize))
        requires
            self.wf(),
        ensures
            as_ints(r.0@) == finish(self.model()),
            r.1 as nat == self.model().segments,
            forall|i: int| 0 <= i < r.0@.len() ==> r.0@[i] < self.frames_seen(),
    {
        let mut kept = self.kept;
        let ghost orig = kept@;
        match self.cursor {
            SegmentCursor::ActiveSpeech { trailing_frames, .. } => {
                append_span(&mut kept, self.next_frame - trailing_frames, self.next_frame);
            },
            _ => {
                assert(as_ints(kept@) == self.model().kept);
            },
        }
        (kept, self.segments)
    }
}

/// Appends the frame indices `a .. b` to `kept`.
fn append_span(kept: &mut Vec<usize>, a: usize, b: usize)
    requires
        a <= b,
    ensures
        as_ints(final(kept)@) == as_ints(old(kept)@) + span(a as int, b as int),
        final(kept)@.len() == old(kept)@.len() + (b - a),
        forall|i: int| 0 <= i < old(kept)@.len() ==> #[trigger] final(kept)@[i] == old(kept)@[i],
        forall|i: int| old(kept)@.len() <= i < final(kept)@.len() ==> a <= #[trigger] final(kept)@[i] < b,
{
    let ghost start = as_ints(kept@);
    let ghost orig = kept@;
    let mut i = a;
    while i < b
        invariant
            a <= i <= b,
            as_ints(kept@) == start + span(a as int, i as int),
            kept@.len() == orig.len() + (i - a),
            forall|j: int| 0 <= j < orig.len() ==> #[trigger] kept@[j] == orig[j],
            forall|j: int| orig.len() <= j < kept@.len() ==> a <= #[trigger] kept@[j] < i,
        decreases b - i,
    {
        let ghost prev = kept@;
        kept.push(i);
        proof {
            assert(as_ints(kept@) =~= as_ints(prev).push(i as int));
            lemma_span_push(a as int, i as int);
            assert(as_ints(kept@) =~= start + span(a as int, i + 1));
        }
        i = i + 1;
    }
}

pub proof fn lemma_span_push(a: int, b: int)
    requires
        a <= b,
    ensures
        span(a, b).push(b) == span(a, b + 1),
{
    assert(span(a, b).push(b) =~= span(a, b + 1));
}

pub proof fn lemma_span_concat(a: int, b: int, c: int)
    requires
        a <= b <= c,
    ensures
        span(a, b) + span(b, c) == span(a, c),
{
    assert(span(a, b) + span(b, c) =~= span(a, c));
}

pub proof fn lemma_keep_last_span(a: int, b: int, cap: nat)
    requires
        a <= b,
    ensures
        keep_last(span(a, b), cap) == span(if b - cap > a { b - cap } else { a }, b),
{
    if b - a > cap {
        assert(keep_last(span(a, b), cap) =~= span(b - cap, b));
    }
}

} // verus!
