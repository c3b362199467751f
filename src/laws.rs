//! Properties of the trimmer, proved over the model that `FastVad::trim`
//! is specified against.

use vstd::prelude::*;
use crate::segment::{
    CursorModel, SegModel, span, keep_last, step, run_from, finish, kept_frames, segment_count,
    initial_model, lemma_span_push, lemma_span_concat, lemma_keep_last_span,
};
use crate::settings::{FastVadSettings, min_nat, VOLATILITY_SCALE};
use crate::profile::rank_of;
use crate::volatility::{controller_run, record, transitions, pairs, too_volatile};
use crate::vad::{frame_positions, gather, frame_count};

verus! {

pub open spec fn strictly_increasing(s: Seq<int>) -> bool {
    forall|i: int, j: int| 0 <= i < j < s.len() ==> s[i] < s[j]
}

pub open spec fn all_within(s: Seq<int>, lo: int, hi: int) -> bool {
    forall|i: int| 0 <= i < s.len() ==> lo <= #[trigger] s[i] < hi
}

/// `n` copies of the decision `d`.
pub open spec fn repeat(d: bool, n: nat) -> Seq<bool> {
    Seq::new(n, |i: int| d)
}

// ---------------------------------------------------------------------------
// Sequences
// ---------------------------------------------------------------------------

proof fn lemma_increasing_concat(a: Seq<int>, b: Seq<int>)
    requires
        strictly_increasing(a),
        strictly_increasing(b),
        forall|i: int, j: int| 0 <= i < a.len() && 0 <= j < b.len() ==> a[i] < b[j],
    ensures
        strictly_increasing(a + b),
{
    assert forall|i: int, j: int| 0 <= i < j < (a + b).len() implies (a + b)[i] < (a + b)[j] by {
        if j < a.len() {
        } else if i < a.len() {
            assert(a[i] < b[j - a.len()]);
        } else {
        }
    }
}

proof fn lemma_increasing_drop_middle(a: Seq<int>, b: Seq<int>, x: int)
    requires
        strictly_increasing(a + b),
        0 <= x <= b.len(),
    ensures
        strictly_increasing(a + b.subrange(x, b.len() as int)),
{
    let s = a + b;
    let t = a + b.subrange(x, b.len() as int);
    assert forall|i: int, j: int| 0 <= i < j < t.len() implies t[i] < t[j] by {
        let ii = if i < a.len() { i } else { i + x };
        let jj = if j < a.len() { j } else { j + x };
        assert(t[i] == s[ii]);
        assert(t[j] == s[jj]);
    }
}

proof fn lemma_keep_last_suffix(a: Seq<int>, b: Seq<int>, cap: nat)
    requires
        strictly_increasing(a + b),
    ensures
        strictly_increasing(a + keep_last(b, cap)),
{
    if b.len() > cap {
        lemma_increasing_drop_middle(a, b, b.len() - cap);
    }
}

/// A strictly increasing sequence inside `[lo, hi)` has at most `hi - lo` elements.
proof fn lemma_increasing_len(s: Seq<int>, lo: int, hi: int)
    requires
        strictly_increasing(s),
        all_within(s, lo, hi),
    ensures
        s.len() <= if hi >= lo { hi - lo } else { 0 },
    decreases s.len(),
{
    if s.len() > 0 {
        let t = s.drop_last();
        assert forall|i: int| 0 <= i < t.len() implies lo <= #[trigger] t[i] < s.last() by {
            assert(s[i] < s[s.len() - 1]);
        }
        lemma_increasing_len(t, lo, s.last());
    }
}

/// Keeping the last `cap` elements of a suffix that is at least that long
/// is keeping the last `cap` elements of the whole.
proof fn lemma_keep_last_of_suffix<A>(z: Seq<A>, s: Seq<A>, cap: nat)
    requires
        s.len() <= z.len(),
        s == z.subrange(z.len() - s.len(), z.len() as int),
        s.len() >= cap || s.len() == z.len(),
    ensures
        keep_last(s, cap) == keep_last(z, cap),
{
    if s.len() > cap {
        assert(keep_last(s, cap) =~= keep_last(z, cap));
    } else if s.len() == z.len() {
        assert(s =~= z);
    } else {
        assert(s.len() == cap);
        assert(keep_last(s, cap) =~= keep_last(z, cap));
    }
}

proof fn lemma_keep_last_append<A>(x: Seq<A>, y: Seq<A>, cap: nat)
    ensures
        keep_last(keep_last(x, cap) + y, cap) == keep_last(x + y, cap),
{
    let z = x + y;
    let s = keep_last(x, cap) + y;
    if x.len() > cap {
        assert(s =~= z.subrange(z.len() - s.len(), z.len() as int));
        lemma_keep_last_of_suffix(z, s, cap);
    } else {
        assert(s =~= z);
    }
}

proof fn lemma_keep_last_push<A>(x: Seq<A>, v: A, cap: nat)
    ensures
        keep_last(keep_last(x, cap).push(v), cap) == keep_last(x.push(v), cap),
{
    lemma_keep_last_append(x, seq![v], cap);
    assert(keep_last(x, cap).push(v) =~= keep_last(x, cap) + seq![v]);
    assert(x.push(v) =~= x + seq![v]);
}

// ---------------------------------------------------------------------------
// Order of the kept frames
// ---------------------------------------------------------------------------

/// The frames a state holds back, in stream order.
pub open spec fn held(m: SegModel) -> Seq<int> {
    match m.cursor {
        CursorModel::Silence => m.pre_roll,
        CursorModel::PendingSpeech { candidate } => m.pre_roll + candidate,
        CursorModel::ActiveSpeech { trailing, .. } => m.pre_roll + trailing,
    }
}

/// Every frame a state mentions is below `next`, and the emitted frames
/// followed by the held-back ones are strictly increasing.
pub open spec fn ordered(m: SegModel, next: int) -> bool {
    &&& strictly_increasing(m.kept + held(m))
    &&& all_within(m.kept + held(m), 0, next)
    &&& m.cursor is ActiveSpeech ==> m.pre_roll.len() == 0
}

proof fn lemma_push_next(s: Seq<int>, k: int)
    requires
        strictly_increasing(s),
        all_within(s, 0, k),
        k >= 0,
    ensures
        strictly_increasing(s.push(k)),
        all_within(s.push(k), 0, k + 1),
{
    assert forall|i: int, j: int| 0 <= i < j < s.push(k).len() implies s.push(k)[i] < s.push(k)[j] by {
        if j == s.len() {
            assert(s.push(k)[i] == s[i]);
        }
    }
}

proof fn lemma_within_parts(a: Seq<int>, b: Seq<int>, lo: int, hi: int)
    requires
        all_within(a + b, lo, hi),
    ensures
        all_within(a, lo, hi),
        all_within(b, lo, hi),
{
    assert forall|i: int| 0 <= i < a.len() implies lo <= #[trigger] a[i] < hi by {
        assert((a + b)[i] == a[i]);
    }
    assert forall|i: int| 0 <= i < b.len() implies lo <= #[trigger] b[i] < hi by {
        assert((a + b)[a.len() + i] == b[i]);
    }
}

proof fn lemma_increasing_prefix(a: Seq<int>, b: Seq<int>)
    requires
        strictly_increasing(a + b),
    ensures
        strictly_increasing(a),
{
    assert forall|i: int, j: int| 0 <= i < j < a.len() implies a[i] < a[j] by {
        assert((a + b)[i] == a[i]);
        assert((a + b)[j] == a[j]);
    }
}

proof fn lemma_step_ordered(cfg: FastVadSettings, m: SegModel, k: int, d: bool)
    requires
        ordered(m, k),
        k >= 0,
    ensures
        ordered(step(cfg, m, k, d), k + 1),
{
    let all = m.kept + held(m);
    lemma_push_next(all, k);
    let s = step(cfg, m, k, d);
    let p = cfg.pre_roll_frames as nat;
    let q = cfg.post_roll_frames as nat;
    match m.cursor {
        CursorModel::Silence => {
            assert(all.push(k) =~= m.kept + m.pre_roll.push(k));
            if d {
                assert(all.push(k) =~= m.kept + m.pre_roll + seq![k]);
                if 1 >= cfg.min_speech_frames {
                    assert(s.kept + held(s) =~= all.push(k));
                } else {
                    assert(s.kept + held(s) =~= all.push(k));
                }
            } else {
                lemma_keep_last_suffix(m.kept, m.pre_roll.push(k), p);
                lemma_within_parts(m.kept, m.pre_roll.push(k), 0, k + 1);
                lemma_within_parts(m.kept, keep_last(m.pre_roll.push(k), p), 0, k + 1);
                assert(s.kept + held(s) == m.kept + keep_last(m.pre_roll.push(k), p));
                assert(all_within(keep_last(m.pre_roll.push(k), p), 0, k + 1));
                assert(all_within(m.kept + keep_last(m.pre_roll.push(k), p), 0, k + 1));
            }
        },
        CursorModel::PendingSpeech { candidate } => {
            if d {
                assert(s.kept + held(s) =~= all.push(k));
            } else {
                let b = m.pre_roll + candidate.push(k);
                assert(all.push(k) =~= m.kept + b);
                lemma_keep_last_suffix(m.kept, b, p);
                lemma_within_parts(m.kept, b, 0, k + 1);
                assert(s.kept + held(s) == m.kept + keep_last(b, p));
                assert(all_within(keep_last(b, p), 0, k + 1));
                assert(all_within(m.kept + keep_last(b, p), 0, k + 1));
            }
        },
        CursorModel::ActiveSpeech { trailing, silence_run } => {
            assert(m.pre_roll =~= seq![]);
            assert(all =~= m.kept + trailing);
            assert(all.push(k) =~= m.kept + trailing.push(k));
            if d {
                assert(s.kept + held(s) =~= all.push(k));
            } else {
                let t = keep_last(trailing.push(k), q);
                lemma_keep_last_suffix(m.kept, trailing.push(k), q);
                lemma_within_parts(m.kept, trailing.push(k), 0, k + 1);
                assert(all_within(t, 0, k + 1));
                assert(all_within(m.kept + t, 0, k + 1));
                if silence_run + 1 >= cfg.silence_timeout_frames {
                    assert(s.kept + held(s) =~= m.kept + t);
                } else {
                    assert(s.kept + held(s) =~= m.kept + t);
                }
            }
        },
    }
}

proof fn lemma_run_ordered(cfg: FastVadSettings, ds: Seq<bool>)
    ensures
        ordered(run_from(cfg, initial_model(), ds, 0), ds.len() as int),
    decreases ds.len(),
{
    if ds.len() == 0 {
        assert(initial_model().kept + held(initial_model()) =~= seq![]);
    } else {
        lemma_run_ordered(cfg, ds.drop_last());
        lemma_step_ordered(
            cfg,
            run_from(cfg, initial_model(), ds.drop_last(), 0),
            ds.len() - 1,
            ds.last(),
        );
    }
}

/// The kept frames come in stream order, each once, and all from the stream.
pub proof fn lemma_kept_frames_ordered(cfg: FastVadSettings, ds: Seq<bool>)
    ensures
        strictly_increasing(kept_frames(cfg, ds)),
        all_within(kept_frames(cfg, ds), 0, ds.len() as int),
{
    let m = run_from(cfg, initial_model(), ds, 0);
    lemma_run_ordered(cfg, ds);
    match m.cursor {
        CursorModel::ActiveSpeech { trailing, .. } => {
            assert(m.kept + held(m) =~= finish(m));
        },
        _ => {
            lemma_increasing_prefix(m.kept, held(m));
            lemma_within_parts(m.kept, held(m), 0, ds.len() as int);
        },
    }
}

/// Sample positions of increasing frames are increasing, and lie below the
/// end of the last frame.
proof fn lemma_positions_ordered(frames: Seq<int>, fs: nat, n: nat)
    requires
        fs >= 1,
        strictly_increasing(frames),
        forall|i: int| 0 <= i < frames.len() ==> 0 <= #[trigger] frames[i] && frames[i] * fs < n,
    ensures
        strictly_increasing(frame_positions(frames, fs, n)),
        all_within(frame_positions(frames, fs, n), 0, n as int),
        frames.len() > 0 ==> all_within(
            frame_positions(frames, fs, n),
            0,
            (frames.last() + 1) * fs,
        ),
    decreases frames.len(),
{
    if frames.len() > 0 {
        let k = frames.last();
        let init = frames.drop_last();
        let end = if (k + 1) * fs <= n { (k + 1) * fs } else { n as int };
        assert(k * fs < n);
        assert(k * fs < (k + 1) * fs) by (nonlinear_arith)
            requires fs >= 1;
        assert forall|i: int, j: int| 0 <= i < j < init.len() implies init[i] < init[j] by {
            assert(frames[i] < frames[j]);
        }
        lemma_positions_ordered(init, fs, n);
        let sp = span(k * fs, end);
        if init.len() > 0 {
            let k0 = init.last();
            assert(frames[init.len() - 1] < frames[frames.len() - 1]);
            assert((k0 + 1) * fs <= k * fs) by (nonlinear_arith)
                requires k0 < k, fs >= 1;
        }
        let prev = frame_positions(init, fs, n);
        assert forall|i: int, j: int| 0 <= i < prev.len() && 0 <= j < sp.len() implies prev[i] < sp[j] by {
            if init.len() > 0 {
                assert(prev[i] < (init.last() + 1) * fs);
            }
        }
        lemma_increasing_concat(prev, sp);
        assert forall|i: int| 0 <= i < (prev + sp).len() implies 0 <= #[trigger] (prev + sp)[i] < n
            && (prev + sp)[i] < (k + 1) * fs by {
            if i < prev.len() {
                assert((prev + sp)[i] == prev[i]);
                if init.len() > 0 {
                    let k0 = init.last();
                    assert((k0 + 1) * fs <= (k + 1) * fs) by (nonlinear_arith)
                        requires k0 < k, fs >= 1;
                }
            }
        }
    }
}

/// Order preservation: the trimmed audio is the input read at strictly
/// increasing sample positions, so it never reorders or repeats a sample,
/// and it is never longer than the input.
pub proof fn law_order_preserved<S>(cfg: FastVadSettings, audio: Seq<S>, ds: Seq<bool>, fs: nat)
    requires
        fs >= 1,
        ds.len() == frame_count(audio.len(), fs),
    ensures
        strictly_increasing(frame_positions(kept_frames(cfg, ds), fs, audio.len())),
        all_within(frame_positions(kept_frames(cfg, ds), fs, audio.len()), 0, audio.len() as int),
        gather(audio, kept_frames(cfg, ds), fs) == frame_positions(
            kept_frames(cfg, ds),
            fs,
            audio.len(),
        ).map_values(|i: int| audio[i]),
        gather(audio, kept_frames(cfg, ds), fs).len() <= audio.len(),
{
    let kept = kept_frames(cfg, ds);
    let n = audio.len();
    lemma_kept_frames_ordered(cfg, ds);
    assert forall|i: int| 0 <= i < kept.len() implies 0 <= #[trigger] kept[i] && kept[i] * fs < n by {
        let k = kept[i];
        assert(k < ds.len());
        assert(k * fs < n) by (nonlinear_arith)
            requires k + 1 <= (n + fs - 1) / fs as int, fs >= 1, k >= 0;
    }
    lemma_positions_ordered(kept, fs, n);
    lemma_increasing_len(frame_positions(kept, fs, n), 0, n as int);
}


// ---------------------------------------------------------------------------
// Runs of equal decisions
// ---------------------------------------------------------------------------

proof fn lemma_run_concat(cfg: FastVadSettings, m: SegModel, x: Seq<bool>, y: Seq<bool>, base: int)
    ensures
        run_from(cfg, m, x + y, base) == run_from(cfg, run_from(cfg, m, x, base), y, base + x.len()),
    decreases y.len(),
{
    if y.len() == 0 {
        assert(x + y =~= x);
    } else {
        assert((x + y).drop_last() =~= x + y.drop_last());
        assert((x + y).last() == y.last());
        lemma_run_concat(cfg, m, x, y.drop_last(), base);
    }
}

/// Silence frames while idle only fill the pre-roll buffer.
proof fn lemma_silence_run(cfg: FastVadSettings, m: SegModel, base: int, c: nat)
    requires
        m.cursor is Silence,
        m.pre_roll.len() <= cfg.pre_roll_frames,
        base <= base + c,
    ensures
        run_from(cfg, m, repeat(false, c), base) == (SegModel {
            pre_roll: keep_last(m.pre_roll + span(base, base + c), cfg.pre_roll_frames as nat),
            ..m
        }),
    decreases c,
{
    let p = cfg.pre_roll_frames as nat;
    if c == 0 {
        assert(m.pre_roll + span(base, base) =~= m.pre_roll);
        assert(run_from(cfg, m, repeat(false, 0), base) =~= m);
    } else {
        let c0 = (c - 1) as nat;
        assert(repeat(false, c).drop_last() =~= repeat(false, c0));
        lemma_silence_run(cfg, m, base, c0);
        lemma_keep_last_push(m.pre_roll + span(base, base + c0), base + c0, p);
        lemma_span_push(base, base + c0);
        assert((m.pre_roll + span(base, base + c0)).push(base + c0) =~= m.pre_roll + span(base, base + c));
        assert(run_from(cfg, m, repeat(false, c), base) =~= (SegModel {
            pre_roll: keep_last(m.pre_roll + span(base, base + c), p),
            ..m
        }));
    }
}

/// A run of speech from idle: pending until `min_speech_frames`, then a
/// committed segment that holds the pre-roll and the whole run.
proof fn lemma_speech_run(cfg: FastVadSettings, m: SegModel, base: int, j: nat)
    requires
        cfg.wf(),
        m.cursor is Silence,
        j >= 1,
    ensures
        j < cfg.min_speech_frames ==> run_from(cfg, m, repeat(true, j), base) == (SegModel {
            cursor: CursorModel::PendingSpeech { candidate: span(base, base + j) },
            ..m
        }),
        j >= cfg.min_speech_frames ==> run_from(cfg, m, repeat(true, j), base) == (SegModel {
            cursor: CursorModel::ActiveSpeech { trailing: seq![], silence_run: 0 },
            pre_roll: seq![],
            kept: m.kept + m.pre_roll + span(base, base + j),
            segments: m.segments + 1,
        }),
    decreases j,
{
    let j0 = (j - 1) as nat;
    assert(repeat(true, j).drop_last() =~= repeat(true, j0));
    lemma_span_push(base, base + j0);
    if j == 1 {
        assert(run_from(cfg, m, repeat(true, 0), base) == m);
        assert(seq![base] =~= span(base, base + 1));
        assert(span(base, base) + seq![base] =~= span(base, base + 1));
    } else {
        lemma_speech_run(cfg, m, base, j0);
        if j0 >= cfg.min_speech_frames {
            let prev = m.kept + m.pre_roll + span(base, base + j0);
            assert(prev + seq![].push(base + j0) =~= m.kept + m.pre_roll + span(base, base + j));
        }
    }
    if j >= cfg.min_speech_frames {
        assert(run_from(cfg, m, repeat(true, j), base) =~= (SegModel {
            cursor: CursorModel::ActiveSpeech { trailing: seq![], silence_run: 0 },
            pre_roll: seq![],
            kept: m.kept + m.pre_roll + span(base, base + j),
            segments: m.segments + 1,
        }));
    }
}

/// A run of silence after speech: buffered as trailing frames until the
/// timeout, which emits the most recent `post_roll_frames` of them and
/// returns to idle; later silence fills the pre-roll buffer.
proof fn lemma_quiet_run(cfg: FastVadSettings, m: SegModel, base: int, j: nat)
    requires
        cfg.wf(),
        m.cursor == (CursorModel::ActiveSpeech { trailing: seq![], silence_run: 0 }),
        m.pre_roll == Seq::<int>::empty(),
    ensures
        j < cfg.silence_timeout_frames ==> run_from(cfg, m, repeat(false, j), base) == (SegModel {
            cursor: CursorModel::ActiveSpeech {
                trailing: keep_last(span(base, base + j), cfg.post_roll_frames as nat),
                silence_run: j,
            },
            ..m
        }),
        j >= cfg.silence_timeout_frames ==> run_from(cfg, m, repeat(false, j), base) == (SegModel {
            cursor: CursorModel::Silence,
            pre_roll: keep_last(
                span(base + cfg.silence_timeout_frames, base + j),
                cfg.pre_roll_frames as nat,
            ),
            kept: m.kept + keep_last(
                span(base, base + cfg.silence_timeout_frames),
                cfg.post_roll_frames as nat,
            ),
            segments: m.segments,
        }),
    decreases j,
{
    let p = cfg.pre_roll_frames as nat;
    let q = cfg.post_roll_frames as nat;
    let t = cfg.silence_timeout_frames as int;
    if j == 0 {
        assert(span(base, base) =~= seq![]);
        assert(run_from(cfg, m, repeat(false, 0), base) =~= m);
    } else {
        let j0 = (j - 1) as nat;
        assert(repeat(false, j).drop_last() =~= repeat(false, j0));
        lemma_quiet_run(cfg, m, base, j0);
        if j0 < t {
            lemma_keep_last_push(span(base, base + j0), base + j0, q);
            lemma_span_push(base, base + j0);
            assert(span(base + t, base + t) =~= seq![]);
        } else {
            lemma_keep_last_push(span(base + t, base + j0), base + j0, p);
            lemma_span_push(base + t, base + j0);
        }
        let r = run_from(cfg, m, repeat(false, j), base);
        if j < t {
            assert(r =~= (SegModel {
                cursor: CursorModel::ActiveSpeech { trailing: keep_last(span(base, base + j), q), silence_run: j },
                ..m
            }));
        } else {
            assert(r =~= (SegModel {
                cursor: CursorModel::Silence,
                pre_roll: keep_last(span(base + t, base + j), p),
                kept: m.kept + keep_last(span(base, base + t), q),
                segments: m.segments,
            }));
        }
    }
}

proof fn lemma_keep_last_tail<A>(x: Seq<A>, y: Seq<A>, cap: nat)
    requires
        y.len() >= cap,
    ensures
        keep_last(x + y, cap) == keep_last(y, cap),
{
    let z = x + y;
    assert(y =~= z.subrange(z.len() - y.len(), z.len() as int));
    lemma_keep_last_of_suffix(z, y, cap);
}

proof fn lemma_positions_len(frames: Seq<int>, fs: nat, n: nat)
    requires
        forall|i: int| 0 <= i < frames.len() ==> 0 <= #[trigger] frames[i] && (frames[i] + 1) * fs <= n,
    ensures
        frame_positions(frames, fs, n).len() == frames.len() * fs,
    decreases frames.len(),
{
    if frames.len() > 0 {
        let k = frames.last();
        lemma_positions_len(frames.drop_last(), fs, n);
        assert((k + 1) * fs - k * fs == fs) by (nonlinear_arith);
        assert(frames.len() * fs == (frames.len() - 1) * fs + fs) by (nonlinear_arith);
    }
}

// ---------------------------------------------------------------------------
// Laws
// ---------------------------------------------------------------------------

/// Pure silence is removed: when no frame is classified as speech, nothing
/// is kept and no segment is committed.
pub proof fn law_silence_is_removed<S>(cfg: FastVadSettings, audio: Seq<S>, ds: Seq<bool>, fs: nat)
    requires
        forall|i: int| 0 <= i < ds.len() ==> !#[trigger] ds[i],
    ensures
        kept_frames(cfg, ds) == Seq::<int>::empty(),
        segment_count(cfg, ds) == 0,
        gather(audio, kept_frames(cfg, ds), fs) == Seq::<S>::empty(),
{
    assert(ds =~= repeat(false, ds.len()));
    lemma_silence_run(cfg, initial_model(), 0, ds.len());
    assert(gather(audio, kept_frames(cfg, ds), fs) =~= Seq::<S>::empty());
}

/// Padding bound: one speech run of `l >= min_speech_frames` frames between
/// at least `pre_roll_frames` frames of silence and at least
/// `silence_timeout_frames` frames of silence gives one segment: the
/// pre-roll, the run, and the last `min(post_roll_frames,
/// silence_timeout_frames)` frames of the closing silence. With whole frames
/// that is `(pre_roll + l + min(post_roll, timeout)) * frame_samples` samples.
pub proof fn law_padding_bound<S>(cfg: FastVadSettings, a: nat, l: nat, b: nat, audio: Seq<S>, fs: nat)
    requires
        cfg.wf(),
        a >= cfg.pre_roll_frames,
        l >= cfg.min_speech_frames,
        b >= cfg.silence_timeout_frames,
        audio.len() == (a + l + b) * fs,
    ensures
        ({
            let ds = repeat(false, a) + repeat(true, l) + repeat(false, b);
            let p = cfg.pre_roll_frames as int;
            let q = min_nat(cfg.post_roll_frames as nat, cfg.silence_timeout_frames as nat) as int;
            let t = cfg.silence_timeout_frames as int;
            let e = (a + l) as int;
            &&& kept_frames(cfg, ds) == span(a - p, e) + span(e + t - q, e + t)
            &&& segment_count(cfg, ds) == 1
            &&& gather(audio, kept_frames(cfg, ds), fs).len() == (cfg.pre_roll_frames + l + q) * fs
        }),
{
    let ds = repeat(false, a) + repeat(true, l) + repeat(false, b);
    let p = cfg.pre_roll_frames as int;
    let q = cfg.post_roll_frames as int;
    let t = cfg.silence_timeout_frames as int;
    let e = (a + l) as int;
    let m0 = initial_model();
    lemma_run_concat(cfg, m0, repeat(false, a) + repeat(true, l), repeat(false, b), 0);
    lemma_run_concat(cfg, m0, repeat(false, a), repeat(true, l), 0);
    lemma_silence_run(cfg, m0, 0, a);
    let m1 = run_from(cfg, m0, repeat(false, a), 0);
    assert(m0.pre_roll + span(0, a as int) =~= span(0, a as int));
    lemma_keep_last_span(0, a as int, p as nat);
    assert(m1.pre_roll == span(a - p, a as int));
    lemma_speech_run(cfg, m1, a as int, l);
    let m2 = run_from(cfg, m1, repeat(true, l), a as int);
    assert(m0.kept + span(a - p, a as int) =~= span(a - p, a as int));
    lemma_span_concat(a - p, a as int, e);
    assert(m2.kept == span(a - p, e));
    assert(m2.pre_roll == Seq::<int>::empty());
    lemma_quiet_run(cfg, m2, e, b);
    lemma_keep_last_span(e, e + t, q as nat);
    let kept = kept_frames(cfg, ds);
    assert(kept == span(a - p, e) + span(e + t - q, e + t));
    let n = audio.len();
    assert forall|i: int| 0 <= i < kept.len() implies 0 <= #[trigger] kept[i] && (kept[i] + 1) * fs <= n by {
        assert(kept[i] < a + l + b);
        assert((kept[i] + 1) * fs <= (a + l + b) * fs) by (nonlinear_arith)
            requires kept[i] + 1 <= a + l + b;
    }
    lemma_positions_len(kept, fs, n);
}

/// Short bursts are rejected: a speech run shorter than `min_speech_frames`
/// followed by silence commits nothing and keeps nothing.
pub proof fn law_short_burst_rejected(cfg: FastVadSettings, a: nat, b: nat, c: nat)
    requires
        cfg.wf(),
        1 <= b < cfg.min_speech_frames,
        c >= 1,
    ensures
        ({
            let ds = repeat(false, a) + repeat(true, b) + repeat(false, c);
            &&& kept_frames(cfg, ds) == Seq::<int>::empty()
            &&& segment_count(cfg, ds) == 0
        }),
{
    let m0 = initial_model();
    let x = repeat(false, a) + repeat(true, b);
    let c0 = (c - 1) as nat;
    let ds = x + repeat(false, c);
    assert(ds =~= (x + repeat(false, 1)) + repeat(false, c0));
    lemma_run_concat(cfg, m0, x + repeat(false, 1), repeat(false, c0), 0);
    lemma_run_concat(cfg, m0, x, repeat(false, 1), 0);
    lemma_run_concat(cfg, m0, repeat(false, a), repeat(true, b), 0);
    lemma_silence_run(cfg, m0, 0, a);
    let m1 = run_from(cfg, m0, repeat(false, a), 0);
    lemma_speech_run(cfg, m1, a as int, b);
    let m2 = run_from(cfg, m0, x, 0);
    assert(repeat(false, 1).drop_last() =~= Seq::<bool>::empty());
    let m3 = run_from(cfg, m2, repeat(false, 1), (a + b) as int);
    assert(run_from(cfg, m2, repeat(false, 1).drop_last(), (a + b) as int) == m2);
    assert(repeat(false, 1).last() == false);
    assert(m3 == step(cfg, m2, (a + b) as int, false));
    lemma_silence_run(cfg, m3, (a + b + 1) as int, c0);
}

/// After a rejected short burst, a later run of at least `min_speech_frames`
/// frames is still detected as one segment, and when more than
/// `pre_roll_frames` frames of silence separate the two, no frame of the
/// burst is kept.
pub proof fn law_speech_after_short_burst(
    cfg: FastVadSettings,
    a: nat,
    b: nat,
    c: nat,
    l: nat,
    d: nat,
)
    requires
        cfg.wf(),
        1 <= b < cfg.min_speech_frames,
        c > cfg.pre_roll_frames,
        l >= cfg.min_speech_frames,
        d >= cfg.silence_timeout_frames,
    ensures
        ({
            let ds = repeat(false, a) + repeat(true, b) + repeat(false, c) + repeat(true, l)
                + repeat(false, d);
            let p = cfg.pre_roll_frames as int;
            let q = cfg.post_roll_frames as int;
            let t = cfg.silence_timeout_frames as int;
            let s = (a + b + c) as int;
            let e = s + l;
            &&& kept_frames(cfg, ds) == span(s - p, e) + span(e + t - q, e + t)
            &&& segment_count(cfg, ds) == 1
            &&& all_within(kept_frames(cfg, ds), (a + b) as int, ds.len() as int)
        }),
{
    let p = cfg.pre_roll_frames as int;
    let q = cfg.post_roll_frames as int;
    let t = cfg.silence_timeout_frames as int;
    let s = (a + b + c) as int;
    let e = s + l;
    let m0 = initial_model();
    let x = repeat(false, a) + repeat(true, b);
    let c0 = (c - 1) as nat;
    let y = (x + repeat(false, 1)) + repeat(false, c0);
    assert(x + repeat(false, c) =~= y);
    let ds = repeat(false, a) + repeat(true, b) + repeat(false, c) + repeat(true, l) + repeat(false, d);
    assert(ds =~= (y + repeat(true, l)) + repeat(false, d));
    lemma_run_concat(cfg, m0, y + repeat(true, l), repeat(false, d), 0);
    lemma_run_concat(cfg, m0, y, repeat(true, l), 0);
    lemma_run_concat(cfg, m0, x + repeat(false, 1), repeat(false, c0), 0);
    lemma_run_concat(cfg, m0, x, repeat(false, 1), 0);
    lemma_run_concat(cfg, m0, repeat(false, a), repeat(true, b), 0);
    lemma_silence_run(cfg, m0, 0, a);
    let m1 = run_from(cfg, m0, repeat(false, a), 0);
    lemma_speech_run(cfg, m1, a as int, b);
    let m2 = run_from(cfg, m0, x, 0);
    assert(repeat(false, 1).drop_last() =~= Seq::<bool>::empty());
    let m3 = run_from(cfg, m2, repeat(false, 1), (a + b) as int);
    assert(run_from(cfg, m2, repeat(false, 1).drop_last(), (a + b) as int) == m2);
    assert(repeat(false, 1).last() == false);
    assert(m3 == step(cfg, m2, (a + b) as int, false));
    lemma_silence_run(cfg, m3, (a + b + 1) as int, c0);
    let m4 = run_from(cfg, m3, repeat(false, c0), (a + b + 1) as int);
    lemma_keep_last_tail(m3.pre_roll, span((a + b + 1) as int, s), p as nat);
    lemma_keep_last_span((a + b + 1) as int, s, p as nat);
    assert(m4.pre_roll == span(s - p, s));
    assert(m4.kept == Seq::<int>::empty());
    lemma_speech_run(cfg, m4, s, l);
    let m5 = run_from(cfg, m4, repeat(true, l), s);
    assert(m4.kept + span(s - p, s) =~= span(s - p, s));
    lemma_span_concat(s - p, s, e);
    assert(m5.kept == span(s - p, e));
    lemma_quiet_run(cfg, m5, e, d);
    lemma_keep_last_span(e, e + t, q as nat);
    let kept = kept_frames(cfg, ds);
    assert(kept == span(s - p, e) + span(e + t - q, e + t));
    assert forall|i: int| 0 <= i < kept.len() implies (a + b) as int <= #[trigger] kept[i] < ds.len() by {
        if i < e - (s - p) {
            assert(kept[i] == span(s - p, e)[i]);
        } else {
            assert(kept[i] == span(e + t - q, e + t)[i - (e - (s - p))]);
        }
    }
}


// ---------------------------------------------------------------------------
// Volatility controller
// ---------------------------------------------------------------------------

/// Every two neighbouring decisions differ.
pub open spec fn alternating(ds: Seq<bool>) -> bool {
    forall|i: int| 1 <= i < ds.len() ==> ds[i] != #[trigger] ds[i - 1]
}

proof fn lemma_alternating_transitions(h: Seq<bool>)
    requires
        alternating(h),
        h.len() >= 1,
    ensures
        transitions(h) == h.len() - 1,
    decreases h.len(),
{
    if h.len() >= 2 {
        let t = h.drop_last();
        assert(alternating(t)) by {
            assert forall|i: int| 1 <= i < t.len() implies t[i] != #[trigger] t[i - 1] by {
                assert(h[i] != h[i - 1]);
            }
        }
        lemma_alternating_transitions(t);
        assert(h[h.len() - 1] != h[h.len() - 2]);
    }
}

/// The active profile never ranks below the base profile.
pub proof fn law_profile_floor(cfg: FastVadSettings, ds: Seq<bool>)
    ensures
        rank_of(cfg.base_profile) <= rank_of(controller_run(cfg, ds).profile) <= 3,
    decreases ds.len(),
{
    if ds.len() > 0 {
        law_profile_floor(cfg, ds.drop_last());
    }
}

proof fn lemma_alternating_run(cfg: FastVadSettings, ds: Seq<bool>)
    requires
        cfg.wf(),
        cfg.volatility_increase_threshold < VOLATILITY_SCALE,
        rank_of(cfg.base_profile) < 3,
        alternating(ds),
    ensures
        ({
            let c = controller_run(cfg, ds);
            &&& alternating(c.history)
            &&& c.history.len() > 0 ==> ds.len() > 0 && c.history.last() == ds.last()
            &&& ds.len() == 1 ==> c.switches == 0 && c.history.len() == 1
                && c.profile == cfg.base_profile
            &&& ds.len() >= 2 ==> c.switches >= 1 && rank_of(c.profile) > rank_of(cfg.base_profile)
        }),
    decreases ds.len(),
{
    if ds.len() > 0 {
        let prev = ds.drop_last();
        assert(alternating(prev)) by {
            assert forall|i: int| 1 <= i < prev.len() implies prev[i] != #[trigger] prev[i - 1] by {
                assert(ds[i] != ds[i - 1]);
            }
        }
        lemma_alternating_run(cfg, prev);
        law_profile_floor(cfg, prev);
        let c0 = controller_run(cfg, prev);
        let d = ds.last();
        let r = record(cfg, c0, d);
        let pushed = c0.history.push(d);
        assert(alternating(pushed)) by {
            assert forall|i: int| 1 <= i < pushed.len() implies pushed[i] != #[trigger] pushed[i - 1] by {
                if i == pushed.len() - 1 {
                    assert(ds[ds.len() - 1] != ds[ds.len() - 2]);
                } else {
                    assert(c0.history[i] != c0.history[i - 1]);
                }
            }
        }
        let h = r.history;
        assert(alternating(h)) by {
            assert forall|i: int| 1 <= i < h.len() implies h[i] != #[trigger] h[i - 1] by {
                let off = pushed.len() - h.len();
                assert(h[i] == pushed[i + off]);
                assert(h[i - 1] == pushed[i + off - 1]);
                assert(pushed[i + off] != pushed[i + off - 1]);
            }
        }
        assert(h.last() == d);
        lemma_alternating_transitions(h);
        if h.len() >= 2 {
            let n = pairs(h);
            let inc = cfg.volatility_increase_threshold as nat;
            assert(n * VOLATILITY_SCALE > inc * n) by (nonlinear_arith)
                requires n >= 1, inc < VOLATILITY_SCALE;
            assert(too_volatile(cfg, transitions(h), n));
        }
        if ds.len() == 2 {
            assert(c0.history.len() == 1);
            assert(h.len() == 2);
        }
    }
}

/// Volatility escalation: on alternating decisions that fill the window,
/// the controller switches at least once, ends on a profile more aggressive
/// than the base, and never goes past the most aggressive one. This needs a
/// base profile that is not already the most aggressive and an increase
/// threshold below 1, which settings built from a configuration with
/// crossed thresholds always have.
pub proof fn law_volatility_escalation(cfg: FastVadSettings, ds: Seq<bool>)
    requires
        cfg.wf(),
        cfg.volatility_increase_threshold < VOLATILITY_SCALE,
        rank_of(cfg.base_profile) < 3,
        alternating(ds),
        ds.len() >= cfg.volatility_window,
    ensures
        controller_run(cfg, ds).switches >= 1,
        rank_of(cfg.base_profile) < rank_of(controller_run(cfg, ds).profile) <= 3,
{
    lemma_alternating_run(cfg, ds);
    law_profile_floor(cfg, ds);
}

} // verus!
