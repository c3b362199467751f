//! The volatility controller: moves the classifier along the profile ladder
//! when its decisions flip too often, and back when they settle.

use vstd::prelude::*;
use crate::profile::{FastVadProfile, rank_of, next_up, next_down};
use crate::segment::keep_last;
use crate::settings::{FastVadSettings, VOLATILITY_SCALE};

verus! {

/// Number of adjacent pairs in `h` that differ.
pub open spec fn transitions(h: Seq<bool>) -> nat
    decreases h.len(),
{
    if h.len() < 2 {
        0
    } else {
        transitions(h.drop_last()) + if h[h.len() - 1] != h[h.len() - 2] { 1nat } else { 0nat }
    }
}

/// Number of adjacent pairs in `h`.
pub open spec fn pairs(h: Seq<bool>) -> nat {
    if h.len() >= 2 { (h.len() - 1) as nat } else { 0 }
}

/// Abstract state of the controller.
pub struct ControllerModel {
    pub profile: FastVadProfile,
    pub history: Seq<bool>,
    pub switches: nat,
}

pub open spec fn initial_controller(cfg: FastVadSettings) -> ControllerModel {
    ControllerModel { profile: cfg.base_profile, history: seq![], switches: 0 }
}

/// A profile change: the history starts afresh and the change is counted.
pub open spec fn switch_to(c: ControllerModel, p: FastVadProfile) -> ControllerModel {
    ControllerModel { profile: p, history: seq![], switches: c.switches + 1 }
}

/// Whether `transitions / pairs` exceeds the increase threshold.
pub open spec fn too_volatile(cfg: FastVadSettings, t: nat, n: nat) -> bool {
    n >= 1 && t * VOLATILITY_SCALE > cfg.volatility_increase_threshold * n
}

/// Whether `transitions / pairs` is under the decrease threshold.
pub open spec fn calm(cfg: FastVadSettings, t: nat, n: nat) -> bool {
    n >= 1 && t * VOLATILITY_SCALE < cfg.volatility_decrease_threshold * n
}

/// The reaction to a volatility of `t / n`: one step up the ladder when too
/// volatile, one step down (never below the base profile) when calm.
pub open spec fn adjust(cfg: FastVadSettings, c: ControllerModel, t: nat, n: nat) -> ControllerModel {
    if too_volatile(cfg, t, n) {
        match next_up(c.profile) {
            Some(p) => switch_to(c, p),
            None => c,
        }
    } else if calm(cfg, t, n) {
        match next_down(c.profile) {
            Some(p) => if rank_of(p) >= rank_of(cfg.base_profile) { switch_to(c, p) } else { c },
            None => c,
        }
    } else {
        c
    }
}

/// Records a decision in the bounded history.
pub open spec fn record(cfg: FastVadSettings, c: ControllerModel, d: bool) -> ControllerModel {
    ControllerModel { history: keep_last(c.history.push(d), cfg.volatility_window as nat), ..c }
}

/// One decision: record it, then react to the volatility of the history.
pub open spec fn observe(cfg: FastVadSettings, c: ControllerModel, d: bool) -> ControllerModel {
    let r = record(cfg, c, d);
    adjust(cfg, r, transitions(r.history), pairs(r.history))
}

/// The controller after the decisions `ds`, starting from the base profile.
pub open spec fn controller_run(cfg: FastVadSettings, ds: Seq<bool>) -> ControllerModel
    decreases ds.len(),
{
    if ds.len() == 0 {
        initial_controller(cfg)
    } else {
        observe(cfg, controller_run(cfg, ds.drop_last()), ds.last())
    }
}

/// Volatility as an exact fraction: `transitions / pairs`.
#[derive(Debug, Clone, Copy, PartialEq, Eq, Structural)]
pub struct Volatility {
    pub transitions: usize,
    pub pairs: usize,
}

/// Watches the stream of decisions and moves the classifier profile along
/// the ladder when the decisions flip too often or settle down.
pub struct VolatilityController {
    settings: FastVadSettings,
    profile: FastVadProfile,
    history: Vec<bool>,
    switches: usize,
}

impl VolatilityController {
    pub closed spec fn model(&self) -> ControllerModel {
        ControllerModel {
            profile: self.profile,
            history: self.history@,
            switches: self.switches as nat,
        }
    }

    pub closed spec fn settings_spec(&self) -> FastVadSettings {
        self.settings
    }

    pub closed spec fn wf(&self) -> bool {
        &&& self.settings.wf()
        &&& self.history@.len() <= self.settings.volatility_window
    }

    pub fn new(settings: FastVadSettings) -> (r: Self)
        requires
            settings.wf(),
        ensures
            r.wf(),
            r.settings_spec() == settings,
            r.model() == initial_controller(settings),
    {
        VolatilityController {
            settings,
            profile: settings.base_profile,
            history: Vec::new(),
            switches: 0,
        }
    }

    pub fn profile(&self) -> (r: FastVadProfile)
        ensures
            r == self.model().profile,
    {
        self.profile
    }

    pub fn profile_switches(&self) -> (r: usize)
        ensures
            r as nat == self.model().switches,
    {
        self.switches
    }

    /// Appends a decision to the bounded history and returns the volatility
    /// of the history.
    pub fn push_decision(&mut self, decision: bool) -> (r: Volatility)
        requires
            old(self).wf(),
        ensures
            final(self).wf(),
            final(self).settings_spec() == old(self).settings_spec(),
            final(self).model() == record(old(self).settings_spec(), old(self).model(), decision),
            r.transitions as nat == transitions(final(self).model().history),
            r.pairs as nat == pairs(final(self).model().history),
    {
        let ghost before = self.history@;
        self.history.push(decision);
        if self.history.len() > self.settings.volatility_window {
            self.history.remove(0);
        }
        proof {
            let pushed = before.push(decision);
            if pushed.len() > self.settings.volatility_window {
                assert(self.history@ =~= keep_last(pushed, self.settings.volatility_window as nat));
            }
        }
        let len = self.history.len();
        if len < 2 {
            return Volatility { transitions: 0, pairs: 0 };
        }
        let mut count: usize = 0;
        let mut i: usize = 1;
        while i < len
            invariant
                1 <= i <= len,
                len == self.history@.len(),
                count as nat == transitions(self.history@.take(i as int)),
                count <= i,
            decreases len - i,
        {
            proof {
                let h = self.history@.take(i as int + 1);
                assert(h.drop_last() =~= self.history@.take(i as int));
            }
            if self.history[i] != self.history[i - 1] {
                count = count + 1;
            }
            i = i + 1;
        }
        proof {
            assert(self.history@.take(len as int) =~= self.history@);
        }
        Volatility { transitions: count, pairs: len - 1 }
    }

    /// Reacts to a volatility of `v.transitions / v.pairs`; returns the new
    /// profile when it changed.
    pub fn adjust_profile(&mut self, v: Volatility) -> (r: Option<FastVadProfile>)
        requires
            old(self).wf(),
            old(self).model().switches < usize::MAX,
        ensures
            final(self).wf(),
            final(self).settings_spec() == old(self).settings_spec(),
            final(self).model() == adjust(
                old(self).settings_spec(),
                old(self).model(),
                v.transitions as nat,
                v.pairs as nat,
            ),
            r == (if final(self).model().switches == old(self).model().switches {
                None
            } else {
                Some(final(self).model().profile)
            }),
            // The top of the ladder is never passed.
            old(self).model().profile == FastVadProfile::VeryAggressive && too_volatile(
                old(self).settings_spec(),
                v.transitions as nat,
                v.pairs as nat,
            ) ==> final(self).model() == old(self).model() && r is None,
    {
        let inc = self.settings.volatility_increase_threshold as u128;
        let dec = self.settings.volatility_decrease_threshold as u128;
        let n = v.pairs as u128;
        let t = v.transitions as u128;
        proof {
            assert(t * 10000 <= 0xffff_ffff_ffff_ffffu128 * 10000) by (nonlinear_arith)
                requires t <= 0xffff_ffff_ffff_ffffu128;
            assert(inc * n <= 10000 * 0xffff_ffff_ffff_ffffu128) by (nonlinear_arith)
                requires inc <= 10000, n <= 0xffff_ffff_ffff_ffffu128;
            assert(dec * n <= 10000 * 0xffff_ffff_ffff_ffffu128) by (nonlinear_arith)
                requires dec <= 10000, n <= 0xffff_ffff_ffff_ffffu128;
        }
        let scaled = t * 10000;
        let increase = inc * n;
        let decrease = dec * n;
        if v.pairs >= 1 && scaled > increase {
            match self.profile.more_aggressive() {
                Some(next) => {
                    self.set_profile(next);
                    Some(next)
                },
                None => None,
            }
        } else if v.pairs >= 1 && scaled < decrease {
            match self.profile.less_aggressive() {
                Some(prev) => {
                    if prev.rank() >= self.settings.base_profile.rank() {
                        self.set_profile(prev);
                        Some(prev)
                    } else {
                        None
                    }
                },
                None => None,
            }
        } else {
            None
        }
    }

    /// Moves to `profile`; asking for the current profile changes nothing.
    fn set_profile(&mut self, profile: FastVadProfile)
        requires
            old(self).wf(),
            old(self).switches < usize::MAX,
        ensures
            final(self).wf(),
            final(self).settings_spec() == old(self).settings_spec(),
            profile == old(self).model().profile ==> final(self).model() == old(self).model(),
            profile != old(self).model().profile ==> final(self).model() == switch_to(
                old(self).model(),
                profile,
            ),
    {
        if profile == self.profile {
            return;
        }
        self.profile = profile;
        self.history.clear();
        self.switches = self.switches + 1;
        assert(self.history@ =~= seq![]);
    }

    /// Records a decision and reacts to it; returns the new profile when the
    /// profile changed.
    pub fn observe(&mut self, decision: bool) -> (r: Option<FastVadProfile>)
        requires
            old(self).wf(),
            old(self).model().switches < usize::MAX,
        ensures
            final(self).wf(),
            final(self).settings_spec() == old(self).settings_spec(),
            final(self).model() == observe(old(self).settings_spec(), old(self).model(), decision),
            r == (if final(self).model().switches == old(self).model().switches {
                None
            } else {
                Some(final(self).model().profile)
            }),
    {
        let v = self.push_decision(decision);
        self.adjust_profile(v)
    }
}

} // verus!
