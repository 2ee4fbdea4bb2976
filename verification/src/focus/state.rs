use vstd::prelude::*;

use crate::config::FocusConfig;
use crate::focus::score::Score;

verus! {

/// Where the user's attention stands.
#[derive(Clone, Copy, Debug, PartialEq, Eq, Structural)]
pub enum FocusState {
    /// Focused.
    Focused,
    /// Focus is wavering; the wallpaper is not changed yet.
    Drifting,
    /// Not focused: a wallpaper transition has been asked for, and the next
    /// update starts it.
    Unfocused,
    /// A wallpaper transition is running.
    Transitioning,
}

/// What the caller must do after an update.
#[derive(Clone, Copy, Debug, PartialEq, Eq, Structural)]
pub enum FocusAction {
    TriggerTransition,
}

/// The abstract state of a `FocusStateMachine`.
pub struct FocusMachineView {
    pub state: FocusState,
    pub low_count: nat,
    pub unfocused_threshold: Score,
    pub focused_threshold: Score,
    pub hysteresis_count: nat,
}

/// One update of the machine with a new focus score: the next state and
/// the action to take.
///
/// - `Focused`: a score below the focused threshold starts `Drifting` with
///   one low reading.
/// - `Drifting`: a score at or above the focused threshold recovers to
///   `Focused`; a score below the unfocused threshold counts one more low
///   reading, and when the count reaches the hysteresis count the machine
///   enters `Unfocused` and asks for a transition; anything else keeps the
///   machine as it is.
/// - `Unfocused`: whatever the score, the transition starts: the machine
///   enters `Transitioning` and asks for a transition.
/// - `Transitioning`: nothing changes (completion of a transition is
///   reported by `transition_complete`).
pub open spec fn step(v: FocusMachineView, score: Score) -> (FocusMachineView, Option<FocusAction>) {
    match v.state {
        FocusState::Focused => {
            if score.below(v.focused_threshold) {
                (FocusMachineView { state: FocusState::Drifting, low_count: 1, ..v }, None)
            } else {
                (v, None)
            }
        },
        FocusState::Drifting => {
            if score.at_least(v.focused_threshold) {
                (FocusMachineView { state: FocusState::Focused, low_count: 0, ..v }, None)
            } else if score.below(v.unfocused_threshold) {
                let count = v.low_count + 1;
                if count >= v.hysteresis_count {
                    (
                        FocusMachineView { state: FocusState::Unfocused, low_count: count, ..v },
                        Some(FocusAction::TriggerTransition),
                    )
                } else {
                    (FocusMachineView { state: FocusState::Drifting, low_count: count, ..v }, None)
                }
            } else {
                (v, None)
            }
        },
        FocusState::Unfocused => (
            FocusMachineView { state: FocusState::Transitioning, ..v },
            Some(FocusAction::TriggerTransition),
        ),
        FocusState::Transitioning => (v, None),
    }
}

/// The states a machine can be in: no low readings while `Focused`, and
/// while `Drifting` at least one low reading and fewer than the hysteresis
/// count (or exactly the first one).
pub open spec fn reachable(v: FocusMachineView) -> bool {
    &&& v.state == FocusState::Focused ==> v.low_count == 0
    &&& v.state == FocusState::Drifting ==> 1 <= v.low_count && (v.low_count < v.hysteresis_count
        || v.low_count == 1)
    &&& v.low_count <= v.hysteresis_count || v.low_count <= 2
}


/// Feeds `scores` to a machine in state `v`, in order: the final state and
/// how many transitions were asked for along the way.
pub open spec fn run(v: FocusMachineView, scores: Seq<Score>) -> (FocusMachineView, nat)
    decreases scores.len(),
{
    if scores.len() == 0 {
        (v, 0)
    } else {
        let (w, n) = run(v, scores.drop_last());
        let (x, a) = step(w, scores.last());
        (x, n + if a is Some { 1nat } else { 0nat })
    }
}

/// The number of consecutive low scores, counted from `Focused`, at which a
/// transition is asked for: the hysteresis count, but never fewer than two
/// (the first low score only starts `Drifting`).
pub open spec fn trigger_point(v: FocusMachineView) -> nat {
    if v.hysteresis_count >= 2 { v.hysteresis_count } else { 2 }
}

/// An update never leaves the reachable states: in particular the machine
/// counts no low readings while `Focused`, and never counts past the
/// hysteresis count while `Drifting`.
pub proof fn lemma_update_keeps_reachable(v: FocusMachineView, score: Score)
    requires
        reachable(v),
    ensures
        reachable(step(v, score).0),
{
}

/// An update asks for a transition exactly when it takes the machine from
/// `Drifting` to `Unfocused`, or from `Unfocused` to `Transitioning`.
pub proof fn lemma_trigger_iff_focus_lost(v: FocusMachineView, score: Score)
    requires
        reachable(v),
    ensures
        step(v, score).1 is Some <==> ((v.state == FocusState::Drifting && step(v, score).0.state
            == FocusState::Unfocused) || (v.state == FocusState::Unfocused && step(
            v,
            score,
        ).0.state == FocusState::Transitioning)),
{
}

/// From `Unfocused`, every update starts the transition, keeping the count
/// of low readings.
pub proof fn lemma_unfocused_starts_transition(v: FocusMachineView, score: Score)
    requires
        v.state == FocusState::Unfocused,
    ensures
        step(v, score) == (
            FocusMachineView { state: FocusState::Transitioning, ..v },
            Some(FocusAction::TriggerTransition),
        ),
{
}

/// While a transition runs, scores are ignored: the machine stays as it is
/// and asks for nothing until `transition_complete`.
pub proof fn lemma_transition_ignores_scores(v: FocusMachineView, score: Score)
    requires
        v.state == FocusState::Transitioning,
    ensures
        step(v, score) == (v, Option::<FocusAction>::None),
{
}

/// While drifting, a score at or above the focused threshold restores
/// `Focused` and forgets the low readings.
pub proof fn lemma_drifting_recovers(v: FocusMachineView, score: Score)
    requires
        v.state == FocusState::Drifting,
        score.at_least(v.focused_threshold),
    ensures
        step(v, score).0.state == FocusState::Focused,
        step(v, score).0.low_count == 0,
        step(v, score).1 is None,
{
}

/// The thresholds and the hysteresis count never change.
pub proof fn lemma_update_keeps_parameters(v: FocusMachineView, score: Score)
    ensures
        step(v, score).0.unfocused_threshold == v.unfocused_threshold,
        step(v, score).0.focused_threshold == v.focused_threshold,
        step(v, score).0.hysteresis_count == v.hysteresis_count,
{
}

/// Hysteresis: from `Focused`, a run of scores below both thresholds keeps
/// the machine `Drifting`, one low reading per score, up to the
/// `trigger_point`-th score, which makes it `Unfocused` and asks for a
/// transition; the score after that starts the transition (asking once
/// more), and from then on the machine waits in `Transitioning`.
pub proof fn lemma_low_run_loses_focus(v: FocusMachineView, scores: Seq<Score>)
    requires
        v.state == FocusState::Focused,
        v.low_count == 0,
        scores.len() >= 1,
        forall|i: int|
            0 <= i < scores.len() ==> #[trigger] scores[i].below(v.unfocused_threshold)
                && scores[i].below(v.focused_threshold),
    ensures
        run(v, scores).1 == (if scores.len() > trigger_point(v) {
            2nat
        } else if scores.len() == trigger_point(v) {
            1nat
        } else {
            0nat
        }),
        run(v, scores).0.state == (if scores.len() > trigger_point(v) {
            FocusState::Transitioning
        } else if scores.len() == trigger_point(v) {
            FocusState::Unfocused
        } else {
            FocusState::Drifting
        }),
        run(v, scores).0.low_count == (if scores.len() >= trigger_point(v) {
            trigger_point(v)
        } else {
            scores.len()
        }),
        run(v, scores).0.focused_threshold == v.focused_threshold,
        run(v, scores).0.unfocused_threshold == v.unfocused_threshold,
        run(v, scores).0.hysteresis_count == v.hysteresis_count,
    decreases scores.len(),
{
    if scores.len() == 1 {
        assert(scores.drop_last().len() == 0);
        assert(scores.last() == scores[0]);
        assert(scores[0].below(v.unfocused_threshold));
    } else {
        let prefix = scores.drop_last();
        assert forall|i: int|
            0 <= i < prefix.len() implies #[trigger] prefix[i].below(v.unfocused_threshold)
            && prefix[i].below(v.focused_threshold) by {
            assert(prefix[i] == scores[i]);
        }
        lemma_low_run_loses_focus(v, prefix);
        assert(scores.last() == scores[scores.len() - 1]);
        assert(scores[scores.len() - 1].below(v.unfocused_threshold));
    }
}

/// Hysteresis: from `Focused`, whatever the scores, no transition is asked
/// for before `trigger_point` scores have been seen; until then the machine
/// is `Focused` or `Drifting`, with at most one low reading per score.
pub proof fn lemma_no_transition_before_trigger_point(v: FocusMachineView, scores: Seq<Score>)
    requires
        v.state == FocusState::Focused,
        v.low_count == 0,
        scores.len() < trigger_point(v),
    ensures
        run(v, scores).1 == 0,
        run(v, scores).0.state == FocusState::Focused || run(v, scores).0.state
            == FocusState::Drifting,
        run(v, scores).0.low_count <= scores.len(),
        run(v, scores).0.focused_threshold == v.focused_threshold,
        run(v, scores).0.unfocused_threshold == v.unfocused_threshold,
        run(v, scores).0.hysteresis_count == v.hysteresis_count,
    decreases scores.len(),
{
    if scores.len() > 0 {
        lemma_no_transition_before_trigger_point(v, scores.drop_last());
    }
}

/// Hysteresis state machine deciding when the wallpaper should change.
pub struct FocusStateMachine {
    state: FocusState,
    consecutive_low_count: u32,
    unfocused_threshold: Score,
    focused_threshold: Score,
    hysteresis_count: u32,
}

impl View for FocusStateMachine {
    type V = FocusMachineView;

    closed spec fn view(&self) -> FocusMachineView {
        FocusMachineView {
            state: self.state,
            low_count: self.consecutive_low_count as nat,
            unfocused_threshold: self.unfocused_threshold,
            focused_threshold: self.focused_threshold,
            hysteresis_count: self.hysteresis_count as nat,
        }
    }
}

impl FocusStateMachine {
    #[verifier::type_invariant]
    spec fn inv(self) -> bool {
        reachable(self@)
    }

    /// A machine in `Focused` with no low readings, using the thresholds and
    /// hysteresis count of `config`.
    pub fn new(config: &FocusConfig) -> (m: Self)
        ensures
            m@.state == FocusState::Focused,
            m@.low_count == 0,
            m@.unfocused_threshold == config.unfocused_threshold,
            m@.focused_threshold == config.focused_threshold,
            m@.hysteresis_count == config.hysteresis_count,
    {
        FocusStateMachine {
            state: FocusState::Focused,
            consecutive_low_count: 0,
            unfocused_threshold: config.unfocused_threshold,
            focused_threshold: config.focused_threshold,
            hysteresis_count: config.hysteresis_count,
        }
    }

    pub fn state(&self) -> (s: FocusState)
        ensures
            s == self@.state,
    {
        self.state
    }

    /// The number of consecutive low readings seen while drifting.
    pub fn consecutive_low_count(&self) -> (n: u32)
        ensures
            n == self@.low_count,
    {
        self.consecutive_low_count
    }

    /// Feeds one focus score to the machine (see `step`).
    pub fn update(&mut self, score: Score) -> (action: Option<FocusAction>)
        ensures
            (final(self)@, action) == step(old(self)@, score),
            reachable(final(self)@),
    {
        proof {
            use_type_invariant(&*self);
        }
        match self.state {
            FocusState::Focused => {
                if score.lt(self.focused_threshold) {
                    *self = FocusStateMachine {
                        state: FocusState::Drifting,
                        consecutive_low_count: 1,
                        unfocused_threshold: self.unfocused_threshold,
                        focused_threshold: self.focused_threshold,
                        hysteresis_count: self.hysteresis_count,
                    };
                }
                None
            },
            FocusState::Drifting => {
                if score.ge(self.focused_threshold) {
                    *self = FocusStateMachine {
                        state: FocusState::Focused,
                        consecutive_low_count: 0,
                        unfocused_threshold: self.unfocused_threshold,
                        focused_threshold: self.focused_threshold,
                        hysteresis_count: self.hysteresis_count,
                    };
                    None
                } else if score.lt(self.unfocused_threshold) {
                    let count = self.consecutive_low_count + 1;
                    if count >= self.hysteresis_count {
                        *self = FocusStateMachine {
                            state: FocusState::Unfocused,
                            consecutive_low_count: count,
                            unfocused_threshold: self.unfocused_threshold,
                            focused_threshold: self.focused_threshold,
                            hysteresis_count: self.hysteresis_count,
                        };
                        Some(FocusAction::TriggerTransition)
                    } else {
                        *self = FocusStateMachine {
                            state: FocusState::Drifting,
                            consecutive_low_count: count,
                            unfocused_threshold: self.unfocused_threshold,
                            focused_threshold: self.focused_threshold,
                            hysteresis_count: self.hysteresis_count,
                        };
                        None
                    }
                } else {
                    None
                }
            },
            FocusState::Unfocused => {
                *self = FocusStateMachine {
                    state: FocusState::Transitioning,
                    consecutive_low_count: self.consecutive_low_count,
                    unfocused_threshold: self.unfocused_threshold,
                    focused_threshold: self.focused_threshold,
                    hysteresis_count: self.hysteresis_count,
                };
                Some(FocusAction::TriggerTransition)
            },
            FocusState::Transitioning => None,
        }
    }

    /// Reports that the running transition has finished: back to `Focused`
    /// with no low readings.
    pub fn transition_complete(&mut self)
        ensures
            final(self)@ == (FocusMachineView {
                state: FocusState::Focused,
                low_count: 0,
                ..old(self)@
            }),
    {
        *self = FocusStateMachine {
            state: FocusState::Focused,
            consecutive_low_count: 0,
            unfocused_threshold: self.unfocused_threshold,
            focused_threshold: self.focused_threshold,
            hysteresis_count: self.hysteresis_count,
        };
    }
}

} // verus!
