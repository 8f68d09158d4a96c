//! The orchestrator: a strictly linear state machine that sequences
//! fetch, filter, confirm and apply, owning no state beyond the current
//! run.
//!
//! The surrounding process performs the suspending work — page
//! requests, the confirmation prompt, the tag mutation — and feeds the
//! result of each back as an [`Event`]; every decision between two such
//! suspensions is taken here, and each step names in its [`Action`]
//! what the caller must do next. The machine visits no state twice and
//! has exactly one terminal state.

use vstd::prelude::*;
use crate::confirm::interpret_answer;
use crate::confirm::is_affirmative;
use crate::fetch::Page;
use crate::fetch::collect_page;
use crate::fetch::page_instances;
use crate::model::FetchError;
use crate::model::Instance;
use crate::model::RunOutcome;
use crate::model::TagPair;
use crate::model::TransportError;
use crate::tags::display_label;
use crate::tags::partition_by_tag_presence;
use crate::tags::spec_label;
use crate::tags::spec_partition;

verus! {

/// Where the run stands.
pub enum Phase {
    /// Accumulating inventory pages.
    Fetching { collected: Vec<Instance> },
    /// Waiting for the operator's decision on candidate `idx`.
    Deciding { candidates: Vec<Instance>, idx: usize, outcome: RunOutcome },
    /// Waiting for the outcome of the mutation of candidate `idx`.
    Applying { candidates: Vec<Instance>, idx: usize, outcome: RunOutcome },
    /// Terminal: the aggregated outcome, and the fetch-time condition
    /// that ended the run without mutations, if any.
    Done { outcome: RunOutcome, error: Option<FetchError> },
}

/// Ghost image of a phase: the same shape over sequences.
pub enum PhaseModel {
    Fetching { collected: Seq<Instance> },
    Deciding { candidates: Seq<Instance>, idx: int, outcome: RunOutcome },
    Applying { candidates: Seq<Instance>, idx: int, outcome: RunOutcome },
    Done { outcome: RunOutcome, error: Option<FetchError> },
}

impl Phase {
    pub open spec fn model(self) -> PhaseModel {
        match self {
            Phase::Fetching { collected } => PhaseModel::Fetching { collected: collected@ },
            Phase::Deciding { candidates, idx, outcome } => PhaseModel::Deciding {
                candidates: candidates@,
                idx: idx as int,
                outcome,
            },
            Phase::Applying { candidates, idx, outcome } => PhaseModel::Applying {
                candidates: candidates@,
                idx: idx as int,
                outcome,
            },
            Phase::Done { outcome, error } => PhaseModel::Done { outcome, error },
        }
    }
}

/// What the outside world reports back to the machine.
pub enum Event {
    /// A page of the inventory arrived.
    PageFetched(Page),
    /// A page request failed, classified at the transport edge.
    PageFailed(TransportError),
    /// The provider signalled that no further pages exist.
    FetchComplete,
    /// The operator answered a confirmation prompt with this line.
    OperatorAnswer(String),
    /// The mutation was acknowledged; the payload is the provider's
    /// request identifier, kept for audit output only.
    ApplySucceeded(String),
    /// The mutation failed; the failure stays contained to the one
    /// instance it concerns.
    ApplyFailed,
}

/// What the machine asks its caller to do next.
pub enum Action {
    /// Request the next inventory page.
    RequestPage,
    /// Ask the operator whether to tag this instance, shown under this
    /// label.
    Prompt { instance_id: String, label: String },
    /// Issue the single-instance, single-tag mutation.
    Apply { instance_id: String, key: String, value: String },
    /// The run is over; the outcome stands in the `Done` phase.
    Finish,
}

/// An all-zero outcome: the aggregate of a run that mutated nothing.
pub open spec fn zero_outcome() -> RunOutcome {
    RunOutcome { seen: 0, filtered: 0, confirmed: 0, tagged: 0, skipped: 0, failed: 0 }
}

/// Which events a phase can consume: fetch results while fetching, an
/// operator answer while deciding, a mutation outcome while applying.
/// The terminal phase consumes nothing.
pub open spec fn event_fits(p: PhaseModel, e: Event) -> bool {
    match p {
        PhaseModel::Fetching { .. } => e is PageFetched || e is PageFailed || e is FetchComplete,
        PhaseModel::Deciding { .. } => e is OperatorAnswer,
        PhaseModel::Applying { .. } => e is ApplySucceeded || e is ApplyFailed,
        PhaseModel::Done { .. } => false,
    }
}

/// Internal consistency of the counts a phase carries.
pub open spec fn phase_wf(p: PhaseModel) -> bool {
    match p {
        PhaseModel::Fetching { collected } => collected.len() <= usize::MAX,
        PhaseModel::Deciding { candidates, idx, outcome } => {
            &&& 0 <= idx < candidates.len() <= usize::MAX
            &&& outcome.confirmed == outcome.tagged + outcome.failed
            &&& outcome.skipped + outcome.confirmed == idx
            &&& outcome.filtered == candidates.len()
            &&& outcome.filtered <= outcome.seen
        },
        PhaseModel::Applying { candidates, idx, outcome } => {
            &&& 0 <= idx < candidates.len() <= usize::MAX
            &&& outcome.confirmed == outcome.tagged + outcome.failed
            &&& outcome.skipped + outcome.confirmed == idx
            &&& outcome.filtered == candidates.len()
            &&& outcome.filtered <= outcome.seen
        },
        PhaseModel::Done { outcome, .. } => {
            &&& outcome.confirmed == outcome.tagged + outcome.failed
            &&& outcome.skipped + outcome.confirmed == outcome.filtered
            &&& outcome.filtered <= outcome.seen
        },
    }
}

/// Move past candidate `idx`, whose fate `outcome` already records:
/// either prompt for the next candidate or end the run.
pub open spec fn spec_advance(candidates: Seq<Instance>, idx: int, outcome: RunOutcome) -> (
    PhaseModel,
    Action,
) {
    if idx + 1 < candidates.len() {
        (
            PhaseModel::Deciding { candidates, idx: idx + 1, outcome },
            Action::Prompt {
                instance_id: candidates[idx + 1].instance_id,
                label: spec_label(candidates[idx + 1]),
            },
        )
    } else {
        (PhaseModel::Done { outcome, error: None }, Action::Finish)
    }
}

/// The transition relation of the run, one suspension point at a time.
///
/// While fetching, pages accumulate in order and the first page failure
/// ends the run with a failed outcome and no mutation attempted; a
/// complete but empty inventory ends it with the distinct
/// nothing-to-do condition. A complete inventory is filtered once, and
/// each remaining candidate is prompted for, then — only on an
/// affirmative answer — mutated, the mutation's outcome recorded, and
/// the run moves on regardless of that outcome.
pub open spec fn spec_step(tag: TagPair, p: PhaseModel, e: Event) -> (PhaseModel, Action) {
    match (p, e) {
        (PhaseModel::Fetching { collected }, Event::PageFetched(pg)) => (
            PhaseModel::Fetching { collected: collected + page_instances(pg) },
            Action::RequestPage,
        ),
        (PhaseModel::Fetching { .. }, Event::PageFailed(err)) => (
            PhaseModel::Done {
                outcome: zero_outcome(),
                error: Some(FetchError::Transport(err)),
            },
            Action::Finish,
        ),
        (PhaseModel::Fetching { collected }, Event::FetchComplete) => {
            if collected.len() == 0 {
                (
                    PhaseModel::Done {
                        outcome: zero_outcome(),
                        error: Some(FetchError::NoInstancesFound),
                    },
                    Action::Finish,
                )
            } else {
                let candidates = spec_partition(collected, tag.key@, false);
                let outcome = RunOutcome {
                    seen: collected.len() as usize,
                    filtered: candidates.len() as usize,
                    confirmed: 0,
                    tagged: 0,
                    skipped: 0,
                    failed: 0,
                };
                if candidates.len() == 0 {
                    (PhaseModel::Done { outcome, error: None }, Action::Finish)
                } else {
                    (
                        PhaseModel::Deciding { candidates, idx: 0, outcome },
                        Action::Prompt {
                            instance_id: candidates[0].instance_id,
                            label: spec_label(candidates[0]),
                        },
                    )
                }
            }
        },
        (PhaseModel::Deciding { candidates, idx, outcome }, Event::OperatorAnswer(s)) => {
            if is_affirmative(s@) {
                (
                    PhaseModel::Applying { candidates, idx, outcome },
                    Action::Apply {
                        instance_id: candidates[idx].instance_id,
                        key: tag.key,
                        value: tag.value,
                    },
                )
            } else {
                spec_advance(
                    candidates,
                    idx,
                    RunOutcome {
                        seen: outcome.seen,
                        filtered: outcome.filtered,
                        confirmed: outcome.confirmed,
                        tagged: outcome.tagged,
                        skipped: (outcome.skipped + 1) as usize,
                        failed: outcome.failed,
                    },
                )
            }
        },
        (PhaseModel::Applying { candidates, idx, outcome }, Event::ApplySucceeded(_)) => {
            spec_advance(
                candidates,
                idx,
                RunOutcome {
                    seen: outcome.seen,
                    filtered: outcome.filtered,
                    confirmed: (outcome.confirmed + 1) as usize,
                    tagged: (outcome.tagged + 1) as usize,
                    skipped: outcome.skipped,
                    failed: outcome.failed,
                },
            )
        },
        (PhaseModel::Applying { candidates, idx, outcome }, Event::ApplyFailed) => {
            spec_advance(
                candidates,
                idx,
                RunOutcome {
                    seen: outcome.seen,
                    filtered: outcome.filtered,
                    confirmed: (outcome.confirmed + 1) as usize,
                    tagged: outcome.tagged,
                    skipped: outcome.skipped,
                    failed: (outcome.failed + 1) as usize,
                },
            )
        },
        _ => (p, Action::Finish),
    }
}

/// The whole run: the tag being applied and the current phase.
pub struct Orchestrator {
    pub tag: TagPair,
    pub phase: Phase,
}

impl Orchestrator {
    pub open spec fn wf(self) -> bool {
        phase_wf(self.phase.model()) && self.tag.wf()
    }

    /// Start a run that will apply `tag`. The first thing the caller
    /// does is request a page; the machine is fetching from the start.
    pub fn new(tag: TagPair) -> (m: Orchestrator)
        requires
            tag.wf(),
        ensures
            m.tag == tag,
            m.phase.model() == (PhaseModel::Fetching { collected: Seq::<Instance>::empty() }),
            m.wf(),
    {
        let collected: Vec<Instance> = Vec::new();
        Orchestrator { tag, phase: Phase::Fetching { collected } }
    }

    /// One transition: consume the machine and the event the outside
    /// work produced, hand back the next machine and the action the
    /// caller must perform. The executable machine follows the
    /// transition relation exactly.
    pub fn step(self, e: Event) -> (r: (Orchestrator, Action))
        requires
            self.wf(),
            event_fits(self.phase.model(), e),
        ensures
            (r.0.phase.model(), r.1) == spec_step(self.tag, self.phase.model(), e),
            r.0.tag == self.tag,
            r.0.wf(),
    {
        let Orchestrator { tag, phase } = self;
        match phase {
            Phase::Fetching { collected } => {
                match e {
                    Event::PageFetched(pg) => {
                        let mut collected = collected;
                        collect_page(&mut collected, pg);
                        proof {
                            vstd::std_specs::vec::axiom_spec_len(&collected);
                        }
                        (
                            Orchestrator { tag, phase: Phase::Fetching { collected } },
                            Action::RequestPage,
                        )
                    },
                    Event::PageFailed(err) => {
                        (
                            Orchestrator {
                                tag,
                                phase: Phase::Done {
                                    outcome: RunOutcome::empty(),
                                    error: Some(FetchError::Transport(err)),
                                },
                            },
                            Action::Finish,
                        )
                    },
                    Event::FetchComplete => {
                        if collected.len() == 0 {
                            proof {
                                assert(collected@.len() == 0);
                            }
                            (
                                Orchestrator {
                                    tag,
                                    phase: Phase::Done {
                                        outcome: RunOutcome::empty(),
                                        error: Some(FetchError::NoInstancesFound),
                                    },
                                },
                                Action::Finish,
                            )
                        } else {
                            let seen = collected.len();
                            let ghost collected_model = collected@;
                            let candidates = partition_by_tag_presence(collected, &tag, false);
                            let filtered = candidates.len();
                            proof {
                                collected_model.lemma_filter_len(
                                    |inst: Instance|
                                        crate::tags::matches_presence(inst, tag.key@, false),
                                );
                            }
                            let outcome = RunOutcome {
                                seen,
                                filtered,
                                confirmed: 0,
                                tagged: 0,
                                skipped: 0,
                                failed: 0,
                            };
                            if candidates.len() == 0 {
                                (
                                    Orchestrator {
                                        tag,
                                        phase: Phase::Done { outcome, error: None },
                                    },
                                    Action::Finish,
                                )
                            } else {
                                let instance_id = candidates[0].instance_id.clone();
                                let label = display_label(&candidates[0]);
                                (
                                    Orchestrator {
                                        tag,
                                        phase: Phase::Deciding { candidates, idx: 0, outcome },
                                    },
                                    Action::Prompt { instance_id, label },
                                )
                            }
                        }
                    },
                    _ => vstd::pervasive::unreached(),
                }
            },
            Phase::Deciding { candidates, idx, outcome } => {
                match e {
                    Event::OperatorAnswer(s) => {
                        if interpret_answer(s.as_str()) {
                            let instance_id = candidates[idx].instance_id.clone();
                            let key = tag.key.clone();
                            let value = tag.value.clone();
                            (
                                Orchestrator {
                                    tag,
                                    phase: Phase::Applying { candidates, idx, outcome },
                                },
                                Action::Apply { instance_id, key, value },
                            )
                        } else {
                            let outcome = RunOutcome {
                                seen: outcome.seen,
                                filtered: outcome.filtered,
                                confirmed: outcome.confirmed,
                                tagged: outcome.tagged,
                                skipped: outcome.skipped + 1,
                                failed: outcome.failed,
                            };
                            advance(tag, candidates, idx, outcome)
                        }
                    },
                    _ => vstd::pervasive::unreached(),
                }
            },
            Phase::Applying { candidates, idx, outcome } => {
                match e {
                    Event::ApplySucceeded(_) => {
                        let outcome = RunOutcome {
                            seen: outcome.seen,
                            filtered: outcome.filtered,
                            confirmed: outcome.confirmed + 1,
                            tagged: outcome.tagged + 1,
                            skipped: outcome.skipped,
                            failed: outcome.failed,
                        };
                        advance(tag, candidates, idx, outcome)
                    },
                    Event::ApplyFailed => {
                        let outcome = RunOutcome {
                            seen: outcome.seen,
                            filtered: outcome.filtered,
                            confirmed: outcome.confirmed + 1,
                            tagged: outcome.tagged,
                            skipped: outcome.skipped,
                            failed: outcome.failed + 1,
                        };
                        advance(tag, candidates, idx, outcome)
                    },
                    _ => vstd::pervasive::unreached(),
                }
            },
            Phase::Done { .. } => vstd::pervasive::unreached(),
        }
    }
}

/// Iterated transitions: the phase after consuming `evs` in order.
pub open spec fn run_phase(tag: TagPair, p: PhaseModel, evs: Seq<Event>) -> PhaseModel
    decreases evs.len(),
{
    if evs.len() == 0 {
        p
    } else {
        run_phase(tag, spec_step(tag, p, evs[0]).0, evs.drop_first())
    }
}

/// The actions the machine asks for while consuming `evs` in order.
pub open spec fn run_actions(tag: TagPair, p: PhaseModel, evs: Seq<Event>) -> Seq<Action>
    decreases evs.len(),
{
    if evs.len() == 0 {
        Seq::empty()
    } else {
        seq![spec_step(tag, p, evs[0]).1] + run_actions(
            tag,
            spec_step(tag, p, evs[0]).0,
            evs.drop_first(),
        )
    }
}

/// Whether each event of `evs` fits the phase that consumes it.
pub open spec fn events_fit(tag: TagPair, p: PhaseModel, evs: Seq<Event>) -> bool
    decreases evs.len(),
{
    evs.len() == 0 || (event_fits(p, evs[0]) && events_fit(
        tag,
        spec_step(tag, p, evs[0]).0,
        evs.drop_first(),
    ))
}

/// The outcome counts a phase carries; an unfiltered fetch carries the
/// all-zero outcome.
pub open spec fn phase_outcome(p: PhaseModel) -> RunOutcome {
    match p {
        PhaseModel::Fetching { .. } => zero_outcome(),
        PhaseModel::Deciding { outcome, .. } => outcome,
        PhaseModel::Applying { outcome, .. } => outcome,
        PhaseModel::Done { outcome, .. } => outcome,
    }
}

/// The candidate set a mid-loop phase still answers for.
pub open spec fn phase_candidates(p: PhaseModel) -> Seq<Instance> {
    match p {
        PhaseModel::Deciding { candidates, .. } => candidates,
        PhaseModel::Applying { candidates, .. } => candidates,
        PhaseModel::Fetching { .. } => Seq::empty(),
        PhaseModel::Done { .. } => Seq::empty(),
    }
}

/// An event that is not an affirmative operator answer.
pub open spec fn declines(e: Event) -> bool {
    match e {
        Event::OperatorAnswer(s) => !is_affirmative(s@),
        _ => true,
    }
}

/// Decline safety: while no mutation is in flight and nothing has been
/// tagged yet, a run in which the operator declines every prompt never
/// asks for a single mutation, and ends with nothing tagged — whatever
/// pages arrive and however the fetch ends.
pub proof fn lemma_decline_safety(tag: TagPair, p: PhaseModel, evs: Seq<Event>)
    requires
        !(p is Applying),
        phase_outcome(p).tagged == 0,
        forall|i: int| 0 <= i < evs.len() ==> declines(#[trigger] evs[i]),
    ensures
        forall|i: int|
            0 <= i < run_actions(tag, p, evs).len() ==> !((#[trigger] run_actions(
                tag,
                p,
                evs,
            )[i]) is Apply),
        phase_outcome(run_phase(tag, p, evs)).tagged == 0,
    decreases evs.len(),
{
    if evs.len() > 0 {
        let e = evs[0];
        let p2 = spec_step(tag, p, e).0;
        let a = spec_step(tag, p, e).1;
        assert(declines(e));
        assert(!(a is Apply));
        assert(!(p2 is Applying));
        assert(phase_outcome(p2).tagged == 0);
        assert(forall|i: int| 0 <= i < evs.drop_first().len() ==> declines(#[trigger] evs.drop_first()[i]));
        lemma_decline_safety(tag, p2, evs.drop_first());
        let acts = run_actions(tag, p, evs);
        let rest_acts = run_actions(tag, p2, evs.drop_first());
        assert(acts == seq![a] + rest_acts);
        assert forall|i: int| 0 <= i < acts.len() implies !((#[trigger] acts[i]) is Apply) by {
            if i == 0 {
                assert(acts[i] == a);
            } else {
                assert(acts[i] == rest_acts[i - 1]);
            }
        }
    }
}

/// How many mutation acknowledgments a run of events carries.
pub open spec fn count_apply_ok(evs: Seq<Event>) -> nat
    decreases evs.len(),
{
    if evs.len() == 0 {
        0
    } else {
        (if evs[0] is ApplySucceeded {
            1nat
        } else {
            0nat
        }) + count_apply_ok(evs.drop_first())
    }
}

/// How many mutation failures a run of events carries.
pub open spec fn count_apply_failed(evs: Seq<Event>) -> nat
    decreases evs.len(),
{
    if evs.len() == 0 {
        0
    } else {
        (if evs[0] is ApplyFailed {
            1nat
        } else {
            0nat
        }) + count_apply_failed(evs.drop_first())
    }
}

/// How many declined prompts a run of events carries.
pub open spec fn count_declined(evs: Seq<Event>) -> nat
    decreases evs.len(),
{
    if evs.len() == 0 {
        0
    } else {
        (if evs[0] matches Event::OperatorAnswer(s) && !is_affirmative(s@) {
            1nat
        } else {
            0nat
        }) + count_declined(evs.drop_first())
    }
}

/// Failure isolation: once the confirmation loop has begun, any mix of
/// per-instance outcomes — failures included — drives the run to its
/// terminal state with every remaining candidate answered for. The
/// tagged count grows by exactly the acknowledged mutations, the
/// failed count by exactly the failed ones, the skipped count by
/// exactly the declined prompts, and together the three account for
/// the whole candidate set; a failed mutation never ends the run.
pub proof fn lemma_failure_isolation(tag: TagPair, p: PhaseModel, evs: Seq<Event>)
    requires
        phase_wf(p),
        p is Deciding || p is Applying,
        events_fit(tag, p, evs),
        run_phase(tag, p, evs) is Done,
    ensures
        phase_outcome(run_phase(tag, p, evs)).tagged == phase_outcome(p).tagged + count_apply_ok(
            evs,
        ),
        phase_outcome(run_phase(tag, p, evs)).failed == phase_outcome(p).failed
            + count_apply_failed(evs),
        phase_outcome(run_phase(tag, p, evs)).skipped == phase_outcome(p).skipped + count_declined(
            evs,
        ),
        phase_outcome(run_phase(tag, p, evs)).tagged + phase_outcome(run_phase(tag, p, evs)).skipped
            + phase_outcome(run_phase(tag, p, evs)).failed == phase_candidates(p).len(),
        run_phase(tag, p, evs) matches PhaseModel::Done { error, .. } && error is None,
    decreases evs.len(),
{
    if evs.len() == 0 {
        assert(false);
    } else {
        let e = evs[0];
        let rest = evs.drop_first();
        let p2 = spec_step(tag, p, e).0;
        assert(event_fits(p, e));
        if p2 is Done {
            assert(events_fit(tag, p2, rest));
            if rest.len() > 0 {
                assert(event_fits(p2, rest[0]));
                assert(false);
            }
            assert(run_phase(tag, p2, rest) == p2);
            assert(run_phase(tag, p, evs) == p2);
            assert(count_apply_ok(rest) == 0);
            assert(count_apply_failed(rest) == 0);
            assert(count_declined(rest) == 0);
        } else {
            assert(phase_wf(p2));
            assert(p2 is Deciding || p2 is Applying);
            assert(phase_candidates(p2) == phase_candidates(p));
            lemma_failure_isolation(tag, p2, rest);
        }
    }
}

/// Executable counterpart of [`spec_advance`].
fn advance(tag: TagPair, candidates: Vec<Instance>, idx: usize, outcome: RunOutcome) -> (r: (
    Orchestrator,
    Action,
))
    requires
        tag.wf(),
        idx < candidates@.len(),
        outcome.confirmed == outcome.tagged + outcome.failed,
        outcome.skipped + outcome.confirmed == idx + 1,
        outcome.filtered == candidates@.len(),
        outcome.filtered <= outcome.seen,
    ensures
        (r.0.phase.model(), r.1) == spec_advance(candidates@, idx as int, outcome),
        r.0.tag == tag,
        r.0.wf(),
{
    if idx + 1 < candidates.len() {
        let next = idx + 1;
        let instance_id = candidates[next].instance_id.clone();
        let label = display_label(&candidates[next]);
        (
            Orchestrator { tag, phase: Phase::Deciding { candidates, idx: next, outcome } },
            Action::Prompt { instance_id, label },
        )
    } else {
        (Orchestrator { tag, phase: Phase::Done { outcome, error: None } }, Action::Finish)
    }
}

} // verus!
