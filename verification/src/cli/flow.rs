//! The order in which a run of sampling goes about its work, for `sample` and for `now`.
//!
//! The state directory is known to be ready before any provider is asked, evidence left
//! over is drained before more is made, every batch leaves a trace of its tick, and a
//! live reading is shown only where its evidence was recorded.

use vstd::prelude::*;

verus! {

/// What a run of sampling is about.
#[derive(Debug, Clone, Copy, PartialEq, Eq, Structural)]
pub struct SamplingFacts {
    /// Whether the readings are shown at once, as `now` shows them.
    pub live: bool,
    /// Whether the options are accepted.
    pub options_accepted: bool,
    /// Whether the account asked for, if any, is a configured one.
    pub account_known: bool,
    /// Whether a session is to be marked.
    pub session: bool,
    /// How many accounts are sampled.
    pub targets: usize,
    /// Whether everything the batch observed was recorded.
    pub recorded: bool,
}

/// What a run does next.
#[derive(Debug, Clone, Copy, PartialEq, Eq, Structural)]
pub enum SamplingPhase {
    /// It announces itself.
    Starting,
    /// It reads the configuration.
    Configuring,
    /// It makes sure that the state directory is ready.
    Readying,
    /// It opens the ledger.
    Opening,
    /// It drains evidence left over from before.
    Draining,
    /// It makes sure that the ledger knows the account of a session.
    Naming,
    /// It marks the session.
    Marking,
    /// It announces requests.
    Requesting,
    /// It gets at the credential of an account.
    Crediting { at: usize },
    /// It samples the accounts.
    Batching,
    /// It leaves a trace of the tick, after a batch that ran or did not.
    Ticking { ran: bool },
    /// It reads what the batch published.
    Projecting,
    /// It shows what it found.
    Rendering,
    /// It ended with what it found.
    Finished,
    /// It ended early.
    Stopped,
}

/// Whether a run has ended.
pub open spec fn ended(phase: SamplingPhase) -> bool {
    phase is Finished || phase is Stopped
}

/// What a run does once the ledger is ready for it.
pub open spec fn begun(facts: SamplingFacts) -> SamplingPhase {
    if facts.targets == 0 {
        SamplingPhase::Rendering
    } else {
        SamplingPhase::Requesting
    }
}

/// What a run does next, after a step that succeeded or did not.
pub open spec fn following(facts: SamplingFacts, phase: SamplingPhase, ok: bool) -> SamplingPhase {
    match phase {
        SamplingPhase::Ticking { ran } => if ran {
            SamplingPhase::Rendering
        } else {
            SamplingPhase::Stopped
        },
        SamplingPhase::Batching => if !facts.live {
            SamplingPhase::Ticking { ran: ok }
        } else if ok && facts.recorded {
            SamplingPhase::Projecting
        } else {
            SamplingPhase::Stopped
        },
        SamplingPhase::Finished => SamplingPhase::Finished,
        _ => if !ok {
            SamplingPhase::Stopped
        } else {
            match phase {
                SamplingPhase::Starting => if facts.options_accepted {
                    SamplingPhase::Configuring
                } else {
                    SamplingPhase::Stopped
                },
                SamplingPhase::Configuring => if facts.account_known {
                    SamplingPhase::Readying
                } else {
                    SamplingPhase::Stopped
                },
                SamplingPhase::Readying => SamplingPhase::Opening,
                SamplingPhase::Opening => SamplingPhase::Draining,
                SamplingPhase::Draining => if facts.session && !facts.live {
                    SamplingPhase::Naming
                } else {
                    begun(facts)
                },
                SamplingPhase::Naming => SamplingPhase::Marking,
                SamplingPhase::Marking => begun(facts),
                SamplingPhase::Requesting => SamplingPhase::Crediting { at: 0 },
                SamplingPhase::Crediting { at } => if at + 1 < facts.targets {
                    SamplingPhase::Crediting { at: (at + 1) as usize }
                } else {
                    SamplingPhase::Batching
                },
                SamplingPhase::Projecting => SamplingPhase::Rendering,
                SamplingPhase::Rendering => SamplingPhase::Finished,
                _ => SamplingPhase::Stopped,
            }
        },
    }
}

fn begin(facts: SamplingFacts) -> (phase: SamplingPhase)
    ensures
        phase == begun(facts),
{
    if facts.targets == 0 {
        SamplingPhase::Rendering
    } else {
        SamplingPhase::Requesting
    }
}

/// What a run does next, after a step that succeeded or did not.
pub fn next_phase(facts: SamplingFacts, phase: SamplingPhase, ok: bool) -> (next: SamplingPhase)
    ensures
        next == following(facts, phase, ok),
{
    match phase {
        SamplingPhase::Ticking { ran } => {
            return if ran {
                SamplingPhase::Rendering
            } else {
                SamplingPhase::Stopped
            };
        },
        SamplingPhase::Batching => {
            return if !facts.live {
                SamplingPhase::Ticking { ran: ok }
            } else if ok && facts.recorded {
                SamplingPhase::Projecting
            } else {
                SamplingPhase::Stopped
            };
        },
        SamplingPhase::Finished => {
            return SamplingPhase::Finished;
        },
        _ => {},
    }
    if !ok {
        return SamplingPhase::Stopped;
    }
    match phase {
        SamplingPhase::Starting => if facts.options_accepted {
            SamplingPhase::Configuring
        } else {
            SamplingPhase::Stopped
        },
        SamplingPhase::Configuring => if facts.account_known {
            SamplingPhase::Readying
        } else {
            SamplingPhase::Stopped
        },
        SamplingPhase::Readying => SamplingPhase::Opening,
        SamplingPhase::Opening => SamplingPhase::Draining,
        SamplingPhase::Draining => if facts.session && !facts.live {
            SamplingPhase::Naming
        } else {
            begin(facts)
        },
        SamplingPhase::Naming => SamplingPhase::Marking,
        SamplingPhase::Marking => begin(facts),
        SamplingPhase::Requesting => SamplingPhase::Crediting { at: 0 },
        SamplingPhase::Crediting { at } => if at < facts.targets && facts.targets - at > 1 {
            SamplingPhase::Crediting { at: at + 1 }
        } else {
            SamplingPhase::Batching
        },
        SamplingPhase::Projecting => SamplingPhase::Rendering,
        SamplingPhase::Rendering => SamplingPhase::Finished,
        _ => SamplingPhase::Stopped,
    }
}

/// Where a run stands after some steps, each of which succeeded or did not.
pub open spec fn phase_after(facts: SamplingFacts, steps: Seq<bool>) -> SamplingPhase
    decreases steps.len(),
{
    if steps.len() == 0 {
        SamplingPhase::Starting
    } else {
        following(facts, phase_after(facts, steps.drop_last()), steps.last())
    }
}

/// Whether a run did something with success, in some of its steps.
pub open spec fn did(facts: SamplingFacts, steps: Seq<bool>, phase: SamplingPhase) -> bool
    decreases steps.len(),
{
    steps.len() > 0 && (did(facts, steps.drop_last(), phase) || (phase_after(
        facts,
        steps.drop_last(),
    ) == phase && steps.last()))
}

/// Whether a phase comes after the ledger is open and drained.
pub open spec fn beyond_draining(phase: SamplingPhase) -> bool {
    phase is Naming || phase is Marking || phase is Requesting || phase is Crediting
        || phase is Batching || phase is Ticking || phase is Projecting || phase is Rendering
        || phase is Finished
}

/// Nobody is asked for a credential or a reading before the state directory is known to
/// be ready, the ledger is open, and what was left over is drained.
pub proof fn law_ready_before_any_request(facts: SamplingFacts, steps: Seq<bool>)
    ensures
        beyond_draining(phase_after(facts, steps)) ==> did(facts, steps, SamplingPhase::Readying)
            && did(facts, steps, SamplingPhase::Opening) && did(
            facts,
            steps,
            SamplingPhase::Draining,
        ),
        phase_after(facts, steps) is Draining ==> did(facts, steps, SamplingPhase::Readying) && did(
            facts,
            steps,
            SamplingPhase::Opening,
        ),
        phase_after(facts, steps) is Opening ==> did(facts, steps, SamplingPhase::Readying),
    decreases steps.len(),
{
    if steps.len() > 0 {
        law_ready_before_any_request(facts, steps.drop_last());
    }
}

/// A live reading is shown only where it was recorded, and where what was published was
/// read back.
pub proof fn law_live_readings_are_recorded(facts: SamplingFacts, steps: Seq<bool>)
    requires
        facts.live,
        facts.targets > 0,
    ensures
        phase_after(facts, steps) is Rendering || phase_after(facts, steps) is Finished
            ==> facts.recorded && did(facts, steps, SamplingPhase::Batching) && did(
            facts,
            steps,
            SamplingPhase::Projecting,
        ),
        phase_after(facts, steps) is Projecting ==> facts.recorded && did(
            facts,
            steps,
            SamplingPhase::Batching,
        ),
        !(phase_after(facts, steps) is Ticking),
    decreases steps.len(),
{
    if steps.len() > 0 {
        law_live_readings_are_recorded(facts, steps.drop_last());
    }
}

/// Every batch of `sample` is followed by the trace of its tick, whether it ran or not.
pub proof fn law_every_batch_leaves_a_tick(facts: SamplingFacts, ok: bool)
    requires
        !facts.live,
    ensures
        following(facts, SamplingPhase::Batching, ok) == (SamplingPhase::Ticking { ran: ok }),
{
}

/// A session is marked before any account is sampled.
pub proof fn law_sessions_are_marked_first(facts: SamplingFacts, steps: Seq<bool>)
    requires
        facts.session,
        !facts.live,
    ensures
        phase_after(facts, steps) is Requesting || phase_after(facts, steps) is Crediting
            || phase_after(facts, steps) is Batching ==> did(
            facts,
            steps,
            SamplingPhase::Marking,
        ),
    decreases steps.len(),
{
    if steps.len() > 0 {
        law_sessions_are_marked_first(facts, steps.drop_last());
    }
}

/// How much is left to do at most.
pub open spec fn left(facts: SamplingFacts, phase: SamplingPhase) -> nat {
    match phase {
        SamplingPhase::Starting => 12 + facts.targets as nat,
        SamplingPhase::Configuring => 11 + facts.targets as nat,
        SamplingPhase::Readying => 10 + facts.targets as nat,
        SamplingPhase::Opening => 9 + facts.targets as nat,
        SamplingPhase::Draining => 8 + facts.targets as nat,
        SamplingPhase::Naming => 7 + facts.targets as nat,
        SamplingPhase::Marking => 6 + facts.targets as nat,
        SamplingPhase::Requesting => 5 + facts.targets as nat,
        SamplingPhase::Crediting { at } => 4 + if at < facts.targets {
            (facts.targets - at - 1) as nat
        } else {
            0nat
        },
        SamplingPhase::Batching => 3,
        SamplingPhase::Ticking { .. } => 2,
        SamplingPhase::Projecting => 2,
        SamplingPhase::Rendering => 1,
        SamplingPhase::Finished => 0,
        SamplingPhase::Stopped => 0,
    }
}

/// Every run ends: each step leaves less to do, and one that has ended stays ended.
pub proof fn law_runs_end(facts: SamplingFacts, phase: SamplingPhase, ok: bool)
    ensures
        !ended(phase) ==> left(facts, following(facts, phase, ok)) < left(facts, phase),
        ended(phase) ==> following(facts, phase, ok) == phase,
{
}

/// A run goes step by step: options, configuration, readiness, the ledger, what is left
/// over; then the session's account and its mark, where there is one to mark; then the
/// requests, each account's credential in turn, the batch, its trace or its projection,
/// and what it found. Any other step that fails ends it early.
pub proof fn law_a_run_goes_step_by_step(facts: SamplingFacts, at: usize)
    ensures
        following(facts, SamplingPhase::Starting, true) == if facts.options_accepted {
            SamplingPhase::Configuring
        } else {
            SamplingPhase::Stopped
        },
        following(facts, SamplingPhase::Configuring, true) == if facts.account_known {
            SamplingPhase::Readying
        } else {
            SamplingPhase::Stopped
        },
        following(facts, SamplingPhase::Readying, true) == SamplingPhase::Opening,
        following(facts, SamplingPhase::Opening, true) == SamplingPhase::Draining,
        facts.session && !facts.live ==> following(facts, SamplingPhase::Draining, true)
            == SamplingPhase::Naming,
        !(facts.session && !facts.live) && facts.targets > 0 ==> following(
            facts,
            SamplingPhase::Draining,
            true,
        ) == SamplingPhase::Requesting,
        !(facts.session && !facts.live) && facts.targets == 0 ==> following(
            facts,
            SamplingPhase::Draining,
            true,
        ) == SamplingPhase::Rendering,
        following(facts, SamplingPhase::Naming, true) == SamplingPhase::Marking,
        facts.targets > 0 ==> following(facts, SamplingPhase::Marking, true)
            == SamplingPhase::Requesting,
        facts.targets == 0 ==> following(facts, SamplingPhase::Marking, true)
            == SamplingPhase::Rendering,
        following(facts, SamplingPhase::Requesting, true) == (SamplingPhase::Crediting { at: 0 }),
        at + 1 < facts.targets ==> following(facts, SamplingPhase::Crediting { at }, true) == (
        SamplingPhase::Crediting { at: (at + 1) as usize }),
        at + 1 >= facts.targets ==> following(facts, SamplingPhase::Crediting { at }, true)
            == SamplingPhase::Batching,
        facts.live && facts.recorded ==> following(facts, SamplingPhase::Batching, true)
            == SamplingPhase::Projecting,
        facts.live && !facts.recorded ==> following(facts, SamplingPhase::Batching, true)
            == SamplingPhase::Stopped,
        following(facts, SamplingPhase::Ticking { ran: true }, true) == SamplingPhase::Rendering,
        following(facts, SamplingPhase::Ticking { ran: false }, true) == SamplingPhase::Stopped,
        following(facts, SamplingPhase::Projecting, true) == SamplingPhase::Rendering,
        following(facts, SamplingPhase::Rendering, true) == SamplingPhase::Finished,
{
}

/// A step that fails ends the run early, but for a batch that leaves its trace and the
/// trace itself, which is left whether it could be or not.
pub proof fn law_failed_steps_end_the_run(facts: SamplingFacts, phase: SamplingPhase)
    ensures
        phase !is Ticking && phase !is Batching && phase !is Finished ==> following(
            facts,
            phase,
            false,
        ) == SamplingPhase::Stopped,
        phase is Batching && facts.live ==> following(facts, phase, false)
            == SamplingPhase::Stopped,
        phase is Batching && !facts.live ==> following(facts, phase, false) == (
        SamplingPhase::Ticking { ran: false }),
        phase is Ticking ==> following(facts, phase, false) == following(facts, phase, true),
{
}

} // verus!
