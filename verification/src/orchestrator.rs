//! The orchestrator: the strictly sequential phase machine that drives a run
//! from start-up to the written output. The driver performs each phase's work
//! (merging files, fanning probes out, scanning ports, writing the file) and
//! advances the machine with whether that work succeeded; the machine decides
//! what comes next, and in particular that a fatal failure while sources are
//! merged or candidates are loaded aborts the run before any probe is sent.

use vstd::prelude::*;

verus! {

/// The phases of one run, in the order a successful run passes them.
#[derive(Clone, Copy, Debug, PartialEq, Eq, Structural)]
pub enum Phase {
    /// Nothing has happened yet.
    Init,
    /// The wordlist sources are being merged.
    MergeSources,
    /// The merged candidate list is being loaded.
    LoadCandidates,
    /// All probe tasks and the progress reporter are being spawned.
    ProbeFanout,
    /// The run waits for every probe task to settle, then cancels the
    /// reporter.
    DrainProbes,
    /// The fixed port set is being checked.
    PortScan,
    /// The one-shot API scrape runs; its failure is reported but not fatal.
    ApiScrape,
    /// The output file is being assembled and written.
    WriteOutput,
    /// The run finished and its output exists.
    Terminal,
    /// A fatal condition stopped the run; no output was produced.
    Aborted,
}

/// Where a phase stands in the run's order.
pub open spec fn phase_rank(phase: Phase) -> int {
    match phase {
        Phase::Init => 0,
        Phase::MergeSources => 1,
        Phase::LoadCandidates => 2,
        Phase::ProbeFanout => 3,
        Phase::DrainProbes => 4,
        Phase::PortScan => 5,
        Phase::ApiScrape => 6,
        Phase::WriteOutput => 7,
        Phase::Terminal => 8,
        Phase::Aborted => 9,
    }
}

/// A phase in which the run has ended.
pub open spec fn is_final_phase(phase: Phase) -> bool {
    phase is Terminal || phase is Aborted
}

/// The transition table. Only three phases can fail fatally: merging the
/// sources, loading the candidates (both abort before any network activity),
/// and writing the output. Probe, port and scrape failures are local to their
/// tasks, so those phases always move on.
pub open spec fn next_phase_spec(phase: Phase, step_ok: bool) -> Phase {
    match phase {
        Phase::Init => Phase::MergeSources,
        Phase::MergeSources => if step_ok {
            Phase::LoadCandidates
        } else {
            Phase::Aborted
        },
        Phase::LoadCandidates => if step_ok {
            Phase::ProbeFanout
        } else {
            Phase::Aborted
        },
        Phase::ProbeFanout => Phase::DrainProbes,
        Phase::DrainProbes => Phase::PortScan,
        Phase::PortScan => Phase::ApiScrape,
        Phase::ApiScrape => Phase::WriteOutput,
        Phase::WriteOutput => if step_ok {
            Phase::Terminal
        } else {
            Phase::Aborted
        },
        Phase::Terminal => Phase::Terminal,
        Phase::Aborted => Phase::Aborted,
    }
}

/// Advances the run by one phase, given whether the phase's work succeeded.
pub fn advance(phase: Phase, step_ok: bool) -> (r: Phase)
    ensures
        r == next_phase_spec(phase, step_ok),
{
    match phase {
        Phase::Init => Phase::MergeSources,
        Phase::MergeSources => if step_ok {
            Phase::LoadCandidates
        } else {
            Phase::Aborted
        },
        Phase::LoadCandidates => if step_ok {
            Phase::ProbeFanout
        } else {
            Phase::Aborted
        },
        Phase::ProbeFanout => Phase::DrainProbes,
        Phase::DrainProbes => Phase::PortScan,
        Phase::PortScan => Phase::ApiScrape,
        Phase::ApiScrape => Phase::WriteOutput,
        Phase::WriteOutput => if step_ok {
            Phase::Terminal
        } else {
            Phase::Aborted
        },
        Phase::Terminal => Phase::Terminal,
        Phase::Aborted => Phase::Aborted,
    }
}

/// Transitions are strictly sequential: no phase is ever re-entered, because
/// every step out of a non-final phase moves strictly forward in the order.
pub proof fn lemma_strictly_sequential(phase: Phase, step_ok: bool)
    ensures
        !is_final_phase(phase) ==> phase_rank(next_phase_spec(phase, step_ok)) > phase_rank(phase),
        is_final_phase(phase) ==> next_phase_spec(phase, step_ok) == phase,
{
}

/// A fatal failure while merging sources or loading candidates aborts the
/// run before `ProbeFanout`, so before any network activity; only a run that
/// passes `WriteOutput` successfully ends in `Terminal`.
pub proof fn lemma_fatal_aborts_before_probing(step_ok: bool)
    ensures
        next_phase_spec(Phase::MergeSources, false) == Phase::Aborted,
        next_phase_spec(Phase::LoadCandidates, false) == Phase::Aborted,
        phase_rank(Phase::LoadCandidates) < phase_rank(Phase::ProbeFanout),
        next_phase_spec(Phase::WriteOutput, step_ok) == Phase::Terminal <==> step_ok,
{
}

} // verus!
