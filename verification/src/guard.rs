//! The runtime semantics of the generated guard, as a model.
//!
//! At run time the generated function launches the named command with no
//! arguments and observes only whether the launch itself resolved: a launch
//! failure (command missing, not executable, OS error) skips the original
//! body silently; a successful launch runs it, whatever the command's exit
//! status.  Stacked directives nest guards, so the body runs exactly when
//! every guard's probe launches, and it runs at most once.

use vstd::prelude::*;

verus! {

/// What a probe of one command observed: the launch attempt failed at the
/// operating-system level, or the command launched and ran to completion with
/// some exit status (recorded only to state that it does not matter).
#[derive(Debug, Clone, Copy, PartialEq, Eq, Structural)]
pub enum ProbeOutcome {
    LaunchFailed,
    Launched { exit_zero: bool },
}

/// The probe's sole criterion: did the launch resolve to a running process.
pub open spec fn probe_launched(p: ProbeOutcome) -> bool {
    p is Launched
}

/// The guard's decision for one probe: run the original body exactly when
/// the launch succeeded — the command's own exit status plays no part.
pub fn body_should_run(p: &ProbeOutcome) -> (r: bool)
    ensures
        r == probe_launched(*p),
{
    match p {
        ProbeOutcome::LaunchFailed => false,
        ProbeOutcome::Launched { .. } => true,
    }
}

/// A stack of nested guards lets the body run exactly when every probe
/// launched.
pub open spec fn stack_allows(ps: Seq<ProbeOutcome>) -> bool {
    forall|i: int| 0 <= i < ps.len() ==> probe_launched(#[trigger] ps[i])
}

/// How many times the original body executes under a stack of guards: once
/// when every probe launched, never otherwise.
pub open spec fn body_run_count(ps: Seq<ProbeOutcome>) -> nat {
    if stack_allows(ps) {
        1
    } else {
        0
    }
}

/// The decision for a whole stack of probes, outermost first.
pub fn evaluate_stack(probes: &Vec<ProbeOutcome>) -> (r: bool)
    ensures
        r == stack_allows(probes@),
{
    let n = probes.len();
    let mut i: usize = 0;
    while i < n
        invariant
            n == probes@.len(),
            0 <= i <= n,
            forall|k: int| 0 <= k < i ==> probe_launched(#[trigger] probes@[k]),
        decreases n - i,
    {
        if !body_should_run(&probes[i]) {
            return false;
        }
        i = i + 1;
    }
    true
}

/// A guard whose command launched runs the body exactly once, with nothing
/// else in the way.
pub proof fn lemma_single_guard_runs(p: ProbeOutcome)
    requires
        probe_launched(p),
    ensures
        body_run_count(seq![p]) == 1,
{
    let s = seq![p];
    assert forall|i: int| 0 <= i < s.len() implies probe_launched(#[trigger] s[i]) by {
        assert(s[i] == p);
    }
}

/// A guard whose command failed to launch never runs the body.
pub proof fn lemma_single_guard_skips(p: ProbeOutcome)
    requires
        !probe_launched(p),
    ensures
        body_run_count(seq![p]) == 0,
{
    assert(!probe_launched(seq![p][0]));
}

/// Two stacked guards with one failed probe never run the body, whichever
/// of the two stands outermost.
pub proof fn lemma_stacked_failure_blocks(a: ProbeOutcome, b: ProbeOutcome)
    requires
        !probe_launched(a) || !probe_launched(b),
    ensures
        body_run_count(seq![a, b]) == 0,
        body_run_count(seq![b, a]) == 0,
{
    if !probe_launched(a) {
        assert(!probe_launched(seq![a, b][0]));
        assert(!probe_launched(seq![b, a][1]));
    } else {
        assert(!probe_launched(seq![a, b][1]));
        assert(!probe_launched(seq![b, a][0]));
    }
}

/// Two stacked guards whose commands both launched run the body exactly
/// once — the guards nest, they do not repeat the body.
pub proof fn lemma_stacked_success_runs_once(a: ProbeOutcome, b: ProbeOutcome)
    requires
        probe_launched(a),
        probe_launched(b),
    ensures
        body_run_count(seq![a, b]) == 1,
{
    let s = seq![a, b];
    assert forall|i: int| 0 <= i < s.len() implies probe_launched(#[trigger] s[i]) by {
        if i == 0 {
            assert(s[i] == a);
        } else {
            assert(s[i] == b);
        }
    }
}

/// Whether the body runs does not depend on the order in which the guards
/// are stacked: reversing the stack changes nothing.
pub proof fn lemma_stack_order_irrelevant(ps: Seq<ProbeOutcome>)
    ensures
        stack_allows(ps.reverse()) == stack_allows(ps),
        body_run_count(ps.reverse()) == body_run_count(ps),
{
    if stack_allows(ps) {
        assert forall|i: int| 0 <= i < ps.reverse().len() implies probe_launched(
            #[trigger] ps.reverse()[i],
        ) by {
            assert(ps.reverse()[i] == ps[ps.len() - 1 - i]);
        }
    }
    if stack_allows(ps.reverse()) {
        assert forall|i: int| 0 <= i < ps.len() implies probe_launched(#[trigger] ps[i]) by {
            assert(ps.reverse()[ps.len() - 1 - i] == ps[i]);
        }
    }
}

} // verus!
