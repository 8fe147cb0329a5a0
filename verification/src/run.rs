//! Runs of machines that are told one event after the other.
use vstd::prelude::*;

verus! {

/// A run of a machine: `states[i]` is told `events[i]`, and then it returns `results[i]` and is
/// `states[i + 1]`. What the machine does is given by `step`.
pub open spec fn is_run<S, E, R>(
    step: spec_fn(S, E) -> (R, S),
    states: Seq<S>,
    events: Seq<E>,
    results: Seq<R>,
) -> bool {
    &&& states.len() == events.len() + 1
    &&& results.len() == events.len()
    &&& forall|i: int|
        #![trigger results[i]]
        0 <= i < events.len() ==> (results[i], states[i + 1]) == step(states[i], events[i])
}

/// Two runs that start in the same state and are told the same go through the same states and
/// return the same.
pub(crate) proof fn lemma_runs_agree<S, E, R>(
    step: spec_fn(S, E) -> (R, S),
    states: Seq<S>,
    other_states: Seq<S>,
    events: Seq<E>,
    results: Seq<R>,
    other_results: Seq<R>,
)
    requires
        is_run(step, states, events, results),
        is_run(step, other_states, events, other_results),
        states[0] == other_states[0],
    ensures
        states == other_states,
        results == other_results,
{
    assert forall|i: int| 0 <= i < states.len() implies states[i] == other_states[i] by {
        lemma_runs_agree_at(step, states, other_states, events, results, other_results, i);
    }
    assert(states =~= other_states);
    assert forall|i: int| 0 <= i < results.len() implies results[i] == other_results[i] by {
        assert((results[i], states[i + 1]) == step(states[i], events[i]));
        assert((other_results[i], other_states[i + 1]) == step(other_states[i], events[i]));
    }
    assert(results =~= other_results);
}

/// Two runs that start in the same state and are told the same are in the same state after `i`
/// events.
proof fn lemma_runs_agree_at<S, E, R>(
    step: spec_fn(S, E) -> (R, S),
    states: Seq<S>,
    other_states: Seq<S>,
    events: Seq<E>,
    results: Seq<R>,
    other_results: Seq<R>,
    i: int,
)
    requires
        is_run(step, states, events, results),
        is_run(step, other_states, events, other_results),
        states[0] == other_states[0],
        0 <= i < states.len(),
    ensures
        states[i] == other_states[i],
    decreases i,
{
    if i > 0 {
        lemma_runs_agree_at(step, states, other_states, events, results, other_results, i - 1);
        assert((results[i - 1], states[i]) == step(states[i - 1], events[i - 1]));
        assert((other_results[i - 1], other_states[i]) == step(
            other_states[i - 1],
            events[i - 1],
        ));
    }
}

} // verus!
