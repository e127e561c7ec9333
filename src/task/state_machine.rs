use vstd::prelude::*;

use super::State;

verus! {

/// The transition table: the states a task in `from` may be asked to enter.
pub open spec fn transition_table(from: State) -> Seq<State> {
    match from {
        State::Pending => seq![State::Scheduled],
        State::Scheduled => seq![State::Scheduled, State::Running, State::Failed],
        State::Running => seq![State::Running, State::Completed, State::Failed],
        State::Completed => seq![],
        State::Failed => seq![],
    }
}

/// Whether the pair `(from, to)` appears in the transition table, written
/// out row by row.
pub open spec fn valid_transition(from: State, to: State) -> bool {
    match from {
        State::Pending => to == State::Scheduled,
        State::Scheduled => to == State::Scheduled || to == State::Running || to == State::Failed,
        State::Running => to == State::Running || to == State::Completed || to == State::Failed,
        State::Completed => false,
        State::Failed => false,
    }
}

/// The rows written out agree with the table.
pub proof fn lemma_valid_transition_is_table_lookup(from: State, to: State)
    ensures
        valid_transition(from, to) <==> transition_table(from).contains(to),
{
    let t = transition_table(from);
    if valid_transition(from, to) {
        if t.len() > 0 && t[0] == to {
        } else if t.len() > 1 && t[1] == to {
        } else {
            assert(t[2] == to);
        }
    }
}

/// The states reachable from `state` in one step, as listed in the table.
pub fn state_transition_map(state: State) -> (r: &'static [State])
    ensures
        r@ == transition_table(state),
{
    match state {
        State::Pending => &[State::Scheduled],
        State::Scheduled => &[State::Scheduled, State::Running, State::Failed],
        State::Running => &[State::Running, State::Completed, State::Failed],
        State::Completed => &[],
        State::Failed => &[],
    }
}

/// Looks `to` up among the successors of `from`.
pub fn is_valid_transition(from: State, to: State) -> (r: bool)
    ensures
        r == valid_transition(from, to),
{
    let succ = state_transition_map(from);
    let mut i: usize = 0;
    while i < succ.len()
        invariant
            0 <= i <= succ@.len(),
            succ@ == transition_table(from),
            forall|j: int| 0 <= j < i ==> succ@[j] != to,
        decreases succ@.len() - i,
    {
        if succ[i] == to {
            proof {
                lemma_valid_transition_is_table_lookup(from, to);
            }
            return true;
        }
        i = i + 1;
    }
    proof {
        lemma_valid_transition_is_table_lookup(from, to);
    }
    false
}

} // verus!
