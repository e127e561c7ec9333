use vstd::prelude::*;

verus! {

/// A placement policy: narrow the nodes down, score them, pick one.
pub trait Secheduler {
    fn select_candidate_nodes(&self);

    fn score(&self);

    fn pick(&self);
}

} // verus!
