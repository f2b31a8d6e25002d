use crate::domains::Transition;
use vstd::prelude::*;

verus! {

/// A learner that chooses actions in states of type `T` and improves from the
/// transitions it observes.
pub trait ControlAgent<T> {
    /// The action of the behaviour policy, used while training.
    fn pi(&mut self, s: &T) -> usize;

    /// The action of the target policy, used while evaluating.
    fn pi_target(&mut self, s: &T) -> usize;

    /// Learns from one transition.
    fn handle_transition(&mut self, t: &Transition<T>);

    /// Closes an episode that ended in `s`.
    fn handle_terminal(&mut self, s: &T);
}

} // verus!
