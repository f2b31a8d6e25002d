use crate::spaces::{ActionSpace, Space};
use vstd::prelude::*;

verus! {

/// What a domain shows of its state: an ordinary state with the actions
/// available there, or a terminal state that ends the episode.
#[derive(Clone, Debug)]
pub enum Observation<T> {
    Full { state: T, actions: Vec<usize> },
    Terminal(T),
}

impl<T> Observation<T> {
    pub open spec fn spec_state(&self) -> T {
        match self {
            Observation::Full { state, .. } => *state,
            Observation::Terminal(state) => *state,
        }
    }

    pub fn state(&self) -> (r: &T)
        ensures
            *r == self.spec_state(),
    {
        match self {
            Observation::Full { state, .. } => state,
            Observation::Terminal(state) => state,
        }
    }

    pub fn is_terminal(&self) -> (r: bool)
        ensures
            r == (self is Terminal),
    {
        match self {
            Observation::Full { .. } => false,
            Observation::Terminal(_) => true,
        }
    }
}

/// One step of a domain: where it started, the action taken, the reward
/// received and where it ended.
#[derive(Clone, Debug)]
pub struct Transition<T> {
    pub from: Observation<T>,
    pub action: usize,
    pub reward: i64,
    pub to: Observation<T>,
}

/// An environment that an agent acts in, one episode per instance.
pub trait Domain {
    /// The states, as observed; the points of `StateSpace`.
    type State;

    type StateSpace: Space;

    /// The current state ends the episode.
    spec fn spec_terminal(&self) -> bool;

    /// The current state.
    spec fn current(&self) -> Self::State;

    /// The transitions performed so far, oldest first.
    spec fn history(&self) -> Seq<Transition<Self::State>>;

    fn emit(&self) -> (r: Observation<Self::State>)
        ensures
            (r is Terminal) == self.spec_terminal(),
            r.spec_state() == self.current(),
    ;

    /// Performs `a`, and reports the transition, which joins the history.
    fn step(&mut self, a: usize) -> (r: Transition<Self::State>)
        ensures
            r.action == a,
            (r.from is Terminal) == old(self).spec_terminal(),
            (r.to is Terminal) == final(self).spec_terminal(),
            r.from.spec_state() == old(self).current(),
            r.to.spec_state() == final(self).current(),
            final(self).history() == old(self).history().push(r),
    ;

    fn reward(
        &self,
        from: &Observation<Self::State>,
        to: &Observation<Self::State>,
    ) -> i64;

    fn is_terminal(&self) -> (r: bool)
        ensures
            r == self.spec_terminal(),
    ;

    fn state_space(&self) -> Self::StateSpace;

    fn action_space(&self) -> ActionSpace;
}

} // verus!
