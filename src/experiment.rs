use crate::agents::ControlAgent;
use crate::domains::{Domain, Observation, Transition};
use vstd::prelude::*;

verus! {

/// Statistics of one episode.
#[derive(Clone, Copy, Debug, PartialEq, Eq, Structural)]
pub struct Episode {
    /// The number of steps taken.
    pub n_steps: u64,
    /// The sum of the rewards received, saturated at the bounds of `i64`.
    pub total_reward: i64,
}

/// `a + b`, clamped to the range of `i64`.
pub open spec fn clamped_sum(a: i64, b: i64) -> i64 {
    if a + b > i64::MAX {
        i64::MAX
    } else if a + b < i64::MIN {
        i64::MIN
    } else {
        (a + b) as i64
    }
}

/// Adds two rewards, saturating at the bounds of `i64`.
pub fn add_reward(a: i64, b: i64) -> (r: i64)
    ensures
        r == clamped_sum(a, b),
{
    if b > 0 && a > i64::MAX - b {
        i64::MAX
    } else if b < 0 && a < i64::MIN - b {
        i64::MIN
    } else {
        a + b
    }
}

/// The total of a sequence of rewards, added one by one with `add_reward`.
pub open spec fn clamped_total(rewards: Seq<i64>) -> i64
    decreases rewards.len(),
{
    if rewards.len() == 0 {
        0
    } else {
        clamped_sum(clamped_total(rewards.drop_last()), rewards.last())
    }
}

/// The statistics of an episode made of the transitions `ts`.
pub open spec fn episode_of<T>(ts: Seq<Transition<T>>) -> Episode {
    Episode {
        n_steps: ts.len() as u64,
        total_reward: clamped_total(ts.map_values(|t: Transition<T>| t.reward)),
    }
}

/// No transition but the last reached a terminal observation, and an episode
/// shorter than `limit` steps ended at one.
pub open spec fn stops_at_first_terminal<T>(ts: Seq<Transition<T>>, limit: u64) -> bool {
    &&& ts.len() <= limit
    &&& forall|k: int| 0 <= k < ts.len() - 1 ==> !((#[trigger] ts[k]).to is Terminal)
    &&& ts.len() < limit ==> ts.len() >= 1 && ts.last().to is Terminal
}

/// A call that a driver makes to its agent.
pub enum AgentCall<T> {
    /// `pi` in the state, which chose the action.
    Act(T, usize),
    /// `pi_target` in the state, which chose the action.
    Target(T, usize),
    /// `handle_transition` with the transition.
    Learn(Transition<T>),
    /// `handle_terminal` with the terminal state.
    Close(T),
}

/// The state and chosen action of a call to `pi_target` (when `target`) or
/// to `pi` (otherwise).
pub open spec fn choice<T>(c: AgentCall<T>, target: bool) -> Option<(T, usize)> {
    match c {
        AgentCall::Act(s, a) => if target {
            None
        } else {
            Some((s, a))
        },
        AgentCall::Target(s, a) => if target {
            Some((s, a))
        } else {
            None
        },
        _ => None,
    }
}

/// `c` is what a driver asks of the agent after transition `t`: to close the
/// episode in a terminal state, else to choose an action in the state reached.
pub open spec fn answers<T>(c: AgentCall<T>, t: Transition<T>, target: bool) -> bool {
    match t.to {
        Observation::Terminal(s) => c == AgentCall::Close(s),
        Observation::Full { state, .. } => choice(c, target) is Some && choice(c, target).unwrap().0
            == state,
    }
}

/// The calls of a training episode made of `ts`: the behaviour policy chooses
/// the first action; after each transition the agent learns from it, then
/// closes the episode or chooses the next action; each transition performs
/// the action chosen just before it, in the state it started from.
pub open spec fn training_calls<T>(calls: Seq<AgentCall<T>>, ts: Seq<Transition<T>>) -> bool {
    &&& calls.len() == 1 + 2 * ts.len()
    &&& choice(calls[0], false) is Some
    &&& forall|j: int|
        0 <= j < ts.len() ==> {
            &&& calls[1 + 2 * j] == AgentCall::Learn(#[trigger] ts[j])
            &&& answers(calls[2 + 2 * j], ts[j], false)
            &&& choice(calls[2 * j], false) == Some((ts[j].from.spec_state(), ts[j].action))
        }
}

/// The calls of an evaluation episode made of `ts`: as in training, with the
/// target policy choosing, and no learning.
pub open spec fn evaluation_calls<T>(calls: Seq<AgentCall<T>>, ts: Seq<Transition<T>>) -> bool {
    &&& calls.len() == 1 + ts.len()
    &&& choice(calls[0], true) is Some
    &&& forall|j: int|
        0 <= j < ts.len() ==> {
            &&& answers(calls[1 + j], #[trigger] ts[j], true)
            &&& choice(calls[j], true) == Some((ts[j].from.spec_state(), ts[j].action))
        }
}

/// Counts one more step of an episode and adds its reward; the flag tells
/// whether the step reached a terminal observation, which ends the episode.
pub fn record_step<T>(e: Episode, t: &Transition<T>) -> (r: (Episode, bool))
    requires
        e.n_steps < u64::MAX,
    ensures
        r.0.n_steps == e.n_steps + 1,
        r.0.total_reward == clamped_sum(e.total_reward, t.reward),
        r.1 == (t.to is Terminal),
{
    let e2 = Episode { n_steps: e.n_steps + 1, total_reward: add_reward(e.total_reward, t.reward) };
    (e2, t.to.is_terminal())
}

proof fn lemma_episode_push<T>(ts: Seq<Transition<T>>, t: Transition<T>)
    ensures
        episode_of(ts.push(t)).total_reward == clamped_sum(episode_of(ts).total_reward, t.reward),
{
    let f = |t: Transition<T>| t.reward;
    assert(ts.push(t).map_values(f).drop_last() =~= ts.map_values(f));
}

/// Runs training episodes of at most `step_limit` steps each, one fresh domain
/// from the factory per episode.
pub struct SerialExperiment<'a, A, D: Domain, F> {
    agent: &'a mut A,
    domain_factory: F,
    step_limit: u64,
    last_domain: Ghost<Option<D>>,
    last_calls: Ghost<Seq<AgentCall<D::State>>>,
}

impl<'a, A, D, F> SerialExperiment<'a, A, D, F> where
    D: Domain,
    A: ControlAgent<D::State>,
    F: Fn() -> D,
 {
    pub closed spec fn spec_step_limit(&self) -> u64 {
        self.step_limit
    }

    /// The domain of the last episode run, as it was at its end.
    pub closed spec fn last_domain(&self) -> Option<D> {
        self.last_domain@
    }

    /// The transitions of the last episode run.
    pub open spec fn last_transitions(&self) -> Seq<Transition<D::State>> {
        match self.last_domain() {
            Some(d) => d.history(),
            None => Seq::empty(),
        }
    }

    /// The calls made to the agent during the last episode run, in order.
    pub closed spec fn last_calls(&self) -> Seq<AgentCall<D::State>> {
        self.last_calls@
    }

    /// The factory can be called, and hands out domains that have not been
    /// stepped.
    pub open spec fn factory_ok(f: F) -> bool {
        &&& f.requires(())
        &&& forall|d: D| f.ensures((), d) ==> d.history().len() == 0
    }

    pub closed spec fn wf(&self) -> bool {
        Self::factory_ok(self.domain_factory)
    }

    pub fn new(agent: &'a mut A, domain_factory: F, step_limit: u64) -> (r: Self)
        requires
            Self::factory_ok(domain_factory),
        ensures
            r.wf(),
            r.spec_step_limit() == step_limit,
            r.last_domain() is None,
            r.last_calls() == Seq::<AgentCall<D::State>>::empty(),
    {
        SerialExperiment {
            agent,
            domain_factory,
            step_limit,
            last_domain: Ghost(None),
            last_calls: Ghost(Seq::empty()),
        }
    }

    /// Runs one episode in a fresh domain from the factory. The episode
    /// reports the transitions the domain performed, and the calls made to
    /// the agent are logged. What the agent answers is its own affair, and
    /// that the factory is called once per episode is not stated.
    pub fn next(&mut self) -> (r: Option<Episode>)
        requires
            old(self).wf(),
        ensures
            final(self).wf(),
            final(self).spec_step_limit() == old(self).spec_step_limit(),
            final(self).last_domain() is Some,
            r == Some(episode_of(final(self).last_transitions())),
            stops_at_first_terminal(final(self).last_transitions(), old(self).spec_step_limit()),
            training_calls(final(self).last_calls(), final(self).last_transitions()),
    {
        let mut domain = (self.domain_factory)();
        let obs = domain.emit();
        let mut a = self.agent.pi(obs.state());
        let ghost mut calls: Seq<AgentCall<D::State>> = seq![AgentCall::Act(obs.spec_state(), a)];
        let mut e = Episode { n_steps: 0, total_reward: 0 };
        let ghost limit = self.step_limit;
        proof {
            assert(domain.history() =~= Seq::<Transition<D::State>>::empty());
        }
        while e.n_steps < self.step_limit
            invariant_except_break
                forall|k: int| 0 <= k < domain.history().len() ==> !((#[trigger] domain.history()[k]).to is Terminal),
                choice(calls.last(), false) == Some((domain.current(), a)),
            invariant
                self.wf(),
                self.step_limit == limit,
                limit == old(self).step_limit,
                e == episode_of(domain.history()),
                domain.history().len() <= limit,
                calls.len() == 1 + 2 * domain.history().len(),
                choice(calls[0], false) is Some,
                forall|j: int|
                    0 <= j < domain.history().len() ==> {
                    &&& calls[1 + 2 * j] == AgentCall::Learn(domain.history()[j])
                        &&& answers(calls[2 + 2 * j], #[trigger] domain.history()[j], false)
                        &&& choice(calls[2 * j], false) == Some((domain.history()[j].from.spec_state(), domain.history()[j].action))
                    },
            ensures
                self.wf(),
                self.step_limit == limit,
                e == episode_of(domain.history()),
                stops_at_first_terminal(domain.history(), limit),
                training_calls(calls, domain.history()),
            decreases self.step_limit - e.n_steps,
        {
            let ghost before = domain.history();
            let ghost before_calls = calls;
            let t = domain.step(a);
            let (e2, terminal) = record_step(e, &t);
            proof {
                lemma_episode_push(before, t);
            }
            e = e2;
            self.agent.handle_transition(&t);
            proof {
                calls = calls.push(AgentCall::Learn(t));
            }
            match &t.to {
                Observation::Terminal(s) => {
                    self.agent.handle_terminal(s);
                    proof {
                        calls = calls.push(AgentCall::Close(*s));
                    }
                    break ;
                },
                Observation::Full { state, .. } => {
                    a = self.agent.pi(state);
                    proof {
                        calls = calls.push(AgentCall::Act(*state, a));
                    }
                },
            }
        }
        self.last_domain = Ghost(Some(domain));
        self.last_calls = Ghost(calls);
        Some(e)
    }
}

/// Runs evaluation episodes, in which the agent follows its target policy and
/// does not learn. An episode ends at a terminal state of the domain, or after
/// `step_limit` steps for a domain that does not reach one.
pub struct Evaluation<'a, A, D: Domain, F> {
    agent: &'a mut A,
    domain_factory: F,
    step_limit: u64,
    last_domain: Ghost<Option<D>>,
    last_calls: Ghost<Seq<AgentCall<D::State>>>,
}

impl<'a, A, D, F> Evaluation<'a, A, D, F> where
    D: Domain,
    A: ControlAgent<D::State>,
    F: Fn() -> D,
 {
    pub closed spec fn spec_step_limit(&self) -> u64 {
        self.step_limit
    }

    /// The domain of the last episode run, as it was at its end.
    pub closed spec fn last_domain(&self) -> Option<D> {
        self.last_domain@
    }

    /// The transitions of the last episode run.
    pub open spec fn last_transitions(&self) -> Seq<Transition<D::State>> {
        match self.last_domain() {
            Some(d) => d.history(),
            None => Seq::empty(),
        }
    }

    /// The calls made to the agent during the last episode run, in order.
    pub closed spec fn last_calls(&self) -> Seq<AgentCall<D::State>> {
        self.last_calls@
    }

    /// The factory can be called, and hands out domains that have not been
    /// stepped.
    pub open spec fn factory_ok(f: F) -> bool {
        &&& f.requires(())
        &&& forall|d: D| f.ensures((), d) ==> d.history().len() == 0
    }

    pub closed spec fn wf(&self) -> bool {
        Self::factory_ok(self.domain_factory)
    }

    pub fn new(agent: &'a mut A, domain_factory: F, step_limit: u64) -> (r: Self)
        requires
            Self::factory_ok(domain_factory),
        ensures
            r.wf(),
            r.spec_step_limit() == step_limit,
            r.last_domain() is None,
            r.last_calls() == Seq::<AgentCall<D::State>>::empty(),
    {
        Evaluation {
            agent,
            domain_factory,
            step_limit,
            last_domain: Ghost(None),
            last_calls: Ghost(Seq::empty()),
        }
    }

    /// Runs one episode in a fresh domain from the factory. The episode
    /// reports the transitions the domain performed, and the calls made to
    /// the agent are logged. What the agent answers is its own affair, and
    /// that the factory is called once per episode is not stated.
    pub fn next(&mut self) -> (r: Option<Episode>)
        requires
            old(self).wf(),
        ensures
            final(self).wf(),
            final(self).spec_step_limit() == old(self).spec_step_limit(),
            final(self).last_domain() is Some,
            r == Some(episode_of(final(self).last_transitions())),
            stops_at_first_terminal(final(self).last_transitions(), old(self).spec_step_limit()),
            evaluation_calls(final(self).last_calls(), final(self).last_transitions()),
    {
        let mut domain = (self.domain_factory)();
        let obs = domain.emit();
        let mut a = self.agent.pi_target(obs.state());
        let ghost mut calls: Seq<AgentCall<D::State>> = seq![AgentCall::Target(obs.spec_state(), a)];
        let mut e = Episode { n_steps: 0, total_reward: 0 };
        let ghost limit = self.step_limit;
        proof {
            assert(domain.history() =~= Seq::<Transition<D::State>>::empty());
        }
        while e.n_steps < self.step_limit
            invariant_except_break
                forall|k: int| 0 <= k < domain.history().len() ==> !((#[trigger] domain.history()[k]).to is Terminal),
                choice(calls.last(), true) == Some((domain.current(), a)),
            invariant
                self.wf(),
                self.step_limit == limit,
                limit == old(self).step_limit,
                e == episode_of(domain.history()),
                domain.history().len() <= limit,
                calls.len() == 1 + domain.history().len(),
                choice(calls[0], true) is Some,
                forall|j: int|
                    0 <= j < domain.history().len() ==> {
                        &&& answers(calls[1 + j], #[trigger] domain.history()[j], true)
                        &&& choice(calls[j], true) == Some((domain.history()[j].from.spec_state(), domain.history()[j].action))
                    },
            ensures
                self.wf(),
                self.step_limit == limit,
                e == episode_of(domain.history()),
                stops_at_first_terminal(domain.history(), limit),
                evaluation_calls(calls, domain.history()),
            decreases self.step_limit - e.n_steps,
        {
            let ghost before = domain.history();
            let ghost before_calls = calls;
            let t = domain.step(a);
            let (e2, terminal) = record_step(e, &t);
            proof {
                lemma_episode_push(before, t);
            }
            e = e2;
            match &t.to {
                Observation::Terminal(s) => {
                    self.agent.handle_terminal(s);
                    proof {
                        calls = calls.push(AgentCall::Close(*s));
                    }
                    break ;
                },
                Observation::Full { state, .. } => {
                    a = self.agent.pi_target(state);
                    proof {
                        calls = calls.push(AgentCall::Target(*state, a));
                    }
                },
            }
        }
        self.last_domain = Ghost(Some(domain));
        self.last_calls = Ghost(calls);
        Some(e)
    }
}

} // verus!
