use rsrl::agents::ControlAgent;
use rsrl::cliff_walk::CliffWalk;
use rsrl::domains::{Observation, Transition};
use rsrl::experiment::{add_reward, record_step, Episode, Evaluation, SerialExperiment};

/// Always takes the same action.
struct Fixed {
    action: usize,
    transitions: usize,
    terminals: usize,
}

impl ControlAgent<(usize, usize)> for Fixed {
    fn pi(&mut self, _: &(usize, usize)) -> usize {
        self.action
    }

    fn pi_target(&mut self, _: &(usize, usize)) -> usize {
        self.action
    }

    fn handle_transition(&mut self, _: &Transition<(usize, usize)>) {
        self.transitions += 1;
    }

    fn handle_terminal(&mut self, _: &(usize, usize)) {
        self.terminals += 1;
    }
}

/// Tabular Q-learning with an annealed epsilon-greedy behaviour policy.
struct QLearner {
    q: Vec<f64>,
    alpha: f64,
    gamma: f64,
    epsilon: f64,
    seed: u64,
}

impl QLearner {
    fn new() -> QLearner {
        QLearner { q: vec![0.0; 5 * 12 * 4], alpha: 0.5, gamma: 0.95, epsilon: 0.9, seed: 7 }
    }

    fn row(&self, s: &(usize, usize)) -> &[f64] {
        let k = (s.1 * 12 + s.0) * 4;
        &self.q[k..k + 4]
    }

    fn greedy(&self, s: &(usize, usize)) -> usize {
        let qs = self.row(s);
        let mut best = 0;
        for a in 1..4 {
            if qs[a] > qs[best] {
                best = a;
            }
        }
        best
    }

    fn uniform(&mut self) -> f64 {
        self.seed = self.seed.wrapping_mul(6364136223846793005).wrapping_add(1442695040888963407);
        (self.seed >> 11) as f64 / (1u64 << 53) as f64
    }
}

impl ControlAgent<(usize, usize)> for QLearner {
    fn pi(&mut self, s: &(usize, usize)) -> usize {
        if self.uniform() < self.epsilon {
            ((self.uniform() * 4.0) as usize).min(3)
        } else {
            self.greedy(s)
        }
    }

    fn pi_target(&mut self, s: &(usize, usize)) -> usize {
        self.greedy(s)
    }

    fn handle_transition(&mut self, t: &Transition<(usize, usize)>) {
        let next = match &t.to {
            Observation::Terminal(_) => 0.0,
            Observation::Full { state, .. } => {
                self.row(state).iter().cloned().fold(f64::MIN, f64::max)
            }
        };
        let s = t.from.state();
        let k = (s.1 * 12 + s.0) * 4 + t.action;
        let target = t.reward as f64 + self.gamma * next;
        self.q[k] += self.alpha * (target - self.q[k]);
    }

    fn handle_terminal(&mut self, _: &(usize, usize)) {
        self.epsilon *= 0.99;
    }
}

#[test]
fn training_episodes_respect_the_step_limit() {
    // Walking north never ends an episode.
    let mut agent = Fixed { action: 0, transitions: 0, terminals: 0 };
    {
        let mut e = SerialExperiment::new(&mut agent, CliffWalk::default, 25);
        for _ in 0..3 {
            let ep = e.next().unwrap();
            assert_eq!(ep.n_steps, 25);
            // Four moves north, then a bump at the top edge each step.
            assert_eq!(ep.total_reward, -21);
        }
    }
    assert_eq!(agent.transitions, 75);
    assert_eq!(agent.terminals, 0);
}

#[test]
fn training_episode_stops_at_the_terminal_state() {
    let mut agent = Fixed { action: 1, transitions: 0, terminals: 0 };
    {
        let mut e = SerialExperiment::new(&mut agent, CliffWalk::default, 1000);
        assert_eq!(e.next(), Some(Episode { n_steps: 1, total_reward: -50 }));
    }
    assert_eq!(agent.transitions, 1);
    assert_eq!(agent.terminals, 1);
}

#[test]
fn zero_step_limit_gives_an_empty_episode() {
    let mut agent = Fixed { action: 1, transitions: 0, terminals: 0 };
    let mut e = SerialExperiment::new(&mut agent, CliffWalk::default, 0);
    assert_eq!(e.next(), Some(Episode { n_steps: 0, total_reward: 0 }));
}

#[test]
fn evaluation_stops_at_the_terminal_state() {
    let mut agent = Fixed { action: 1, transitions: 0, terminals: 0 };
    {
        let mut e = Evaluation::new(&mut agent, CliffWalk::default, 500);
        let ep = e.next().unwrap();
        assert_eq!(ep, Episode { n_steps: 1, total_reward: -50 });
        assert_eq!(e.next(), Some(ep));
    }
    // Evaluation does not learn.
    assert_eq!(agent.transitions, 0);
    assert_eq!(agent.terminals, 2);
}

#[test]
fn evaluation_is_capped_for_domains_that_never_end() {
    let mut agent = Fixed { action: 2, transitions: 0, terminals: 0 };
    let mut e = Evaluation::new(&mut agent, CliffWalk::default, 40);
    let ep = e.next().unwrap();
    assert_eq!(ep.n_steps, 40);
    assert_eq!(ep.total_reward, -40);
}

#[test]
fn rewards_saturate() {
    assert_eq!(add_reward(3, -5), -2);
    assert_eq!(add_reward(i64::MAX - 1, 5), i64::MAX);
    assert_eq!(add_reward(i64::MIN + 1, -5), i64::MIN);
}

#[test]
fn learning_finds_the_safe_path() {
    let mut agent = QLearner::new();
    {
        let mut e = SerialExperiment::new(&mut agent, CliffWalk::default, 1000);
        for _ in 0..1500 {
            let ep = e.next().unwrap();
            assert!(ep.n_steps <= 1000);
        }
    }
    assert!(agent.epsilon < 1e-5);

    let mut e = Evaluation::new(&mut agent, CliffWalk::default, 200);
    let ep = e.next().unwrap();
    assert_eq!(ep.total_reward, 50);
    assert!(ep.n_steps < 200);
}

#[test]
fn recording_a_step_counts_and_adds() {
    let e = Episode { n_steps: 4, total_reward: 10 };
    let full = Transition {
        from: Observation::Full { state: (0usize, 0usize), actions: vec![0, 1] },
        action: 1,
        reward: -3,
        to: Observation::Full { state: (1, 0), actions: vec![0, 1] },
    };
    assert_eq!(record_step(e, &full), (Episode { n_steps: 5, total_reward: 7 }, false));

    let end = Transition {
        from: Observation::Full { state: (0usize, 0usize), actions: vec![] },
        action: 0,
        reward: i64::MAX,
        to: Observation::Terminal((1, 1)),
    };
    assert_eq!(record_step(e, &end), (Episode { n_steps: 5, total_reward: i64::MAX }, true));
}
