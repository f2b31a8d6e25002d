use crate::dimensions::Discrete;
use crate::domains::{Domain, Observation, Transition};
use crate::spaces::{ActionSpace, PairSpace, Space};
use vstd::prelude::*;

verus! {

/// A walk along the bottom row of a grid, from the bottom-left corner to the
/// bottom-right one, where every other cell of the bottom row is a cliff.
///
/// A location is `(column, row)`, row 0 being the bottom. The actions are
/// north, east, south and west, each one cell, stopped by the edges of the
/// grid; any other action leaves the walker where it is. Reaching the goal
/// pays 50, falling off the cliff costs 50, and a move into an edge costs 1.
pub struct CliffWalk {
    height: usize,
    width: usize,
    loc: (usize, usize),
    history: Ghost<Seq<Transition<(usize, usize)>>>,
}

/// The location reached from `loc` by action `a` on a grid of the given size.
pub open spec fn moved(height: usize, width: usize, loc: (usize, usize), a: usize) -> (usize, usize) {
    if a == 0 {
        (loc.0, if loc.1 + 1 < height { (loc.1 + 1) as usize } else { (height - 1) as usize })
    } else if a == 1 {
        (if loc.0 + 1 < width { (loc.0 + 1) as usize } else { (width - 1) as usize }, loc.1)
    } else if a == 2 {
        (loc.0, if loc.1 > 0 { (loc.1 - 1) as usize } else { 0 })
    } else if a == 3 {
        (if loc.0 > 0 { (loc.0 - 1) as usize } else { 0 }, loc.1)
    } else {
        loc
    }
}

/// The reward for going from `from` to `to` on a grid of the given width.
pub open spec fn cliff_reward(
    width: usize,
    from: Observation<(usize, usize)>,
    to: Observation<(usize, usize)>,
) -> int {
    match to {
        Observation::Terminal(s) => if s.0 == width - 1 && width > 0 {
            50
        } else {
            -50
        },
        Observation::Full { state, .. } => if from.spec_state() == state {
            -1
        } else {
            0
        },
    }
}

/// `o` is what a walk at `loc` shows: the location, terminal exactly on the
/// bottom row off the start column, and otherwise with the four actions.
pub open spec fn observes(o: Observation<(usize, usize)>, loc: (usize, usize)) -> bool {
    &&& o.spec_state() == loc
    &&& (o is Terminal) == (loc.0 > 0 && loc.1 == 0)
    &&& match o {
        Observation::Full { actions, .. } => actions@ == seq![0usize, 1, 2, 3],
        Observation::Terminal(_) => true,
    }
}

impl CliffWalk {
    pub closed spec fn spec_height(&self) -> usize {
        self.height
    }

    pub closed spec fn spec_width(&self) -> usize {
        self.width
    }

    pub closed spec fn spec_loc(&self) -> (usize, usize) {
        self.loc
    }

    /// The transitions performed so far, oldest first.
    pub closed spec fn spec_history(&self) -> Seq<Transition<(usize, usize)>> {
        self.history@
    }

    pub open spec fn wf(&self) -> bool {
        &&& self.spec_height() >= 1
        &&& self.spec_width() >= 1
        &&& self.spec_loc().0 < self.spec_width()
        &&& self.spec_loc().1 < self.spec_height()
    }

    #[verifier::type_invariant]
    spec fn inv(&self) -> bool {
        self.wf()
    }

    /// A grid of `height` rows and `width` columns, with the walker at the
    /// start.
    pub fn new(height: usize, width: usize) -> (r: CliffWalk)
        requires
            height >= 1,
            width >= 1,
        ensures
            r.wf(),
            r.spec_height() == height,
            r.spec_width() == width,
            r.spec_loc() == (0usize, 0usize),
            r.spec_history() == Seq::<Transition<(usize, usize)>>::empty(),
    {
        CliffWalk { height, width, loc: (0, 0), history: Ghost(Seq::empty()) }
    }

    /// The location of the walker.
    pub fn location(&self) -> (r: (usize, usize))
        ensures
            r == self.spec_loc(),
    {
        self.loc
    }

    fn update_state(&mut self, a: usize)
        requires
            old(self).wf(),
        ensures
            final(self).wf(),
            final(self).spec_height() == old(self).spec_height(),
            final(self).spec_width() == old(self).spec_width(),
            final(self).spec_history() == old(self).spec_history(),
            final(self).spec_loc() == moved(old(self).height, old(self).width, old(self).loc, a),
    {
        proof {
            use_type_invariant(&*self);
        }
        let (x, y) = self.loc;
        self.loc = if a == 0 {
            (x, if y + 1 < self.height { y + 1 } else { self.height - 1 })
        } else if a == 1 {
            (if x + 1 < self.width { x + 1 } else { self.width - 1 }, y)
        } else if a == 2 {
            (x, if y > 0 { y - 1 } else { 0 })
        } else if a == 3 {
            (if x > 0 { x - 1 } else { 0 }, y)
        } else {
            (x, y)
        };
    }
}

impl CliffWalk {
    /// The current location, terminal or with the four actions.
    pub fn observe(&self) -> (r: Observation<(usize, usize)>)
        ensures
            observes(r, self.spec_loc()),
            (r is Terminal) == self.spec_terminal(),
    {
        if self.loc.0 > 0 && self.loc.1 == 0 {
            Observation::Terminal(self.loc)
        } else {
            let mut actions: Vec<usize> = Vec::new();
            actions.push(0);
            actions.push(1);
            actions.push(2);
            actions.push(3);
            proof {
                assert(actions@ =~= seq![0usize, 1, 2, 3]);
            }
            Observation::Full { state: self.loc, actions }
        }
    }
}

impl Default for CliffWalk {
    /// The grid of five rows and twelve columns.
    fn default() -> (r: CliffWalk)
        ensures
            r.wf(),
            r.spec_height() == 5,
            r.spec_width() == 12,
            r.spec_loc() == (0usize, 0usize),
            r.spec_history() == Seq::<Transition<(usize, usize)>>::empty(),
    {
        CliffWalk::new(5, 12)
    }
}

impl Domain for CliffWalk {
    type State = (usize, usize);

    type StateSpace = PairSpace<Discrete, Discrete>;

    open spec fn spec_terminal(&self) -> bool {
        self.spec_loc().0 > 0 && self.spec_loc().1 == 0
    }

    open spec fn current(&self) -> (usize, usize) {
        self.spec_loc()
    }

    open spec fn history(&self) -> Seq<Transition<(usize, usize)>> {
        self.spec_history()
    }

    fn emit(&self) -> (r: Observation<(usize, usize)>)
        ensures
            observes(r, self.spec_loc()),
    {
        self.observe()
    }

    fn step(&mut self, a: usize) -> (r: Transition<(usize, usize)>)
        ensures
            final(self).wf(),
            final(self).spec_height() == old(self).spec_height(),
            final(self).spec_width() == old(self).spec_width(),
            final(self).spec_history() == old(self).spec_history().push(r),
            final(self).spec_loc() == moved(
                old(self).spec_height(),
                old(self).spec_width(),
                old(self).spec_loc(),
                a,
            ),
            observes(r.from, old(self).spec_loc()),
            observes(r.to, final(self).spec_loc()),
            r.reward == cliff_reward(old(self).spec_width(), r.from, r.to),
    {
        proof {
            use_type_invariant(&*self);
        }
        let from = self.observe();
        self.update_state(a);
        let to = self.observe();
        let reward = self.reward(&from, &to);
        let t = Transition { from, action: a, reward, to };
        self.history = Ghost(self.history@.push(t));
        t
    }

    fn reward(&self, from: &Observation<(usize, usize)>, to: &Observation<(usize, usize)>) -> (r: i64)
        ensures
            r == cliff_reward(self.spec_width(), *from, *to),
    {
        match to {
            Observation::Terminal(s) => {
                if self.width > 0 && s.0 == self.width - 1 {
                    50
                } else {
                    -50
                }
            },
            Observation::Full { state, .. } => {
                let f = from.state();
                if f.0 == state.0 && f.1 == state.1 {
                    -1
                } else {
                    0
                }
            },
        }
    }

    fn is_terminal(&self) -> (r: bool) {
        self.loc.0 > 0 && self.loc.1 == 0
    }

    /// Columns, then rows.
    fn state_space(&self) -> (r: PairSpace<Discrete, Discrete>)
        ensures
            r.0.size == self.spec_width(),
            r.1.size == self.spec_height(),
    {
        PairSpace::new(Discrete::new(self.width), Discrete::new(self.height))
    }

    fn action_space(&self) -> (r: ActionSpace)
        ensures
            r.0.size == 4,
    {
        ActionSpace::new(Discrete::new(4))
    }
}

} // verus!
