//! Memories that an agent learns from again.

use std::collections::VecDeque;
use vstd::prelude::*;

use crate::error::{ConfigRule, PcError};
use crate::matrix::copy_of;
use crate::pc_actor_critic::config::ActionSpace;
use crate::scalar::{lit, Scalar, ZERO};

verus! {

/// An action that was taken.
#[derive(Clone, Debug)]
pub enum Action {
    /// The index of an action.
    Discrete(usize),
    /// The components of an action before squashing.
    Continuous(Vec<Scalar>),
}

/// The content of an action.
#[verifier::ext_equal]
pub enum ActionView {
    Discrete(usize),
    Continuous(Seq<Scalar>),
}

impl View for Action {
    type V = ActionView;

    open spec fn view(&self) -> ActionView {
        match self {
            Action::Discrete(i) => ActionView::Discrete(*i),
            Action::Continuous(v) => ActionView::Continuous(v@),
        }
    }
}

/// One step that was taken.
#[derive(Clone, Debug)]
pub struct ReplayTransition {
    pub state: Vec<Scalar>,
    pub action: Action,
    pub reward: Scalar,
    pub next_state: Vec<Scalar>,
    /// Whether the episode ended.
    pub done: bool,
    /// Actions that were allowed in `next_state`; `None` is all of them.
    pub valid_actions: Option<Vec<usize>>,
}

/// The content of a step.
#[verifier::ext_equal]
pub struct TransitionView {
    pub state: Seq<Scalar>,
    pub action: ActionView,
    pub reward: Scalar,
    pub next_state: Seq<Scalar>,
    pub done: bool,
    pub valid_actions: Option<Seq<usize>>,
}

impl TransitionView {
    /// A step of a continuous agent with the given sizes.
    pub open spec fn fits(self, state_dim: nat, action_dim: nat) -> bool {
        &&& self.state.len() == state_dim
        &&& self.next_state.len() == state_dim
        &&& self.action is Continuous
        &&& self.action->Continuous_0.len() == action_dim
    }
}

impl View for ReplayTransition {
    type V = TransitionView;

    open spec fn view(&self) -> TransitionView {
        TransitionView {
            state: self.state@,
            action: self.action@,
            reward: self.reward,
            next_state: self.next_state@,
            done: self.done,
            valid_actions: match self.valid_actions {
                Some(v) => Some(v@),
                None => None,
            },
        }
    }
}

/// A copy of a list of indices.
fn copy_indices(v: &Vec<usize>) -> (r: Vec<usize>)
    ensures
        r@ == v@,
{
    let mut out: Vec<usize> = Vec::new();
    let mut i: usize = 0;
    while i < v.len()
        invariant
            i <= v.len(),
            out@ == v@.take(i as int),
        decreases v.len() - i,
    {
        out.push(v[i]);
        i = i + 1;
        assert(out@ =~= v@.take(i as int));
    }
    assert(v@.take(v@.len() as int) =~= v@);
    out
}

impl ReplayTransition {
    /// An equal step.
    pub fn duplicate(&self) -> (r: Self)
        ensures
            r@ == self@,
    {
        ReplayTransition {
            state: copy_of(self.state.as_slice()),
            action: match &self.action {
                Action::Discrete(i) => Action::Discrete(*i),
                Action::Continuous(v) => Action::Continuous(copy_of(v.as_slice())),
            },
            reward: self.reward,
            next_state: copy_of(self.next_state.as_slice()),
            done: self.done,
            valid_actions: match &self.valid_actions {
                Some(v) => Some(copy_indices(v)),
                None => None,
            },
        }
    }
}

/// The contents of a list of steps.
pub open spec fn transition_views(ts: Seq<ReplayTransition>) -> Seq<TransitionView> {
    ts.map_values(|t: ReplayTransition| t@)
}

/// A list after `t` came in: at capacity the oldest entry makes room; a list
/// without capacity stays empty.
pub open spec fn bounded_push<T>(s: Seq<T>, t: T, capacity: nat) -> Seq<T> {
    if capacity == 0 {
        s
    } else if s.len() >= capacity {
        s.skip(1).push(t)
    } else {
        s.push(t)
    }
}

/// A memory in two compartments. Steps go to the training memories until these
/// are sealed, and to the recent memories from then on.
#[derive(Clone, Debug)]
pub struct ReplayBuffer {
    pub training_memories: VecDeque<ReplayTransition>,
    pub recent_memories: VecDeque<ReplayTransition>,
    pub training_capacity: usize,
    pub recent_capacity: usize,
    /// Whether only steps with a positive reward are kept.
    pub positive_only: bool,
    pub action_space: ActionSpace,
    /// Whether the training memories are still open.
    pub training_phase: bool,
}

/// The content of a memory.
#[verifier::ext_equal]
pub struct BufferView {
    pub training: Seq<TransitionView>,
    pub recent: Seq<TransitionView>,
    pub training_capacity: usize,
    pub recent_capacity: usize,
    pub positive_only: bool,
    pub action_space: ActionSpace,
    pub training_phase: bool,
}

impl BufferView {
    /// An empty memory with open training memories.
    pub open spec fn empty(
        training_capacity: usize,
        recent_capacity: usize,
        positive_only: bool,
        action_space: ActionSpace,
    ) -> BufferView {
        BufferView {
            training: Seq::empty(),
            recent: Seq::empty(),
            training_capacity,
            recent_capacity,
            positive_only,
            action_space,
            training_phase: true,
        }
    }

    /// All steps, training memories first.
    pub open spec fn all(self) -> Seq<TransitionView> {
        self.training + self.recent
    }

    /// Neither compartment is over its capacity.
    pub open spec fn within_capacity(self) -> bool {
        &&& self.training.len() <= self.training_capacity
        &&& self.recent.len() <= self.recent_capacity
    }

    /// Whether the memory takes actions of this kind.
    pub open spec fn accepts(self, action: ActionView) -> bool {
        match action {
            ActionView::Discrete(_) => self.action_space == ActionSpace::Discrete,
            ActionView::Continuous(_) => self.action_space == ActionSpace::Continuous,
        }
    }

    /// The memory after an accepted step.
    pub open spec fn remembering(self, t: TransitionView) -> BufferView {
        if self.positive_only && !lit(ZERO).lt(t.reward) {
            self
        } else {
            self.with(t)
        }
    }

    /// The memory after a step came into the open compartment.
    pub open spec fn with(self, t: TransitionView) -> BufferView {
        if self.training_phase {
            BufferView {
                training: bounded_push(self.training, t, self.training_capacity as nat),
                ..self
            }
        } else {
            BufferView {
                recent: bounded_push(self.recent, t, self.recent_capacity as nat),
                ..self
            }
        }
    }

    /// Every step is one of a continuous agent with the given sizes.
    pub open spec fn fits(self, state_dim: nat, action_dim: nat) -> bool {
        &&& forall|i: int|
            0 <= i < self.training.len() ==> (#[trigger] self.training[i]).fits(
                state_dim,
                action_dim,
            )
        &&& forall|i: int|
            0 <= i < self.recent.len() ==> (#[trigger] self.recent[i]).fits(state_dim, action_dim)
    }
}

/// A memory within its capacities stays within them.
pub proof fn law_memory_stays_within_capacity(b: BufferView, t: TransitionView)
    requires
        b.within_capacity(),
    ensures
        b.remembering(t).within_capacity(),
{
}

/// Of a sealed memory only the recent compartment changes, and of an open one
/// only the training compartment.
pub proof fn law_compartments_are_separate(b: BufferView, t: TransitionView)
    ensures
        b.training_phase ==> b.remembering(t).recent == b.recent,
        !b.training_phase ==> b.remembering(t).training == b.training,
        b.remembering(t).training_phase == b.training_phase,
{
}

/// Remembering a fitting step keeps every step fitting.
pub proof fn lemma_remembering_fits(
    b: BufferView,
    t: TransitionView,
    state_dim: nat,
    action_dim: nat,
)
    requires
        b.fits(state_dim, action_dim),
        t.fits(state_dim, action_dim),
    ensures
        b.remembering(t).fits(state_dim, action_dim),
{
    let n = b.remembering(t);
    assert forall|i: int| 0 <= i < n.training.len() implies (#[trigger] n.training[i]).fits(
        state_dim,
        action_dim,
    ) by {
        if i < b.training.len() {
            assert(b.training[i].fits(state_dim, action_dim));
        }
        if i + 1 < b.training.len() {
            assert(b.training[i + 1].fits(state_dim, action_dim));
        }
    }
    assert forall|i: int| 0 <= i < n.recent.len() implies (#[trigger] n.recent[i]).fits(
        state_dim,
        action_dim,
    ) by {
        if i < b.recent.len() {
            assert(b.recent[i].fits(state_dim, action_dim));
        }
        if i + 1 < b.recent.len() {
            assert(b.recent[i + 1].fits(state_dim, action_dim));
        }
    }
}

impl View for ReplayBuffer {
    type V = BufferView;

    open spec fn view(&self) -> BufferView {
        BufferView {
            training: transition_views(self.training_memories@),
            recent: transition_views(self.recent_memories@),
            training_capacity: self.training_capacity,
            recent_capacity: self.recent_capacity,
            positive_only: self.positive_only,
            action_space: self.action_space,
            training_phase: self.training_phase,
        }
    }
}

/// Lets a step into a compartment.
fn push_bounded(s: &mut VecDeque<ReplayTransition>, t: ReplayTransition, capacity: usize)
    ensures
        transition_views(final(s)@) == bounded_push(
            transition_views(old(s)@),
            t@,
            capacity as nat,
        ),
{
    if capacity == 0 {
        return;
    }
    if s.len() >= capacity {
        let _ = s.pop_front();
    }
    s.push_back(t);
    assert(transition_views(s@) =~= bounded_push(
        transition_views(old(s)@),
        t@,
        capacity as nat,
    ));
}

/// A copy of a compartment.
fn copy_transitions(s: &VecDeque<ReplayTransition>) -> (r: VecDeque<ReplayTransition>)
    ensures
        transition_views(r@) == transition_views(s@),
{
    let mut out: VecDeque<ReplayTransition> = VecDeque::new();
    let mut i: usize = 0;
    while i < s.len()
        invariant
            i <= s@.len(),
            out@.len() == i,
            forall|k: int| 0 <= k < i ==> (#[trigger] out@[k])@ == s@[k]@,
        decreases s@.len() - i,
    {
        out.push_back(s[i].duplicate());
        i = i + 1;
    }
    assert(transition_views(out@) =~= transition_views(s@));
    out
}

impl ReplayBuffer {
    /// An empty memory with open training memories.
    pub fn new(
        training_capacity: usize,
        recent_capacity: usize,
        positive_only: bool,
        action_space: ActionSpace,
    ) -> (r: Self)
        ensures
            r@ == BufferView::empty(
                training_capacity,
                recent_capacity,
                positive_only,
                action_space,
            ),
    {
        let r = ReplayBuffer {
            training_memories: VecDeque::new(),
            recent_memories: VecDeque::new(),
            training_capacity,
            recent_capacity,
            positive_only,
            action_space,
            training_phase: true,
        };
        assert(r@.training =~= Seq::empty());
        assert(r@.recent =~= Seq::empty());
        r
    }

    /// Remembers a step. A step with an action of the wrong kind is refused.
    pub fn push(&mut self, t: ReplayTransition) -> (r: Result<(), PcError>)
        ensures
            old(self)@.accepts(t@.action) ==> r is Ok && final(self)@ == old(self)@.remembering(
                t@,
            ),
            !old(self)@.accepts(t@.action) ==> r == Err::<(), PcError>(
                PcError::ConfigValidation(ConfigRule::ReplayActionKind),
            ) && *final(self) == *old(self),
    {
        let accepted = match &t.action {
            Action::Discrete(_) => self.action_space == ActionSpace::Discrete,
            Action::Continuous(_) => self.action_space == ActionSpace::Continuous,
        };
        if !accepted {
            return Err(PcError::ConfigValidation(ConfigRule::ReplayActionKind));
        }
        if self.positive_only && !lit(ZERO).lt(t.reward) {
            return Ok(());
        }
        if self.training_phase {
            push_bounded(&mut self.training_memories, t, self.training_capacity);
        } else {
            push_bounded(&mut self.recent_memories, t, self.recent_capacity);
        }
        Ok(())
    }

    /// How many steps are remembered, saturated.
    pub fn total_len(&self) -> (n: usize)
        ensures
            n == if self@.all().len() <= usize::MAX {
                self@.all().len()
            } else {
                usize::MAX as nat
            },
    {
        match self.training_memories.len().checked_add(self.recent_memories.len()) {
            Some(n) => n,
            None => usize::MAX,
        }
    }

    /// Whether the steps can be counted.
    pub fn countable(&self) -> (r: bool)
        ensures
            r == (self@.all().len() <= usize::MAX),
    {
        self.training_memories.len().checked_add(self.recent_memories.len()).is_some()
    }

    /// The `i`-th step, training memories first.
    pub fn get(&self, i: usize) -> (t: &ReplayTransition)
        requires
            i < self@.all().len(),
        ensures
            t@ == self@.all()[i as int],
    {
        let n: usize = self.training_memories.len();
        if i < n {
            &self.training_memories[i]
        } else {
            &self.recent_memories[i - n]
        }
    }

    /// Closes the training memories; later steps go to the recent memories.
    pub fn seal_training_memories(&mut self)
        ensures
            final(self)@ == (BufferView { training_phase: false, ..old(self)@ }),
    {
        self.training_phase = false;
    }

    /// Forgets the recent memories.
    pub fn clear_recent(&mut self)
        ensures
            final(self)@ == (BufferView { recent: Seq::empty(), ..old(self)@ }),
    {
        self.recent_memories.clear();
        assert(self@.recent =~= Seq::empty());
    }

    /// An equal memory.
    pub fn duplicate(&self) -> (r: Self)
        ensures
            r@ == self@,
    {
        ReplayBuffer {
            training_memories: copy_transitions(&self.training_memories),
            recent_memories: copy_transitions(&self.recent_memories),
            training_capacity: self.training_capacity,
            recent_capacity: self.recent_capacity,
            positive_only: self.positive_only,
            action_space: self.action_space,
            training_phase: self.training_phase,
        }
    }
}

} // verus!
