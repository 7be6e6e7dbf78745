use vstd::prelude::*;

use crate::models::{view_actions, Action};
use crate::models_raw::ActionModel;
use crate::state_machine::Transition;

verus! {

/// Where the delivery of a transition's actions stands.
pub struct DeliveryModel {
    /// The state the dialogue was in before the input.
    pub origin: Seq<char>,
    /// The state the dialogue moves to once every action is delivered.
    pub target: Seq<char>,
    pub actions: Seq<ActionModel>,
    /// How many actions have been acknowledged, from the first on.
    pub delivered: nat,
    pub failed: bool,
}

/// What the caller does next.
#[derive(Debug, PartialEq, Eq)]
pub enum DeliveryStep {
    /// Perform this action and report back.
    Deliver(Action),
    /// Every action was delivered: the dialogue moves to this state.
    Advance(String),
    /// An action failed: the dialogue stays in this state and nothing more
    /// is delivered.
    Stay(String),
}

/// Runs the actions of one transition one at a time, in order: an action is
/// handed out only once the one before it has been acknowledged, and after a
/// failure the dialogue keeps its state.
pub struct Delivery {
    origin: String,
    transition: Transition,
    delivered: usize,
    failed: bool,
}

impl View for Delivery {
    type V = DeliveryModel;

    closed spec fn view(&self) -> DeliveryModel {
        DeliveryModel {
            origin: self.origin@,
            target: self.transition@.next_state,
            actions: self.transition@.actions,
            delivered: self.delivered as nat,
            failed: self.failed,
        }
    }
}

impl Delivery {
    /// No more actions are acknowledged than there are.
    #[verifier::type_invariant]
    spec fn wf(&self) -> bool {
        self.delivered <= self.transition.actions.len()
    }

    /// Starts delivering `transition`, taken in the state `origin`.
    pub fn new(origin: String, transition: Transition) -> (r: Delivery)
        ensures
            r@.origin == origin@,
            r@.target == transition@.next_state,
            r@.actions == transition@.actions,
            r@.delivered == 0,
            !r@.failed,
    {
        Delivery { origin, transition, delivered: 0, failed: false }
    }

    /// The next thing to do: deliver the first action not yet acknowledged,
    /// or, when none is left, move to the target; after a failure, stay.
    pub fn next_step(&self) -> (r: DeliveryStep)
        ensures
            self@.failed ==> (r matches DeliveryStep::Stay(s) && s@ == self@.origin),
            !self@.failed && self@.delivered < self@.actions.len() ==> (r matches DeliveryStep::Deliver(
                a,
            ) && a@ == self@.actions[self@.delivered as int]),
            !self@.failed && self@.delivered >= self@.actions.len() ==> (r matches DeliveryStep::Advance(
                s,
            ) && s@ == self@.target),
    {
        proof {
            use_type_invariant(self);
        }
        if self.failed {
            DeliveryStep::Stay(self.origin.clone())
        } else if self.delivered < self.transition.actions.len() {
            let a = self.transition.actions[self.delivered].duplicate();
            assert(self@.actions[self.delivered as int] == self.transition.actions@[self.delivered as int]@);
            DeliveryStep::Deliver(a)
        } else {
            DeliveryStep::Advance(self.transition.next_state.clone())
        }
    }

    /// The action handed out by `next_step` was delivered.
    pub fn acknowledge(&mut self)
        requires
            !old(self)@.failed,
            old(self)@.delivered < old(self)@.actions.len(),
        ensures
            final(self)@ == (DeliveryModel { delivered: old(self)@.delivered + 1, ..old(self)@ }),
    {
        proof {
            use_type_invariant(&*self);
        }
        self.delivered = self.delivered + 1;
    }

    /// The action handed out by `next_step` could not be delivered.
    pub fn fail(&mut self)
        ensures
            final(self)@ == (DeliveryModel { failed: true, ..old(self)@ }),
    {
        proof {
            use_type_invariant(&*self);
        }
        self.failed = true;
    }
}

} // verus!
