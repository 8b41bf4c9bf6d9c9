//! Laws of remembering.

use vstd::prelude::*;

use crate::pc_actor_critic::config::ActionSpace;
use crate::pc_actor_critic::replay::{ActionView, BufferView, TransitionView};
use crate::scalar::{lit, ZERO};

verus! {

/// `after` is `list` with `t` at its end: below capacity after all of it, at capacity
/// after all of it but the oldest. Without capacity nothing comes in.
pub open spec fn takes_in(
    after: Seq<TransitionView>,
    list: Seq<TransitionView>,
    t: TransitionView,
    capacity: nat,
) -> bool {
    if capacity == 0 {
        after == list
    } else {
        &&& after.len() > 0
        &&& after.last() == t
        &&& after.len() == if list.len() < capacity {
            list.len() + 1
        } else {
            list.len()
        }
        &&& forall|i: int|
            #![trigger after[i]]
            0 <= i < after.len() - 1 ==> after[i] == list[i + (list.len() + 1 - after.len())]
    }
}

/// A step goes to the end of the open compartment: the training memories until they are
/// sealed, the recent ones from then on. The other compartment and all settings stay. A
/// memory of rewarded steps passes over a step without a positive reward.
pub proof fn law_remembering(b: BufferView, t: TransitionView)
    ensures
        ({
            let after = b.remembering(t);
            &&& b.positive_only && !lit(ZERO).lt(t.reward) ==> after == b
            &&& !b.positive_only || lit(ZERO).lt(t.reward) ==> {
                &&& after == b.with(t)
                &&& b.training_phase ==> takes_in(
                    after.training,
                    b.training,
                    t,
                    b.training_capacity as nat,
                ) && after.recent == b.recent
                &&& !b.training_phase ==> takes_in(
                    after.recent,
                    b.recent,
                    t,
                    b.recent_capacity as nat,
                ) && after.training == b.training
            }
            &&& after == (BufferView { training: after.training, recent: after.recent, ..b })
            &&& b.all().len() == b.training.len() + b.recent.len()
            &&& forall|i: int|
                #![trigger b.all()[i]]
                0 <= i < b.all().len() ==> b.all()[i] == if i < b.training.len() {
                    b.training[i]
                } else {
                    b.recent[i - b.training.len()]
                }
        }),
{
}

/// A memory takes actions of its own kind only.
pub proof fn law_kind_of_actions(b: BufferView, action: ActionView)
    ensures
        action is Continuous ==> (b.accepts(action) <==> b.action_space
            == ActionSpace::Continuous),
        action is Discrete ==> (b.accepts(action) <==> b.action_space == ActionSpace::Discrete),
{
}

} // verus!
