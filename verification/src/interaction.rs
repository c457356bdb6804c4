//! What the pointer does to the labelled elements of the interface.

use vstd::prelude::*;

verus! {

/// The pointer's relation to an element.
#[derive(Clone, Copy, Debug, PartialEq, Eq, Structural)]
pub enum Interaction {
    Pressed,
    Hovered,
    Idle,
}

/// An element's interaction with the label it carries.
pub struct LabeledInteraction {
    pub interaction: Interaction,
    pub label: String,
}

/// Some element with this label is pressed.
pub open spec fn pressed_spec(items: Seq<LabeledInteraction>, label: Seq<char>) -> bool {
    exists|i: int|
        0 <= i < items.len() && (#[trigger] items[i]).label@ == label && items[i].interaction
            == Interaction::Pressed
}

/// The label of the last hovered element among the first `n`.
pub open spec fn hovered_upto(items: Seq<LabeledInteraction>, n: int) -> Option<Seq<char>>
    decreases n,
{
    if n <= 0 {
        None
    } else if items[n - 1].interaction == Interaction::Hovered {
        Some(items[n - 1].label@)
    } else {
        hovered_upto(items, n - 1)
    }
}

/// Whether an element with the label `label_str` is pressed.
pub fn pressed(q_interactions: &Vec<LabeledInteraction>, label_str: &str) -> (r: bool)
    ensures
        r == pressed_spec(q_interactions@, label_str@),
{
    let wanted: String = label_str.to_owned();
    let mut i: usize = 0;
    while i < q_interactions.len()
        invariant
            i <= q_interactions.len(),
            wanted@ == label_str@,
            forall|j: int|
                0 <= j < i ==> !((#[trigger] q_interactions@[j]).label@ == label_str@
                    && q_interactions@[j].interaction == Interaction::Pressed),
        decreases q_interactions.len() - i,
    {
        if q_interactions[i].label == wanted && q_interactions[i].interaction
            == Interaction::Pressed {
            return true;
        }
        i += 1;
    }
    false
}

/// The index of the hovered element whose label counts: the last one hovered.
pub fn hovered_button(q_interactions: &Vec<LabeledInteraction>) -> (r: Option<usize>)
    ensures
        r is Some <==> hovered_upto(q_interactions@, q_interactions.len() as int) is Some,
        r is Some ==> {
            &&& r->0 < q_interactions.len()
            &&& q_interactions@[r->0 as int].interaction == Interaction::Hovered
            &&& hovered_upto(q_interactions@, q_interactions.len() as int) == Some(
                q_interactions@[r->0 as int].label@,
            )
            &&& forall|j: int|
                r->0 < j < q_interactions.len() ==> (#[trigger] q_interactions@[j]).interaction
                    != Interaction::Hovered
        },
{
    let mut found: Option<usize> = None;
    let mut i: usize = 0;
    while i < q_interactions.len()
        invariant
            i <= q_interactions.len(),
            found is Some <==> hovered_upto(q_interactions@, i as int) is Some,
            found is Some ==> {
                &&& found->0 < i
                &&& q_interactions@[found->0 as int].interaction == Interaction::Hovered
                &&& hovered_upto(q_interactions@, i as int) == Some(
                    q_interactions@[found->0 as int].label@,
                )
                &&& forall|j: int|
                    found->0 < j < i ==> (#[trigger] q_interactions@[j]).interaction
                        != Interaction::Hovered
            },
        decreases q_interactions.len() - i,
    {
        if q_interactions[i].interaction == Interaction::Hovered {
            found = Some(i);
        }
        i += 1;
    }
    found
}

/// A label as plain characters, if there is one.
pub open spec fn label_view(label: Option<String>) -> Option<Seq<char>> {
    match label {
        Some(l) => Some(l@),
        None => None,
    }
}

/// Whether the hovered element differs from the one hovered before, in which
/// case its animation starts over.
pub fn hover_changed(last_hovered: &Option<String>, hovered: &Option<String>) -> (changed: bool)
    ensures
        changed == (label_view(*last_hovered) != label_view(*hovered)),
{
    match last_hovered {
        None => match hovered {
            None => false,
            Some(_) => true,
        },
        Some(a) => match hovered {
            None => true,
            Some(b) => {
                let same: bool = *a == *b;
                !same
            },
        },
    }
}

} // verus!
