//! Handing out items one at a time, until one of them is not accepted.
use std::collections::VecDeque;

use vstd::prelude::*;

verus! {

/// What comes next when items are handed out one at a time.
#[derive(Debug, PartialEq, Eq)]
pub enum Step<T> {
    /// Hand out this item.
    Next(T),
    /// An item was not accepted. Nothing more is handed out.
    Failed,
    /// Every item was accepted.
    Done,
}

/// What comes next, where `accepted` says whether the item before was accepted
/// or there was none.
pub open spec fn next_step<T>(items: Seq<T>, accepted: bool) -> Step<T> {
    if !accepted {
        Step::Failed
    } else if items.len() > 0 {
        Step::Next(items[0])
    } else {
        Step::Done
    }
}

/// The items that are left after a step. A failure leaves none.
pub open spec fn items_left<T>(items: Seq<T>, accepted: bool) -> Seq<T> {
    if accepted && items.len() > 0 {
        items.skip(1)
    } else {
        Seq::empty()
    }
}

/// The items that are handed out, one step after the other, where `answers`
/// says of each item in turn whether it is accepted.
pub open spec fn handed_out<T>(items: Seq<T>, accepted: bool, answers: Seq<bool>) -> Seq<T>
    decreases items.len(),
{
    match next_step(items, accepted) {
        Step::Next(item) => seq![item] + handed_out(
            items_left(items, accepted),
            answers[0],
            answers.skip(1),
        ),
        _ => Seq::empty(),
    }
}

/// Whether the steps end because every item was accepted.
pub open spec fn completes<T>(items: Seq<T>, accepted: bool, answers: Seq<bool>) -> bool
    decreases items.len(),
{
    match next_step(items, accepted) {
        Step::Next(_) => completes(items_left(items, accepted), answers[0], answers.skip(1)),
        Step::Failed => false,
        Step::Done => true,
    }
}

/// Hands out the next item, where `accepted` says whether the item before was
/// accepted or there was none.
pub fn advance<T>(items: &mut VecDeque<T>, accepted: bool) -> (step: Step<T>)
    ensures
        step == next_step(old(items)@, accepted),
        final(items)@ == items_left(old(items)@, accepted),
{
    if !accepted {
        items.clear();
        return Step::Failed;
    }
    match items.pop_front() {
        Some(item) => Step::Next(item),
        None => Step::Done,
    }
}

} // verus!
