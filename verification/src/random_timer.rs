//! The rule by which a random timer draws a new duration.
//!
//! A random timer is a timer whose duration is drawn at random between two bounds. It draws
//! a new duration when it is created, when it is reset, and after a tick in which a
//! repeating timer finished a round.
use vstd::prelude::*;

verus! {

/// Whether a timer stops after one round or starts over.
#[derive(Clone, Copy, PartialEq, Eq, Structural, Debug)]
pub enum TimerMode {
    Once,
    Repeating,
}

/// Whether a tick in which the timer did (`just_finished`) or did not finish a round makes
/// the timer draw a new duration.
pub fn rerolls_after_tick(just_finished: bool, mode: TimerMode) -> (r: bool)
    ensures
        r == (just_finished && mode == TimerMode::Repeating),
{
    just_finished && mode == TimerMode::Repeating
}

} // verus!
