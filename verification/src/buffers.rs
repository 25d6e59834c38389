//! Buffer roles for the ping-pong double-buffering scheme.
//!
//! Each double-buffered data structure owns two physical storage regions,
//! the forward and the reverse buffer.  For a given tick one of them is the
//! read ("current") region and the other the write ("next") region; the
//! assignment flips with the tick's parity and is a pure function of the
//! tick, so every component derives the same roles from one tick value.

use vstd::prelude::*;

verus! {

/// One of the two physical storage regions of a double-buffered structure.
#[derive(Clone, Copy, PartialEq, Eq, Structural, Debug)]
pub enum Role {
    Forward,
    Reverse,
}

/// The role read at a given tick: forward on even ticks, reverse on odd.
pub open spec fn current_role_spec(tick: u64) -> Role {
    if tick % 2 == 0 {
        Role::Forward
    } else {
        Role::Reverse
    }
}

/// The role written at a given tick: the one not read.
pub open spec fn next_role_spec(tick: u64) -> Role {
    if tick % 2 == 0 {
        Role::Reverse
    } else {
        Role::Forward
    }
}

/// The buffer role that kernels read during `tick`.
pub fn current_role(tick: u64) -> (r: Role)
    ensures
        r == current_role_spec(tick),
{
    if tick % 2 == 0 {
        Role::Forward
    } else {
        Role::Reverse
    }
}

/// The buffer role that kernels write during `tick`.
pub fn next_role(tick: u64) -> (r: Role)
    ensures
        r == next_role_spec(tick),
{
    if tick % 2 == 0 {
        Role::Reverse
    } else {
        Role::Forward
    }
}

/// Buffer-role disjointness: at every tick, the role a kernel reads is never
/// the role any kernel writes.  This is the race-avoidance invariant of the
/// whole pipeline.
pub proof fn lemma_role_disjoint(tick: u64)
    ensures
        current_role_spec(tick) != next_role_spec(tick),
{
}

/// The swap rule: the role written at one tick is exactly the role read at
/// the next tick, so a kernel only ever reads what the previous tick
/// finalized.
pub proof fn lemma_role_swap(tick: u64)
    requires
        tick < u64::MAX,
    ensures
        next_role_spec(tick) == current_role_spec((tick + 1) as u64),
        current_role_spec(tick) == next_role_spec((tick + 1) as u64),
{
}

} // verus!
