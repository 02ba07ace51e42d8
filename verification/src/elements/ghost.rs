//! Specter element: all cells of a group move together as a cohesive shape.
//!
//! Movement is handled as a bulk operation in `Grid::move_ghosts()`,
//! not per-cell, so the entire shape translates uniformly.
//! The per-cell `update_ghost` is a no-op.

use vstd::prelude::*;
use crate::api::SandApi;

verus! {

/// How many ticks to hold the same direction before picking a new one.
pub const DIRECTION_HOLD_TICKS: u8 = 10;

/// Only move on every Nth tick so the group drifts lazily.
pub const MOVE_DIVISOR: u8 = 6;

/// `rb` of a specter cell that is plain body.
pub const RB_BODY: u8 = 0;

/// `rb` of a specter cell inside an eye zone that currently shows body colour.
pub const RB_EYE_ZONE: u8 = 1;

/// `rb` of a specter cell that currently shows as part of an eye.
pub const RB_EYE: u8 = 2;

/// The eight compass directions, clockwise from up: up, up-right, right,
/// down-right, down, down-left, left, up-left. Rows grow downwards.
pub open spec fn compass(idx: int) -> (int, int) {
    if idx == 0 {
        (0, -1)
    } else if idx == 1 {
        (1, -1)
    } else if idx == 2 {
        (1, 0)
    } else if idx == 3 {
        (1, 1)
    } else if idx == 4 {
        (0, 1)
    } else if idx == 5 {
        (-1, 1)
    } else if idx == 6 {
        (-1, 0)
    } else {
        (-1, -1)
    }
}

/// One step in one of the eight compass directions.
pub open spec fn is_unit_step(dx: int, dy: int) -> bool {
    -1 <= dx <= 1 && -1 <= dy <= 1 && (dx != 0 || dy != 0)
}

/// The hash that picks a group's direction: the epoch (the generation
/// divided by the hold length) and the group id, mixed with two odd
/// multipliers in 32-bit wrapping arithmetic.
pub open spec fn direction_hash(generation: u8, group_id: u8) -> u32 {
    ((generation / DIRECTION_HOLD_TICKS) as u32).wrapping_mul(2654435761u32).wrapping_add(
        group_id as u32,
    ).wrapping_mul(2246822519u32)
}

/// The compass index that the hash picks: its upper half, modulo eight.
pub open spec fn direction_index(generation: u8, group_id: u8) -> int {
    ((direction_hash(generation, group_id) >> 16u32) % 8) as int
}

/// The direction in which the group moves at this generation.
pub open spec fn group_direction(generation: u8, group_id: u8) -> (int, int) {
    compass(direction_index(generation, group_id))
}

/// The direction at a compass index.
pub fn direction_at(idx: usize) -> (d: (i32, i32))
    requires
        idx < 8,
    ensures
        (d.0 as int, d.1 as int) == compass(idx as int),
        is_unit_step(d.0 as int, d.1 as int),
{
    if idx == 0 {
        (0, -1)
    } else if idx == 1 {
        (1, -1)
    } else if idx == 2 {
        (1, 0)
    } else if idx == 3 {
        (1, 1)
    } else if idx == 4 {
        (0, 1)
    } else if idx == 5 {
        (-1, 1)
    } else if idx == 6 {
        (-1, 0)
    } else {
        (-1, -1)
    }
}

/// Derive a direction from the generation counter and group ID.
/// Different groups get different directions at the same tick.
pub fn shared_direction(generation: u8, group_id: u8) -> (d: (i32, i32))
    ensures
        (d.0 as int, d.1 as int) == group_direction(generation, group_id),
        is_unit_step(d.0 as int, d.1 as int),
{
    let epoch: u8 = generation / DIRECTION_HOLD_TICKS;
    // Mix group_id into the hash so each group diverges.
    let h: u32 = (epoch as u32).wrapping_mul(2654435761).wrapping_add(group_id as u32).wrapping_mul(
        2246822519,
    );
    let idx: u32 = (h >> 16) % 8;
    direction_at(idx as usize)
}

/// A group keeps its direction for as long as the epoch lasts: two
/// generations in the same epoch give the same direction.
pub proof fn lemma_direction_held(a: u8, b: u8, group_id: u8)
    requires
        a / DIRECTION_HOLD_TICKS == b / DIRECTION_HOLD_TICKS,
    ensures
        group_direction(a, group_id) == group_direction(b, group_id),
{
}

/// Per-cell update is a no-op — bulk movement is in Grid::move_ghosts.
pub fn update_ghost(api: &mut SandApi)
    ensures
        final(api).bound_as(old(api)),
        *final(final(api).grid) == *final(old(api).grid),
        *final(api).grid == *old(api).grid,
{
}

} // verus!
