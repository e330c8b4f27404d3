use vstd::prelude::*;

verus! {

/// The direction a character faces; it selects a row of its 4x4 sprite sheet.
#[derive(Debug, Clone, Copy, PartialEq, Eq, Structural)]
pub enum FacingDirection {
    Up,
    Down,
    Left,
    Right,
}

/// Velocity of a moving entity in whole pixels per second.
///
/// Every velocity the game assigns is a whole number (the player walks at
/// 25 px/s along one axis, jaguars run at 10 px/s, everything else rests).
#[derive(Debug, Clone, Copy, PartialEq, Eq, Structural)]
pub struct Velocity {
    pub x: i32,
    pub y: i32,
    pub z: i32,
}

impl Velocity {
    /// The velocity of a resting entity.
    pub fn zero() -> (v: Velocity)
        ensures
            v == (Velocity { x: 0, y: 0, z: 0 }),
    {
        Velocity { x: 0, y: 0, z: 0 }
    }
}

/// Facing chosen from a velocity: horizontal motion wins, then upward motion;
/// anything else (moving down or resting) faces down.
pub open spec fn facing_for(x: int, y: int) -> FacingDirection {
    if x > 0 {
        FacingDirection::Right
    } else if x < 0 {
        FacingDirection::Left
    } else if y > 0 {
        FacingDirection::Up
    } else {
        FacingDirection::Down
    }
}

/// The row of the sprite sheet that shows a direction.
pub open spec fn sheet_row(direction: FacingDirection) -> nat {
    match direction {
        FacingDirection::Up => 0,
        FacingDirection::Down => 1,
        FacingDirection::Left => 2,
        FacingDirection::Right => 3,
    }
}

/// Index of a cell in a sprite sheet with four frames per row.
pub open spec fn sheet_cell(direction: FacingDirection, frame: int) -> int {
    sheet_row(direction) * 4 + frame
}

/// Picks the facing direction that matches a velocity.
pub fn direction_from_velocity(velocity: Velocity) -> (direction: FacingDirection)
    ensures
        direction == facing_for(velocity.x as int, velocity.y as int),
{
    if velocity.x > 0 {
        FacingDirection::Right
    } else if velocity.x < 0 {
        FacingDirection::Left
    } else if velocity.y > 0 {
        FacingDirection::Up
    } else {
        FacingDirection::Down
    }
}

/// Sprite-sheet index of animation `frame` for `direction`.
pub fn atlas_index(direction: &FacingDirection, frame: usize) -> (index: usize)
    requires
        frame + 12 <= usize::MAX,
    ensures
        index == sheet_cell(*direction, frame as int),
{
    let row: usize = match direction {
        FacingDirection::Up => 0,
        FacingDirection::Down => 1,
        FacingDirection::Left => 2,
        FacingDirection::Right => 3,
    };
    row * 4 + frame
}

/// A frame below four names a cell of the 4x4 sheet in the direction's own
/// row, and different (direction, frame) pairs name different cells.
pub proof fn lemma_sheet_cell_in_row(d1: FacingDirection, f1: int, d2: FacingDirection, f2: int)
    requires
        0 <= f1 < 4,
        0 <= f2 < 4,
    ensures
        0 <= sheet_cell(d1, f1) < 16,
        sheet_cell(d1, f1) / 4 == sheet_row(d1),
        sheet_cell(d1, f1) % 4 == f1,
        sheet_cell(d1, f1) == sheet_cell(d2, f2) <==> (d1 == d2 && f1 == f2),
{
}

} // verus!
