//! The player: keyboard controls, walking animation and the starting pose.

use vstd::prelude::*;
use crate::movement::{FacingDirection, Velocity, atlas_index, direction_from_velocity, facing_for, sheet_cell};

verus! {

/// Walking speed of the player in pixels per second.
pub const PLAYER_SPEED: i32 = 25;

/// Whether the player is walking.
#[derive(Debug, Clone, Copy, PartialEq, Eq, Structural)]
pub enum PlayerState {
    Idle,
    Moving,
}

/// Frame of the player's walking animation; the engine's repeating timer
/// (0.12 s) decides when it advances.
#[derive(Debug, Clone, Copy, PartialEq, Eq, Structural)]
pub struct PlayerAnimation {
    pub frame: usize,
}

impl PlayerAnimation {
    /// The animation starts at its first frame.
    pub fn new() -> (a: PlayerAnimation)
        ensures
            a.frame == 0,
    {
        PlayerAnimation { frame: 0 }
    }
}

/// Which of the movement keys are held: W, S, A, D.
#[derive(Debug, Clone, Copy, PartialEq, Eq, Structural)]
pub struct MovementKeys {
    pub w: bool,
    pub s: bool,
    pub a: bool,
    pub d: bool,
}

/// The direction the held keys ask for; W beats S beats A beats D.
pub open spec fn key_direction(keys: MovementKeys) -> Option<FacingDirection> {
    if keys.w {
        Some(FacingDirection::Up)
    } else if keys.s {
        Some(FacingDirection::Down)
    } else if keys.a {
        Some(FacingDirection::Left)
    } else if keys.d {
        Some(FacingDirection::Right)
    } else {
        None
    }
}

/// The player's velocity when walking in `direction`.
pub open spec fn walk_velocity(direction: FacingDirection) -> Velocity {
    match direction {
        FacingDirection::Up => Velocity { x: 0, y: PLAYER_SPEED, z: 0 },
        FacingDirection::Down => Velocity { x: 0, y: (-PLAYER_SPEED) as i32, z: 0 },
        FacingDirection::Left => Velocity { x: (-PLAYER_SPEED) as i32, y: 0, z: 0 },
        FacingDirection::Right => Velocity { x: PLAYER_SPEED, y: 0, z: 0 },
    }
}

/// Reads the movement keys: the first held key (W, S, A, D) sets the
/// direction and a walk along one axis; with no key held the player stops
/// and keeps facing the same way.
pub fn player_movement_controls(
    keys: MovementKeys,
    velocity: &mut Velocity,
    direction: &mut FacingDirection,
    state: &mut PlayerState,
)
    ensures
        match key_direction(keys) {
            Some(d) => {
                &&& *final(direction) == d
                &&& *final(velocity) == walk_velocity(d)
                &&& *final(state) == PlayerState::Moving
            },
            None => {
                &&& *final(direction) == *old(direction)
                &&& *final(velocity) == (Velocity { x: 0, y: 0, z: 0 })
                &&& *final(state) == PlayerState::Idle
            },
        },
{
    let mut movement_x: i32 = 0;
    let mut movement_y: i32 = 0;
    *state = PlayerState::Moving;
    if keys.w {
        movement_y = PLAYER_SPEED;
        *direction = FacingDirection::Up;
    } else if keys.s {
        movement_y = -PLAYER_SPEED;
        *direction = FacingDirection::Down;
    } else if keys.a {
        movement_x = -PLAYER_SPEED;
        *direction = FacingDirection::Left;
    } else if keys.d {
        movement_x = PLAYER_SPEED;
        *direction = FacingDirection::Right;
    } else {
        *state = PlayerState::Idle;
    }
    *velocity = Velocity { x: movement_x, y: movement_y, z: 0 };
}

/// The facing a walk gives back: the direction read off the player's
/// walking velocity is the direction the keys chose.
pub proof fn lemma_walk_faces_its_direction(d: FacingDirection)
    ensures
        facing_for(walk_velocity(d).x as int, walk_velocity(d).y as int) == d,
{
}

/// The next animation frame: walking cycles through the row's four frames,
/// standing still goes back to the row's first frame.
pub open spec fn next_player_frame(frame: int, state: PlayerState) -> int {
    if state == PlayerState::Idle {
        frame - frame % 4
    } else {
        (frame + 1) % 4
    }
}

/// Advances the walking animation by one tick of its timer and returns the
/// sprite-sheet cell to show.
pub fn animate_player(animation: &mut PlayerAnimation, direction: FacingDirection, state: PlayerState) -> (index: usize)
    requires
        state == PlayerState::Idle ==> old(animation).frame - old(animation).frame % 4 + 12 <= usize::MAX,
        state == PlayerState::Moving ==> old(animation).frame < usize::MAX,
    ensures
        final(animation).frame == next_player_frame(old(animation).frame as int, state),
        index == sheet_cell(direction, final(animation).frame as int),
        old(animation).frame < 4 ==> final(animation).frame < 4,
        old(animation).frame < 4 && state == PlayerState::Idle ==> final(animation).frame == 0,
{
    if state == PlayerState::Idle {
        animation.frame = animation.frame - animation.frame % 4;
    } else {
        animation.frame = (animation.frame + 1) % 4;
    }
    atlas_index(&direction, animation.frame)
}

/// Speed, facing, state and shown sprite-sheet cell of a freshly spawned
/// player.
#[derive(Debug, Clone, Copy, PartialEq, Eq, Structural)]
pub struct PlayerSpawn {
    pub velocity: Velocity,
    pub direction: FacingDirection,
    pub state: PlayerState,
    pub animation: PlayerAnimation,
    pub sheet_index: usize,
}

/// The player starts at rest, facing the way a resting velocity faces
/// (down), idle, at the first animation frame; the sheet shows cell 3
/// until the first animation tick.
pub fn spawn_player() -> (spawn: PlayerSpawn)
    ensures
        spawn.velocity == (Velocity { x: 0, y: 0, z: 0 }),
        spawn.direction == FacingDirection::Down,
        spawn.state == PlayerState::Idle,
        spawn.animation.frame == 0,
        spawn.sheet_index == 3,
{
    let velocity = Velocity::zero();
    let direction = direction_from_velocity(velocity);
    PlayerSpawn {
        velocity,
        direction,
        state: PlayerState::Idle,
        animation: PlayerAnimation::new(),
        sheet_index: 3,
    }
}

} // verus!
