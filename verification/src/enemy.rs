//! Jaguars: their random heading, running animation, and what touching
//! the player does.

use vstd::prelude::*;
use crate::contact::{any_contact, any_set};
use crate::movement::{FacingDirection, Velocity, atlas_index, direction_from_velocity, facing_for, sheet_cell};
use crate::rng;
use crate::state::{GameResult, GameState, allowed_transition};

verus! {

/// Running speed of a jaguar in pixels per second.
pub const ENEMY_SPEED: i32 = 10;

/// Frame of a jaguar's running animation; the engine's repeating timer
/// (0.2 s) decides when it advances.
#[derive(Debug, Clone, Copy, PartialEq, Eq, Structural)]
pub struct EnemyAnimation {
    pub frame: usize,
}

impl EnemyAnimation {
    /// The animation starts at its first frame.
    pub fn new() -> (a: EnemyAnimation)
        ensures
            a.frame == 0,
    {
        EnemyAnimation { frame: 0 }
    }
}

/// Advances a jaguar's running animation by one tick of its timer and
/// returns the sprite-sheet cell to show.
pub fn animate_enemy(animation: &mut EnemyAnimation, direction: FacingDirection) -> (index: usize)
    requires
        old(animation).frame < usize::MAX,
    ensures
        final(animation).frame == (old(animation).frame + 1) % 4,
        index == sheet_cell(direction, final(animation).frame as int),
        index / 4 == crate::movement::sheet_row(direction),
{
    animation.frame = (animation.frame + 1) % 4;
    atlas_index(&direction, animation.frame)
}

/// The unit step for each quarter of a random draw: right, down, left, up.
pub open spec fn quarter_unit(quarter: int) -> Velocity {
    if quarter == 0 {
        Velocity { x: 1, y: 0, z: 0 }
    } else if quarter == 1 {
        Velocity { x: 0, y: (-1) as i32, z: 0 }
    } else if quarter == 2 {
        Velocity { x: (-1) as i32, y: 0, z: 0 }
    } else {
        Velocity { x: 0, y: 1, z: 0 }
    }
}

/// The unit step along an axis for a draw falling in `quarter` (0 to 3).
pub fn unit_vector_for_quarter(quarter: u32) -> (v: Velocity)
    requires
        quarter < 4,
    ensures
        v == quarter_unit(quarter as int),
{
    if quarter == 0 {
        Velocity { x: 1, y: 0, z: 0 }
    } else if quarter == 1 {
        Velocity { x: 0, y: -1, z: 0 }
    } else if quarter == 2 {
        Velocity { x: -1, y: 0, z: 0 }
    } else {
        Velocity { x: 0, y: 1, z: 0 }
    }
}

/// A unit step along a random one of the four directions, each equally likely.
pub fn random_unit_vector() -> (v: Velocity)
    ensures
        exists|q: int| 0 <= q < 4 && v == quarter_unit(q),
{
    let mut rng = rng::thread_rng();
    let quarter = rng::gen_range(&mut rng, 0, 4);
    unit_vector_for_quarter(quarter)
}

/// Heading of a new jaguar: its velocity, its facing and the sheet cell it
/// shows first.
#[derive(Debug, Clone, Copy, PartialEq, Eq, Structural)]
pub struct EnemySpawn {
    pub velocity: Velocity,
    pub direction: FacingDirection,
    pub sheet_index: usize,
    pub animation: EnemyAnimation,
}

/// The heading a jaguar spawned with unit step `unit` gets.
pub open spec fn enemy_heading(unit: Velocity, spawn: EnemySpawn) -> bool {
    &&& spawn.velocity.x == unit.x * ENEMY_SPEED
    &&& spawn.velocity.y == unit.y * ENEMY_SPEED
    &&& spawn.velocity.z == unit.z * ENEMY_SPEED
    &&& spawn.direction == facing_for(spawn.velocity.x as int, spawn.velocity.y as int)
    &&& spawn.sheet_index == sheet_cell(spawn.direction, 0)
    &&& spawn.animation.frame == 0
}

/// Gives a jaguar running along unit step `unit` its velocity, facing and
/// first sheet cell.
pub fn enemy_heading_for(unit: Velocity) -> (spawn: EnemySpawn)
    requires
        unit == quarter_unit(0) || unit == quarter_unit(1) || unit == quarter_unit(2) || unit == quarter_unit(3),
    ensures
        enemy_heading(unit, spawn),
{
    let velocity = Velocity { x: unit.x * ENEMY_SPEED, y: unit.y * ENEMY_SPEED, z: unit.z * ENEMY_SPEED };
    let direction = direction_from_velocity(velocity);
    let sheet_index = atlas_index(&direction, 0);
    EnemySpawn { velocity, direction, sheet_index, animation: EnemyAnimation::new() }
}

/// A new jaguar runs at its speed along a random axis direction, facing the
/// way it runs.
pub fn spawn_enemy() -> (spawn: EnemySpawn)
    ensures
        exists|q: int| 0 <= q < 4 && enemy_heading(quarter_unit(q), spawn),
{
    let unit = random_unit_vector();
    enemy_heading_for(unit)
}

/// Each quarter of the draw sends the jaguar one way and faces it that way:
/// right, down, left, up.
pub proof fn lemma_quarter_headings(q: int, spawn: EnemySpawn)
    requires
        0 <= q < 4,
        enemy_heading(quarter_unit(q), spawn),
    ensures
        spawn.direction == (if q == 0 {
            FacingDirection::Right
        } else if q == 1 {
            FacingDirection::Down
        } else if q == 2 {
            FacingDirection::Left
        } else {
            FacingDirection::Up
        }),
{
}

/// Whether some jaguar touches the player: `contacts[i]` tells, for each
/// entity jaguar `i` collides with, whether it is the player.
pub open spec fn player_caught(contacts: Seq<Vec<bool>>) -> bool {
    exists|i: int| 0 <= i < contacts.len() && any_set(#[trigger] contacts[i]@)
}

/// The player is caught exactly when some jaguar, whichever its place in the
/// list, touches the player.
pub proof fn lemma_player_caught(contacts: Seq<Vec<bool>>)
    ensures
        player_caught(contacts) <==> exists|i: int, j: int|
            0 <= i < contacts.len() && 0 <= j < contacts[i]@.len() && #[trigger] contacts[i]@[j],
{
    if player_caught(contacts) {
        let i = choose|i: int| 0 <= i < contacts.len() && any_set(#[trigger] contacts[i]@);
        let j = choose|j: int| 0 <= j < contacts[i]@.len() && #[trigger] contacts[i]@[j];
        assert(contacts[i]@[j]);
    }
    if exists|i: int, j: int| 0 <= i < contacts.len() && 0 <= j < contacts[i]@.len() && #[trigger] contacts[i]@[j] {
        let (i, j) = choose|i: int, j: int|
            0 <= i < contacts.len() && 0 <= j < contacts[i]@.len() && #[trigger] contacts[i]@[j];
        assert(any_set(contacts[i]@));
    }
}

/// A jaguar touching the player ends the game as a loss, unless the player
/// is immortal. Returns the state to move to; on a loss the result records
/// a loss with the default messages, otherwise it is left as it was.
pub fn handle_enemy_collision(contacts: &Vec<Vec<bool>>, immortal: bool, result: &mut GameResult) -> (next: Option<GameState>)
    ensures
        next == (if !immortal && player_caught(contacts@) { Some(GameState::GameOver) } else { None }),
        next is Some <==> (!immortal && exists|i: int, j: int|
            0 <= i < contacts@.len() && 0 <= j < contacts@[i]@.len() && #[trigger] contacts@[i]@[j]),
        next is Some ==> next == Some(GameState::GameOver),
        next matches Some(s) ==> allowed_transition(GameState::Playing, s),
        next is Some ==> !final(result).won && final(result).title@.len() == 0
            && final(result).subtitle@.len() == 0,
        next is None ==> final(result).won == old(result).won && final(result).title@ == old(result).title@
            && final(result).subtitle@ == old(result).subtitle@,
{
    let mut i: usize = 0;
    while i < contacts.len()
        invariant
            i <= contacts@.len(),
            forall|j: int| 0 <= j < i ==> !any_set(#[trigger] contacts@[j]@),
            *result == *old(result),
        decreases contacts@.len() - i,
    {
        if any_contact(&contacts[i]) {
            if immortal {
                proof {
                    assert(player_caught(contacts@));
                }
                return None;
            }
            result.set_outcome(false);
            proof {
                let j = choose|j: int| 0 <= j < contacts@[i as int]@.len() && #[trigger] contacts@[i as int]@[j];
                assert(contacts@[i as int]@[j]);
            }
            return Some(GameState::GameOver);
        }
        i = i + 1;
    }
    proof {
        assert forall|a: int, b: int| 0 <= a < contacts@.len() && 0 <= b < contacts@[a]@.len() implies !(
        #[trigger] contacts@[a]@[b]) by {
            assert(!any_set(contacts@[a]@));
        }
    }
    None
}

} // verus!
