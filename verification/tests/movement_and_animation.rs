use trawnik::enemy::{animate_enemy, random_unit_vector, spawn_enemy, unit_vector_for_quarter, EnemyAnimation, ENEMY_SPEED};
use trawnik::movement::{atlas_index, direction_from_velocity, FacingDirection, Velocity};
use trawnik::player::{
    animate_player, player_movement_controls, spawn_player, MovementKeys, PlayerAnimation, PlayerState, PLAYER_SPEED,
};

fn v(x: i32, y: i32) -> Velocity {
    Velocity { x, y, z: 0 }
}

#[test]
fn direction_from_velocity_prefers_horizontal() {
    assert_eq!(direction_from_velocity(v(25, 0)), FacingDirection::Right);
    assert_eq!(direction_from_velocity(v(-10, 0)), FacingDirection::Left);
    assert_eq!(direction_from_velocity(v(0, 25)), FacingDirection::Up);
    assert_eq!(direction_from_velocity(v(0, -25)), FacingDirection::Down);
    assert_eq!(direction_from_velocity(v(0, 0)), FacingDirection::Down);
    assert_eq!(direction_from_velocity(v(3, 7)), FacingDirection::Right);
    assert_eq!(direction_from_velocity(v(-3, 7)), FacingDirection::Left);
}

#[test]
fn atlas_index_rows_and_frames() {
    assert_eq!(atlas_index(&FacingDirection::Up, 0), 0);
    assert_eq!(atlas_index(&FacingDirection::Down, 1), 5);
    assert_eq!(atlas_index(&FacingDirection::Left, 3), 11);
    assert_eq!(atlas_index(&FacingDirection::Right, 2), 14);
}

#[test]
fn movement_keys_priority_w_s_a_d() {
    let mut vel = Velocity::zero();
    let mut dir = FacingDirection::Down;
    let mut state = PlayerState::Idle;
    player_movement_controls(MovementKeys { w: true, s: true, a: true, d: true }, &mut vel, &mut dir, &mut state);
    assert_eq!((vel, dir, state), (v(0, PLAYER_SPEED), FacingDirection::Up, PlayerState::Moving));
    player_movement_controls(MovementKeys { w: false, s: true, a: true, d: false }, &mut vel, &mut dir, &mut state);
    assert_eq!((vel, dir, state), (v(0, -25), FacingDirection::Down, PlayerState::Moving));
    player_movement_controls(MovementKeys { w: false, s: false, a: true, d: true }, &mut vel, &mut dir, &mut state);
    assert_eq!((vel, dir, state), (v(-25, 0), FacingDirection::Left, PlayerState::Moving));
    player_movement_controls(MovementKeys { w: false, s: false, a: false, d: true }, &mut vel, &mut dir, &mut state);
    assert_eq!((vel, dir, state), (v(25, 0), FacingDirection::Right, PlayerState::Moving));
}

#[test]
fn releasing_keys_stops_but_keeps_facing() {
    let mut vel = v(-25, 0);
    let mut dir = FacingDirection::Left;
    let mut state = PlayerState::Moving;
    player_movement_controls(MovementKeys { w: false, s: false, a: false, d: false }, &mut vel, &mut dir, &mut state);
    assert_eq!((vel, dir, state), (v(0, 0), FacingDirection::Left, PlayerState::Idle));
}

#[test]
fn walking_velocity_faces_the_chosen_direction() {
    for keys in [
        MovementKeys { w: true, s: false, a: false, d: false },
        MovementKeys { w: false, s: true, a: false, d: false },
        MovementKeys { w: false, s: false, a: true, d: false },
        MovementKeys { w: false, s: false, a: false, d: true },
    ] {
        let mut vel = Velocity::zero();
        let mut dir = FacingDirection::Up;
        let mut state = PlayerState::Idle;
        player_movement_controls(keys, &mut vel, &mut dir, &mut state);
        assert_eq!(direction_from_velocity(vel), dir);
    }
}

#[test]
fn player_animation_cycles_and_resets_when_idle() {
    let mut anim = PlayerAnimation::new();
    assert_eq!(anim.frame, 0);
    assert_eq!(animate_player(&mut anim, FacingDirection::Right, PlayerState::Moving), 13);
    assert_eq!(animate_player(&mut anim, FacingDirection::Right, PlayerState::Moving), 14);
    assert_eq!(animate_player(&mut anim, FacingDirection::Right, PlayerState::Moving), 15);
    assert_eq!(animate_player(&mut anim, FacingDirection::Right, PlayerState::Moving), 12);
    assert_eq!(animate_player(&mut anim, FacingDirection::Up, PlayerState::Moving), 1);
    assert_eq!(animate_player(&mut anim, FacingDirection::Up, PlayerState::Idle), 0);
    assert_eq!(anim.frame, 0);
    let mut odd = PlayerAnimation { frame: 7 };
    assert_eq!(animate_player(&mut odd, FacingDirection::Down, PlayerState::Idle), 8);
    assert_eq!(odd.frame, 4);
}

#[test]
fn player_spawns_idle_facing_down() {
    let spawn = spawn_player();
    assert_eq!(spawn.velocity, Velocity::zero());
    assert_eq!(spawn.direction, FacingDirection::Down);
    assert_eq!(spawn.state, PlayerState::Idle);
    assert_eq!(spawn.animation.frame, 0);
    assert_eq!(spawn.sheet_index, 3);
}

#[test]
fn enemy_animation_wraps_after_four_frames() {
    let mut anim = EnemyAnimation::new();
    let cells: Vec<usize> = (0..5).map(|_| animate_enemy(&mut anim, FacingDirection::Left)).collect();
    assert_eq!(cells, vec![9, 10, 11, 8, 9]);
}

#[test]
fn quarters_map_to_axis_unit_steps() {
    assert_eq!(unit_vector_for_quarter(0), v(1, 0));
    assert_eq!(unit_vector_for_quarter(1), v(0, -1));
    assert_eq!(unit_vector_for_quarter(2), v(-1, 0));
    assert_eq!(unit_vector_for_quarter(3), v(0, 1));
}

#[test]
fn random_unit_vector_draws_all_four_directions() {
    let mut seen = [false; 4];
    for _ in 0..400 {
        let u = random_unit_vector();
        let q = (0..4u32).position(|q| unit_vector_for_quarter(q) == u).expect("axis unit step");
        seen[q] = true;
    }
    assert_eq!(seen, [true; 4]);
}

#[test]
fn spawned_enemy_faces_where_it_runs() {
    for _ in 0..100 {
        let spawn = spawn_enemy();
        let speed = spawn.velocity.x.abs() + spawn.velocity.y.abs();
        assert_eq!(speed, ENEMY_SPEED);
        assert_eq!(spawn.velocity.z, 0);
        assert_eq!(direction_from_velocity(spawn.velocity), spawn.direction);
        assert_eq!(spawn.sheet_index, atlas_index(&spawn.direction, 0));
        assert_eq!(spawn.animation.frame, 0);
    }
}
