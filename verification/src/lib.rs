//! Game rules of a top-down lawn-trampling game: movement and sprite-sheet
//! animation, the coin wallet and the club bouncer, the map layout, the
//! boss quiz battle and the game's state flow.

pub mod movement;
pub(crate) mod rng;
pub mod state;
pub mod boss;
pub mod text;
pub mod contact;
pub mod coin;
pub mod club;
pub mod player;
pub mod enemy;
pub mod collectable;
pub mod map;
