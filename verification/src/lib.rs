//! Core of a turn-based dungeon crawl: a tile map, a data-oriented entity
//! store, and the turn-state machine that turns raw input into movement
//! intents, resolves them against the map, and settles collisions.
pub mod camera;
pub mod collisions;
pub mod components;
pub mod geometry;
pub mod map;
pub mod movement;
pub mod player;
pub mod player_input;
pub mod random_move;
pub mod state;
pub mod turn_state;
pub mod world;
