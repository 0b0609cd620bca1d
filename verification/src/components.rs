use vstd::prelude::*;

use crate::geometry::Point;

verus! {

/// White in packed `0xRRGGBB` form.
pub const WHITE: u32 = 0xFFFFFF;

/// Black in packed `0xRRGGBB` form.
pub const BLACK: u32 = 0x000000;

/// Code-page-437 glyph of the player.
pub const PLAYER_GLYPH: u16 = 64;

/// Code-page-437 glyph of a spawned monster.
pub const MONSTER_GLYPH: u16 = 103;

/// An opaque stable identifier: a key into the entity store.
#[derive(Clone, Copy, Debug, PartialEq, Eq, Structural)]
pub struct Entity {
    pub id: u64,
}

/// Foreground and background colors, each packed `0xRRGGBB`.
#[derive(Clone, Copy, Debug, PartialEq, Eq, Structural)]
pub struct ColorPair {
    pub fg: u32,
    pub bg: u32,
}

/// What to draw for an entity: a glyph and its color pair.  Read by
/// rendering, never mutated by the core.
#[derive(Clone, Copy, Debug, PartialEq, Eq, Structural)]
pub struct Render {
    pub color: ColorPair,
    pub glyph: u16,
}

/// Tag component denoting the player; exactly one entity carries it.
#[derive(Clone, Copy, Debug, PartialEq, Eq, Structural)]
pub struct Player;

/// Tag component for enemies.
#[derive(Clone, Copy, Debug, PartialEq, Eq, Structural)]
pub struct Enemy;

/// Tag component marking an entity whose movement is AI-driven.
#[derive(Clone, Copy, Debug, PartialEq, Eq, Structural)]
pub struct MovingRandomly;

/// A movement intent: a queued, not-yet-applied request to move `entity` to
/// `destination`.  Created by an intent-producing pass and consumed exactly
/// once by movement resolution.
#[derive(Clone, Copy, Debug, PartialEq, Eq, Structural)]
pub struct WantsToMove {
    pub entity: Entity,
    pub destination: Point,
}

/// The key pressed this tick, reduced to what the movement rules read.
#[derive(Clone, Copy, Debug, PartialEq, Eq, Structural)]
pub enum InputKey {
    A,
    D,
    W,
    S,
    Other,
}

/// The fixed direction table: A and D move along x, W and S along y, and any
/// other key stands still.
pub open spec fn spec_key_delta(k: InputKey) -> Point {
    match k {
        InputKey::A => Point { x: -1i32, y: 0 },
        InputKey::D => Point { x: 1, y: 0 },
        InputKey::W => Point { x: 0, y: -1i32 },
        InputKey::S => Point { x: 0, y: 1 },
        InputKey::Other => Point { x: 0, y: 0 },
    }
}

/// Direction table lookup for a pressed key.
pub fn key_delta(k: InputKey) -> (d: Point)
    ensures
        d == spec_key_delta(k),
{
    match k {
        InputKey::A => Point { x: -1, y: 0 },
        InputKey::D => Point { x: 1, y: 0 },
        InputKey::W => Point { x: 0, y: -1 },
        InputKey::S => Point { x: 0, y: 1 },
        InputKey::Other => Point { x: 0, y: 0 },
    }
}

} // verus!
