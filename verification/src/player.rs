use vstd::prelude::*;

use crate::camera::{Camera, camera_for};
use crate::components::{BLACK, ColorPair, InputKey, PLAYER_GLYPH, WHITE, key_delta, spec_key_delta};
use crate::geometry::{Point, point_add, pos_step_safe, spec_point_add};
use crate::map::GameMap;

verus! {

/// What one draw call needs: a screen cell relative to the camera, a glyph
/// and its colors.
#[derive(Clone, Copy, Debug, PartialEq, Eq, Structural)]
pub struct ScreenGlyph {
    pub x: i32,
    pub y: i32,
    pub glyph: u16,
    pub color: ColorPair,
}

/// A self-contained player holding its own grid position, for a driver that
/// moves it directly from key input instead of through the intent pipeline.
pub struct Player {
    pub position: Point,
}

impl Player {
    pub fn new(position: Point) -> (p: Player)
        ensures
            p.position == position,
    {
        Player { position }
    }

    /// Apply one tick of input: translate the key through the direction
    /// table, and commit the step only when it is a real step and the map
    /// admits the destination; a committed step re-centers the camera.  A
    /// missing key or one whose table entry is the zero step is a complete
    /// no-op: the position stays and no camera notification fires.
    pub fn update(&mut self, key: Option<InputKey>, map: &GameMap, camera: &mut Camera)
        requires
            map.wf(),
            pos_step_safe(old(self).position),
        ensures
            match key {
                None => final(self).position == old(self).position && *final(camera) == *old(
                    camera,
                ),
                Some(k) => ({
                    let delta = spec_key_delta(k);
                    let dest = spec_point_add(old(self).position, delta);
                    if delta == (Point { x: 0, y: 0 }) {
                        final(self).position == old(self).position && *final(camera) == *old(
                            camera,
                        )
                    } else if map.spec_can_enter(dest) {
                        final(self).position == dest && *final(camera) == camera_for(dest)
                    } else {
                        final(self).position == old(self).position && *final(camera) == *old(
                            camera,
                        )
                    }
                }),
            },
    {
        if let Some(k) = key {
            let delta = key_delta(k);
            if delta.x != 0 || delta.y != 0 {
                assert(-1 <= delta.x <= 1 && -1 <= delta.y <= 1);
                let new_position = point_add(self.position, delta);
                if map.can_enter_tile(new_position) {
                    self.position = new_position;
                    camera.on_player_move(new_position);
                }
            }
        }
    }

    /// Where and how to draw the player: its cell relative to the camera's
    /// corner, the player glyph, white on black.
    pub fn render(&self, camera: &Camera) -> (g: ScreenGlyph)
        requires
            i32::MIN <= self.position.x - camera.left_x <= i32::MAX,
            i32::MIN <= self.position.y - camera.top_y <= i32::MAX,
        ensures
            g.x == self.position.x - camera.left_x,
            g.y == self.position.y - camera.top_y,
            g.glyph == PLAYER_GLYPH,
            g.color == (ColorPair { fg: WHITE, bg: BLACK }),
    {
        ScreenGlyph {
            x: self.position.x - camera.left_x,
            y: self.position.y - camera.top_y,
            glyph: PLAYER_GLYPH,
            color: ColorPair { fg: WHITE, bg: BLACK },
        }
    }
}

} // verus!
