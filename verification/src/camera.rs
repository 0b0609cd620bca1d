use vstd::prelude::*;

use crate::geometry::Point;

verus! {

/// Width of the camera viewport, in tiles.
pub const DISPLAY_WIDTH: i32 = 40;

/// Height of the camera viewport, in tiles.
pub const DISPLAY_HEIGHT: i32 = 25;

/// The viewport rectangle tracked for rendering.  It follows the player but
/// gates no game rule.
#[derive(Clone, Copy, Debug, PartialEq, Eq, Structural)]
pub struct Camera {
    pub left_x: i32,
    pub right_x: i32,
    pub top_y: i32,
    pub bottom_y: i32,
}

/// The viewport centered on `p`.
pub open spec fn camera_for(p: Point) -> Camera {
    Camera {
        left_x: (p.x - DISPLAY_WIDTH / 2) as i32,
        right_x: (p.x + DISPLAY_WIDTH / 2) as i32,
        top_y: (p.y - DISPLAY_HEIGHT / 2) as i32,
        bottom_y: (p.y + DISPLAY_HEIGHT / 2) as i32,
    }
}

/// A point far enough from the `i32` limits for the viewport offsets.
pub open spec fn camera_safe(p: Point) -> bool {
    &&& i32::MIN + DISPLAY_WIDTH <= p.x <= i32::MAX - DISPLAY_WIDTH
    &&& i32::MIN + DISPLAY_HEIGHT <= p.y <= i32::MAX - DISPLAY_HEIGHT
}

impl Camera {
    /// A viewport centered on the player's starting position.
    pub fn new(player_position: Point) -> (c: Camera)
        requires
            camera_safe(player_position),
        ensures
            c == camera_for(player_position),
    {
        Camera {
            left_x: player_position.x - DISPLAY_WIDTH / 2,
            right_x: player_position.x + DISPLAY_WIDTH / 2,
            top_y: player_position.y - DISPLAY_HEIGHT / 2,
            bottom_y: player_position.y + DISPLAY_HEIGHT / 2,
        }
    }

    /// Re-center the viewport on the player's new position.
    pub fn on_player_move(&mut self, player_position: Point)
        requires
            camera_safe(player_position),
        ensures
            *final(self) == camera_for(player_position),
    {
        self.left_x = player_position.x - DISPLAY_WIDTH / 2;
        self.right_x = player_position.x + DISPLAY_WIDTH / 2;
        self.top_y = player_position.y - DISPLAY_HEIGHT / 2;
        self.bottom_y = player_position.y + DISPLAY_HEIGHT / 2;
    }
}

} // verus!
