//! The fixed play area and the ball's response to its four walls.

use crate::units::in_range;
use vstd::prelude::*;

verus! {

/// Width of the arena: 800 whole units.
pub const ARENA_WIDTH: i64 = 8_000_000;

/// Height of the arena: 600 whole units.
pub const ARENA_HEIGHT: i64 = 6_000_000;

/// Whether a ball at `position` along one axis reaches either wall of that
/// axis, the near wall at zero or the far wall at `extent`.
pub open spec fn touches_wall(position: int, radius: int, extent: int) -> bool {
    position - radius <= 0 || position + radius >= extent
}

/// The velocity along one axis after the walls of that axis had their say:
/// reversed where the ball reaches one of them, else unchanged.
pub open spec fn wall_response(position: int, radius: int, velocity: int, extent: int) -> int {
    if touches_wall(position, radius, extent) {
        -velocity
    } else {
        velocity
    }
}

/// The ball's velocity after the wall test.
///
/// Reaching the left or the right wall reverses the horizontal velocity and
/// nothing else; reaching the top or the bottom wall reverses the vertical
/// velocity and nothing else. The two tests are independent, so a ball in a
/// corner has both reversed. The position is left as it is.
pub fn bounce_off_walls(x: i64, y: i64, radius: i64, velocity_x: i64, velocity_y: i64) -> (v: (
    i64,
    i64,
))
    requires
        in_range(x as int),
        in_range(y as int),
        in_range(radius as int),
        in_range(velocity_x as int),
        in_range(velocity_y as int),
    ensures
        v.0 == (if touches_wall(x as int, radius as int, ARENA_WIDTH as int) {
            -velocity_x
        } else {
            velocity_x as int
        }),
        v.1 == (if touches_wall(y as int, radius as int, ARENA_HEIGHT as int) {
            -velocity_y
        } else {
            velocity_y as int
        }),
{
    let mut vx: i64 = velocity_x;
    let mut vy: i64 = velocity_y;
    if x - radius <= 0 || x + radius >= ARENA_WIDTH {
        vx = -vx;
    }
    if y - radius <= 0 || y + radius >= ARENA_HEIGHT {
        vy = -vy;
    }
    (vx, vy)
}

} // verus!
