//! The paddle: a rectangle that patrols the arena from edge to edge and
//! deflects the ball.

use crate::arena::ARENA_WIDTH;
use crate::units::{div_toward_zero, in_range, is_in_range};
use vstd::arithmetic::div_mod::{lemma_fundamental_div_mod, lemma_mod_multiples_vanish};
use vstd::prelude::*;

verus! {

/// Distance the paddle travels per tick: 5 whole units.
pub const PADDLE_SPEED: i64 = 50_000;

/// The side toward which the paddle travels.
#[derive(Clone, Copy, Debug, PartialEq, Eq, Structural)]
pub enum Direction {
    Left,
    Right,
}

impl Direction {
    /// `-1` for left and `+1` for right.
    pub open spec fn sign(self) -> int {
        match self {
            Direction::Left => -1,
            Direction::Right => 1,
        }
    }

    /// The other direction.
    pub open spec fn reversed(self) -> Direction {
        match self {
            Direction::Left => Direction::Right,
            Direction::Right => Direction::Left,
        }
    }

    /// The other direction.
    pub fn reverse(self) -> (d: Direction)
        ensures
            d == self.reversed(),
    {
        match self {
            Direction::Left => Direction::Right,
            Direction::Right => Direction::Left,
        }
    }
}

/// The paddle: its left edge `x`, its top edge `y`, its size, the distance it
/// travels per tick and the side it travels toward.
#[derive(Clone, Copy, Debug, PartialEq, Eq, Structural)]
pub struct Paddle {
    pub x: i64,
    pub y: i64,
    pub width: i64,
    pub height: i64,
    pub speed: i64,
    pub direction: Direction,
}

/// A paddle over the mathematical integers.
pub struct PaddleView {
    pub x: int,
    pub y: int,
    pub width: int,
    pub height: int,
    pub speed: int,
    pub direction: Direction,
}

impl View for Paddle {
    type V = PaddleView;

    open spec fn view(&self) -> PaddleView {
        PaddleView {
            x: self.x as int,
            y: self.y as int,
            width: self.width as int,
            height: self.height as int,
            speed: self.speed as int,
            direction: self.direction,
        }
    }
}

impl PaddleView {
    /// Whether position, size and speed are all within the range of
    /// quantities.
    pub open spec fn in_range(self) -> bool {
        &&& in_range(self.x)
        &&& in_range(self.y)
        &&& in_range(self.width)
        &&& in_range(self.height)
        &&& in_range(self.speed)
    }

    /// Whether the paddle has a size and moves: its width and height are not
    /// negative and its speed is positive.
    pub open spec fn well_formed(self) -> bool {
        self.width >= 0 && self.height >= 0 && self.speed > 0
    }

    /// The paddle one tick later. It advances by its speed in its direction;
    /// where its left edge is then at or beyond the left wall, or its right
    /// edge at or beyond the right wall, it turns round for the next tick. The
    /// position is not corrected.
    pub open spec fn moved(self) -> PaddleView {
        let x = self.x + self.speed * self.direction.sign();
        let turns = x <= 0 || x + self.width >= ARENA_WIDTH;
        PaddleView {
            x,
            direction: if turns {
                self.direction.reversed()
            } else {
                self.direction
            },
            ..self
        }
    }

    /// The paddle `ticks` ticks later.
    pub open spec fn after(self, ticks: nat) -> PaddleView
        decreases ticks,
    {
        if ticks == 0 {
            self
        } else {
            self.after((ticks - 1) as nat).moved()
        }
    }

    /// The rightmost position of the left edge: the arena's width less the
    /// paddle's.
    pub open spec fn limit(self) -> int {
        ARENA_WIDTH - self.width
    }

    /// A paddle that patrols in step with the arena: it lies between the
    /// walls, the walls are a whole number of steps away, and at a wall it
    /// heads back into the arena.
    pub open spec fn on_track(self) -> bool {
        &&& self.well_formed()
        &&& self.limit() > 0
        &&& 0 <= self.x <= self.limit()
        &&& self.x % self.speed == 0
        &&& self.limit() % self.speed == 0
        &&& (self.x == 0 ==> self.direction == Direction::Right)
        &&& (self.x == self.limit() ==> self.direction == Direction::Left)
    }

    /// A paddle that patrols out of step with the arena: it is less than one
    /// step beyond either wall, and at or beyond a wall it heads back into the
    /// arena.
    pub open spec fn near_track(self) -> bool {
        &&& self.well_formed()
        &&& self.limit() > 0
        &&& -self.speed < self.x < self.limit() + self.speed
        &&& (self.x <= 0 ==> self.direction == Direction::Right)
        &&& (self.x >= self.limit() ==> self.direction == Direction::Left)
    }

    /// Whether the paddle catches a ball at `(ball_x, ball_y)`: the ball's
    /// lower edge is at or below the paddle's top edge and its center is
    /// within the paddle's horizontal span.
    pub open spec fn catches(self, ball_x: int, ball_y: int, radius: int) -> bool {
        ball_y + radius >= self.y && self.x <= ball_x <= self.x + self.width
    }

    /// The horizontal velocity that a catch adds: one twentieth of the
    /// distance from the paddle's center to the ball's, rounded toward zero to
    /// a whole number of units. The distance is taken doubled, so that half a
    /// unit in the paddle's center is not lost.
    pub open spec fn deflection(self, ball_x: int) -> int {
        div_toward_zero(2 * ball_x - 2 * self.x - self.width, 40)
    }

    /// The ball's velocity after the paddle test: a catch reverses the
    /// vertical velocity and adds the deflection to the horizontal one.
    pub open spec fn response(
        self,
        ball_x: int,
        ball_y: int,
        radius: int,
        velocity_x: int,
        velocity_y: int,
    ) -> (int, int) {
        if self.catches(ball_x, ball_y, radius) {
            (velocity_x + self.deflection(ball_x), -velocity_y)
        } else {
            (velocity_x, velocity_y)
        }
    }
}

/// One tick keeps a paddle on its track, so that its left edge stays within
/// `0 ..= limit`, and it turns round exactly when it arrives at a wall.
pub proof fn lemma_moved_stays_on_track(p: PaddleView)
    requires
        p.on_track(),
    ensures
        p.moved().on_track(),
        0 <= p.moved().x <= p.limit(),
        p.moved().direction != p.direction <==> (p.moved().x == 0 || p.moved().x == p.limit()),
{
    let s = p.speed;
    let a = p.x / s;
    let b = p.limit() / s;
    lemma_fundamental_div_mod(p.x, s);
    lemma_fundamental_div_mod(p.limit(), s);
    assert(p.x == s * a);
    assert(p.limit() == s * b);
    match p.direction {
        Direction::Right => {
            assert(a < b) by (nonlinear_arith)
                requires
                    s > 0,
                    s * a < s * b,
            ;
            assert(s * a + s <= s * b) by (nonlinear_arith)
                requires
                    s > 0,
                    a + 1 <= b,
            ;
            lemma_mod_multiples_vanish(1, p.x, s);
        },
        Direction::Left => {
            assert(a >= 1) by (nonlinear_arith)
                requires
                    s > 0,
                    s * a > 0,
            ;
            assert(s * a - s >= 0) by (nonlinear_arith)
                requires
                    s > 0,
                    a >= 1,
            ;
            lemma_mod_multiples_vanish(-1, p.x, s);
        },
    }
}

/// A paddle on its track stays within the arena for all ticks: its left edge
/// never leaves `0 ..= limit`.
pub proof fn lemma_on_track_forever(p: PaddleView, ticks: nat)
    requires
        p.on_track(),
    ensures
        p.after(ticks).on_track(),
        0 <= p.after(ticks).x <= p.limit(),
        p.after(ticks).limit() == p.limit(),
    decreases ticks,
{
    if ticks > 0 {
        lemma_on_track_forever(p, (ticks - 1) as nat);
        lemma_moved_stays_on_track(p.after((ticks - 1) as nat));
    }
}

/// One tick keeps a paddle near its track: it may pass a wall, by less than
/// one step, and then turns round at once.
pub proof fn lemma_moved_stays_near_track(p: PaddleView)
    requires
        p.near_track(),
    ensures
        p.moved().near_track(),
        p.moved().direction != p.direction <==> (p.moved().x <= 0 || p.moved().x >= p.limit()),
{
    match p.direction {
        Direction::Right => {
            assert(p.speed * 1 == p.speed) by (nonlinear_arith);
        },
        Direction::Left => {
            assert(p.speed * (-1) == -p.speed) by (nonlinear_arith);
        },
    }
}

/// A paddle near its track is never a full step beyond a wall, for all ticks.
pub proof fn lemma_near_track_forever(p: PaddleView, ticks: nat)
    requires
        p.near_track(),
    ensures
        p.after(ticks).near_track(),
        p.after(ticks).speed == p.speed,
        p.after(ticks).limit() == p.limit(),
        -p.speed < p.after(ticks).x < p.limit() + p.speed,
    decreases ticks,
{
    if ticks > 0 {
        lemma_near_track_forever(p, (ticks - 1) as nat);
        lemma_moved_stays_near_track(p.after((ticks - 1) as nat));
    }
}

/// The deflection is a twentieth of the distance between the two centers, cut
/// off toward zero: it has the sign of that distance and falls short of the
/// exact twentieth by less than one unit.
pub proof fn lemma_deflection_is_a_twentieth(p: PaddleView, ball_x: int)
    ensures
        ({
            let doubled_offset = 2 * ball_x - 2 * p.x - p.width;
            let deflection = p.deflection(ball_x);
            &&& doubled_offset >= 0 ==> 0 <= doubled_offset - 40 * deflection < 40
            &&& doubled_offset <= 0 ==> -40 < doubled_offset - 40 * deflection <= 0
        }),
{
}

/// A ball that comes down on the very center of the paddle is sent straight
/// back: only its vertical velocity changes.
pub proof fn lemma_center_hit_is_not_deflected(
    p: PaddleView,
    ball_x: int,
    ball_y: int,
    radius: int,
    velocity_x: int,
    velocity_y: int,
)
    requires
        p.catches(ball_x, ball_y, radius),
        2 * ball_x == 2 * p.x + p.width,
    ensures
        p.response(ball_x, ball_y, radius, velocity_x, velocity_y) == (velocity_x, -velocity_y),
{
}

impl Paddle {
    /// A paddle at `(x, y)` of the given size that starts out toward the
    /// right at [`PADDLE_SPEED`].
    pub fn new(x: i64, y: i64, width: i64, height: i64) -> (p: Paddle)
        ensures
            p == (Paddle { x, y, width, height, speed: PADDLE_SPEED, direction: Direction::Right }),
            width >= 0 && height >= 0 ==> p@.well_formed(),
    {
        Paddle { x, y, width, height, speed: PADDLE_SPEED, direction: Direction::Right }
    }

    /// Tests [`PaddleView::in_range`] at run time.
    pub fn is_in_range(&self) -> (b: bool)
        ensures
            b == self@.in_range(),
    {
        is_in_range(self.x) && is_in_range(self.y) && is_in_range(self.width) && is_in_range(
            self.height,
        ) && is_in_range(self.speed)
    }

    /// Advances the paddle by one tick.
    pub fn update_position(&mut self)
        requires
            old(self)@.in_range(),
        ensures
            final(self)@ == old(self)@.moved(),
    {
        match self.direction {
            Direction::Right => {
                self.x = self.x + self.speed;
            },
            Direction::Left => {
                self.x = self.x - self.speed;
            },
        }
        if self.x <= 0 || self.x + self.width >= ARENA_WIDTH {
            self.direction = self.direction.reverse();
        }
    }

    /// The ball's velocity after the paddle test, for a ball at
    /// `(ball_x, ball_y)`.
    pub fn deflect(
        &self,
        ball_x: i64,
        ball_y: i64,
        radius: i64,
        velocity_x: i64,
        velocity_y: i64,
    ) -> (v: (i64, i64))
        requires
            self@.in_range(),
            in_range(ball_x as int),
            in_range(ball_y as int),
            in_range(radius as int),
            in_range(velocity_x as int),
            in_range(velocity_y as int),
        ensures
            v.0 == self@.response(
                ball_x as int,
                ball_y as int,
                radius as int,
                velocity_x as int,
                velocity_y as int,
            ).0,
            v.1 == self@.response(
                ball_x as int,
                ball_y as int,
                radius as int,
                velocity_x as int,
                velocity_y as int,
            ).1,
    {
        if ball_y + radius >= self.y && ball_x >= self.x && ball_x <= self.x + self.width {
            let doubled_offset: i64 = 2 * ball_x - 2 * self.x - self.width;
            (velocity_x + doubled_offset / 40, -velocity_y)
        } else {
            (velocity_x, velocity_y)
        }
    }
}

} // verus!
