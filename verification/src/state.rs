//! The simulation: one ball, a grid of blocks and one paddle, advanced tick
//! by tick.

use crate::arena::{bounce_off_walls, touches_wall, wall_response, ARENA_HEIGHT, ARENA_WIDTH};
use crate::block::{
    blocks_after, lemma_hidden_blocks_do_not_count, lemma_no_hit_keeps_velocity, strike_blocks,
    velocity_after_blocks, Block,
};
use crate::collision::{distance_squared_to, in_rectangle, lemma_no_collision_iff_beyond_radius};
use crate::paddle::{lemma_on_track_forever, Direction, Paddle, PaddleView, PADDLE_SPEED};
use crate::units::{in_range, is_in_range, COORD_MAX};
use vstd::prelude::*;

verus! {

/// Rows of the block grid.
pub const BLOCK_ROWS: i64 = 5;

/// Columns of the block grid.
pub const BLOCK_COLUMNS: i64 = 10;

/// Width of a block: 30 whole units.
pub const BLOCK_WIDTH: i64 = 300_000;

/// Height of a block: 30 whole units.
pub const BLOCK_HEIGHT: i64 = 300_000;

/// Gutter between neighbouring blocks: 5 whole units.
pub const BLOCK_GAP: i64 = 50_000;

/// Where the ball starts: the center of the arena.
pub const BALL_START_X: i64 = 4_000_000;

/// Where the ball starts: the center of the arena.
pub const BALL_START_Y: i64 = 3_000_000;

/// Radius of the ball: 15 whole units.
pub const BALL_RADIUS: i64 = 150_000;

/// Velocity of the ball along each axis at the start: 3 whole units per tick.
pub const BALL_SPEED: i64 = 30_000;

/// Left edge of the paddle at the start.
pub const PADDLE_START_X: i64 = 3_750_000;

/// Top edge of the paddle.
pub const PADDLE_Y: i64 = 5_500_000;

/// Width of the paddle: 400 whole units.
pub const PADDLE_WIDTH: i64 = 4_000_000;

/// Height of the paddle: 10 whole units.
pub const PADDLE_HEIGHT: i64 = 100_000;

/// The whole simulation. The ball is the circle with center
/// `(circle_x, circle_y)`; the blocks are kept row by row, in the order in
/// which they were laid out.
#[derive(Clone, Debug, PartialEq, Eq)]
pub struct MainState {
    pub circle_x: i64,
    pub circle_y: i64,
    pub radius: i64,
    pub velocity_x: i64,
    pub velocity_y: i64,
    pub blocks: Vec<Block>,
    pub paddle: Paddle,
}

/// A simulation over the mathematical integers.
pub struct StateView {
    pub circle_x: int,
    pub circle_y: int,
    pub radius: int,
    pub velocity_x: int,
    pub velocity_y: int,
    pub blocks: Seq<Block>,
    pub paddle: PaddleView,
}

impl View for MainState {
    type V = StateView;

    open spec fn view(&self) -> StateView {
        StateView {
            circle_x: self.circle_x as int,
            circle_y: self.circle_y as int,
            radius: self.radius as int,
            velocity_x: self.velocity_x as int,
            velocity_y: self.velocity_y as int,
            blocks: self.blocks@,
            paddle: self.paddle@,
        }
    }
}

/// The block in the given row and column of the grid that a new simulation
/// starts with.
pub open spec fn grid_block(row: int, column: int) -> Block {
    Block {
        rect_x1: (column * (BLOCK_WIDTH + BLOCK_GAP)) as i64,
        rect_y1: (row * (BLOCK_HEIGHT + BLOCK_GAP)) as i64,
        rect_x2: (column * (BLOCK_WIDTH + BLOCK_GAP) + BLOCK_WIDTH) as i64,
        rect_y2: (row * (BLOCK_HEIGHT + BLOCK_GAP) + BLOCK_HEIGHT) as i64,
        is_visible: true,
    }
}

/// The simulation at its start: the ball in the center of the arena on its
/// way down and to the right, the full grid of blocks in the upper left, the
/// paddle near the bottom on its way to the right.
pub open spec fn initial_state() -> StateView {
    StateView {
        circle_x: BALL_START_X as int,
        circle_y: BALL_START_Y as int,
        radius: BALL_RADIUS as int,
        velocity_x: BALL_SPEED as int,
        velocity_y: BALL_SPEED as int,
        blocks: Seq::new(
            (BLOCK_ROWS * BLOCK_COLUMNS) as nat,
            |i: int| grid_block(i / (BLOCK_COLUMNS as int), i % (BLOCK_COLUMNS as int)),
        ),
        paddle: PaddleView {
            x: PADDLE_START_X as int,
            y: PADDLE_Y as int,
            width: PADDLE_WIDTH as int,
            height: PADDLE_HEIGHT as int,
            speed: PADDLE_SPEED as int,
            direction: Direction::Right,
        },
    }
}

impl StateView {
    /// Whether the simulation is well formed: the ball has a positive radius,
    /// every block has its first corner in the upper left, and the paddle has
    /// a size and moves.
    pub open spec fn well_formed(self) -> bool {
        &&& self.radius > 0
        &&& self.paddle.well_formed()
        &&& forall|i: int| 0 <= i < self.blocks.len() ==> (#[trigger] self.blocks[i]).well_formed()
    }

    /// Whether one tick can be computed within the range of quantities: the
    /// ball and the paddle are in range before and after they move, and so are
    /// the blocks.
    pub open spec fn steppable(self) -> bool {
        &&& in_range(self.circle_x + self.velocity_x)
        &&& in_range(self.circle_y + self.velocity_y)
        &&& in_range(self.radius)
        &&& in_range(self.velocity_x)
        &&& in_range(self.velocity_y)
        &&& self.paddle.in_range()
        &&& self.paddle.moved().in_range()
        &&& forall|i: int| 0 <= i < self.blocks.len() ==> (#[trigger] self.blocks[i]).in_range()
    }

    /// The simulation one tick later.
    ///
    /// The ball moves by its velocity and the paddle advances. Then the walls,
    /// the paddle and the blocks, in this order, each answer to the ball's new
    /// position by changing its velocity, and the blocks that are hit are
    /// hidden. The ball's position is not corrected by any of them.
    pub open spec fn tick(self) -> StateView {
        let x = self.circle_x + self.velocity_x;
        let y = self.circle_y + self.velocity_y;
        let paddle = self.paddle.moved();
        let off_walls = (
            wall_response(x, self.radius, self.velocity_x, ARENA_WIDTH as int),
            wall_response(y, self.radius, self.velocity_y, ARENA_HEIGHT as int),
        );
        let off_paddle = paddle.response(x, y, self.radius, off_walls.0, off_walls.1);
        let off_blocks = velocity_after_blocks(
            self.blocks,
            self.blocks.len(),
            x,
            y,
            self.radius,
            off_paddle.0,
            off_paddle.1,
        );
        StateView {
            circle_x: x,
            circle_y: y,
            radius: self.radius,
            velocity_x: off_blocks.0,
            velocity_y: off_blocks.1,
            blocks: blocks_after(self.blocks, x, y, self.radius),
            paddle,
        }
    }

    /// The simulation `ticks` ticks later.
    pub open spec fn after(self, ticks: nat) -> StateView
        decreases ticks,
    {
        if ticks == 0 {
            self
        } else {
            self.after((ticks - 1) as nat).tick()
        }
    }

    /// The same simulation with another block in place `i`.
    pub open spec fn with_block(self, i: int, block: Block) -> StateView {
        StateView { blocks: self.blocks.update(i, block), ..self }
    }
}

/// A new simulation is well formed and ready for its first tick.
pub proof fn lemma_initial_state_well_formed()
    ensures
        initial_state().well_formed(),
        initial_state().steppable(),
{
}

/// One tick keeps a well-formed simulation well formed.
pub proof fn lemma_tick_stays_well_formed(s: StateView)
    requires
        s.well_formed(),
    ensures
        s.tick().well_formed(),
{
    assert forall|i: int| 0 <= i < s.tick().blocks.len() implies (#[trigger] s.tick().blocks[
        i
    ]).well_formed() by {
        assert(s.blocks[i].well_formed());
    }
}

/// Each wall turns the ball on its own axis only. In a tick in which neither
/// the paddle nor a block answers, the horizontal velocity is reversed exactly
/// when the ball arrives at the left or the right wall, the vertical velocity
/// exactly when it arrives at the top or the bottom wall, and both in a
/// corner.
pub proof fn lemma_walls_turn_the_ball(s: StateView)
    requires
        !s.tick().paddle.catches(s.tick().circle_x, s.tick().circle_y, s.radius),
        forall|i: int|
            0 <= i < s.blocks.len() ==> (#[trigger] s.blocks[i]).hit_by(
                s.tick().circle_x,
                s.tick().circle_y,
                s.radius,
            ) is None,
    ensures
        s.tick().velocity_x == (if touches_wall(s.tick().circle_x, s.radius, ARENA_WIDTH as int) {
            -s.velocity_x
        } else {
            s.velocity_x
        }),
        s.tick().velocity_y == (if touches_wall(s.tick().circle_y, s.radius, ARENA_HEIGHT as int) {
            -s.velocity_y
        } else {
            s.velocity_y
        }),
{
    let x = s.circle_x + s.velocity_x;
    let y = s.circle_y + s.velocity_y;
    lemma_no_hit_keeps_velocity(
        s.blocks,
        s.blocks.len(),
        x,
        y,
        s.radius,
        wall_response(x, s.radius, s.velocity_x, ARENA_WIDTH as int),
        wall_response(y, s.radius, s.velocity_y, ARENA_HEIGHT as int),
    );
}

/// One tick leaves the board as it is but for the blocks it hides: the radius,
/// the number of blocks and their rectangles stay, no block comes back, and a
/// hidden block is not touched.
pub proof fn lemma_tick_keeps_board(s: StateView)
    ensures
        s.tick().radius == s.radius,
        s.tick().blocks.len() == s.blocks.len(),
        forall|i: int|
            0 <= i < s.blocks.len() ==> (#[trigger] s.tick().blocks[i]).hidden()
                == s.blocks[i].hidden(),
        forall|i: int|
            0 <= i < s.blocks.len() && (#[trigger] s.tick().blocks[i]).is_visible
                ==> s.blocks[i].is_visible,
        forall|i: int|
            0 <= i < s.blocks.len() && !s.blocks[i].is_visible ==> #[trigger] s.tick().blocks[i]
                == s.blocks[i],
{
}

/// A tick hides the blocks that the ball touches where it arrives, and no
/// others: a visible block stays visible exactly when each of its points is
/// farther from the ball's new center than the radius.
pub proof fn lemma_tick_hides_touched_blocks(s: StateView, i: int)
    requires
        s.well_formed(),
        0 <= i < s.blocks.len(),
        s.blocks[i].is_visible,
    ensures
        s.tick().blocks[i].is_visible <==> (forall|px: real, py: real|
            in_rectangle(
                px,
                py,
                s.blocks[i].rect_x1 as int,
                s.blocks[i].rect_y1 as int,
                s.blocks[i].rect_x2 as int,
                s.blocks[i].rect_y2 as int,
            ) ==> #[trigger] distance_squared_to(s.tick().circle_x, s.tick().circle_y, px, py) > (
            s.radius * s.radius) as real),
{
    let b = s.blocks[i];
    assert(b.well_formed());
    lemma_no_collision_iff_beyond_radius(
        s.tick().circle_x,
        s.tick().circle_y,
        s.radius,
        b.rect_x1 as int,
        b.rect_y1 as int,
        b.rect_x2 as int,
        b.rect_y2 as int,
    );
}

/// Hidden is for good: a block that is hidden stays hidden, where it is, for
/// all ticks.
pub proof fn lemma_hidden_forever(s: StateView, i: int, ticks: nat)
    requires
        0 <= i < s.blocks.len(),
        !s.blocks[i].is_visible,
    ensures
        s.after(ticks).blocks.len() == s.blocks.len(),
        s.after(ticks).blocks[i] == s.blocks[i],
    decreases ticks,
{
    if ticks > 0 {
        lemma_hidden_forever(s, i, (ticks - 1) as nat);
        lemma_tick_keeps_board(s.after((ticks - 1) as nat));
    }
}

/// A hidden block takes no part in a tick: with any other hidden block in its
/// place, the ball, the paddle and all other blocks come out the same.
pub proof fn lemma_hidden_block_is_inert(s: StateView, i: int, other: Block)
    requires
        0 <= i < s.blocks.len(),
        !s.blocks[i].is_visible,
        !other.is_visible,
    ensures
        s.with_block(i, other).tick() == s.tick().with_block(i, other),
{
    let t = s.with_block(i, other);
    let x = s.circle_x + s.velocity_x;
    let y = s.circle_y + s.velocity_y;
    let paddle = s.paddle.moved();
    let off_walls = (
        wall_response(x, s.radius, s.velocity_x, ARENA_WIDTH as int),
        wall_response(y, s.radius, s.velocity_y, ARENA_HEIGHT as int),
    );
    let off_paddle = paddle.response(x, y, s.radius, off_walls.0, off_walls.1);
    lemma_hidden_blocks_do_not_count(
        s.blocks,
        t.blocks,
        s.blocks.len(),
        x,
        y,
        s.radius,
        off_paddle.0,
        off_paddle.1,
    );
    assert(t.tick().blocks =~= s.tick().with_block(i, other).blocks);
}

/// A hidden block never takes part again, whatever way the ball goes: with
/// any other hidden block in its place, the simulation runs the same for all
/// ticks.
pub proof fn lemma_hidden_block_is_inert_forever(s: StateView, i: int, other: Block, ticks: nat)
    requires
        0 <= i < s.blocks.len(),
        !s.blocks[i].is_visible,
        !other.is_visible,
    ensures
        s.with_block(i, other).after(ticks) == s.after(ticks).with_block(i, other),
    decreases ticks,
{
    if ticks > 0 {
        let earlier = (ticks - 1) as nat;
        lemma_hidden_block_is_inert_forever(s, i, other, earlier);
        lemma_hidden_forever(s, i, earlier);
        lemma_hidden_block_is_inert(s.after(earlier), i, other);
    }
}

/// The paddle goes its own way: in the simulation it is, after any number of
/// ticks, where it would be on its own.
pub proof fn lemma_paddle_patrols(s: StateView, ticks: nat)
    ensures
        s.after(ticks).paddle == s.paddle.after(ticks),
    decreases ticks,
{
    if ticks > 0 {
        lemma_paddle_patrols(s, (ticks - 1) as nat);
    }
}

/// In a simulation from the start, the paddle's left edge stays within the
/// arena, between zero and the arena's width less the paddle's, for all ticks.
pub proof fn lemma_paddle_stays_in_arena(ticks: nat)
    ensures
        0 <= initial_state().after(ticks).paddle.x <= ARENA_WIDTH - PADDLE_WIDTH,
{
    lemma_paddle_patrols(initial_state(), ticks);
    lemma_on_track_forever(initial_state().paddle, ticks);
}

impl MainState {
    /// The simulation at its start.
    pub fn new() -> (state: MainState)
        ensures
            state@ == initial_state(),
            state@.well_formed(),
            state@.steppable(),
    {
        let mut blocks: Vec<Block> = Vec::new();
        let mut row: i64 = 0;
        while row < BLOCK_ROWS
            invariant
                0 <= row <= BLOCK_ROWS,
                blocks@.len() == row * BLOCK_COLUMNS,
                forall|k: int|
                    0 <= k < blocks@.len() ==> blocks@[k] == grid_block(
                        k / (BLOCK_COLUMNS as int),
                        k % (BLOCK_COLUMNS as int),
                    ),
            decreases BLOCK_ROWS - row,
        {
            let mut column: i64 = 0;
            while column < BLOCK_COLUMNS
                invariant
                    0 <= row < BLOCK_ROWS,
                    0 <= column <= BLOCK_COLUMNS,
                    blocks@.len() == row * BLOCK_COLUMNS + column,
                    forall|k: int|
                        0 <= k < blocks@.len() ==> blocks@[k] == grid_block(
                            k / (BLOCK_COLUMNS as int),
                            k % (BLOCK_COLUMNS as int),
                        ),
                decreases BLOCK_COLUMNS - column,
            {
                let x: i64 = column * (BLOCK_WIDTH + BLOCK_GAP);
                let y: i64 = row * (BLOCK_HEIGHT + BLOCK_GAP);
                blocks.push(Block::new(x, y, BLOCK_WIDTH, BLOCK_HEIGHT));
                column = column + 1;
            }
            row = row + 1;
        }
        let paddle = Paddle::new(PADDLE_START_X, PADDLE_Y, PADDLE_WIDTH, PADDLE_HEIGHT);
        let state = MainState {
            circle_x: BALL_START_X,
            circle_y: BALL_START_Y,
            radius: BALL_RADIUS,
            velocity_x: BALL_SPEED,
            velocity_y: BALL_SPEED,
            blocks,
            paddle,
        };
        proof {
            assert(state@.blocks =~= initial_state().blocks);
            lemma_initial_state_well_formed();
        }
        state
    }

    /// Tests [`StateView::steppable`] at run time.
    pub fn can_update(&self) -> (b: bool)
        ensures
            b == self@.steppable(),
    {
        if !is_in_range(self.velocity_x) || !is_in_range(self.velocity_y) || !is_in_range(
            self.radius,
        ) {
            return false;
        }
        if self.circle_x < -COORD_MAX - self.velocity_x || self.circle_x > COORD_MAX
            - self.velocity_x {
            return false;
        }
        if self.circle_y < -COORD_MAX - self.velocity_y || self.circle_y > COORD_MAX
            - self.velocity_y {
            return false;
        }
        if !self.paddle.is_in_range() {
            return false;
        }
        let mut moved: Paddle = self.paddle;
        moved.update_position();
        if !moved.is_in_range() {
            return false;
        }
        let count: usize = self.blocks.len();
        let mut i: usize = 0;
        while i < count
            invariant
                i <= count,
                count == self.blocks@.len(),
                forall|j: int| 0 <= j < i ==> (#[trigger] self.blocks@[j]).in_range(),
            decreases count - i,
        {
            if !self.blocks[i].is_in_range() {
                assert(!self@.blocks[i as int].in_range());
                return false;
            }
            i = i + 1;
        }
        true
    }

    /// The blocks that are still on the board, in their order: what there is
    /// to draw of the grid.
    pub fn visible_blocks(&self) -> (visible: Vec<Block>)
        ensures
            visible@ == self.blocks@.filter(|b: Block| b.is_visible),
    {
        let mut visible: Vec<Block> = Vec::new();
        let count: usize = self.blocks.len();
        let mut i: usize = 0;
        assert(self.blocks@.take(0) =~= Seq::<Block>::empty());
        while i < count
            invariant
                i <= count,
                count == self.blocks@.len(),
                visible@ == self.blocks@.take(i as int).filter(|b: Block| b.is_visible),
            decreases count - i,
        {
            let block: Block = self.blocks[i];
            proof {
                assert(self.blocks@.take(i + 1) =~= self.blocks@.take(i as int).push(block));
                self.blocks@.take(i as int).lemma_filter_push(block, |b: Block| b.is_visible);
            }
            if block.is_visible {
                visible.push(block);
            }
            i = i + 1;
        }
        assert(self.blocks@.take(count as int) =~= self.blocks@);
        visible
    }

    /// Advances the simulation by one tick.
    pub fn update(&mut self)
        requires
            old(self)@.steppable(),
        ensures
            final(self)@ == old(self)@.tick(),
            old(self)@.well_formed() ==> final(self)@.well_formed(),
    {
        proof {
            if self@.well_formed() {
                lemma_tick_stays_well_formed(self@);
            }
        }
        self.circle_x = self.circle_x + self.velocity_x;
        self.circle_y = self.circle_y + self.velocity_y;

        self.paddle.update_position();

        let off_walls = bounce_off_walls(
            self.circle_x,
            self.circle_y,
            self.radius,
            self.velocity_x,
            self.velocity_y,
        );
        let off_paddle = self.paddle.deflect(
            self.circle_x,
            self.circle_y,
            self.radius,
            off_walls.0,
            off_walls.1,
        );
        let off_blocks = strike_blocks(
            &mut self.blocks,
            self.circle_x,
            self.circle_y,
            self.radius,
            off_paddle.0,
            off_paddle.1,
        );
        self.velocity_x = off_blocks.0;
        self.velocity_y = off_blocks.1;
    }

    /// Advances the simulation by one tick where that can be computed within
    /// the range of quantities, and says whether it did. Where it did not,
    /// the simulation is left as it was.
    pub fn try_update(&mut self) -> (done: bool)
        ensures
            done == old(self)@.steppable(),
            done ==> final(self)@ == old(self)@.tick(),
            !done ==> final(self)@ == old(self)@,
            old(self)@.well_formed() ==> final(self)@.well_formed(),
    {
        if self.can_update() {
            self.update();
            true
        } else {
            false
        }
    }
}

} // verus!
