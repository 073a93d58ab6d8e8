//! Blocks: fixed rectangles that the ball removes on contact.

use crate::collision::{check_circle_rectangle_collision, collision};
use crate::units::{in_range, is_in_range};
use vstd::prelude::*;

verus! {

/// A block: the rectangle with corners `(rect_x1, rect_y1)` and
/// `(rect_x2, rect_y2)`, and whether it is still on the board.
///
/// A block starts out visible and is hidden by the first ball that touches
/// it. A hidden block stays where it is, hidden for good.
#[derive(Clone, Copy, Debug, PartialEq, Eq, Structural)]
pub struct Block {
    pub rect_x1: i64,
    pub rect_y1: i64,
    pub rect_x2: i64,
    pub rect_y2: i64,
    pub is_visible: bool,
}

impl Block {
    /// Whether the four coordinates are within the range of quantities.
    pub open spec fn in_range(self) -> bool {
        &&& in_range(self.rect_x1 as int)
        &&& in_range(self.rect_y1 as int)
        &&& in_range(self.rect_x2 as int)
        &&& in_range(self.rect_y2 as int)
    }

    /// Whether the first corner is the upper left one.
    pub open spec fn well_formed(self) -> bool {
        self.rect_x1 <= self.rect_x2 && self.rect_y1 <= self.rect_y2
    }

    /// The same rectangle, hidden.
    pub open spec fn hidden(self) -> Block {
        Block { is_visible: false, ..self }
    }

    /// What a ball at `(cx, cy)` does to this block: nothing where the block
    /// is hidden, else the outcome of the collision test against its
    /// rectangle.
    pub open spec fn hit_by(self, cx: int, cy: int, r: int) -> Option<(bool, bool)> {
        if self.is_visible {
            collision(
                cx,
                cy,
                r,
                self.rect_x1 as int,
                self.rect_y1 as int,
                self.rect_x2 as int,
                self.rect_y2 as int,
            )
        } else {
            None
        }
    }

    /// A visible block with its upper left corner at `(x1, y1)` and the given
    /// size.
    pub fn new(x1: i64, y1: i64, width: i64, height: i64) -> (b: Block)
        requires
            i64::MIN <= x1 + width <= i64::MAX,
            i64::MIN <= y1 + height <= i64::MAX,
        ensures
            b.rect_x1 == x1,
            b.rect_y1 == y1,
            b.rect_x2 == x1 + width,
            b.rect_y2 == y1 + height,
            b.is_visible,
            width >= 0 && height >= 0 ==> b.well_formed(),
    {
        Block {
            rect_x1: x1,
            rect_y1: y1,
            rect_x2: x1 + width,
            rect_y2: y1 + height,
            is_visible: true,
        }
    }

    /// Tests [`Block::in_range`] at run time.
    pub fn is_in_range(&self) -> (b: bool)
        ensures
            b == self.in_range(),
    {
        is_in_range(self.rect_x1) && is_in_range(self.rect_y1) && is_in_range(self.rect_x2)
            && is_in_range(self.rect_y2)
    }
}

/// The ball's velocity after the first `count` blocks were tested in order
/// against a ball at `(cx, cy)`.
///
/// Each block that the ball hits reverses the horizontal velocity where the
/// contact is on a vertical edge and the vertical velocity where it is on a
/// horizontal edge. Every hit counts: two blocks hit in one tick reverse an
/// axis twice.
pub open spec fn velocity_after_blocks(
    blocks: Seq<Block>,
    count: nat,
    cx: int,
    cy: int,
    r: int,
    velocity_x: int,
    velocity_y: int,
) -> (int, int)
    decreases count,
{
    if count == 0 {
        (velocity_x, velocity_y)
    } else {
        let before = velocity_after_blocks(
            blocks,
            (count - 1) as nat,
            cx,
            cy,
            r,
            velocity_x,
            velocity_y,
        );
        match blocks[count - 1].hit_by(cx, cy, r) {
            Some((on_vertical_edge, on_horizontal_edge)) => (
                if on_vertical_edge {
                    -before.0
                } else {
                    before.0
                },
                if on_horizontal_edge {
                    -before.1
                } else {
                    before.1
                },
            ),
            None => before,
        }
    }
}

/// The blocks after all of them were tested against a ball at `(cx, cy)`:
/// those that the ball hits are hidden, the others are as before.
pub open spec fn blocks_after(blocks: Seq<Block>, cx: int, cy: int, r: int) -> Seq<Block> {
    Seq::new(
        blocks.len(),
        |i: int|
            if blocks[i].hit_by(cx, cy, r) is Some {
                blocks[i].hidden()
            } else {
                blocks[i]
            },
    )
}

/// Flipping keeps the magnitude: after any number of blocks each component of
/// the velocity is what it was or its negation.
pub proof fn lemma_blocks_keep_speed(
    blocks: Seq<Block>,
    count: nat,
    cx: int,
    cy: int,
    r: int,
    velocity_x: int,
    velocity_y: int,
)
    ensures
        ({
            let v = velocity_after_blocks(blocks, count, cx, cy, r, velocity_x, velocity_y);
            &&& (v.0 == velocity_x || v.0 == -velocity_x)
            &&& (v.1 == velocity_y || v.1 == -velocity_y)
        }),
    decreases count,
{
    if count > 0 {
        lemma_blocks_keep_speed(blocks, (count - 1) as nat, cx, cy, r, velocity_x, velocity_y);
    }
}

/// A ball that hits none of the first `count` blocks keeps its velocity.
pub proof fn lemma_no_hit_keeps_velocity(
    blocks: Seq<Block>,
    count: nat,
    cx: int,
    cy: int,
    r: int,
    velocity_x: int,
    velocity_y: int,
)
    requires
        count <= blocks.len(),
        forall|i: int| 0 <= i < count ==> (#[trigger] blocks[i]).hit_by(cx, cy, r) is None,
    ensures
        velocity_after_blocks(blocks, count, cx, cy, r, velocity_x, velocity_y) == (
            velocity_x,
            velocity_y,
        ),
    decreases count,
{
    if count > 0 {
        lemma_no_hit_keeps_velocity(blocks, (count - 1) as nat, cx, cy, r, velocity_x, velocity_y);
        assert(blocks[count - 1].hit_by(cx, cy, r) is None);
    }
}

/// The outcome of the scan does not depend on hidden blocks: two boards that
/// agree on their visible blocks among the first `count`, and hide the same
/// ones, send the ball the same way.
pub proof fn lemma_hidden_blocks_do_not_count(
    a: Seq<Block>,
    b: Seq<Block>,
    count: nat,
    cx: int,
    cy: int,
    r: int,
    velocity_x: int,
    velocity_y: int,
)
    requires
        count <= a.len(),
        count <= b.len(),
        forall|i: int|
            0 <= i < count ==> (#[trigger] a[i]).is_visible == (#[trigger] b[i]).is_visible,
        forall|i: int| 0 <= i < count && (#[trigger] a[i]).is_visible ==> a[i] == b[i],
    ensures
        velocity_after_blocks(a, count, cx, cy, r, velocity_x, velocity_y)
            == velocity_after_blocks(b, count, cx, cy, r, velocity_x, velocity_y),
    decreases count,
{
    if count > 0 {
        lemma_hidden_blocks_do_not_count(
            a,
            b,
            (count - 1) as nat,
            cx,
            cy,
            r,
            velocity_x,
            velocity_y,
        );
        assert(a[count - 1].is_visible == b[count - 1].is_visible);
    }
}

/// Tests every block in order against a ball at `(circle_x, circle_y)`, hides
/// the blocks that it hits and returns the ball's velocity after the hits.
///
/// Hidden blocks are passed over. The scan does not stop at the first hit.
pub fn strike_blocks(
    blocks: &mut Vec<Block>,
    circle_x: i64,
    circle_y: i64,
    radius: i64,
    velocity_x: i64,
    velocity_y: i64,
) -> (v: (i64, i64))
    requires
        in_range(circle_x as int),
        in_range(circle_y as int),
        in_range(radius as int),
        velocity_x > i64::MIN,
        velocity_y > i64::MIN,
        forall|i: int| 0 <= i < old(blocks)@.len() ==> (#[trigger] old(blocks)@[i]).in_range(),
    ensures
        final(blocks)@ == blocks_after(
            old(blocks)@,
            circle_x as int,
            circle_y as int,
            radius as int,
        ),
        (v.0 as int, v.1 as int) == velocity_after_blocks(
            old(blocks)@,
            old(blocks)@.len(),
            circle_x as int,
            circle_y as int,
            radius as int,
            velocity_x as int,
            velocity_y as int,
        ),
{
    let ghost before = blocks@;
    let mut vx: i64 = velocity_x;
    let mut vy: i64 = velocity_y;
    let count: usize = blocks.len();
    let mut i: usize = 0;
    while i < count
        invariant
            i <= count,
            count == before.len(),
            blocks@.len() == before.len(),
            in_range(circle_x as int),
            in_range(circle_y as int),
            in_range(radius as int),
            velocity_x > i64::MIN,
            velocity_y > i64::MIN,
            forall|j: int| 0 <= j < before.len() ==> (#[trigger] before[j]).in_range(),
            forall|j: int| i <= j < count ==> blocks@[j] == before[j],
            forall|j: int|
                0 <= j < i ==> blocks@[j] == blocks_after(
                    before,
                    circle_x as int,
                    circle_y as int,
                    radius as int,
                )[j],
            (vx as int, vy as int) == velocity_after_blocks(
                before,
                i as nat,
                circle_x as int,
                circle_y as int,
                radius as int,
                velocity_x as int,
                velocity_y as int,
            ),
        decreases count - i,
    {
        let block: Block = blocks[i];
        proof {
            assert(before[i as int].in_range());
            lemma_blocks_keep_speed(
                before,
                i as nat,
                circle_x as int,
                circle_y as int,
                radius as int,
                velocity_x as int,
                velocity_y as int,
            );
        }
        if block.is_visible {
            match check_circle_rectangle_collision(
                circle_x,
                circle_y,
                radius,
                block.rect_x1,
                block.rect_y1,
                block.rect_x2,
                block.rect_y2,
            ) {
                Some((collision_x, collision_y)) => {
                    if collision_x {
                        vx = -vx;
                    }
                    if collision_y {
                        vy = -vy;
                    }
                    blocks.set(
                        i,
                        Block {
                            rect_x1: block.rect_x1,
                            rect_y1: block.rect_y1,
                            rect_x2: block.rect_x2,
                            rect_y2: block.rect_y2,
                            is_visible: false,
                        },
                    );
                },
                None => {},
            }
        }
        i = i + 1;
    }
    (vx, vy)
}

} // verus!
