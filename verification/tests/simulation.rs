use breakout::block::Block;
use breakout::paddle::{Direction, Paddle};
use breakout::state::MainState;
use breakout::units::{is_in_range, COORD_MAX, UNIT};

fn lone_ball(x: i64, y: i64, vx: i64, vy: i64) -> MainState {
    MainState {
        circle_x: x * UNIT,
        circle_y: y * UNIT,
        radius: 15 * UNIT,
        velocity_x: vx * UNIT,
        velocity_y: vy * UNIT,
        blocks: Vec::new(),
        paddle: Paddle::new(375 * UNIT, 550 * UNIT, 400 * UNIT, 10 * UNIT),
    }
}

#[test]
fn unit_is_ten_thousand() {
    assert_eq!(UNIT, 10_000);
    assert_eq!(breakout::units::SCALE, 4);
    assert_eq!(COORD_MAX, 1_000_000_000 * UNIT);
}

#[test]
fn range_of_quantities_is_closed() {
    assert!(is_in_range(0));
    assert!(is_in_range(COORD_MAX));
    assert!(is_in_range(-COORD_MAX));
    assert!(!is_in_range(COORD_MAX + 1));
    assert!(!is_in_range(-COORD_MAX - 1));
    assert!(!is_in_range(i64::MIN));
}

#[test]
fn new_state_has_the_standard_layout() {
    let s = MainState::new();
    assert_eq!(s.circle_x, 400 * UNIT);
    assert_eq!(s.circle_y, 300 * UNIT);
    assert_eq!(s.radius, 15 * UNIT);
    assert_eq!(s.velocity_x, 3 * UNIT);
    assert_eq!(s.velocity_y, 3 * UNIT);
    assert_eq!(s.paddle, Paddle::new(375 * UNIT, 550 * UNIT, 400 * UNIT, 10 * UNIT));
    assert_eq!(s.blocks.len(), 50);
    for row in 0..5 {
        for column in 0..10 {
            let b = s.blocks[(row * 10 + column) as usize];
            assert_eq!(b, Block::new(column * 35 * UNIT, row * 35 * UNIT, 30 * UNIT, 30 * UNIT));
        }
    }
    // Row by row: the second block is the neighbour to the right.
    assert_eq!(s.blocks[1].rect_x1, 35 * UNIT);
    assert_eq!(s.blocks[1].rect_y1, 0);
    assert_eq!(s.blocks[10].rect_x1, 0);
    assert_eq!(s.blocks[10].rect_y1, 35 * UNIT);
    assert_eq!(s.blocks[49].rect_x2, 345 * UNIT);
    assert_eq!(s.blocks[49].rect_y2, 170 * UNIT);
}

#[test]
fn first_tick_moves_ball_and_paddle() {
    let mut s = MainState::new();
    let blocks_before = s.blocks.clone();
    assert!(s.can_update());
    s.update();
    assert_eq!(s.circle_x, 403 * UNIT);
    assert_eq!(s.circle_y, 303 * UNIT);
    assert_eq!(s.velocity_x, 3 * UNIT);
    assert_eq!(s.velocity_y, 3 * UNIT);
    assert_eq!(s.radius, 15 * UNIT);
    assert_eq!(s.blocks, blocks_before);
    assert_eq!(s.paddle.x, 380 * UNIT);
    assert_eq!(s.paddle.direction, Direction::Right);
}

#[test]
fn ball_center_at_left_wall_turns_right() {
    let mut s = lone_ball(3, 300, -3, 0);
    s.update();
    assert_eq!(s.circle_x, 0);
    assert_eq!(s.velocity_x, 3 * UNIT);
    assert_eq!(s.velocity_y, 0);
    assert_eq!(s.circle_y, 300 * UNIT);
}

#[test]
fn ball_reaching_right_wall_turns_left() {
    let mut s = lone_ball(783, 300, 3, 0);
    s.update();
    assert_eq!(s.circle_x, 786 * UNIT);
    assert_eq!(s.velocity_x, -3 * UNIT);
    s.update();
    assert_eq!(s.circle_x, 783 * UNIT);
    assert_eq!(s.velocity_x, -3 * UNIT);
}

#[test]
fn ball_reaching_top_wall_turns_down() {
    let mut s = lone_ball(400, 17, 0, -3);
    s.update();
    assert_eq!(s.circle_y, 14 * UNIT);
    assert_eq!(s.velocity_y, 3 * UNIT);
    assert_eq!(s.velocity_x, 0);
}

#[test]
fn ball_in_a_corner_turns_on_both_axes_in_one_tick() {
    let mut s = lone_ball(17, 17, -3, -3);
    s.update();
    assert_eq!((s.circle_x, s.circle_y), (14 * UNIT, 14 * UNIT));
    assert_eq!((s.velocity_x, s.velocity_y), (3 * UNIT, 3 * UNIT));
}

#[test]
fn position_is_not_corrected_at_a_wall() {
    let mut s = lone_ball(10, 300, -30, 0);
    s.update();
    // Twenty units beyond the wall, and left there.
    assert_eq!(s.circle_x, -20 * UNIT);
    assert_eq!(s.velocity_x, 30 * UNIT);
}

#[test]
fn block_hit_from_below_is_hidden_and_ball_turns_down() {
    let mut s = lone_ball(112, 138, 3, -3);
    let block = Block::new(100 * UNIT, 100 * UNIT, 30 * UNIT, 30 * UNIT);
    s.blocks.push(block);
    s.update();
    assert_eq!((s.circle_x, s.circle_y), (115 * UNIT, 135 * UNIT));
    assert_eq!(s.velocity_y, 3 * UNIT);
    assert_eq!(s.velocity_x, 3 * UNIT);
    assert_eq!(s.blocks, vec![Block { is_visible: false, ..block }]);
}

#[test]
fn block_in_the_arena_corner_is_hit_together_with_the_wall() {
    // The ball under the first block of the grid also touches the left wall.
    let mut s = lone_ball(12, 38, 3, -3);
    s.blocks.push(Block::new(0, 0, 30 * UNIT, 30 * UNIT));
    s.update();
    assert_eq!((s.circle_x, s.circle_y), (15 * UNIT, 35 * UNIT));
    assert!(!s.blocks[0].is_visible);
    assert_eq!(s.velocity_y, 3 * UNIT);
    assert_eq!(s.velocity_x, -3 * UNIT);
}

#[test]
fn hidden_block_never_answers_again() {
    let mut s = lone_ball(112, 138, 3, -3);
    s.blocks.push(Block::new(100 * UNIT, 100 * UNIT, 30 * UNIT, 30 * UNIT));
    s.update();
    assert!(!s.blocks[0].is_visible);
    assert_eq!(s.velocity_y, 3 * UNIT);
    // Send the ball back up through the former rectangle.
    s.velocity_y = -3 * UNIT;
    for _ in 0..20 {
        let before = (s.velocity_x, s.velocity_y);
        s.update();
        assert_eq!((s.velocity_x, s.velocity_y), before);
        assert!(!s.blocks[0].is_visible);
    }
    assert_eq!(s.circle_y, 75 * UNIT);
}

#[test]
fn ball_on_paddle_center_keeps_horizontal_velocity() {
    // After the tick the paddle is at 380 and its center at 580.
    let mut s = lone_ball(580, 532, 0, 3);
    s.update();
    assert_eq!(s.paddle.x, 380 * UNIT);
    assert_eq!((s.circle_x, s.circle_y), (580 * UNIT, 535 * UNIT));
    assert_eq!(s.velocity_x, 0);
    assert_eq!(s.velocity_y, -3 * UNIT);
}

#[test]
fn paddle_is_tested_where_it_is_after_its_move() {
    // The ball comes down on the paddle's left end as it was before the
    // move; the paddle has left by then.
    let mut s = lone_ball(377, 532, 0, 3);
    s.update();
    assert_eq!(s.velocity_y, 3 * UNIT);
    assert_eq!(s.velocity_x, 0);
}

#[test]
fn ball_off_paddle_center_gains_horizontal_velocity() {
    let mut s = lone_ball(677, 532, 3, 3);
    s.update();
    // 100 to the right of the center at 580.
    assert_eq!(s.circle_x, 680 * UNIT);
    assert_eq!(s.velocity_x, 8 * UNIT);
    assert_eq!(s.velocity_y, -3 * UNIT);
}

#[test]
fn paddle_answers_again_while_the_ball_stays_in_reach() {
    let mut s = lone_ball(580, 540, 0, 1);
    s.update();
    assert_eq!(s.velocity_y, -UNIT);
    s.update();
    assert_eq!(s.circle_y, 540 * UNIT);
    assert_eq!(s.velocity_y, UNIT);
}

#[test]
fn bottom_wall_and_paddle_cancel_each_other() {
    // At the bottom wall over the paddle both reverse the vertical velocity.
    let mut s = lone_ball(580, 583, 0, 3);
    s.update();
    assert_eq!(s.circle_y, 586 * UNIT);
    assert_eq!(s.velocity_y, 3 * UNIT);
}

#[test]
fn visible_blocks_lists_what_is_left_in_order() {
    let mut s = MainState::new();
    assert_eq!(s.visible_blocks(), s.blocks);
    s.blocks[0].is_visible = false;
    s.blocks[7].is_visible = false;
    s.blocks[49].is_visible = false;
    let visible = s.visible_blocks();
    assert_eq!(visible.len(), 47);
    assert_eq!(visible[0], s.blocks[1]);
    assert_eq!(visible[5], s.blocks[6]);
    assert_eq!(visible[6], s.blocks[8]);
    assert_eq!(visible[46], s.blocks[48]);
    assert!(visible.iter().all(|b| b.is_visible));
}

#[test]
fn visible_blocks_of_an_empty_board_is_empty() {
    let s = lone_ball(400, 300, 3, 3);
    assert!(s.visible_blocks().is_empty());
}

#[test]
fn state_out_of_range_is_not_advanced() {
    let mut s = lone_ball(400, 300, 3, 3);
    s.circle_x = COORD_MAX;
    assert!(!s.can_update());
    let before = s.clone();
    assert!(!s.try_update());
    assert_eq!(s, before);

    let mut s = lone_ball(400, 300, 3, 3);
    s.circle_x = COORD_MAX - 3 * UNIT;
    assert!(s.can_update());
    assert!(s.try_update());
    assert_eq!(s.circle_x, COORD_MAX);
}

#[test]
fn every_part_of_the_state_is_tested_for_range() {
    let base = lone_ball(400, 300, 3, 3);
    assert!(base.can_update());

    let mut s = base.clone();
    s.circle_y = -COORD_MAX - 3 * UNIT - 1;
    assert!(!s.can_update());
    let mut s = base.clone();
    s.radius = COORD_MAX + 1;
    assert!(!s.can_update());
    let mut s = base.clone();
    s.velocity_x = COORD_MAX + 1;
    s.circle_x = -COORD_MAX;
    assert!(!s.can_update());
    let mut s = base.clone();
    s.velocity_y = i64::MIN;
    assert!(!s.can_update());
    let mut s = base.clone();
    s.paddle.y = COORD_MAX + 1;
    assert!(!s.can_update());
    let mut s = base.clone();
    s.paddle.x = COORD_MAX;
    assert!(!s.can_update());
    let mut s = base.clone();
    s.blocks.push(Block::new(0, 0, 30 * UNIT, 30 * UNIT));
    s.blocks.push(Block::new(COORD_MAX, 0, 30 * UNIT, 30 * UNIT));
    assert!(!s.can_update());
}

#[test]
fn try_update_advances_like_update() {
    let mut a = MainState::new();
    let mut b = MainState::new();
    for _ in 0..500 {
        assert!(a.can_update());
        a.update();
        assert!(b.try_update());
        assert_eq!(a, b);
    }
}

#[test]
fn game_runs_and_clears_blocks() {
    let mut s = MainState::new();
    let mut hidden_before = 0;
    for _ in 0..20_000 {
        if !s.try_update() {
            break;
        }
        assert_eq!(s.radius, 15 * UNIT);
        assert_eq!(s.blocks.len(), 50);
        assert!(0 <= s.paddle.x && s.paddle.x <= 400 * UNIT);
        let hidden = s.blocks.iter().filter(|b| !b.is_visible).count();
        assert!(hidden >= hidden_before);
        hidden_before = hidden;
    }
    for (i, b) in s.blocks.iter().enumerate() {
        let row = (i / 10) as i64;
        let column = (i % 10) as i64;
        assert_eq!(b.rect_x1, column * 35 * UNIT);
        assert_eq!(b.rect_y1, row * 35 * UNIT);
        assert_eq!(b.rect_x2, column * 35 * UNIT + 30 * UNIT);
        assert_eq!(b.rect_y2, row * 35 * UNIT + 30 * UNIT);
    }
}
