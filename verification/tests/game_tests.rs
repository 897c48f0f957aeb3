use block_breaker::{Block, Config, Dimensions, GameState, Position, Vector};

#[test]
fn new_state_layout() {
    let gs = GameState::new(40, 20, 0);
    assert_eq!(gs.width(), 40);
    assert_eq!(gs.height(), 20);
    assert!(gs.is_paused());
    assert_eq!((gs.ball().x(), gs.ball().y()), (20, 10));
    assert_eq!(gs.ball().velocity(), Vector { x: 0, y: 1 });
    assert_eq!(gs.ball().power(), 1);
    assert_eq!((gs.bar().x(), gs.bar().y()), (15, 18));
    assert_eq!((gs.bar().width(), gs.bar().height()), (10, 1));
    assert!(!gs.game_over());
}

#[test]
fn zero_density_places_no_blocks() {
    let gs = GameState::new(40, 20, 0);
    assert_eq!(gs.blocks().len(), 0);
}

#[test]
fn full_density_fills_every_candidate_cell() {
    // Width 40, height 20: columns 4..36 on the width-3 grid, minus the
    // central gap (18 <= x <= 22), give 9 columns; rows 2..14 give 12 rows.
    let gs = GameState::new(40, 20, 1000);
    let blocks = gs.blocks();
    assert_eq!(blocks.len(), 108);
    for b in blocks {
        assert_eq!((b.width(), b.height(), b.strength()), (3, 1, 1));
        assert!(4 <= b.x() && b.x() < 36);
        assert!(2 <= b.y() && b.y() < 14);
        assert!(b.x() + 3 <= 20 || b.x() >= 23);
        assert_eq!((b.x() - 4) % 3, 0);
    }
    for i in 0..blocks.len() {
        for j in (i + 1)..blocks.len() {
            let (a, b) = (&blocks[i], &blocks[j]);
            // generation order: columns left to right, rows top to bottom
            assert!(a.x() < b.x() || (a.x() == b.x() && a.y() < b.y()));
            // no two blocks share a cell
            assert!(
                a.x() + a.width() <= b.x()
                    || b.x() + b.width() <= a.x()
                    || a.y() + a.height() <= b.y()
                    || b.y() + b.height() <= a.y()
            );
        }
    }
}

#[test]
fn tick_is_noop_while_paused() {
    let mut gs = GameState::new(20, 20, 0);
    assert!(gs.is_paused());
    gs.tick();
    assert_eq!((gs.ball().x(), gs.ball().y()), (10, 10));
    assert_eq!(gs.ball().velocity(), Vector { x: 0, y: 1 });
}

#[test]
fn tick_advances_ball_when_running() {
    let mut gs = GameState::new(20, 20, 0);
    gs.unpause();
    gs.tick();
    assert_eq!((gs.ball().x(), gs.ball().y()), (10, 11));
    assert_eq!(gs.ball().velocity(), Vector { x: 0, y: 1 });
}

#[test]
fn game_over_iff_ball_reaches_bottom_rows() {
    let mut gs = GameState::new(20, 20, 0);
    gs.ball.position = Position::new(5, 18);
    assert!(!gs.game_over());
    gs.ball.position = Position::new(5, 19);
    assert!(gs.game_over());
}

#[test]
fn tick_is_noop_once_over_regardless_of_pause() {
    let mut gs = GameState::new(20, 20, 0);
    gs.ball.position = Position::new(5, 19);
    gs.unpause();
    assert!(gs.game_over());
    gs.tick();
    assert_eq!((gs.ball().x(), gs.ball().y()), (5, 19));
    assert_eq!(gs.ball().velocity(), Vector { x: 0, y: 1 });
    assert!(gs.game_over());
}

#[test]
fn bar_bounce_straight_up_from_midpoint() {
    let mut gs = GameState::new(20, 20, 0);
    gs.unpause();
    gs.ball.position = Position::new(10, 16);
    gs.tick();
    assert_eq!((gs.ball().x(), gs.ball().y()), (10, 17));
    assert_eq!(gs.ball().velocity(), Vector { x: 0, y: -1 });
}

#[test]
fn bar_bounce_up_right_from_right_of_midpoint() {
    let mut gs = GameState::new(20, 20, 0);
    gs.unpause();
    gs.ball.position = Position::new(12, 16);
    gs.tick();
    // normal (1, -3) reflects straight-down into the exact direction (3, -4)
    assert_eq!(gs.ball().velocity(), Vector { x: 3, y: -4 });
}

#[test]
fn bar_bounce_up_left_from_left_of_midpoint() {
    let mut gs = GameState::new(20, 20, 0);
    gs.unpause();
    gs.ball.position = Position::new(8, 16);
    gs.tick();
    assert_eq!(gs.ball().velocity(), Vector { x: -3, y: -4 });
}

#[test]
fn left_edge_bounces_rightward() {
    let mut gs = GameState::new(20, 20, 0);
    gs.unpause();
    gs.ball.position = Position::new(1, 5);
    gs.ball.velocity = Vector { x: -1, y: 0 };
    gs.tick();
    assert_eq!((gs.ball().x(), gs.ball().y()), (0, 5));
    assert_eq!(gs.ball().velocity(), Vector { x: 1, y: 0 });
}

#[test]
fn right_edge_bounces_leftward() {
    let mut gs = GameState::new(20, 20, 0);
    gs.unpause();
    gs.ball.position = Position::new(18, 5);
    gs.ball.velocity = Vector { x: 1, y: 0 };
    gs.tick();
    assert_eq!((gs.ball().x(), gs.ball().y()), (19, 5));
    assert_eq!(gs.ball().velocity(), Vector { x: -1, y: 0 });
}

#[test]
fn top_edge_bounces_downward() {
    let mut gs = GameState::new(20, 20, 0);
    gs.unpause();
    gs.ball.position = Position::new(5, 1);
    gs.ball.velocity = Vector { x: 0, y: -1 };
    gs.tick();
    assert_eq!((gs.ball().x(), gs.ball().y()), (5, 0));
    assert_eq!(gs.ball().velocity(), Vector { x: 0, y: 1 });
}

#[test]
fn corner_stacks_top_and_left_bounces_in_one_tick() {
    let mut gs = GameState::new(20, 20, 0);
    gs.unpause();
    gs.ball.position = Position::new(1, 1);
    gs.ball.velocity = Vector { x: -1, y: -1 };
    gs.tick();
    assert_eq!((gs.ball().x(), gs.ball().y()), (0, 0));
    assert_eq!(gs.ball().velocity(), Vector { x: 1, y: 1 });
}

#[test]
fn block_contact_bounces_and_damages() {
    let mut gs = GameState::new(20, 20, 0);
    gs.unpause();
    gs.blocks.push(Block::new(Position::new(10, 10), Dimensions::new(3, 1), 2));
    gs.ball.position = Position::new(11, 8);
    gs.tick();
    assert_eq!((gs.ball().x(), gs.ball().y()), (11, 9));
    assert_eq!(gs.ball().velocity(), Vector { x: 0, y: -1 });
    assert_eq!(gs.blocks().len(), 1);
    assert_eq!(gs.blocks()[0].strength(), 1);
}

#[test]
fn destroyed_block_leaves_the_collection() {
    let mut gs = GameState::new(20, 20, 0);
    gs.unpause();
    gs.blocks.push(Block::new(Position::new(10, 10), Dimensions::new(3, 1), 1));
    gs.ball.position = Position::new(11, 8);
    gs.tick();
    assert_eq!(gs.blocks().len(), 0);
    assert_eq!(gs.ball().velocity(), Vector { x: 0, y: -1 });
}

#[test]
fn last_matching_block_wins_the_tick() {
    // Both blocks contact the ball's landing cell; only the later one in
    // collection order takes the damage and sets the bounce normal.
    let mut gs = GameState::new(20, 20, 0);
    gs.unpause();
    gs.blocks.push(Block::new(Position::new(10, 10), Dimensions::new(3, 1), 5));
    gs.blocks.push(Block::new(Position::new(10, 8), Dimensions::new(3, 1), 7));
    gs.ball.position = Position::new(11, 8);
    gs.tick();
    assert_eq!(gs.blocks().len(), 2);
    assert_eq!(gs.blocks()[0].strength(), 5);
    assert_eq!(gs.blocks()[1].strength(), 6);
    assert_eq!(gs.ball().velocity(), Vector { x: 0, y: -1 });
}

#[test]
fn interior_overlap_overrides_edge_match() {
    let mut gs = GameState::new(20, 20, 0);
    gs.unpause();
    gs.blocks.push(Block::new(Position::new(10, 10), Dimensions::new(3, 1), 3));
    gs.ball.position = Position::new(11, 9);
    gs.tick();
    // landing inside the block gives the diagonal normal (1, 1)
    assert_eq!((gs.ball().x(), gs.ball().y()), (11, 10));
    assert_eq!(gs.ball().velocity(), Vector { x: -1, y: 0 });
    assert_eq!(gs.blocks()[0].strength(), 2);
}

#[test]
fn update_dimensions_cascades_to_bar_and_ball() {
    let mut gs = GameState::new(20, 10, 0);
    assert_eq!((gs.bar().x(), gs.bar().y()), (5, 8));
    gs.update_dimensions(12, 6);
    assert_eq!(gs.width(), 12);
    assert_eq!(gs.height(), 6);
    assert_eq!((gs.bar().x(), gs.bar().y()), (2, 4));
    assert_eq!((gs.ball().x(), gs.ball().y()), (10, 5));
}

#[test]
fn pause_unpause_and_toggle() {
    let mut gs = GameState::new(20, 20, 0);
    assert!(gs.is_paused());
    gs.unpause();
    assert!(!gs.is_paused());
    gs.pause();
    assert!(gs.is_paused());
    gs.toggle_pause();
    assert!(!gs.is_paused());
    gs.toggle_pause();
    assert!(gs.is_paused());
}

#[test]
fn moving_the_bar_through_the_state() {
    let mut gs = GameState::new(20, 20, 0);
    gs.bar_mut().move_right();
    assert_eq!(gs.bar().x(), 6);
    gs.bar_mut().move_left();
    assert_eq!(gs.bar().x(), 5);
}

#[test]
fn ball_mut_gives_access_to_the_ball() {
    let mut gs = GameState::new(20, 20, 0);
    gs.ball_mut().bounce(Vector::new(0, -1));
    assert_eq!(gs.ball().velocity(), Vector { x: 0, y: -1 });
}

#[test]
fn config_holds_its_values() {
    let c = Config::new(500, 2, 7, 3);
    assert_eq!(c.block_density, 500);
    assert_eq!(c.block_strength, 2);
    assert_eq!(c.bar_width, 7);
    assert_eq!(c.ball_power, 3);
}
