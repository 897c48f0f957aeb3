use block_breaker::{Ball, Dimensions, Position, Vector};

#[test]
fn bounce_works() {
    let mut ball = Ball::new(Position::new(0, 0), Dimensions::new(100, 100), 1);

    // ball is initially travelling directly down
    // bouncing in (0, -1) should make it's velocity (0, -1)
    ball.bounce(Vector::new(0, -1));
    assert_eq!(ball.velocity(), Vector::new(0, -1));
}

#[test]
fn new_ball_travels_straight_down() {
    let ball = Ball::new(Position::new(50, 50), Dimensions::new(100, 100), 3);
    assert_eq!(ball.x(), 50);
    assert_eq!(ball.y(), 50);
    assert_eq!(ball.power(), 3);
    assert_eq!(ball.velocity(), Vector { x: 0, y: 1 });
}

#[test]
fn tick_moves_one_cell_down() {
    let mut ball = Ball::new(Position::new(50, 50), Dimensions::new(100, 100), 1);
    ball.tick();
    assert_eq!(ball.x(), 50);
    assert_eq!(ball.y(), 51);
}

#[test]
fn tick_walks_the_exact_line_of_a_slanted_direction() {
    // Direction (1, -3): the y axis crosses a cell every tick, the x axis
    // every third tick — the ideal grid walk of the one-in-three slope.
    let mut ball = Ball::new(Position::new(5, 10), Dimensions::new(100, 100), 1);
    ball.velocity = Vector { x: 1, y: -3 };
    ball.tick();
    assert_eq!((ball.x(), ball.y()), (5, 9));
    ball.tick();
    assert_eq!((ball.x(), ball.y()), (5, 8));
    ball.tick();
    assert_eq!((ball.x(), ball.y()), (6, 7));
    ball.tick();
    assert_eq!((ball.x(), ball.y()), (6, 6));
}

#[test]
fn tick_clamps_x_to_last_column() {
    let mut ball = Ball::new(Position::new(9, 2), Dimensions::new(10, 100), 1);
    ball.velocity = Vector { x: 1, y: 0 };
    ball.tick();
    assert_eq!((ball.x(), ball.y()), (9, 2));
}

#[test]
fn reaching_the_bottom_rows_zeroes_velocity() {
    let mut ball = Ball::new(Position::new(5, 7), Dimensions::new(10, 10), 1);
    ball.tick();
    ball.tick();
    assert_eq!(ball.y(), 9);
    assert_eq!(ball.velocity(), Vector { x: 0, y: 0 });
    // From then on the ball no longer moves.
    ball.tick();
    assert_eq!((ball.x(), ball.y()), (5, 9));
}

#[test]
fn bounce_twice_off_same_normal_restores_velocity() {
    let mut ball = Ball::new(Position::new(10, 10), Dimensions::new(100, 100), 1);
    ball.velocity = Vector { x: 3, y: -4 };
    ball.bounce(Vector::new(1, -3));
    assert_eq!(ball.velocity(), Vector { x: 0, y: 1 });
    ball.bounce(Vector::new(1, -3));
    assert_eq!(ball.velocity(), Vector { x: 3, y: -4 });
}

#[test]
fn update_dimensions_clamps_ball_into_view() {
    let mut ball = Ball::new(Position::new(50, 40), Dimensions::new(100, 100), 1);
    ball.update_dimensions(Dimensions::new(20, 30));
    assert_eq!((ball.x(), ball.y()), (19, 29));
    let mut inside = Ball::new(Position::new(5, 5), Dimensions::new(100, 100), 1);
    inside.update_dimensions(Dimensions::new(20, 30));
    assert_eq!((inside.x(), inside.y()), (5, 5));
}
