use block_breaker::{Bar, Dimensions, Position};

#[test]
fn test_initial_position() {
    let player_bar = Bar::new(
        Position::new(0, 0),
        Dimensions::new(5, 1),
        Dimensions::new(10, 10),
    );

    assert_eq!(player_bar.x(), 0);
    assert_eq!(player_bar.y(), 8);
}

#[test]
fn test_move_right_doesnt_go_over() {
    let mut player_bar = Bar::new(
        Position::new(0, 0),
        Dimensions::new(5, 1),
        Dimensions::new(10, 10),
    );

    player_bar.move_right();
    assert_eq!(player_bar.x(), 1);
    player_bar.move_right();
    assert_eq!(player_bar.x(), 2);
    player_bar.move_right();
    assert_eq!(player_bar.x(), 3);
    player_bar.move_right();
    assert_eq!(player_bar.x(), 4);
    player_bar.move_right();
    assert_eq!(player_bar.x(), 5);
    player_bar.move_right();
    assert_eq!(player_bar.x(), 5);
    player_bar.move_right();
    assert_eq!(player_bar.x(), 5);
}

#[test]
fn test_move_left_doesnt_go_over() {
    let mut player_bar = Bar::new(
        Position::new(0, 0),
        Dimensions::new(5, 1),
        Dimensions::new(10, 10),
    );

    player_bar.move_left();
    assert_eq!(player_bar.x(), 0);
}

#[test]
fn accessors_report_geometry() {
    let bar = Bar::new(
        Position::new(2, 0),
        Dimensions::new(5, 1),
        Dimensions::new(10, 10),
    );
    assert_eq!(bar.width(), 5);
    assert_eq!(bar.height(), 1);
    assert_eq!(bar.x(), 2);
    assert_eq!(bar.y(), 8);
}

#[test]
fn move_left_then_right_round_trips() {
    let mut bar = Bar::new(
        Position::new(2, 0),
        Dimensions::new(5, 1),
        Dimensions::new(10, 10),
    );
    bar.move_left();
    assert_eq!(bar.x(), 1);
    bar.move_right();
    assert_eq!(bar.x(), 2);
}

#[test]
fn resize_repins_row_and_clamps_column() {
    // Shrinking the field so the bar would stick out repositions it fully
    // inside, on the new pinned row.
    let mut bar = Bar::new(
        Position::new(6, 0),
        Dimensions::new(5, 1),
        Dimensions::new(12, 12),
    );
    bar.update_dimensions(Dimensions::new(10, 10));
    assert_eq!(bar.x(), 5);
    assert_eq!(bar.y(), 8);
}

#[test]
fn resize_keeps_a_fitting_bar_in_place() {
    let mut bar = Bar::new(
        Position::new(1, 0),
        Dimensions::new(5, 1),
        Dimensions::new(12, 12),
    );
    bar.update_dimensions(Dimensions::new(10, 16));
    assert_eq!(bar.x(), 1);
    assert_eq!(bar.y(), 14);
}
