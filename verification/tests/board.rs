//! Tests of the match model: start layout, ticks, meals and rounds.

use std::collections::VecDeque;

use insiculous_snake::achievements::AchievementId;
use insiculous_snake::chaos::ChaosMode;
use insiculous_snake::game::{Board, GameMode, FOOD_POINTS, INPUT_QUEUE_CAP, START_LENGTH};
use insiculous_snake::grid::{Cell, Direction};
use insiculous_snake::rules::{DeathCause, GameResult};

fn identity(seed: u32) -> u32 {
    seed
}

fn cells(v: &[(i32, i32)]) -> VecDeque<Cell> {
    v.iter().map(|&(x, y)| Cell::new(x, y)).collect()
}

#[test]
fn single_player_start_layout() {
    let mut board = Board::new(GameMode::SinglePlayer, ChaosMode::Normal);
    board.start(&identity);
    assert_eq!(board.snakes.len(), 1);
    let s = &board.snakes[0];
    assert_eq!(s.cells, cells(&[(13, 8), (12, 8), (11, 8)]));
    assert_eq!(s.cells.len(), START_LENGTH);
    assert_eq!(s.direction, Direction::Right);
    assert!(s.alive);
    assert_eq!((s.score, s.foods_eaten), (0, 0));
    // Hash of seed 0 starts the probe at cell index 0, which is free.
    assert_eq!(board.foods, vec![Cell::new(0, 0)]);
}

#[test]
fn ridiculous_start_deals_two_pellets() {
    let mut board = Board::new(GameMode::SinglePlayer, ChaosMode::Ridiculous);
    board.frame_count = 40;
    board.start(&identity);
    // Seeds 40 and 41: cell indices 40 and 41 are (14, 1) and (15, 1).
    assert_eq!(board.foods, vec![Cell::new(14, 1), Cell::new(15, 1)]);
}

#[test]
fn versus_start_layout() {
    let mut board = Board::new(GameMode::TwoPlayerVersus, ChaosMode::Normal);
    board.start(&identity);
    assert_eq!(board.snakes.len(), 2);
    assert_eq!(board.snakes[0].cells, cells(&[(6, 5), (5, 5), (4, 5)]));
    assert_eq!(board.snakes[0].direction, Direction::Right);
    assert_eq!(board.snakes[1].cells, cells(&[(19, 10), (20, 10), (21, 10)]));
    assert_eq!(board.snakes[1].direction, Direction::Left);
    assert_eq!(board.foods.len(), 1);
}

#[test]
fn a_tick_moves_the_snake_and_a_meal_scores() {
    let mut board = Board::new(GameMode::SinglePlayer, ChaosMode::Normal);
    board.start(&identity);
    let r = board.advance(&identity);
    assert!(r.meals.is_empty());
    assert_eq!(r.result, None);
    assert_eq!(board.snakes[0].cells, cells(&[(14, 8), (13, 8), (12, 8)]));

    // Put the pellet right in front of the head.
    board.foods = vec![Cell::new(15, 8)];
    board.frame_count = 5;
    let r = board.advance(&identity);
    assert_eq!(r.result, None);
    assert_eq!(r.meals.len(), 1);
    let m = &r.meals[0];
    assert_eq!((m.snake, m.cell, m.removed_food), (0, Cell::new(15, 8), 0));
    // Replacement seeded with frame 5 plus the pellet count (0): cell index 5.
    assert_eq!(m.added_foods, vec![Cell::new(5, 0)]);
    assert_eq!(board.foods, vec![Cell::new(5, 0)]);
    let s = &board.snakes[0];
    assert_eq!(s.cells, cells(&[(15, 8), (14, 8), (13, 8), (12, 8)]));
    assert_eq!(s.score, FOOD_POINTS);
    assert_eq!(s.foods_eaten, 1);
    assert_eq!(board.total_foods_eaten(), 1);
}

#[test]
fn buffered_turns_steer_and_reversals_are_ignored() {
    let mut board = Board::new(GameMode::SinglePlayer, ChaosMode::Normal);
    board.start(&identity);
    board.queue_turn(0, Direction::Left); // reversal: queued but discarded on apply
    board.queue_turn(0, Direction::Left); // same as the last queued: not queued again
    assert_eq!(board.snakes[0].input_queue.len(), 1);
    board.queue_turn(0, Direction::Up);
    board.queue_turn(0, Direction::Down); // queue full
    assert_eq!(board.snakes[0].input_queue.len(), INPUT_QUEUE_CAP);
    board.queue_turn(7, Direction::Up); // no such snake: nothing happens
    let r = board.advance(&identity);
    assert_eq!(r.result, None);
    assert_eq!(board.snakes[0].direction, Direction::Up);
    assert_eq!(board.snakes[0].cells[0], Cell::new(13, 9));
    assert!(board.snakes[0].input_queue.is_empty());
}

#[test]
fn running_into_the_wall_ends_a_solo_round() {
    let mut board = Board::new(GameMode::SinglePlayer, ChaosMode::Normal);
    board.start(&identity);
    board.foods = vec![Cell::new(0, 0)];
    let mut result = None;
    for _ in 0..13 {
        let r = board.advance(&identity);
        if r.result.is_some() {
            result = r.result;
            break;
        }
    }
    assert_eq!(result, Some(GameResult::Solo(DeathCause::Wall)));
    assert!(!board.snakes[0].alive);
    // The dead snake stays where it died, head on the last column.
    assert_eq!(board.snakes[0].cells[0], Cell::new(25, 8));
    // A dead snake takes no more turns.
    board.queue_turn(0, Direction::Up);
    assert!(board.snakes[0].input_queue.is_empty());
}

#[test]
fn wrapping_walls_let_the_snake_through() {
    let mut board = Board::new(GameMode::SinglePlayer, ChaosMode::Ridiculous);
    board.start(&identity);
    board.foods = vec![Cell::new(0, 0), Cell::new(1, 0)];
    for _ in 0..13 {
        let r = board.advance(&identity);
        assert_eq!(r.result, None);
    }
    assert_eq!(board.snakes[0].cells, cells(&[(0, 8), (25, 8), (24, 8)]));
}

#[test]
fn versus_head_on_is_a_draw_and_both_die() {
    let mut board = Board::new(GameMode::TwoPlayerVersus, ChaosMode::Normal);
    board.start(&identity);
    // Steer both heads onto row 7 at columns 12 and 14, facing each other.
    board.snakes[0].cells = cells(&[(12, 7), (11, 7), (10, 7)]);
    board.snakes[1].cells = cells(&[(14, 7), (15, 7), (16, 7)]);
    board.foods = vec![Cell::new(0, 0)];
    let r = board.advance(&identity);
    assert_eq!(r.result, Some(GameResult::Draw));
    assert!(!board.snakes[0].alive && !board.snakes[1].alive);
    assert!(r.meals.is_empty());
}

#[test]
fn versus_meals_are_booked_snake_zero_first() {
    let mut board = Board::new(GameMode::TwoPlayerVersus, ChaosMode::Ridiculous);
    board.start(&identity);
    board.foods = vec![Cell::new(7, 5), Cell::new(18, 10)];
    let r = board.advance(&identity);
    assert_eq!(r.result, None);
    assert_eq!(r.meals.len(), 2);
    assert_eq!((r.meals[0].snake, r.meals[0].cell, r.meals[0].removed_food), (0, Cell::new(7, 5), 0));
    assert_eq!((r.meals[1].snake, r.meals[1].cell), (1, Cell::new(18, 10)));
    assert_eq!(board.snakes[0].cells.len(), START_LENGTH + 1);
    assert_eq!(board.snakes[1].cells.len(), START_LENGTH + 1);
    assert_eq!(board.snakes[0].score, FOOD_POINTS);
    assert_eq!(board.snakes[1].score, FOOD_POINTS);
    assert_eq!(board.total_foods_eaten(), 2);
    assert_eq!(board.foods.len(), 2);
    for f in &board.foods {
        assert!(!board.snakes[0].cells.contains(f) && !board.snakes[1].cells.contains(f));
    }
}

#[test]
fn versus_lone_survivor_wins() {
    let mut board = Board::new(GameMode::TwoPlayerVersus, ChaosMode::Normal);
    board.start(&identity);
    board.snakes[0].cells = cells(&[(25, 5), (24, 5), (23, 5)]);
    board.foods = vec![Cell::new(0, 0)];
    let r = board.advance(&identity);
    assert_eq!(
        r.result,
        Some(GameResult::Winner { player: 2, loser_cause: DeathCause::Wall })
    );
    assert!(!board.snakes[0].alive);
    assert!(board.snakes[1].alive);
    assert_eq!(board.snakes[1].cells[0], Cell::new(18, 10));
}

#[test]
fn meal_achievements_are_single_player_only() {
    let mut board = Board::new(GameMode::SinglePlayer, ChaosMode::Normal);
    board.start(&identity);
    board.foods = vec![Cell::new(14, 8)];
    board.advance(&identity);
    board.foods = vec![Cell::new(15, 8)];
    board.advance(&identity);
    assert_eq!(board.snakes[0].foods_eaten, 2);
    assert_eq!(board.meal_achievements(0, 800), vec![AchievementId::QuickSnack]);
    assert!(board.meal_achievements(0, 2000).is_empty());

    let mut versus = Board::new(GameMode::TwoPlayerVersus, ChaosMode::Normal);
    versus.start(&identity);
    assert!(versus.meal_achievements(0, 0).is_empty());
}

#[test]
fn a_full_board_stops_placing_pellets() {
    // A snake threading every cell but one: eating that last pellet leaves no
    // free cell, so no replacement pellet appears.
    let mut body: Vec<(i32, i32)> = Vec::new();
    for y in 0..16 {
        let row: Vec<i32> = if y % 2 == 0 { (0..26).collect() } else { (0..26).rev().collect() };
        for x in row {
            body.push((x, y));
        }
    }
    // Head at the far end of the path, body trailing back to the start.
    body.reverse();
    let food = body.remove(0);
    let mut board = Board::new(GameMode::SinglePlayer, ChaosMode::Normal);
    board.start(&identity);
    board.snakes[0].cells = cells(&body);
    board.snakes[0].foods_eaten = (body.len() - START_LENGTH) as u32;
    board.snakes[0].score = board.snakes[0].foods_eaten * FOOD_POINTS;
    board.snakes[0].direction = Direction::Left;
    board.foods = vec![Cell::new(food.0, food.1)];
    let r = board.advance(&identity);
    assert_eq!(r.result, None);
    assert_eq!(r.meals.len(), 1);
    assert!(r.meals[0].added_foods.is_empty());
    assert!(board.foods.is_empty());
    assert_eq!(board.snakes[0].cells.len(), 416);
}
