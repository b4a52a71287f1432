use pgb1::snake::{Direction, Food, Position, Snake, SnakeGame};
use rand::rngs::SmallRng;
use rand::SeedableRng;

#[test]
fn fresh_snake_is_five_cells_at_origin() {
    let s = Snake::<100>::new(40, 20);
    assert_eq!(s.get_len(), 5);
    assert_eq!(s.get_head(), Position { x: 0, y: 0 });
    let segs = s.segments();
    assert_eq!(segs.len(), 5);
    for p in segs {
        assert_eq!(p, Position { x: 0, y: 0 });
    }
}

#[test]
fn head_wraps_left_from_column_zero() {
    // A 40 by 20 grid, head steered to (0, 10), then one step further left.
    let mut s = Snake::<100>::new(40, 20);
    s.set_direction(Direction::Down);
    for _ in 0..10 {
        s.make_step();
    }
    assert_eq!(s.get_head(), Position { x: 0, y: 10 });
    s.set_direction(Direction::Left);
    s.make_step();
    assert_eq!(s.get_head(), Position { x: 39, y: 10 });
}

#[test]
fn head_wraps_on_every_boundary() {
    let mut s = Snake::<100>::new(40, 20);
    s.set_direction(Direction::Left);
    s.make_step();
    assert_eq!(s.get_head(), Position { x: 39, y: 0 });
    s.set_direction(Direction::Right);
    s.make_step();
    assert_eq!(s.get_head(), Position { x: 0, y: 0 });
    s.set_direction(Direction::Up);
    s.make_step();
    assert_eq!(s.get_head(), Position { x: 0, y: 19 });
    s.set_direction(Direction::Down);
    s.make_step();
    assert_eq!(s.get_head(), Position { x: 0, y: 0 });
}

#[test]
fn idle_direction_keeps_head_still() {
    let mut s = Snake::<100>::new(40, 20);
    s.make_step();
    assert_eq!(s.get_head(), Position { x: 0, y: 0 });
}

#[test]
fn grow_stops_at_capacity_ceiling() {
    let mut small = Snake::<6>::new(40, 20);
    assert_eq!(small.get_len(), 5);
    small.grow();
    assert_eq!(small.get_len(), 5);

    let mut roomy = Snake::<100>::new(40, 20);
    roomy.grow();
    assert_eq!(roomy.get_len(), 6);
}

#[test]
fn replaced_food_always_avoids_the_body() {
    let snake = Snake::<100>::new(40, 20);
    let rng = SmallRng::seed_from_u64(3);
    let mut food = Food::new(rng, 40, 20);
    for _ in 0..100 {
        food.replace(&snake);
        let p = food.get_position();
        assert!(p.x < 40 && p.y < 20);
        for seg in snake.segments() {
            assert_ne!(p, seg);
        }
    }
}

#[test]
fn replaced_food_fits_a_tight_grid() {
    // Five cells piled on the origin of a six-cell grid: every placement
    // must land on one of the five remaining cells.
    let snake = Snake::<6>::new(2, 3);
    let rng = SmallRng::seed_from_u64(11);
    let mut food = Food::new(rng, 2, 3);
    for _ in 0..50 {
        food.replace(&snake);
        let p = food.get_position();
        assert!(p.x < 2 && p.y < 3);
        assert_ne!(p, Position { x: 0, y: 0 });
    }
}

#[test]
fn fresh_game_has_food_off_the_body() {
    let rng = SmallRng::seed_from_u64(42);
    let g = SnakeGame::<100>::new(40, 20, 1, 1, rng, 255);
    assert_eq!(g.get_len(), 5);
    assert_eq!(g.get_food_age(), 0);
    let food = g.get_food_position();
    for p in g.segments() {
        assert_ne!(p, food);
    }
}

/// Steer the head along one axis at a time until it lands on the food.
fn steer_onto_food(g: &mut SnakeGame<100>) -> (Position, usize) {
    let food = g.get_food_position();
    loop {
        let head = g.get_head();
        if head == food {
            return (food, g.get_len());
        }
        let d = if head.x != food.x { Direction::Right } else { Direction::Down };
        g.set_direction(d);
        let len_before = g.get_len();
        g.tick();
        if g.get_head() == food {
            return (food, len_before);
        }
    }
}

#[test]
fn eating_food_grows_by_exactly_one() {
    let rng = SmallRng::seed_from_u64(42);
    let mut g = SnakeGame::<100>::new(40, 20, 1, 1, rng, 255);
    let (eaten, len_before) = steer_onto_food(&mut g);
    assert_eq!(len_before, 5);
    assert_eq!(g.get_len(), 6);
    // The food respawned off the now six-cell body.
    let new_food = g.get_food_position();
    assert_ne!(new_food, eaten);
    let segs = g.segments();
    assert_eq!(segs.len(), 6);
    for p in segs {
        assert_ne!(p, new_food);
    }
    assert_eq!(g.get_food_age(), 0);
}

#[test]
fn eating_at_capacity_leaves_length_alone() {
    let rng = SmallRng::seed_from_u64(7);
    let mut g = SnakeGame::<6>::new(40, 20, 1, 1, rng, 255);
    let food = g.get_food_position();
    loop {
        let head = g.get_head();
        if head == food {
            break;
        }
        let d = if head.x != food.x { Direction::Right } else { Direction::Down };
        g.set_direction(d);
        g.tick();
        if g.get_head() == food {
            break;
        }
    }
    assert_eq!(g.get_len(), 5);
}

#[test]
fn uneaten_food_ages_out_at_lifetime() {
    let rng = SmallRng::seed_from_u64(42);
    let mut g = SnakeGame::<100>::new(40, 20, 1, 1, rng, 255);
    let placed = g.get_food_position();
    for i in 1..=254u32 {
        g.tick();
        assert_eq!(g.get_food_age() as u32, i);
        assert_eq!(g.get_food_position(), placed);
    }
    g.tick();
    assert_eq!(g.get_food_age(), 0);
    assert_ne!(g.get_food_position(), placed);
}

#[test]
fn short_lifetime_respawns_on_schedule() {
    let rng = SmallRng::seed_from_u64(9);
    let mut g = SnakeGame::<100>::new(40, 20, 1, 1, rng, 3);
    g.tick();
    assert_eq!(g.get_food_age(), 1);
    g.tick();
    assert_eq!(g.get_food_age(), 2);
    g.tick();
    assert_eq!(g.get_food_age(), 0);
}

#[test]
fn cells_list_body_then_food() {
    let rng = SmallRng::seed_from_u64(42);
    let g = SnakeGame::<100>::new(40, 20, 1, 1, rng, 255);
    let cells = g.cells();
    let segs = g.segments();
    assert_eq!(cells.len(), segs.len() + 1);
    for i in 0..segs.len() {
        assert_eq!(cells[i], segs[i]);
    }
    assert_eq!(cells[segs.len()], g.get_food_position());
}
