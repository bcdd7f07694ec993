use langton::direction::Direction;
use langton::engine::{decode_coord, encode_coord, Ant, Gamestate};

#[test]
fn new_engine_defaults() {
    let g = Gamestate::new();
    assert_eq!(g.get_pause_state(), true);
    assert_eq!(g.get_iteration(), 0);
    assert_eq!(g.get_speed(), 1);
    assert_eq!(g.get_update_speed(), 0);
    assert_eq!(g.get_cursor_dimensions(), (1, 1));
    assert_eq!(g.get_rule_count(), 11);
    assert_eq!(g.get_rule_length(), 2);
    assert_eq!(g.get_total_ants(), 0);
    assert_eq!(g.get_grid().len(), 0);
}

#[test]
fn place_ant_carries_its_arguments() {
    let a = Ant::place_ant(-3, 7, Direction::Down);
    assert_eq!(a.x, -3);
    assert_eq!(a.y, 7);
    assert_eq!(a.direction, Direction::Down);
}

#[test]
fn encode_decode_round_trips() {
    let coords = vec![
        (0, 0),
        (1, -1),
        (-5, 42),
        (i32::MAX, i32::MIN),
        (i32::MIN, i32::MAX),
        (i32::MAX, i32::MAX),
        (i32::MIN, i32::MIN),
    ];
    for (x, y) in coords {
        assert_eq!(decode_coord(encode_coord(x, y)), (x, y));
    }
}

#[test]
fn single_agent_first_step() {
    // One agent at (0,0) facing Up under the classic "RL" rule: after one
    // step the cell holds state 1 and the agent stands at (1,0) facing Right.
    let mut g = Gamestate::new();
    g.add_ants((0, 0));
    g.update(1, true);
    assert_eq!(g.get_grid_value((0, 0)), 1);
    assert_eq!(g.get_total_ants(), 1);
    let visible = g.get_ants_in_region(-10, 10, -10, 10);
    assert_eq!(visible.len(), 1);
    assert_eq!(visible[0], Ant { x: 1, y: 0, direction: Direction::Right });
}

#[test]
fn classic_rule_five_step_trajectory() {
    // The classic ant walks a known loop: four clockwise quarter turns bring
    // it back to (0,0), whose state it then flips back to 0 and leaves west.
    let mut g = Gamestate::new();
    g.add_ants((0, 0));
    g.update(5, true);
    assert_eq!(g.get_grid_value((0, 0)), 0);
    assert_eq!(g.get_grid_value((1, 0)), 1);
    assert_eq!(g.get_grid_value((1, 1)), 1);
    assert_eq!(g.get_grid_value((0, 1)), 1);
    let ants = g.get_ants_in_region(-10, 10, -10, 10);
    assert_eq!(ants.len(), 1);
    assert_eq!(ants[0], Ant { x: -1, y: 0, direction: Direction::Left });
    assert_eq!(g.get_iteration(), 5);
}

#[test]
fn shared_cell_steps_state_once_and_turns_agents_alike() {
    let mut g = Gamestate::new();
    g.add_ants((0, 0));
    g.add_ants((0, 0));
    assert_eq!(g.get_total_ants(), 2);
    g.update(1, true);
    // One state transition per occupied cell per tick, however many agents
    // share it; both observers read the same pre-iteration state.
    assert_eq!(g.get_grid_value((0, 0)), 1);
    let ants = g.get_ants_in_region(-10, 10, -10, 10);
    assert_eq!(ants.len(), 2);
    for a in ants {
        assert_eq!(a, Ant { x: 1, y: 0, direction: Direction::Right });
    }
}

#[test]
fn agent_count_invariant_across_steps() {
    let mut g = Gamestate::new();
    g.increment_cursor_x(2);
    g.increment_cursor_y(2);
    g.add_ants((-4, -4));
    g.add_ants((-4, -4));
    g.add_ants((100, 3));
    let before = g.get_total_ants();
    assert_eq!(before, 9 + 9 + 9);
    g.update(25, true);
    assert_eq!(g.get_total_ants(), before);
    g.update(100, true);
    assert_eq!(g.get_total_ants(), before);
}

#[test]
fn add_ants_fills_cursor_block_facing_up() {
    let mut g = Gamestate::new();
    g.increment_cursor_x(1);
    g.increment_cursor_y(2);
    assert_eq!(g.get_cursor_dimensions(), (2, 3));
    g.add_ants((10, -20));
    assert_eq!(g.get_total_ants(), 6);
    let ants = g.get_ants_in_region(10, 11, -20, -18);
    assert_eq!(ants.len(), 6);
    for a in ants.iter() {
        assert!(10 <= a.x && a.x <= 11);
        assert!(-20 <= a.y && a.y <= -18);
        assert_eq!(a.direction, Direction::Up);
    }
}

#[test]
fn region_query_matches_brute_force_scan() {
    // Pseudo-random placements and query rectangles, checked against a
    // brute-force filter over everything the engine reports globally.
    let mut g = Gamestate::new();
    let mut seed: u64 = 0x2545F4914F6CDD1D;
    let mut next = move || {
        seed ^= seed << 13;
        seed ^= seed >> 7;
        seed ^= seed << 17;
        seed
    };
    for _ in 0..60 {
        let x = (next() % 41) as i32 - 20;
        let y = (next() % 41) as i32 - 20;
        g.add_ants((x, y));
    }
    let everything = g.get_ants_in_region(i32::MIN, i32::MAX, i32::MIN, i32::MAX);
    assert_eq!(everything.len(), g.get_total_ants());
    for _ in 0..20 {
        let ax = (next() % 61) as i32 - 30;
        let bx = (next() % 61) as i32 - 30;
        let ay = (next() % 61) as i32 - 30;
        let by = (next() % 61) as i32 - 30;
        let (min_x, max_x) = (ax.min(bx), ax.max(bx));
        let (min_y, max_y) = (ay.min(by), ay.max(by));
        let queried = g.get_ants_in_region(min_x, max_x, min_y, max_y);
        let brute: Vec<Ant> = everything
            .iter()
            .copied()
            .filter(|a| min_x <= a.x && a.x <= max_x && min_y <= a.y && a.y <= max_y)
            .collect();
        assert_eq!(queried, brute);
    }
}

#[test]
fn visible_count_matches_region_query() {
    let mut g = Gamestate::new();
    g.add_ants((0, 0));
    g.add_ants((5, 5));
    g.add_ants((50, 50));
    assert_eq!(g.get_total_visible_ants((-10, -10, 10, 10)), 2);
    assert_eq!(g.get_total_visible_ants((-100, -100, 100, 100)), 3);
    assert_eq!(g.get_total_visible_ants((6, 6, 10, 10)), 0);
}

#[test]
fn select_rule_out_of_range_changes_nothing() {
    let mut g = Gamestate::new();
    g.add_ants((2, 2));
    g.update(3, true);
    let ants_before = g.get_total_ants();
    let cells_before = g.get_grid().len();
    let length_before = g.get_rule_length();
    g.select_rule(11);
    assert_eq!(g.get_rule_length(), length_before);
    assert_eq!(g.get_total_ants(), ants_before);
    assert_eq!(g.get_grid().len(), cells_before);
    assert_eq!(g.get_iteration(), 3);
}

#[test]
fn select_rule_in_range_switches() {
    let mut g = Gamestate::new();
    assert_eq!(g.get_rule_length(), 2);
    g.select_rule(1);
    assert_eq!(g.get_rule_length(), 3);
    g.select_rule(3);
    assert_eq!(g.get_rule_length(), 12);
    g.select_rule(0);
    assert_eq!(g.get_rule_length(), 2);
}

#[test]
fn cursor_never_leaves_its_clamp_range() {
    let mut g = Gamestate::new();
    g.increment_cursor_x(200);
    g.increment_cursor_y(255);
    assert_eq!(g.get_cursor_x(), 10);
    assert_eq!(g.get_cursor_y(), 10);
    for _ in 0..50 {
        g.increment_cursor_x(7);
        g.increment_cursor_y(3);
        assert!(g.get_cursor_x() <= 10);
        assert!(g.get_cursor_y() <= 10);
    }
    g.decrement_cursor_x(200);
    g.decrement_cursor_y(255);
    assert_eq!(g.get_cursor_x(), 0);
    assert_eq!(g.get_cursor_y(), 0);
    for _ in 0..50 {
        g.decrement_cursor_x(9);
        g.decrement_cursor_y(1);
        assert!(g.get_cursor_x() == 0);
        assert!(g.get_cursor_y() == 0);
    }
}

#[test]
fn cursor_steps_clamp_at_the_edges() {
    let mut g = Gamestate::new();
    g.increment_cursor_x(4);
    assert_eq!(g.get_cursor_x(), 5);
    g.increment_cursor_x(9);
    assert_eq!(g.get_cursor_x(), 10);
    g.decrement_cursor_x(3);
    assert_eq!(g.get_cursor_x(), 7);
    g.decrement_cursor_x(7);
    assert_eq!(g.get_cursor_x(), 0);
}

#[test]
fn paused_update_does_nothing_but_throughput() {
    let mut g = Gamestate::new();
    g.add_ants((0, 0));
    g.update(5, false);
    assert_eq!(g.get_grid().len(), 0);
    assert_eq!(g.get_iteration(), 0);
    assert_eq!(g.get_update_speed(), 0);
    let ants = g.get_ants_in_region(-2, 2, -2, 2);
    assert_eq!(ants.len(), 1);
    assert_eq!(ants[0], Ant { x: 0, y: 0, direction: Direction::Up });
}

#[test]
fn unpaused_update_runs_and_reports_throughput() {
    let mut g = Gamestate::new();
    g.add_ants((0, 0));
    g.invert_pause_state();
    assert_eq!(g.get_pause_state(), false);
    g.update(7, false);
    assert_eq!(g.get_iteration(), 7);
    assert_eq!(g.get_update_speed(), 7);
    g.set_pause_state(true);
    g.update(7, false);
    assert_eq!(g.get_iteration(), 7);
    assert_eq!(g.get_update_speed(), 0);
}

#[test]
fn reset_clears_world_and_counter() {
    let mut g = Gamestate::new();
    g.add_ants((0, 0));
    g.update(12, true);
    assert!(g.get_grid().len() > 0);
    g.reset();
    assert_eq!(g.get_grid().len(), 0);
    assert_eq!(g.get_total_ants(), 0);
    assert_eq!(g.get_iteration(), 0);
    assert_eq!(g.get_grid_value((0, 0)), 0);
}

#[test]
fn clear_grid_keeps_ants() {
    let mut g = Gamestate::new();
    g.add_ants((1, 1));
    g.update(2, true);
    g.clear_grid();
    assert_eq!(g.get_grid().len(), 0);
    assert_eq!(g.get_total_ants(), 1);
}

#[test]
fn clear_ants_keeps_grid() {
    let mut g = Gamestate::new();
    g.add_ants((1, 1));
    g.update(2, true);
    let cells = g.get_grid().len();
    g.clear_ants();
    assert_eq!(g.get_total_ants(), 0);
    assert_eq!(g.get_grid().len(), cells);
}

#[test]
fn grid_values_can_be_written_and_read() {
    let mut g = Gamestate::new();
    g.set_grid_value((3, -4), 1);
    assert_eq!(g.get_grid_value((3, -4)), 1);
    assert_eq!(g.get_grid_value((-4, 3)), 0);
    g.set_grid_value((3, -4), 0);
    assert_eq!(g.get_grid_value((3, -4)), 0);
    assert_eq!(g.get_grid().len(), 1);
}

#[test]
fn iteration_counter_accumulates() {
    let mut g = Gamestate::new();
    g.update(4, true);
    g.update(6, true);
    assert_eq!(g.get_iteration(), 10);
    g.increment_iteration(5);
    assert_eq!(g.get_iteration(), 15);
}

#[test]
fn speed_is_a_plain_setting() {
    let mut g = Gamestate::new();
    g.set_speed(64);
    assert_eq!(g.get_speed(), 64);
    g.set_speed(0);
    assert_eq!(g.get_speed(), 0);
}

#[test]
fn active_rule_palette_is_reachable() {
    let g = Gamestate::new();
    let rule = g.get_rule();
    assert_eq!(rule.len(), 2);
    assert_eq!(rule.get_rule_color(0), 0x000000);
    assert_eq!(rule.get_rule_color(1), 0xAAAAAA);
    assert_eq!(rule.get_rule_direction(0), Direction::Right);
    assert_eq!(rule.get_rule_direction(1), Direction::Left);
}
