//! The simulation engine: the sparse grid of cell states, the agent
//! population, the rule catalog and selection, the per-tick stepping
//! algorithm and the spatial region query.

use std::collections::HashMap;
use vstd::prelude::*;
use vstd::arithmetic::div_mod::{
    lemma_fundamental_div_mod, lemma_fundamental_div_mod_converse, lemma_div_is_ordered,
    lemma_mod_bound,
};
use vstd::arithmetic::mul::lemma_mul_inequality;
use crate::direction::Direction;
use crate::rule::{Rule, spec_turns, spec_palette, all_turns_valid};

verus! {

broadcast use vstd::std_specs::hash::group_hash_axioms;

/// An agent: a grid position and a heading. Agents are plain values; several
/// may share one coordinate.
#[derive(Clone, Copy, Debug, PartialEq, Eq, Structural)]
pub struct Ant {
    pub x: i32,
    pub y: i32,
    pub direction: Direction,
}

impl Ant {
    /// Builds an agent at the given position with the given heading.
    pub fn place_ant(x: i32, y: i32, direction: Direction) -> (r: Ant)
        ensures
            r == (Ant { x, y, direction }),
    {
        Ant { x, y, direction }
    }
}

/// The key under which a coordinate pair is stored in the grid: both
/// coordinates shifted to unsigned range, the x part in the upper half.
/// The encoding is injective (`lemma_coord_key_injective`), so the grid
/// behaves as a map over coordinate pairs.
pub open spec fn coord_key(x: i32, y: i32) -> u64 {
    ((x + 0x8000_0000) * 0x1_0000_0000 + (y + 0x8000_0000)) as u64
}

/// The grid key of an agent's position.
pub open spec fn ant_key(a: Ant) -> u64 {
    coord_key(a.x, a.y)
}

/// Distinct coordinate pairs have distinct grid keys.
pub proof fn lemma_coord_key_injective(x1: i32, y1: i32, x2: i32, y2: i32)
    requires
        coord_key(x1, y1) == coord_key(x2, y2),
    ensures
        x1 == x2 && y1 == y2,
{
    let k1 = (x1 + 0x8000_0000) * 0x1_0000_0000 + (y1 + 0x8000_0000);
    let k2 = (x2 + 0x8000_0000) * 0x1_0000_0000 + (y2 + 0x8000_0000);
    assert(0 <= k1 < 0x1_0000_0000_0000_0000);
    assert(0 <= k2 < 0x1_0000_0000_0000_0000);
    assert(k1 == k2);
    lemma_fundamental_div_mod_converse(k1, 0x1_0000_0000, x1 + 0x8000_0000, y1 + 0x8000_0000);
    lemma_fundamental_div_mod_converse(k2, 0x1_0000_0000, x2 + 0x8000_0000, y2 + 0x8000_0000);
}

/// Computes the grid key of a coordinate pair.
pub fn encode_coord(x: i32, y: i32) -> (k: u64)
    ensures
        k == coord_key(x, y),
{
    let xo: u64 = ((x as i64) + 0x8000_0000) as u64;
    let yo: u64 = ((y as i64) + 0x8000_0000) as u64;
    xo * 0x1_0000_0000 + yo
}

/// Recovers the coordinate pair a grid key stands for.
pub fn decode_coord(k: u64) -> (r: (i32, i32))
    ensures
        coord_key(r.0, r.1) == k,
{
    let xo: u64 = k / 0x1_0000_0000;
    let yo: u64 = k % 0x1_0000_0000;
    proof {
        lemma_div_is_ordered(k as int, u64::MAX as int, 0x1_0000_0000);
        lemma_mod_bound(k as int, 0x1_0000_0000);
        lemma_fundamental_div_mod(k as int, 0x1_0000_0000);
    }
    let x: i32 = ((xo as i64) - 0x8000_0000) as i32;
    let y: i32 = ((yo as i64) - 0x8000_0000) as i32;
    (x, y)
}

/// The state of a cell in a grid snapshot; a missing key means the unvisited
/// state 0.
pub open spec fn grid_state(grid: Map<u64, u8>, k: u64) -> u8 {
    if grid.contains_key(k) {
        grid[k]
    } else {
        0
    }
}

/// Whether an agent lies inside the inclusive query rectangle.
pub open spec fn in_rect(a: Ant, min_x: i32, max_x: i32, min_y: i32, max_y: i32) -> bool {
    min_x <= a.x <= max_x && min_y <= a.y <= max_y
}

/// Whether a rule was built from the given turn string and endpoint colors.
pub open spec fn catalog_entry(r: Rule, s: Seq<char>, start: u32, end: u32) -> bool {
    &&& r.directions@ == spec_turns(s)
    &&& r.colors@ == spec_palette(start, end, s.len() as int)
}

/// State carried across mutator calls that touch neither the grid nor the
/// agents: equality of the two stores.
pub open spec fn unchanged_world(a: Gamestate, b: Gamestate) -> bool {
    &&& a.grid@ == b.grid@
    &&& a.ants@ == b.ants@
}

/// Equality of the two telemetry counters.
pub open spec fn unchanged_counters(a: Gamestate, b: Gamestate) -> bool {
    &&& a.iteration == b.iteration
    &&& a.update_speed == b.update_speed
}

/// Equality of the rule catalog and the selection.
pub open spec fn unchanged_catalog(a: Gamestate, b: Gamestate) -> bool {
    &&& a.selected_rule == b.selected_rule
    &&& a.rules == b.rules
}

/// Equality of the external control parameters.
pub open spec fn unchanged_controls(a: Gamestate, b: Gamestate) -> bool {
    &&& a.paused == b.paused
    &&& a.speed == b.speed
    &&& a.cursor_size == b.cursor_size
    &&& a.max_cursor_size == b.max_cursor_size
}

/// The simulation engine. It exclusively owns the grid (cell states keyed by
/// encoded coordinates), the agent population, the rule catalog and all
/// control parameters.
pub struct Gamestate {
    pub grid: HashMap<u64, u8>,
    pub ants: Vec<Ant>,
    pub paused: bool,
    pub iteration: u128,
    pub speed: u32,
    pub update_speed: u64,
    pub cursor_size: (u8, u8),
    pub max_cursor_size: u8,
    pub selected_rule: usize,
    pub rules: Vec<Rule>,
}

impl Gamestate {
    /// Structural invariant: a non-empty catalog of well-formed rules (each
    /// short enough that its states fit a cell byte), a valid selection, and
    /// cursor dimensions inside their clamp range.
    pub open spec fn wf(&self) -> bool {
        &&& self.rules@.len() >= 1
        &&& self.selected_rule < self.rules@.len()
        &&& forall|i: int| 0 <= i < self.rules@.len() ==> (#[trigger] self.rules@[i]).wf()
        &&& forall|i: int|
            0 <= i < self.rules@.len() ==> (#[trigger] self.rules@[i]).directions@.len() <= 255
        &&& self.max_cursor_size == 10
        &&& self.cursor_size.0 <= 10
        &&& self.cursor_size.1 <= 10
    }

    /// The turn sequence of the currently selected rule.
    pub open spec fn active_turns(&self) -> Seq<Direction> {
        self.rules@[self.selected_rule as int].directions@
    }

    /// The state of the cell at a coordinate pair (0 where unvisited).
    pub open spec fn cell_state(&self, x: i32, y: i32) -> u8 {
        grid_state(self.grid@, coord_key(x, y))
    }

    /// Builds one catalog rule from a literal whose characters are known to
    /// be valid turn tokens.
    fn build_rule(s: &str, start: u32, end: u32) -> (r: Rule)
        requires
            1 <= s@.len() <= 255,
            all_turns_valid(s@),
        ensures
            r.wf(),
            r.directions@.len() == s@.len(),
            catalog_entry(r, s@, start, end),
    {
        match Rule::new(s, (start, end)) {
            Ok(r) => r,
            Err(_) => unreached(),
        }
    }

    /// A fresh engine: empty grid and population, paused, zero iterations,
    /// unit speed, a 1-by-1 cursor clamped at 10, and the fixed catalog of
    /// rule presets with the first entry selected.
    pub fn new() -> (r: Gamestate)
        ensures
            r.wf(),
            r.grid@ == Map::<u64, u8>::empty(),
            r.ants@ == Seq::<Ant>::empty(),
            r.paused == true,
            r.iteration == 0,
            r.speed == 1,
            r.update_speed == 0,
            r.cursor_size == (1u8, 1u8),
            r.max_cursor_size == 10,
            r.selected_rule == 0,
            r.rules@.len() == 11,
            catalog_entry(r.rules@[0], "RL"@, 0x00000, 0xAAAAAA),
            catalog_entry(r.rules@[1], "LRL"@, 0x005524, 0x2bb25a),
            catalog_entry(r.rules@[2], "RLLLLLRRL"@, 0x260511, 0x95097e),
            catalog_entry(r.rules@[3], "RRLLLRLLLRRR"@, 0x000021, 0x06d7b4),
            catalog_entry(r.rules@[4], "RRLL"@, 0x120021, 0xFF00AA),
            catalog_entry(r.rules@[5], "LLRRRLRLRLLR"@, 0x333300, 0xFFFF00),
            catalog_entry(r.rules@[6], "RLLR"@, 0x00AAAA, 0xFF5500),
            catalog_entry(r.rules@[7], "RRLLRR"@, 0xDAF7A6, 0x581845),
            catalog_entry(r.rules@[8], "LRRLRL"@, 0xFFC300, 0xFF5733),
            catalog_entry(r.rules@[9], "RRRLLLL"@, 0x11998E, 0x3B5998),
            catalog_entry(r.rules@[10], "RLLLRRR"@, 0x00FFFF, 0xFF00FF),
    {
        proof {
            reveal_strlit("RL");
            reveal_strlit("LRL");
            reveal_strlit("RLLLLLRRL");
            reveal_strlit("RRLLLRLLLRRR");
            reveal_strlit("RRLL");
            reveal_strlit("LLRRRLRLRLLR");
            reveal_strlit("RLLR");
            reveal_strlit("RRLLRR");
            reveal_strlit("LRRLRL");
            reveal_strlit("RRRLLLL");
            reveal_strlit("RLLLRRR");
        }
        let mut rules: Vec<Rule> = Vec::new();
        rules.push(Gamestate::build_rule("RL", 0x00000, 0xAAAAAA));
        rules.push(Gamestate::build_rule("LRL", 0x005524, 0x2bb25a));
        rules.push(Gamestate::build_rule("RLLLLLRRL", 0x260511, 0x95097e));
        rules.push(Gamestate::build_rule("RRLLLRLLLRRR", 0x000021, 0x06d7b4));
        rules.push(Gamestate::build_rule("RRLL", 0x120021, 0xFF00AA));
        rules.push(Gamestate::build_rule("LLRRRLRLRLLR", 0x333300, 0xFFFF00));
        rules.push(Gamestate::build_rule("RLLR", 0x00AAAA, 0xFF5500));
        rules.push(Gamestate::build_rule("RRLLRR", 0xDAF7A6, 0x581845));
        rules.push(Gamestate::build_rule("LRRLRL", 0xFFC300, 0xFF5733));
        rules.push(Gamestate::build_rule("RRRLLLL", 0x11998E, 0x3B5998));
        rules.push(Gamestate::build_rule("RLLLRRR", 0x00FFFF, 0xFF00FF));
        Gamestate {
            grid: HashMap::new(),
            ants: Vec::new(),
            paused: true,
            iteration: 0,
            speed: 1,
            update_speed: 0,
            cursor_size: (1, 1),
            max_cursor_size: 10,
            selected_rule: 0,
            rules,
        }
    }

    /// A read-only view of the grid store; keys decode to coordinate pairs
    /// through `decode_coord`.
    pub fn get_grid(&self) -> (r: &HashMap<u64, u8>)
        ensures
            r@ == self.grid@,
    {
        &self.grid
    }

    /// The state of one cell (0 where unvisited).
    pub fn get_grid_value(&self, key: (i32, i32)) -> (r: u8)
        ensures
            r == self.cell_state(key.0, key.1),
    {
        let k = encode_coord(key.0, key.1);
        match self.grid.get(&k) {
            Some(v) => *v,
            None => 0,
        }
    }

    /// Writes one cell state.
    pub fn set_grid_value(&mut self, key: (i32, i32), value: u8)
        ensures
            final(self).grid@ == old(self).grid@.insert(coord_key(key.0, key.1), value),
            final(self).ants@ == old(self).ants@,
            unchanged_controls(*old(self), *final(self)),
            unchanged_counters(*old(self), *final(self)),
            unchanged_catalog(*old(self), *final(self)),
    {
        let k = encode_coord(key.0, key.1);
        self.grid.insert(k, value);
    }

    /// Empties the grid; the agents stay.
    pub fn clear_grid(&mut self)
        ensures
            final(self).grid@ == Map::<u64, u8>::empty(),
            final(self).ants@ == old(self).ants@,
            unchanged_controls(*old(self), *final(self)),
            unchanged_counters(*old(self), *final(self)),
            unchanged_catalog(*old(self), *final(self)),
    {
        self.grid.clear();
    }

    /// Removes every agent; the grid stays.
    pub fn clear_ants(&mut self)
        ensures
            final(self).ants@ == Seq::<Ant>::empty(),
            final(self).grid@ == old(self).grid@,
            unchanged_controls(*old(self), *final(self)),
            unchanged_counters(*old(self), *final(self)),
            unchanged_catalog(*old(self), *final(self)),
    {
        self.ants.clear();
    }

    /// Empties grid and population and restarts the iteration counter; used
    /// whenever the selected rule changes, since cell states are only
    /// meaningful under the rule that wrote them.
    pub fn reset(&mut self)
        ensures
            final(self).grid@ == Map::<u64, u8>::empty(),
            final(self).ants@ == Seq::<Ant>::empty(),
            final(self).iteration == 0,
            final(self).update_speed == old(self).update_speed,
            unchanged_controls(*old(self), *final(self)),
            unchanged_catalog(*old(self), *final(self)),
    {
        self.grid.clear();
        self.ants.clear();
        self.iteration = 0;
    }

    /// Whether the simulation is paused.
    pub fn get_pause_state(&self) -> (r: bool)
        ensures
            r == self.paused,
    {
        self.paused
    }

    /// Toggles the pause flag.
    pub fn invert_pause_state(&mut self)
        ensures
            final(self).paused == !old(self).paused,
            final(self).speed == old(self).speed,
            final(self).cursor_size == old(self).cursor_size,
            final(self).max_cursor_size == old(self).max_cursor_size,
            unchanged_world(*old(self), *final(self)),
            unchanged_counters(*old(self), *final(self)),
            unchanged_catalog(*old(self), *final(self)),
    {
        self.paused = !self.paused;
    }

    /// Sets the pause flag.
    pub fn set_pause_state(&mut self, value: bool)
        ensures
            final(self).paused == value,
            final(self).speed == old(self).speed,
            final(self).cursor_size == old(self).cursor_size,
            final(self).max_cursor_size == old(self).max_cursor_size,
            unchanged_world(*old(self), *final(self)),
            unchanged_counters(*old(self), *final(self)),
            unchanged_catalog(*old(self), *final(self)),
    {
        self.paused = value;
    }

    /// The monotonic count of iterations performed since the last reset.
    pub fn get_iteration(&self) -> (r: u128)
        ensures
            r == self.iteration,
    {
        self.iteration
    }

    /// Advances the iteration counter, saturating at the counter's bound.
    pub fn increment_iteration(&mut self, value: u32)
        ensures
            final(self).iteration == if old(self).iteration + value <= u128::MAX {
                (old(self).iteration + value) as u128
            } else {
                u128::MAX
            },
            final(self).update_speed == old(self).update_speed,
            unchanged_world(*old(self), *final(self)),
            unchanged_controls(*old(self), *final(self)),
            unchanged_catalog(*old(self), *final(self)),
    {
        self.iteration = self.iteration.saturating_add(value as u128);
    }

    /// The speed multiplier: iterations asked of each external tick.
    pub fn get_speed(&self) -> (r: u32)
        ensures
            r == self.speed,
    {
        self.speed
    }

    /// Sets the speed multiplier; the engine itself enforces no upper bound.
    pub fn set_speed(&mut self, value: u32)
        ensures
            final(self).speed == value,
            final(self).paused == old(self).paused,
            final(self).cursor_size == old(self).cursor_size,
            final(self).max_cursor_size == old(self).max_cursor_size,
            unchanged_world(*old(self), *final(self)),
            unchanged_counters(*old(self), *final(self)),
            unchanged_catalog(*old(self), *final(self)),
    {
        self.speed = value;
    }

    /// Iterations performed by the most recent `update` call.
    pub fn get_update_speed(&self) -> (r: u64)
        ensures
            r == self.update_speed,
    {
        self.update_speed
    }

    /// Both placement-cursor dimensions.
    pub fn get_cursor_dimensions(&self) -> (r: (u8, u8))
        ensures
            r == self.cursor_size,
    {
        self.cursor_size
    }

    /// The placement cursor's width.
    pub fn get_cursor_x(&self) -> (r: u8)
        ensures
            r == self.cursor_size.0,
    {
        self.cursor_size.0
    }

    /// The placement cursor's height.
    pub fn get_cursor_y(&self) -> (r: u8)
        ensures
            r == self.cursor_size.1,
    {
        self.cursor_size.1
    }

    /// Widens the cursor by `value`, clamped to the maximum of 10.
    pub fn increment_cursor_x(&mut self, value: u8)
        requires
            old(self).wf(),
        ensures
            final(self).wf(),
            final(self).cursor_size.0 as int == if old(self).cursor_size.0 + value < 10 {
                old(self).cursor_size.0 + value
            } else {
                10
            },
            final(self).cursor_size.0 <= 10,
            final(self).cursor_size.1 == old(self).cursor_size.1,
            final(self).paused == old(self).paused,
            final(self).speed == old(self).speed,
            final(self).max_cursor_size == old(self).max_cursor_size,
            unchanged_world(*old(self), *final(self)),
            unchanged_counters(*old(self), *final(self)),
            unchanged_catalog(*old(self), *final(self)),
    {
        let sum = self.cursor_size.0 as u16 + value as u16;
        if sum < self.max_cursor_size as u16 {
            self.cursor_size.0 = sum as u8;
        } else {
            self.cursor_size.0 = self.max_cursor_size;
        }
    }

    /// Heightens the cursor by `value`, clamped to the maximum of 10.
    pub fn increment_cursor_y(&mut self, value: u8)
        requires
            old(self).wf(),
        ensures
            final(self).wf(),
            final(self).cursor_size.1 as int == if old(self).cursor_size.1 + value < 10 {
                old(self).cursor_size.1 + value
            } else {
                10
            },
            final(self).cursor_size.1 <= 10,
            final(self).cursor_size.0 == old(self).cursor_size.0,
            final(self).paused == old(self).paused,
            final(self).speed == old(self).speed,
            final(self).max_cursor_size == old(self).max_cursor_size,
            unchanged_world(*old(self), *final(self)),
            unchanged_counters(*old(self), *final(self)),
            unchanged_catalog(*old(self), *final(self)),
    {
        let sum = self.cursor_size.1 as u16 + value as u16;
        if sum < self.max_cursor_size as u16 {
            self.cursor_size.1 = sum as u8;
        } else {
            self.cursor_size.1 = self.max_cursor_size;
        }
    }

    /// Narrows the cursor by `value`, saturating at 0 instead of wrapping.
    pub fn decrement_cursor_x(&mut self, value: u8)
        requires
            old(self).wf(),
        ensures
            final(self).wf(),
            final(self).cursor_size.0 as int == if old(self).cursor_size.0 - value >= 0 {
                old(self).cursor_size.0 - value
            } else {
                0
            },
            final(self).cursor_size.1 == old(self).cursor_size.1,
            final(self).paused == old(self).paused,
            final(self).speed == old(self).speed,
            final(self).max_cursor_size == old(self).max_cursor_size,
            unchanged_world(*old(self), *final(self)),
            unchanged_counters(*old(self), *final(self)),
            unchanged_catalog(*old(self), *final(self)),
    {
        match self.cursor_size.0.checked_sub(value) {
            Some(result) => self.cursor_size.0 = result,
            None => self.cursor_size.0 = 0,
        }
    }

    /// Shortens the cursor by `value`, saturating at 0 instead of wrapping.
    pub fn decrement_cursor_y(&mut self, value: u8)
        requires
            old(self).wf(),
        ensures
            final(self).wf(),
            final(self).cursor_size.1 as int == if old(self).cursor_size.1 - value >= 0 {
                old(self).cursor_size.1 - value
            } else {
                0
            },
            final(self).cursor_size.0 == old(self).cursor_size.0,
            final(self).paused == old(self).paused,
            final(self).speed == old(self).speed,
            final(self).max_cursor_size == old(self).max_cursor_size,
            unchanged_world(*old(self), *final(self)),
            unchanged_counters(*old(self), *final(self)),
            unchanged_catalog(*old(self), *final(self)),
    {
        match self.cursor_size.1.checked_sub(value) {
            Some(result) => self.cursor_size.1 = result,
            None => self.cursor_size.1 = 0,
        }
    }

    /// Makes the rule at `rule_number` active. An index outside the catalog
    /// leaves the engine entirely unchanged (the caller may report it); it
    /// is never a fatal error.
    pub fn select_rule(&mut self, rule_number: usize)
        requires
            old(self).wf(),
        ensures
            final(self).wf(),
            rule_number < old(self).rules@.len() ==> final(self).selected_rule == rule_number,
            rule_number >= old(self).rules@.len() ==> final(self).selected_rule == old(
                self,
            ).selected_rule,
            final(self).rules == old(self).rules,
            unchanged_world(*old(self), *final(self)),
            unchanged_counters(*old(self), *final(self)),
            unchanged_controls(*old(self), *final(self)),
    {
        if rule_number < self.rules.len() {
            self.selected_rule = rule_number;
        }
    }

    /// A copy of the currently selected rule.
    pub fn get_rule(&self) -> (r: Rule)
        requires
            self.wf(),
        ensures
            r.directions@ == self.active_turns(),
            r.colors@ == self.rules@[self.selected_rule as int].colors@,
            r.wf(),
    {
        self.rules[self.selected_rule].clone()
    }

    /// The number of states of the currently selected rule.
    pub fn get_rule_length(&self) -> (r: u8)
        requires
            self.wf(),
        ensures
            r as int == self.active_turns().len(),
    {
        self.rules[self.selected_rule].directions.len() as u8
    }

    /// The number of rules in the catalog.
    pub fn get_rule_count(&self) -> (r: usize)
        ensures
            r == self.rules@.len(),
    {
        self.rules.len()
    }

    /// The total number of agents alive.
    pub fn get_total_ants(&self) -> (r: usize)
        ensures
            r == self.ants@.len(),
    {
        self.ants.len()
    }

    /// Inserts one new agent per cell of the cursor rectangle anchored at
    /// `position`, each facing `Up`, appended to the population in placement
    /// order (x-major, then y).
    pub fn add_ants(&mut self, position: (i32, i32))
        requires
            old(self).wf(),
        ensures
            final(self).wf(),
            final(self).ants@ == old(self).ants@ + placed_ants(
                position,
                old(self).cursor_size.0 as int,
                old(self).cursor_size.1 as int,
            ),
            final(self).grid@ == old(self).grid@,
            unchanged_controls(*old(self), *final(self)),
            unchanged_counters(*old(self), *final(self)),
            unchanged_catalog(*old(self), *final(self)),
    {
        let w = self.cursor_size.0;
        let h = self.cursor_size.1;
        let ghost placed = placed_ants(position, w as int, h as int);
        proof {
            assert(old(self).ants@ + placed.take(0) =~= old(self).ants@);
        }
        let mut x: u8 = 0;
        while x < w
            invariant
                x <= w,
                w == old(self).cursor_size.0,
                h == old(self).cursor_size.1,
                placed == placed_ants(position, w as int, h as int),
                self.ants@ == old(self).ants@ + placed.take((x as int) * (h as int)),
                self.grid@ == old(self).grid@,
                self.paused == old(self).paused,
                self.iteration == old(self).iteration,
                self.speed == old(self).speed,
                self.update_speed == old(self).update_speed,
                self.cursor_size == old(self).cursor_size,
                self.max_cursor_size == old(self).max_cursor_size,
                self.selected_rule == old(self).selected_rule,
                self.rules == old(self).rules,
            decreases w - x,
        {
            let mut y: u8 = 0;
            while y < h
                invariant
                    x < w,
                    y <= h,
                    w == old(self).cursor_size.0,
                    h == old(self).cursor_size.1,
                    placed == placed_ants(position, w as int, h as int),
                    self.ants@ == old(self).ants@ + placed.take(
                        (x as int) * (h as int) + (y as int),
                    ),
                    self.grid@ == old(self).grid@,
                    self.paused == old(self).paused,
                    self.iteration == old(self).iteration,
                    self.speed == old(self).speed,
                    self.update_speed == old(self).update_speed,
                    self.cursor_size == old(self).cursor_size,
                    self.max_cursor_size == old(self).max_cursor_size,
                    self.selected_rule == old(self).selected_rule,
                    self.rules == old(self).rules,
                decreases h - y,
            {
                let ant = Ant::place_ant(
                    position.0.wrapping_add(x as i32),
                    position.1.wrapping_add(y as i32),
                    Direction::Up,
                );
                proof {
                    let c = (x as int) * (h as int) + (y as int);
                    lemma_fundamental_div_mod_converse(c, h as int, x as int, y as int);
                    lemma_mul_inequality(x as int + 1, w as int, h as int);
                    assert((x as int) * (h as int) + (h as int) == (x as int + 1) * (h as int))
                        by (nonlinear_arith);
                    assert(0 <= c < placed.len());
                    assert(placed[c] == ant);
                    assert(old(self).ants@ + placed.take(c + 1) =~= (old(self).ants@
                        + placed.take(c)).push(ant));
                }
                self.ants.push(ant);
                y += 1;
            }
            proof {
                assert((x as int) * (h as int) + (h as int) == (x as int + 1) * (h as int))
                    by (nonlinear_arith);
            }
            x += 1;
        }
        proof {
            assert(placed.take((w as int) * (h as int)) =~= placed);
        }
    }

    /// Every agent whose coordinates fall inside the inclusive rectangle, in
    /// population order; the engine's state is untouched.
    pub fn get_ants_in_region(&self, min_x: i32, max_x: i32, min_y: i32, max_y: i32) -> (r: Vec<
        Ant,
    >)
        ensures
            r@ == self.ants@.filter(region_pred(min_x, max_x, min_y, max_y)),
    {
        let ghost pred = region_pred(min_x, max_x, min_y, max_y);
        let mut result: Vec<Ant> = Vec::new();
        let mut i: usize = 0;
        while i < self.ants.len()
            invariant
                i <= self.ants@.len(),
                pred == region_pred(min_x, max_x, min_y, max_y),
                result@ == self.ants@.take(i as int).filter(pred),
            decreases self.ants@.len() - i,
        {
            let ant = self.ants[i];
            if min_x <= ant.x && ant.x <= max_x && min_y <= ant.y && ant.y <= max_y {
                result.push(ant);
            }
            proof {
                self.ants@.take(i as int).lemma_filter_push(self.ants@[i as int], pred);
                assert(self.ants@.take(i as int + 1) =~= self.ants@.take(i as int).push(
                    self.ants@[i as int],
                ));
            }
            i += 1;
        }
        proof {
            assert(self.ants@.take(self.ants@.len() as int) =~= self.ants@);
        }
        result
    }

    /// The number of agents inside a visible range given as
    /// `(min_x, min_y, max_x, max_y)`.
    pub fn get_total_visible_ants(&self, visible_range: (i32, i32, i32, i32)) -> (r: usize)
        ensures
            r == self.ants@.filter(
                region_pred(visible_range.0, visible_range.2, visible_range.1, visible_range.3),
            ).len(),
    {
        self.get_ants_in_region(visible_range.0, visible_range.2, visible_range.1, visible_range.3)
            .len()
    }

    /// One whole iteration: every occupied cell advances one state, and
    /// every agent turns by the token its cell's pre-iteration state selects
    /// and moves one cell. The population is rebuilt wholesale, so all
    /// agents of the iteration read the same pre-iteration grid.
    fn step_once(&mut self, rule: &Rule)
        requires
            rule.wf(),
            rule.directions@.len() <= 255,
        ensures
            final(self).grid@ == stepped_grid(
                old(self).grid@,
                old(self).ants@,
                rule.directions@.len() as int,
            ),
            final(self).ants@ == stepped_ants(old(self).ants@, old(self).grid@, rule.directions@),
            final(self).paused == old(self).paused,
            final(self).speed == old(self).speed,
            final(self).cursor_size == old(self).cursor_size,
            final(self).max_cursor_size == old(self).max_cursor_size,
            unchanged_counters(*old(self), *final(self)),
            unchanged_catalog(*old(self), *final(self)),
    {
        let ghost og = old(self).grid@;
        let ghost oa = old(self).ants@;
        let ghost turns = rule.directions@;
        let ghost len_int = rule.directions@.len() as int;
        let rule_len = rule.directions.len();
        let mut new_ants: Vec<Ant> = Vec::new();
        let mut pre_states: HashMap<u64, u8> = HashMap::new();
        proof {
            assert(stepped_grid(og, oa.take(0), len_int) =~= og);
            assert(new_ants@ =~= stepped_ants(oa.take(0), og, turns));
        }
        let mut j: usize = 0;
        while j < self.ants.len()
            invariant
                j <= oa.len(),
                rule.wf(),
                rule.directions@ == turns,
                rule_len == turns.len(),
                1 <= rule_len <= 255,
                len_int == turns.len() as int,
                og == old(self).grid@,
                oa == old(self).ants@,
                self.ants@ == oa,
                self.grid@ == stepped_grid(og, oa.take(j as int), len_int),
                new_ants@ == stepped_ants(oa.take(j as int), og, turns),
                forall|k: u64| #![trigger pre_states@.contains_key(k)]
                    pre_states@.contains_key(k) <==> occupied_keys(oa.take(j as int)).contains(k),
                forall|k: u64| #![trigger pre_states@[k]]
                    pre_states@.contains_key(k) ==> pre_states@[k] == grid_state(og, k),
                self.paused == old(self).paused,
                self.iteration == old(self).iteration,
                self.speed == old(self).speed,
                self.update_speed == old(self).update_speed,
                self.cursor_size == old(self).cursor_size,
                self.max_cursor_size == old(self).max_cursor_size,
                self.selected_rule == old(self).selected_rule,
                self.rules == old(self).rules,
            decreases oa.len() - j,
        {
            let ant = self.ants[j];
            let key = encode_coord(ant.x, ant.y);
            proof {
                assert(key == ant_key(oa[j as int]));
                lemma_occupied_take_step(oa, j as int);
            }
            let ghost t0 = oa.take(j as int);
            let ghost t1 = oa.take(j as int + 1);
            let pre: u8 = match pre_states.get(&key) {
                Some(s) => {
                    let v = *s;
                    proof {
                        assert(occupied_keys(t0).contains(key));
                        assert(occupied_keys(t0).insert(key) =~= occupied_keys(t0));
                        assert(occupied_keys(t1) == occupied_keys(t0));
                        assert(stepped_grid(og, t1, len_int) =~= stepped_grid(og, t0, len_int));
                        assert(v == grid_state(og, key));
                    }
                    v
                },
                None => {
                    proof {
                        assert(!occupied_keys(t0).contains(key));
                        assert(stepped_grid(og, t0, len_int).contains_key(key)
                            <==> og.contains_key(key));
                    }
                    let current = match self.grid.get(&key) {
                        Some(v) => *v,
                        None => 0,
                    };
                    proof {
                        assert(current == grid_state(og, key));
                    }
                    let new_state: u8 = (((current as u16) + 1) % (rule_len as u16)) as u8;
                    self.grid.insert(key, new_state);
                    pre_states.insert(key, current);
                    proof {
                        assert(new_state as int == (grid_state(og, key) as int + 1) % len_int);
                        assert(self.grid@ =~= stepped_grid(og, t1, len_int));
                    }
                    current
                },
            };
            proof {
                assert(pre == grid_state(og, key));
            }
            let ti: usize = (pre as usize) % rule_len;
            let turn = rule.directions[ti];
            proof {
                assert(crate::rule::is_turn_token(turns[ti as int]));
            }
            let new_direction = match ant.direction.cycle_direction(&turn) {
                Ok(d) => d,
                Err(_) => unreached(),
            };
            let stepped = match new_direction {
                Direction::Up => Ant { x: ant.x, y: ant.y.wrapping_sub(1), direction: new_direction },
                Direction::Right => Ant {
                    x: ant.x.wrapping_add(1),
                    y: ant.y,
                    direction: new_direction,
                },
                Direction::Down => Ant {
                    x: ant.x,
                    y: ant.y.wrapping_add(1),
                    direction: new_direction,
                },
                Direction::Left => Ant {
                    x: ant.x.wrapping_sub(1),
                    y: ant.y,
                    direction: new_direction,
                },
            };
            proof {
                assert(stepped == stepped_ant(oa[j as int], og, turns));
                assert(stepped_ants(t1, og, turns) =~= stepped_ants(t0, og, turns).push(stepped));
            }
            new_ants.push(stepped);
            j += 1;
        }
        proof {
            assert(oa.take(oa.len() as int) =~= oa);
        }
        self.ants = new_ants;
    }

    /// Performs `number_of_iterations` whole iterations when the simulation
    /// is running — or when the caller forces a step while paused — and then
    /// advances the iteration counter by that amount and records it as the
    /// tick's throughput. When paused and not forced, nothing changes but
    /// the throughput reading, which drops to 0.
    pub fn update(&mut self, number_of_iterations: u32, step_override: bool)
        requires
            old(self).wf(),
        ensures
            final(self).wf(),
            final(self).paused == old(self).paused,
            final(self).speed == old(self).speed,
            final(self).cursor_size == old(self).cursor_size,
            final(self).max_cursor_size == old(self).max_cursor_size,
            unchanged_catalog(*old(self), *final(self)),
            (!old(self).paused || step_override) ==> {
                &&& final(self).grid@ == run_steps(
                    old(self).grid@,
                    old(self).ants@,
                    old(self).active_turns(),
                    number_of_iterations as nat,
                ).0
                &&& final(self).ants@ == run_steps(
                    old(self).grid@,
                    old(self).ants@,
                    old(self).active_turns(),
                    number_of_iterations as nat,
                ).1
                &&& final(self).iteration == if old(self).iteration + number_of_iterations
                    <= u128::MAX {
                    (old(self).iteration + number_of_iterations) as u128
                } else {
                    u128::MAX
                }
                &&& final(self).update_speed == number_of_iterations as u64
            },
            (old(self).paused && !step_override) ==> {
                &&& unchanged_world(*old(self), *final(self))
                &&& final(self).iteration == old(self).iteration
                &&& final(self).update_speed == 0
            },
    {
        let ghost og = old(self).grid@;
        let ghost oa = old(self).ants@;
        let ghost turns = old(self).active_turns();
        self.update_speed = 0;
        if !self.paused || step_override {
            let rule = self.get_rule();
            let mut k: u32 = 0;
            while k < number_of_iterations
                invariant
                    k <= number_of_iterations,
                    rule.wf(),
                    rule.directions@ == turns,
                    rule.directions@.len() <= 255,
                    og == old(self).grid@,
                    oa == old(self).ants@,
                    self.grid@ == run_steps(og, oa, turns, k as nat).0,
                    self.ants@ == run_steps(og, oa, turns, k as nat).1,
                    self.paused == old(self).paused,
                    self.iteration == old(self).iteration,
                    self.speed == old(self).speed,
                    self.update_speed == 0,
                    self.cursor_size == old(self).cursor_size,
                    self.max_cursor_size == old(self).max_cursor_size,
                    self.selected_rule == old(self).selected_rule,
                    self.rules == old(self).rules,
                decreases number_of_iterations - k,
            {
                self.step_once(&rule);
                k += 1;
            }
            self.increment_iteration(number_of_iterations);
            self.update_speed = number_of_iterations as u64;
        }
    }
}

/// The set of grid keys occupied by at least one agent of a population.
pub open spec fn occupied_keys(ants: Seq<Ant>) -> Set<u64> {
    Set::new(|k: u64| exists|i: int| 0 <= i < ants.len() && ant_key(#[trigger] ants[i]) == k)
}

/// An agent advanced one cell along its heading (`Up` decreases y, `Down`
/// increases it; coordinates wrap at the i32 boundary).
pub open spec fn moved_ant(a: Ant) -> Ant {
    match a.direction {
        Direction::Up => Ant { x: a.x, y: a.y.wrapping_sub(1), direction: a.direction },
        Direction::Right => Ant { x: a.x.wrapping_add(1), y: a.y, direction: a.direction },
        Direction::Down => Ant { x: a.x, y: a.y.wrapping_add(1), direction: a.direction },
        Direction::Left => Ant { x: a.x.wrapping_sub(1), y: a.y, direction: a.direction },
    }
}

/// One agent after one iteration: it reads the pre-iteration state of its
/// cell (taken modulo the rule length), turns by the token that state
/// selects, and advances one cell along its new heading. Every agent of an
/// iteration reads the same pre-iteration grid, so agents sharing a cell
/// turn identically.
pub open spec fn stepped_ant(a: Ant, grid: Map<u64, u8>, turns: Seq<Direction>) -> Ant {
    let s = grid_state(grid, ant_key(a));
    let turn = turns[(s as int) % (turns.len() as int)];
    let d = if turn == Direction::Right {
        a.direction.rotated(1)
    } else {
        a.direction.rotated(-1)
    };
    moved_ant(Ant { x: a.x, y: a.y, direction: d })
}

/// The whole population after one iteration against the pre-iteration grid.
pub open spec fn stepped_ants(ants: Seq<Ant>, grid: Map<u64, u8>, turns: Seq<Direction>) -> Seq<
    Ant,
> {
    ants.map_values(|a: Ant| stepped_ant(a, grid, turns))
}

/// The grid after one iteration: every cell occupied before the iteration
/// advances one state, modulo the rule length `len` — once per cell, however
/// many agents share it — and every other cell keeps its state.
pub open spec fn stepped_grid(grid: Map<u64, u8>, ants: Seq<Ant>, len: int) -> Map<u64, u8> {
    Map::new(
        |k: u64| grid.contains_key(k) || occupied_keys(ants).contains(k),
        |k: u64|
            if occupied_keys(ants).contains(k) {
                (((grid_state(grid, k) as int + 1) % len) as u8)
            } else {
                grid[k]
            },
    )
}

/// Grid and population after `n` whole iterations under a turn sequence.
pub open spec fn run_steps(
    grid: Map<u64, u8>,
    ants: Seq<Ant>,
    turns: Seq<Direction>,
    n: nat,
) -> (Map<u64, u8>, Seq<Ant>)
    decreases n,
{
    if n == 0 {
        (grid, ants)
    } else {
        let prev = run_steps(grid, ants, turns, (n - 1) as nat);
        (stepped_grid(prev.0, prev.1, turns.len() as int), stepped_ants(prev.1, prev.0, turns))
    }
}

/// Taking one more agent into view adds exactly that agent's key to the set
/// of occupied keys.
proof fn lemma_occupied_take_step(ants: Seq<Ant>, j: int)
    requires
        0 <= j < ants.len(),
    ensures
        occupied_keys(ants.take(j + 1)) == occupied_keys(ants.take(j)).insert(ant_key(ants[j])),
{
    let t0 = ants.take(j);
    let t1 = ants.take(j + 1);
    let key = ant_key(ants[j]);
    assert forall|kk: u64| #[trigger] occupied_keys(t1).contains(kk) implies occupied_keys(
        t0,
    ).insert(key).contains(kk) by {
        let i = choose|i: int| 0 <= i < t1.len() && ant_key(#[trigger] t1[i]) == kk;
        if i < j {
            assert(t0[i] == t1[i]);
            assert(occupied_keys(t0).contains(kk));
        } else {
            assert(t1[i] == ants[j]);
        }
    }
    assert forall|kk: u64| occupied_keys(t0).insert(key).contains(kk) implies #[trigger]
        occupied_keys(t1).contains(kk) by {
        if kk == key {
            assert(ant_key(t1[j]) == kk);
        } else {
            let i = choose|i: int| 0 <= i < t0.len() && ant_key(#[trigger] t0[i]) == kk;
            assert(ant_key(t1[i]) == kk);
        }
    }
    assert(occupied_keys(t1) =~= occupied_keys(t0).insert(key));
}

/// Every live cell state stays below the rule length: stepping writes only
/// states reduced modulo the rule length, so a grid whose states are in
/// range keeps them in range, however many iterations run.
pub proof fn lemma_states_stay_below_rule_length(
    grid: Map<u64, u8>,
    ants: Seq<Ant>,
    turns: Seq<Direction>,
    n: nat,
)
    requires
        1 <= turns.len(),
        forall|k: u64| grid.contains_key(k) ==> (#[trigger] grid[k]) < turns.len(),
    ensures
        forall|k: u64|
            run_steps(grid, ants, turns, n).0.contains_key(k) ==> (#[trigger] run_steps(
                grid,
                ants,
                turns,
                n,
            ).0[k]) < turns.len(),
    decreases n,
{
    if n > 0 {
        lemma_states_stay_below_rule_length(grid, ants, turns, (n - 1) as nat);
        let prev = run_steps(grid, ants, turns, (n - 1) as nat);
        let cur = run_steps(grid, ants, turns, n).0;
        let len = turns.len() as int;
        assert forall|k: u64| cur.contains_key(k) implies (#[trigger] cur[k]) < turns.len() by {
            if occupied_keys(prev.1).contains(k) {
                lemma_mod_bound(grid_state(prev.0, k) as int + 1, len);
            }
        }
    }
}

/// Stepping preserves the number of agents: agents appear only through
/// placement and disappear only through explicit clearing, never during
/// iteration, however many iterations run.
pub proof fn lemma_step_preserves_agent_count(
    grid: Map<u64, u8>,
    ants: Seq<Ant>,
    turns: Seq<Direction>,
    n: nat,
)
    ensures
        run_steps(grid, ants, turns, n).1.len() == ants.len(),
    decreases n,
{
    if n > 0 {
        lemma_step_preserves_agent_count(grid, ants, turns, (n - 1) as nat);
    }
}

/// The block of agents one placement action creates: one agent per cell of a
/// `w`-by-`h` rectangle anchored at `p`, facing `Up`, in x-major order.
/// Coordinates wrap at the i32 boundary, as position arithmetic does
/// throughout the engine.
pub open spec fn placed_ants(p: (i32, i32), w: int, h: int) -> Seq<Ant> {
    Seq::new(
        (w * h) as nat,
        |k: int| Ant {
            x: p.0.wrapping_add((k / h) as i32),
            y: p.1.wrapping_add((k % h) as i32),
            direction: Direction::Up,
        },
    )
}

/// The membership test of the inclusive query rectangle, as a function value
/// shared by the region query's contract and its proofs.
pub open spec fn region_pred(min_x: i32, max_x: i32, min_y: i32, max_y: i32) -> spec_fn(Ant) -> bool {
    |a: Ant| in_rect(a, min_x, max_x, min_y, max_y)
}

/// The region query is exact: a value occurs among the agents-in-rectangle
/// if and only if it occurs in the population and lies inside the rectangle
/// (what a brute-force scan over all agents would report).
pub proof fn lemma_region_query_exact(ants: Seq<Ant>, min_x: i32, max_x: i32, min_y: i32, max_y: i32)
    ensures
        forall|a: Ant| #[trigger] ants.filter(region_pred(min_x, max_x, min_y, max_y)).contains(a)
            <==> (ants.contains(a) && in_rect(a, min_x, max_x, min_y, max_y)),
{
    let pred = region_pred(min_x, max_x, min_y, max_y);
    let filtered = ants.filter(pred);
    assert forall|a: Ant| #[trigger] filtered.contains(a) implies (ants.contains(a) && in_rect(
        a,
        min_x,
        max_x,
        min_y,
        max_y,
    )) by {
        ants.lemma_filter_contains_rev(pred, a);
        let j = choose|j: int| 0 <= j < filtered.len() && filtered[j] == a;
        ants.lemma_filter_pred(pred, j);
    }
    assert forall|a: Ant| ants.contains(a) && in_rect(a, min_x, max_x, min_y, max_y)
        implies #[trigger] filtered.contains(a) by {
        let i = choose|i: int| 0 <= i < ants.len() && ants[i] == a;
        ants.lemma_filter_contains(pred, i);
    }
}

} // verus!
