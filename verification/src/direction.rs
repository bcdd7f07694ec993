//! The four-valued rotational quantity that gives every agent its heading,
//! together with the cyclic rotation algebra on it.

use vstd::prelude::*;
use vstd::arithmetic::div_mod::{lemma_add_mod_noop, lemma_mod_bound};

verus! {

/// A configuration mistake detected while building a rule or reconstructing
/// a direction from an index. The stepping algorithm itself never raises
/// either kind: its inputs are guaranteed valid by construction.
#[derive(Clone, Copy, Debug, PartialEq, Eq, Structural)]
pub enum ConfigError {
    /// A turn token other than `Right` or `Left` (or a character other than
    /// `'R'` or `'L'` in a rule's turn string).
    InvalidTurnToken,
    /// An integer outside `0..=3` passed to direction reconstruction.
    InvalidDirectionIndex,
}

/// One of the four cardinal headings, listed in clockwise order. Under
/// `rotate` the directions form a cyclic group of order 4.
#[derive(Clone, Copy, Debug, PartialEq, Eq, Structural)]
pub enum Direction {
    Up,
    Right,
    Down,
    Left,
}

impl Direction {
    /// The position of this direction in the clockwise cycle starting at `Up`.
    pub open spec fn as_int(self) -> int {
        match self {
            Direction::Up => 0,
            Direction::Right => 1,
            Direction::Down => 2,
            Direction::Left => 3,
        }
    }

    /// The direction at position `i` of the clockwise cycle; meaningful for
    /// `0 <= i < 4`.
    pub open spec fn from_int(i: int) -> Direction {
        if i == 0 {
            Direction::Up
        } else if i == 1 {
            Direction::Right
        } else if i == 2 {
            Direction::Down
        } else {
            Direction::Left
        }
    }

    /// The heading reached from `self` by `steps` clockwise quarter turns
    /// (counter-clockwise when `steps` is negative).
    pub open spec fn rotated(self, steps: int) -> Direction {
        Direction::from_int((self.as_int() + steps) % 4)
    }

    /// The turn relation: a `Right` token turns one step clockwise, a `Left`
    /// token one step counter-clockwise, and any other token is rejected.
    pub open spec fn cycled(self, turn: Direction) -> Result<Direction, ConfigError> {
        match turn {
            Direction::Right => Ok(self.rotated(1)),
            Direction::Left => Ok(self.rotated(-1)),
            _ => Err(ConfigError::InvalidTurnToken),
        }
    }

    /// Convert the direction to its numerical index.
    pub fn as_index(&self) -> (r: i8)
        ensures
            r as int == self.as_int(),
    {
        match self {
            Direction::Up => 0,
            Direction::Right => 1,
            Direction::Down => 2,
            Direction::Left => 3,
        }
    }

    /// Convert a numerical index back to a direction; indices outside
    /// `0..=3` signal an internal invariant breach.
    pub fn from_index(index: i8) -> (r: Result<Direction, ConfigError>)
        ensures
            0 <= index <= 3 ==> r == Ok::<Direction, ConfigError>(Direction::from_int(index as int)),
            !(0 <= index <= 3) ==> r == Err::<Direction, ConfigError>(
                ConfigError::InvalidDirectionIndex,
            ),
    {
        match index {
            0 => Ok(Direction::Up),
            1 => Ok(Direction::Right),
            2 => Ok(Direction::Down),
            3 => Ok(Direction::Left),
            _ => Err(ConfigError::InvalidDirectionIndex),
        }
    }

    /// Rotate the direction by a given number of quarter turns, in either
    /// sense; total for every `steps`.
    pub fn rotate(&self, steps: isize) -> (r: Direction)
        ensures
            r == self.rotated(steps as int),
    {
        let m: isize = match steps.checked_rem_euclid(4) {
            Some(v) => v,
            None => unreached(),
        };
        let i: isize = (self.as_index() as isize) + m;
        let i: isize = if i >= 4 { i - 4 } else { i };
        proof {
            let a = self.as_int();
            let s = steps as int;
            lemma_mod_bound(s, 4);
            lemma_add_mod_noop(a, s, 4);
            assert(a % 4 == a);
            assert((s % 4) % 4 == s % 4);
            assert((a + s) % 4 == (a + s % 4) % 4);
            assert((a + s % 4) % 4 == i as int);
        }
        if i == 0 {
            Direction::Up
        } else if i == 1 {
            Direction::Right
        } else if i == 2 {
            Direction::Down
        } else {
            Direction::Left
        }
    }

    /// Cycle the direction one step clockwise (`Right`) or counter-clockwise
    /// (`Left`); any other turn token is a configuration error.
    pub fn cycle_direction(&self, turn: &Direction) -> (r: Result<Direction, ConfigError>)
        ensures
            r == self.cycled(*turn),
    {
        match turn {
            Direction::Right => Ok(self.rotate(1)),
            Direction::Left => Ok(self.rotate(-1)),
            _ => Err(ConfigError::InvalidTurnToken),
        }
    }
}

/// Rotating by `s` and then by `-s` returns to the starting heading, and a
/// full turn of four steps is the identity: the directions form a cyclic
/// group of order 4 under rotation.
pub proof fn lemma_rotate_round_trip(d: Direction, s: int)
    ensures
        d.rotated(s).rotated(-s) == d,
        d.rotated(4) == d,
{
    let a = d.as_int();
    lemma_mod_bound(a + s, 4);
    lemma_add_mod_noop(a + s, -s, 4);
    assert(((a + s) % 4) % 4 == (a + s) % 4);
    assert(((a + s) % 4 + (-s) % 4) % 4 == (a + s + -s) % 4);
    lemma_add_mod_noop((a + s) % 4, -s, 4);
    assert(((a + s) % 4 + -s) % 4 == a % 4);
    assert(a % 4 == a);
    assert(Direction::from_int(a) == d);
    lemma_add_mod_noop(a, 4, 4);
    assert((a + 4) % 4 == a);
}

/// A `Right` turn token is exactly one clockwise quarter turn and a `Left`
/// token exactly one counter-clockwise quarter turn.
pub proof fn lemma_cycle_is_unit_rotation(d: Direction)
    ensures
        d.cycled(Direction::Right) == Ok::<Direction, ConfigError>(d.rotated(1)),
        d.cycled(Direction::Left) == Ok::<Direction, ConfigError>(d.rotated(-1)),
{
}

} // verus!
