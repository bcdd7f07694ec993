//! A turmite rule: an ordered sequence of turn tokens, one per cell state,
//! together with a palette of packed RGB colors derived once at construction
//! by per-channel linear interpolation between two endpoint colors.

use vstd::prelude::*;
use vstd::arithmetic::div_mod::{
    lemma_div_is_ordered, lemma_div_multiples_vanish, lemma_fundamental_div_mod,
    lemma_div_denominator,
};
use vstd::arithmetic::mul::lemma_mul_inequality;
use crate::direction::{ConfigError, Direction};

verus! {

/// The red channel of a packed `0xRRGGBB` color (any higher byte is ignored).
pub open spec fn red_channel(c: u32) -> int {
    (c as int) / 0x10000 % 0x100
}

/// The green channel of a packed `0xRRGGBB` color.
pub open spec fn green_channel(c: u32) -> int {
    (c as int) / 0x100 % 0x100
}

/// The blue channel of a packed `0xRRGGBB` color.
pub open spec fn blue_channel(c: u32) -> int {
    (c as int) % 0x100
}

/// Packs three channel values in `0..=255` into a `0xRRGGBB` color.
pub open spec fn pack_rgb(r: int, g: int, b: int) -> u32 {
    (r * 0x10000 + g * 0x100 + b) as u32
}

/// Linear interpolation of one channel from `start` (at step 0) to `end`
/// (at step `last`), truncated to whole channel units. A palette with a
/// single entry has `last == 0` and takes the start channel unchanged.
pub open spec fn lerp_channel(start: int, end: int, i: int, last: int) -> int {
    if last == 0 {
        start
    } else {
        (start * (last - i) + end * i) / last
    }
}

/// The color at palette position `i` of a gradient of `len` entries from
/// `start` to `end`.
pub open spec fn gradient_color(start: u32, end: u32, i: int, len: int) -> u32 {
    pack_rgb(
        lerp_channel(red_channel(start), red_channel(end), i, len - 1),
        lerp_channel(green_channel(start), green_channel(end), i, len - 1),
        lerp_channel(blue_channel(start), blue_channel(end), i, len - 1),
    )
}

/// The two characters accepted in a turn string.
pub open spec fn valid_turn_char(c: char) -> bool {
    c == 'R' || c == 'L'
}

/// The turn token a valid character stands for.
pub open spec fn turn_of_char(c: char) -> Direction {
    if c == 'R' {
        Direction::Right
    } else {
        Direction::Left
    }
}

/// Whether every character of a turn string is a valid turn token.
pub open spec fn all_turns_valid(s: Seq<char>) -> bool {
    forall|i: int| 0 <= i < s.len() ==> valid_turn_char(#[trigger] s[i])
}

/// Whether a direction is one of the two turn tokens.
pub open spec fn is_turn_token(d: Direction) -> bool {
    d == Direction::Right || d == Direction::Left
}

/// The turn sequence a (valid) turn string spells.
pub open spec fn spec_turns(s: Seq<char>) -> Seq<Direction> {
    Seq::new(s.len(), |i: int| turn_of_char(s[i]))
}

/// The palette of `len` colors interpolated from `start` to `end`.
pub open spec fn spec_palette(start: u32, end: u32, len: int) -> Seq<u32> {
    Seq::new(len as nat, |i: int| gradient_color(start, end, i, len))
}

/// An ordered turn sequence of length `L >= 1` and the palette of exactly
/// `L` packed RGB colors that belongs to it; state `i` selects turn `i` and
/// color `i`.
pub struct Rule {
    pub directions: Vec<Direction>,
    pub colors: Vec<u32>,
}

impl Rule {
    /// Structural invariant: at least one state, one color per state, and
    /// every stored turn is a genuine turn token.
    pub open spec fn wf(&self) -> bool {
        &&& self.directions@.len() >= 1
        &&& self.colors@.len() == self.directions@.len()
        &&& forall|i: int|
            0 <= i < self.directions@.len() ==> is_turn_token(#[trigger] self.directions@[i])
    }

    /// Builds a rule from a turn string and two endpoint colors. Every
    /// character must be `'R'` or `'L'`; any other character aborts
    /// construction with `InvalidTurnToken`. On success the turn sequence
    /// mirrors the string and the palette is the exact gradient.
    pub fn new(directions: &str, colors: (u32, u32)) -> (r: Result<Rule, ConfigError>)
        requires
            1 <= directions@.len() <= 0x1_0000_0000,
        ensures
            match r {
                Ok(rule) => {
                    &&& all_turns_valid(directions@)
                    &&& rule.wf()
                    &&& rule.directions@ == spec_turns(directions@)
                    &&& rule.colors@ == spec_palette(colors.0, colors.1, directions@.len() as int)
                },
                Err(e) => {
                    &&& e == ConfigError::InvalidTurnToken
                    &&& !all_turns_valid(directions@)
                },
            },
    {
        let number_of_steps = directions.unicode_len();
        let turns = match Rule::convert_directions(directions) {
            Ok(t) => t,
            Err(e) => {
                return Err(e);
            },
        };
        let palette = Rule::generate_gradient(colors.0, colors.1, number_of_steps);
        proof {
            assert(turns@ =~= spec_turns(directions@));
            assert(palette@ =~= spec_palette(colors.0, colors.1, directions@.len() as int));
        }
        Ok(Rule { directions: turns, colors: palette })
    }

    /// Parses a turn string into the vector of turn tokens it spells.
    fn convert_directions(directions: &str) -> (r: Result<Vec<Direction>, ConfigError>)
        ensures
            match r {
                Ok(v) => {
                    &&& all_turns_valid(directions@)
                    &&& v@.len() == directions@.len()
                    &&& forall|i: int|
                        0 <= i < directions@.len() ==> #[trigger] v@[i] == turn_of_char(
                            directions@[i],
                        )
                },
                Err(e) => {
                    &&& e == ConfigError::InvalidTurnToken
                    &&& !all_turns_valid(directions@)
                },
            },
    {
        let n = directions.unicode_len();
        let mut v: Vec<Direction> = Vec::new();
        let mut idx: usize = 0;
        while idx < n
            invariant
                idx <= n,
                n == directions@.len(),
                v@.len() == idx,
                forall|i: int| 0 <= i < idx ==> valid_turn_char(#[trigger] directions@[i]),
                forall|i: int|
                    0 <= i < idx ==> #[trigger] v@[i] == turn_of_char(directions@[i]),
            decreases n - idx,
        {
            let c = directions.get_char(idx);
            if c == 'R' {
                v.push(Direction::Right);
            } else if c == 'L' {
                v.push(Direction::Left);
            } else {
                proof {
                    assert(!valid_turn_char(directions@[idx as int]));
                }
                return Err(ConfigError::InvalidTurnToken);
            }
            idx += 1;
        }
        Ok(v)
    }

    /// One interpolated channel value; exact integer arithmetic in place of
    /// an intermediate ratio, truncated to whole units.
    fn lerp_channel_value(start: u32, end: u32, i: usize, last: usize) -> (r: u32)
        requires
            start <= 255,
            end <= 255,
            i <= last,
            last < 0x1_0000_0000,
        ensures
            r as int == lerp_channel(start as int, end as int, i as int, last as int),
            r <= 255,
    {
        if last == 0 {
            start
        } else {
            proof {
                lemma_mul_inequality(start as int, 255, (last - i) as int);
                lemma_mul_inequality(end as int, 255, i as int);
            }
            let num: u64 = (start as u64) * ((last - i) as u64) + (end as u64) * (i as u64);
            let q: u64 = num / (last as u64);
            proof {
                lemma_div_is_ordered(num as int, 255 * (last as int), last as int);
                lemma_div_multiples_vanish(255, last as int);
            }
            q as u32
        }
    }

    /// Builds the palette: `steps` colors linearly interpolated per channel
    /// from `start` to `end` (a single-entry palette takes `start` as is).
    fn generate_gradient(start: u32, end: u32, steps: usize) -> (v: Vec<u32>)
        requires
            steps <= 0x1_0000_0000,
        ensures
            v@.len() == steps,
            forall|i: int|
                0 <= i < steps ==> #[trigger] v@[i] == gradient_color(
                    start,
                    end,
                    i,
                    steps as int,
                ),
    {
        let start_r = start / 0x10000 % 0x100;
        let start_g = start / 0x100 % 0x100;
        let start_b = start % 0x100;

        let end_r = end / 0x10000 % 0x100;
        let end_g = end / 0x100 % 0x100;
        let end_b = end % 0x100;

        let mut v: Vec<u32> = Vec::new();
        let mut i: usize = 0;
        while i < steps
            invariant
                i <= steps,
                steps <= 0x1_0000_0000,
                v@.len() == i,
                start_r as int == red_channel(start),
                start_g as int == green_channel(start),
                start_b as int == blue_channel(start),
                end_r as int == red_channel(end),
                end_g as int == green_channel(end),
                end_b as int == blue_channel(end),
                start_r <= 255 && start_g <= 255 && start_b <= 255,
                end_r <= 255 && end_g <= 255 && end_b <= 255,
                forall|j: int|
                    0 <= j < i ==> #[trigger] v@[j] == gradient_color(
                        start,
                        end,
                        j,
                        steps as int,
                    ),
            decreases steps - i,
        {
            let last = steps - 1;
            let r = Rule::lerp_channel_value(start_r, end_r, i, last);
            let g = Rule::lerp_channel_value(start_g, end_g, i, last);
            let b = Rule::lerp_channel_value(start_b, end_b, i, last);
            v.push(r * 0x10000 + g * 0x100 + b);
            i += 1;
        }
        v
    }

    /// The turn token selected by a cell state.
    pub fn get_rule_direction(&self, position: usize) -> (r: Direction)
        requires
            position < self.directions@.len(),
        ensures
            r == self.directions@[position as int],
    {
        self.directions[position]
    }

    /// The palette color selected by a cell state.
    pub fn get_rule_color(&self, position: usize) -> (r: u32)
        requires
            position < self.colors@.len(),
        ensures
            r == self.colors@[position as int],
    {
        self.colors[position]
    }

    /// The number of states (turn tokens) of this rule.
    pub fn len(&self) -> (r: usize)
        ensures
            r == self.directions@.len(),
    {
        self.directions.len()
    }
}

impl Clone for Rule {
    fn clone(&self) -> (r: Self)
        ensures
            r.directions@ == self.directions@,
            r.colors@ == self.colors@,
    {
        let mut directions: Vec<Direction> = Vec::new();
        let mut i: usize = 0;
        while i < self.directions.len()
            invariant
                i <= self.directions@.len(),
                directions@ == self.directions@.take(i as int),
            decreases self.directions@.len() - i,
        {
            directions.push(self.directions[i]);
            proof {
                assert(directions@ =~= self.directions@.take(i + 1));
            }
            i += 1;
        }
        let mut colors: Vec<u32> = Vec::new();
        let mut j: usize = 0;
        while j < self.colors.len()
            invariant
                j <= self.colors@.len(),
                colors@ == self.colors@.take(j as int),
            decreases self.colors@.len() - j,
        {
            colors.push(self.colors[j]);
            proof {
                assert(colors@ =~= self.colors@.take(j + 1));
            }
            j += 1;
        }
        proof {
            assert(directions@ =~= self.directions@);
            assert(colors@ =~= self.colors@);
        }
        Rule { directions, colors }
    }
}

/// Recombining the three channels of a packed `0xRRGGBB` color gives the
/// color back.
pub proof fn lemma_pack_unpack(c: u32)
    requires
        c <= 0xFFFFFF,
    ensures
        pack_rgb(red_channel(c), green_channel(c), blue_channel(c)) == c,
{
    let x = c as int;
    lemma_fundamental_div_mod(x, 0x100);
    lemma_fundamental_div_mod(x / 0x100, 0x100);
    lemma_div_denominator(x, 0x100, 0x100);
    lemma_div_is_ordered(x, 0xFFFFFF, 0x10000);
    assert(x / 0x10000 % 0x100 == x / 0x10000);
    assert(x == (x / 0x10000) * 0x10000 + (x / 0x100 % 0x100) * 0x100 + x % 0x100);
}

/// Interpolating one channel gives back its start value at step 0 and its
/// end value at step `last`.
pub proof fn lemma_lerp_endpoints(s: int, e: int, last: int)
    requires
        last >= 1,
    ensures
        lerp_channel(s, e, 0, last) == s,
        lerp_channel(s, e, last, last) == e,
{
    assert(s * (last - 0) + e * 0 == last * s) by (nonlinear_arith);
    lemma_div_multiples_vanish(s, last);
    assert(s * (last - last) + e * last == last * e) by (nonlinear_arith);
    lemma_div_multiples_vanish(e, last);
}

/// The interpolation endpoints are exact: the first palette entry is the
/// start color and (for palettes of at least two entries) the last is the
/// end color.
pub proof fn lemma_gradient_endpoints(start: u32, end: u32, len: int)
    requires
        len >= 1,
        start <= 0xFFFFFF,
        end <= 0xFFFFFF,
    ensures
        gradient_color(start, end, 0, len) == start,
        len >= 2 ==> gradient_color(start, end, len - 1, len) == end,
{
    let last = len - 1;
    if last > 0 {
        lemma_lerp_endpoints(red_channel(start), red_channel(end), last);
        lemma_lerp_endpoints(green_channel(start), green_channel(end), last);
        lemma_lerp_endpoints(blue_channel(start), blue_channel(end), last);
    }
    lemma_pack_unpack(start);
    lemma_pack_unpack(end);
}

} // verus!
