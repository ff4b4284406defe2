//! The four directions a key press can name.

use vstd::prelude::*;

verus! {

/// One of the four cardinal directions, with the y axis growing downward.
#[derive(Clone, Copy, Debug, PartialEq, Eq, Structural)]
pub enum Direction {
    Up,
    Down,
    Left,
    Right,
}

/// The direction a key names: `w` up, `s` down, `a` left, `d` right;
/// every other key, the empty one included, names none.
pub open spec fn direction_of_key(key: Seq<char>) -> Option<Direction> {
    if key == seq!['w'] {
        Some(Direction::Up)
    } else if key == seq!['s'] {
        Some(Direction::Down)
    } else if key == seq!['a'] {
        Some(Direction::Left)
    } else if key == seq!['d'] {
        Some(Direction::Right)
    } else {
        None
    }
}

/// The four direction keys are distinct from each other.
pub proof fn lemma_direction_keys_distinct()
    ensures
        seq!['w'] != seq!['s'],
        seq!['w'] != seq!['a'],
        seq!['w'] != seq!['d'],
        seq!['s'] != seq!['a'],
        seq!['s'] != seq!['d'],
        seq!['a'] != seq!['d'],
{
    assert(seq!['w'][0] == 'w');
    assert(seq!['s'][0] == 's');
    assert(seq!['a'][0] == 'a');
    assert(seq!['d'][0] == 'd');
}

impl Direction {
    /// The direction named by `key`, if any.
    pub fn from_key(key: &str) -> (r: Option<Direction>)
        ensures
            r == direction_of_key(key@),
    {
        if key.unicode_len() != 1 {
            return None;
        }
        let c = key.get_char(0);
        proof {
            assert(key@ =~= seq![c]);
        }
        if c == 'w' {
            Some(Direction::Up)
        } else if c == 's' {
            Some(Direction::Down)
        } else if c == 'a' {
            Some(Direction::Left)
        } else if c == 'd' {
            Some(Direction::Right)
        } else {
            None
        }
    }
}

} // verus!
