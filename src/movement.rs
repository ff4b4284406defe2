//! The position update itself.

use vstd::prelude::*;

use crate::direction::{direction_of_key, lemma_direction_keys_distinct, Direction};

verus! {

/// How far one key press moves the player along its axis.
pub const STEP: i32 = 5;

/// The number of distinct `i32` values.
pub open spec fn i32_range() -> int {
    0x1_0000_0000
}

/// The change in (x, y) that one step in direction `d` makes.
pub open spec fn offset(d: Direction) -> (int, int) {
    match d {
        Direction::Up => (0, -STEP as int),
        Direction::Down => (0, STEP as int),
        Direction::Left => (-STEP as int, 0),
        Direction::Right => (STEP as int, 0),
    }
}

/// The position after pressing `key` at (x, y), over unbounded integers.
pub open spec fn position_after(x: int, y: int, key: Seq<char>) -> (int, int) {
    match direction_of_key(key) {
        Some(d) => (x + offset(d).0, y + offset(d).1),
        None => (x, y),
    }
}

/// The `i32` that is congruent to `v` modulo 2^32: two's-complement wrapping.
pub open spec fn wrap_i32(v: int) -> int {
    let m = v % i32_range();
    if m > i32::MAX {
        m - i32_range()
    } else {
        m
    }
}

/// The pair `[x', y']` that a key press at (x, y) leads to, each coordinate
/// wrapped into `i32`.
pub open spec fn moved(x: i32, y: i32, key: Seq<char>) -> Seq<i32> {
    let p = position_after(x as int, y as int, key);
    seq![wrap_i32(p.0) as i32, wrap_i32(p.1) as i32]
}

/// Wrapping leaves a value that already fits in `i32` unchanged, so a move whose
/// result fits lands exactly `STEP` away.
pub proof fn lemma_wrap_i32_in_range(v: int)
    requires
        i32::MIN <= v <= i32::MAX,
    ensures
        wrap_i32(v) == v,
{
    if v >= 0 {
        vstd::arithmetic::div_mod::lemma_fundamental_div_mod_converse(v, i32_range(), 0, v);
    } else {
        vstd::arithmetic::div_mod::lemma_fundamental_div_mod_converse(v, i32_range(), -1, v + i32_range());
    }
}

/// Where the new position fits in `i32`, a key press moves the player exactly:
/// `w` to (x, y - STEP), `s` to (x, y + STEP), `a` to (x - STEP, y), `d` to
/// (x + STEP, y), and any other key nowhere.
pub proof fn lemma_moved_exact(x: i32, y: i32, key: Seq<char>)
    requires
        i32::MIN <= position_after(x as int, y as int, key).0 <= i32::MAX,
        i32::MIN <= position_after(x as int, y as int, key).1 <= i32::MAX,
    ensures
        moved(x, y, key)[0] == position_after(x as int, y as int, key).0,
        moved(x, y, key)[1] == position_after(x as int, y as int, key).1,
{
    lemma_wrap_i32_in_range(position_after(x as int, y as int, key).0);
    lemma_wrap_i32_in_range(position_after(x as int, y as int, key).1);
}

/// Adding `delta` to an `i32` with wrapping agrees with `wrap_i32`.
proof fn lemma_wrapping_add(a: i32, delta: int)
    requires
        -STEP <= delta <= STEP,
    ensures
        wrap_i32(a + delta) == if a + delta > i32::MAX {
            a + delta - i32_range()
        } else if a + delta < i32::MIN {
            a + delta + i32_range()
        } else {
            a + delta
        },
{
    let v = a + delta;
    if v < i32::MIN {
        assert(v % i32_range() == v + i32_range()) by {
            vstd::arithmetic::div_mod::lemma_fundamental_div_mod_converse(v, i32_range(), -1, v + i32_range());
        }
    } else if v >= 0 {
        assert(v % i32_range() == v) by {
            vstd::arithmetic::div_mod::lemma_fundamental_div_mod_converse(v, i32_range(), 0, v);
        }
    } else {
        assert(v % i32_range() == v + i32_range()) by {
            vstd::arithmetic::div_mod::lemma_fundamental_div_mod_converse(v, i32_range(), -1, v + i32_range());
        }
    }
}

/// Moves one step from (x, y) in direction `d`, wrapping on overflow.
pub fn step(x: i32, y: i32, d: Direction) -> (r: (i32, i32))
    ensures
        r.0 as int == wrap_i32(x + offset(d).0),
        r.1 as int == wrap_i32(y + offset(d).1),
{
    proof {
        lemma_wrapping_add(x, offset(d).0);
        lemma_wrapping_add(y, offset(d).1);
        lemma_wrapping_add(x, 0);
        lemma_wrapping_add(y, 0);
    }
    match d {
        Direction::Up => (x, y.wrapping_sub(STEP)),
        Direction::Down => (x, y.wrapping_add(STEP)),
        Direction::Left => (x.wrapping_sub(STEP), y),
        Direction::Right => (x.wrapping_add(STEP), y),
    }
}

/// The position `[x', y']` after pressing `key` at (x, y).
///
/// `"w"` moves up (y decreases), `"s"` down, `"a"` left and `"d"` right, each by
/// `STEP`; any other key, the empty one and longer ones included, changes
/// nothing. A coordinate that leaves the range of `i32` wraps around.
pub fn move_player(x: i32, y: i32, key: &str) -> (r: Vec<i32>)
    ensures
        r@ == moved(x, y, key@),
        key@ == seq!['w'] ==> r@[0] == x && r@[1] as int == wrap_i32(y - STEP),
        key@ == seq!['s'] ==> r@[0] == x && r@[1] as int == wrap_i32(y + STEP),
        key@ == seq!['a'] ==> r@[0] as int == wrap_i32(x - STEP) && r@[1] == y,
        key@ == seq!['d'] ==> r@[0] as int == wrap_i32(x + STEP) && r@[1] == y,
        key@ != seq!['w'] && key@ != seq!['s'] && key@ != seq!['a'] && key@ != seq!['d']
            ==> r@ == seq![x, y],
{
    let (nx, ny) = match Direction::from_key(key) {
        Some(d) => step(x, y, d),
        None => (x, y),
    };
    proof {
        lemma_direction_keys_distinct();
        lemma_wrapping_add(x, 0);
        lemma_wrapping_add(y, 0);
    }
    let r = vec![nx, ny];
    assert(r@ =~= moved(x, y, key@));
    r
}

/// Whether `back` is the key opposite to `key`: `w` and `s` are opposites, as
/// are `a` and `d`.
pub open spec fn is_inverse_pair(key: Seq<char>, back: Seq<char>) -> bool {
    (key == seq!['w'] && back == seq!['s']) || (key == seq!['s'] && back == seq!['w'])
        || (key == seq!['a'] && back == seq!['d']) || (key == seq!['d'] && back == seq!['a'])
}

/// Pressing a direction key and then the opposite one returns to the starting
/// position, for every start, wrapping included.
pub proof fn lemma_inverse_keys_cancel(x: i32, y: i32, key: Seq<char>, back: Seq<char>)
    requires
        is_inverse_pair(key, back),
    ensures
        moved(moved(x, y, key)[0], moved(x, y, key)[1], back) == seq![x, y],
{
    let p = moved(x, y, key);
    lemma_direction_keys_distinct();
    lemma_wrapping_add(x, 0);
    lemma_wrapping_add(y, 0);
    lemma_wrapping_add(x, STEP as int);
    lemma_wrapping_add(y, STEP as int);
    lemma_wrapping_add(x, -STEP as int);
    lemma_wrapping_add(y, -STEP as int);
    lemma_wrapping_add(p[0], 0);
    lemma_wrapping_add(p[1], 0);
    lemma_wrapping_add(p[0], STEP as int);
    lemma_wrapping_add(p[1], STEP as int);
    lemma_wrapping_add(p[0], -STEP as int);
    lemma_wrapping_add(p[1], -STEP as int);
    assert(moved(p[0], p[1], back) =~= seq![x, y]);
}

} // verus!
