//! Straight lines of crofts: what a claimed win has to look like.
use vstd::prelude::*;
use crate::board::Croft;

verus! {

/// The direction of a line of crofts.
#[derive(Clone, Copy, Debug, PartialEq, Eq, Structural)]
pub enum WonDirection {
    /// Along a row: the same `y`, consecutive `x`.
    Horizontal,
    /// Along a column: the same `x`, consecutive `y`.
    Vertical,
    /// From top left to bottom right: `y - x` stays the same.
    DiagonalLR,
    /// From top right to bottom left: `y + x` stays the same.
    DiagonalRL,
}

/// The coordinate that a line runs along: `y` for a column, `x` otherwise.
pub open spec fn line_key(c: Croft, d: WonDirection) -> int {
    match d {
        WonDirection::Vertical => c.y as int,
        _ => c.x as int,
    }
}

/// The quantity that stays the same along a line in direction `d`.
pub open spec fn line_offset(c: Croft, d: WonDirection) -> int {
    match d {
        WonDirection::Horizontal => c.y as int,
        WonDirection::Vertical => c.x as int,
        WonDirection::DiagonalLR => c.y - c.x,
        WonDirection::DiagonalRL => c.y + c.x,
    }
}

/// Whether the crofts of `s` form one unbroken line in direction `d`:
/// all on one row, column or diagonal, and, taken in order along the line,
/// at consecutive positions (no two at one position, none further apart than the
/// line is long).
pub open spec fn in_line(s: Seq<Croft>, d: WonDirection) -> bool {
    &&& s.len() > 0
    &&& forall|i: int| 0 <= i < s.len() ==> line_offset(#[trigger] s[i], d) == line_offset(s[0], d)
    &&& forall|i: int, j: int|
        0 <= i < s.len() && 0 <= j < s.len() && i != j ==> line_key(#[trigger] s[i], d) != line_key(
            #[trigger] s[j],
            d,
        )
    &&& forall|i: int, j: int|
        0 <= i < s.len() && 0 <= j < s.len() ==> line_key(#[trigger] s[i], d) - line_key(
            #[trigger] s[j],
            d,
        ) < s.len()
}

fn key_of(c: Croft, d: WonDirection) -> (r: i32)
    ensures
        r == line_key(c, d),
{
    match d {
        WonDirection::Vertical => c.y as i32,
        _ => c.x as i32,
    }
}

fn offset_of(c: Croft, d: WonDirection) -> (r: i32)
    ensures
        r == line_offset(c, d),
{
    match d {
        WonDirection::Horizontal => c.y as i32,
        WonDirection::Vertical => c.x as i32,
        WonDirection::DiagonalLR => c.y as i32 - c.x as i32,
        WonDirection::DiagonalRL => c.y as i32 + c.x as i32,
    }
}

/// Whether the crofts of `s` form one unbroken line in direction `d`
/// (see `in_line`).
pub fn is_line(s: &Vec<Croft>, d: WonDirection) -> (r: bool)
    ensures
        r == in_line(s@, d),
{
    let n = s.len();
    if n == 0 {
        return false;
    }
    let base = offset_of(s[0], d);
    let mut i: usize = 0;
    while i < n
        invariant
            n == s@.len(),
            n > 0,
            base == line_offset(s@[0], d),
            i <= n,
            forall|a: int| 0 <= a < i ==> line_offset(#[trigger] s@[a], d) == line_offset(s@[0], d),
            forall|a: int, b: int|
                0 <= a < i && 0 <= b < n && a != b ==> line_key(#[trigger] s@[a], d) != line_key(
                    #[trigger] s@[b],
                    d,
                ),
            forall|a: int, b: int|
                0 <= a < i && 0 <= b < n ==> line_key(#[trigger] s@[a], d) - line_key(
                    #[trigger] s@[b],
                    d,
                ) < n,
        decreases n - i,
    {
        let ci = s[i];
        if offset_of(ci, d) != base {
            assert(line_offset(s@[i as int], d) != line_offset(s@[0], d));
            return false;
        }
        let ki = key_of(ci, d);
        let mut j: usize = 0;
        while j < n
            invariant
                n == s@.len(),
                i < n,
                j <= n,
                ci == s@[i as int],
                ki == line_key(ci, d),
                forall|b: int| 0 <= b < j && b != i ==> ki != line_key(#[trigger] s@[b], d),
                forall|b: int| 0 <= b < j ==> ki - line_key(#[trigger] s@[b], d) < n,
            decreases n - j,
        {
            let kj = key_of(s[j], d);
            if j != i && kj == ki {
                assert(line_key(s@[i as int], d) == line_key(s@[j as int], d));
                return false;
            }
            if ki >= kj && (ki - kj) as usize >= n {
                assert(line_key(s@[i as int], d) - line_key(s@[j as int], d) >= n);
                return false;
            }
            j = j + 1;
        }
        i = i + 1;
    }
    true
}

} // verus!
