//! How a client finds out whether the croft just clicked wins or ties the game.
use vstd::prelude::*;
use crate::board::{Croft, contains_croft};
use crate::line::WonDirection;
use crate::play::WonGameData;

verus! {

/// Largest coordinate that a client offers for a click.
pub const LAST_INDEX: u8 = 29;

/// Number of crofts on a full field.
pub const FULL_FIELD: usize = 900;

/// What a client reports with a move.
pub enum PlayState {
    Continue,
    Won(WonGameData),
    Tie,
}

/// A `PlayState` as a value: the direction and the crofts of a win.
pub enum PlayOutcome {
    Continue,
    Won(WonDirection, Seq<Croft>),
    Tie,
}

impl View for PlayState {
    type V = PlayOutcome;

    open spec fn view(&self) -> PlayOutcome {
        match self {
            PlayState::Continue => PlayOutcome::Continue,
            PlayState::Won(w) => PlayOutcome::Won(w.direction, w.moves@),
            PlayState::Tie => PlayOutcome::Tie,
        }
    }
}

/// `v` moved `k` steps in direction `d`, which is -1, 0 or 1.
pub open spec fn step(v: int, d: int, k: int) -> int {
    if d == 1 {
        v + k
    } else if d == -1 {
        v - k
    } else {
        v
    }
}

/// The croft `k` steps away from (`x`, `y`) in direction (`dx`, `dy`).
pub open spec fn croft_at(x: int, y: int, dx: int, dy: int, k: int) -> Croft {
    Croft { x: step(x, dx, k) as u8, y: step(y, dy, k) as u8 }
}

/// How many crofts of `s` follow one another from `k` steps away from
/// (`x`, `y`) on, in direction (`dx`, `dy`), looking no further than `limit` steps.
pub open spec fn run_from(s: Seq<Croft>, x: int, y: int, dx: int, dy: int, k: nat, limit: nat) -> nat
    decreases limit + 1 - k,
{
    if k > limit {
        0
    } else if s.contains(croft_at(x, y, dx, dy, k as int)) {
        1 + run_from(s, x, y, dx, dy, k + 1, limit)
    } else {
        0
    }
}

/// How many crofts of `s` follow (`x`, `y`) without a gap in direction
/// (`dx`, `dy`), looking no further than `limit` steps.
pub open spec fn run(s: Seq<Croft>, x: int, y: int, dx: int, dy: int, limit: nat) -> nat {
    run_from(s, x, y, dx, dy, 1, limit)
}

/// The crofts 1, 2, ..., `count` steps (or, from `first` = 0, 0, 1, ...)
/// away from (`x`, `y`) in direction (`dx`, `dy`).
pub open spec fn ray(x: int, y: int, dx: int, dy: int, first: int, count: nat) -> Seq<Croft> {
    Seq::new(count, |o: int| croft_at(x, y, dx, dy, first + o))
}

/// The first `n` elements of `s`, or all of them where there are fewer.
pub open spec fn take_at_most(s: Seq<Croft>, n: int) -> Seq<Croft> {
    if n < s.len() {
        s.take(n)
    } else {
        s
    }
}

pub open spec fn min_int(a: int, b: int) -> int {
    if a < b {
        a
    } else {
        b
    }
}

/// What a client reports when the crofts of the player who moves are
/// `moves`, newest (the croft just clicked) first, and `needed` crofts in a row
/// win: a tie when there are 900 of them; otherwise a win in the first direction
/// (row, column, then the two diagonals) in which the new croft completes a line
/// of `needed`, with the crofts of that line; otherwise nothing.
pub open spec fn detect(moves: Seq<Croft>, needed: int) -> PlayOutcome {
    if moves.len() == FULL_FIELD {
        PlayOutcome::Tie
    } else {
        let x = moves[0].x as int;
        let y = moves[0].y as int;
        let max_right = min_int(needed - 1, LAST_INDEX - x);
        let max_left = min_int(needed - 1, x);
        let max_up = min_int(needed - 1, y);
        let max_down = min_int(needed - 1, LAST_INDEX - y);
        let right = run(moves, x, y, 1, 0, max_right as nat);
        let left = run(moves, x, y, -1, 0, max_left as nat);
        if left + right + 1 >= needed {
            PlayOutcome::Won(
                WonDirection::Horizontal,
                take_at_most(ray(x, y, 1, 0, 0, right + 1) + ray(x, y, -1, 0, 1, left), needed),
            )
        } else {
            let up = run(moves, x, y, 0, -1, max_up as nat);
            let down = run(moves, x, y, 0, 1, max_down as nat);
            if down + up + 1 >= needed {
                PlayOutcome::Won(
                    WonDirection::Vertical,
                    take_at_most(ray(x, y, 0, -1, 1, up) + ray(x, y, 0, 1, 1, down), needed),
                )
            } else {
                let up_left = run(moves, x, y, -1, -1, min_int(max_up, max_left) as nat);
                let down_right = run(moves, x, y, 1, 1, min_int(max_down, max_right) as nat);
                if down_right + up_left + 1 >= needed {
                    PlayOutcome::Won(
                        WonDirection::DiagonalLR,
                        take_at_most(
                            ray(x, y, -1, -1, 1, up_left) + ray(x, y, 1, 1, 1, down_right),
                            needed,
                        ),
                    )
                } else {
                    let up_right = run(moves, x, y, 1, -1, min_int(max_up, max_right) as nat);
                    let down_left = run(moves, x, y, -1, 1, min_int(max_down, max_left) as nat);
                    if down_left + up_right + 1 >= needed {
                        PlayOutcome::Won(
                            WonDirection::DiagonalRL,
                            take_at_most(
                                ray(x, y, 1, -1, 1, up_right) + ray(x, y, -1, 1, 1, down_left),
                                needed,
                            ),
                        )
                    } else {
                        PlayOutcome::Continue
                    }
                }
            }
        }
    }
}

/// Whether (`x`, `y`) can go `limit` steps in direction (`dx`, `dy`) and stay
/// a pair of bytes.
pub open spec fn fits(x: int, y: int, dx: int, dy: int, limit: int) -> bool {
    &&& -1 <= dx <= 1
    &&& -1 <= dy <= 1
    &&& 0 <= step(x, dx, limit) <= 255
    &&& 0 <= step(y, dy, limit) <= 255
}

fn step_u8(v: u8, d: i8, k: u8) -> (r: u8)
    requires
        -1 <= d <= 1,
        0 <= step(v as int, d as int, k as int) <= 255,
    ensures
        r == step(v as int, d as int, k as int),
{
    if d == 1 {
        v + k
    } else if d == -1 {
        v - k
    } else {
        v
    }
}

fn croft_step(x: u8, y: u8, dx: i8, dy: i8, k: u8) -> (r: Croft)
    requires
        fits(x as int, y as int, dx as int, dy as int, k as int),
    ensures
        r == croft_at(x as int, y as int, dx as int, dy as int, k as int),
{
    Croft { x: step_u8(x, dx, k), y: step_u8(y, dy, k) }
}

proof fn lemma_fits_less(x: int, y: int, dx: int, dy: int, k: int, limit: int)
    requires
        fits(x, y, dx, dy, limit),
        0 <= x <= 255,
        0 <= y <= 255,
        0 <= k <= limit,
    ensures
        fits(x, y, dx, dy, k),
{
}

/// How many crofts of `s` follow (`x`, `y`) without a gap in direction
/// (`dx`, `dy`), looking no further than `limit` steps (see `run`).
fn run_length(s: &Vec<Croft>, x: u8, y: u8, dx: i8, dy: i8, limit: u8) -> (r: u8)
    requires
        fits(x as int, y as int, dx as int, dy as int, limit as int),
    ensures
        r == run(s@, x as int, y as int, dx as int, dy as int, limit as nat),
        r <= limit,
{
    let mut k: u8 = 1;
    while k <= limit
        invariant
            1 <= k <= limit as int + 1,
            fits(x as int, y as int, dx as int, dy as int, limit as int),
            run(s@, x as int, y as int, dx as int, dy as int, limit as nat) == (k - 1) + run_from(
                s@,
                x as int,
                y as int,
                dx as int,
                dy as int,
                k as nat,
                limit as nat,
            ),
        decreases limit + 1 - k,
    {
        proof {
            lemma_fits_less(x as int, y as int, dx as int, dy as int, k as int, limit as int);
        }
        let c = croft_step(x, y, dx, dy, k);
        if !contains_croft(s, c) {
            return k - 1;
        }
        if k == limit {
            assert(run_from(s@, x as int, y as int, dx as int, dy as int, (k + 1) as nat, limit as nat) == 0);
            return k;
        }
        k = k + 1;
    }
    k - 1
}

/// The crofts `first`, `first` + 1, ... `first` + `count` - 1 steps away from
/// (`x`, `y`) in direction (`dx`, `dy`) (see `ray`), after those in `v`.
fn push_ray(v: &mut Vec<Croft>, x: u8, y: u8, dx: i8, dy: i8, first: u8, count: u8)
    requires
        first <= 1,
        count > 0 ==> fits(x as int, y as int, dx as int, dy as int, first + count - 1),
    ensures
        final(v)@ == old(v)@ + ray(x as int, y as int, dx as int, dy as int, first as int, count as nat),
{
    let ghost start = v@;
    let mut o: u8 = 0;
    while o < count
        invariant
            first <= 1,
            o <= count,
            count > 0 ==> fits(x as int, y as int, dx as int, dy as int, first + count - 1),
            v@ == start + ray(x as int, y as int, dx as int, dy as int, first as int, o as nat),
        decreases count - o,
    {
        proof {
            lemma_fits_less(x as int, y as int, dx as int, dy as int, first + o, first + count - 1);
        }
        let c = croft_step(x, y, dx, dy, first + o);
        v.push(c);
        o = o + 1;
        assert(v@ =~= start + ray(x as int, y as int, dx as int, dy as int, first as int, o as nat));
    }
}

fn min_u8(a: u8, b: u8) -> (r: u8)
    ensures
        r == min_int(a as int, b as int),
{
    if a < b {
        a
    } else {
        b
    }
}

/// The crofts of a winning line: `a` crofts from `first_a` steps on in
/// direction (`dxa`, `dya`), then `b` crofts from one step on in direction
/// (`dxb`, `dyb`), at most `needed` of them.
fn won_line(
    x: u8,
    y: u8,
    dxa: i8,
    dya: i8,
    first_a: u8,
    a: u8,
    dxb: i8,
    dyb: i8,
    b: u8,
    needed: u8,
) -> (r: Vec<Croft>)
    requires
        first_a <= 1,
        a > 0 ==> fits(x as int, y as int, dxa as int, dya as int, first_a + a - 1),
        b > 0 ==> fits(x as int, y as int, dxb as int, dyb as int, b as int),
    ensures
        r@ == take_at_most(
            ray(x as int, y as int, dxa as int, dya as int, first_a as int, a as nat) + ray(
                x as int,
                y as int,
                dxb as int,
                dyb as int,
                1,
                b as nat,
            ),
            needed as int,
        ),
{
    let mut v: Vec<Croft> = Vec::new();
    push_ray(&mut v, x, y, dxa, dya, first_a, a);
    push_ray(&mut v, x, y, dxb, dyb, 1, b);
    assert(v@ =~= ray(x as int, y as int, dxa as int, dya as int, first_a as int, a as nat) + ray(
        x as int,
        y as int,
        dxb as int,
        dyb as int,
        1,
        b as nat,
    ));
    if (needed as usize) < v.len() {
        v.truncate(needed as usize);
    }
    v
}

/// What a client reports with its move (see `detect`): `moves` are the crofts
/// of the player who moves, newest (the croft just clicked) first.
pub fn check_moves(moves: &Vec<Croft>, needed: u8) -> (r: PlayState)
    requires
        moves@.len() > 0,
        moves@[0].x <= LAST_INDEX,
        moves@[0].y <= LAST_INDEX,
        needed >= 1,
    ensures
        r@ == detect(moves@, needed as int),
{
    if moves.len() == FULL_FIELD {
        return PlayState::Tie;
    }
    let x = moves[0].x;
    let y = moves[0].y;
    let max_right = min_u8(needed - 1, LAST_INDEX - x);
    let max_left = min_u8(needed - 1, x);
    let right = run_length(moves, x, y, 1, 0, max_right);
    let left = run_length(moves, x, y, -1, 0, max_left);
    if left as u16 + right as u16 + 1 >= needed as u16 {
        let m = won_line(x, y, 1, 0, 0, right + 1, -1, 0, left, needed);
        return PlayState::Won(WonGameData { direction: WonDirection::Horizontal, moves: m });
    }
    let max_up = min_u8(needed - 1, y);
    let max_down = min_u8(needed - 1, LAST_INDEX - y);
    let up = run_length(moves, x, y, 0, -1, max_up);
    let down = run_length(moves, x, y, 0, 1, max_down);
    if down as u16 + up as u16 + 1 >= needed as u16 {
        let m = won_line(x, y, 0, -1, 1, up, 0, 1, down, needed);
        return PlayState::Won(WonGameData { direction: WonDirection::Vertical, moves: m });
    }
    let up_left = run_length(moves, x, y, -1, -1, min_u8(max_up, max_left));
    let down_right = run_length(moves, x, y, 1, 1, min_u8(max_down, max_right));
    if down_right as u16 + up_left as u16 + 1 >= needed as u16 {
        let m = won_line(x, y, -1, -1, 1, up_left, 1, 1, down_right, needed);
        return PlayState::Won(WonGameData { direction: WonDirection::DiagonalLR, moves: m });
    }
    let up_right = run_length(moves, x, y, 1, -1, min_u8(max_up, max_right));
    let down_left = run_length(moves, x, y, -1, 1, min_u8(max_down, max_left));
    if down_left as u16 + up_right as u16 + 1 >= needed as u16 {
        let m = won_line(x, y, 1, -1, 1, up_right, -1, 1, down_left, needed);
        return PlayState::Won(WonGameData { direction: WonDirection::DiagonalRL, moves: m });
    }
    PlayState::Continue
}

} // verus!
