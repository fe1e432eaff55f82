//! What holds of the game rules as a whole: of the server's decisions across
//! moves, and of a client's win detection against the server's checks.
use vstd::prelude::*;
use crate::board::{Croft, count_in, next_index, own_crofts, first_index};
use crate::line::{WonDirection, in_line, line_key, line_offset};
use crate::play::{GameRecord, PlayGameData, PlayRejection, WonGameData, claimed_line, play_rejection, win_rejection, FIELD_CROFTS};
use crate::detect::{PlayOutcome, detect, run, run_from, croft_at, ray, step, take_at_most, min_int, fits, LAST_INDEX};

verus! {

broadcast use vstd::seq_lib::group_seq_properties;

// ----- crofts a player owns -----

proof fn lemma_own_crofts_from_field(field: Seq<Croft>, n: nat)
    requires
        n > 0,
    ensures
        forall|i: int| 0 <= i < own_crofts(field, n).len() ==> field.contains(#[trigger] own_crofts(field, n)[i]),
        field.len() > 0 ==> own_crofts(field, n).len() > 0 && own_crofts(field, n)[0] == field.last(),
    decreases field.len(),
{
    let own = own_crofts(field, n);
    if field.len() == 0 {
    } else if field.len() <= n {
        assert(field.contains(field[field.len() - 1]));
    } else {
        let rest = field.take(field.len() - n);
        lemma_own_crofts_from_field(rest, n);
        assert forall|i: int| 0 <= i < own.len() implies field.contains(#[trigger] own[i]) by {
            if i == 0 {
                assert(field[field.len() - 1] == own[0]);
            } else {
                let c = own_crofts(rest, n)[i - 1];
                assert(own[i] == c);
                assert(rest.contains(c));
                let k = choose|k: int| 0 <= k < rest.len() && rest[k] == c;
                assert(field[k] == c);
            }
        }
    }
}

proof fn lemma_own_crofts_distinct(field: Seq<Croft>, n: nat)
    requires
        n > 0,
        field.no_duplicates(),
    ensures
        own_crofts(field, n).no_duplicates(),
    decreases field.len(),
{
    if field.len() > n {
        let rest = field.take(field.len() - n);
        assert(rest.no_duplicates()) by {
            assert forall|i: int, j: int| 0 <= i < rest.len() && 0 <= j < rest.len() && i != j implies rest[i] != rest[j] by {
                assert(rest[i] == field[i] && rest[j] == field[j]);
            }
        }
        lemma_own_crofts_distinct(rest, n);
        lemma_own_crofts_from_field(rest, n);
        let tail = own_crofts(rest, n);
        assert forall|j: int| 0 <= j < tail.len() implies tail[j] != field.last() by {
            assert(rest.contains(tail[j]));
            let k = choose|k: int| 0 <= k < rest.len() && rest[k] == tail[j];
            assert(field[k] == tail[j]);
            assert(field[field.len() - 1] == field.last());
        }
        let own = own_crofts(field, n);
        assert(own == seq![field.last()] + tail);
        assert forall|i: int, j: int| 0 <= i < own.len() && 0 <= j < own.len() && i != j implies own[i] != own[j] by {
            if i == 0 {
                assert(own[j] == tail[j - 1]);
            } else if j == 0 {
                assert(own[i] == tail[i - 1]);
            } else {
                assert(own[i] == tail[i - 1] && own[j] == tail[j - 1]);
            }
        }
    }
}

// ----- counting claimed crofts -----

proof fn lemma_count_in_as_set(s: Seq<Croft>, pool: Seq<Croft>)
    requires
        s.no_duplicates(),
    ensures
        count_in(s, pool) == s.to_set().intersect(pool.to_set()).len(),
        s.to_set().intersect(pool.to_set()).finite(),
    decreases s.len(),
{
    broadcast use vstd::set::group_set_axioms, vstd::seq_lib::seq_to_set_is_finite;

    if s.len() == 0 {
        assert(s.to_set().intersect(pool.to_set()) =~= Set::<Croft>::empty());
    } else {
        let rest = s.drop_last();
        let l = s.last();
        assert(rest.no_duplicates()) by {
            assert forall|i: int, j: int| 0 <= i < rest.len() && 0 <= j < rest.len() && i != j implies rest[i] != rest[j] by {
                assert(rest[i] == s[i] && rest[j] == s[j]);
            }
        }
        lemma_count_in_as_set(rest, pool);
        assert(s.to_set() =~= rest.to_set().insert(l)) by {
            assert(s =~= rest.push(l));
        }
        assert(!rest.to_set().contains(l)) by {
            if rest.contains(l) {
                let k = choose|k: int| 0 <= k < rest.len() && rest[k] == l;
                assert(s[k] == s[s.len() - 1]);
            }
        }
        let before = rest.to_set().intersect(pool.to_set());
        if pool.contains(l) {
            assert(s.to_set().intersect(pool.to_set()) =~= before.insert(l));
        } else {
            assert(s.to_set().intersect(pool.to_set()) =~= before);
        }
    }
}

/// When neither `s` nor `pool` holds a croft twice, `count_in(s, pool)`
/// reaches the length of `pool` exactly when every croft of `pool` is in `s`.
pub proof fn lemma_count_full_iff_subset(s: Seq<Croft>, pool: Seq<Croft>)
    requires
        s.no_duplicates(),
        pool.no_duplicates(),
    ensures
        (count_in(s, pool) == pool.len()) <==> (forall|i: int| 0 <= i < pool.len() ==> s.contains(#[trigger] pool[i])),
{
    broadcast use vstd::set::group_set_axioms, vstd::seq_lib::seq_to_set_is_finite;

    lemma_count_in_as_set(s, pool);
    pool.unique_seq_to_set();
    let inter = s.to_set().intersect(pool.to_set());
    let ps = pool.to_set();
    assert(inter.subset_of(ps));
    if count_in(s, pool) == pool.len() {
        vstd::set_lib::lemma_subset_equality(inter, ps);
        assert forall|i: int| 0 <= i < pool.len() implies s.contains(#[trigger] pool[i]) by {
            assert(ps.contains(pool[i]));
            assert(inter.contains(pool[i]));
        }
    }
    if forall|i: int| 0 <= i < pool.len() ==> s.contains(#[trigger] pool[i]) {
        assert(inter =~= ps) by {
            assert forall|c: Croft| ps.contains(c) implies inter.contains(c) by {
                let k = choose|k: int| 0 <= k < pool.len() && pool[k] == c;
                assert(s.contains(pool[k]));
            }
        }
    }
}

// ----- the server's decisions -----

/// Only the player whose turn it is can make a move, only in a game that has
/// not ended, and only on a croft that has not been played.
pub proof fn law_accepted_move_is_on_turn(users: Seq<u128>, user: u128, game: GameRecord, play: PlayGameData)
    requires
        play_rejection(users, user, game, play) is None,
    ensures
        !game.ended,
        users[next_index(users, game.last_played)] == user,
        !game.field@.contains(play.croft),
{
}

/// Once a game has ended, every move in it is refused as a move in an ended
/// game (so `decide_move` gives no update for it, whoever sends it).
pub proof fn law_ended_game_refused(users: Seq<u128>, user: u128, game: GameRecord, play: PlayGameData)
    requires
        game.ended,
    ensures
        play_rejection(users, user, game, play) == Some(PlayRejection::GameEnded),
{
}

/// A move of the player whose turn it is, in a game that goes on, onto a croft
/// that was already played is refused as a croft already used (so `decide_move`
/// gives no update for it).
pub proof fn law_used_croft_refused(users: Seq<u128>, user: u128, game: GameRecord, play: PlayGameData)
    requires
        !game.ended,
        users[next_index(users, game.last_played)] == user,
        game.field@.contains(play.croft),
    ensures
        play_rejection(users, user, game, play) == Some(PlayRejection::CroftUsed),
{
}

/// Whether `c` is a croft of the player who played last when `n` players
/// take turns on `field`: it stands at the end of `field`, or some whole number of
/// rounds of `n` moves before the end.
pub open spec fn played_by_last(field: Seq<Croft>, n: int, c: Croft) -> bool {
    exists|k: int| 0 <= k && k * n < field.len() && #[trigger] field[field.len() - 1 - k * n] == c
}

proof fn lemma_own_crofts_are_played_by_last(field: Seq<Croft>, n: nat, c: Croft)
    requires
        n > 0,
    ensures
        own_crofts(field, n).contains(c) == played_by_last(field, n as int, c),
    decreases field.len(),
{
    let len = field.len() as int;
    let own = own_crofts(field, n);
    if len == 0 {
    } else if len <= n {
        assert(own =~= seq![field.last()]);
        if own.contains(c) {
            assert(own[0] == c);
            assert(0 * (n as int) == 0);
            assert(field[len - 1 - 0 * (n as int)] == c);
        }
        if played_by_last(field, n as int, c) {
            let k = choose|k: int| 0 <= k && k * (n as int) < len && #[trigger] field[len - 1 - k * (n as int)] == c;
            if k >= 1 {
                assert(k * (n as int) >= n) by (nonlinear_arith)
                    requires
                        k >= 1,
                        n > 0,
                ;
            }
            assert(k == 0);
            assert(k * (n as int) == 0) by (nonlinear_arith)
                requires
                    k == 0,
            ;
            assert(own[0] == c);
        }
    } else {
        let rest = field.take(len - n);
        lemma_own_crofts_are_played_by_last(rest, n, c);
        let tail = own_crofts(rest, n);
        assert(own == seq![field.last()] + tail);
        if own.contains(c) {
            let i = choose|i: int| 0 <= i < own.len() && own[i] == c;
            if i == 0 {
                assert(0 * (n as int) == 0);
                assert(field[len - 1 - 0 * (n as int)] == c);
            } else {
                assert(tail[i - 1] == c);
                assert(tail.contains(c));
                let k = choose|k: int| 0 <= k && k * (n as int) < rest.len() && #[trigger] rest[rest.len() - 1 - k * (n as int)] == c;
                assert((k + 1) * (n as int) == k * (n as int) + n) by (nonlinear_arith);
                assert(field[len - 1 - (k + 1) * (n as int)] == rest[rest.len() - 1 - k * (n as int)]);
                assert(field[len - 1 - (k + 1) * (n as int)] == c);
            }
        }
        if played_by_last(field, n as int, c) {
            let k = choose|k: int| 0 <= k && k * (n as int) < len && #[trigger] field[len - 1 - k * (n as int)] == c;
            if k == 0 {
                assert(k * (n as int) == 0) by (nonlinear_arith)
                    requires
                        k == 0,
                ;
                assert(own[0] == c);
            } else {
                assert(k * (n as int) == (k - 1) * (n as int) + n) by (nonlinear_arith);
                assert((k - 1) * (n as int) >= 0) by (nonlinear_arith)
                    requires
                        k >= 1,
                        n > 0,
                ;
                assert(rest[rest.len() - 1 - (k - 1) * (n as int)] == c);
                assert(played_by_last(rest, n as int, c));
                assert(tail.contains(c));
                let i = choose|i: int| 0 <= i < tail.len() && tail[i] == c;
                assert(own[i + 1] == c);
            }
        }
    }
}

/// What the server answers to a move, in terms of the move alone. The players
/// take turns in the order of `users` (no one twice), and the one who played last
/// is `users[p]`; the one on turn is the next one, or the first after the last.
/// A move is refused as a move in an ended game exactly when the game has ended;
/// out of turn exactly when it goes on and the mover is not on turn; onto a used
/// croft exactly when, besides, that croft is on the field; as a false tie
/// exactly when, besides, a tie is claimed and the move does not fill the
/// 900 crofts. A tie that fills the field is accepted, and so is a move with no
/// tie and no win claimed. A win claim is refused for its number of crofts
/// exactly when the claimed crofts with the croft played are not as many as the
/// game asks, and as no line exactly when they are but do not form one.
pub proof fn law_move_decision(users: Seq<u128>, user: u128, game: GameRecord, play: PlayGameData, p: int)
    requires
        users.no_duplicates(),
        0 <= p < users.len(),
        users[p] == game.last_played,
    ensures
        ({
            let on_turn = user == (if p + 1 == users.len() { users[0] } else { users[p + 1] });
            let free = !game.ended && on_turn && !game.field@.contains(play.croft);
            let r = play_rejection(users, user, game, play);
            let claim = play.tie != Some(true) && play.won is Some;
            let claimed = play.won.unwrap().moves@.push(play.croft);
            &&& (r == Some(PlayRejection::GameEnded)) == game.ended
            &&& (r == Some(PlayRejection::NotYourTurn)) == (!game.ended && !on_turn)
            &&& (r == Some(PlayRejection::CroftUsed)) == (!game.ended && on_turn && game.field@.contains(play.croft))
            &&& (r == Some(PlayRejection::FalseTie)) == (free && play.tie == Some(true) && game.field@.len() + 1 != 900)
            &&& (free && play.tie == Some(true) && game.field@.len() + 1 == 900) ==> r is None
            &&& (free && play.tie != Some(true) && play.won is None) ==> r is None
            &&& (r == Some(PlayRejection::WrongMoveCount)) == (free && claim && claimed.len() != game.moves_needed)
            &&& (r == Some(PlayRejection::MovesDontAddUp)) == (free && claim && claimed.len() == game.moves_needed
                && !in_line(claimed, play.won.unwrap().direction))
            &&& (r == Some(PlayRejection::MovesNotYours)) ==> (free && claim && claimed.len() == game.moves_needed
                && in_line(claimed, play.won.unwrap().direction))
            &&& r is Some ==> (r == Some(PlayRejection::GameEnded) || r == Some(PlayRejection::NotYourTurn)
                || r == Some(PlayRejection::CroftUsed) || r == Some(PlayRejection::FalseTie)
                || r == Some(PlayRejection::WrongMoveCount) || r == Some(PlayRejection::MovesDontAddUp)
                || r == Some(PlayRejection::MovesNotYours))
        }),
{
    law_turns_rotate(users, p);
}

/// A win claim that has the right number of crofts in one line is accepted
/// exactly when every claimed croft, and the croft played, is a croft of the
/// player who moves: one they played, counting back whole rounds of the players
/// from the move (where no croft was on the field twice before).
pub proof fn law_win_claim_needs_own_crofts(users: Seq<u128>, user: u128, game: GameRecord, play: PlayGameData, p: int)
    requires
        users.no_duplicates(),
        0 <= p < users.len(),
        users[p] == game.last_played,
        game.field@.no_duplicates(),
        !game.ended,
        user == (if p + 1 == users.len() { users[0] } else { users[p + 1] }),
        !game.field@.contains(play.croft),
        play.tie != Some(true),
        play.won is Some,
        play.won.unwrap().moves@.push(play.croft).len() == game.moves_needed,
        in_line(play.won.unwrap().moves@.push(play.croft), play.won.unwrap().direction),
    ensures
        (play_rejection(users, user, game, play) is None) == (forall|i: int|
            0 <= i < play.won.unwrap().moves@.len() + 1 ==> played_by_last(
                game.field@.push(play.croft),
                users.len() as int,
                #[trigger] play.won.unwrap().moves@.push(play.croft)[i],
            )),
{
    law_turns_rotate(users, p);
    let w = play.won.unwrap();
    let claimed = w.moves@.push(play.croft);
    let f = game.field@.push(play.croft);
    let n = users.len();
    assert(claimed == claimed_line(w, play.croft));
    assert(f.no_duplicates()) by {
        assert forall|i: int, j: int| 0 <= i < f.len() && 0 <= j < f.len() && i != j implies f[i] != f[j] by {
            if i == f.len() - 1 {
                assert(game.field@[j] == f[j]);
            } else if j == f.len() - 1 {
                assert(game.field@[i] == f[i]);
            } else {
                assert(game.field@[i] == f[i] && game.field@[j] == f[j]);
            }
        }
    }
    lemma_own_crofts_distinct(f, n);
    assert(claimed.no_duplicates()) by {
        assert forall|i: int, j: int| 0 <= i < claimed.len() && 0 <= j < claimed.len() && i != j implies claimed[i] != claimed[j] by {
            assert(line_key(claimed[i], w.direction) != line_key(claimed[j], w.direction));
        }
    }
    lemma_count_full_iff_subset(own_crofts(f, n), claimed);
    assert forall|i: int| 0 <= i < claimed.len() implies own_crofts(f, n).contains(#[trigger] claimed[i])
        == played_by_last(f, n as int, claimed[i]) by {
        lemma_own_crofts_are_played_by_last(f, n, claimed[i]);
    }
}

/// An accepted move never puts a croft on the field twice: a field without
/// repeated crofts stays so.
pub proof fn law_accepted_move_keeps_crofts_distinct(users: Seq<u128>, user: u128, game: GameRecord, play: PlayGameData)
    requires
        game.field@.no_duplicates(),
        play_rejection(users, user, game, play) is None,
    ensures
        game.field@.push(play.croft).no_duplicates(),
{
    let f = game.field@.push(play.croft);
    assert forall|i: int, j: int| 0 <= i < f.len() && 0 <= j < f.len() && i != j implies f[i] != f[j] by {
        if i == f.len() - 1 {
            assert(game.field@[j] == f[j]);
        } else if j == f.len() - 1 {
            assert(game.field@[i] == f[i]);
        }
    }
}

/// The players take turns in order: after the player at index `i` has moved,
/// it is the turn of the one at index `i + 1`, and after the last one, of the first.
pub proof fn law_turns_rotate(users: Seq<u128>, i: int)
    requires
        users.no_duplicates(),
        0 <= i < users.len(),
    ensures
        next_index(users, users[i]) == if i + 1 == users.len() { 0 } else { i + 1 },
{
    assert(users.contains(users[i]));
    let k = first_index(users, users[i]);
    assert(0 <= k < users.len() && users[k] == users[i]);
}

/// A tie is only accepted when the move fills the field.
pub proof fn law_accepted_tie_fills_field(users: Seq<u128>, user: u128, game: GameRecord, play: PlayGameData)
    requires
        play_rejection(users, user, game, play) is None,
        play.tie == Some(true),
    ensures
        game.field@.push(play.croft).len() == FIELD_CROFTS,
{
}

/// A win is only accepted when the claimed crofts, with the croft played,
/// are exactly `moves_needed` crofts in one unbroken line, every one of them a
/// croft of the player who moved (played by them, counting turns back from the
/// move), provided that no croft was on the field twice before.
pub proof fn law_accepted_win_is_own_line(users: Seq<u128>, user: u128, game: GameRecord, play: PlayGameData)
    requires
        users.contains(game.last_played),
        game.field@.no_duplicates(),
        play_rejection(users, user, game, play) is None,
        play.tie != Some(true),
        play.won is Some,
    ensures
        ({
            let claimed = claimed_line(play.won.unwrap(), play.croft);
            let own = own_crofts(game.field@.push(play.croft), users.len());
            &&& claimed.len() == game.moves_needed
            &&& in_line(claimed, play.won.unwrap().direction)
            &&& forall|i: int| 0 <= i < claimed.len() ==> own.contains(#[trigger] claimed[i])
        }),
{
    let w = play.won.unwrap();
    let claimed = claimed_line(w, play.croft);
    let f = game.field@.push(play.croft);
    let n = users.len();
    assert(win_rejection(n, game, play.croft, w) is None);
    law_accepted_move_keeps_crofts_distinct(users, user, game, play);
    lemma_own_crofts_distinct(f, n);
    assert(claimed.no_duplicates()) by {
        assert forall|i: int, j: int| 0 <= i < claimed.len() && 0 <= j < claimed.len() && i != j implies claimed[i] != claimed[j] by {
            assert(line_key(claimed[i], w.direction) != line_key(claimed[j], w.direction));
        }
    }
    lemma_count_full_iff_subset(own_crofts(f, n), claimed);
}

// ----- a client's win detection against the server's checks -----

proof fn lemma_run_contained(s: Seq<Croft>, x: int, y: int, dx: int, dy: int, k: nat, limit: nat)
    requires
        k >= 1,
    ensures
        k <= limit + 1 ==> run_from(s, x, y, dx, dy, k, limit) <= limit + 1 - k,
        k > limit + 1 ==> run_from(s, x, y, dx, dy, k, limit) == 0,
        forall|o: int| k <= o < k + run_from(s, x, y, dx, dy, k, limit) ==> s.contains(#[trigger] croft_at(x, y, dx, dy, o)),
    decreases limit + 1 - k,
{
    if k <= limit && s.contains(croft_at(x, y, dx, dy, k as int)) {
        lemma_run_contained(s, x, y, dx, dy, k + 1, limit);
    }
}

/// Where a line runs along for the rays of a win that a client reports:
/// the crofts before the played one lie at `sign`, 2 `sign`, ... from it, those
/// after it at -`sign`, -2 `sign`, ...
proof fn lemma_rays_in_line(x: int, y: int, dxa: int, dya: int, a: nat, b: nat, d: WonDirection)
    requires
        0 <= x <= 255,
        0 <= y <= 255,
        fits(x, y, dxa, dya, a as int),
        fits(x, y, -dxa, -dya, b as int),
        (d == WonDirection::Vertical && dxa == 0 && dya == -1) || (d == WonDirection::DiagonalLR && dxa == -1 && dya == -1)
            || (d == WonDirection::DiagonalRL && dxa == 1 && dya == -1),
    ensures
        in_line((ray(x, y, dxa, dya, 1, a) + ray(x, y, -dxa, -dya, 1, b)).push(Croft { x: x as u8, y: y as u8 }), d),
{
    let c = Croft { x: x as u8, y: y as u8 };
    let s = (ray(x, y, dxa, dya, 1, a) + ray(x, y, -dxa, -dya, 1, b)).push(c);
    let k0 = line_key(c, d);
    let off = line_offset(c, d);
    let sign: int = if d == WonDirection::DiagonalRL { 1 } else { -1 };
    // position of each croft along the line, relative to the croft played
    let pos = |i: int| if i < a { if sign == 1 { i + 1 } else { -(i + 1) } } else if i < a + b { if sign == 1 { -(i - a + 1) } else { i - a + 1 } } else { 0 };
    assert forall|i: int| 0 <= i < s.len() implies line_key(#[trigger] s[i], d) == k0 + pos(i) && line_offset(s[i], d) == off by {
        if i < a {
            assert(s[i] == croft_at(x, y, dxa, dya, 1 + i));
            assert(0 <= step(x, dxa, 1 + i) <= 255 && 0 <= step(y, dya, 1 + i) <= 255);
        } else if i < a + b {
            assert(s[i] == croft_at(x, y, -dxa, -dya, 1 + (i - a)));
            assert(0 <= step(x, -dxa, 1 + (i - a)) <= 255 && 0 <= step(y, -dya, 1 + (i - a)) <= 255);
        } else {
            assert(s[i] == c);
        }
    }
    assert(s.len() == a + b + 1);
    assert forall|i: int| 0 <= i < s.len() implies line_offset(#[trigger] s[i], d) == line_offset(s[0], d) by {
        assert(line_key(s[i], d) == k0 + pos(i) && line_offset(s[i], d) == off);
        assert(line_key(s[0], d) == k0 + pos(0) && line_offset(s[0], d) == off);
    }
    assert forall|i: int, j: int| 0 <= i < s.len() && 0 <= j < s.len() && i != j implies line_key(#[trigger] s[i], d) != line_key(#[trigger] s[j], d) by {
        assert(line_key(s[i], d) == k0 + pos(i));
        assert(line_key(s[j], d) == k0 + pos(j));
    }
    assert forall|i: int, j: int| 0 <= i < s.len() && 0 <= j < s.len() implies line_key(#[trigger] s[i], d) - line_key(#[trigger] s[j], d) < s.len() by {
        assert(line_key(s[i], d) == k0 + pos(i));
        assert(line_key(s[j], d) == k0 + pos(j));
    }
}

/// The crofts of a reported win, with the croft played, are all among `s` and
/// so counted in full.
proof fn lemma_rays_owned(s: Seq<Croft>, x: int, y: int, dxa: int, dya: int, a: nat, b: nat, d: WonDirection)
    requires
        s.no_duplicates(),
        s.len() > 0,
        s[0] == (Croft { x: x as u8, y: y as u8 }),
        forall|o: int| 1 <= o < 1 + a ==> s.contains(#[trigger] croft_at(x, y, dxa, dya, o)),
        forall|o: int| 1 <= o < 1 + b ==> s.contains(#[trigger] croft_at(x, y, -dxa, -dya, o)),
        in_line((ray(x, y, dxa, dya, 1, a) + ray(x, y, -dxa, -dya, 1, b)).push(Croft { x: x as u8, y: y as u8 }), d),
    ensures
        count_in(s, (ray(x, y, dxa, dya, 1, a) + ray(x, y, -dxa, -dya, 1, b)).push(Croft { x: x as u8, y: y as u8 }))
            == a + b + 1,
{
    let c = Croft { x: x as u8, y: y as u8 };
    let claimed = (ray(x, y, dxa, dya, 1, a) + ray(x, y, -dxa, -dya, 1, b)).push(c);
    assert(claimed.no_duplicates()) by {
        assert forall|i: int, j: int| 0 <= i < claimed.len() && 0 <= j < claimed.len() && i != j implies claimed[i] != claimed[j] by {
            assert(line_key(claimed[i], d) != line_key(claimed[j], d));
        }
    }
    assert forall|i: int| 0 <= i < claimed.len() implies s.contains(#[trigger] claimed[i]) by {
        if i < a {
            assert(claimed[i] == croft_at(x, y, dxa, dya, 1 + i));
        } else if i < a + b {
            assert(claimed[i] == croft_at(x, y, -dxa, -dya, 1 + (i - a)));
        } else {
            assert(claimed[i] == s[0]);
        }
    }
    lemma_count_full_iff_subset(s, claimed);
}

/// When a client reports a win along a column or a diagonal whose line is
/// exactly as long as the game asks, the server accepts the claim: it has the
/// right number of crofts, they form an unbroken line, and all of them are crofts
/// of the player who moves. Here `n` is the number of players, the client sees the
/// same field as the server, and no croft is on the field twice.
/// (A row is never accepted in this way: a client reports the played croft among
/// the crofts of a row, and the server adds it once more. Nor is a line longer
/// than the game asks, for which a client reports more crofts than the server
/// counts.)
pub proof fn law_client_win_accepted(n: nat, game: GameRecord, mov: Croft, w: WonGameData)
    requires
        n > 0,
        game.field@.push(mov).no_duplicates(),
        mov.x <= LAST_INDEX,
        mov.y <= LAST_INDEX,
        game.moves_needed >= 1,
        detect(own_crofts(game.field@.push(mov), n), game.moves_needed as int) == PlayOutcome::Won(w.direction, w.moves@),
        w.direction != WonDirection::Horizontal,
        w.moves@.len() + 1 == game.moves_needed,
    ensures
        win_rejection(n, game, mov, w) is None,
{
    let f = game.field@.push(mov);
    let s = own_crofts(f, n);
    lemma_own_crofts_from_field(f, n);
    lemma_own_crofts_distinct(f, n);
    assert(f.last() == mov);
    assert(s[0] == mov);
    let nd = game.moves_needed as int;
    let x = mov.x as int;
    let y = mov.y as int;
    assert(mov == Croft { x: x as u8, y: y as u8 });
    assert(s.len() != crate::detect::FULL_FIELD);
    let max_right = min_int(nd - 1, LAST_INDEX - x);
    let max_left = min_int(nd - 1, x);
    let max_up = min_int(nd - 1, y);
    let max_down = min_int(nd - 1, LAST_INDEX - y);
    let right = run(s, x, y, 1, 0, max_right as nat);
    let left = run(s, x, y, -1, 0, max_left as nat);
    assert(!(left + right + 1 >= nd));
    let up = run(s, x, y, 0, -1, max_up as nat);
    let down = run(s, x, y, 0, 1, max_down as nat);
    let ul_limit = min_int(max_up, max_left);
    let dr_limit = min_int(max_down, max_right);
    let ur_limit = min_int(max_up, max_right);
    let dl_limit = min_int(max_down, max_left);
    let up_left = run(s, x, y, -1, -1, ul_limit as nat);
    let down_right = run(s, x, y, 1, 1, dr_limit as nat);
    let up_right = run(s, x, y, 1, -1, ur_limit as nat);
    let down_left = run(s, x, y, -1, 1, dl_limit as nat);
    let claimed = claimed_line(w, mov);
    if down + up + 1 >= nd {
        assert(w.direction == WonDirection::Vertical);
        lemma_run_contained(s, x, y, 0, -1, 1, max_up as nat);
        lemma_run_contained(s, x, y, 0, 1, 1, max_down as nat);
        let cat = ray(x, y, 0, -1, 1, up) + ray(x, y, 0, 1, 1, down);
        assert(w.moves@ == take_at_most(cat, nd));
        assert(w.moves@ == cat);
        lemma_rays_in_line(x, y, 0, -1, up, down, WonDirection::Vertical);
        lemma_rays_owned(s, x, y, 0, -1, up, down, WonDirection::Vertical);
        assert(claimed == cat.push(mov));
    } else if down_right + up_left + 1 >= nd {
        assert(w.direction == WonDirection::DiagonalLR);
        lemma_run_contained(s, x, y, -1, -1, 1, ul_limit as nat);
        lemma_run_contained(s, x, y, 1, 1, 1, dr_limit as nat);
        let cat = ray(x, y, -1, -1, 1, up_left) + ray(x, y, 1, 1, 1, down_right);
        assert(w.moves@ == take_at_most(cat, nd));
        assert(w.moves@ == cat);
        lemma_rays_in_line(x, y, -1, -1, up_left, down_right, WonDirection::DiagonalLR);
        lemma_rays_owned(s, x, y, -1, -1, up_left, down_right, WonDirection::DiagonalLR);
        assert(claimed == cat.push(mov));
    } else {
        assert(down_left + up_right + 1 >= nd);
        assert(w.direction == WonDirection::DiagonalRL);
        lemma_run_contained(s, x, y, 1, -1, 1, ur_limit as nat);
        lemma_run_contained(s, x, y, -1, 1, 1, dl_limit as nat);
        let cat = ray(x, y, 1, -1, 1, up_right) + ray(x, y, -1, 1, 1, down_left);
        assert(w.moves@ == take_at_most(cat, nd));
        assert(w.moves@ == cat);
        lemma_rays_in_line(x, y, 1, -1, up_right, down_left, WonDirection::DiagonalRL);
        lemma_rays_owned(s, x, y, 1, -1, up_right, down_left, WonDirection::DiagonalRL);
        assert(claimed == cat.push(mov));
    }
}

/// At most `n` crofts of two rays are the first `min(a, n)` of the first ray
/// and then as many of the second as are left.
proof fn lemma_take_rays(x: int, y: int, dxa: int, dya: int, fa: int, a: nat, dxb: int, dyb: int, b: nat, n: int)
    requires
        n >= 0,
    ensures
        ({
            let a2: nat = if n < a { n as nat } else { a };
            let b2: nat = if n <= a { 0 } else if n - a < b { (n - a) as nat } else { b };
            take_at_most(ray(x, y, dxa, dya, fa, a) + ray(x, y, dxb, dyb, 1, b), n)
                == ray(x, y, dxa, dya, fa, a2) + ray(x, y, dxb, dyb, 1, b2)
        }),
{
    let a2: nat = if n < a { n as nat } else { a };
    let b2: nat = if n <= a { 0 } else if n - a < b { (n - a) as nat } else { b };
    let cat = ray(x, y, dxa, dya, fa, a) + ray(x, y, dxb, dyb, 1, b);
    assert(take_at_most(cat, n) =~= ray(x, y, dxa, dya, fa, a2) + ray(x, y, dxb, dyb, 1, b2));
}

/// The crofts of a row that a client reports: from the played croft on to one
/// side, then the others to the other side, form one unbroken line.
proof fn lemma_row_in_line(x: int, y: int, a: nat, b: nat)
    requires
        0 <= x <= 255,
        0 <= y <= 255,
        a >= 1,
        fits(x, y, 1, 0, a - 1),
        fits(x, y, -1, 0, b as int),
    ensures
        in_line(ray(x, y, 1, 0, 0, a) + ray(x, y, -1, 0, 1, b), WonDirection::Horizontal),
{
    let d = WonDirection::Horizontal;
    let s = ray(x, y, 1, 0, 0, a) + ray(x, y, -1, 0, 1, b);
    let pos = |i: int| if i < a { i } else { -(i - a + 1) };
    assert forall|i: int| 0 <= i < s.len() implies line_key(#[trigger] s[i], d) == x + pos(i) && line_offset(s[i], d) == y by {
        if i < a {
            assert(s[i] == croft_at(x, y, 1, 0, i));
        } else {
            assert(s[i] == croft_at(x, y, -1, 0, 1 + (i - a)));
        }
    }
    assert forall|i: int| 0 <= i < s.len() implies line_offset(#[trigger] s[i], d) == line_offset(s[0], d) by {
        assert(line_offset(s[i], d) == y && line_offset(s[0], d) == y);
    }
    assert forall|i: int, j: int| 0 <= i < s.len() && 0 <= j < s.len() && i != j implies line_key(#[trigger] s[i], d) != line_key(#[trigger] s[j], d) by {
        assert(line_key(s[i], d) == x + pos(i));
        assert(line_key(s[j], d) == x + pos(j));
    }
    assert forall|i: int, j: int| 0 <= i < s.len() && 0 <= j < s.len() implies line_key(#[trigger] s[i], d) - line_key(#[trigger] s[j], d) < s.len() by {
        assert(line_key(s[i], d) == x + pos(i));
        assert(line_key(s[j], d) == x + pos(j));
    }
}

/// The crofts of two rays from (`x`, `y`), `fa` or 1 steps on, that a run
/// found among `s`, are all in `s`.
proof fn lemma_rays_in(s: Seq<Croft>, x: int, y: int, dxa: int, dya: int, fa: int, a: nat, dxb: int, dyb: int, b: nat)
    requires
        forall|o: int| fa <= o < fa + a ==> s.contains(#[trigger] croft_at(x, y, dxa, dya, o)),
        forall|o: int| 1 <= o < 1 + b ==> s.contains(#[trigger] croft_at(x, y, dxb, dyb, o)),
    ensures
        forall|i: int| 0 <= i < (ray(x, y, dxa, dya, fa, a) + ray(x, y, dxb, dyb, 1, b)).len()
            ==> s.contains(#[trigger] (ray(x, y, dxa, dya, fa, a) + ray(x, y, dxb, dyb, 1, b))[i]),
{
    let cat = ray(x, y, dxa, dya, fa, a) + ray(x, y, dxb, dyb, 1, b);
    assert forall|i: int| 0 <= i < cat.len() implies s.contains(#[trigger] cat[i]) by {
        if i < a {
            assert(cat[i] == croft_at(x, y, dxa, dya, fa + i));
        } else {
            assert(cat[i] == croft_at(x, y, dxb, dyb, 1 + (i - a)));
        }
    }
}

/// Every croft that a client reports for a win is a croft of the player who
/// moves; and the reported crofts, with the croft played (which a reported row
/// already holds), lie in one unbroken line in the reported direction. A row
/// holds exactly as many crofts as the game asks for. Here `n` is the number of
/// players and `field` the crofts played before.
pub proof fn law_client_win_is_own_line(field: Seq<Croft>, mov: Croft, n: nat, needed: int)
    requires
        n > 0,
        mov.x <= LAST_INDEX,
        mov.y <= LAST_INDEX,
        needed >= 1,
        detect(own_crofts(field.push(mov), n), needed) is Won,
    ensures
        ({
            let own = own_crofts(field.push(mov), n);
            let (d, ms) = match detect(own, needed) {
                PlayOutcome::Won(d, ms) => (d, ms),
                _ => (WonDirection::Horizontal, Seq::empty()),
            };
            &&& forall|i: int| 0 <= i < ms.len() ==> own.contains(#[trigger] ms[i])
            &&& d == WonDirection::Horizontal ==> in_line(ms, d) && ms.len() == needed
            &&& d != WonDirection::Horizontal ==> in_line(ms.push(mov), d)
        }),
{
    let f = field.push(mov);
    let s = own_crofts(f, n);
    lemma_own_crofts_from_field(f, n);
    assert(f.last() == mov);
    let x = mov.x as int;
    let y = mov.y as int;
    assert(mov == Croft { x: x as u8, y: y as u8 });
    assert(s.len() != crate::detect::FULL_FIELD);
    let max_right = min_int(needed - 1, LAST_INDEX - x);
    let max_left = min_int(needed - 1, x);
    let max_up = min_int(needed - 1, y);
    let max_down = min_int(needed - 1, LAST_INDEX - y);
    let right = run(s, x, y, 1, 0, max_right as nat);
    let left = run(s, x, y, -1, 0, max_left as nat);
    let up = run(s, x, y, 0, -1, max_up as nat);
    let down = run(s, x, y, 0, 1, max_down as nat);
    let ul_limit = min_int(max_up, max_left);
    let dr_limit = min_int(max_down, max_right);
    let ur_limit = min_int(max_up, max_right);
    let dl_limit = min_int(max_down, max_left);
    let up_left = run(s, x, y, -1, -1, ul_limit as nat);
    let down_right = run(s, x, y, 1, 1, dr_limit as nat);
    let up_right = run(s, x, y, 1, -1, ur_limit as nat);
    let down_left = run(s, x, y, -1, 1, dl_limit as nat);
    if left + right + 1 >= needed {
        lemma_run_contained(s, x, y, 1, 0, 1, max_right as nat);
        lemma_run_contained(s, x, y, -1, 0, 1, max_left as nat);
        assert forall|o: int| 0 <= o < 0 + (right + 1) implies s.contains(#[trigger] croft_at(x, y, 1, 0, o)) by {
            if o == 0 {
                assert(croft_at(x, y, 1, 0, 0) == s[0]);
            }
        }
        lemma_take_rays(x, y, 1, 0, 0, right + 1, -1, 0, left, needed);
        let a2: nat = if needed < right + 1 { needed as nat } else { (right + 1) as nat };
        let b2: nat = if needed <= right + 1 { 0 } else if needed - (right + 1) < left { (needed - (right + 1)) as nat } else { left };
        lemma_rays_in(s, x, y, 1, 0, 0, a2, -1, 0, b2);
        lemma_row_in_line(x, y, a2, b2);
    } else if down + up + 1 >= needed {
        lemma_run_contained(s, x, y, 0, -1, 1, max_up as nat);
        lemma_run_contained(s, x, y, 0, 1, 1, max_down as nat);
        lemma_take_rays(x, y, 0, -1, 1, up, 0, 1, down, needed);
        let a2: nat = if needed < up { needed as nat } else { up };
        let b2: nat = if needed <= up { 0 } else if needed - up < down { (needed - up) as nat } else { down };
        lemma_rays_in(s, x, y, 0, -1, 1, a2, 0, 1, b2);
        lemma_rays_in_line(x, y, 0, -1, a2, b2, WonDirection::Vertical);
    } else if down_right + up_left + 1 >= needed {
        lemma_run_contained(s, x, y, -1, -1, 1, ul_limit as nat);
        lemma_run_contained(s, x, y, 1, 1, 1, dr_limit as nat);
        lemma_take_rays(x, y, -1, -1, 1, up_left, 1, 1, down_right, needed);
        let a2: nat = if needed < up_left { needed as nat } else { up_left };
        let b2: nat = if needed <= up_left { 0 } else if needed - up_left < down_right { (needed - up_left) as nat } else { down_right };
        lemma_rays_in(s, x, y, -1, -1, 1, a2, 1, 1, b2);
        lemma_rays_in_line(x, y, -1, -1, a2, b2, WonDirection::DiagonalLR);
    } else {
        lemma_run_contained(s, x, y, 1, -1, 1, ur_limit as nat);
        lemma_run_contained(s, x, y, -1, 1, 1, dl_limit as nat);
        lemma_take_rays(x, y, 1, -1, 1, up_right, -1, 1, down_left, needed);
        let a2: nat = if needed < up_right { needed as nat } else { up_right };
        let b2: nat = if needed <= up_right { 0 } else if needed - up_right < down_left { (needed - up_right) as nat } else { down_left };
        lemma_rays_in(s, x, y, 1, -1, 1, a2, -1, 1, b2);
        lemma_rays_in_line(x, y, 1, -1, a2, b2, WonDirection::DiagonalRL);
    }
}

/// The point `o` steps from (`x`, `y`) along a line in direction `d` (a row
/// rightwards, a column downwards, a diagonal to the right and down or to the
/// right and up).
pub open spec fn line_point(x: int, y: int, d: WonDirection, o: int) -> (int, int) {
    match d {
        WonDirection::Horizontal => (x + o, y),
        WonDirection::Vertical => (x, y + o),
        WonDirection::DiagonalLR => (x + o, y + o),
        WonDirection::DiagonalRL => (x + o, y - o),
    }
}

/// Whether the point `pt` lies on the field and is one of the crofts `s`.
pub open spec fn holds_point(s: Seq<Croft>, pt: (int, int)) -> bool {
    0 <= pt.0 <= LAST_INDEX && 0 <= pt.1 <= LAST_INDEX && s.contains(Croft { x: pt.0 as u8, y: pt.1 as u8 })
}

proof fn lemma_run_from_at_least(s: Seq<Croft>, x: int, y: int, dx: int, dy: int, k: nat, limit: nat, m: nat)
    requires
        k >= 1,
        k + m <= limit + 1,
        forall|t: int| k <= t < k + m ==> s.contains(#[trigger] croft_at(x, y, dx, dy, t)),
    ensures
        run_from(s, x, y, dx, dy, k, limit) >= m,
    decreases m,
{
    if m > 0 {
        assert(s.contains(croft_at(x, y, dx, dy, k as int)));
        lemma_run_from_at_least(s, x, y, dx, dy, k + 1, limit, (m - 1) as nat);
    }
}

proof fn lemma_run_at_least(s: Seq<Croft>, x: int, y: int, dx: int, dy: int, m: int, limit: nat)
    requires
        0 <= m <= limit,
        forall|t: int| 1 <= t < 1 + m ==> s.contains(#[trigger] croft_at(x, y, dx, dy, t)),
    ensures
        run(s, x, y, dx, dy, limit) >= m,
{
    lemma_run_from_at_least(s, x, y, dx, dy, 1, limit, m as nat);
}

/// A client sees every win through the croft it clicks: where the crofts of
/// the player who moves (`s`, the clicked croft first, fewer than a full field)
/// hold `needed` consecutive crofts of one row, column or diagonal, on the field,
/// among them the clicked one (`k` of them before it along the line), the client
/// reports a win.
pub proof fn law_detect_sees_full_lines(s: Seq<Croft>, needed: int, d: WonDirection, k: int)
    requires
        s.len() > 0,
        s.len() != crate::detect::FULL_FIELD,
        s[0].x <= LAST_INDEX,
        s[0].y <= LAST_INDEX,
        needed >= 1,
        0 <= k < needed,
        forall|o: int| -k <= o < needed - k ==> holds_point(s, #[trigger] line_point(s[0].x as int, s[0].y as int, d, o)),
    ensures
        detect(s, needed) is Won,
{
    let x = s[0].x as int;
    let y = s[0].y as int;
    let b = needed - 1 - k;
    assert(holds_point(s, line_point(x, y, d, -k)));
    assert(holds_point(s, line_point(x, y, d, b)));
    let max_right = min_int(needed - 1, LAST_INDEX - x);
    let max_left = min_int(needed - 1, x);
    let max_up = min_int(needed - 1, y);
    let max_down = min_int(needed - 1, LAST_INDEX - y);
    let right = run(s, x, y, 1, 0, max_right as nat);
    let left = run(s, x, y, -1, 0, max_left as nat);
    let up = run(s, x, y, 0, -1, max_up as nat);
    let down = run(s, x, y, 0, 1, max_down as nat);
    let ul = min_int(max_up, max_left);
    let dr = min_int(max_down, max_right);
    let ur = min_int(max_up, max_right);
    let dl = min_int(max_down, max_left);
    match d {
        WonDirection::Horizontal => {
    assert forall|t: int| 1 <= t < 1 + b implies s.contains(#[trigger] croft_at(x, y, 1, 0, t)) by {
        assert(holds_point(s, line_point(x, y, WonDirection::Horizontal, t)));
    }
    lemma_run_at_least(s, x, y, 1, 0, b, (max_right) as nat);
    assert forall|t: int| 1 <= t < 1 + k implies s.contains(#[trigger] croft_at(x, y, -1, 0, t)) by {
        assert(holds_point(s, line_point(x, y, WonDirection::Horizontal, -t)));
    }
    lemma_run_at_least(s, x, y, -1, 0, k, (max_left) as nat);
            assert(left + right + 1 >= needed);
        },
        WonDirection::Vertical => {
    assert forall|t: int| 1 <= t < 1 + b implies s.contains(#[trigger] croft_at(x, y, 0, 1, t)) by {
        assert(holds_point(s, line_point(x, y, WonDirection::Vertical, t)));
    }
    lemma_run_at_least(s, x, y, 0, 1, b, (max_down) as nat);
    assert forall|t: int| 1 <= t < 1 + k implies s.contains(#[trigger] croft_at(x, y, 0, -1, t)) by {
        assert(holds_point(s, line_point(x, y, WonDirection::Vertical, -t)));
    }
    lemma_run_at_least(s, x, y, 0, -1, k, (max_up) as nat);
            assert(up + down + 1 >= needed);
        },
        WonDirection::DiagonalLR => {
    assert forall|t: int| 1 <= t < 1 + b implies s.contains(#[trigger] croft_at(x, y, 1, 1, t)) by {
        assert(holds_point(s, line_point(x, y, WonDirection::DiagonalLR, t)));
    }
    lemma_run_at_least(s, x, y, 1, 1, b, (dr) as nat);
    assert forall|t: int| 1 <= t < 1 + k implies s.contains(#[trigger] croft_at(x, y, -1, -1, t)) by {
        assert(holds_point(s, line_point(x, y, WonDirection::DiagonalLR, -t)));
    }
    lemma_run_at_least(s, x, y, -1, -1, k, (ul) as nat);
            assert(run(s, x, y, -1, -1, ul as nat) + run(s, x, y, 1, 1, dr as nat) + 1 >= needed);
        },
        WonDirection::DiagonalRL => {
    assert forall|t: int| 1 <= t < 1 + b implies s.contains(#[trigger] croft_at(x, y, 1, -1, t)) by {
        assert(holds_point(s, line_point(x, y, WonDirection::DiagonalRL, t)));
    }
    lemma_run_at_least(s, x, y, 1, -1, b, (ur) as nat);
    assert forall|t: int| 1 <= t < 1 + k implies s.contains(#[trigger] croft_at(x, y, -1, 1, t)) by {
        assert(holds_point(s, line_point(x, y, WonDirection::DiagonalRL, -t)));
    }
    lemma_run_at_least(s, x, y, -1, 1, k, (dl) as nat);
            assert(run(s, x, y, 1, -1, ur as nat) + run(s, x, y, -1, 1, dl as nat) + 1 >= needed);
        },
    }
}

} // verus!
