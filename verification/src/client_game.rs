//! A game as the client shows it: whose turn it is, what a click does, which
//! symbol each croft shows, and how a game's status reads.
use vstd::prelude::*;
use crate::board::{Croft, next_index, own_crofts, own_crofts_of};
use crate::detect::{PlayOutcome, PlayState, check_moves, detect, LAST_INDEX};
use crate::notice::{Notice, Status, notice, notice_view};
use crate::play::{WonGameData, copy_crofts};

verus! {

/// A player of a game: the nick and the id.
pub struct Player {
    pub name: String,
    pub id: u128,
}

/// The ids of `players`, in order.
pub open spec fn player_ids(players: Seq<Player>) -> Seq<u128> {
    players.map_values(|p: Player| p.id)
}

/// A game as the client holds it.
pub struct ClientGame {
    pub players: Vec<Player>,
    pub data: Vec<Croft>,
    pub ended: bool,
    pub winner: Option<u128>,
    pub last_played: u128,
    pub moves_needed: u8,
}

/// What a click on a croft does.
pub enum ClickResult {
    /// Nobody is logged in: nothing.
    Ignored,
    /// It is not the turn of the one who clicked: a notice says so.
    NotOnMove(Notice),
    /// The move to send, with what it does to the game.
    Play(Croft, PlayState),
}

impl PlayState {
    /// The win to report with a move, if it is one.
    pub fn won(&self) -> (r: Option<WonGameData>)
        ensures
            match self@ {
                PlayOutcome::Won(d, ms) => r matches Some(w) && w.direction == d && w.moves@ == ms,
                _ => r is None,
            },
    {
        match self {
            PlayState::Won(w) => Some(WonGameData { moves: copy_crofts(&w.moves), direction: w.direction }),
            _ => None,
        }
    }

    /// Whether to report a tie with a move: `Some(true)` for a tie, else nothing.
    pub fn tie(&self) -> (r: Option<bool>)
        ensures
            r == (if self@ is Tie { Some(true) } else { None::<bool> }),
    {
        match self {
            PlayState::Tie => Some(true),
            _ => None,
        }
    }

    /// Whether the move ends the game.
    pub fn ends_game(&self) -> (r: bool)
        ensures
            r == !(self@ is Continue),
    {
        match self {
            PlayState::Continue => false,
            _ => true,
        }
    }
}

impl ClientGame {
    /// A game that has not been loaded yet.
    pub fn empty() -> (r: ClientGame)
        ensures
            r.players@.len() == 0,
            r.data@.len() == 0,
            !r.ended,
            r.winner is None,
            r.last_played == 0,
            r.moves_needed == 0,
    {
        ClientGame { players: Vec::new(), data: Vec::new(), ended: false, winner: None, last_played: 0, moves_needed: 0 }
    }

    /// The ids of the players, in order.
    pub fn ids(&self) -> (r: Vec<u128>)
        ensures
            r@ == player_ids(self.players@),
    {
        let mut r: Vec<u128> = Vec::new();
        let mut i: usize = 0;
        while i < self.players.len()
            invariant
                i <= self.players.len(),
                r@ == player_ids(self.players@).take(i as int),
            decreases self.players.len() - i,
        {
            r.push(self.players[i].id);
            i = i + 1;
            assert(r@ =~= player_ids(self.players@).take(i as int));
        }
        assert(player_ids(self.players@).take(self.players@.len() as int) =~= player_ids(self.players@));
        r
    }

    /// The index of the player whose turn it is (see `next_index`).
    pub fn on_move(&self) -> (r: usize)
        ensures
            r == next_index(player_ids(self.players@), self.last_played),
    {
        let ids = self.ids();
        let pos: usize = match crate::board::position_of(&ids, self.last_played) {
            Some(i) => i,
            None => 0,
        };
        if ids.len() > 0 && pos == ids.len() - 1 {
            0
        } else {
            pos + 1
        }
    }

    /// What a click on (`x`, `y`) by `me` does: where it is their turn, the move
    /// with what the client detects of it, from their crofts with the clicked one
    /// newest (see `detect`).
    pub fn clicked(&self, me: Option<u128>, x: u8, y: u8) -> (r: ClickResult)
        requires
            me is Some ==> self.players@.len() > 0,
            (me matches Some(m) && player_ids(self.players@)[next_index(player_ids(self.players@), self.last_played)] == m)
                ==> (x <= LAST_INDEX && y <= LAST_INDEX && self.moves_needed >= 1),
        ensures
            match me {
                None => r is Ignored,
                Some(m) => {
                    let ids = player_ids(self.players@);
                    if ids[next_index(ids, self.last_played)] == m {
                        r matches ClickResult::Play(c, state) && c == (Croft { x, y }) && state@ == detect(
                            own_crofts(self.data@.push(Croft { x, y }), self.players@.len()),
                            self.moves_needed as int,
                        )
                    } else {
                        r matches ClickResult::NotOnMove(n) && notice_view(n) == ("Nejsi na tahu"@, Status::Danger)
                    }
                },
            },
    {
        match me {
            None => ClickResult::Ignored,
            Some(m) => {
                let on_move = self.on_move();
                proof {
                    let ids = player_ids(self.players@);
                    assert(0 <= next_index(ids, self.last_played) < ids.len()) by {
                        if ids.contains(self.last_played) {
                            crate::board::lemma_first_index(ids, self.last_played);
                        }
                    }
                }
                if self.players[on_move].id == m {
                    let mov = Croft { x, y };
                    let mut field = copy_crofts(&self.data);
                    field.push(mov);
                    let moves = own_crofts_of(&field, self.players.len());
                    proof {
                        assert(field@.last() == mov);
                        assert(moves@.len() > 0 && moves@[0] == mov) by {
                            assert(field@.len() > 0);
                            if field@.len() <= self.players@.len() {
                            } else {
                            }
                        }
                    }
                    let state = check_moves(&moves, self.moves_needed);
                    ClickResult::Play(mov, state)
                } else {
                    ClickResult::NotOnMove(notice("Nejsi na tahu", Status::Danger))
                }
            },
        }
    }

    /// A move of `me` that the server accepted: the croft is added, `me` has
    /// played last, and a win or a tie ends the game. The game is always drawn
    /// again.
    pub fn played(&mut self, croft: Croft, state: &PlayState, me: u128) -> (render: bool)
        ensures
            render,
            final(self).data@ == old(self).data@.push(croft),
            final(self).last_played == me,
            final(self).ended == (old(self).ended || !(state@ is Continue)),
            final(self).players@ == old(self).players@,
            final(self).winner == old(self).winner,
            final(self).moves_needed == old(self).moves_needed,
    {
        self.data.push(croft);
        self.last_played = me;
        if state.ends_game() {
            self.ended = true;
        }
        true
    }

    /// A game as loaded from the server: taken, and drawn again, where its
    /// crofts or its winner differ or no players were known; whether it was taken.
    pub fn loaded(&mut self, new: ClientGame) -> (changed: bool)
        ensures
            changed == load_changes(*old(self), new),
            *final(self) == after_load(*old(self), new),
    {
        let changed = !same_crofts(&self.data, &new.data) || self.players.len() == 0 || !same_id(self.winner, new.winner);
        if changed {
            *self = new;
        }
        changed
    }

    /// Whether `me` can click a free croft: the game goes on and they play in it.
    pub fn can_click(&self, me: Option<u128>) -> (r: bool)
        ensures
            r == (!self.ended && (me matches Some(m) && player_ids(self.players@).contains(m))),
    {
        if self.ended {
            return false;
        }
        match me {
            Some(m) => {
                let ids = self.ids();
                crate::board::contains_id(&ids, m)
            },
            None => false,
        }
    }

    /// Whether the player at index `i` is marked as the one whose turn it is.
    pub fn marked_on_move(&self, i: usize) -> (r: bool)
        ensures
            r == (i == next_index(player_ids(self.players@), self.last_played) && !self.ended),
    {
        i == self.on_move() && !self.ended
    }

    /// The symbol (0 to 3) that the croft at (`x`, `y`) shows, if it was played
    /// (see `cell_symbol`).
    pub fn symbol_at(&self, x: u8, y: u8) -> (r: Option<usize>)
        requires
            self.data@.len() > 0 ==> 1 <= self.players@.len() <= 4,
        ensures
            r == cell_symbol(self.data@, self.players@.len() as int, reversed_position(player_ids(self.players@), self.last_played), x, y),
    {
        if self.data.len() == 0 {
            proof {
                assert(!self.data@.reverse().contains(Croft { x, y }));
            }
            return None;
        }
        let m = self.players.len();
        let ids = self.ids();
        let lpi = reversed_position_of(&ids, self.last_played);
        let n = self.data.len();
        let mut i: usize = 0;
        while i < n
            invariant
                n == self.data@.len(),
                i <= n,
                1 <= m <= 4,
                m == self.players@.len(),
                lpi == reversed_position(player_ids(self.players@), self.last_played),
                0 <= lpi < m,
                forall|j: int| 0 <= j < i ==> !(#[trigger] self.data@.reverse()[j] == Croft { x, y }),
            decreases n - i,
        {
            let c = self.data[n - 1 - i];
            assert(self.data@.reverse()[i as int] == c);
            if c.x == x && c.y == y {
                assert(first_at(self.data@.reverse(), Croft { x, y }) == i) by {
                    let rev = self.data@.reverse();
                    let k = first_at(rev, Croft { x, y });
                    assert(0 <= i < rev.len() && rev[i as int] == Croft { x, y });
                    assert(0 <= k < rev.len() && rev[k] == Croft { x, y } && forall|j: int| 0 <= j < k ==> rev[j] != Croft { x, y });
                    if k < i {
                        assert(!(rev[k] == Croft { x, y }));
                    }
                    if k > i {
                        assert(rev[i as int] != Croft { x, y });
                    }
                }
                let j = i % m;
                if j < m - lpi {
                    return Some(m - 1 - lpi - j);
                } else {
                    return Some(2 * m - 1 - lpi - j);
                }
            }
            i = i + 1;
        }
        proof {
            let rev = self.data@.reverse();
            assert(!rev.contains(Croft { x, y })) by {
                if rev.contains(Croft { x, y }) {
                    let k = choose|k: int| 0 <= k < rev.len() && rev[k] == Croft { x, y };
                    assert(!(rev[k] == Croft { x, y }));
                }
            }
        }
        None
    }
}

/// Whether loading `new` over `g` takes it: where the crofts or the winner
/// differ, or no players were known.
pub open spec fn load_changes(g: ClientGame, new: ClientGame) -> bool {
    g.data@ != new.data@ || g.players@.len() == 0 || g.winner != new.winner
}

/// The game after `new` is loaded over `g`.
pub open spec fn after_load(g: ClientGame, new: ClientGame) -> ClientGame {
    if load_changes(g, new) { new } else { g }
}

/// Loading the same game twice changes nothing the second time: the second
/// load is not taken, and the game stays as the first load left it. Here the
/// loaded game has players, as every game the server sends does.
pub proof fn law_reload_changes_nothing(g: ClientGame, new: ClientGame)
    requires
        new.players@.len() > 0,
    ensures
        !load_changes(after_load(g, new), new),
        after_load(after_load(g, new), new) == after_load(g, new),
{
}

/// `(p - k) mod m`, as `cell_symbol` computes it from `k mod m`.
proof fn lemma_symbol_mod(p: int, k: int, m: int)
    requires
        0 <= p < m,
        0 <= k,
    ensures
        ({
            let j = k % m;
            (if j <= p { p - j } else { m + p - j }) == (p - k) % m
        }),
{
    let j = k % m;
    vstd::arithmetic::div_mod::lemma_fundamental_div_mod(k, m);
    assert(0 <= j < m);
    let q = k / m;
    assert(p - k == m * (-q) + (p - j)) by (nonlinear_arith)
        requires
            k == m * q + j,
    ;
    vstd::arithmetic::div_mod::lemma_mod_multiples_vanish(-q, p - j, m);
    if j <= p {
        vstd::arithmetic::div_mod::lemma_small_mod((p - j) as nat, m as nat);
    } else {
        vstd::arithmetic::div_mod::lemma_mod_add_multiples_vanish(p - j, m);
        vstd::arithmetic::div_mod::lemma_small_mod((m + p - j) as nat, m as nat);
    }
}

/// The symbol a croft shows goes round the players backwards from the one who
/// played last: the croft played `k` moves before the newest one (counting the
/// newest as 0, and taking the newest move onto that croft) shows the symbol of
/// the player `k` turns before the one who played last, that is, with `m`
/// players and the one who played last at index `p`, the symbol `(p - k) mod m`.
/// Here `p` is the last index at which the one who played last stands among the
/// players.
pub proof fn law_symbol_follows_turns(g: ClientGame, x: u8, y: u8, k: int, p: int)
    requires
        0 <= p < g.players@.len(),
        g.players@[p].id == g.last_played,
        forall|i: int| p < i < g.players@.len() ==> g.players@[i].id != g.last_played,
        0 <= k < g.data@.len(),
        g.data@[g.data@.len() - 1 - k] == (Croft { x, y }),
        forall|q: int| g.data@.len() - 1 - k < q < g.data@.len() ==> g.data@[q] != (Croft { x, y }),
    ensures
        cell_symbol(g.data@, g.players@.len() as int, reversed_position(player_ids(g.players@), g.last_played), x, y)
            == Some(((p - k) % (g.players@.len() as int)) as usize),
{
    let m = g.players@.len() as int;
    let ids = player_ids(g.players@);
    let rids = ids.reverse();
    let c = Croft { x, y };
    assert(rids[m - 1 - p] == g.last_played);
    assert(forall|i: int| 0 <= i < m - 1 - p ==> rids[i] != g.last_played) by {
        assert forall|i: int| 0 <= i < m - 1 - p implies rids[i] != g.last_played by {
            assert(rids[i] == ids[m - 1 - i]);
            assert(ids[m - 1 - i] == g.players@[m - 1 - i].id);
        }
    }
    assert(rids.contains(g.last_played));
    crate::board::lemma_first_index(rids, g.last_played);
    let lpi = crate::board::first_index(rids, g.last_played);
    assert(lpi == m - 1 - p) by {
        if lpi < m - 1 - p {
            assert(rids[lpi] != g.last_played);
        }
        if lpi > m - 1 - p {
            assert(rids[m - 1 - p] != g.last_played);
        }
    }
    assert(reversed_position(ids, g.last_played) == m - 1 - p);
    let rev = g.data@.reverse();
    assert(rev[k] == c);
    assert(rev.contains(c));
    let i = first_at(rev, c);
    assert(0 <= i < rev.len() && rev[i] == c && forall|j: int| 0 <= j < i ==> rev[j] != c);
    assert(i == k) by {
        if i < k {
            assert(rev[i] == g.data@[g.data@.len() - 1 - i]);
            assert(g.data@[g.data@.len() - 1 - i] != c);
        }
        if i > k {
            assert(rev[k] != c);
        }
    }
    lemma_symbol_mod(p, k, m);
}

/// Where the one who played last is not among the players, the symbols go
/// round as if the last of the players had played last: the croft played `k`
/// moves before the newest shows the symbol `(m - 1 - k) mod m`. A croft that
/// was never played shows no symbol.
pub proof fn law_symbol_without_last_player(g: ClientGame, x: u8, y: u8, k: int)
    requires
        g.players@.len() > 0,
        forall|i: int| 0 <= i < g.players@.len() ==> g.players@[i].id != g.last_played,
        0 <= k < g.data@.len(),
        g.data@[g.data@.len() - 1 - k] == (Croft { x, y }),
        forall|q: int| g.data@.len() - 1 - k < q < g.data@.len() ==> g.data@[q] != (Croft { x, y }),
    ensures
        cell_symbol(g.data@, g.players@.len() as int, reversed_position(player_ids(g.players@), g.last_played), x, y)
            == Some(((g.players@.len() - 1 - k) % (g.players@.len() as int)) as usize),
{
    let m = g.players@.len() as int;
    let ids = player_ids(g.players@);
    assert(!ids.reverse().contains(g.last_played)) by {
        if ids.reverse().contains(g.last_played) {
            let i = choose|i: int| 0 <= i < m && ids.reverse()[i] == g.last_played;
            assert(ids.reverse()[i] == g.players@[m - 1 - i].id);
        }
    }
    let c = Croft { x, y };
    let rev = g.data@.reverse();
    assert(rev[k] == c);
    let i = first_at(rev, c);
    assert(0 <= i < rev.len() && rev[i] == c && forall|j: int| 0 <= j < i ==> rev[j] != c);
    assert(i == k) by {
        if i < k {
            assert(rev[i] == g.data@[g.data@.len() - 1 - i]);
            assert(g.data@[g.data@.len() - 1 - i] != c);
        }
        if i > k {
            assert(rev[k] != c);
        }
    }
    lemma_symbol_mod(m - 1, k, m);
}

/// A croft that was never played shows no symbol.
pub proof fn law_unplayed_croft_has_no_symbol(g: ClientGame, x: u8, y: u8)
    requires
        !g.data@.contains(Croft { x, y }),
    ensures
        cell_symbol(g.data@, g.players@.len() as int, reversed_position(player_ids(g.players@), g.last_played), x, y)
            is None,
{
    let c = Croft { x, y };
    let rev = g.data@.reverse();
    if rev.contains(c) {
        let i = choose|i: int| 0 <= i < rev.len() && rev[i] == c;
        assert(g.data@[g.data@.len() - 1 - i] == c);
    }
}

/// The first index of `c` in `s`.
pub open spec fn first_at(s: Seq<Croft>, c: Croft) -> int {
    choose|i: int| 0 <= i < s.len() && s[i] == c && forall|j: int| 0 <= j < i ==> s[j] != c
}

/// The index of `last` among the players taken in reverse order; 0 where it is
/// not among them.
pub open spec fn reversed_position(ids: Seq<u128>, last: u128) -> int {
    if ids.reverse().contains(last) {
        crate::board::first_index(ids.reverse(), last)
    } else {
        0
    }
}

/// The symbol a croft shows: the crofts are counted back from the newest
/// (`i` for the croft at (`x`, `y`) when it was played, the newest first), the
/// newest has the symbol of the player who played last, and each earlier one that
/// of the player before. With `m` players, and `lpi` the index of the one who
/// played last among the players in reverse order, the symbols in the order of
/// the counting are `m - 1 - lpi`, `m - 2 - lpi`, ..., `0`, then `m - 1`, ...,
/// `m - lpi`, and again.
pub open spec fn cell_symbol(data: Seq<Croft>, m: int, lpi: int, x: u8, y: u8) -> Option<usize> {
    let rev = data.reverse();
    if rev.contains(Croft { x, y }) {
        let i = first_at(rev, Croft { x, y });
        let j = i % m;
        if j < m - lpi {
            Some((m - 1 - lpi - j) as usize)
        } else {
            Some((2 * m - 1 - lpi - j) as usize)
        }
    } else {
        None
    }
}

fn reversed_position_of(ids: &Vec<u128>, last: u128) -> (r: usize)
    requires
        ids@.len() > 0,
    ensures
        r == reversed_position(ids@, last),
        r < ids@.len(),
{
    let mut rev: Vec<u128> = Vec::new();
    let n = ids.len();
    let mut i: usize = 0;
    while i < n
        invariant
            n == ids@.len(),
            i <= n,
            rev@ == ids@.reverse().take(i as int),
        decreases n - i,
    {
        rev.push(ids[n - 1 - i]);
        i = i + 1;
        assert(rev@ =~= ids@.reverse().take(i as int));
    }
    assert(rev@ =~= ids@.reverse());
    match crate::board::position_of(&rev, last) {
        Some(p) => p,
        None => 0,
    }
}

/// Whether two sequences of crofts are the same.
fn same_crofts(a: &Vec<Croft>, b: &Vec<Croft>) -> (r: bool)
    ensures
        r == (a@ == b@),
{
    if a.len() != b.len() {
        return false;
    }
    let mut i: usize = 0;
    while i < a.len()
        invariant
            i <= a.len(),
            a@.len() == b@.len(),
            forall|j: int| 0 <= j < i ==> a@[j] == b@[j],
        decreases a.len() - i,
    {
        if a[i] != b[i] {
            return false;
        }
        i = i + 1;
    }
    assert(a@ =~= b@);
    true
}

fn same_id(a: Option<u128>, b: Option<u128>) -> (r: bool)
    ensures
        r == (a == b),
{
    match (a, b) {
        (Some(x), Some(y)) => x == y,
        (None, None) => true,
        _ => false,
    }
}

/// How a game's state reads.
pub enum GameStatus {
    /// The game goes on.
    Running,
    /// The game was won by the player of this nick.
    Won(String),
    /// The game ended without a winner.
    Tie,
}

/// The nick of the player with `id`, the first one where several have it.
pub open spec fn nick_of(players: Seq<Player>, id: u128) -> Seq<char> {
    players[crate::board::first_index(player_ids(players), id)].name@
}

/// How the state of a game reads: running, won by the winner's nick, or a tie.
pub fn game_status(ended: bool, winner: Option<u128>, players: &Vec<Player>) -> (r: GameStatus)
    requires
        ended && winner is Some ==> player_ids(players@).contains(winner.unwrap()),
    ensures
        !ended ==> r is Running,
        ended && winner is None ==> r is Tie,
        ended && winner is Some ==> (r matches GameStatus::Won(n) && n@ == nick_of(players@, winner.unwrap())),
{
    if !ended {
        return GameStatus::Running;
    }
    match winner {
        None => GameStatus::Tie,
        Some(w) => {
            let mut i: usize = 0;
            while i < players.len()
                invariant
                    i <= players.len(),
                    ended,
                    winner == Some(w),
                    player_ids(players@).contains(w),
                    forall|j: int| 0 <= j < i ==> players@[j].id != w,
                decreases players.len() - i,
            {
                if players[i].id == w {
                    proof {
                        let ids = player_ids(players@);
                        let k = crate::board::first_index(ids, w);
                        assert(ids[i as int] == w);
                        assert(0 <= k < ids.len() && ids[k] == w && forall|j: int| 0 <= j < k ==> ids[j] != w);
                        if k < i {
                            assert(players@[k].id != w);
                        }
                        if k > i {
                            assert(ids[i as int] != w);
                        }
                    }
                    return GameStatus::Won(players[i].name.clone());
                }
                i = i + 1;
            }
            proof {
                let ids = player_ids(players@);
                let k = choose|k: int| 0 <= k < ids.len() && ids[k] == w;
                assert(players@[k].id == w);
            }
            GameStatus::Running
        },
    }
}

} // verus!
