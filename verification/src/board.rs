//! The playing field: crofts, whose turn it is, and which crofts a player owns.
use vstd::prelude::*;

verus! {

/// One square of the playing field.
#[derive(Clone, Copy, Debug, PartialEq, Eq, Structural)]
pub struct Croft {
    pub x: u8,
    pub y: u8,
}

/// The crofts played in a game, in the order in which they were played.
pub struct GameData {
    pub field: Vec<Croft>,
}

impl GameData {
    /// A game in which nothing has been played yet.
    pub fn empty() -> (r: GameData)
        ensures
            r.field@ == Seq::<Croft>::empty(),
    {
        GameData { field: Vec::new() }
    }
}

/// Whether `s` holds no croft twice.
pub open spec fn crofts_distinct(s: Seq<Croft>) -> bool {
    forall|i: int, j: int| 0 <= i < s.len() && 0 <= j < s.len() && i != j ==> s[i] != s[j]
}

/// The crofts of the player who played last when `n` players take turns:
/// the last croft of `field`, then every `n`-th croft before it, newest first.
pub open spec fn own_crofts(field: Seq<Croft>, n: nat) -> Seq<Croft>
    recommends
        n > 0,
    decreases field.len(),
{
    if field.len() == 0 || n == 0 {
        Seq::empty()
    } else if field.len() <= n {
        seq![field.last()]
    } else {
        seq![field.last()] + own_crofts(field.take(field.len() - n), n)
    }
}

/// How many crofts of `s` occur in `pool`.
pub open spec fn count_in(s: Seq<Croft>, pool: Seq<Croft>) -> nat
    decreases s.len(),
{
    if s.len() == 0 {
        0
    } else {
        count_in(s.drop_last(), pool) + if pool.contains(s.last()) {
            1nat
        } else {
            0nat
        }
    }
}

/// The first index at which `id` occurs in `s`.
pub open spec fn first_index(s: Seq<u128>, id: u128) -> int {
    choose|i: int| 0 <= i < s.len() && s[i] == id && forall|j: int| 0 <= j < i ==> s[j] != id
}

proof fn lemma_first_from(s: Seq<u128>, id: u128, k: int)
    requires
        0 <= k < s.len(),
        s[k] == id,
    ensures
        exists|i: int| 0 <= i < s.len() && s[i] == id && forall|j: int| 0 <= j < i ==> s[j] != id,
    decreases k,
{
    if exists|j: int| 0 <= j < k && s[j] == id {
        let j = choose|j: int| 0 <= j < k && s[j] == id;
        lemma_first_from(s, id, j);
    } else {
        assert(forall|j: int| 0 <= j < k ==> s[j] != id);
    }
}

/// Where `id` occurs in `s`, `first_index` is its first occurrence.
pub proof fn lemma_first_index(s: Seq<u128>, id: u128)
    requires
        s.contains(id),
    ensures
        0 <= first_index(s, id) < s.len(),
        s[first_index(s, id)] == id,
        forall|j: int| 0 <= j < first_index(s, id) ==> s[j] != id,
{
    let k = choose|k: int| 0 <= k < s.len() && s[k] == id;
    lemma_first_from(s, id, k);
}

/// The index, in `players`, of the player whose turn it is after `last` played:
/// the one after `last`, or the first one after the last player.
/// A `last` that is not among the players counts as the first player.
pub open spec fn next_index(players: Seq<u128>, last: u128) -> int {
    let pos = if players.contains(last) {
        first_index(players, last)
    } else {
        0
    };
    if pos + 1 == players.len() {
        0
    } else {
        pos + 1
    }
}

/// Whether `c` occurs in `v`.
pub fn contains_croft(v: &Vec<Croft>, c: Croft) -> (r: bool)
    ensures
        r == v@.contains(c),
{
    let mut i: usize = 0;
    while i < v.len()
        invariant
            i <= v.len(),
            forall|j: int| 0 <= j < i ==> v@[j] != c,
        decreases v.len() - i,
    {
        if v[i] == c {
            assert(v@[i as int] == c);
            return true;
        }
        i = i + 1;
    }
    false
}

/// Whether `id` occurs in `v`.
pub fn contains_id(v: &Vec<u128>, id: u128) -> (r: bool)
    ensures
        r == v@.contains(id),
{
    let mut i: usize = 0;
    while i < v.len()
        invariant
            i <= v.len(),
            forall|j: int| 0 <= j < i ==> v@[j] != id,
        decreases v.len() - i,
    {
        if v[i] == id {
            assert(v@[i as int] == id);
            return true;
        }
        i = i + 1;
    }
    false
}

/// The first index of `id` in `v`, if it occurs.
pub fn position_of(v: &Vec<u128>, id: u128) -> (r: Option<usize>)
    ensures
        match r {
            Some(i) => v@.contains(id) && i == first_index(v@, id) && i < v@.len() && v@[i as int] == id,
            None => !v@.contains(id),
        },
{
    let mut i: usize = 0;
    while i < v.len()
        invariant
            i <= v.len(),
            forall|j: int| 0 <= j < i ==> v@[j] != id,
        decreases v.len() - i,
    {
        if v[i] == id {
            assert(v@.contains(id));
            proof {
                let ii = i as int;
                assert(0 <= ii < v@.len() && v@[ii] == id && forall|j: int| 0 <= j < ii ==> v@[j] != id);
                let k = first_index(v@, id);
                assert(0 <= k < v@.len() && v@[k] == id && forall|j: int| 0 <= j < k ==> v@[j] != id);
                if k < ii {
                    assert(v@[k] != id);
                }
                if k > ii {
                    assert(v@[ii] != id);
                }
            }
            return Some(i);
        }
        i = i + 1;
    }
    None
}

/// The index of the player whose turn it is, after `last` played
/// (see `next_index`).
pub fn next_player_index(players: &Vec<u128>, last: u128) -> (r: usize)
    requires
        players@.len() > 0,
    ensures
        r == next_index(players@, last),
        r < players@.len(),
{
    let pos = match position_of(players, last) {
        Some(i) => i,
        None => 0,
    };
    if pos == players.len() - 1 {
        0
    } else {
        pos + 1
    }
}

/// The crofts of the player who played last, newest first (see `own_crofts`).
pub fn own_crofts_of(field: &Vec<Croft>, n: usize) -> (r: Vec<Croft>)
    requires
        n > 0,
    ensures
        r@ == own_crofts(field@, n as nat),
{
    let mut r: Vec<Croft> = Vec::new();
    let mut i: usize = field.len();
    assert(field@.take(i as int) == field@);
    while i > 0
        invariant
            i <= field@.len(),
            n > 0,
            r@ + own_crofts(field@.take(i as int), n as nat) == own_crofts(field@, n as nat),
        decreases i,
    {
        let ghost before = r@;
        let ghost prefix = field@.take(i as int);
        assert(prefix.last() == field@[i - 1]);
        r.push(field[i - 1]);
        if i > n {
            assert(prefix.take(prefix.len() - n) == field@.take(i - n));
            i = i - n;
        } else {
            i = 0;
            assert(own_crofts(field@.take(0), n as nat) == Seq::<Croft>::empty());
        }
        assert(r@ + own_crofts(field@.take(i as int), n as nat) =~= before + own_crofts(prefix, n as nat));
    }
    assert(field@.take(field@.len() as int) == field@);
    assert(r@ + own_crofts(field@.take(0), n as nat) == r@);
    r
}

/// How many crofts of `s` occur in `pool` (see `count_in`).
pub fn count_crofts_in(s: &Vec<Croft>, pool: &Vec<Croft>) -> (r: usize)
    ensures
        r == count_in(s@, pool@),
{
    let mut count: usize = 0;
    let mut i: usize = 0;
    while i < s.len()
        invariant
            i <= s.len(),
            count == count_in(s@.take(i as int), pool@),
            count <= i,
        decreases s.len() - i,
    {
        assert(s@.take(i + 1).drop_last() == s@.take(i as int));
        if contains_croft(pool, s[i]) {
            count = count + 1;
        }
        i = i + 1;
    }
    assert(s@.take(s@.len() as int) == s@);
    count
}

} // verus!
