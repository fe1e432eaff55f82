//! Invitations to a new game: who may be invited, and with which settings.
use vstd::prelude::*;
use crate::board::contains_id;
use crate::pattern::{matches_pattern, match_verdict, GAME_NAME_PATTERN};
use crate::reply::DbFailure;
use rand::seq::SliceRandom;

verus! {

/// Fewest crofts in a row that a game may ask for.
pub const MIN_MOVES_NEEDED: u8 = 3;

/// Most crofts in a row that a game may ask for.
pub const MAX_MOVES_NEEDED: u8 = 8;

/// Most players a user may invite besides themself.
pub const MAX_INVITED: usize = 4;

/// Fewest players of a game an administrator creates.
pub const ADMIN_MIN_PLAYERS: usize = 2;

/// Most players of a game an administrator creates.
pub const ADMIN_MAX_PLAYERS: usize = 5;

/// A new game as it is asked for.
pub struct NewGameData {
    pub name: String,
    pub users_id: Vec<u128>,
    pub moves_needed: u8,
}

/// A user's answer to an invitation.
pub struct InviteData {
    pub id: u128,
    pub accepted: bool,
}

/// Why a new game is refused.
#[derive(Clone, Copy, Debug, PartialEq, Eq, Structural)]
pub enum InviteRejection {
    MovesTooLarge,
    MovesTooSmall,
    InvalidName,
    OwnIdIncluded,
    TooManyUsers,
    NoOtherUsers,
    TooFewPlayers,
    TooManyPlayers,
    Duplicates,
    Banned(u128),
    UserNotFound,
    ServerError,
    /// The regular expression engine failed on the name.
    PatternFailure,
}

impl InviteRejection {
    /// The HTTP status code of the reply.
    pub fn status(&self) -> (r: u16)
        ensures
            r == (match *self {
                InviteRejection::ServerError | InviteRejection::PatternFailure => 500u16,
                _ => 400u16,
            }),
    {
        match self {
            InviteRejection::ServerError | InviteRejection::PatternFailure => 500,
            _ => 400,
        }
    }

    /// The text of the reply; none for `Banned`, whose text names the user
    /// ("User with id '...' is banned").
    pub fn message(&self) -> (r: Option<&'static str>)
        ensures
            r is None <==> *self is Banned,
            r matches Some(t) ==> t@ == invite_text(*self),
    {
        match self {
            InviteRejection::MovesTooLarge => Some("Moves needed is too large."),
            InviteRejection::MovesTooSmall => Some("Moves needed is too small."),
            InviteRejection::InvalidName => Some("Invalid game name"),
            InviteRejection::OwnIdIncluded => Some("Your id is automatically included"),
            InviteRejection::TooManyUsers => Some("Too much users"),
            InviteRejection::NoOtherUsers => Some("You can't play only with yourself"),
            InviteRejection::TooFewPlayers => Some("At least 2 users are needed"),
            InviteRejection::TooManyPlayers => Some("Make more symbols and I will raise the limit"),
            InviteRejection::Duplicates => Some("Your id list contains duplicates"),
            InviteRejection::Banned(_) => None,
            InviteRejection::UserNotFound => Some("Some user or users doesn't exists"),
            InviteRejection::ServerError => Some(""),
            InviteRejection::PatternFailure => Some(""),
        }
    }
}

/// The text of the reply to a refused new game.
pub open spec fn invite_text(r: InviteRejection) -> Seq<char> {
    match r {
        InviteRejection::MovesTooLarge => "Moves needed is too large."@,
        InviteRejection::MovesTooSmall => "Moves needed is too small."@,
        InviteRejection::InvalidName => "Invalid game name"@,
        InviteRejection::OwnIdIncluded => "Your id is automatically included"@,
        InviteRejection::TooManyUsers => "Too much users"@,
        InviteRejection::NoOtherUsers => "You can't play only with yourself"@,
        InviteRejection::TooFewPlayers => "At least 2 users are needed"@,
        InviteRejection::TooManyPlayers => "Make more symbols and I will raise the limit"@,
        InviteRejection::Duplicates => "Your id list contains duplicates"@,
        InviteRejection::UserNotFound => "Some user or users doesn't exists"@,
        _ => ""@,
    }
}

/// Whether `s` is in increasing order with nothing twice.
pub open spec fn strictly_increasing(s: Seq<u128>) -> bool {
    forall|i: int, j: int| 0 <= i < j < s.len() ==> s[i] < s[j]
}

/// The players of a new game that a user asks for: its settings must be in
/// range (first the number of crofts in a row, then the name), the user must not
/// be among the invited, who must be 1 to 4; the players are then the invited
/// followed by the user.
pub open spec fn user_invite_verdict(data: NewGameData, user: u128) -> Result<Seq<u128>, InviteRejection> {
    if data.moves_needed > MAX_MOVES_NEEDED {
        Err(InviteRejection::MovesTooLarge)
    } else if data.moves_needed < MIN_MOVES_NEEDED {
        Err(InviteRejection::MovesTooSmall)
    } else {
        match match_verdict(GAME_NAME_PATTERN@, data.name@) {
            None => Err(InviteRejection::PatternFailure),
            Some(false) => Err(InviteRejection::InvalidName),
            Some(true) => if data.users_id@.contains(user) {
                Err(InviteRejection::OwnIdIncluded)
            } else if data.users_id@.len() > MAX_INVITED {
                Err(InviteRejection::TooManyUsers)
            } else if data.users_id@.len() < 1 {
                Err(InviteRejection::NoOtherUsers)
            } else {
                Ok(data.users_id@.push(user))
            },
        }
    }
}

/// A new game that a user asks for with 3 to 8 crofts in a row and a name the
/// engine accepts is refused only for the players asked for: where the user is
/// among the invited, where more than 4 are invited, or where none is; 1 to 4
/// others are taken, the players being the invited followed by the user. Fewer
/// than 3 or more than 8 crofts in a row are refused before anything else.
pub proof fn law_user_invite_players(data: NewGameData, user: u128)
    ensures
        data.moves_needed < 3 ==> user_invite_verdict(data, user) == Err::<Seq<u128>, InviteRejection>(
            InviteRejection::MovesTooSmall,
        ),
        data.moves_needed > 8 ==> user_invite_verdict(data, user) == Err::<Seq<u128>, InviteRejection>(
            InviteRejection::MovesTooLarge,
        ),
        (3 <= data.moves_needed <= 8 && match_verdict(GAME_NAME_PATTERN@, data.name@) == Some(true)) ==> {
            let n = data.users_id@.len();
            let invited_self = data.users_id@.contains(user);
            &&& (!invited_self && 1 <= n <= 4) ==> user_invite_verdict(data, user)
                == Ok::<Seq<u128>, InviteRejection>(data.users_id@ + seq![user])
            &&& invited_self ==> user_invite_verdict(data, user) == Err::<Seq<u128>, InviteRejection>(
                InviteRejection::OwnIdIncluded,
            )
            &&& (!invited_self && n >= 5) ==> user_invite_verdict(data, user) == Err::<
                Seq<u128>,
                InviteRejection,
            >(InviteRejection::TooManyUsers)
            &&& (!invited_self && n == 0) ==> user_invite_verdict(data, user) == Err::<
                Seq<u128>,
                InviteRejection,
            >(InviteRejection::NoOtherUsers)
        },
{
    assert(data.users_id@.push(user) =~= data.users_id@ + seq![user]);
}

/// Checks a new game that `user` asks for (see `user_invite_verdict`); on
/// success, the players, the user last.
pub fn check_user_invite(data: &NewGameData, user: u128) -> (r: Result<Vec<u128>, InviteRejection>)
    ensures
        match r {
            Ok(v) => user_invite_verdict(*data, user) == Ok::<Seq<u128>, InviteRejection>(v@),
            Err(e) => user_invite_verdict(*data, user) == Err::<Seq<u128>, InviteRejection>(e),
        },
{
    if data.moves_needed > MAX_MOVES_NEEDED {
        return Err(InviteRejection::MovesTooLarge);
    }
    if data.moves_needed < MIN_MOVES_NEEDED {
        return Err(InviteRejection::MovesTooSmall);
    }
    match matches_pattern(GAME_NAME_PATTERN, data.name.as_str()) {
        Err(_) => Err(InviteRejection::PatternFailure),
        Ok(false) => Err(InviteRejection::InvalidName),
        Ok(true) => {
            if contains_id(&data.users_id, user) {
                return Err(InviteRejection::OwnIdIncluded);
            }
            if data.users_id.len() > MAX_INVITED {
                return Err(InviteRejection::TooManyUsers);
            }
            if data.users_id.len() < 1 {
                return Err(InviteRejection::NoOtherUsers);
            }
            let mut players = copy_ids(&data.users_id);
            players.push(user);
            Ok(players)
        },
    }
}

/// Checks the number of players of a new game that an administrator asks for:
/// 2 to 5.
pub fn check_admin_invite(data: &NewGameData) -> (r: Result<(), InviteRejection>)
    ensures
        r == (if data.users_id@.len() < ADMIN_MIN_PLAYERS {
            Err::<(), InviteRejection>(InviteRejection::TooFewPlayers)
        } else if data.users_id@.len() > ADMIN_MAX_PLAYERS {
            Err::<(), InviteRejection>(InviteRejection::TooManyPlayers)
        } else {
            Ok::<(), InviteRejection>(())
        }),
        r is Ok <==> 2 <= data.users_id@.len() <= 5,
{
    if data.users_id.len() < ADMIN_MIN_PLAYERS {
        Err(InviteRejection::TooFewPlayers)
    } else if data.users_id.len() > ADMIN_MAX_PLAYERS {
        Err(InviteRejection::TooManyPlayers)
    } else {
        Ok(())
    }
}

/// A copy of `v`.
pub fn copy_ids(v: &Vec<u128>) -> (r: Vec<u128>)
    ensures
        r@ == v@,
{
    let mut r: Vec<u128> = Vec::new();
    let mut i: usize = 0;
    while i < v.len()
        invariant
            i <= v.len(),
            r@ == v@.take(i as int),
        decreases v.len() - i,
    {
        r.push(v[i]);
        i = i + 1;
        assert(r@ =~= v@.take(i as int));
    }
    assert(v@.take(v@.len() as int) =~= v@);
    r
}

/// The players of a new game in increasing order; refused where an id occurs
/// twice.
pub fn sorted_players(ids: &Vec<u128>) -> (r: Result<Vec<u128>, InviteRejection>)
    ensures
        r is Err <==> !ids@.no_duplicates(),
        r matches Err(e) ==> e == InviteRejection::Duplicates,
        r matches Ok(v) ==> strictly_increasing(v@) && v@.to_set() == ids@.to_set() && v@.len() == ids@.len(),
{
    let mut out: Vec<u128> = Vec::new();
    let mut i: usize = 0;
    while i < ids.len()
        invariant
            i <= ids.len(),
            strictly_increasing(out@),
            out@.to_set() == ids@.take(i as int).to_set(),
            out@.len() == i,
            ids@.take(i as int).no_duplicates(),
        decreases ids.len() - i,
    {
        let id = ids[i];
        let ghost prefix = ids@.take(i as int);
        assert(ids@.take(i + 1) == prefix.push(id));
        let mut k: usize = 0;
        while k < out.len() && out[k] < id
            invariant
                k <= out.len(),
                forall|j: int| 0 <= j < k ==> out@[j] < id,
            decreases out.len() - k,
        {
            k = k + 1;
        }
        if k < out.len() && out[k] == id {
            proof {
                assert(out@.to_set().contains(id));
                assert(prefix.to_set().contains(id));
                assert(prefix.contains(id));
                let j = choose|j: int| 0 <= j < prefix.len() && prefix[j] == id;
                assert(ids@[j] == ids@[i as int] && j != i);
            }
            return Err(InviteRejection::Duplicates);
        }
        proof {
            assert(!out@.to_set().contains(id)) by {
                if out@.contains(id) {
                    let j = choose|j: int| 0 <= j < out@.len() && out@[j] == id;
                    if j < k {
                    } else {
                        assert(out@[k as int] <= out@[j]);
                    }
                }
            }
            assert(!prefix.contains(id)) by {
                if prefix.contains(id) {
                    assert(prefix.to_set().contains(id));
                }
            }
        }
        let ghost before = out@;
        out.insert(k, id);
        proof {
            assert(out@.to_set() =~= before.to_set().insert(id)) by {
                assert forall|v: u128| out@.to_set().contains(v) <==> before.to_set().insert(id).contains(v) by {
                    if out@.contains(v) {
                        let j = choose|j: int| 0 <= j < out@.len() && out@[j] == v;
                        if j < k {
                            assert(before[j] == v);
                        } else if j > k {
                            assert(before[j - 1] == v);
                        }
                    }
                    if before.contains(v) {
                        let j = choose|j: int| 0 <= j < before.len() && before[j] == v;
                        if j < k {
                            assert(out@[j] == v);
                        } else {
                            assert(out@[j + 1] == v);
                        }
                    }
                    if v == id {
                        assert(out@[k as int] == v);
                    }
                }
            }
            prefix.lemma_push_to_set_commute(id);
            assert(strictly_increasing(out@)) by {
                assert forall|a: int, b: int| 0 <= a < b < out@.len() implies out@[a] < out@[b] by {
                    if b < k {
                    } else if b == k {
                        assert(out@[a] == before[a]);
                    } else if a < k {
                        assert(out@[b] == before[b - 1]);
                        if b - 1 >= k as int {
                            assert(before[k as int] >= id);
                        }
                    } else if a == k {
                        assert(out@[b] == before[b - 1]);
                        assert(before[k as int] > id || before[k as int] == id);
                    } else {
                        assert(out@[a] == before[a - 1] && out@[b] == before[b - 1]);
                    }
                }
            }
            assert(prefix.push(id).no_duplicates()) by {
                let p = prefix.push(id);
                assert forall|a: int, b: int| 0 <= a < p.len() && 0 <= b < p.len() && a != b implies p[a] != p[b] by {
                    if a == prefix.len() {
                        assert(prefix.contains(p[b]) || b == prefix.len());
                    } else if b == prefix.len() {
                        assert(prefix[a] == p[a]);
                    } else {
                        assert(prefix[a] == p[a] && prefix[b] == p[b]);
                    }
                }
            }
        }
        i = i + 1;
    }
    assert(ids@.take(ids@.len() as int) == ids@);
    Ok(out)
}

proof fn lemma_increasing_same_set(s: Seq<u128>, t: Seq<u128>)
    requires
        strictly_increasing(s),
        strictly_increasing(t),
        s.to_set() == t.to_set(),
    ensures
        s == t,
    decreases s.len(),
{
    if s.len() == 0 {
        if t.len() > 0 {
            assert(t.to_set().contains(t[0]));
        }
    } else if t.len() == 0 {
        assert(s.to_set().contains(s[0]));
    } else {
        // the first elements are both the least element of the set
        assert(s.to_set().contains(s[0]));
        assert(t.to_set().contains(s[0]));
        let i = choose|i: int| 0 <= i < t.len() && t[i] == s[0];
        assert(t.to_set().contains(t[0]));
        let j = choose|j: int| 0 <= j < s.len() && s[j] == t[0];
        if i > 0 {
            assert(t[0] < t[i]);
            if j > 0 {
                assert(s[0] < s[j]);
            }
        }
        assert(s[0] == t[0]);
        let s1 = s.drop_first();
        let t1 = t.drop_first();
        assert(s1.to_set() =~= t1.to_set()) by {
            assert forall|v: u128| s1.to_set().contains(v) implies t1.to_set().contains(v) by {
                let a = choose|a: int| 0 <= a < s1.len() && s1[a] == v;
                assert(s[a + 1] == v && s[0] < v);
                assert(t.to_set().contains(v));
                let b = choose|b: int| 0 <= b < t.len() && t[b] == v;
                assert(b != 0);
                assert(t1[b - 1] == v);
            }
            assert forall|v: u128| t1.to_set().contains(v) implies s1.to_set().contains(v) by {
                let a = choose|a: int| 0 <= a < t1.len() && t1[a] == v;
                assert(t[a + 1] == v && t[0] < v);
                assert(s.to_set().contains(v));
                let b = choose|b: int| 0 <= b < s.len() && s[b] == v;
                assert(b != 0);
                assert(s1[b - 1] == v);
            }
        }
        lemma_increasing_same_set(s1, t1);
        assert(s =~= seq![s[0]] + s1);
        assert(t =~= seq![t[0]] + t1);
    }
}

/// The players of a game are stored in the same order whatever the order in
/// which they were invited: two lists of the same players give the same result.
pub proof fn law_player_order_independent(a: Seq<u128>, b: Seq<u128>, ra: Seq<u128>, rb: Seq<u128>)
    requires
        a.to_set() == b.to_set(),
        strictly_increasing(ra) && ra.to_set() == a.to_set(),
        strictly_increasing(rb) && rb.to_set() == b.to_set(),
    ensures
        ra == rb,
{
    lemma_increasing_same_set(ra, rb);
}

/// What the lookup of whether a user is banned gave: the flag, or a failure.
#[derive(Clone, Copy, Debug, PartialEq, Eq, Structural)]
pub enum BanLookup {
    Found(Option<bool>),
    Failed,
}

/// Whether a lookup stops the creation of a game.
pub open spec fn lookup_stops(l: BanLookup) -> bool {
    l == BanLookup::Failed || l == BanLookup::Found(Some(true))
}

/// The first lookup that stops the creation of a game decides: a banned user
/// is named, a failed lookup is a server error.
pub open spec fn ban_verdict(ids: Seq<u128>, lookups: Seq<BanLookup>) -> Result<(), InviteRejection>
    decreases lookups.len(),
{
    if lookups.len() == 0 {
        Ok(())
    } else {
        match ban_verdict(ids.drop_last(), lookups.drop_last()) {
            Ok(()) => if lookups.last() == BanLookup::Failed {
                Err(InviteRejection::ServerError)
            } else if lookups.last() == BanLookup::Found(Some(true)) {
                Err(InviteRejection::Banned(ids[lookups.len() - 1]))
            } else {
                Ok(())
            },
            Err(e) => Err(e),
        }
    }
}

/// Decides on the lookups, made in the order of `ids`, of whether the invited
/// users are banned (see `ban_verdict`).
pub fn check_bans(ids: &Vec<u128>, lookups: &Vec<BanLookup>) -> (r: Result<(), InviteRejection>)
    requires
        ids@.len() == lookups@.len(),
    ensures
        r == ban_verdict(ids@, lookups@),
{
    let mut i: usize = 0;
    while i < lookups.len()
        invariant
            i <= lookups.len(),
            ids@.len() == lookups@.len(),
            ban_verdict(ids@.take(i as int), lookups@.take(i as int)) == Ok::<(), InviteRejection>(()),
        decreases lookups.len() - i,
    {
        assert(ids@.take(i + 1).drop_last() == ids@.take(i as int));
        assert(lookups@.take(i + 1).drop_last() == lookups@.take(i as int));
        let l = lookups[i];
        match l {
            BanLookup::Failed => {
                proof {
                    lemma_ban_verdict_stays(ids@, lookups@, i as int + 1);
                }
                return Err(InviteRejection::ServerError);
            },
            BanLookup::Found(Some(true)) => {
                proof {
                    lemma_ban_verdict_stays(ids@, lookups@, i as int + 1);
                }
                return Err(InviteRejection::Banned(ids[i]));
            },
            _ => {},
        }
        i = i + 1;
    }
    assert(ids@.take(ids@.len() as int) == ids@);
    assert(lookups@.take(lookups@.len() as int) == lookups@);
    Ok(())
}

/// Once the lookups up to `k` give a refusal, all of them give it.
proof fn lemma_ban_verdict_stays(ids: Seq<u128>, lookups: Seq<BanLookup>, k: int)
    requires
        0 <= k <= lookups.len(),
        ids.len() == lookups.len(),
        ban_verdict(ids.take(k), lookups.take(k)) is Err,
    ensures
        ban_verdict(ids, lookups) == ban_verdict(ids.take(k), lookups.take(k)),
    decreases lookups.len() - k,
{
    if k < lookups.len() {
        assert(ids.take(k + 1).drop_last() == ids.take(k));
        assert(lookups.take(k + 1).drop_last() == lookups.take(k));
        lemma_ban_verdict_stays(ids, lookups, k + 1);
    } else {
        assert(ids.take(k) == ids);
        assert(lookups.take(k) == lookups);
    }
}

/// Picks at random, with `rand::seq::SliceRandom::choose` and the thread's
/// generator, the player who counts as having played last when a game starts.
/// Trusted: that the pick is one of `ids` when there are any (the
/// documentation: a random element, `None` only for an empty slice).
#[verifier::external_body]
fn choose_id(ids: &Vec<u128>) -> (r: Option<u128>)
    ensures
        ids@.len() > 0 ==> r is Some,
        r matches Some(id) ==> ids@.contains(id),
{
    ids.choose(&mut rand::thread_rng()).copied()
}

/// The player who counts as having played last when a game starts, so that the
/// one after them begins: one of the players, picked at random.
pub fn pick_last_played(ids: &Vec<u128>) -> (r: u128)
    requires
        ids@.len() > 0,
    ensures
        ids@.contains(r),
{
    match choose_id(ids) {
        Some(id) => id,
        None => ids[0],
    }
}

/// The settings of a new game as they are stored: the players in increasing
/// order, and the one who counts as having played last.
pub struct GameRequest {
    pub players: Vec<u128>,
    pub last_played: u128,
}

/// Prepares a new game from its players: refused where one occurs twice; else
/// the players in increasing order and one of them, at random, as the one who
/// counts as having played last.
pub fn prepare_game(players: &Vec<u128>) -> (r: Result<GameRequest, InviteRejection>)
    requires
        players@.len() > 0,
    ensures
        r is Err <==> !players@.no_duplicates(),
        r matches Err(e) ==> e == InviteRejection::Duplicates,
        r matches Ok(g) ==> {
            &&& strictly_increasing(g.players@)
            &&& g.players@.to_set() == players@.to_set()
            &&& g.players@.len() == players@.len()
            &&& g.players@.contains(g.last_played)
        },
{
    let sorted = sorted_players(players)?;
    let last_played = pick_last_played(&sorted);
    Ok(GameRequest { players: sorted, last_played })
}

/// The refusal, if any, when storing a new game failed.
pub fn creation_failure(f: DbFailure) -> (r: InviteRejection)
    ensures
        r == (if f == DbFailure::Database {
            InviteRejection::UserNotFound
        } else {
            InviteRejection::ServerError
        }),
{
    match f {
        DbFailure::Database => InviteRejection::UserNotFound,
        _ => InviteRejection::ServerError,
    }
}

} // verus!
