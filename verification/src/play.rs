//! What the server decides when a player sends a move.
use vstd::prelude::*;
use crate::board::{Croft, contains_croft, contains_id, count_crofts_in, count_in, next_index, next_player_index, own_crofts, own_crofts_of};
use crate::line::{WonDirection, in_line, is_line};
use crate::reply::DbFailure;

verus! {

/// Largest coordinate the server accepts for a croft.
pub const MAX_COORDINATE: u8 = 30;

/// Number of crofts on a full field.
pub const FIELD_CROFTS: usize = 900;

/// The crofts a player claims, together with the croft being played, to
/// form a winning line, and the direction of that line.
pub struct WonGameData {
    pub moves: Vec<Croft>,
    pub direction: WonDirection,
}

/// A move as a player sends it.
pub struct PlayGameData {
    pub game_id: u128,
    pub croft: Croft,
    pub won: Option<WonGameData>,
    pub tie: Option<bool>,
}

/// A game as it is stored.
pub struct GameRecord {
    pub ended: bool,
    pub last_played: u128,
    pub moves_needed: i16,
    pub field: Vec<Croft>,
}

/// What a game becomes after an accepted move; the player who moved is then
/// the one who played last.
pub struct GameUpdate {
    pub field: Vec<Croft>,
    pub ended: bool,
    /// Whether the player who moved has won.
    pub winner: bool,
}

/// Why a move is refused.
#[derive(Clone, Copy, Debug, PartialEq, Eq, Structural)]
pub enum PlayRejection {
    FieldTooLarge,
    NotInGame,
    GameNotFound,
    ServerError,
    GameEnded,
    NotYourTurn,
    CroftUsed,
    FalseTie,
    WrongMoveCount,
    MovesDontAddUp,
    MovesNotYours,
}

/// HTTP status codes of the replies.
pub open spec fn rejection_status(r: PlayRejection) -> u16 {
    match r {
        PlayRejection::NotInGame => 401,
        PlayRejection::ServerError => 500,
        _ => 400,
    }
}

/// The text of the reply to a refused move.
pub open spec fn rejection_text(r: PlayRejection) -> Seq<char> {
    match r {
        PlayRejection::FieldTooLarge => "Playing feld is limited to 30x30"@,
        PlayRejection::NotInGame => "You aren't in this game."@,
        PlayRejection::GameNotFound => "Game with that id doesn't exists."@,
        PlayRejection::ServerError => ""@,
        PlayRejection::GameEnded => "Game already ended."@,
        PlayRejection::NotYourTurn => "It's not your turn to play."@,
        PlayRejection::CroftUsed => "This croft was already used."@,
        PlayRejection::FalseTie => "Move is invalid - false tie."@,
        PlayRejection::WrongMoveCount => "Invalid move - false win, wrong amount crofts for win."@,
        PlayRejection::MovesDontAddUp => "Invalid move - false win, moves don't add up to win."@,
        PlayRejection::MovesNotYours => "Move is invalid - false win, some moves aren't yours or some moves doesn't exists."@,
    }
}

impl PlayRejection {
    /// The HTTP status code of the reply.
    pub fn status(&self) -> (r: u16)
        ensures
            r == rejection_status(*self),
    {
        match self {
            PlayRejection::NotInGame => 401,
            PlayRejection::ServerError => 500,
            _ => 400,
        }
    }

    /// The text of the reply.
    pub fn message(&self) -> (r: &'static str)
        ensures
            r@ == rejection_text(*self),
    {
        match self {
            PlayRejection::FieldTooLarge => "Playing feld is limited to 30x30",
            PlayRejection::NotInGame => "You aren't in this game.",
            PlayRejection::GameNotFound => "Game with that id doesn't exists.",
            PlayRejection::ServerError => "",
            PlayRejection::GameEnded => "Game already ended.",
            PlayRejection::NotYourTurn => "It's not your turn to play.",
            PlayRejection::CroftUsed => "This croft was already used.",
            PlayRejection::FalseTie => "Move is invalid - false tie.",
            PlayRejection::WrongMoveCount => "Invalid move - false win, wrong amount crofts for win.",
            PlayRejection::MovesDontAddUp => "Invalid move - false win, moves don't add up to win.",
            PlayRejection::MovesNotYours => "Move is invalid - false win, some moves aren't yours or some moves doesn't exists.",
        }
    }
}

/// The crofts a win claim stands for: the claimed ones, then the croft played.
pub open spec fn claimed_line(w: WonGameData, croft: Croft) -> Seq<Croft> {
    w.moves@.push(croft)
}

/// Why a win claim for `croft` is refused in `game` with `n` players, if it is.
pub open spec fn win_rejection(n: nat, game: GameRecord, croft: Croft, w: WonGameData) -> Option<
    PlayRejection,
> {
    let claimed = claimed_line(w, croft);
    if !(game.moves_needed >= 0 && claimed.len() == game.moves_needed) {
        Some(PlayRejection::WrongMoveCount)
    } else if !in_line(claimed, w.direction) {
        Some(PlayRejection::MovesDontAddUp)
    } else if count_in(own_crofts(game.field@.push(croft), n), claimed) != claimed.len() {
        Some(PlayRejection::MovesNotYours)
    } else {
        None
    }
}

/// Why `user` may not make the move `play` in `game`, whose players are
/// `users`, if there is a reason.
pub open spec fn play_rejection(
    users: Seq<u128>,
    user: u128,
    game: GameRecord,
    play: PlayGameData,
) -> Option<PlayRejection> {
    if game.ended {
        Some(PlayRejection::GameEnded)
    } else if users[next_index(users, game.last_played)] != user {
        Some(PlayRejection::NotYourTurn)
    } else if game.field@.contains(play.croft) {
        Some(PlayRejection::CroftUsed)
    } else if play.tie == Some(true) {
        if game.field@.len() + 1 == FIELD_CROFTS {
            None
        } else {
            Some(PlayRejection::FalseTie)
        }
    } else {
        match play.won {
            Some(w) => win_rejection(users.len(), game, play.croft, w),
            None => None,
        }
    }
}

/// Whether an accepted move ends the game.
pub open spec fn move_ends_game(play: PlayGameData) -> bool {
    play.tie == Some(true) || play.won is Some
}

/// Whether an accepted move wins the game for the player who made it.
pub open spec fn move_wins_game(play: PlayGameData) -> bool {
    play.tie != Some(true) && play.won is Some
}

/// Refuses a croft outside the field, before anything else is looked at.
pub fn check_croft(croft: Croft) -> (r: Result<(), PlayRejection>)
    ensures
        r is Err <==> (croft.x > MAX_COORDINATE || croft.y > MAX_COORDINATE),
        r matches Err(e) ==> e == PlayRejection::FieldTooLarge,
{
    if croft.x > MAX_COORDINATE || croft.y > MAX_COORDINATE {
        Err(PlayRejection::FieldTooLarge)
    } else {
        Ok(())
    }
}

/// The refusal where reading the players of a game failed: a game that
/// does not exist where the database refused, else a server error.
pub fn players_lookup_failure(f: DbFailure) -> (r: PlayRejection)
    ensures
        r == (if f == DbFailure::Database { PlayRejection::GameNotFound } else { PlayRejection::ServerError }),
{
    match f {
        DbFailure::Database => PlayRejection::GameNotFound,
        _ => PlayRejection::ServerError,
    }
}

/// Refuses a player who is not among the players of the game.
pub fn check_player(users: &Vec<u128>, user: u128) -> (r: Result<(), PlayRejection>)
    ensures
        r is Err <==> !users@.contains(user),
        r matches Err(e) ==> e == PlayRejection::NotInGame,
{
    if contains_id(users, user) {
        Ok(())
    } else {
        Err(PlayRejection::NotInGame)
    }
}

/// A copy of `v`.
pub fn copy_crofts(v: &Vec<Croft>) -> (r: Vec<Croft>)
    ensures
        r@ == v@,
{
    let mut r: Vec<Croft> = Vec::new();
    let mut i: usize = 0;
    while i < v.len()
        invariant
            i <= v.len(),
            r@ == v@.take(i as int),
        decreases v.len() - i,
    {
        r.push(v[i]);
        i = i + 1;
        assert(r@ =~= v@.take(i as int));
    }
    assert(v@.take(v@.len() as int) =~= v@);
    r
}

/// Checks a win claim for `croft` in `game` with `n` players.
fn check_win(n: usize, game: &GameRecord, croft: Croft, w: &WonGameData) -> (r: Option<
    PlayRejection,
>)
    requires
        n > 0,
    ensures
        r == win_rejection(n as nat, *game, croft, *w),
{
    let mut claimed = copy_crofts(&w.moves);
    claimed.push(croft);
    assert(claimed@ == claimed_line(*w, croft));
    if !(game.moves_needed >= 0 && claimed.len() == game.moves_needed as usize) {
        return Some(PlayRejection::WrongMoveCount);
    }
    if !is_line(&claimed, w.direction) {
        return Some(PlayRejection::MovesDontAddUp);
    }
    let mut field = copy_crofts(&game.field);
    field.push(croft);
    let own = own_crofts_of(&field, n);
    let c = count_crofts_in(&own, &claimed);
    if c != claimed.len() {
        return Some(PlayRejection::MovesNotYours);
    }
    None
}

/// Decides the move `play` of `user` in `game`, whose players are `users`, in
/// the order in which they take turns: either the game as it becomes, or why the
/// move is refused. The caller has made sure, by `check_croft` and `check_player`,
/// that the croft lies on the field and that `user` plays in the game; in a game
/// that goes on, the player who played last is one of its players.
pub fn decide_move(users: &Vec<u128>, user: u128, game: GameRecord, play: &PlayGameData) -> (r:
    Result<GameUpdate, PlayRejection>)
    requires
        game.ended || users@.contains(game.last_played),
    ensures
        match r {
            Ok(u) => {
                &&& play_rejection(users@, user, game, *play) is None
                &&& u.field@ == game.field@.push(play.croft)
                &&& u.ended == move_ends_game(*play)
                &&& u.winner == move_wins_game(*play)
            },
            Err(e) => play_rejection(users@, user, game, *play) == Some(e),
        },
{
    if game.ended {
        return Err(PlayRejection::GameEnded);
    }
    let next = next_player_index(users, game.last_played);
    if users[next] != user {
        return Err(PlayRejection::NotYourTurn);
    }
    if contains_croft(&game.field, play.croft) {
        return Err(PlayRejection::CroftUsed);
    }
    let tie = match play.tie {
        Some(t) => t,
        None => false,
    };
    if tie {
        if game.field.len() == FIELD_CROFTS - 1 {
            let mut field = game.field;
            field.push(play.croft);
            return Ok(GameUpdate { field, ended: true, winner: false });
        } else {
            return Err(PlayRejection::FalseTie);
        }
    }
    match &play.won {
        Some(w) => {
            match check_win(users.len(), &game, play.croft, w) {
                Some(e) => Err(e),
                None => {
                    let mut field = game.field;
                    field.push(play.croft);
                    Ok(GameUpdate { field, ended: true, winner: true })
                },
            }
        },
        None => {
            let mut field = game.field;
            field.push(play.croft);
            Ok(GameUpdate { field, ended: false, winner: false })
        },
    }
}

} // verus!
