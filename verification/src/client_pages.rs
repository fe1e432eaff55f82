//! The client's pages around the game: the logged-in user, the navigation,
//! the lists of games and invitations, and the requests the forms send.
use vstd::prelude::*;
use vstd::string::StrSliceExecFns;
use crate::client_game::Player;
use crate::forms::{EditForm, NewInviteForm, field_to_send};
use crate::session::{Role, has_role};

verus! {

/// The user who is logged in, as the client keeps them.
pub struct UserInfo {
    pub nick: String,
    pub uuid: u128,
    pub roles: Vec<Role>,
}

impl UserInfo {
    /// Whether the user is an administrator.
    pub fn is_admin(&self) -> (r: bool)
        ensures
            r == self.roles@.contains(Role::Admin),
    {
        has_role(&self.roles, Role::Admin)
    }
}

/// What the client does about the logged-in user.
pub enum SessionMsg {
    LoggedIn(UserInfo),
    LoggedOut,
    Logout,
}

/// What follows a change of the logged-in user.
#[derive(Clone, Copy, Debug, PartialEq, Eq, Structural)]
pub enum SessionEffect {
    /// Keep the user in the browser's storage.
    Store,
    /// Forget the stored user and the cookies.
    Forget,
    /// Go on with `SessionMsg::LoggedOut`.
    LogOutNext,
}

/// The client's knowledge of who is logged in.
pub struct Session {
    pub user_info: Option<UserInfo>,
}

impl Session {
    /// Acts on `msg`: a login keeps the user (and stores them), a logout forgets
    /// them (and what is stored), a request to log out leads to a logout. Whether
    /// the page is drawn again, and what follows.
    pub fn update(&mut self, msg: SessionMsg) -> (r: (bool, SessionEffect))
        ensures
            match msg {
                SessionMsg::LoggedIn(u) => final(self).user_info == Some(u) && r == (true, SessionEffect::Store),
                SessionMsg::LoggedOut => final(self).user_info is None && r == (true, SessionEffect::Forget),
                SessionMsg::Logout => final(self).user_info == old(self).user_info && r == (false, SessionEffect::LogOutNext),
            },
    {
        match msg {
            SessionMsg::LoggedIn(u) => {
                self.user_info = Some(u);
                (true, SessionEffect::Store)
            },
            SessionMsg::LoggedOut => {
                self.user_info = None;
                (true, SessionEffect::Forget)
            },
            SessionMsg::Logout => (false, SessionEffect::LogOutNext),
        }
    }
}

/// The entry of the navigation that is active.
#[derive(Clone, Copy, Debug, PartialEq, Eq, Structural)]
pub enum ActiveNav {
    Profile,
    Games,
    Users,
    Login,
    Invites,
}

/// The class of a navigation entry: active where it is the active one;
/// otherwise a parent entry where it stands in the top bar (as games, users and
/// logging in do on a wide screen), else none.
pub fn nav_class(active: Option<ActiveNav>, item: ActiveNav, top_bar: bool) -> (r: &'static str)
    ensures
        r@ == (if active == Some(item) {
            "uk-active"@
        } else if top_bar {
            "uk-parent"@
        } else {
            ""@
        }),
{
    let is_active = match active {
        Some(a) => a == item,
        None => false,
    };
    if is_active {
        "uk-active"
    } else if top_bar {
        "uk-parent"
    } else {
        ""
    }
}

/// A game as the lists of games show it.
pub struct GameSummary {
    pub name: String,
    pub id: u128,
    pub players: Vec<Player>,
    pub ended: bool,
    pub winner: Option<u128>,
    pub moves_needed: u8,
}

/// The games of `s` that have or have not ended (as `ended` says), in order.
pub open spec fn with_ended(s: Seq<GameSummary>, ended: bool) -> Seq<GameSummary>
    decreases s.len(),
{
    if s.len() == 0 {
        Seq::empty()
    } else if s.last().ended == ended {
        with_ended(s.drop_last(), ended).push(s.last())
    } else {
        with_ended(s.drop_last(), ended)
    }
}

/// The games of a profile in the order they show: those that go on first,
/// then those that have ended, each in the order they came.
pub fn running_first(games: Vec<GameSummary>) -> (r: Vec<GameSummary>)
    ensures
        r@ == with_ended(games@, false) + with_ended(games@, true),
{
    let mut running: Vec<GameSummary> = Vec::new();
    let mut done: Vec<GameSummary> = Vec::new();
    let ghost all = games@;
    let mut rest = games;
    let n = rest.len();
    let mut i: usize = 0;
    while i < n
        invariant
            n == all.len(),
            i <= n,
            rest@ == all.skip(i as int),
            running@ == with_ended(all.take(i as int), false),
            done@ == with_ended(all.take(i as int), true),
        decreases n - i,
    {
        let g = rest.remove(0);
        proof {
            assert(g == all[i as int]);
            assert(all.take(i + 1).drop_last() == all.take(i as int));
            assert(all.take(i + 1).last() == g);
            assert(rest@ =~= all.skip(i + 1));
        }
        if g.ended {
            done.push(g);
        } else {
            running.push(g);
        }
        i = i + 1;
    }
    assert(all.take(n as int) == all);
    running.append(&mut done);
    running
}

/// The record of `user` over `games`: how many ended games they won, how
/// many ended games someone else won, and how many ended without a winner.
pub open spec fn game_record(games: Seq<GameSummary>, user: u128) -> (int, int, int)
    decreases games.len(),
{
    if games.len() == 0 {
        (0, 0, 0)
    } else {
        let (v, l, t) = game_record(games.drop_last(), user);
        let g = games.last();
        if !g.ended {
            (v, l, t)
        } else {
            match g.winner {
                Some(w) => if w == user { (v + 1, l, t) } else { (v, l + 1, t) },
                None => (v, l, t + 1),
            }
        }
    }
}

proof fn lemma_game_record_bounded(games: Seq<GameSummary>, user: u128)
    ensures
        ({
            let (v, l, t) = game_record(games, user);
            0 <= v && 0 <= l && 0 <= t && v + l + t <= games.len()
        }),
    decreases games.len(),
{
    if games.len() > 0 {
        lemma_game_record_bounded(games.drop_last(), user);
    }
}

/// The victories, losses and ties of `user` over the games of their profile
/// (see `game_record`).
pub fn count_record(games: &Vec<GameSummary>, user: u128) -> (r: (u32, u32, u32))
    requires
        games@.len() <= u32::MAX,
    ensures
        (r.0 as int, r.1 as int, r.2 as int) == game_record(games@, user),
{
    let mut v: u32 = 0;
    let mut l: u32 = 0;
    let mut t: u32 = 0;
    let mut i: usize = 0;
    while i < games.len()
        invariant
            i <= games@.len(),
            games@.len() <= u32::MAX,
            (v as int, l as int, t as int) == game_record(games@.take(i as int), user),
        decreases games.len() - i,
    {
        proof {
            lemma_game_record_bounded(games@.take(i as int), user);
            assert(games@.take(i + 1).drop_last() == games@.take(i as int));
        }
        let g = &games[i];
        if g.ended {
            match g.winner {
                Some(w) => {
                    if w == user {
                        v = v + 1;
                    } else {
                        l = l + 1;
                    }
                },
                None => {
                    t = t + 1;
                },
            }
        }
        i = i + 1;
    }
    assert(games@.take(games@.len() as int) == games@);
    (v, l, t)
}

/// An invitation as the client lists it.
pub struct InviteSummary {
    pub id: u128,
    pub name: String,
    pub moves_needed: u8,
}

/// The invitations without the first one with `id`, which has been answered.
pub fn remove_invite(invites: &mut Vec<InviteSummary>, id: u128)
    requires
        exists|i: int| 0 <= i < old(invites)@.len() && old(invites)@[i].id == id,
    ensures
        exists|k: int| 0 <= k < old(invites)@.len() && old(invites)@[k].id == id
            && (forall|j: int| 0 <= j < k ==> old(invites)@[j].id != id)
            && final(invites)@ == old(invites)@.remove(k),
{
    let mut i: usize = 0;
    while i < invites.len()
        invariant
            i <= invites.len(),
            invites@ == old(invites)@,
            forall|j: int| 0 <= j < i ==> invites@[j].id != id,
            exists|k: int| 0 <= k < invites@.len() && invites@[k].id == id,
        decreases invites.len() - i,
    {
        if invites[i].id == id {
            invites.remove(i);
            return;
        }
        i = i + 1;
    }
    proof {
        let k = choose|k: int| 0 <= k < invites@.len() && invites@[k].id == id;
        assert(invites@[k].id != id);
    }
}

/// The players that a new game form invites: its text, a line each.
pub fn invited_players(form: &NewInviteForm) -> (r: Vec<String>)
    ensures
        r@.len() > 0,
        joined_lines(r@) == form.users@,
        forall|i: int| 0 <= i < r@.len() ==> !(#[trigger] r@[i])@.contains('\n'),
{
    split_lines(form.users.as_str())
}

/// The lines `lines`, with a line break between each two.
pub open spec fn joined_lines(lines: Seq<String>) -> Seq<char>
    decreases lines.len(),
{
    if lines.len() == 0 {
        Seq::empty()
    } else if lines.len() == 1 {
        lines[0]@
    } else {
        joined_lines(lines.drop_last()) + seq!['\n'] + lines.last()@
    }
}

/// Splits `text` at each line break: the pieces, joined with line breaks
/// between them, give back the text, and none holds a line break.
fn split_lines(text: &str) -> (r: Vec<String>)
    ensures
        r@.len() > 0,
        joined_lines(r@) == text@,
        forall|i: int| 0 <= i < r@.len() ==> !(#[trigger] r@[i])@.contains('\n'),
{
    let n = text.unicode_len();
    let mut r: Vec<String> = Vec::new();
    let mut start: usize = 0;
    let mut i: usize = 0;
    while i < n
        invariant
            n == text@.len(),
            start <= i <= n,
            r@.len() == 0 ==> start == 0,
            r@.len() > 0 ==> joined_lines(r@) + seq!['\n'] == text@.subrange(0, start as int),
            forall|k: int| start <= k < i ==> text@[k] != '\n',
            forall|j: int| 0 <= j < r@.len() ==> !(#[trigger] r@[j])@.contains('\n'),
        decreases n - i,
    {
        let c = text.get_char(i);
        if c == '\n' {
            let piece = text.substring_char(start, i).to_owned();
            proof {
                let p = text@.subrange(start as int, i as int);
                assert(piece@ == p);
                assert(!p.contains('\n')) by {
                    if p.contains('\n') {
                        let k = choose|k: int| 0 <= k < p.len() && p[k] == '\n';
                        assert(text@[start + k] == '\n');
                    }
                }
                let r2 = r@.push(piece);
                assert(r2.drop_last() == r@);
                if r@.len() == 0 {
                    assert(joined_lines(r2) == piece@);
                    assert(joined_lines(r2) + seq!['\n'] =~= text@.subrange(0, i + 1));
                } else {
                    assert(joined_lines(r2) == joined_lines(r@) + seq!['\n'] + piece@);
                    assert(joined_lines(r2) + seq!['\n'] =~= text@.subrange(0, i + 1));
                }
            }
            r.push(piece);
            start = i + 1;
        }
        i = i + 1;
    }
    let last = text.substring_char(start, n).to_owned();
    proof {
        let p = text@.subrange(start as int, n as int);
        assert(last@ == p);
        assert(!p.contains('\n')) by {
            if p.contains('\n') {
                let k = choose|k: int| 0 <= k < p.len() && p[k] == '\n';
                assert(text@[start + k] == '\n');
            }
        }
        let r2 = r@.push(last);
        assert(r2.drop_last() == r@);
        if r@.len() == 0 {
            assert(joined_lines(r2) == last@);
            assert(text@.subrange(0, n as int) =~= text@);
        } else {
            assert(joined_lines(r2) == joined_lines(r@) + seq!['\n'] + last@);
            assert(joined_lines(r2) =~= text@);
        }
    }
    r.push(last);
    r
}

/// A change of a profile as it is sent: the fields that are filled in, and the
/// roles.
pub struct EditRequest {
    pub id: u128,
    pub nick: Option<String>,
    pub gender: Option<String>,
    pub email: Option<String>,
    pub password: Option<String>,
    pub description: Option<String>,
    pub roles: Vec<Role>,
}

pub open spec fn sent_field(s: Seq<char>, sent: Option<String>) -> bool {
    if s.len() == 0 {
        sent is None
    } else {
        sent matches Some(t) && t@ == s
    }
}

/// The change of the profile of `user_id` that the form sends: each field
/// only where it is filled in.
pub fn edit_request(form: &EditForm, user_id: u128) -> (r: EditRequest)
    ensures
        r.id == user_id,
        sent_field(form.fields.nick@, r.nick),
        sent_field(form.fields.gender@, r.gender),
        sent_field(form.fields.email@, r.email),
        sent_field(form.fields.password@, r.password),
        sent_field(form.fields.description@, r.description),
        r.roles@ == form.roles@,
{
    let mut roles: Vec<Role> = Vec::new();
    let mut i: usize = 0;
    while i < form.roles.len()
        invariant
            i <= form.roles.len(),
            roles@ == form.roles@.take(i as int),
        decreases form.roles.len() - i,
    {
        roles.push(form.roles[i]);
        i = i + 1;
        assert(roles@ =~= form.roles@.take(i as int));
    }
    assert(form.roles@.take(form.roles@.len() as int) =~= form.roles@);
    EditRequest {
        id: user_id,
        nick: field_to_send(&form.fields.nick),
        gender: field_to_send(&form.fields.gender),
        email: field_to_send(&form.fields.email),
        password: field_to_send(&form.fields.password),
        description: field_to_send(&form.fields.description),
        roles,
    }
}

} // verus!
