use piskvorky::board::Croft;
use piskvorky::client_game::{game_status, ClickResult, ClientGame, GameStatus, Player};
use piskvorky::client_pages::{
    count_record, edit_request, invited_players, nav_class, remove_invite, running_first, ActiveNav,
    GameSummary, InviteSummary, Session, SessionEffect, SessionMsg, UserInfo,
};
use piskvorky::detect::PlayState;
use piskvorky::forms::{
    check_edit_submit, check_login_submit, check_new_invite_submit, check_register_submit,
    edit_access, edit_as_admin, read_edit_reply, read_login_reply, read_new_invite_reply,
    read_register_reply, read_u8, EditForm, LoginForm, NewInviteForm, ProfileFields, Sending,
    SubmitCheck,
};
use piskvorky::line::WonDirection;
use piskvorky::notice::{
    notification_timeout, read_game_load_reply, read_invite_answer_reply,
    read_invites_load_reply, read_load_reply, read_play_reply, FetchReply, Position, Status,
};
use piskvorky::session::Role;

fn s(t: &str) -> String {
    t.to_string()
}

fn reply(status: u16, body: Option<&str>) -> FetchReply {
    FetchReply { status, body: body.map(|b| b.to_string()) }
}

fn texts(o: &piskvorky::notice::ReplyOutcome) -> Vec<(String, Status)> {
    o.notices.iter().map(|n| (n.text.clone(), n.status)).collect()
}

#[test]
fn notification_names_and_timeout() {
    assert_eq!(Status::Danger.name(), "danger");
    assert_eq!(Position::BottomLeft.name(), "bottom-left");
    assert_eq!(notification_timeout(None), 5000);
    assert_eq!(notification_timeout(Some(100)), 100);
}

#[test]
fn load_replies() {
    let o = read_load_reply(reply(200, Some("[]")));
    assert!(o.success);
    assert_eq!(o.body, Some(s("[]")));
    let o = read_load_reply(reply(200, None));
    assert!(!o.success);
    assert_eq!(texts(&o), vec![(s("Server neposlal žádnou odpověď"), Status::Warning)]);
    let o = read_load_reply(reply(400, Some("nope")));
    assert_eq!(texts(&o), vec![(s("nope"), Status::Danger)]);
    let o = read_load_reply(reply(503, None));
    assert_eq!(texts(&o), vec![(s("Nastala neimplementovaná chyba"), Status::Warning)]);
}

#[test]
fn game_reloads_pass_quietly() {
    let o = read_game_load_reply(reply(500, None), false);
    assert!(!o.success);
    assert!(o.notices.is_empty());
    let o = read_game_load_reply(reply(500, None), true);
    assert_eq!(texts(&o), vec![(s("Nastala chyba serveru"), Status::Warning)]);
}

#[test]
fn unauthorized_replies_log_out() {
    assert!(read_invites_load_reply(reply(401, None)).log_out);
    assert!(!read_invites_load_reply(reply(400, None)).log_out);
    assert!(read_invite_answer_reply(reply(401, Some("x"))).log_out);
    assert!(read_invite_answer_reply(reply(200, None)).success);
    assert!(read_play_reply(reply(401, Some("User not logged in"))).log_out);
    assert!(!read_play_reply(reply(401, Some("You aren't in this game."))).log_out);
    assert!(read_new_invite_reply(reply(401, None)).log_out);
}

#[test]
fn form_replies() {
    let o = read_register_reply(reply(409, None));
    assert_eq!(texts(&o), vec![(s("Email je již používán."), Status::Warning)]);
    let o = read_register_reply(reply(400, None));
    assert_eq!(o.notices.len(), 2);
    assert!(read_register_reply(reply(200, None)).success);
    let o = read_edit_reply(reply(410, None), true);
    assert!(o.log_out);
    assert_eq!(texts(&o), vec![(s("Uživatel neexistuje"), Status::Warning)]);
    assert!(!read_edit_reply(reply(410, None), false).log_out);
    let o = read_login_reply(reply(200, Some("{}")));
    assert!(o.success);
    assert_eq!(texts(&o), vec![(s("Přihlášení úspěšné"), Status::Success)]);
    let o = read_login_reply(reply(200, None));
    assert!(!o.success);
    assert_eq!(o.notices.len(), 2);
}

#[test]
fn register_submit_order() {
    let mut f = ProfileFields::new();
    assert_eq!(check_register_submit(&f), SubmitCheck::FieldsMissing);
    f.set_email(s("spatne")).unwrap();
    assert_eq!(check_register_submit(&f), SubmitCheck::EmailInvalid);
    f.set_email(s("pepa@seznam.cz")).unwrap();
    assert!(f.set_password(s("aaBB11!!")).is_ok());
    assert!(f.set_password_again(s("aaBB11!?")));
    assert!(!f.password_again_valid);
    assert_eq!(check_register_submit(&f), SubmitCheck::PasswordsDiffer);
    f.set_password_again(s("aaBB11!!"));
    f.set_nick(s("pepa")).unwrap();
    f.set_gender(s("muž")).unwrap();
    f.set_description(s("Hraji piškvorky rád a často.")).unwrap();
    assert_eq!(check_register_submit(&f), SubmitCheck::Send);
    assert!(SubmitCheck::Send.notice().is_none());
    assert_eq!(SubmitCheck::PasswordsDiffer.notice().unwrap().text, s("Hesla se neschodují!"));
}

#[test]
fn edit_form_rules() {
    let mut e = EditForm::new();
    e.fields.set_password(s("weak")).unwrap();
    assert_eq!(check_edit_submit(&e), SubmitCheck::PasswordWeak);
    let again = e.fields.password_again.clone();
    assert!(e.fields.set_password_again(again));
    assert_eq!(check_edit_submit(&e), SubmitCheck::PasswordsDiffer);
    e.fields.set_password_again(s("weak"));
    assert_eq!(check_edit_submit(&e), SubmitCheck::PasswordWeak);
    e.toggle_admin();
    assert_eq!(check_edit_submit(&e), SubmitCheck::Send);
    e.toggle_role(Role::Banned);
    e.toggle_role(Role::Admin);
    assert_eq!(e.roles, vec![Role::Banned, Role::Admin]);
    e.toggle_role(Role::Banned);
    assert_eq!(e.roles, vec![Role::Admin]);
    let r = edit_request(&e, 7);
    assert_eq!(r.id, 7);
    assert_eq!(r.nick, None);
    assert_eq!(r.password, Some(s("weak")));
    assert!(edit_as_admin(false, Some(1), 2));
    assert!(!edit_as_admin(false, Some(2), 2));
    assert!(edit_as_admin(true, None, 2));
    assert_eq!(edit_access(Some(2), false, 2), (false, true, true));
    assert_eq!(edit_access(Some(3), true, 2), (true, true, false));
    assert_eq!(edit_access(None, true, 2), (false, false, false));
}

#[test]
fn login_and_invite_submits() {
    let mut l = LoginForm::new();
    assert_eq!(check_login_submit(&l), SubmitCheck::FieldsMissing);
    l.set_email(s("x")).unwrap();
    assert_eq!(check_login_submit(&l), SubmitCheck::EmailInvalid);
    let mut n = NewInviteForm::new();
    assert_eq!(n.moves, 5);
    n.set_moves("8");
    assert_eq!(n.moves, 8);
    n.set_moves("9");
    assert_eq!(n.moves, 8);
    n.set_moves("x");
    assert_eq!(n.moves, 8);
    n.set_name(s("ab")).unwrap();
    assert_eq!(check_new_invite_submit(&n), SubmitCheck::NameInvalid);
    n.set_name(s("Velka hra")).unwrap();
    assert_eq!(check_new_invite_submit(&n), SubmitCheck::FieldsMissing);
    n.users = s("a\nb");
    assert_eq!(check_new_invite_submit(&n), SubmitCheck::Send);
    assert_eq!(invited_players(&n), vec![s("a"), s("b")]);
}

#[test]
fn reading_bytes() {
    assert_eq!(read_u8("5"), Some(5));
    assert_eq!(read_u8("+7"), Some(7));
    assert_eq!(read_u8("007"), Some(7));
    assert_eq!(read_u8("255"), Some(255));
    assert_eq!(read_u8("256"), None);
    assert_eq!(read_u8(""), None);
    assert_eq!(read_u8("+"), None);
    assert_eq!(read_u8("-1"), None);
    assert_eq!(read_u8("1a"), None);
    assert_eq!(read_u8("999x"), None);
}

#[test]
fn sending_guard() {
    let mut g = Sending { busy: false };
    let (started, n) = g.begin("Probíhá registrace", "Registrace stále probíhá");
    assert!(started);
    assert_eq!(n.status, Status::Primary);
    let (again, n) = g.begin("Probíhá registrace", "Registrace stále probíhá");
    assert!(!again);
    assert_eq!(n.text, s("Registrace stále probíhá"));
    g.end();
    assert!(!g.busy);
}

fn players() -> Vec<Player> {
    vec![Player { name: s("ana"), id: 10 }, Player { name: s("bob"), id: 20 }]
}

fn client_game() -> ClientGame {
    ClientGame {
        players: players(),
        data: vec![Croft { x: 5, y: 1 }, Croft { x: 0, y: 0 }, Croft { x: 5, y: 2 }, Croft { x: 0, y: 1 }],
        ended: false,
        winner: None,
        last_played: 10,
        moves_needed: 3,
    }
}

#[test]
fn click_on_turn_detects_win() {
    let g = client_game();
    assert_eq!(g.on_move(), 1);
    match g.clicked(Some(20), 5, 3) {
        ClickResult::Play(c, PlayState::Won(w)) => {
            assert_eq!(c, Croft { x: 5, y: 3 });
            assert_eq!(w.direction, WonDirection::Vertical);
        }
        _ => panic!("expected a winning move"),
    }
    match g.clicked(Some(10), 5, 3) {
        ClickResult::NotOnMove(n) => assert_eq!(n.text, s("Nejsi na tahu")),
        _ => panic!("expected a refusal"),
    }
    assert!(matches!(g.clicked(None, 5, 3), ClickResult::Ignored));
}

#[test]
fn played_and_loaded() {
    let mut g = client_game();
    assert!(g.played(Croft { x: 9, y: 9 }, &PlayState::Tie, 20));
    assert!(g.ended);
    assert_eq!(g.last_played, 20);
    assert_eq!(g.data.len(), 5);
    let mut h = client_game();
    assert!(!h.loaded(client_game()));
    let mut other = client_game();
    other.winner = Some(10);
    assert!(h.loaded(other));
    assert_eq!(h.winner, Some(10));
}

#[test]
fn symbols_follow_players() {
    let g = client_game();
    // the newest croft (0,1) is the last player's (ana, symbol 0)
    assert_eq!(g.symbol_at(0, 1), Some(0));
    assert_eq!(g.symbol_at(5, 2), Some(1));
    assert_eq!(g.symbol_at(0, 0), Some(0));
    assert_eq!(g.symbol_at(5, 1), Some(1));
    assert_eq!(g.symbol_at(7, 7), None);
    assert!(g.can_click(Some(20)));
    assert!(!g.can_click(Some(30)));
    assert!(g.marked_on_move(1));
    assert!(!g.marked_on_move(0));
}

#[test]
fn status_reads() {
    assert!(matches!(game_status(false, Some(10), &players()), GameStatus::Running));
    assert!(matches!(game_status(true, None, &players()), GameStatus::Tie));
    match game_status(true, Some(20), &players()) {
        GameStatus::Won(n) => assert_eq!(n, s("bob")),
        _ => panic!("expected a winner"),
    }
}

#[test]
fn session_changes() {
    let mut sess = Session { user_info: None };
    let ui = UserInfo { nick: s("ana"), uuid: 10, roles: vec![Role::Admin] };
    assert!(ui.is_admin());
    assert_eq!(sess.update(SessionMsg::LoggedIn(ui)), (true, SessionEffect::Store));
    assert!(sess.user_info.is_some());
    assert_eq!(sess.update(SessionMsg::Logout), (false, SessionEffect::LogOutNext));
    assert!(sess.user_info.is_some());
    assert_eq!(sess.update(SessionMsg::LoggedOut), (true, SessionEffect::Forget));
    assert!(sess.user_info.is_none());
}

#[test]
fn pages_helpers() {
    assert_eq!(nav_class(Some(ActiveNav::Games), ActiveNav::Games, true), "uk-active");
    assert_eq!(nav_class(Some(ActiveNav::Games), ActiveNav::Games, false), "uk-active");
    assert_eq!(nav_class(Some(ActiveNav::Users), ActiveNav::Games, true), "uk-parent");
    assert_eq!(nav_class(Some(ActiveNav::Users), ActiveNav::Games, false), "");
    assert_eq!(nav_class(None, ActiveNav::Login, true), "uk-parent");
    assert_eq!(nav_class(None, ActiveNav::Profile, false), "");
    let g = |id: u128, ended: bool| GameSummary {
        name: s("g"),
        id,
        players: vec![],
        ended,
        winner: None,
        moves_needed: 3,
    };
    let sorted = running_first(vec![g(1, true), g(2, false), g(3, true), g(4, false)]);
    let ids: Vec<u128> = sorted.iter().map(|x| x.id).collect();
    assert_eq!(ids, vec![2, 4, 1, 3]);
    let mut invites = vec![
        InviteSummary { id: 1, name: s("a"), moves_needed: 3 },
        InviteSummary { id: 2, name: s("b"), moves_needed: 4 },
    ];
    remove_invite(&mut invites, 1);
    assert_eq!(invites.len(), 1);
    assert_eq!(invites[0].id, 2);
}

#[test]
fn password_change_then_repetition_check() {
    let mut f = ProfileFields::new();
    assert!(f.set_password_again(s("aaBB11!!")));
    assert!(!f.password_again_valid);
    assert_eq!(f.set_password(s("aaBB11!!")), Ok(false));
    assert!(f.password_valid);
    assert!(!f.password_again_valid);
    let again = f.password_again.clone();
    assert!(f.set_password_again(again));
    assert!(f.password_again_valid);
    assert_eq!(f.set_password(s("weak")), Ok(true));
    assert!(!f.password_valid);
    let again = f.password_again.clone();
    assert!(f.set_password_again(again));
    assert!(!f.password_again_valid);
    assert_eq!(f.password_again, s("aaBB11!!"));
}

#[test]
fn toggling_a_role_twice_restores_roles() {
    let mut e = EditForm::new();
    assert!(e.toggle_role(Role::Admin));
    e.toggle_role(Role::Banned);
    assert!(e.toggle_role(Role::Admin));
    assert_eq!(e.roles, vec![Role::Banned]);
    assert!(e.toggle_admin());
    e.toggle_role(Role::Admin);
    assert_eq!(e.roles, vec![Role::Banned, Role::Admin]);
    e.toggle_role(Role::Banned);
    e.toggle_role(Role::Banned);
    assert_eq!(e.roles, vec![Role::Admin, Role::Banned]);
}

#[test]
fn moves_stay_between_three_and_eight() {
    let mut n = NewInviteForm::new();
    for t in ["2", "3", "0", "8", "9", "256", "+4", ""] {
        assert!(n.set_moves(t));
        assert!(3 <= n.moves && n.moves <= 8);
    }
    assert_eq!(n.moves, 4);
}

#[test]
fn second_identical_load_changes_nothing() {
    let mut h = ClientGame::empty();
    assert_eq!(h.last_played, 0);
    assert_eq!(h.moves_needed, 0);
    assert!(h.loaded(client_game()));
    assert_eq!(h.data.len(), 4);
    assert!(!h.loaded(client_game()));
    assert_eq!(h.data.len(), 4);
    assert_eq!(h.players.len(), 2);
}

#[test]
fn click_off_turn_needs_no_bounds() {
    let mut g = client_game();
    g.moves_needed = 0;
    match g.clicked(Some(10), 200, 200) {
        ClickResult::NotOnMove(n) => assert_eq!(n.text, s("Nejsi na tahu")),
        _ => panic!("expected a refusal"),
    }
    assert!(matches!(g.clicked(None, 200, 200), ClickResult::Ignored));
}

fn summary(id: u128, ended: bool, winner: Option<u128>) -> GameSummary {
    GameSummary { name: s("hra"), id, players: players(), ended, winner, moves_needed: 5 }
}

#[test]
fn profile_record_counts_ended_games() {
    let games = vec![
        summary(1, true, Some(10)),
        summary(2, true, Some(20)),
        summary(3, false, None),
        summary(4, true, None),
        summary(5, true, Some(10)),
        summary(6, false, Some(10)),
    ];
    assert_eq!(count_record(&games, 10), (2, 1, 1));
    assert_eq!(count_record(&games, 20), (1, 2, 1));
    assert_eq!(count_record(&vec![], 10), (0, 0, 0));
}

#[test]
fn invited_players_split_at_each_line_break() {
    let mut n = NewInviteForm::new();
    n.users = s("");
    assert_eq!(invited_players(&n), vec![s("")]);
    n.users = s("ana\n");
    assert_eq!(invited_players(&n), vec![s("ana"), s("")]);
    n.users = s("\n\nžofie");
    assert_eq!(invited_players(&n), vec![s(""), s(""), s("žofie")]);
}

#[test]
fn symbols_of_an_empty_game_need_no_players() {
    let g = ClientGame::empty();
    assert_eq!(g.symbol_at(0, 0), None);
}
