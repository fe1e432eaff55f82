use piskvorky::invite::{
    check_admin_invite, check_bans, check_user_invite, creation_failure, prepare_game,
    sorted_players, BanLookup, InviteRejection, NewGameData,
};
use piskvorky::pattern::{matches_pattern, valid_user_fields, GAME_NAME_PATTERN, NICK_PATTERN};
use piskvorky::reply::{
    game_lookup_reply, invite_answer_reply, json_failure_reply, ok_reply, profile_lookup_reply,
    DbFailure, JsonFailure,
};
use piskvorky::session::{
    role_ids, AdminUser, AuthRejection, LoggedInUser, NotLoggedInUser, Role, SessionLookup,
    UserStatus, UserWithRoles, UserWithoutBan,
};
use piskvorky::user::{
    check_login, check_registration, check_update, login_lookup_failure, registration_failure,
    update_failure, AdminUpdateData, RegisterData, UpdateData, UserRejection,
};

fn s(t: &str) -> String {
    t.to_string()
}

#[test]
fn nick_pattern_is_applied() {
    assert_eq!(matches_pattern(NICK_PATTERN, "abc12"), Ok(true));
    assert_eq!(matches_pattern(NICK_PATTERN, "ab"), Ok(false));
    assert_eq!(matches_pattern(NICK_PATTERN, "a_b_c"), Ok(false));
    assert_eq!(matches_pattern(GAME_NAME_PATTERN, "Hra 1"), Ok(true));
    assert_eq!(matches_pattern(GAME_NAME_PATTERN, "Hra  1"), Ok(false));
}

#[test]
fn broken_pattern_is_an_error() {
    assert!(matches_pattern("(", "x").is_err());
}

#[test]
fn absent_fields_pass() {
    assert_eq!(valid_user_fields(None, None, None, None, None), Ok(true));
}

#[test]
fn user_fields_are_checked() {
    assert_eq!(
        valid_user_fields(Some("pepa1"), Some("muž"), Some("pepa@seznam.cz"), Some("aaBB11!!"), None),
        Ok(true)
    );
    assert_eq!(valid_user_fields(Some("pe"), None, None, None, None), Ok(false));
    assert_eq!(valid_user_fields(None, None, None, Some("password"), None), Ok(false));
    assert_eq!(valid_user_fields(None, None, Some("not an email"), None, None), Ok(false));
    assert_eq!(valid_user_fields(None, Some("a  b"), None, None, None), Ok(false));
    assert_eq!(valid_user_fields(None, None, None, None, Some("too short")), Ok(false));
}

#[test]
fn registration_is_checked() {
    let good = RegisterData {
        nick: s("pepa1"),
        gender: s("muž"),
        email: s("pepa@seznam.cz"),
        password: s("aaBB11!!"),
    };
    assert_eq!(check_registration(&good), Ok(()));
    let bad = RegisterData { nick: s("p"), ..good };
    assert_eq!(check_registration(&bad), Err(UserRejection::InvalidRegistration));
    assert_eq!(UserRejection::InvalidRegistration.message(), "Invalid Data");
    assert_eq!(registration_failure(DbFailure::Database), UserRejection::EmailInUse);
    assert_eq!(UserRejection::EmailInUse.status(), 409);
    assert_eq!(registration_failure(DbFailure::Other), UserRejection::ServerError);
}

#[test]
fn update_checks_only_present_fields() {
    let data = UpdateData { nick: None, gender: None, email: None, password: Some(s("weak")) };
    assert_eq!(check_update(&data), Err(UserRejection::InvalidUpdate));
    let data = UpdateData { nick: Some(s("novy")), gender: None, email: None, password: None };
    assert_eq!(check_update(&data), Ok(()));
    assert_eq!(update_failure(DbFailure::Database), UserRejection::UserGone);
    assert_eq!(UserRejection::UserGone.status(), 410);
    assert_eq!(UserRejection::UserGone.message(), "User doesn't exists");
}

#[test]
fn login_decisions() {
    assert_eq!(login_lookup_failure(DbFailure::RowNotFound), UserRejection::EmailNotFound);
    assert_eq!(login_lookup_failure(DbFailure::Other), UserRejection::ServerError);
    assert_eq!(check_login(false, true), Err(UserRejection::ServerError));
    assert_eq!(check_login(true, false), Err(UserRejection::InvalidPassword));
    assert_eq!(check_login(true, true), Ok(()));
    assert_eq!(UserRejection::InvalidPassword.message(), "Invalid password");
}

#[test]
fn admin_update_maps_roles() {
    let d = AdminUpdateData {
        id: 1,
        nick: None,
        gender: None,
        email: None,
        password: None,
        roles: Some(vec![Role::Banned, Role::Admin]),
    };
    assert_eq!(d.role_numbers(), Some(vec![1, 0]));
    assert_eq!(role_ids(&vec![]), Vec::<i16>::new());
    assert_eq!(Role::from_id(1), Some(Role::Banned));
    assert_eq!(Role::from_id(7), None);
}

#[test]
fn session_gates() {
    assert_eq!(UserStatus::from_lookup(SessionLookup::Found(Some(5))), Ok(UserStatus::LoggedIn(5)));
    assert_eq!(UserStatus::from_lookup(SessionLookup::Found(None)), Ok(UserStatus::NotLoggedIn));
    assert_eq!(UserStatus::from_lookup(SessionLookup::Failed), Err(AuthRejection::ServerError));
    assert_eq!(LoggedInUser::from_status(UserStatus::LoggedIn(5)), Ok(LoggedInUser(5)));
    assert_eq!(LoggedInUser::from_status(UserStatus::NotLoggedIn), Err(AuthRejection::NotLoggedIn));
    assert_eq!(NotLoggedInUser::from_status(UserStatus::NotLoggedIn), Ok(NotLoggedInUser));
    assert_eq!(NotLoggedInUser::from_status(UserStatus::LoggedIn(1)), Err(AuthRejection::AlreadyLoggedIn));
    assert_eq!(AuthRejection::NotLoggedIn.message(), "User not logged in");
    assert_eq!(AuthRejection::AlreadyLoggedIn.status(), 400);
}

#[test]
fn roles_gate_admins_and_banned() {
    let admin = UserWithRoles { id: 1, roles: vec![Role::Admin] };
    assert!(admin.is_admin());
    assert!(!admin.is_banned());
    assert_eq!(AdminUser::from_user(admin).ok().unwrap().id, 1);
    let plain = UserWithRoles { id: 2, roles: vec![] };
    assert_eq!(AdminUser::from_user(plain).err(), Some(AuthRejection::AdminNeeded));
    let banned = UserWithRoles { id: 3, roles: vec![Role::Banned] };
    assert_eq!(UserWithoutBan::from_user(banned).err(), Some(AuthRejection::Banned));
    let fine = UserWithRoles { id: 4, roles: vec![Role::Admin] };
    assert_eq!(UserWithoutBan::from_user(fine).ok().unwrap().id, 4);
    assert_eq!(AuthRejection::Banned.status(), 401);
    let failed = UserWithRoles::from_lookup(LoggedInUser(9), Err(()));
    assert_eq!(failed.err(), Some(AuthRejection::ServerError));
}

fn invite(name: &str, users: Vec<u128>, moves: u8) -> NewGameData {
    NewGameData { name: s(name), users_id: users, moves_needed: moves }
}

#[test]
fn user_invites_are_checked_in_order() {
    assert_eq!(check_user_invite(&invite("x", vec![2], 9), 1), Err(InviteRejection::MovesTooLarge));
    assert_eq!(check_user_invite(&invite("x", vec![2], 2), 1), Err(InviteRejection::MovesTooSmall));
    assert_eq!(check_user_invite(&invite("x", vec![2], 5), 1), Err(InviteRejection::InvalidName));
    assert_eq!(check_user_invite(&invite("Hra 1", vec![2, 1], 5), 1), Err(InviteRejection::OwnIdIncluded));
    assert_eq!(check_user_invite(&invite("Hra 1", vec![2, 3, 4, 5, 6], 5), 1), Err(InviteRejection::TooManyUsers));
    assert_eq!(check_user_invite(&invite("Hra 1", vec![], 5), 1), Err(InviteRejection::NoOtherUsers));
    assert_eq!(check_user_invite(&invite("Hra 1", vec![3, 2], 5), 1), Ok(vec![3, 2, 1]));
    assert_eq!(InviteRejection::TooManyUsers.message(), Some("Too much users"));
    assert_eq!(InviteRejection::Banned(3).message(), None);
}

#[test]
fn admin_invites_count_players() {
    assert_eq!(check_admin_invite(&invite("x", vec![1], 0)), Err(InviteRejection::TooFewPlayers));
    assert_eq!(check_admin_invite(&invite("x", vec![1, 2, 3, 4, 5, 6], 0)), Err(InviteRejection::TooManyPlayers));
    assert_eq!(check_admin_invite(&invite("x", vec![1, 2], 0)), Ok(()));
}

#[test]
fn players_are_sorted_and_unique() {
    assert_eq!(sorted_players(&vec![5, 1, 3]), Ok(vec![1, 3, 5]));
    assert_eq!(sorted_players(&vec![5, 1, 5]), Err(InviteRejection::Duplicates));
    assert_eq!(sorted_players(&vec![]), Ok(vec![]));
    assert_eq!(sorted_players(&vec![3, 1]), sorted_players(&vec![1, 3]));
}

#[test]
fn game_start_picks_a_player() {
    let g = prepare_game(&vec![9, 4, 7]).ok().unwrap();
    assert_eq!(g.players, vec![4, 7, 9]);
    assert!(g.players.contains(&g.last_played));
    assert_eq!(prepare_game(&vec![4, 4]).err(), Some(InviteRejection::Duplicates));
}

#[test]
fn first_ban_problem_decides() {
    let ids = vec![1, 2, 3];
    let ok = vec![BanLookup::Found(Some(false)), BanLookup::Found(None), BanLookup::Found(Some(false))];
    assert_eq!(check_bans(&ids, &ok), Ok(()));
    let banned = vec![BanLookup::Found(Some(false)), BanLookup::Found(Some(true)), BanLookup::Failed];
    assert_eq!(check_bans(&ids, &banned), Err(InviteRejection::Banned(2)));
    let failed = vec![BanLookup::Failed, BanLookup::Found(Some(true)), BanLookup::Found(None)];
    assert_eq!(check_bans(&ids, &failed), Err(InviteRejection::ServerError));
    assert_eq!(creation_failure(DbFailure::Database), InviteRejection::UserNotFound);
    assert_eq!(creation_failure(DbFailure::RowNotFound), InviteRejection::ServerError);
}

#[test]
fn replies_of_lookups() {
    let r = json_failure_reply(JsonFailure::Overflow);
    assert_eq!((r.status, r.text), (413, ""));
    let r = json_failure_reply(JsonFailure::Deserialize);
    assert_eq!((r.status, r.text), (400, "Invalid json"));
    let r = game_lookup_reply(DbFailure::RowNotFound);
    assert_eq!((r.status, r.text), (400, "Game doesn't exists"));
    let r = profile_lookup_reply(DbFailure::Other);
    assert_eq!((r.status, r.text), (500, ""));
    let r = invite_answer_reply(DbFailure::Database);
    assert_eq!(r.status, 400);
    let r = ok_reply();
    assert_eq!((r.status, r.text), (200, "Ok"));
}
