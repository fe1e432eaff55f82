use piskvorky::board::{own_crofts_of, next_player_index, Croft};
use piskvorky::detect::{check_moves, PlayState};
use piskvorky::line::{is_line, WonDirection};
use piskvorky::play::{
    check_croft, check_player, decide_move, GameRecord, PlayGameData, PlayRejection, WonGameData,
};

fn c(x: u8, y: u8) -> Croft {
    Croft { x, y }
}

const A: u128 = 10;
const B: u128 = 20;

fn game(field: Vec<Croft>, last_played: u128, moves_needed: i16) -> GameRecord {
    GameRecord { ended: false, last_played, moves_needed, field }
}

fn play(croft: Croft, won: Option<WonGameData>, tie: Option<bool>) -> PlayGameData {
    PlayGameData { game_id: 1, croft, won, tie }
}

#[test]
fn croft_outside_field_is_refused() {
    assert_eq!(check_croft(c(31, 0)), Err(PlayRejection::FieldTooLarge));
    assert_eq!(check_croft(c(0, 31)), Err(PlayRejection::FieldTooLarge));
    assert_eq!(check_croft(c(30, 30)), Ok(()));
    assert_eq!(PlayRejection::FieldTooLarge.message(), "Playing feld is limited to 30x30");
    assert_eq!(PlayRejection::FieldTooLarge.status(), 400);
}

#[test]
fn stranger_is_refused() {
    assert_eq!(check_player(&vec![A, B], 30), Err(PlayRejection::NotInGame));
    assert_eq!(check_player(&vec![A, B], B), Ok(()));
    assert_eq!(PlayRejection::NotInGame.status(), 401);
}

#[test]
fn next_player_follows_last() {
    assert_eq!(next_player_index(&vec![A, B, 30], A), 1);
    assert_eq!(next_player_index(&vec![A, B, 30], 30), 0);
    assert_eq!(next_player_index(&vec![A, B, 30], 99), 1);
}

#[test]
fn plain_move_is_appended() {
    let users = vec![A, B];
    let r = decide_move(&users, B, game(vec![c(1, 1)], A, 5), &play(c(2, 2), None, None));
    let u = r.ok().unwrap();
    assert_eq!(u.field, vec![c(1, 1), c(2, 2)]);
    assert!(!u.ended);
    assert!(!u.winner);
}

#[test]
fn move_out_of_turn_is_refused() {
    let users = vec![A, B];
    let r = decide_move(&users, A, game(vec![c(1, 1)], A, 5), &play(c(2, 2), None, None));
    assert_eq!(r.err(), Some(PlayRejection::NotYourTurn));
}

#[test]
fn move_in_ended_game_is_refused() {
    let users = vec![A, B];
    let mut g = game(vec![], A, 5);
    g.ended = true;
    let r = decide_move(&users, B, g, &play(c(2, 2), None, None));
    assert_eq!(r.err(), Some(PlayRejection::GameEnded));
}

#[test]
fn used_croft_is_refused() {
    let users = vec![A, B];
    let r = decide_move(&users, B, game(vec![c(1, 1)], A, 5), &play(c(1, 1), None, None));
    assert_eq!(r.err(), Some(PlayRejection::CroftUsed));
    assert_eq!(PlayRejection::CroftUsed.message(), "This croft was already used.");
}

#[test]
fn false_tie_is_refused() {
    let users = vec![A, B];
    let r = decide_move(&users, B, game(vec![c(1, 1)], A, 5), &play(c(2, 2), None, Some(true)));
    assert_eq!(r.err(), Some(PlayRejection::FalseTie));
}

#[test]
fn tie_on_full_field_ends_game() {
    let users = vec![A, B];
    let mut field = Vec::new();
    for i in 0..899u32 {
        field.push(c((i % 30) as u8, (i / 30) as u8));
    }
    let r = decide_move(&users, B, game(field, A, 5), &play(c(29, 29), None, Some(true)));
    let u = r.ok().unwrap();
    assert_eq!(u.field.len(), 900);
    assert!(u.ended);
    assert!(!u.winner);
}

/// Player B owns (5,1), (5,2); A owns (0,0), (0,1), (0,2). B plays (5,3).
fn vertical_game() -> GameRecord {
    game(vec![c(5, 1), c(0, 0), c(5, 2), c(0, 1)], A, 3)
}

#[test]
fn vertical_win_is_accepted() {
    let users = vec![A, B];
    let w = WonGameData { moves: vec![c(5, 1), c(5, 2)], direction: WonDirection::Vertical };
    let r = decide_move(&users, B, vertical_game(), &play(c(5, 3), Some(w), None));
    let u = r.ok().unwrap();
    assert!(u.ended);
    assert!(u.winner);
    assert_eq!(u.field.len(), 5);
}

#[test]
fn win_with_wrong_count_is_refused() {
    let users = vec![A, B];
    let w = WonGameData { moves: vec![c(5, 2)], direction: WonDirection::Vertical };
    let r = decide_move(&users, B, vertical_game(), &play(c(5, 3), Some(w), None));
    assert_eq!(r.err(), Some(PlayRejection::WrongMoveCount));
}

#[test]
fn win_not_in_line_is_refused() {
    let users = vec![A, B];
    let w = WonGameData { moves: vec![c(5, 1), c(5, 2)], direction: WonDirection::Horizontal };
    let r = decide_move(&users, B, vertical_game(), &play(c(5, 3), Some(w), None));
    assert_eq!(r.err(), Some(PlayRejection::MovesDontAddUp));
}

#[test]
fn win_with_other_players_crofts_is_refused() {
    let users = vec![A, B];
    let w = WonGameData { moves: vec![c(0, 1), c(0, 2)], direction: WonDirection::Vertical };
    let r = decide_move(&users, B, vertical_game(), &play(c(0, 3), Some(w), None));
    assert_eq!(r.err(), Some(PlayRejection::MovesNotYours));
    assert_eq!(PlayRejection::MovesNotYours.status(), 400);
}

#[test]
fn lines_in_each_direction() {
    assert!(is_line(&vec![c(3, 4), c(1, 4), c(2, 4)], WonDirection::Horizontal));
    assert!(!is_line(&vec![c(3, 4), c(1, 4), c(4, 4)], WonDirection::Horizontal));
    assert!(!is_line(&vec![c(1, 4), c(1, 4), c(2, 4)], WonDirection::Horizontal));
    assert!(is_line(&vec![c(2, 2), c(3, 3), c(1, 1)], WonDirection::DiagonalLR));
    assert!(is_line(&vec![c(2, 2), c(3, 1), c(1, 3)], WonDirection::DiagonalRL));
    assert!(!is_line(&vec![c(2, 2), c(3, 3), c(1, 3)], WonDirection::DiagonalRL));
    assert!(is_line(&vec![c(7, 9)], WonDirection::Vertical));
    assert!(!is_line(&vec![], WonDirection::Vertical));
}

#[test]
fn own_crofts_count_back_by_players() {
    let field = vec![c(0, 0), c(1, 0), c(2, 0), c(3, 0), c(4, 0)];
    assert_eq!(own_crofts_of(&field, 2), vec![c(4, 0), c(2, 0), c(0, 0)]);
    assert_eq!(own_crofts_of(&field, 3), vec![c(4, 0), c(1, 0)]);
    assert_eq!(own_crofts_of(&vec![], 3), vec![]);
}

#[test]
fn client_detects_vertical_win() {
    // B's crofts newest first: the new one (5,3), then (5,2), (5,1)
    let moves = vec![c(5, 3), c(5, 2), c(5, 1)];
    match check_moves(&moves, 3) {
        PlayState::Won(w) => {
            assert_eq!(w.direction, WonDirection::Vertical);
            assert_eq!(w.moves, vec![c(5, 2), c(5, 1)]);
        }
        _ => panic!("expected a win"),
    }
}

#[test]
fn client_detects_horizontal_win_with_new_croft() {
    let moves = vec![c(2, 7), c(3, 7), c(4, 7)];
    match check_moves(&moves, 3) {
        PlayState::Won(w) => {
            assert_eq!(w.direction, WonDirection::Horizontal);
            assert_eq!(w.moves, vec![c(2, 7), c(3, 7), c(4, 7)]);
        }
        _ => panic!("expected a win"),
    }
}

#[test]
fn client_detects_diagonals() {
    match check_moves(&vec![c(5, 5), c(4, 4), c(6, 6)], 3) {
        PlayState::Won(w) => {
            assert_eq!(w.direction, WonDirection::DiagonalLR);
            assert_eq!(w.moves, vec![c(4, 4), c(6, 6)]);
        }
        _ => panic!("expected a win"),
    }
    match check_moves(&vec![c(5, 5), c(6, 4), c(4, 6)], 3) {
        PlayState::Won(w) => {
            assert_eq!(w.direction, WonDirection::DiagonalRL);
            assert_eq!(w.moves, vec![c(6, 4), c(4, 6)]);
        }
        _ => panic!("expected a win"),
    }
}

#[test]
fn client_sees_no_win_with_gap() {
    match check_moves(&vec![c(5, 5), c(5, 7), c(0, 0)], 3) {
        PlayState::Continue => {}
        _ => panic!("expected no win"),
    }
}

#[test]
fn client_reports_tie_on_full_list() {
    let mut moves = Vec::new();
    for i in 0..900u32 {
        moves.push(c((i % 30) as u8, (i / 30) as u8));
    }
    match check_moves(&moves, 5) {
        PlayState::Tie => {}
        _ => panic!("expected a tie"),
    }
}

#[test]
fn client_vertical_win_passes_server() {
    let g = vertical_game();
    let users = vec![A, B];
    let mut field = g.field.clone();
    field.push(c(5, 3));
    let own = own_crofts_of(&field, users.len());
    let state = check_moves(&own, 3);
    let won = state.won();
    let tie = state.tie();
    let r = decide_move(&users, B, g, &play(c(5, 3), won, tie));
    assert!(r.ok().unwrap().winner);
}

#[test]
fn client_row_win_is_refused_by_server() {
    // B owns (1,5), (2,5) and plays (3,5): the client reports the played croft
    // among the row, and the server counts it twice.
    let g = game(vec![c(1, 5), c(0, 0), c(2, 5), c(0, 9)], A, 3);
    let users = vec![A, B];
    let mut field = g.field.clone();
    field.push(c(3, 5));
    let own = own_crofts_of(&field, users.len());
    let state = check_moves(&own, 3);
    let won = state.won();
    assert_eq!(won.as_ref().unwrap().direction, WonDirection::Horizontal);
    let r = decide_move(&users, B, g, &play(c(3, 5), won, None));
    assert_eq!(r.err(), Some(PlayRejection::WrongMoveCount));
}

#[test]
fn ended_game_is_refused_whoever_played_last() {
    let users = vec![A, B];
    let mut g = game(vec![c(1, 1)], 99, 5);
    g.ended = true;
    let r = decide_move(&users, A, g, &play(c(1, 1), None, Some(true)));
    assert_eq!(r.err(), Some(PlayRejection::GameEnded));
}
