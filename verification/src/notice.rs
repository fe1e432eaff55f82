//! Notifications that the client shows, and how it reads the server's replies.
use vstd::prelude::*;

verus! {

/// The look of a notification.
#[derive(Clone, Copy, Debug, PartialEq, Eq, Structural)]
pub enum Status {
    Primary,
    Success,
    Warning,
    Danger,
}

/// Where a notification shows.
#[derive(Clone, Copy, Debug, PartialEq, Eq, Structural)]
pub enum Position {
    TopLeft,
    TopCenter,
    TopRight,
    BottomLeft,
    BottomCenter,
    BottomRight,
}

impl Status {
    /// The name by which the page knows the look.
    pub fn name(&self) -> (r: &'static str)
        ensures
            r@ == match *self {
                Status::Primary => "primary"@,
                Status::Success => "success"@,
                Status::Warning => "warning"@,
                Status::Danger => "danger"@,
            },
    {
        match self {
            Status::Primary => "primary",
            Status::Success => "success",
            Status::Warning => "warning",
            Status::Danger => "danger",
        }
    }
}

impl Position {
    /// The name by which the page knows the place.
    pub fn name(&self) -> (r: &'static str)
        ensures
            r@ == match *self {
                Position::TopLeft => "top-left"@,
                Position::TopCenter => "top-center"@,
                Position::TopRight => "top-right"@,
                Position::BottomLeft => "bottom-left"@,
                Position::BottomCenter => "bottom-center"@,
                Position::BottomRight => "bottom-right"@,
            },
    {
        match self {
            Position::TopLeft => "top-left",
            Position::TopCenter => "top-center",
            Position::TopRight => "top-right",
            Position::BottomLeft => "bottom-left",
            Position::BottomCenter => "bottom-center",
            Position::BottomRight => "bottom-right",
        }
    }
}

/// How long, in milliseconds, a notification shows when nothing else is said.
pub const DEFAULT_TIMEOUT: u32 = 5000;

/// How long a notification shows: as asked, or `DEFAULT_TIMEOUT`.
pub fn notification_timeout(timeout: Option<u32>) -> (r: u32)
    ensures
        r == match timeout {
            Some(t) => t,
            None => DEFAULT_TIMEOUT,
        },
{
    match timeout {
        Some(t) => t,
        None => DEFAULT_TIMEOUT,
    }
}

/// A notification at the bottom left, for the default time.
pub struct Notice {
    pub text: String,
    pub status: Status,
}

/// A notification as a value.
pub type NoticeView = (Seq<char>, Status);

pub open spec fn notice_view(n: Notice) -> NoticeView {
    (n.text@, n.status)
}

pub open spec fn notices_view(v: Seq<Notice>) -> Seq<NoticeView> {
    v.map_values(|n: Notice| notice_view(n))
}

/// A notification with a fixed text.
pub fn notice(text: &str, status: Status) -> (r: Notice)
    ensures
        r.text@ == text@,
        r.status == status,
{
    Notice { text: text.to_owned(), status }
}

/// A reply of the server as the client gets it: the status code, and the body
/// where it could be read.
pub struct FetchReply {
    pub status: u16,
    pub body: Option<String>,
}

pub open spec fn body_view(r: FetchReply) -> Option<Seq<char>> {
    match r.body {
        Some(b) => Some(b@),
        None => None,
    }
}

/// What the client makes of a reply: success (with the body where it is
/// wanted) or failure, the notifications it shows, and whether it logs the user
/// out.
pub struct ReplyOutcome {
    pub success: bool,
    pub body: Option<String>,
    pub notices: Vec<Notice>,
    pub log_out: bool,
}

/// A `ReplyOutcome` as a value.
pub struct ReplyView {
    pub success: bool,
    pub body: Option<Seq<char>>,
    pub notices: Seq<NoticeView>,
    pub log_out: bool,
}

impl View for ReplyOutcome {
    type V = ReplyView;

    open spec fn view(&self) -> ReplyView {
        ReplyView {
            success: self.success,
            body: match self.body {
                Some(b) => Some(b@),
                None => None,
            },
            notices: notices_view(self.notices@),
            log_out: self.log_out,
        }
    }
}

pub open spec fn failed(notices: Seq<NoticeView>, log_out: bool) -> ReplyView {
    ReplyView { success: false, body: None, notices, log_out }
}

pub open spec fn succeeded(body: Option<Seq<char>>, notices: Seq<NoticeView>) -> ReplyView {
    ReplyView { success: true, body, notices, log_out: false }
}

pub open spec fn no_answer() -> NoticeView {
    ("Server neposlal žádnou odpověď"@, Status::Warning)
}

pub open spec fn no_message() -> NoticeView {
    ("Server neposlal žádnou chybovou hlášku."@, Status::Warning)
}

pub open spec fn server_error() -> NoticeView {
    ("Nastala chyba serveru"@, Status::Warning)
}

pub open spec fn unknown_error() -> NoticeView {
    ("Nastala neimplementovaná chyba"@, Status::Warning)
}

/// The notice of a refusal: the server's text, or that it sent none.
pub open spec fn refusal_notice(body: Option<Seq<char>>) -> NoticeView {
    match body {
        Some(b) => (b, Status::Danger),
        None => no_message(),
    }
}

fn one(n: Notice) -> (r: Vec<Notice>)
    ensures
        notices_view(r@) == seq![notice_view(n)],
{
    let mut v: Vec<Notice> = Vec::new();
    v.push(n);
    assert(notices_view(v@) =~= seq![notice_view(n)]);
    v
}

fn none() -> (r: Vec<Notice>)
    ensures
        notices_view(r@) == Seq::<NoticeView>::empty(),
{
    let v: Vec<Notice> = Vec::new();
    assert(notices_view(v@) =~= Seq::<NoticeView>::empty());
    v
}

fn refusal(body: Option<String>) -> (r: Notice)
    ensures
        notice_view(r) == refusal_notice(match body {
            Some(b) => Some(b@),
            None => None,
        }),
{
    match body {
        Some(b) => Notice { text: b, status: Status::Danger },
        None => notice("Server neposlal žádnou chybovou hlášku.", Status::Warning),
    }
}

fn fail(notices: Vec<Notice>, log_out: bool) -> (r: ReplyOutcome)
    ensures
        r@ == failed(notices_view(notices@), log_out),
{
    ReplyOutcome { success: false, body: None, notices, log_out }
}

// ----- the replies the client reads -----

/// A reply to loading a list or a profile: the body on 200; otherwise a failure
/// with a notice of why.
pub open spec fn load_reply(status: u16, body: Option<Seq<char>>) -> ReplyView {
    if status == 200 {
        match body {
            Some(b) => succeeded(Some(b), seq![]),
            None => failed(seq![no_answer()], false),
        }
    } else if status == 400 {
        failed(seq![refusal_notice(body)], false)
    } else if status == 500 {
        failed(seq![server_error()], false)
    } else {
        failed(seq![unknown_error()], false)
    }
}

/// Reads a reply to loading the games, the users or a profile (see `load_reply`).
pub fn read_load_reply(r: FetchReply) -> (o: ReplyOutcome)
    ensures
        o@ == load_reply(r.status, body_view(r)),
{
    if r.status == 200 {
        match r.body {
            Some(b) => ReplyOutcome { success: true, body: Some(b), notices: none(), log_out: false },
            None => fail(one(notice("Server neposlal žádnou odpověď", Status::Warning)), false),
        }
    } else if r.status == 400 {
        fail(one(refusal(r.body)), false)
    } else if r.status == 500 {
        fail(one(notice("Nastala chyba serveru", Status::Warning)), false)
    } else {
        fail(one(notice("Nastala neimplementovaná chyba", Status::Warning)), false)
    }
}

/// A reply to loading a game: as `load_reply`, but where the game is reloaded
/// without being asked (`manual` false), a refusal without text, a server error
/// and an unknown error pass silently.
pub open spec fn game_load_reply(status: u16, body: Option<Seq<char>>, manual: bool) -> ReplyView {
    if status == 200 {
        match body {
            Some(b) => succeeded(Some(b), seq![]),
            None => failed(seq![no_answer()], false),
        }
    } else if status == 400 {
        match body {
            Some(b) => failed(seq![(b, Status::Danger)], false),
            None => failed(if manual { seq![no_message()] } else { seq![] }, false),
        }
    } else if status == 500 {
        failed(if manual { seq![server_error()] } else { seq![] }, false)
    } else {
        failed(if manual { seq![unknown_error()] } else { seq![] }, false)
    }
}

/// Reads a reply to loading a game (see `game_load_reply`).
pub fn read_game_load_reply(r: FetchReply, manual: bool) -> (o: ReplyOutcome)
    ensures
        o@ == game_load_reply(r.status, body_view(r), manual),
{
    if r.status == 200 {
        match r.body {
            Some(b) => ReplyOutcome { success: true, body: Some(b), notices: none(), log_out: false },
            None => fail(one(notice("Server neposlal žádnou odpověď", Status::Warning)), false),
        }
    } else if r.status == 400 {
        match r.body {
            Some(b) => fail(one(Notice { text: b, status: Status::Danger }), false),
            None => if manual {
                fail(one(notice("Server neposlal žádnou chybovou hlášku.", Status::Warning)), false)
            } else {
                fail(none(), false)
            },
        }
    } else if r.status == 500 {
        if manual {
            fail(one(notice("Nastala chyba serveru", Status::Warning)), false)
        } else {
            fail(none(), false)
        }
    } else {
        if manual {
            fail(one(notice("Nastala neimplementovaná chyba", Status::Warning)), false)
        } else {
            fail(none(), false)
        }
    }
}

/// A reply to loading the invitations: as `load_reply`, but 401 counts as a
/// refusal too and logs the user out.
pub open spec fn invites_load_reply(status: u16, body: Option<Seq<char>>) -> ReplyView {
    if status == 200 {
        match body {
            Some(b) => succeeded(Some(b), seq![]),
            None => failed(seq![no_answer()], false),
        }
    } else if status == 400 || status == 401 {
        failed(seq![refusal_notice(body)], status == 401)
    } else if status == 500 {
        failed(seq![server_error()], false)
    } else {
        failed(seq![unknown_error()], false)
    }
}

/// Reads a reply to loading the invitations (see `invites_load_reply`).
pub fn read_invites_load_reply(r: FetchReply) -> (o: ReplyOutcome)
    ensures
        o@ == invites_load_reply(r.status, body_view(r)),
{
    if r.status == 200 {
        match r.body {
            Some(b) => ReplyOutcome { success: true, body: Some(b), notices: none(), log_out: false },
            None => fail(one(notice("Server neposlal žádnou odpověď", Status::Warning)), false),
        }
    } else if r.status == 400 || r.status == 401 {
        let log_out = r.status == 401;
        fail(one(refusal(r.body)), log_out)
    } else if r.status == 500 {
        fail(one(notice("Nastala chyba serveru", Status::Warning)), false)
    } else {
        fail(one(notice("Nastala neimplementovaná chyba", Status::Warning)), false)
    }
}

/// A reply to answering an invitation: success on 200; 400 and 401 are
/// refusals, 401 logs the user out.
pub open spec fn invite_answer_reply(status: u16, body: Option<Seq<char>>) -> ReplyView {
    if status == 200 {
        succeeded(None, seq![])
    } else if status == 400 || status == 401 {
        failed(seq![refusal_notice(body)], status == 401)
    } else if status == 500 {
        failed(seq![server_error()], false)
    } else {
        failed(seq![unknown_error()], false)
    }
}

/// Reads a reply to answering an invitation (see `invite_answer_reply`).
pub fn read_invite_answer_reply(r: FetchReply) -> (o: ReplyOutcome)
    ensures
        o@ == invite_answer_reply(r.status, body_view(r)),
{
    if r.status == 200 {
        ReplyOutcome { success: true, body: None, notices: none(), log_out: false }
    } else if r.status == 400 || r.status == 401 {
        let log_out = r.status == 401;
        fail(one(refusal(r.body)), log_out)
    } else if r.status == 500 {
        fail(one(notice("Nastala chyba serveru", Status::Warning)), false)
    } else {
        fail(one(notice("Nastala neimplementovaná chyba", Status::Warning)), false)
    }
}

/// A reply to a move: success on 200; 400 and 401 are refusals, and a 401
/// saying "User not logged in" logs the user out.
pub open spec fn play_reply(status: u16, body: Option<Seq<char>>) -> ReplyView {
    if status == 200 {
        succeeded(None, seq![])
    } else if status == 400 || status == 401 {
        failed(
            seq![refusal_notice(body)],
            status == 401 && body == Some("User not logged in"@),
        )
    } else if status == 500 {
        failed(seq![server_error()], false)
    } else {
        failed(seq![unknown_error()], false)
    }
}

/// Reads a reply to a move (see `play_reply`).
pub fn read_play_reply(r: FetchReply) -> (o: ReplyOutcome)
    ensures
        o@ == play_reply(r.status, body_view(r)),
{
    if r.status == 200 {
        ReplyOutcome { success: true, body: None, notices: none(), log_out: false }
    } else if r.status == 400 || r.status == 401 {
        let log_out = match &r.body {
            Some(b) => {
                let expected = "User not logged in".to_owned();
                r.status == 401 && b.eq(&expected)
            },
            None => false,
        };
        fail(one(refusal(r.body)), log_out)
    } else if r.status == 500 {
        fail(one(notice("Nastala chyba serveru", Status::Warning)), false)
    } else {
        fail(one(notice("Nastala neimplementovaná chyba", Status::Warning)), false)
    }
}

} // verus!
