//! The client's forms: registering, changing a profile, logging in and
//! inviting to a game; what each input does to a form, what a submit decides,
//! and how the replies are read.
use vstd::prelude::*;
use crate::notice::{
    FetchReply, Notice, NoticeView, ReplyOutcome, ReplyView, Status, body_view, failed, no_answer,
    no_message, notice, notice_view, notices_view, refusal_notice, server_error, succeeded,
    unknown_error,
};
use crate::pattern::{
    PatternError, match_verdict, matches_pattern, DESCRIPTION_PATTERN, EMAIL_PATTERN,
    GAME_NAME_PATTERN, GENDER_PATTERN, NICK_PATTERN, PASSWORD_PATTERN,
};
use crate::session::Role;
use vstd::string::StringSliceAdditionalSpecFns;

verus! {

/// Whether a text is valid for `pattern`, as the regular expression engine
/// answers; `None` where it fails.
pub open spec fn text_valid(pattern: Seq<char>, text: Seq<char>) -> Option<bool> {
    match_verdict(pattern, text)
}

/// Sets a text field and its validity; whether the validity changed (and so
/// the form is drawn again).
fn set_checked(pattern: &str, field: &mut String, valid: &mut bool, new: String) -> (r: Result<bool, PatternError>)
    ensures
        *final(field) == new,
        match r {
            Ok(render) => text_valid(pattern@, new@) == Some(*final(valid)) && render == (*old(valid) != *final(valid)),
            Err(_) => text_valid(pattern@, new@) is None && *final(valid) == *old(valid),
        },
{
    *field = new;
    let now = matches_pattern(pattern, field.as_str())?;
    let render = *valid != now;
    *valid = now;
    Ok(render)
}

/// The fields of a profile as a user fills them in, each with whether it is
/// valid.
pub struct ProfileFields {
    pub email: String,
    pub email_valid: bool,
    pub password: String,
    pub password_valid: bool,
    pub password_again: String,
    pub password_again_valid: bool,
    pub nick: String,
    pub nick_valid: bool,
    pub description: String,
    pub description_valid: bool,
    pub gender: String,
    pub gender_valid: bool,
}

/// Whether the repeated password counts valid exactly when it equals the
/// password: so it is after `new` and after `set_password_again`, and the other
/// setters but `set_password` keep it; a new password is followed by
/// `set_password_again` with the repeated password as it stands.
pub open spec fn passwords_agree(f: ProfileFields) -> bool {
    f.password_again_valid == (f.password@ == f.password_again@)
}

impl ProfileFields {
    /// Empty fields, all counted valid.
    pub fn new() -> (r: ProfileFields)
        ensures
            r.email@.len() == 0 && r.password@.len() == 0 && r.password_again@.len() == 0,
            r.nick@.len() == 0 && r.description@.len() == 0 && r.gender@.len() == 0,
            r.email_valid && r.password_valid && r.password_again_valid,
            r.nick_valid && r.description_valid && r.gender_valid,
            passwords_agree(r),
    {
        ProfileFields {
            email: String::new(),
            email_valid: true,
            password: String::new(),
            password_valid: true,
            password_again: String::new(),
            password_again_valid: true,
            nick: String::new(),
            nick_valid: true,
            description: String::new(),
            description_valid: true,
            gender: String::new(),
            gender_valid: true,
        }
    }

    /// A new e-mail; whether the form is drawn again.
    pub fn set_email(&mut self, new: String) -> (r: Result<bool, PatternError>)
        ensures
            *final(self) == (ProfileFields { email: new, email_valid: final(self).email_valid, ..*old(self) }),
            passwords_agree(*old(self)) ==> passwords_agree(*final(self)),
            match r {
                Ok(render) => text_valid(EMAIL_PATTERN@, new@) == Some(final(self).email_valid)
                    && render == (old(self).email_valid != final(self).email_valid),
                Err(_) => text_valid(EMAIL_PATTERN@, new@) is None,
            },
    {
        set_checked(EMAIL_PATTERN, &mut self.email, &mut self.email_valid, new)
    }

    /// A new password; whether the form is drawn again. The repeated
    /// password is to be checked anew after it, by `set_password_again` with
    /// the repeated password as it stands.
    pub fn set_password(&mut self, new: String) -> (r: Result<bool, PatternError>)
        ensures
            *final(self) == (ProfileFields { password: new, password_valid: final(self).password_valid, ..*old(self) }),
            match r {
                Ok(render) => text_valid(PASSWORD_PATTERN@, new@) == Some(final(self).password_valid)
                    && render == (old(self).password_valid != final(self).password_valid),
                Err(_) => text_valid(PASSWORD_PATTERN@, new@) is None,
            },
    {
        set_checked(PASSWORD_PATTERN, &mut self.password, &mut self.password_valid, new)
    }

    /// A new nick; whether the form is drawn again.
    pub fn set_nick(&mut self, new: String) -> (r: Result<bool, PatternError>)
        ensures
            *final(self) == (ProfileFields { nick: new, nick_valid: final(self).nick_valid, ..*old(self) }),
            passwords_agree(*old(self)) ==> passwords_agree(*final(self)),
            match r {
                Ok(render) => text_valid(NICK_PATTERN@, new@) == Some(final(self).nick_valid)
                    && render == (old(self).nick_valid != final(self).nick_valid),
                Err(_) => text_valid(NICK_PATTERN@, new@) is None,
            },
    {
        set_checked(NICK_PATTERN, &mut self.nick, &mut self.nick_valid, new)
    }

    /// A new gender; whether the form is drawn again.
    pub fn set_gender(&mut self, new: String) -> (r: Result<bool, PatternError>)
        ensures
            *final(self) == (ProfileFields { gender: new, gender_valid: final(self).gender_valid, ..*old(self) }),
            passwords_agree(*old(self)) ==> passwords_agree(*final(self)),
            match r {
                Ok(render) => text_valid(GENDER_PATTERN@, new@) == Some(final(self).gender_valid)
                    && render == (old(self).gender_valid != final(self).gender_valid),
                Err(_) => text_valid(GENDER_PATTERN@, new@) is None,
            },
    {
        set_checked(GENDER_PATTERN, &mut self.gender, &mut self.gender_valid, new)
    }

    /// A new description; whether the form is drawn again.
    pub fn set_description(&mut self, new: String) -> (r: Result<bool, PatternError>)
        ensures
            *final(self) == (ProfileFields { description: new, description_valid: final(self).description_valid, ..*old(self) }),
            passwords_agree(*old(self)) ==> passwords_agree(*final(self)),
            match r {
                Ok(render) => text_valid(DESCRIPTION_PATTERN@, new@) == Some(final(self).description_valid)
                    && render == (old(self).description_valid != final(self).description_valid),
                Err(_) => text_valid(DESCRIPTION_PATTERN@, new@) is None,
            },
    {
        set_checked(DESCRIPTION_PATTERN, &mut self.description, &mut self.description_valid, new)
    }

    /// A new repetition of the password: valid when it equals the password;
    /// whether the form is drawn again.
    pub fn set_password_again(&mut self, new: String) -> (render: bool)
        ensures
            *final(self) == (ProfileFields {
                password_again: new,
                password_again_valid: final(self).password_again_valid,
                ..*old(self)
            }),
            final(self).password_again_valid == (old(self).password@ == new@),
            passwords_agree(*final(self)),
            render == (old(self).password_again_valid != final(self).password_again_valid),
    {
        self.password_again = new;
        let now = self.password.eq(&self.password_again);
        let render = self.password_again_valid != now;
        self.password_again_valid = now;
        render
    }
}

/// What a submit decides: send, or show why not.
#[derive(Clone, Copy, Debug, PartialEq, Eq, Structural)]
pub enum SubmitCheck {
    Send,
    EmailInvalid,
    PasswordWeak,
    PasswordsDiffer,
    FieldsMissing,
    NickInvalid,
    GenderInvalid,
    DescriptionInvalid,
    NameInvalid,
}

/// The text of the notice that says why a form is not sent.
pub open spec fn submit_text(c: SubmitCheck) -> Seq<char> {
    match c {
        SubmitCheck::EmailInvalid => "Email není validní!"@,
        SubmitCheck::PasswordWeak => "Heslo musí obsahovat:<br>2 malá písmena<br>2 velká písmena<br>2 číslice<br>2 speciální znaky"@,
        SubmitCheck::PasswordsDiffer => "Hesla se neschodují!"@,
        SubmitCheck::FieldsMissing => "Všechna pole musí být vyplněma."@,
        SubmitCheck::NickInvalid => "Nick není validní!"@,
        SubmitCheck::GenderInvalid => "Pohláví není validní!"@,
        SubmitCheck::DescriptionInvalid => "Popis není validní!"@,
        SubmitCheck::NameInvalid => "Jméno není validní!"@,
        SubmitCheck::Send => ""@,
    }
}

impl SubmitCheck {
    /// The notice that says why a form is not sent; none where it is sent.
    pub fn notice(&self) -> (r: Option<Notice>)
        ensures
            r is None <==> *self == SubmitCheck::Send,
            r matches Some(n) ==> notice_view(n) == (submit_text(*self), Status::Danger),
    {
        match self {
            SubmitCheck::Send => None,
            SubmitCheck::EmailInvalid => Some(notice("Email není validní!", Status::Danger)),
            SubmitCheck::PasswordWeak => Some(notice("Heslo musí obsahovat:<br>2 malá písmena<br>2 velká písmena<br>2 číslice<br>2 speciální znaky", Status::Danger)),
            SubmitCheck::PasswordsDiffer => Some(notice("Hesla se neschodují!", Status::Danger)),
            SubmitCheck::FieldsMissing => Some(notice("Všechna pole musí být vyplněma.", Status::Danger)),
            SubmitCheck::NickInvalid => Some(notice("Nick není validní!", Status::Danger)),
            SubmitCheck::GenderInvalid => Some(notice("Pohláví není validní!", Status::Danger)),
            SubmitCheck::DescriptionInvalid => Some(notice("Popis není validní!", Status::Danger)),
            SubmitCheck::NameInvalid => Some(notice("Jméno není validní!", Status::Danger)),
        }
    }
}

/// Whether a request is under way, and what starting another one gives.
pub struct Sending {
    pub busy: bool,
}

impl Sending {
    /// Starts a request where none is under way: then `started` is shown
    /// (primary) and the request counts as under way; otherwise `still` is shown
    /// (warning) and no request starts. Whether one starts.
    pub fn begin(&mut self, started: &str, still: &str) -> (r: (bool, Notice))
        ensures
            r.0 == !old(self).busy,
            final(self).busy,
            r.0 ==> notice_view(r.1) == (started@, Status::Primary),
            !r.0 ==> notice_view(r.1) == (still@, Status::Warning),
    {
        if self.busy {
            (false, notice(still, Status::Warning))
        } else {
            self.busy = true;
            (true, notice(started, Status::Primary))
        }
    }

    /// Starts loading a game where no load is under way; a notice only where
    /// the load was asked for (`manual`), none where the game reloads by itself or
    /// a load is under way. Whether one starts.
    pub fn begin_game_load(&mut self, manual: bool) -> (r: (bool, Option<Notice>))
        ensures
            r.0 == !old(self).busy,
            final(self).busy,
            (r.0 && manual) ==> (r.1 matches Some(n) && notice_view(n) == ("Načítám hru"@, Status::Primary)),
            !(r.0 && manual) ==> r.1 is None,
    {
        if self.busy {
            (false, None)
        } else {
            self.busy = true;
            if manual {
                (true, Some(notice("Načítám hru", Status::Primary)))
            } else {
                (true, None)
            }
        }
    }

    /// The request under way has ended.
    pub fn end(&mut self)
        ensures
            !final(self).busy,
    {
        self.busy = false;
    }
}

// ----- registering -----

/// Whether a registration form is sent: the e-mail, the password and its
/// repetition are checked first, then that every field is filled in, then the
/// nick, the gender and the description.
pub open spec fn register_check(f: ProfileFields) -> SubmitCheck {
    if !f.email_valid {
        SubmitCheck::EmailInvalid
    } else if !f.password_valid {
        SubmitCheck::PasswordWeak
    } else if !f.password_again_valid {
        SubmitCheck::PasswordsDiffer
    } else if f.nick@.len() == 0 || f.email@.len() == 0 || f.password@.len() == 0 || f.gender@.len() == 0
        || f.password_again@.len() == 0 || f.description@.len() == 0 {
        SubmitCheck::FieldsMissing
    } else if !f.nick_valid {
        SubmitCheck::NickInvalid
    } else if !f.gender_valid {
        SubmitCheck::GenderInvalid
    } else if !f.description_valid {
        SubmitCheck::DescriptionInvalid
    } else {
        SubmitCheck::Send
    }
}

/// Decides a submit of the registration form (see `register_check`).
pub fn check_register_submit(f: &ProfileFields) -> (r: SubmitCheck)
    ensures
        r == register_check(*f),
{
    if !f.email_valid {
        SubmitCheck::EmailInvalid
    } else if !f.password_valid {
        SubmitCheck::PasswordWeak
    } else if !f.password_again_valid {
        SubmitCheck::PasswordsDiffer
    } else if f.nick.as_str().is_empty() || f.email.as_str().is_empty() || f.password.as_str().is_empty()
        || f.gender.as_str().is_empty() || f.password_again.as_str().is_empty()
        || f.description.as_str().is_empty() {
        SubmitCheck::FieldsMissing
    } else if !f.nick_valid {
        SubmitCheck::NickInvalid
    } else if !f.gender_valid {
        SubmitCheck::GenderInvalid
    } else if !f.description_valid {
        SubmitCheck::DescriptionInvalid
    } else {
        SubmitCheck::Send
    }
}

fn one(n: Notice) -> (r: Vec<Notice>)
    ensures
        notices_view(r@) == seq![notice_view(n)],
{
    let mut v: Vec<Notice> = Vec::new();
    v.push(n);
    assert(notices_view(v@) =~= seq![notice_view(n)]);
    v
}

fn none() -> (r: Vec<Notice>)
    ensures
        notices_view(r@) == Seq::<NoticeView>::empty(),
{
    let v: Vec<Notice> = Vec::new();
    assert(notices_view(v@) =~= Seq::<NoticeView>::empty());
    v
}

fn two(a: Notice, b: Notice) -> (r: Vec<Notice>)
    ensures
        notices_view(r@) == seq![notice_view(a), notice_view(b)],
{
    let mut v: Vec<Notice> = Vec::new();
    v.push(a);
    v.push(b);
    assert(notices_view(v@) =~= seq![notice_view(a), notice_view(b)]);
    v
}

fn refusal(body: Option<String>) -> (r: Notice)
    ensures
        notice_view(r) == refusal_notice(match body {
            Some(b) => Some(b@),
            None => None,
        }),
{
    match body {
        Some(b) => Notice { text: b, status: Status::Danger },
        None => notice("Server neposlal žádnou chybovou hlášku.", Status::Warning),
    }
}

fn fail(notices: Vec<Notice>, log_out: bool) -> (r: ReplyOutcome)
    ensures
        r@ == failed(notices_view(notices@), log_out),
{
    ReplyOutcome { success: false, body: None, notices, log_out }
}

fn succeed(notices: Vec<Notice>) -> (r: ReplyOutcome)
    ensures
        r@ == succeeded(None, notices_view(notices@)),
{
    ReplyOutcome { success: true, body: None, notices, log_out: false }
}

/// A reply to a registration: success with a notice on 200; a refusal with the
/// server's text on 400 (where there is none, a warning and that the registration
/// failed); an e-mail in use on 409.
pub open spec fn register_reply(status: u16, body: Option<Seq<char>>) -> ReplyView {
    let failed_notice = ("Registrace selhala"@, Status::Danger);
    if status == 200 {
        succeeded(None, seq![("Registrace byla úspěšná"@, Status::Success)])
    } else if status == 400 {
        match body {
            Some(b) => failed(seq![(b, Status::Danger)], false),
            None => failed(seq![no_message(), failed_notice], false),
        }
    } else if status == 409 {
        failed(seq![("Email je již používán."@, Status::Warning)], false)
    } else if status == 500 {
        failed(seq![server_error()], false)
    } else {
        failed(seq![unknown_error(), failed_notice], false)
    }
}

/// Reads a reply to a registration (see `register_reply`).
pub fn read_register_reply(r: FetchReply) -> (o: ReplyOutcome)
    ensures
        o@ == register_reply(r.status, body_view(r)),
{
    if r.status == 200 {
        succeed(one(notice("Registrace byla úspěšná", Status::Success)))
    } else if r.status == 400 {
        match r.body {
            Some(b) => fail(one(Notice { text: b, status: Status::Danger }), false),
            None => fail(
                two(
                    notice("Server neposlal žádnou chybovou hlášku.", Status::Warning),
                    notice("Registrace selhala", Status::Danger),
                ),
                false,
            ),
        }
    } else if r.status == 409 {
        fail(one(notice("Email je již používán.", Status::Warning)), false)
    } else if r.status == 500 {
        fail(one(notice("Nastala chyba serveru", Status::Warning)), false)
    } else {
        fail(
            two(
                notice("Nastala neimplementovaná chyba", Status::Warning),
                notice("Registrace selhala", Status::Danger),
            ),
            false,
        )
    }
}

// ----- changing a profile -----

/// The form for changing a profile.
pub struct EditForm {
    pub fields: ProfileFields,
    pub roles: Vec<Role>,
    pub use_admin: bool,
}

impl EditForm {
    /// Empty fields, no roles, without administrator rights.
    pub fn new() -> (r: EditForm)
        ensures
            r.fields.email@.len() == 0 && r.fields.password@.len() == 0 && r.fields.password_again@.len() == 0,
            r.fields.nick@.len() == 0 && r.fields.description@.len() == 0 && r.fields.gender@.len() == 0,
            r.fields.email_valid && r.fields.password_valid && r.fields.password_again_valid,
            r.fields.nick_valid && r.fields.description_valid && r.fields.gender_valid,
            passwords_agree(r.fields),
            r.roles@.len() == 0,
            !r.use_admin,
    {
        EditForm { fields: ProfileFields::new(), roles: Vec::new(), use_admin: false }
    }

    /// Ticks or unticks a role: a role that is chosen is dropped (its first
    /// occurrence), one that is not is added at the end. The form is always
    /// drawn again.
    pub fn toggle_role(&mut self, role: Role) -> (render: bool)
        ensures
            render,
            final(self).roles@ == toggled_roles(old(self).roles@, role),
            final(self).use_admin == old(self).use_admin,
            final(self).fields == old(self).fields,
    {
        let mut i: usize = 0;
        while i < self.roles.len()
            invariant
                i <= self.roles.len(),
                self.roles@ == old(self).roles@,
                self.use_admin == old(self).use_admin,
                self.fields == old(self).fields,
                forall|j: int| 0 <= j < i ==> self.roles@[j] != role,
            decreases self.roles.len() - i,
        {
            if self.roles[i] == role {
                proof {
                    let k = first_role_index(self.roles@, role);
                    assert(self.roles@[i as int] == role);
                    assert(0 <= k < self.roles@.len() && self.roles@[k] == role);
                    if k < i {
                        assert(self.roles@[k] != role);
                    }
                    if k > i {
                        assert(forall|j: int| 0 <= j < k ==> self.roles@[j] != role);
                        assert(self.roles@[i as int] != role);
                    }
                }
                self.roles.remove(i);
                return true;
            }
            i = i + 1;
        }
        self.roles.push(role);
        true
    }

    /// Switches the use of administrator rights; the form is always drawn
    /// again.
    pub fn toggle_admin(&mut self) -> (render: bool)
        ensures
            render,
            final(self).use_admin == !old(self).use_admin,
            final(self).roles == old(self).roles,
            final(self).fields == old(self).fields,
    {
        self.use_admin = !self.use_admin;
        true
    }
}

/// The roles after `role` is ticked or unticked: its first occurrence
/// dropped where it is chosen, else added at the end.
pub open spec fn toggled_roles(roles: Seq<Role>, role: Role) -> Seq<Role> {
    if roles.contains(role) {
        roles.remove(first_role_index(roles, role))
    } else {
        roles.push(role)
    }
}

proof fn lemma_first_role_index(roles: Seq<Role>, role: Role, i: int)
    requires
        roles.no_duplicates(),
        0 <= i < roles.len(),
        roles[i] == role,
    ensures
        first_role_index(roles, role) == i,
{
    assert(forall|j: int| 0 <= j < i ==> roles[j] != role);
    let k = first_role_index(roles, role);
    assert(0 <= k < roles.len() && roles[k] == role);
}

/// Ticking a role twice gives back the chosen roles. Where no role is chosen
/// twice, a toggle flips whether `role` is chosen, keeps every other choice and
/// chooses no role twice; a second toggle of the same role restores the set of
/// chosen roles, and where `role` was not chosen, the very same list.
pub proof fn law_toggle_role_twice(roles: Seq<Role>, role: Role)
    requires
        roles.no_duplicates(),
    ensures
        toggled_roles(roles, role).no_duplicates(),
        toggled_roles(roles, role).contains(role) == !roles.contains(role),
        forall|r: Role| r != role ==> toggled_roles(roles, role).contains(r) == roles.contains(r),
        toggled_roles(toggled_roles(roles, role), role).to_set() == roles.to_set(),
        !roles.contains(role) ==> toggled_roles(toggled_roles(roles, role), role) == roles,
{
    let t = toggled_roles(roles, role);
    if roles.contains(role) {
        let i = choose|i: int| 0 <= i < roles.len() && roles[i] == role;
        lemma_first_role_index(roles, role, i);
        assert(t == roles.remove(i));
        assert(forall|j: int| 0 <= j < t.len() ==> t[j] == roles[if j < i { j } else { j + 1 }]);
        assert(t.no_duplicates()) by {
            assert forall|a: int, b: int| 0 <= a < t.len() && 0 <= b < t.len() && a != b implies t[a] != t[b] by {
                assert(t[a] == roles[if a < i { a } else { a + 1 }]);
                assert(t[b] == roles[if b < i { b } else { b + 1 }]);
            }
        }
        assert(!t.contains(role)) by {
            if t.contains(role) {
                let j = choose|j: int| 0 <= j < t.len() && t[j] == role;
                assert(t[j] == roles[if j < i { j } else { j + 1 }]);
            }
        }
        assert forall|r: Role| r != role implies t.contains(r) == roles.contains(r) by {
            if roles.contains(r) {
                let j = choose|j: int| 0 <= j < roles.len() && roles[j] == r;
                assert(j != i);
                let jj = if j < i { j } else { j - 1 };
                assert(t[jj] == r);
            }
            if t.contains(r) {
                let j = choose|j: int| 0 <= j < t.len() && t[j] == r;
                assert(t[j] == roles[if j < i { j } else { j + 1 }]);
            }
        }
        let u = toggled_roles(t, role);
        assert(u == t.push(role));
        assert(u.to_set() =~= roles.to_set()) by {
            assert forall|r: Role| u.to_set().contains(r) == roles.to_set().contains(r) by {
                if r == role {
                    assert(u[t.len() as int] == role);
                } else {
                    if u.contains(r) {
                        let j = choose|j: int| 0 <= j < u.len() && u[j] == r;
                        assert(j < t.len());
                        assert(t[j] == r);
                    }
                    if t.contains(r) {
                        let j = choose|j: int| 0 <= j < t.len() && t[j] == r;
                        assert(u[j] == r);
                    }
                }
            }
        }
    } else {
        assert(t == roles.push(role));
        assert(t.no_duplicates()) by {
            assert forall|a: int, b: int| 0 <= a < t.len() && 0 <= b < t.len() && a != b implies t[a] != t[b] by {
                if a == roles.len() {
                    assert(t[b] == roles[b]);
                } else if b == roles.len() {
                    assert(t[a] == roles[a]);
                } else {
                    assert(t[a] == roles[a] && t[b] == roles[b]);
                }
            }
        }
        assert(t[roles.len() as int] == role);
        assert forall|r: Role| r != role implies t.contains(r) == roles.contains(r) by {
            if roles.contains(r) {
                let j = choose|j: int| 0 <= j < roles.len() && roles[j] == r;
                assert(t[j] == r);
            }
            if t.contains(r) {
                let j = choose|j: int| 0 <= j < t.len() && t[j] == r;
                assert(roles[j] == r);
            }
        }
        lemma_first_role_index(t, role, roles.len() as int);
        assert(toggled_roles(t, role) =~= roles);
    }
}

/// The first index at which `role` occurs in `roles`.
pub open spec fn first_role_index(roles: Seq<Role>, role: Role) -> int {
    choose|i: int| 0 <= i < roles.len() && roles[i] == role && forall|j: int| 0 <= j < i ==> roles[j] != role
}

/// Whether a changed profile is sent: differing passwords never; with
/// administrator rights always otherwise; else the e-mail, the password, the
/// nick, the gender and the description must be valid, in this order.
pub open spec fn edit_check(f: EditForm) -> SubmitCheck {
    if !f.fields.password_again_valid {
        SubmitCheck::PasswordsDiffer
    } else if f.use_admin {
        SubmitCheck::Send
    } else if !f.fields.email_valid {
        SubmitCheck::EmailInvalid
    } else if !f.fields.password_valid {
        SubmitCheck::PasswordWeak
    } else if !f.fields.nick_valid {
        SubmitCheck::NickInvalid
    } else if !f.fields.gender_valid {
        SubmitCheck::GenderInvalid
    } else if !f.fields.description_valid {
        SubmitCheck::DescriptionInvalid
    } else {
        SubmitCheck::Send
    }
}

/// Decides a submit of a changed profile (see `edit_check`).
pub fn check_edit_submit(f: &EditForm) -> (r: SubmitCheck)
    ensures
        r == edit_check(*f),
{
    if !f.fields.password_again_valid {
        SubmitCheck::PasswordsDiffer
    } else if f.use_admin {
        SubmitCheck::Send
    } else if !f.fields.email_valid {
        SubmitCheck::EmailInvalid
    } else if !f.fields.password_valid {
        SubmitCheck::PasswordWeak
    } else if !f.fields.nick_valid {
        SubmitCheck::NickInvalid
    } else if !f.fields.gender_valid {
        SubmitCheck::GenderInvalid
    } else if !f.fields.description_valid {
        SubmitCheck::DescriptionInvalid
    } else {
        SubmitCheck::Send
    }
}

/// A field as it is sent: an empty one is left out (and stays as it was).
pub fn field_to_send(s: &String) -> (r: Option<String>)
    ensures
        s@.len() == 0 ==> r is None,
        s@.len() != 0 ==> (r matches Some(t) && t@ == s@),
{
    if s.as_str().is_empty() {
        None
    } else {
        Some(s.clone())
    }
}

/// Whether the change goes to the administrators' address: with administrator
/// rights, or where a logged-in user changes someone else.
pub fn edit_as_admin(use_admin: bool, me: Option<u128>, user_id: u128) -> (r: bool)
    ensures
        r == (use_admin || (me matches Some(m) && m != user_id)),
{
    use_admin || match me {
        Some(m) => m != user_id,
        None => false,
    }
}

/// What the one who looks at a profile form may do: whether they are an
/// administrator, whether the form is open to them (their own profile, or they
/// are an administrator), and whether it is their own.
pub fn edit_access(me: Option<u128>, me_admin: bool, user_id: u128) -> (r: (bool, bool, bool))
    ensures
        r == (match me {
            Some(m) => (me_admin, m == user_id || me_admin, m == user_id),
            None => (false, false, false),
        }),
{
    match me {
        Some(m) => (me_admin, m == user_id || me_admin, m == user_id),
        None => (false, false, false),
    }
}

/// A reply to a change of a profile: 409 is an e-mail in use; 410 a user who
/// does not exist, which logs the user out where they changed themself.
pub open spec fn edit_reply(status: u16, body: Option<Seq<char>>, editing_self: bool) -> ReplyView {
    if status == 200 {
        succeeded(None, seq![])
    } else if status == 400 {
        failed(seq![refusal_notice(body)], false)
    } else if status == 409 {
        failed(seq![("Email je již používán"@, Status::Warning)], false)
    } else if status == 410 {
        failed(seq![("Uživatel neexistuje"@, Status::Warning)], editing_self)
    } else if status == 500 {
        failed(seq![server_error()], false)
    } else {
        failed(seq![unknown_error()], false)
    }
}

/// Reads a reply to a change of a profile (see `edit_reply`).
pub fn read_edit_reply(r: FetchReply, editing_self: bool) -> (o: ReplyOutcome)
    ensures
        o@ == edit_reply(r.status, body_view(r), editing_self),
{
    if r.status == 200 {
        succeed(none())
    } else if r.status == 400 {
        fail(one(refusal(r.body)), false)
    } else if r.status == 409 {
        fail(one(notice("Email je již používán", Status::Warning)), false)
    } else if r.status == 410 {
        fail(one(notice("Uživatel neexistuje", Status::Warning)), editing_self)
    } else if r.status == 500 {
        fail(one(notice("Nastala chyba serveru", Status::Warning)), false)
    } else {
        fail(one(notice("Nastala neimplementovaná chyba", Status::Warning)), false)
    }
}

// ----- logging in -----

/// The login form.
pub struct LoginForm {
    pub email: String,
    pub email_valid: bool,
    pub password: String,
}

impl LoginForm {
    /// Empty fields, counted valid.
    pub fn new() -> (r: LoginForm)
        ensures
            r.email@.len() == 0 && r.password@.len() == 0 && r.email_valid,
    {
        LoginForm { email: String::new(), email_valid: true, password: String::new() }
    }

    /// A new e-mail; whether the form is drawn again.
    pub fn set_email(&mut self, new: String) -> (r: Result<bool, PatternError>)
        ensures
            *final(self) == (LoginForm { email: new, email_valid: final(self).email_valid, ..*old(self) }),
            match r {
                Ok(render) => text_valid(EMAIL_PATTERN@, new@) == Some(final(self).email_valid)
                    && render == (old(self).email_valid != final(self).email_valid),
                Err(_) => text_valid(EMAIL_PATTERN@, new@) is None,
            },
    {
        set_checked(EMAIL_PATTERN, &mut self.email, &mut self.email_valid, new)
    }
}

/// Whether the login form is sent: a valid e-mail, then both fields filled in.
pub open spec fn login_check(f: LoginForm) -> SubmitCheck {
    if !f.email_valid {
        SubmitCheck::EmailInvalid
    } else if f.password@.len() == 0 || f.email@.len() == 0 {
        SubmitCheck::FieldsMissing
    } else {
        SubmitCheck::Send
    }
}

/// Decides a submit of the login form (see `login_check`).
pub fn check_login_submit(f: &LoginForm) -> (r: SubmitCheck)
    ensures
        r == login_check(*f),
{
    if !f.email_valid {
        SubmitCheck::EmailInvalid
    } else if f.password.as_str().is_empty() || f.email.as_str().is_empty() {
        SubmitCheck::FieldsMissing
    } else {
        SubmitCheck::Send
    }
}

/// A reply to a login: on 200 the body (the user) with a notice; where a reply
/// carries no text, a warning and that the login failed.
pub open spec fn login_reply(status: u16, body: Option<Seq<char>>) -> ReplyView {
    let failed_notice = ("Přihlášení selhalo"@, Status::Danger);
    if status == 200 {
        match body {
            Some(b) => succeeded(Some(b), seq![("Přihlášení úspěšné"@, Status::Success)]),
            None => failed(seq![no_answer(), failed_notice], false),
        }
    } else if status == 400 {
        match body {
            Some(b) => failed(seq![(b, Status::Danger)], false),
            None => failed(seq![no_message(), failed_notice], false),
        }
    } else if status == 500 {
        failed(seq![server_error()], false)
    } else {
        failed(seq![unknown_error(), failed_notice], false)
    }
}

/// Reads a reply to a login (see `login_reply`).
pub fn read_login_reply(r: FetchReply) -> (o: ReplyOutcome)
    ensures
        o@ == login_reply(r.status, body_view(r)),
{
    if r.status == 200 {
        match r.body {
            Some(b) => ReplyOutcome {
                success: true,
                body: Some(b),
                notices: one(notice("Přihlášení úspěšné", Status::Success)),
                log_out: false,
            },
            None => fail(
                two(
                    notice("Server neposlal žádnou odpověď", Status::Warning),
                    notice("Přihlášení selhalo", Status::Danger),
                ),
                false,
            ),
        }
    } else if r.status == 400 {
        match r.body {
            Some(b) => fail(one(Notice { text: b, status: Status::Danger }), false),
            None => fail(
                two(
                    notice("Server neposlal žádnou chybovou hlášku.", Status::Warning),
                    notice("Přihlášení selhalo", Status::Danger),
                ),
                false,
            ),
        }
    } else if r.status == 500 {
        fail(one(notice("Nastala chyba serveru", Status::Warning)), false)
    } else {
        fail(
            two(
                notice("Nastala neimplementovaná chyba", Status::Warning),
                notice("Přihlášení selhalo", Status::Danger),
            ),
            false,
        )
    }
}

// ----- inviting to a game -----

/// The form for a new game.
pub struct NewInviteForm {
    pub name: String,
    pub name_valid: bool,
    pub moves: u8,
    pub users: String,
}

/// The number of crofts in a row that a new game asks for unless changed.
pub const DEFAULT_MOVES: u8 = 5;

/// Whether the form asks for 3 to 8 crofts in a row: so it does in every
/// state that `new` and the setters reach.
pub open spec fn moves_in_range(f: NewInviteForm) -> bool {
    3 <= f.moves <= 8
}

impl NewInviteForm {
    /// An empty form asking for 5 crofts in a row.
    pub fn new() -> (r: NewInviteForm)
        ensures
            r.name@.len() == 0 && r.users@.len() == 0 && r.name_valid && r.moves == DEFAULT_MOVES,
            moves_in_range(r),
    {
        NewInviteForm { name: String::new(), name_valid: true, moves: DEFAULT_MOVES, users: String::new() }
    }

    /// A new name; whether the form is drawn again.
    pub fn set_name(&mut self, new: String) -> (r: Result<bool, PatternError>)
        ensures
            *final(self) == (NewInviteForm { name: new, name_valid: final(self).name_valid, ..*old(self) }),
            match r {
                Ok(render) => text_valid(GAME_NAME_PATTERN@, new@) == Some(final(self).name_valid)
                    && render == (old(self).name_valid != final(self).name_valid),
                Err(_) => text_valid(GAME_NAME_PATTERN@, new@) is None,
            },
    {
        set_checked(GAME_NAME_PATTERN, &mut self.name, &mut self.name_valid, new)
    }

    /// A new number of crofts in a row, as typed: taken where it reads as a
    /// number from 3 to 8, else ignored. The form is always drawn again.
    pub fn set_moves(&mut self, typed: &str) -> (render: bool)
        ensures
            render,
            final(self).moves == (match parse_u8(typed.spec_bytes()) {
                Some(v) => if 3 <= v <= 8 { v } else { old(self).moves },
                None => old(self).moves,
            }),
            *final(self) == (NewInviteForm { moves: final(self).moves, ..*old(self) }),
            moves_in_range(*old(self)) ==> moves_in_range(*final(self)),
    {
        match read_u8(typed) {
            Some(v) => {
                if v >= 3 && 8 >= v {
                    self.moves = v;
                }
            },
            None => {},
        }
        true
    }
}

/// Whether the new game form is sent: a valid name, then both the name and
/// the players filled in.
pub open spec fn new_invite_check(f: NewInviteForm) -> SubmitCheck {
    if !f.name_valid {
        SubmitCheck::NameInvalid
    } else if f.name@.len() == 0 || f.users@.len() == 0 {
        SubmitCheck::FieldsMissing
    } else {
        SubmitCheck::Send
    }
}

/// Decides a submit of the new game form (see `new_invite_check`).
pub fn check_new_invite_submit(f: &NewInviteForm) -> (r: SubmitCheck)
    ensures
        r == new_invite_check(*f),
{
    if !f.name_valid {
        SubmitCheck::NameInvalid
    } else if f.name.as_str().is_empty() || f.users.as_str().is_empty() {
        SubmitCheck::FieldsMissing
    } else {
        SubmitCheck::Send
    }
}

/// A reply to a new game: success with a notice on 200; 400 and 401 are
/// refusals (401 logs the user out); where a reply carries no text, a warning and
/// that creating the invitation failed.
pub open spec fn new_invite_reply(status: u16, body: Option<Seq<char>>) -> ReplyView {
    let failed_notice = ("Vytváření pozvánky selhalo"@, Status::Danger);
    if status == 200 {
        succeeded(None, seq![("Pozvánka vytvořena"@, Status::Success)])
    } else if status == 400 || status == 401 {
        match body {
            Some(b) => failed(seq![(b, Status::Danger)], status == 401),
            None => failed(seq![no_message(), failed_notice], status == 401),
        }
    } else if status == 500 {
        failed(seq![server_error()], false)
    } else {
        failed(seq![unknown_error(), failed_notice], false)
    }
}

/// Reads a reply to a new game (see `new_invite_reply`).
pub fn read_new_invite_reply(r: FetchReply) -> (o: ReplyOutcome)
    ensures
        o@ == new_invite_reply(r.status, body_view(r)),
{
    if r.status == 200 {
        succeed(one(notice("Pozvánka vytvořena", Status::Success)))
    } else if r.status == 400 || r.status == 401 {
        let log_out = r.status == 401;
        match r.body {
            Some(b) => fail(one(Notice { text: b, status: Status::Danger }), log_out),
            None => fail(
                two(
                    notice("Server neposlal žádnou chybovou hlášku.", Status::Warning),
                    notice("Vytváření pozvánky selhalo", Status::Danger),
                ),
                log_out,
            ),
        }
    } else if r.status == 500 {
        fail(one(notice("Nastala chyba serveru", Status::Warning)), false)
    } else {
        fail(
            two(
                notice("Nastala neimplementovaná chyba", Status::Warning),
                notice("Vytváření pozvánky selhalo", Status::Danger),
            ),
            false,
        )
    }
}

// ----- reading a number -----

/// The value of a sequence of decimal digits, as bytes.
pub open spec fn digits_value(s: Seq<u8>) -> int
    decreases s.len(),
{
    if s.len() == 0 {
        0
    } else {
        digits_value(s.drop_last()) * 10 + (s.last() - 48)
    }
}

/// Whether a byte is a decimal digit.
pub open spec fn is_digit(b: u8) -> bool {
    48 <= b <= 57
}

/// A byte as Rust reads it from text (whose bytes are `s`): an optional `+`,
/// then at least one decimal digit and nothing else, worth at most 255.
pub open spec fn parse_u8(s: Seq<u8>) -> Option<u8> {
    let d = without_plus(s);
    if d.len() > 0 && all_digits(d) && digits_value(d) <= 255 {
        Some(digits_value(d) as u8)
    } else {
        None
    }
}

/// `s` without a leading `+`.
pub open spec fn without_plus(s: Seq<u8>) -> Seq<u8> {
    if s.len() > 0 && s[0] == 43 {
        s.drop_first()
    } else {
        s
    }
}

/// Whether every byte of `d` is a decimal digit.
pub open spec fn all_digits(d: Seq<u8>) -> bool {
    forall|i: int| 0 <= i < d.len() ==> is_digit(#[trigger] d[i])
}

/// Once digits are worth more than 255, more digits keep them so.
proof fn lemma_digits_value_stays_large(s: Seq<u8>, k: int)
    requires
        0 <= k <= s.len(),
        forall|i: int| 0 <= i < s.len() ==> is_digit(#[trigger] s[i]),
        digits_value(s.take(k)) > 255,
    ensures
        digits_value(s) > 255,
    decreases s.len() - k,
{
    if k < s.len() {
        let t = s.take(k + 1);
        assert(t.drop_last() == s.take(k));
        assert(is_digit(t.last()));
        lemma_digits_value_stays_large(s, k + 1);
    } else {
        assert(s.take(k) == s);
    }
}

/// Reads a byte from text (see `parse_u8`).
pub fn read_u8(text: &str) -> (r: Option<u8>)
    ensures
        r == parse_u8(text.spec_bytes()),
{
    let b = text.as_bytes();
    let ghost s = b@;
    let n = b.len();
    let start: usize = if n > 0 && b[0] == 43 { 1 } else { 0 };
    let ghost d = without_plus(s);
    assert(d =~= s.subrange(start as int, n as int));
    if start == n {
        return None;
    }
    let mut value: u16 = 0;
    let mut i: usize = start;
    while i < n
        invariant
            start <= i <= n,
            n == s.len(),
            d == s.subrange(start as int, n as int),
            d == without_plus(s),
            s == text.spec_bytes(),
            b@ == s,
            value <= 255,
            forall|j: int| 0 <= j < i - start ==> is_digit(#[trigger] d[j]),
            digits_value(d.take(i - start)) == value,
        decreases n - i,
    {
        let c = b[i];
        assert(d[i - start] == c);
        if c < 48 || c > 57 {
            assert(!is_digit(d[i - start]));
            assert(!all_digits(d));
            return None;
        }
        let next = value * 10 + (c - 48) as u16;
        assert(d.take(i - start + 1).drop_last() == d.take(i - start));
        if next > 255 {
            proof {
                if all_digits(d) {
                    lemma_digits_value_stays_large(d, i - start + 1);
                }
            }
            return None;
        }
        value = next;
        i = i + 1;
    }
    assert(d.take(n - start) == d);
    Some(value as u8)
}

} // verus!
