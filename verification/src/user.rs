//! Registering, logging in and changing a user: the checks and the replies.
use vstd::prelude::*;
use crate::pattern::{valid_user_fields, user_fields_verdict, opt_view};
use crate::reply::DbFailure;
use crate::session::{Role, role_ids, role_number};

verus! {

/// What a new user sends.
pub struct RegisterData {
    pub nick: String,
    pub gender: String,
    pub email: String,
    pub password: String,
}

/// What a user sends to log in.
pub struct LoginData {
    pub email: String,
    pub password: String,
}

/// What a user sends to change their own account; absent fields stay.
pub struct UpdateData {
    pub nick: Option<String>,
    pub gender: Option<String>,
    pub email: Option<String>,
    pub password: Option<String>,
}

/// What an administrator sends to change any account; absent fields stay.
pub struct AdminUpdateData {
    pub id: u128,
    pub nick: Option<String>,
    pub gender: Option<String>,
    pub email: Option<String>,
    pub password: Option<String>,
    pub roles: Option<Vec<Role>>,
}

impl AdminUpdateData {
    /// The numbers by which the new roles are stored, if roles are sent.
    pub fn role_numbers(&self) -> (r: Option<Vec<i16>>)
        ensures
            match self.roles {
                Some(roles) => r matches Some(ids) && ids@.len() == roles@.len() && forall|i: int|
                    0 <= i < ids@.len() ==> ids@[i] == role_number(#[trigger] roles@[i]),
                None => r is None,
            },
    {
        match &self.roles {
            Some(roles) => Some(role_ids(roles)),
            None => None,
        }
    }
}

/// Why a request about a user is refused.
#[derive(Clone, Copy, Debug, PartialEq, Eq, Structural)]
pub enum UserRejection {
    /// A new user's fields do not match their patterns.
    InvalidRegistration,
    /// Changed fields do not match their patterns.
    InvalidUpdate,
    EmailInUse,
    EmailNotFound,
    InvalidPassword,
    UserGone,
    ServerError,
    /// The regular expression engine failed.
    PatternFailure,
}

/// The HTTP status code of the reply to a refused request.
pub open spec fn user_status(r: UserRejection) -> u16 {
    match r {
        UserRejection::EmailInUse => 409,
        UserRejection::UserGone => 410,
        UserRejection::ServerError | UserRejection::PatternFailure => 500,
        _ => 400,
    }
}

/// The text of the reply to a refused request.
pub open spec fn user_text(r: UserRejection) -> Seq<char> {
    match r {
        UserRejection::InvalidRegistration => "Invalid Data"@,
        UserRejection::InvalidUpdate => "Invalid data"@,
        UserRejection::EmailInUse => "Email already in use."@,
        UserRejection::EmailNotFound => "Email doesn't exists"@,
        UserRejection::InvalidPassword => "Invalid password"@,
        UserRejection::UserGone => "User doesn't exists"@,
        _ => ""@,
    }
}

impl UserRejection {
    /// The HTTP status code of the reply.
    pub fn status(&self) -> (r: u16)
        ensures
            r == user_status(*self),
    {
        match self {
            UserRejection::EmailInUse => 409,
            UserRejection::UserGone => 410,
            UserRejection::ServerError | UserRejection::PatternFailure => 500,
            _ => 400,
        }
    }

    /// The text of the reply.
    pub fn message(&self) -> (r: &'static str)
        ensures
            r@ == user_text(*self),
    {
        match self {
            UserRejection::InvalidRegistration => "Invalid Data",
            UserRejection::InvalidUpdate => "Invalid data",
            UserRejection::EmailInUse => "Email already in use.",
            UserRejection::EmailNotFound => "Email doesn't exists",
            UserRejection::InvalidPassword => "Invalid password",
            UserRejection::UserGone => "User doesn't exists",
            _ => "",
        }
    }
}

/// The refusal that a verdict on fields gives: `invalid` where they do not
/// match, a failure of the engine where it failed, none where they match.
pub open spec fn fields_rejection(verdict: Option<bool>, invalid: UserRejection) -> Option<UserRejection> {
    match verdict {
        Some(true) => None,
        Some(false) => Some(invalid),
        None => Some(UserRejection::PatternFailure),
    }
}

fn as_rejection(checked: Result<bool, crate::pattern::PatternError>, invalid: UserRejection) -> (r: Result<(), UserRejection>)
    ensures
        r == (match checked {
            Ok(true) => Ok::<(), UserRejection>(()),
            Ok(false) => Err::<(), UserRejection>(invalid),
            Err(_) => Err::<(), UserRejection>(UserRejection::PatternFailure),
        }),
{
    match checked {
        Ok(true) => Ok(()),
        Ok(false) => Err(invalid),
        Err(_) => Err(UserRejection::PatternFailure),
    }
}

/// Checks the fields of a new user: nick, gender, e-mail and password must all
/// match their patterns.
pub fn check_registration(data: &RegisterData) -> (r: Result<(), UserRejection>)
    ensures
        ({
            let verdict = user_fields_verdict(Some(data.nick@), Some(data.gender@), Some(data.email@), Some(data.password@), None);
            match r {
                Ok(_) => fields_rejection(verdict, UserRejection::InvalidRegistration) is None,
                Err(e) => fields_rejection(verdict, UserRejection::InvalidRegistration) == Some(e),
            }
        }),
{
    let checked = valid_user_fields(
        Some(data.nick.as_str()),
        Some(data.gender.as_str()),
        Some(data.email.as_str()),
        Some(data.password.as_str()),
        None,
    );
    as_rejection(checked, UserRejection::InvalidRegistration)
}

/// The refusal where storing a new user failed: an e-mail that is in use where
/// the database refused, else a server error.
pub fn registration_failure(f: DbFailure) -> (r: UserRejection)
    ensures
        r == (if f == DbFailure::Database { UserRejection::EmailInUse } else { UserRejection::ServerError }),
{
    match f {
        DbFailure::Database => UserRejection::EmailInUse,
        _ => UserRejection::ServerError,
    }
}

/// The refusal where looking up the user with an e-mail failed.
pub fn login_lookup_failure(f: DbFailure) -> (r: UserRejection)
    ensures
        r == (if f == DbFailure::RowNotFound { UserRejection::EmailNotFound } else { UserRejection::ServerError }),
{
    match f {
        DbFailure::RowNotFound => UserRejection::EmailNotFound,
        _ => UserRejection::ServerError,
    }
}

/// Decides a login from the stored hash: a hash of the wrong length is a
/// server error; a password that does not verify is refused.
pub fn check_login(hash_has_right_length: bool, password_verified: bool) -> (r: Result<(), UserRejection>)
    ensures
        r == (if !hash_has_right_length {
            Err::<(), UserRejection>(UserRejection::ServerError)
        } else if !password_verified {
            Err::<(), UserRejection>(UserRejection::InvalidPassword)
        } else {
            Ok::<(), UserRejection>(())
        }),
{
    if !hash_has_right_length {
        Err(UserRejection::ServerError)
    } else if !password_verified {
        Err(UserRejection::InvalidPassword)
    } else {
        Ok(())
    }
}

pub open spec fn opt_string_view(o: Option<String>) -> Option<Seq<char>> {
    match o {
        Some(s) => Some(s@),
        None => None,
    }
}

fn as_str_opt(o: &Option<String>) -> (r: Option<&str>)
    ensures
        opt_view(r) == opt_string_view(*o),
{
    match o {
        Some(s) => Some(s.as_str()),
        None => None,
    }
}

/// Checks the fields a user changes on their own account: those present must
/// match their patterns.
pub fn check_update(data: &UpdateData) -> (r: Result<(), UserRejection>)
    ensures
        ({
            let verdict = user_fields_verdict(
                opt_string_view(data.nick),
                opt_string_view(data.gender),
                opt_string_view(data.email),
                opt_string_view(data.password),
                None,
            );
            match r {
                Ok(_) => fields_rejection(verdict, UserRejection::InvalidUpdate) is None,
                Err(e) => fields_rejection(verdict, UserRejection::InvalidUpdate) == Some(e),
            }
        }),
{
    let checked = valid_user_fields(
        as_str_opt(&data.nick),
        as_str_opt(&data.gender),
        as_str_opt(&data.email),
        as_str_opt(&data.password),
        None,
    );
    as_rejection(checked, UserRejection::InvalidUpdate)
}

/// The refusal where changing a user failed: the user is gone where the
/// database refused, else a server error.
pub fn update_failure(f: DbFailure) -> (r: UserRejection)
    ensures
        r == (if f == DbFailure::Database { UserRejection::UserGone } else { UserRejection::ServerError }),
{
    match f {
        DbFailure::Database => UserRejection::UserGone,
        _ => UserRejection::ServerError,
    }
}

} // verus!
