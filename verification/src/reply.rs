//! How a failed database request shows in a reply.
use vstd::prelude::*;

verus! {

/// The kinds of failure of a database request that the replies tell apart.
#[derive(Clone, Copy, Debug, PartialEq, Eq, Structural)]
pub enum DbFailure {
    /// The database refused the statement (a constraint, a missing row that a
    /// procedure looked for).
    Database,
    /// A query for one row found none.
    RowNotFound,
    /// Anything else (the connection, decoding).
    Other,
}

/// Largest JSON body, in bytes, that the requests about games may have.
pub const GAME_JSON_LIMIT: usize = 2048;

/// Largest JSON body, in bytes, that the requests about users may have.
pub const USER_JSON_LIMIT: usize = 512;

/// Why a JSON body was not read.
#[derive(Clone, Copy, Debug, PartialEq, Eq, Structural)]
pub enum JsonFailure {
    ContentType,
    Overflow,
    Payload,
    Deserialize,
}

/// A status code and a text.
pub struct Reply {
    pub status: u16,
    pub text: &'static str,
}

/// The reply to a JSON body that was not read: too large is 413, anything
/// else 400.
pub fn json_failure_reply(f: JsonFailure) -> (r: Reply)
    ensures
        r.status == (if f == JsonFailure::Overflow { 413u16 } else { 400u16 }),
        r.text@ == (match f {
            JsonFailure::Payload => "Invalid data"@,
            JsonFailure::Deserialize => "Invalid json"@,
            _ => ""@,
        }),
{
    match f {
        JsonFailure::ContentType => Reply { status: 400, text: "" },
        JsonFailure::Overflow => Reply { status: 413, text: "" },
        JsonFailure::Payload => Reply { status: 400, text: "Invalid data" },
        JsonFailure::Deserialize => Reply { status: 400, text: "Invalid json" },
    }
}

/// The reply where a game that was asked for could not be read: 400 where it
/// does not exist, else 500.
pub fn game_lookup_reply(f: DbFailure) -> (r: Reply)
    ensures
        f == DbFailure::RowNotFound ==> r.status == 400 && r.text@ == "Game doesn't exists"@,
        f != DbFailure::RowNotFound ==> r.status == 500 && r.text@ == ""@,
{
    match f {
        DbFailure::RowNotFound => Reply { status: 400, text: "Game doesn't exists" },
        _ => Reply { status: 500, text: "" },
    }
}

/// The reply where a profile that was asked for could not be read: 400 where
/// the user does not exist, else 500.
pub fn profile_lookup_reply(f: DbFailure) -> (r: Reply)
    ensures
        f == DbFailure::RowNotFound ==> r.status == 400 && r.text@ == "User with that id doesn't exists"@,
        f != DbFailure::RowNotFound ==> r.status == 500 && r.text@ == ""@,
{
    match f {
        DbFailure::RowNotFound => Reply { status: 400, text: "User with that id doesn't exists" },
        _ => Reply { status: 500, text: "" },
    }
}

/// The reply where answering an invitation failed: 400 where the database
/// refused (the user is not invited, or there is no such invitation), else 500.
pub fn invite_answer_reply(f: DbFailure) -> (r: Reply)
    ensures
        f == DbFailure::Database ==> r.status == 400
            && r.text@ == "You are not in this game invite or the game invite doesn't exists."@,
        f != DbFailure::Database ==> r.status == 500 && r.text@ == ""@,
{
    match f {
        DbFailure::Database => Reply {
            status: 400,
            text: "You are not in this game invite or the game invite doesn't exists.",
        },
        _ => Reply { status: 500, text: "" },
    }
}

/// The reply where a request succeeded.
pub fn ok_reply() -> (r: Reply)
    ensures
        r.status == 200 && r.text@ == "Ok"@,
{
    Reply { status: 200, text: "Ok" }
}

} // verus!
