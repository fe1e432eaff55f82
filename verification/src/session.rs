//! Who is asking: logged in or not, with which roles, and what that allows.
use vstd::prelude::*;

verus! {

/// The roles a user can have.
#[derive(Clone, Copy, Debug, PartialEq, Eq, Structural)]
pub enum Role {
    Admin,
    Banned,
}

impl Role {
    /// The number by which the role is stored.
    pub fn id(&self) -> (r: i16)
        ensures
            r == role_number(*self),
    {
        match self {
            Role::Admin => 0,
            Role::Banned => 1,
        }
    }

    /// The role stored as `id`, if there is one.
    pub fn from_id(id: i16) -> (r: Option<Role>)
        ensures
            r matches Some(role) ==> role_number(role) == id,
            r is None <==> (id != 0 && id != 1),
    {
        if id == 0 {
            Some(Role::Admin)
        } else if id == 1 {
            Some(Role::Banned)
        } else {
            None
        }
    }
}

/// The number by which a role is stored.
pub open spec fn role_number(r: Role) -> i16 {
    match r {
        Role::Admin => 0,
        Role::Banned => 1,
    }
}

/// The numbers by which the roles `roles` are stored, in the same order.
pub fn role_ids(roles: &Vec<Role>) -> (r: Vec<i16>)
    ensures
        r@.len() == roles@.len(),
        forall|i: int| 0 <= i < r@.len() ==> r@[i] == role_number(#[trigger] roles@[i]),
{
    let mut r: Vec<i16> = Vec::new();
    let mut i: usize = 0;
    while i < roles.len()
        invariant
            i <= roles.len(),
            r@.len() == i,
            forall|j: int| 0 <= j < i ==> r@[j] == role_number(#[trigger] roles@[j]),
        decreases roles.len() - i,
    {
        r.push(roles[i].id());
        i = i + 1;
    }
    r
}

/// Whether the one asking is logged in, and as whom.
#[derive(Clone, Copy, Debug, PartialEq, Eq, Structural)]
pub enum UserStatus {
    LoggedIn(u128),
    NotLoggedIn,
}

/// What looking up the id of a session gave.
#[derive(Clone, Copy, Debug, PartialEq, Eq, Structural)]
pub enum SessionLookup {
    Found(Option<u128>),
    Failed,
}

/// Why a request is refused before it is looked at.
#[derive(Clone, Copy, Debug, PartialEq, Eq, Structural)]
pub enum AuthRejection {
    NotLoggedIn,
    AlreadyLoggedIn,
    AdminNeeded,
    Banned,
    ServerError,
}

/// The HTTP status code of the reply to a refused request.
pub open spec fn auth_status(r: AuthRejection) -> u16 {
    match r {
        AuthRejection::NotLoggedIn | AuthRejection::AdminNeeded | AuthRejection::Banned => 401,
        AuthRejection::AlreadyLoggedIn => 400,
        AuthRejection::ServerError => 500,
    }
}

/// The text of the reply to a refused request.
pub open spec fn auth_text(r: AuthRejection) -> Seq<char> {
    match r {
        AuthRejection::NotLoggedIn => "User not logged in"@,
        AuthRejection::AlreadyLoggedIn => "User already logged in"@,
        AuthRejection::AdminNeeded => "Admin role needed"@,
        AuthRejection::Banned => "You can't perform this action while you are banned"@,
        AuthRejection::ServerError => ""@,
    }
}

impl AuthRejection {
    /// The HTTP status code of the reply.
    pub fn status(&self) -> (r: u16)
        ensures
            r == auth_status(*self),
    {
        match self {
            AuthRejection::NotLoggedIn | AuthRejection::AdminNeeded | AuthRejection::Banned => 401,
            AuthRejection::AlreadyLoggedIn => 400,
            AuthRejection::ServerError => 500,
        }
    }

    /// The text of the reply.
    pub fn message(&self) -> (r: &'static str)
        ensures
            r@ == auth_text(*self),
    {
        match self {
            AuthRejection::NotLoggedIn => "User not logged in",
            AuthRejection::AlreadyLoggedIn => "User already logged in",
            AuthRejection::AdminNeeded => "Admin role needed",
            AuthRejection::Banned => "You can't perform this action while you are banned",
            AuthRejection::ServerError => "",
        }
    }
}

impl UserStatus {
    /// The status of a session from the lookup of its id: logged in as the id
    /// found, not logged in where there is none, an error where the lookup failed.
    pub fn from_lookup(l: SessionLookup) -> (r: Result<UserStatus, AuthRejection>)
        ensures
            r == (match l {
                SessionLookup::Found(Some(id)) => Ok::<UserStatus, AuthRejection>(UserStatus::LoggedIn(id)),
                SessionLookup::Found(None) => Ok::<UserStatus, AuthRejection>(UserStatus::NotLoggedIn),
                SessionLookup::Failed => Err::<UserStatus, AuthRejection>(AuthRejection::ServerError),
            }),
    {
        match l {
            SessionLookup::Found(Some(id)) => Ok(UserStatus::LoggedIn(id)),
            SessionLookup::Found(None) => Ok(UserStatus::NotLoggedIn),
            SessionLookup::Failed => Err(AuthRejection::ServerError),
        }
    }
}

/// A user who is logged in.
#[derive(Clone, Copy, Debug, PartialEq, Eq, Structural)]
pub struct LoggedInUser(pub u128);

impl LoggedInUser {
    /// Admits only one who is logged in.
    pub fn from_status(s: UserStatus) -> (r: Result<LoggedInUser, AuthRejection>)
        ensures
            r == (match s {
                UserStatus::LoggedIn(id) => Ok::<LoggedInUser, AuthRejection>(LoggedInUser(id)),
                UserStatus::NotLoggedIn => Err::<LoggedInUser, AuthRejection>(AuthRejection::NotLoggedIn),
            }),
    {
        match s {
            UserStatus::LoggedIn(id) => Ok(LoggedInUser(id)),
            UserStatus::NotLoggedIn => Err(AuthRejection::NotLoggedIn),
        }
    }
}

/// One who is not logged in.
#[derive(Clone, Copy, Debug, PartialEq, Eq, Structural)]
pub struct NotLoggedInUser;

impl NotLoggedInUser {
    /// Admits only one who is not logged in.
    pub fn from_status(s: UserStatus) -> (r: Result<NotLoggedInUser, AuthRejection>)
        ensures
            r == (match s {
                UserStatus::NotLoggedIn => Ok::<NotLoggedInUser, AuthRejection>(NotLoggedInUser),
                UserStatus::LoggedIn(_) => Err::<NotLoggedInUser, AuthRejection>(AuthRejection::AlreadyLoggedIn),
            }),
    {
        match s {
            UserStatus::NotLoggedIn => Ok(NotLoggedInUser),
            UserStatus::LoggedIn(_) => Err(AuthRejection::AlreadyLoggedIn),
        }
    }
}

/// Whether `role` is among `roles`.
pub fn has_role(roles: &Vec<Role>, role: Role) -> (r: bool)
    ensures
        r == roles@.contains(role),
{
    let mut i: usize = 0;
    while i < roles.len()
        invariant
            i <= roles.len(),
            forall|j: int| 0 <= j < i ==> roles@[j] != role,
        decreases roles.len() - i,
    {
        if roles[i] == role {
            assert(roles@[i as int] == role);
            return true;
        }
        i = i + 1;
    }
    false
}

/// A logged-in user with their roles.
pub struct UserWithRoles {
    pub id: u128,
    pub roles: Vec<Role>,
}

impl UserWithRoles {
    /// The user with the roles that were looked up; an error where the lookup
    /// failed.
    pub fn from_lookup(user: LoggedInUser, roles: Result<Vec<Role>, ()>) -> (r: Result<UserWithRoles, AuthRejection>)
        ensures
            match roles {
                Ok(v) => r matches Ok(u) && u.id == user.0 && u.roles@ == v@,
                Err(_) => r == Err::<UserWithRoles, AuthRejection>(AuthRejection::ServerError),
            },
    {
        match roles {
            Ok(v) => Ok(UserWithRoles { id: user.0, roles: v }),
            Err(_) => Err(AuthRejection::ServerError),
        }
    }

    /// Whether the user is an administrator.
    pub fn is_admin(&self) -> (r: bool)
        ensures
            r == self.roles@.contains(Role::Admin),
    {
        has_role(&self.roles, Role::Admin)
    }

    /// Whether the user is banned.
    pub fn is_banned(&self) -> (r: bool)
        ensures
            r == self.roles@.contains(Role::Banned),
    {
        has_role(&self.roles, Role::Banned)
    }
}

/// A user who is an administrator.
pub struct AdminUser {
    pub id: u128,
    pub roles: Vec<Role>,
}

impl AdminUser {
    /// Admits only an administrator.
    pub fn from_user(user: UserWithRoles) -> (r: Result<AdminUser, AuthRejection>)
        ensures
            user.roles@.contains(Role::Admin) ==> (r matches Ok(a) && a.id == user.id && a.roles@ == user.roles@),
            !user.roles@.contains(Role::Admin) ==> r == Err::<AdminUser, AuthRejection>(AuthRejection::AdminNeeded),
    {
        if user.is_admin() {
            Ok(AdminUser { id: user.id, roles: user.roles })
        } else {
            Err(AuthRejection::AdminNeeded)
        }
    }
}

/// A user who is not banned.
pub struct UserWithoutBan {
    pub id: u128,
    pub roles: Vec<Role>,
}

impl UserWithoutBan {
    /// Admits only a user who is not banned.
    pub fn from_user(user: UserWithRoles) -> (r: Result<UserWithoutBan, AuthRejection>)
        ensures
            !user.roles@.contains(Role::Banned) ==> (r matches Ok(a) && a.id == user.id && a.roles@ == user.roles@),
            user.roles@.contains(Role::Banned) ==> r == Err::<UserWithoutBan, AuthRejection>(AuthRejection::Banned),
    {
        if !user.is_banned() {
            Ok(UserWithoutBan { id: user.id, roles: user.roles })
        } else {
            Err(AuthRejection::Banned)
        }
    }
}

} // verus!
