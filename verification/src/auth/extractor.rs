//! Roles and the authenticated user that every protected request carries.
use vstd::prelude::*;
use crate::error::{AppError, Refusal, verdict};
use crate::models::user::User;
use crate::text::{owned, text_eq};

verus! {

/// A user's role within a branch.
#[derive(Debug, Clone, Copy, PartialEq, Eq, Structural)]
pub enum Role {
    Admin,
    Coordinator,
    SalesRep,
}

/// The stored name of each role.
pub open spec fn role_text(r: Role) -> Seq<char> {
    match r {
        Role::Admin => "admin"@,
        Role::Coordinator => "coordinator"@,
        Role::SalesRep => "sales_rep"@,
    }
}

/// The role a stored name denotes, if any.
pub open spec fn role_named(s: Seq<char>) -> Option<Role> {
    if s == "admin"@ {
        Some(Role::Admin)
    } else if s == "coordinator"@ {
        Some(Role::Coordinator)
    } else if s == "sales_rep"@ {
        Some(Role::SalesRep)
    } else {
        None
    }
}

impl Role {
    /// Parses a stored role name; unknown names give `None`.
    pub fn from_str(s: &str) -> (r: Option<Role>)
        ensures
            r == role_named(s@),
    {
        if text_eq(s, "admin") {
            Some(Role::Admin)
        } else if text_eq(s, "coordinator") {
            Some(Role::Coordinator)
        } else if text_eq(s, "sales_rep") {
            Some(Role::SalesRep)
        } else {
            None
        }
    }

    /// The stored name of the role.
    pub fn as_str(&self) -> (s: &'static str)
        ensures
            s@ == role_text(*self),
    {
        match self {
            Role::Admin => "admin",
            Role::Coordinator => "coordinator",
            Role::SalesRep => "sales_rep",
        }
    }
}

/// Reading a role's stored name gives the role back, and a name reads as a
/// role only if it is that role's stored name.
pub proof fn lemma_role_names_round_trip(r: Role, s: Seq<char>)
    ensures
        role_named(role_text(r)) == Some(r),
        role_named(s) matches Some(q) ==> s == role_text(q),
{
    reveal_strlit("admin");
    reveal_strlit("coordinator");
    reveal_strlit("sales_rep");
    assert("coordinator"@.len() != "admin"@.len());
    assert("sales_rep"@.len() != "admin"@.len());
    assert("sales_rep"@.len() != "coordinator"@.len());
}

/// The user a request acts for. `branch_id` comes from the stored account,
/// never from the request.
#[derive(Debug, Clone)]
pub struct AuthUser {
    pub id: i64,
    pub role: Role,
    pub branch_id: i64,
    pub name: String,
}

impl AuthUser {
    pub fn is_admin(&self) -> (b: bool)
        ensures
            b == (self.role == Role::Admin),
    {
        self.role == Role::Admin
    }

    pub fn is_coordinator(&self) -> (b: bool)
        ensures
            b == (self.role == Role::Coordinator),
    {
        self.role == Role::Coordinator
    }

    pub fn is_sales_rep(&self) -> (b: bool)
        ensures
            b == (self.role == Role::SalesRep),
    {
        self.role == Role::SalesRep
    }
}

/// Who a session's stored account authenticates as: only an existing,
/// active account with a known role.
pub open spec fn authenticates(user: Option<User>) -> Option<Role> {
    match user {
        Some(u) => if u.is_active == 1 {
            role_named(u.role@)
        } else {
            None
        },
        None => None,
    }
}

/// Turns the account a session points at into the request's user.
/// A missing or deactivated account, or an unknown role, is `Unauthorized`.
pub fn authenticate(user: Option<&User>) -> (r: Result<AuthUser, AppError>)
    ensures
        match authenticates(match user {
            Some(u) => Some(*u),
            None => None,
        }) {
            Some(role) => r matches Ok(a) && a.role == role && a.id == user.unwrap().id
                && a.branch_id == user.unwrap().branch_id && a.name@ == user.unwrap().name@,
            None => verdict(r) == Err::<(), Refusal>(Refusal::Unauthorized),
        },
{
    match user {
        None => Err(AppError::Unauthorized),
        Some(u) => {
            if u.is_active != 1 {
                return Err(AppError::Unauthorized);
            }
            match Role::from_str(u.role.as_str()) {
                None => Err(AppError::Unauthorized),
                Some(role) => Ok(
                    AuthUser { id: u.id, role, branch_id: u.branch_id, name: owned(u.name.as_str()) },
                ),
            }
        },
    }
}

/// Admin-only pages and actions refuse everyone else.
pub fn require_admin(auth: &AuthUser) -> (r: Result<(), AppError>)
    ensures
        verdict(r) == (if auth.role != Role::Admin {
            Err(Refusal::Forbidden)
        } else {
            Ok(())
        }),
{
    if auth.role != Role::Admin {
        Err(AppError::Forbidden)
    } else {
        Ok(())
    }
}

} // verus!
