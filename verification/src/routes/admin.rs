//! The admin panel's decisions: who may manage accounts, what a new account
//! must carry, and which deactivations are refused.
use vstd::prelude::*;
use crate::auth::extractor::{require_admin, role_named, AuthUser, Role};
use crate::auth::routes::{argon2_accepts, hash_password};
use crate::error::{AppError, Refusal, verdict};
use crate::text::{chars_of, owned, text_contains, trim, trimmed};

verus! {

/// The fields of the new-account form.
#[derive(Debug)]
pub struct CreateUserForm {
    pub name: String,
    pub email: String,
    pub password: String,
    pub role: String,
    pub branch_id: i64,
}

/// An account ready to be stored: the form's values with the password hashed.
#[derive(Debug)]
pub struct NewUser {
    pub branch_id: i64,
    pub name: String,
    pub role: String,
    pub email: String,
    pub password_hash: String,
}

/// An address of the form `local@domain`: exactly one `@`, something before
/// it, and a `.` inside the domain (neither its first nor its last character).
pub open spec fn valid_email(e: Seq<char>) -> bool {
    exists|at: int|
        0 < at < e.len() && #[trigger] e[at] == '@' && (forall|k: int| 0 <= k < e.len() && k != at ==> e[k] != '@')
            && (exists|d: int| at + 1 < d < e.len() - 1 && #[trigger] e[d] == '.')
}

/// The refusal a new-account form meets, if any: an unknown role, then a
/// missing name, email or password, then an address that is not an email.
pub open spec fn new_user_verdict(form: CreateUserForm) -> Result<(), Refusal> {
    if role_named(form.role@) is None {
        Err(Refusal::Validation("Invalid role '"@ + form.role@ + "'"@))
    } else if trimmed(form.name@).len() == 0 || trimmed(form.email@).len() == 0 || form.password@.len() == 0 {
        Err(Refusal::Validation("Name, email, and password are required"@))
    } else if !valid_email(form.email@) {
        Err(Refusal::Validation("'"@ + form.email@ + "' is not a valid email address"@))
    } else {
        Ok(())
    }
}

/// Whether `email` is an address of the form `local@domain`.
pub fn is_valid_email(email: &str) -> (ok: bool)
    ensures
        ok == valid_email(email@),
{
    let c = chars_of(email);
    let n: usize = c.len();
    let mut at: usize = 0;
    while at < n && c[at] != '@'
        invariant
            c@ == email@,
            n == c@.len(),
            at <= n,
            forall|k: int| 0 <= k < at ==> c@[k] != '@',
        decreases n - at,
    {
        at = at + 1;
    }
    if at == n || at == 0 {
        assert forall|a: int| 0 < a < c@.len() && #[trigger] c@[a] == '@' implies !(forall|k: int|
            0 <= k < c@.len() && k != a ==> c@[k] != '@') by {
            if at == 0 {
                assert(c@[0] == '@' && a != 0);
            }
        }
        return false;
    }
    let mut k: usize = at + 1;
    while k < n && c[k] != '@'
        invariant
            c@ == email@,
            n == c@.len(),
            at < k <= n,
            forall|j: int| at < j < k ==> c@[j] != '@',
        decreases n - k,
    {
        k = k + 1;
    }
    if k < n {
        assert forall|a: int| 0 < a < c@.len() && #[trigger] c@[a] == '@' implies !(forall|j: int|
            0 <= j < c@.len() && j != a ==> c@[j] != '@') by {
            if a != at {
                assert(c@[at as int] == '@');
            } else {
                assert(c@[k as int] == '@');
            }
        }
        return false;
    }
    assert(forall|j: int| 0 <= j < c@.len() && j != at ==> c@[j] != '@');
    let mut d: usize = at + 1;
    let mut found = false;
    while d < n - 1 && !found
        invariant
            c@ == email@,
            n == c@.len(),
            at < n,
            at + 1 <= d,
            found ==> at + 1 < d - 1 && d - 1 < n - 1 && c@[d - 1] == '.',
            !found ==> forall|j: int| at + 1 < j < d && j < n - 1 ==> c@[j] != '.',
        decreases n - d,
    {
        if d > at + 1 && c[d] == '.' {
            found = true;
        }
        d = d + 1;
    }
    if found {
        assert(c@[at as int] == '@');
        assert(c@[d - 1] == '.');
        true
    } else {
        assert forall|a: int| 0 < a < c@.len() && #[trigger] c@[a] == '@' && (forall|j: int|
            0 <= j < c@.len() && j != a ==> c@[j] != '@') implies !(exists|e: int|
            a + 1 < e < c@.len() - 1 && #[trigger] c@[e] == '.') by {
            assert(a == at);
        }
        false
    }
}

/// Checks a new-account form: the role must be known, the name, email and
/// password present, and the email an address.
pub fn validate_new_user(form: &CreateUserForm) -> (r: Result<(), AppError>)
    ensures
        verdict(r) == new_user_verdict(*form),
{
    if Role::from_str(form.role.as_str()).is_none() {
        let mut m = owned("Invalid role '");
        m.append(form.role.as_str());
        m.append("'");
        return Err(AppError::ValidationError(m));
    }
    if trim(form.name.as_str()).unicode_len() == 0 || trim(form.email.as_str()).unicode_len() == 0
        || form.password.as_str().unicode_len() == 0 {
        return Err(AppError::validation("Name, email, and password are required"));
    }
    if !is_valid_email(form.email.as_str()) {
        let mut m = owned("'");
        m.append(form.email.as_str());
        m.append("' is not a valid email address");
        return Err(AppError::ValidationError(m));
    }
    Ok(())
}

/// What creating an account decides before it is stored: only an admin may,
/// the form must pass `validate_new_user`, and the password is hashed (a
/// hashing failure is an internal error, which a password of at most
/// `0xFFFF_FFFF` bytes never meets). The stored hash verifies the submitted
/// password.
pub fn prepare_new_user(auth: &AuthUser, form: &CreateUserForm) -> (r: Result<NewUser, AppError>)
    ensures
        auth.role != Role::Admin ==> verdict(r) == Err::<(), Refusal>(Refusal::Forbidden),
        auth.role == Role::Admin && new_user_verdict(*form) is Err ==> verdict(r) == new_user_verdict(*form),
        auth.role == Role::Admin && new_user_verdict(*form) is Ok && vstd::utf8::encode_utf8(form.password@).len()
            <= 0xFFFF_FFFF ==> r is Ok,
        auth.role == Role::Admin && new_user_verdict(*form) is Ok ==> match r {
            Ok(u) => u.branch_id == form.branch_id && u.name@ == form.name@ && u.role@ == form.role@ && u.email@
                == form.email@ && argon2_accepts(vstd::utf8::encode_utf8(form.password@), u.password_hash@),
            Err(e) => e@ matches Refusal::Internal(m) && crate::text::has_prefix(m, "Hash error: "@),
        },
{
    require_admin(auth)?;
    validate_new_user(form)?;
    match hash_password(form.password.as_str()) {
        Ok(h) => Ok(
            NewUser {
                branch_id: form.branch_id,
                name: owned(form.name.as_str()),
                role: owned(form.role.as_str()),
                email: owned(form.email.as_str()),
                password_hash: h,
            },
        ),
        Err(e) => {
            let mut m = owned("Hash error: ");
            m.append(e.as_str());
            proof {
                assert(m@.subrange(0, "Hash error: "@.len() as int) =~= "Hash error: "@);
            }
            Err(AppError::Internal(m))
        },
    }
}

/// The refusal an account insert that failed with database message `db_error`
/// becomes: a uniqueness violation means the email is taken.
pub open spec fn insert_refusal(db_error: Seq<char>, email: Seq<char>) -> Refusal {
    if crate::text::has_substring(db_error, "UNIQUE"@) {
        Refusal::Conflict("Email '"@ + email + "' is already in use"@)
    } else {
        Refusal::Internal(db_error)
    }
}

/// Maps a failed account insert to the answer the admin sees.
pub fn insert_failure(db_error: &str, email: &str) -> (e: AppError)
    ensures
        e@ == insert_refusal(db_error@, email@),
{
    if text_contains(db_error, "UNIQUE") {
        let mut m = owned("Email '");
        m.append(email);
        m.append("' is already in use");
        AppError::Conflict(m)
    } else {
        AppError::Internal(owned(db_error))
    }
}

/// Deactivating an account: admins only, and never one's own.
pub fn check_deactivate(auth: &AuthUser, user_id: i64) -> (r: Result<(), AppError>)
    ensures
        verdict(r) == (if auth.role != Role::Admin {
            Err(Refusal::Forbidden)
        } else if user_id == auth.id {
            Err(Refusal::Validation("You cannot deactivate your own account"@))
        } else {
            Ok(())
        }),
{
    require_admin(auth)?;
    if user_id == auth.id {
        return Err(AppError::validation("You cannot deactivate your own account"));
    }
    Ok(())
}

} // verus!
