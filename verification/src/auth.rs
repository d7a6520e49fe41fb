//! The authenticator: sign-up, sign-in and sign-out, and the
//! authorization gate for admin-only operations.
//!
//! Every operation takes the request time as an explicit argument, so
//! its behaviour is pinned down for every clock value; `AuthContext`
//! reads the clock once per request at the edge.

use vstd::prelude::*;

use crate::crypto::{digest_of, hash_password, now_unix, password_verifies, verify_password};
use crate::sessions::{
    create_session, map_after_validate, session_valid, validate_session, AuthError, Session,
    SessionStore,
};
use crate::users::{credentials_ok, has_email, is_admin_user, NewUser, User, UserStore};

verus! {

/// The form data a sign-in request carries.
pub struct SignInData {
    pub email: String,
    pub password: String,
}

/// The form data a sign-up request carries: the password twice.
pub struct SignUpData {
    pub email: String,
    pub password: String,
    pub password2: String,
}

/// A successful sign-in: the raw bearer token for the cookie, and
/// whether the routing layer should send the user to the admin
/// dashboard rather than the home page.
#[derive(Debug)]
pub struct SignInSuccess {
    pub token: String,
    pub is_admin: bool,
}

/// Sign-up failures. The two validation failures carry specific
/// messages; `Internal` covers a hashing or storage fault.
#[derive(Clone, Copy, Debug, PartialEq, Eq, Structural)]
pub enum SignUpError {
    PasswordMismatch,
    EmailInUse,
    Internal,
}

impl SignUpError {
    /// The user-facing message for each failure.
    pub fn message(&self) -> (r: String)
        ensures
            *self is PasswordMismatch ==> r@ == "ERROR: Your passwords do not match, please try again"@,
            *self is EmailInUse ==> r@ == "ERROR: Unable to create account, email is already in use"@,
            *self is Internal ==> r@ == "Internal Server Error"@,
    {
        match self {
            SignUpError::PasswordMismatch => "ERROR: Your passwords do not match, please try again".to_owned(),
            SignUpError::EmailInUse => "ERROR: Unable to create account, email is already in use".to_owned(),
            SignUpError::Internal => "Internal Server Error".to_owned(),
        }
    }
}

/// Sign-in failures. An unknown email and a wrong password collapse
/// into the one `IncorrectCredentials` variant, so the two cases are
/// indistinguishable to a client; `Internal` covers a storage fault.
#[derive(Clone, Copy, Debug, PartialEq, Eq, Structural)]
pub enum SignInError {
    IncorrectCredentials,
    Internal,
}

impl SignInError {
    /// The user-facing message: deliberately the same generic text for
    /// every credential failure.
    pub fn message(&self) -> (r: String)
        ensures
            *self is IncorrectCredentials ==> r@ == "Incorrect email or password, please try again"@,
            *self is Internal ==> r@ == "Internal Server Error"@,
    {
        match self {
            SignInError::IncorrectCredentials => "Incorrect email or password, please try again".to_owned(),
            SignInError::Internal => "Internal Server Error".to_owned(),
        }
    }
}

/// Per-request identity context: the raw cookie value, if the request
/// carried one, and the request time, read from the clock exactly once.
pub struct AuthContext {
    pub cookie: Option<String>,
    pub now: i64,
}

impl AuthContext {
    /// Build the context for one incoming request.
    pub fn new(cookie: Option<String>) -> (ctx: AuthContext)
        ensures
            ctx.cookie == cookie,
    {
        AuthContext { cookie, now: now_unix() }
    }
}

/// Sign a new user up: reject mismatched passwords and emails already
/// in use, otherwise hash the password with a fresh salt and persist a
/// non-admin user record.
pub fn process_sign_up(users: &mut UserStore, data: &SignUpData) -> (r: Result<(), SignUpError>)
    requires
        old(users).wf(),
    ensures
        final(users).wf(),
        r == Err::<(), SignUpError>(SignUpError::PasswordMismatch) <==> data.password@
            != data.password2@,
        r == Err::<(), SignUpError>(SignUpError::EmailInUse) <==> data.password@ == data.password2@
            && has_email(old(users)@, data.email@),
        (r is Ok || r == Err::<(), SignUpError>(SignUpError::Internal)) <==> (data.password@
            == data.password2@ && !has_email(old(users)@, data.email@)),
        r matches Ok(_) ==> ({
            &&& final(users)@.len() == old(users)@.len() + 1
            &&& final(users)@.drop_last() == old(users)@
            &&& final(users)@.last().email@ == data.email@
            &&& final(users)@.last().is_admin == false
            &&& password_verifies(data.password@, final(users)@.last().password@)
        }),
        r is Err ==> final(users)@ == old(users)@,
{
    if !data.password.eq(&data.password2) {
        return Err(SignUpError::PasswordMismatch);
    }
    if users.find_by_email(data.email.as_str()).is_some() {
        return Err(SignUpError::EmailInUse);
    }
    let hash = match hash_password(data.password.as_str()) {
        Some(h) => h,
        None => {
            return Err(SignUpError::Internal);
        },
    };
    let new_user = NewUser { email: data.email.as_str(), password: hash.as_str() };
    match users.insert(new_user, false) {
        Ok(_) => Ok(()),
        Err(_) => Err(SignUpError::Internal),
    }
}

/// Sign in: look the user up by email and verify the password; on
/// success issue a brand-new session and hand back the raw token. An
/// unknown email and a wrong password yield the identical error.
pub fn process_sign_in(
    users: &UserStore,
    sessions: &mut SessionStore,
    data: &SignInData,
    now: i64,
) -> (r: Result<SignInSuccess, SignInError>)
    requires
        users.wf(),
        old(sessions).wf(),
    ensures
        final(sessions).wf(),
        r == Err::<SignInSuccess, SignInError>(SignInError::IncorrectCredentials)
            <==> !credentials_ok(users@, data.email@, data.password@),
        r matches Ok(s) ==> ({
            &&& s.token@.len() == 32
            &&& !old(sessions)@.contains_key(digest_of(s.token@))
            &&& exists|i: int|
                0 <= i < users@.len() && users@[i].email@ == data.email@ && password_verifies(
                    data.password@,
                    users@[i].password@,
                ) && s.is_admin == users@[i].is_admin && final(sessions)@ == old(sessions)@.insert(
                    digest_of(s.token@),
                    (users@[i].id, (now + crate::SESSION_LIFETIME_SECONDS) as i64),
                )
        }),
        r is Err ==> final(sessions)@ == old(sessions)@,
{
    let found = users.find_by_email(data.email.as_str());
    match found {
        None => {
            proof {
                if credentials_ok(users@, data.email@, data.password@) {
                    let j = choose|j: int|
                        0 <= j < users@.len() && users@[j].email@ == data.email@
                            && password_verifies(data.password@, users@[j].password@);
                    assert(has_email(users@, data.email@));
                }
            }
            Err(SignInError::IncorrectCredentials)
        },
        Some(i) => {
            let user = users.get(i);
            if verify_password(data.password.as_str(), user.password.as_str()) {
                match create_session(sessions, user.id, now) {
                    Ok(token) => {
                        let success = SignInSuccess { token, is_admin: user.is_admin };
                        proof {
                            let j = i as int;
                            assert(0 <= j < users@.len());
                            assert(users@[j].email@ == data.email@);
                            assert(password_verifies(data.password@, users@[j].password@));
                            assert(success.is_admin == users@[j].is_admin);
                            assert(sessions@ == old(sessions)@.insert(
                                digest_of(success.token@),
                                (users@[j].id, (now + crate::SESSION_LIFETIME_SECONDS) as i64),
                            ));
                        }
                        Ok(success)
                    },
                    Err(_) => Err(SignInError::Internal),
                }
            } else {
                proof {
                    users.lemma_emails_unique();
                    if credentials_ok(users@, data.email@, data.password@) {
                        let j = choose|j: int|
                            0 <= j < users@.len() && users@[j].email@ == data.email@
                                && password_verifies(data.password@, users@[j].password@);
                        assert(j == i);
                    }
                }
                Err(SignInError::IncorrectCredentials)
            }
        },
    }
}

/// Sign out: without a cookie the request is unauthenticated; with one,
/// validate it and delete the session row. Whatever happens, the
/// cookie's identifier is absent from the store afterwards, so a second
/// sign-out with the same cookie fails with the same error and changes
/// nothing.
pub fn sign_out(sessions: &mut SessionStore, cookie: Option<&str>, now: i64) -> (r: Result<
    (),
    AuthError,
>)
    requires
        old(sessions).wf(),
    ensures
        final(sessions).wf(),
        cookie is None ==> r == Err::<(), AuthError>(AuthError::Unauthenticated)
            && final(sessions)@ == old(sessions)@,
        cookie matches Some(token) ==> ({
            let key = digest_of(token@);
            &&& final(sessions)@ == old(sessions)@.remove(key)
            &&& !final(sessions)@.contains_key(key)
            &&& (r is Ok <==> session_valid(old(sessions)@, key, now))
            &&& (r matches Err(e) ==> e == AuthError::Unauthenticated)
        }),
{
    let token = match cookie {
        None => {
            return Err(AuthError::Unauthenticated);
        },
        Some(t) => t,
    };
    match validate_session(sessions, token, now) {
        Err(_) => {
            proof {
                let key = digest_of(token@);
                if !old(sessions)@.contains_key(key) {
                    assert(old(sessions)@.remove(key) =~= old(sessions)@);
                }
            }
            Err(AuthError::Unauthenticated)
        },
        Ok(session) => {
            sessions.remove(&session.id);
            Ok(())
        },
    }
}

/// Whether the request's cookie belongs to a live session; touching an
/// expired session here purges it, exactly as validation does.
pub fn logged_in(sessions: &mut SessionStore, cookie: Option<&str>, now: i64) -> (r: bool)
    requires
        old(sessions).wf(),
    ensures
        final(sessions).wf(),
        r == match cookie {
            None => false,
            Some(token) => session_valid(old(sessions)@, digest_of(token@), now),
        },
        final(sessions)@ == match cookie {
            None => old(sessions)@,
            Some(token) => map_after_validate(old(sessions)@, digest_of(token@), now),
        },
{
    match cookie {
        None => false,
        Some(token) => validate_session(sessions, token, now).is_ok(),
    }
}

/// The condition under which the admin gate lets a request through:
/// the cookie's session is live and its owner has the admin bit.
pub open spec fn admin_session(
    users: Seq<User>,
    m: Map<Seq<char>, (i32, i64)>,
    key: Seq<char>,
    now: i64,
) -> bool {
    session_valid(m, key, now) && is_admin_user(users, m[key].0)
}

/// The authorization gate for admin-only operations: validate the
/// session, then check the owning user's admin bit. An invalid session
/// and a valid session of a non-admin fail with the same error, so a
/// caller cannot tell which check rejected it. An expired session
/// touched here is purged exactly as validation does.
pub fn require_admin(
    users: &UserStore,
    sessions: &mut SessionStore,
    cookie: Option<&str>,
    now: i64,
) -> (r: Result<Session, AuthError>)
    requires
        users.wf(),
        old(sessions).wf(),
    ensures
        final(sessions).wf(),
        cookie is None ==> final(sessions)@ == old(sessions)@ && r == Err::<Session, AuthError>(
            AuthError::Unauthorized,
        ),
        cookie matches Some(token) ==> ({
            let key = digest_of(token@);
            &&& final(sessions)@ == map_after_validate(old(sessions)@, key, now)
            &&& (r is Ok <==> admin_session(users@, old(sessions)@, key, now))
            &&& (r matches Ok(s) ==> s.id@ == key
                && (s.user_id, s.expires_at) == old(sessions)@[key])
            &&& (r matches Err(e) ==> e == AuthError::Unauthorized)
        }),
{
    let token = match cookie {
        None => {
            return Err(AuthError::Unauthorized);
        },
        Some(t) => t,
    };
    let session = match validate_session(sessions, token, now) {
        Err(_) => {
            return Err(AuthError::Unauthorized);
        },
        Ok(s) => s,
    };
    match users.find_by_id(session.user_id) {
        None => {
            proof {
                if is_admin_user(users@, session.user_id) {
                    let j = choose|j: int|
                        0 <= j < users@.len() && users@[j].id == session.user_id
                            && users@[j].is_admin;
                    assert(crate::users::has_user_id(users@, session.user_id));
                }
            }
            Err(AuthError::Unauthorized)
        },
        Some(i) => {
            if users.get(i).is_admin {
                Ok(session)
            } else {
                proof {
                    users.lemma_ids_unique();
                    if is_admin_user(users@, session.user_id) {
                        let j = choose|j: int|
                            0 <= j < users@.len() && users@[j].id == session.user_id
                                && users@[j].is_admin;
                        assert(j == i);
                    }
                }
                Err(AuthError::Unauthorized)
            }
        },
    }
}

/// Law: once a key is removed — as every sign-out attempt with a cookie
/// does — it is gone, no clock value makes it valid again, and removing
/// it a second time changes nothing.
pub proof fn lemma_sign_out_idempotent(m: Map<Seq<char>, (i32, i64)>, key: Seq<char>, now: i64)
    ensures
        !m.remove(key).contains_key(key),
        !session_valid(m.remove(key), key, now),
        m.remove(key).remove(key) == m.remove(key),
{
    assert(m.remove(key).remove(key) =~= m.remove(key));
}

/// Law: an email no user carries can never satisfy the sign-in
/// condition, whatever the password — so a sign-in with an unknown
/// email fails exactly like one with a known email and a wrong
/// password, through the one `IncorrectCredentials` variant.
pub proof fn lemma_enumeration_resistance(users: Seq<User>, email: Seq<char>, password: Seq<char>)
    ensures
        !has_email(users, email) ==> !credentials_ok(users, email, password),
{
    if credentials_ok(users, email, password) {
        let j = choose|j: int|
            0 <= j < users.len() && users[j].email@ == email && password_verifies(
                password,
                users[j].password@,
            );
        assert(has_email(users, email));
    }
}

/// Law: only a live session of an admin user passes the admin check; a
/// live session of a non-admin fails it, and so does any session that is
/// absent or expired.
pub proof fn lemma_admin_gate(
    users: Seq<User>,
    m: Map<Seq<char>, (i32, i64)>,
    key: Seq<char>,
    now: i64,
)
    ensures
        session_valid(m, key, now) && is_admin_user(users, m[key].0) ==> admin_session(
            users,
            m,
            key,
            now,
        ),
        !is_admin_user(users, m[key].0) ==> !admin_session(users, m, key, now),
        !session_valid(m, key, now) ==> !admin_session(users, m, key, now),
{
}

} // verus!
