//! Server-side session storage and the session lifecycle.
//!
//! A session row maps a derived identifier — the one-way digest of the
//! raw bearer token — to its owning user and an absolute expiry time.
//! Rows are created at sign-in, read on every authenticated request,
//! and deleted on sign-out or lazily the first time they are read after
//! expiry. The store is modelled as a map from identifier to
//! (user id, expiry) pair.

use vstd::prelude::*;

use crate::crypto::{digest_of, generate_session_token, token_digest};

verus! {

/// One server-side session row. `id` is the digest of the bearer
/// token, never the token itself, so a stolen copy of the store yields
/// no usable credentials.
#[derive(Debug, PartialEq, Eq)]
pub struct Session {
    pub id: String,
    pub user_id: i32,
    pub expires_at: i64,
}

impl Session {
    /// The pair stored under the session identifier.
    pub open spec fn data(self) -> (i32, i64) {
        (self.user_id, self.expires_at)
    }
}

/// The map held by a sequence of session rows; later rows win, though
/// a well-formed store never repeats an identifier.
pub open spec fn sessions_map(rows: Seq<Session>) -> Map<Seq<char>, (i32, i64)>
    decreases rows.len(),
{
    if rows.len() == 0 {
        Map::empty()
    } else {
        sessions_map(rows.drop_last()).insert(rows.last().id@, rows.last().data())
    }
}

/// In-memory session table keyed uniquely by session identifier.
pub struct SessionStore {
    rows: Vec<Session>,
}

impl View for SessionStore {
    type V = Map<Seq<char>, (i32, i64)>;

    closed spec fn view(&self) -> Map<Seq<char>, (i32, i64)> {
        sessions_map(self.rows@)
    }
}

/// An identifier occurs in the map exactly when some row carries it.
proof fn lemma_map_contains(rows: Seq<Session>, id: Seq<char>)
    ensures
        sessions_map(rows).contains_key(id) <==> exists|i: int|
            0 <= i < rows.len() && rows[i].id@ == id,
    decreases rows.len(),
{
    if rows.len() > 0 {
        lemma_map_contains(rows.drop_last(), id);
        if rows.last().id@ == id {
            assert(rows[rows.len() - 1].id@ == id);
        } else if exists|i: int| 0 <= i < rows.len() && rows[i].id@ == id {
            let i = choose|i: int| 0 <= i < rows.len() && rows[i].id@ == id;
            assert(rows.drop_last()[i] == rows[i]);
        }
    }
}

impl SessionStore {
    /// Well-formedness: no identifier occurs twice.
    pub closed spec fn wf(self) -> bool {
        forall|i: int, j: int|
            0 <= i < j < self.rows@.len() ==> self.rows@[i].id@ != self.rows@[j].id@
    }

    /// A row's data is what the map stores under its identifier.
    proof fn lemma_map_value(rows: Seq<Session>, i: int)
        requires
            forall|p: int, q: int| 0 <= p < q < rows.len() ==> rows[p].id@ != rows[q].id@,
            0 <= i < rows.len(),
        ensures
            sessions_map(rows).contains_key(rows[i].id@),
            sessions_map(rows)[rows[i].id@] == rows[i].data(),
        decreases rows.len(),
    {
        if i == rows.len() - 1 {
        } else {
            Self::lemma_map_value(rows.drop_last(), i);
            assert(rows.drop_last()[i] == rows[i]);
            assert(rows.last().id@ != rows[i].id@);
        }
    }

    /// Removing a row removes exactly its key from the map.
    proof fn lemma_map_remove(rows: Seq<Session>, i: int)
        requires
            forall|p: int, q: int| 0 <= p < q < rows.len() ==> rows[p].id@ != rows[q].id@,
            0 <= i < rows.len(),
        ensures
            sessions_map(rows.remove(i)) == sessions_map(rows).remove(rows[i].id@),
        decreases rows.len(),
    {
        let key = rows[i].id@;
        if i == rows.len() - 1 {
            assert(rows.remove(i) =~= rows.drop_last());
            lemma_map_contains(rows.drop_last(), key);
            assert(forall|j: int|
                0 <= j < rows.drop_last().len() ==> rows.drop_last()[j].id@ != key);
            assert(sessions_map(rows.drop_last()) =~= sessions_map(rows).remove(key));
        } else {
            let dl = rows.drop_last();
            Self::lemma_map_remove(dl, i);
            assert(rows.remove(i).drop_last() =~= dl.remove(i));
            assert(rows.remove(i).last() == rows.last());
            assert(dl[i] == rows[i]);
            assert(rows.last().id@ != key);
            assert(sessions_map(rows.remove(i)) == sessions_map(dl.remove(i)).insert(
                rows.last().id@,
                rows.last().data(),
            ));
            assert(sessions_map(dl).remove(key).insert(rows.last().id@, rows.last().data())
                =~= sessions_map(dl).insert(rows.last().id@, rows.last().data()).remove(key));
        }
    }

    /// An empty store.
    pub fn new() -> (store: SessionStore)
        ensures
            store.wf(),
            store@ == Map::<Seq<char>, (i32, i64)>::empty(),
    {
        SessionStore { rows: Vec::new() }
    }

    /// How many rows the store holds.
    pub fn len(&self) -> (n: usize)
        requires
            self.wf(),
        ensures
            n == self@.dom().len(),
    {
        proof {
            Self::lemma_len(self.rows@);
        }
        self.rows.len()
    }

    /// With unique identifiers, the map has one key per row.
    proof fn lemma_len(rows: Seq<Session>)
        requires
            forall|p: int, q: int| 0 <= p < q < rows.len() ==> rows[p].id@ != rows[q].id@,
        ensures
            sessions_map(rows).dom().len() == rows.len(),
            sessions_map(rows).dom().finite(),
        decreases rows.len(),
    {
        if rows.len() > 0 {
            let dl = rows.drop_last();
            Self::lemma_len(dl);
            lemma_map_contains(dl, rows.last().id@);
            assert(!sessions_map(dl).contains_key(rows.last().id@));
            assert(sessions_map(rows).dom() =~= sessions_map(dl).dom().insert(rows.last().id@));
            vstd::set::axiom_set_insert_len(sessions_map(dl).dom(), rows.last().id@);
        }
    }

    /// Look an identifier up: the stored (user id, expiry) pair, if any.
    pub fn lookup(&self, id: &String) -> (r: Option<(i32, i64)>)
        requires
            self.wf(),
        ensures
            r == if self@.contains_key(id@) {
                Some(self@[id@])
            } else {
                None::<(i32, i64)>
            },
    {
        let n = self.rows.len();
        for i in 0..n
            invariant
                n == self.rows@.len(),
                self.wf(),
                forall|j: int| 0 <= j < i ==> self.rows@[j].id@ != id@,
        {
            if self.rows[i].id.eq(id) {
                proof {
                    Self::lemma_map_value(self.rows@, i as int);
                }
                return Some((self.rows[i].user_id, self.rows[i].expires_at));
            }
        }
        proof {
            lemma_map_contains(self.rows@, id@);
        }
        None
    }

    /// Insert a fresh row. An identifier collision is surfaced, never
    /// silently ignored.
    pub fn insert(&mut self, session: Session) -> (r: Result<(), SessionError>)
        requires
            old(self).wf(),
        ensures
            final(self).wf(),
            r is Ok <==> !old(self)@.contains_key(session.id@),
            r is Ok ==> final(self)@ == old(self)@.insert(session.id@, session.data()),
            r is Err ==> final(self)@ == old(self)@ && r == Err::<(), SessionError>(
                SessionError::IdentifierCollision,
            ),
    {
        if self.lookup(&session.id).is_some() {
            return Err(SessionError::IdentifierCollision);
        }
        proof {
            lemma_map_contains(self.rows@, session.id@);
        }
        let ghost old_rows = self.rows@;
        self.rows.push(session);
        proof {
            assert(self.rows@.drop_last() =~= old_rows);
        }
        Ok(())
    }

    /// Delete the row under `id`. Deleting an absent identifier is not
    /// an error: the operation is idempotent.
    pub fn remove(&mut self, id: &String)
        requires
            old(self).wf(),
        ensures
            final(self).wf(),
            final(self)@ == old(self)@.remove(id@),
    {
        let n = self.rows.len();
        for i in 0..n
            invariant
                n == self.rows@.len(),
                self == old(self),
                self.wf(),
                forall|j: int| 0 <= j < i ==> self.rows@[j].id@ != id@,
        {
            if self.rows[i].id.eq(id) {
                proof {
                    Self::lemma_map_remove(self.rows@, i as int);
                }
                self.rows.remove(i);
                proof {
                    assert(forall|p: int, q: int|
                        0 <= p < q < self.rows@.len() ==> self.rows@[p].id@ != self.rows@[q].id@);
                }
                return ;
            }
        }
        proof {
            lemma_map_contains(self.rows@, id@);
            assert(old(self)@.remove(id@) =~= old(self)@);
        }
    }
}

/// Authentication failures. Absent, unknown, deleted and expired
/// sessions all collapse into `Unauthenticated`; the admin gate
/// collapses every failure into `Unauthorized`. Neither variant tells
/// a caller which check failed.
#[derive(Clone, Copy, Debug, PartialEq, Eq, Structural)]
pub enum AuthError {
    Unauthenticated,
    Unauthorized,
}

impl AuthError {
    /// The deliberately generic user-facing message.
    pub fn message(&self) -> (r: String)
        ensures
            *self is Unauthenticated ==> r@ == "401 Unauthorized, please try signing out and back in again"@,
            *self is Unauthorized ==> r@ == "401 Unauthorized"@,
    {
        match self {
            AuthError::Unauthenticated => "401 Unauthorized, please try signing out and back in again".to_owned(),
            AuthError::Unauthorized => "401 Unauthorized".to_owned(),
        }
    }
}

/// Failures of session creation: the expiry computation left the
/// representable timestamp range, or the fresh identifier collided
/// with a stored one.
#[derive(Clone, Copy, Debug, PartialEq, Eq, Structural)]
pub enum SessionError {
    ExpiryOverflow,
    IdentifierCollision,
}

/// A session identifier is valid at `now` when it is present and not
/// yet expired; expiry is strict, so a session read exactly at its
/// expiry instant still counts as valid.
pub open spec fn session_valid(m: Map<Seq<char>, (i32, i64)>, key: Seq<char>, now: i64) -> bool {
    m.contains_key(key) && now <= m[key].1
}

/// The store contents after a validation touched `key` at `now`: an
/// expired row is purged, everything else is left alone.
pub open spec fn map_after_validate(
    m: Map<Seq<char>, (i32, i64)>,
    key: Seq<char>,
    now: i64,
) -> Map<Seq<char>, (i32, i64)> {
    if m.contains_key(key) && now > m[key].1 {
        m.remove(key)
    } else {
        m
    }
}

/// Create the session row for a known raw token: derive the identifier,
/// compute expiry thirty days out, and persist. Returns the stored row.
pub fn create_session_with_token(
    store: &mut SessionStore,
    user_id: i32,
    token: &str,
    now: i64,
) -> (r: Result<Session, SessionError>)
    requires
        old(store).wf(),
    ensures
        final(store).wf(),
        r is Ok <==> now + crate::SESSION_LIFETIME_SECONDS <= i64::MAX
            && !old(store)@.contains_key(digest_of(token@)),
        r matches Ok(s) ==> s.id@ == digest_of(token@) && s.user_id == user_id
            && s.expires_at == now + crate::SESSION_LIFETIME_SECONDS
            && final(store)@ == old(store)@.insert(digest_of(token@), (user_id, s.expires_at)),
        r is Err ==> final(store)@ == old(store)@,
        r == Err::<Session, SessionError>(SessionError::ExpiryOverflow) <==> now
            + crate::SESSION_LIFETIME_SECONDS > i64::MAX,
{
    let id = token_digest(token);
    let expires_at = match now.checked_add(crate::SESSION_LIFETIME_SECONDS) {
        Some(t) => t,
        None => {
            return Err(SessionError::ExpiryOverflow);
        },
    };
    let session = Session { id, user_id, expires_at };
    let row = Session {
        id: session.id.clone(),
        user_id: session.user_id,
        expires_at: session.expires_at,
    };
    match store.insert(session) {
        Ok(()) => Ok(row),
        Err(e) => Err(e),
    }
}

/// Issue a brand-new session for `user_id`: generate a fresh opaque
/// token, store its digest with a thirty-day expiry, and hand back the
/// raw token — the only copy that will ever exist.
pub fn create_session(store: &mut SessionStore, user_id: i32, now: i64) -> (r: Result<
    String,
    SessionError,
>)
    requires
        old(store).wf(),
    ensures
        final(store).wf(),
        r matches Ok(token) ==> token@.len() == 32 && !old(store)@.contains_key(digest_of(token@))
            && final(store)@ == old(store)@.insert(
            digest_of(token@),
            (user_id, (now + crate::SESSION_LIFETIME_SECONDS) as i64),
        ),
        r is Err ==> final(store)@ == old(store)@,
        r == Err::<String, SessionError>(SessionError::ExpiryOverflow) <==> now
            + crate::SESSION_LIFETIME_SECONDS > i64::MAX,
{
    let token = generate_session_token();
    match create_session_with_token(store, user_id, token.as_str(), now) {
        Ok(_) => Ok(token),
        Err(e) => Err(e),
    }
}

/// Validate a raw bearer token at time `now`: derive the identifier,
/// look it up, enforce expiry. An expired row is deleted on this very
/// read; an absent, deleted or expired session is reported by the one
/// generic `Unauthenticated` error.
pub fn validate_session(store: &mut SessionStore, token: &str, now: i64) -> (r: Result<
    Session,
    AuthError,
>)
    requires
        old(store).wf(),
    ensures
        final(store).wf(),
        r is Ok <==> session_valid(old(store)@, digest_of(token@), now),
        r matches Ok(s) ==> s.id@ == digest_of(token@) && old(store)@.contains_key(s.id@)
            && (s.user_id, s.expires_at) == old(store)@[s.id@],
        r matches Err(e) ==> e == AuthError::Unauthenticated,
        final(store)@ == map_after_validate(old(store)@, digest_of(token@), now),
{
    let id = token_digest(token);
    match store.lookup(&id) {
        None => Err(AuthError::Unauthenticated),
        Some((user_id, expires_at)) => {
            if now > expires_at {
                store.remove(&id);
                Err(AuthError::Unauthenticated)
            } else {
                Ok(Session { id, user_id, expires_at })
            }
        },
    }
}

/// Law: an expired session must fail validation, and the failing read
/// itself purges the row, so the identifier is absent afterwards.
pub proof fn lemma_expired_session_fails_and_is_purged(
    m: Map<Seq<char>, (i32, i64)>,
    key: Seq<char>,
    now: i64,
)
    requires
        m.contains_key(key),
        now > m[key].1,
    ensures
        !session_valid(m, key, now),
        map_after_validate(m, key, now) == m.remove(key),
        !map_after_validate(m, key, now).contains_key(key),
{
}

} // verus!
