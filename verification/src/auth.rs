//! The auth service: signup, login, logout and account deletion over an
//! injected user store and session cache.
//!
//! Authentication is checked fresh on every operation by a direct cache
//! lookup; the service holds no state of its own beyond the two stores it
//! borrows. Operations that judge expiry take the current instant from the
//! caller.

use vstd::prelude::*;
use crate::crypto::argon2_verifies;
use crate::crypto::hash_password;
use crate::crypto::rand_string;
use crate::crypto::verify_digest;
use crate::error::AuthError;
use crate::error::auth_error_of_store;
use crate::session::SessVal;
use crate::session::SessionCache;
use crate::session::expiry_at;
use crate::session::spec_get;
use crate::store::UserStore;
use crate::user::UserV;
use vstd::string::StrSliceExecFns;

verus! {

/// A caller-presented session: the user id it claims and the bearer key
/// backing the claim.
pub struct Session {
    pub id: i32,
    pub auth_key: String,
}

/// A transient signup form.
pub struct Signup {
    pub email: String,
    pub password: String,
}

/// A transient login form.
pub struct Login {
    pub email: String,
    pub password: String,
}

/// Whether an email is acceptable at signup: it must carry an `@`.
pub open spec fn spec_valid_email(email: Seq<char>) -> bool {
    exists|i: int| 0 <= i < email.len() && email[i] == '@'
}

/// Whether a password is acceptable at signup: non-empty and short enough to
/// hash.
pub open spec fn spec_valid_password(password: Seq<char>) -> bool {
    1 <= password.len() <= 4096
}

/// Whether a signup form passes validation.
pub open spec fn spec_valid_signup(email: Seq<char>, password: Seq<char>) -> bool {
    spec_valid_email(email) && spec_valid_password(password)
}

impl Signup {
    /// Validates the form; fails with `ValidationError` and no other effect
    /// on a malformed email or password.
    pub fn validate(&self) -> (r: Result<(), AuthError>)
        ensures
            r == (if spec_valid_signup(self.email@, self.password@) {
                Ok::<(), AuthError>(())
            } else {
                Err::<(), AuthError>(AuthError::ValidationError)
            }),
    {
        let n = self.email.as_str().unicode_len();
        let mut i: usize = 0;
        let mut seen_at = false;
        while i < n
            invariant
                n == self.email@.len(),
                i <= n,
                seen_at == (exists|j: int| 0 <= j < i && self.email@[j] == '@'),
            decreases n - i,
        {
            if self.email.as_str().get_char(i) == '@' {
                seen_at = true;
            }
            i = i + 1;
        }
        let pw_len = self.password.as_str().unicode_len();
        if seen_at && 1 <= pw_len && pw_len <= 4096 {
            Ok(())
        } else {
            Err(AuthError::ValidationError)
        }
    }
}

/// Whether the session `(id, key)` authenticates at instant `now` against
/// the mappings `m`: the key resolves, live, to exactly the claimed id.
pub open spec fn spec_is_auth(m: Map<Seq<char>, SessVal>, id: i32, key: Seq<char>, now: u64) -> bool {
    spec_get(m, key, now) == Some(id)
}

/// The auth service: the only component with business logic. It borrows the
/// durable user store and the ephemeral session cache.
pub struct Users {
    pub conn: UserStore,
    pub sess: SessionCache,
}

impl Users {
    /// Both borrowed stores satisfy their invariants.
    pub open spec fn wf(&self) -> bool {
        self.conn.wf() && self.sess.wf()
    }

    /// Returns a service over an empty store and an empty cache.
    pub fn new() -> (u: Users)
        ensures
            u.wf(),
            u.conn@ == Seq::<UserV>::empty(),
            u.conn.spec_next_id() == 1,
            u.sess@ == Map::<Seq<char>, SessVal>::empty(),
    {
        Users { conn: UserStore::new(), sess: SessionCache::new() }
    }

    /// Whether `session` presents a key that resolves, live at `now`, to its
    /// claimed user id.
    pub fn is_auth(&self, session: &Session, now: u64) -> (r: bool)
        requires
            self.wf(),
        ensures
            r == spec_is_auth(self.sess@, session.id, session.auth_key@, now),
    {
        let option = self.sess.get(&session.auth_key, now);
        if let Some(user_id) = option {
            user_id == session.id
        } else {
            false
        }
    }

    /// Issues a fresh unexpiring session key for `user_id` and stores the
    /// mapping.
    pub fn set_auth_key(&mut self, user_id: i32) -> (r: Result<String, AuthError>)
        requires
            old(self).wf(),
        ensures
            final(self).wf(),
            final(self).conn == old(self).conn,
            match r {
                Ok(key) => key@.len() == 15 && final(self).sess@ == old(self).sess@.insert(
                    key@,
                    (SessVal { user_id: user_id, expiry: None }),
                ),
                Err(_) => false,
            },
    {
        let key = rand_string(15);
        self.sess.insert(user_id, key.clone());
        Ok(key)
    }

    /// Issues a fresh session key for `user_id` that lapses `ttl` seconds
    /// after the instant `now`, and stores the mapping.
    pub fn set_auth_key_for(&mut self, user_id: i32, ttl: u64, now: u64) -> (r: Result<
        String,
        AuthError,
    >)
        requires
            old(self).wf(),
        ensures
            final(self).wf(),
            final(self).conn == old(self).conn,
            match r {
                Ok(key) => key@.len() == 10 && final(self).sess@ == old(self).sess@.insert(
                    key@,
                    (SessVal { user_id: user_id, expiry: Some(expiry_at(now, ttl)) }),
                ),
                Err(_) => false,
            },
    {
        let key = rand_string(10);
        self.sess.insert_for(user_id, key.clone(), ttl, now);
        Ok(key)
    }

    /// Signs a user up: validates the form before any store access, hashes
    /// the password, and creates an unconfirmed, non-admin record. A
    /// store-level duplicate email is re-signalled as `EmailAlreadyExists`;
    /// no session is created.
    pub fn signup(&mut self, form: &Signup) -> (r: Result<(), AuthError>)
        requires
            old(self).wf(),
        ensures
            final(self).wf(),
            final(self).sess == old(self).sess,
            final(self).conn.spec_next_id() >= old(self).conn.spec_next_id(),
            match r {
                Ok(()) => ({
                    &&& spec_valid_signup(form.email@, form.password@)
                    &&& !old(self).conn.has_email(form.email@)
                    &&& old(self).conn.spec_next_id() < i32::MAX
                    &&& final(self).conn@ == old(self).conn@.push(final(self).conn@.last())
                    &&& final(self).conn@.last() == (UserV {
                        id: old(self).conn.spec_next_id() as i32,
                        email: form.email@,
                        password: final(self).conn@.last().password,
                        is_admin: false,
                        is_confirmed: false,
                    })
                    &&& argon2_verifies(final(self).conn@.last().password, form.password@)
                    &&& final(self).conn.spec_next_id() == old(self).conn.spec_next_id() + 1
                }),
                Err(AuthError::ValidationError) => !spec_valid_signup(form.email@, form.password@)
                    && final(self).conn@ == old(self).conn@ && final(self).conn.spec_next_id() == old(self).conn.spec_next_id(),
                Err(AuthError::EmailAlreadyExists) => spec_valid_signup(form.email@, form.password@)
                    && old(self).conn.has_email(form.email@) && final(self).conn@ == old(self).conn@ && final(self).conn.spec_next_id() == old(self).conn.spec_next_id(),
                Err(AuthError::Backend) => spec_valid_signup(form.email@, form.password@) && !old(self).conn.has_email(form.email@) && old(self).conn.spec_next_id() == i32::MAX && final(self).conn@ == old(self).conn@ && final(self).conn.spec_next_id() == old(self).conn.spec_next_id(),
                Err(_) => false,
            },
    {
        if let Err(e) = form.validate() {
            return Err(e);
        }
        let salt = rand_string(16);
        let digest = match hash_password(form.password.as_str(), salt.as_str()) {
            Some(d) => d,
            None => {
                // unreachable: the validated password and the 16-character
                // salt are within the hasher's accepted bounds
                proof {
                    assert(false);
                }
                return Err(AuthError::Backend);
            },
        };
        match self.conn.create(form.email.clone(), digest, false, false) {
            Ok(_) => Ok(()),
            Err(e) => Err(auth_error_of_store(e)),
        }
    }

    /// Creates a confirmed account for an identity vouched for by an
    /// external trust source, under a freshly generated random password that
    /// is never revealed. Duplicate emails are handled as in `signup`.
    pub fn signup_external(&mut self, email: &String) -> (r: Result<(), AuthError>)
        requires
            old(self).wf(),
        ensures
            final(self).wf(),
            final(self).sess == old(self).sess,
            match r {
                Ok(()) => ({
                    &&& !old(self).conn.has_email(email@)
                    &&& old(self).conn.spec_next_id() < i32::MAX
                    &&& final(self).conn@ == old(self).conn@.push(final(self).conn@.last())
                    &&& final(self).conn@.last() == (UserV {
                        id: old(self).conn.spec_next_id() as i32,
                        email: email@,
                        password: final(self).conn@.last().password,
                        is_admin: false,
                        is_confirmed: true,
                    })
                    &&& final(self).conn.spec_next_id() == old(self).conn.spec_next_id() + 1
                }),
                Err(AuthError::EmailAlreadyExists) => old(self).conn.has_email(email@) && final(self).conn@ == old(self).conn@ && final(self).conn.spec_next_id() == old(self).conn.spec_next_id(),
                Err(AuthError::Backend) => !old(self).conn.has_email(email@) && old(self).conn.spec_next_id() == i32::MAX && final(self).conn@ == old(self).conn@ && final(self).conn.spec_next_id() == old(self).conn.spec_next_id(),
                Err(_) => false,
            },
    {
        let password = rand_string(32);
        let salt = rand_string(16);
        let digest = match hash_password(password.as_str(), salt.as_str()) {
            Some(d) => d,
            None => {
                // unreachable: the generated password and the 16-character
                // salt are within the hasher's accepted bounds
                proof {
                    assert(false);
                }
                return Err(AuthError::Backend);
            },
        };
        match self.conn.create(email.clone(), digest, false, true) {
            Ok(_) => Ok(()),
            Err(e) => Err(auth_error_of_store(e)),
        }
    }

    /// Logs a user in: looks the email up (`EmailDoesNotExist` if absent),
    /// verifies the password against the stored hash (`UnauthorizedError` on
    /// mismatch), and on success issues and returns a fresh unexpiring
    /// session key.
    pub fn login(&mut self, form: &Login) -> (r: Result<String, AuthError>)
        requires
            old(self).wf(),
        ensures
            final(self).wf(),
            final(self).conn == old(self).conn,
            old(self).conn.has_email(form.email@) && argon2_verifies(
                old(self).conn.user_by_email(form.email@).password,
                form.password@,
            ) ==> r is Ok,
            match r {
                Ok(key) => ({
                    &&& old(self).conn.has_email(form.email@)
                    &&& argon2_verifies(
                        old(self).conn.user_by_email(form.email@).password,
                        form.password@,
                    )
                    &&& key@.len() == 15
                    &&& final(self).sess@ == old(self).sess@.insert(
                        key@,
                        (SessVal {
                            user_id: old(self).conn.user_by_email(form.email@).id,
                            expiry: None,
                        }),
                    )
                }),
                Err(AuthError::EmailDoesNotExist) => !old(self).conn.has_email(form.email@) && final(self).sess == old(self).sess,
                Err(AuthError::UnauthorizedError) => old(self).conn.has_email(form.email@)
                    && !argon2_verifies(
                    old(self).conn.user_by_email(form.email@).password,
                    form.password@,
                ) && final(self).sess == old(self).sess,
                Err(_) => false,
            },
    {
        let user = match self.conn.get_by_email(&form.email) {
            Ok(u) => u,
            Err(_) => {
                return Err(AuthError::EmailDoesNotExist);
            },
        };
        if verify_digest(user.password.as_str(), form.password.as_str()) {
            self.set_auth_key(user.id)
        } else {
            Err(AuthError::UnauthorizedError)
        }
    }

    /// Logs an externally vouched-for identity in: looks the email up
    /// (`EmailDoesNotExist` if absent) and issues a session key with no
    /// password check.
    pub fn login_external(&mut self, email: &String) -> (r: Result<String, AuthError>)
        requires
            old(self).wf(),
        ensures
            final(self).wf(),
            final(self).conn == old(self).conn,
            match r {
                Ok(key) => ({
                    &&& old(self).conn.has_email(email@)
                    &&& key@.len() == 15
                    &&& final(self).sess@ == old(self).sess@.insert(
                        key@,
                        (SessVal { user_id: old(self).conn.user_by_email(email@).id, expiry: None }),
                    )
                }),
                Err(AuthError::EmailDoesNotExist) => !old(self).conn.has_email(email@) && final(self).sess == old(self).sess,
                Err(_) => false,
            },
    {
        let user = match self.conn.get_by_email(email) {
            Ok(u) => u,
            Err(_) => {
                return Err(AuthError::EmailDoesNotExist);
            },
        };
        self.set_auth_key(user.id)
    }

    /// Logs a user in with a time-bounded session: as `login`, but the key
    /// lapses `ttl` seconds after `now`, and a lookup miss propagates as the
    /// store's raw `NotFound` rather than `EmailDoesNotExist`.
    pub fn login_for(&mut self, form: &Login, ttl: u64, now: u64) -> (r: Result<String, AuthError>)
        requires
            old(self).wf(),
        ensures
            final(self).wf(),
            final(self).conn == old(self).conn,
            old(self).conn.has_email(form.email@) && argon2_verifies(
                old(self).conn.user_by_email(form.email@).password,
                form.password@,
            ) ==> r is Ok,
            match r {
                Ok(key) => ({
                    &&& old(self).conn.has_email(form.email@)
                    &&& argon2_verifies(
                        old(self).conn.user_by_email(form.email@).password,
                        form.password@,
                    )
                    &&& key@.len() == 10
                    &&& final(self).sess@ == old(self).sess@.insert(
                        key@,
                        (SessVal {
                            user_id: old(self).conn.user_by_email(form.email@).id,
                            expiry: Some(expiry_at(now, ttl)),
                        }),
                    )
                }),
                Err(AuthError::NotFound) => !old(self).conn.has_email(form.email@) && final(self).sess == old(self).sess,
                Err(AuthError::UnauthorizedError) => old(self).conn.has_email(form.email@)
                    && !argon2_verifies(
                    old(self).conn.user_by_email(form.email@).password,
                    form.password@,
                ) && final(self).sess == old(self).sess,
                Err(_) => false,
            },
    {
        let user = match self.conn.get_by_email(&form.email) {
            Ok(u) => u,
            Err(e) => {
                return Err(auth_error_of_store(e));
            },
        };
        if verify_digest(user.password.as_str(), form.password.as_str()) {
            self.set_auth_key_for(user.id, ttl, now)
        } else {
            Err(AuthError::UnauthorizedError)
        }
    }

    /// Logs a session out: removes its mapping if the session authenticates
    /// at `now`, and otherwise does nothing. Never an error, so a second
    /// logout of the same session succeeds as a no-op.
    pub fn logout(&mut self, session: &Session, now: u64) -> (r: Result<(), AuthError>)
        requires
            old(self).wf(),
        ensures
            final(self).wf(),
            final(self).conn == old(self).conn,
            r is Ok,
            spec_is_auth(old(self).sess@, session.id, session.auth_key@, now) ==> final(self).sess@
                == old(self).sess@.remove(session.auth_key@),
            !spec_is_auth(old(self).sess@, session.id, session.auth_key@, now) ==> final(self).sess
                == old(self).sess,
    {
        if self.is_auth(session, now) {
            self.sess.remove(&session.auth_key);
        }
        Ok(())
    }

    /// Deletes the account the session claims: removes the user record
    /// (`NotFound` if it is already gone, for example removed directly from
    /// the store) and, on success, invalidates the presented session key and
    /// every other live session of that user.
    pub fn delete(&mut self, session: &Session) -> (r: Result<(), AuthError>)
        requires
            old(self).wf(),
        ensures
            final(self).wf(),
            final(self).conn.spec_next_id() == old(self).conn.spec_next_id(),
            match r {
                Ok(()) => ({
                    &&& old(self).conn.has_id(session.id)
                    &&& final(self).conn@ == old(self).conn@.remove(
                        crate::store::id_index_in(old(self).conn@, session.id),
                    )
                    &&& (forall|k: Seq<char>|
                        #[trigger] final(self).sess@.contains_key(k) <==> (old(
                            self,
                        ).sess@.contains_key(k) && k != session.auth_key@ && old(
                            self,
                        ).sess@[k].user_id != session.id))
                    &&& (forall|k: Seq<char>| #[trigger]
                        final(self).sess@.contains_key(k) ==> final(self).sess@[k] == old(
                            self,
                        ).sess@[k])
                    &&& (forall|k: Seq<char>, t: u64|
                        !spec_is_auth(final(self).sess@, session.id, k, t))
                }),
                Err(AuthError::NotFound) => !old(self).conn.has_id(session.id) && final(self).conn@
                    == old(self).conn@ && final(self).sess == old(self).sess,
                Err(_) => false,
            },
    {
        match self.conn.delete(session.id) {
            Ok(()) => {
                self.sess.remove(&session.auth_key);
                self.sess.remove_user(session.id);
                Ok(())
            },
            Err(e) => Err(auth_error_of_store(e)),
        }
    }
}

/// After a signup appends a record whose digest matches the password, a
/// login with the same credentials finds exactly that record, so the login
/// is owed success.
pub proof fn lemma_signup_enables_login(users: Seq<UserV>, u: UserV, password: Seq<char>)
    requires
        !crate::store::has_email_in(users, u.email),
        argon2_verifies(u.password, password),
    ensures
        crate::store::has_email_in(users.push(u), u.email),
        crate::store::user_by_email_in(users.push(u), u.email) == u,
        argon2_verifies(crate::store::user_by_email_in(users.push(u), u.email).password, password),
{
    let appended = users.push(u);
    assert(appended[users.len() as int] == u);
    assert(crate::store::has_email_in(appended, u.email));
    let i = crate::store::email_index_in(appended, u.email);
    if i < users.len() {
        assert(users[i] == appended[i]);
        assert(crate::store::has_email_in(users, u.email));
    }
}

/// Logout is idempotent: once a session's key is removed, the same session
/// no longer authenticates at any instant, so a second logout is a no-op and
/// still succeeds.
pub proof fn lemma_logout_idempotent(m: Map<Seq<char>, SessVal>, id: i32, key: Seq<char>, now: u64)
    ensures
        !spec_is_auth(m.remove(key), id, key, now),
{
}

} // verus!
