//! The durable user store: keyed storage of user records with unique ids and
//! unique emails, exposing the five fallible operations the auth service
//! consumes.

use vstd::prelude::*;
use crate::error::StoreError;
use crate::user::User;
use crate::user::UserV;

verus! {

/// Whether some record in `users` carries `email`.
pub open spec fn has_email_in(users: Seq<UserV>, email: Seq<char>) -> bool {
    exists|i: int| 0 <= i < users.len() && (#[trigger] users[i]).email == email
}

/// The index of the record carrying `email`.
pub open spec fn email_index_in(users: Seq<UserV>, email: Seq<char>) -> int {
    choose|i: int| 0 <= i < users.len() && (#[trigger] users[i]).email == email
}

/// The record carrying `email`.
pub open spec fn user_by_email_in(users: Seq<UserV>, email: Seq<char>) -> UserV {
    users[email_index_in(users, email)]
}

/// Whether some record in `users` carries `id`.
pub open spec fn has_id_in(users: Seq<UserV>, id: i32) -> bool {
    exists|i: int| 0 <= i < users.len() && (#[trigger] users[i]).id == id
}

/// The index of the record carrying `id`.
pub open spec fn id_index_in(users: Seq<UserV>, id: i32) -> int {
    choose|i: int| 0 <= i < users.len() && (#[trigger] users[i]).id == id
}

/// The record carrying `id`.
pub open spec fn user_by_id_in(users: Seq<UserV>, id: i32) -> UserV {
    users[id_index_in(users, id)]
}

/// No two records carry the same email.
pub open spec fn emails_unique(users: Seq<UserV>) -> bool {
    forall|i: int, j: int| 0 <= i < j < users.len() ==> (#[trigger] users[i]).email != (#[trigger] users[j]).email
}

/// No two records carry the same id.
pub open spec fn ids_unique(users: Seq<UserV>) -> bool {
    forall|i: int, j: int| 0 <= i < j < users.len() ==> (#[trigger] users[i]).id != (#[trigger] users[j]).id
}

/// With unique emails, the index chosen for a record's email is that
/// record's own index.
proof fn lemma_email_index(users: Seq<UserV>, i: int)
    requires
        emails_unique(users),
        0 <= i < users.len(),
    ensures
        has_email_in(users, users[i].email),
        email_index_in(users, users[i].email) == i,
{
    assert(has_email_in(users, users[i].email));
    let j = email_index_in(users, users[i].email);
    if i < j {
        assert(users[i].email != users[j].email);
    } else if j < i {
        assert(users[j].email != users[i].email);
    }
}

/// With unique ids, the index chosen for a record's id is that record's own
/// index.
proof fn lemma_id_index(users: Seq<UserV>, i: int)
    requires
        ids_unique(users),
        0 <= i < users.len(),
    ensures
        has_id_in(users, users[i].id),
        id_index_in(users, users[i].id) == i,
{
    assert(has_id_in(users, users[i].id));
    let j = id_index_in(users, users[i].id);
    if i < j {
        assert(users[i].id != users[j].id);
    } else if j < i {
        assert(users[j].id != users[i].id);
    }
}

/// Durable storage of user records. Ids are assigned on creation from a
/// monotone counter and never reused; emails are unique across records.
pub struct UserStore {
    users: Vec<User>,
    next_id: i32,
}

impl UserStore {
    /// The records currently stored, in creation order.
    pub closed spec fn view(&self) -> Seq<UserV> {
        self.users@.map_values(|u: User| u@)
    }

    /// The id the next created record will receive.
    pub closed spec fn spec_next_id(&self) -> int {
        self.next_id as int
    }

    /// The store invariant: the id counter is in range, every stored id was
    /// assigned below it, and ids and emails are unique.
    pub open spec fn wf(&self) -> bool {
        &&& 1 <= self.spec_next_id() <= i32::MAX
        &&& (forall|i: int| 0 <= i < self@.len() ==> 1 <= (#[trigger] self@[i]).id < self.spec_next_id())
        &&& ids_unique(self@)
        &&& emails_unique(self@)
    }

    /// Whether some record carries `email`.
    pub open spec fn has_email(&self, email: Seq<char>) -> bool {
        has_email_in(self@, email)
    }

    /// The record carrying `email`.
    pub open spec fn user_by_email(&self, email: Seq<char>) -> UserV {
        user_by_email_in(self@, email)
    }

    /// Whether some record carries `id`.
    pub open spec fn has_id(&self, id: i32) -> bool {
        has_id_in(self@, id)
    }

    /// The record carrying `id`.
    pub open spec fn user_by_id(&self, id: i32) -> UserV {
        user_by_id_in(self@, id)
    }

    /// Returns an empty store.
    pub fn new() -> (s: UserStore)
        ensures
            s.wf(),
            s@ == Seq::<UserV>::empty(),
            s.spec_next_id() == 1,
    {
        let s = UserStore { users: Vec::new(), next_id: 1 };
        proof {
            assert(s@ =~= Seq::<UserV>::empty());
        }
        s
    }

    /// The number of records currently stored.
    pub fn len(&self) -> (n: usize)
        ensures
            n == self@.len(),
    {
        self.users.len()
    }

    /// Returns the index of the record carrying `email`, if any.
    fn find_email(&self, email: &String) -> (r: Option<usize>)
        ensures
            match r {
                Some(i) => i < self@.len() && self@[i as int].email == email@,
                None => !self.has_email(email@),
            },
    {
        let n = self.users.len();
        let mut i: usize = 0;
        while i < n
            invariant
                n == self@.len(),
                i <= n,
                forall|j: int| 0 <= j < i ==> (#[trigger] self@[j]).email != email@,
            decreases n - i,
        {
            if self.users[i].email == *email {
                return Some(i);
            }
            i = i + 1;
        }
        None
    }

    /// Returns the index of the record carrying `id`, if any.
    fn find_id(&self, id: i32) -> (r: Option<usize>)
        ensures
            match r {
                Some(i) => i < self@.len() && self@[i as int].id == id,
                None => !self.has_id(id),
            },
    {
        let n = self.users.len();
        let mut i: usize = 0;
        while i < n
            invariant
                n == self@.len(),
                i <= n,
                forall|j: int| 0 <= j < i ==> (#[trigger] self@[j]).id != id,
            decreases n - i,
        {
            if self.users[i].id == id {
                return Some(i);
            }
            i = i + 1;
        }
        None
    }

    /// Creates a record with a fresh id. Fails with `DuplicateEmail` if the
    /// email is already present, and with `Backend` if the id counter is
    /// exhausted; in both cases the store is unchanged.
    pub fn create(&mut self, email: String, password_hash: String, is_admin: bool, is_confirmed: bool) -> (r: Result<
        User,
        StoreError,
    >)
        requires
            old(self).wf(),
        ensures
            final(self).wf(),
            match r {
                Ok(u) => ({
                    &&& !old(self).has_email(email@)
                    &&& old(self).spec_next_id() < i32::MAX
                    &&& u@ == (UserV {
                        id: u@.id,
                        email: email@,
                        password: password_hash@,
                        is_admin: is_admin,
                        is_confirmed: is_confirmed,
                    })
                    &&& u@.id == old(self).spec_next_id()
                    &&& final(self)@ == old(self)@.push(u@)
                    &&& final(self).spec_next_id() == old(self).spec_next_id() + 1
                }),
                Err(StoreError::DuplicateEmail) => old(self).has_email(email@) && final(self)@ == old(self)@
                    && final(self).spec_next_id() == old(self).spec_next_id(),
                Err(StoreError::Backend) => !old(self).has_email(email@) && old(self).spec_next_id() == i32::MAX
                    && final(self)@ == old(self)@ && final(self).spec_next_id() == old(self).spec_next_id(),
                Err(StoreError::NotFound) => false,
            },
    {
        if self.find_email(&email).is_some() {
            return Err(StoreError::DuplicateEmail);
        }
        if self.next_id == i32::MAX {
            return Err(StoreError::Backend);
        }
        let id = self.next_id;
        self.next_id = id + 1;
        let u = User { id, email, password: password_hash, is_admin, is_confirmed };
        let record = u.duplicate();
        self.users.push(u);
        proof {
            assert(self@ =~= old(self)@.push(record@));
        }
        Ok(record)
    }

    /// Fetches the record carrying `email`; fails with `NotFound` if absent.
    pub fn get_by_email(&self, email: &String) -> (r: Result<User, StoreError>)
        requires
            self.wf(),
        ensures
            match r {
                Ok(u) => self.has_email(email@) && u@ == self.user_by_email(email@),
                Err(StoreError::NotFound) => !self.has_email(email@),
                _ => false,
            },
    {
        match self.find_email(email) {
            Some(i) => {
                proof {
                    lemma_email_index(self@, i as int);
                }
                Ok(self.users[i].duplicate())
            },
            None => Err(StoreError::NotFound),
        }
    }

    /// Fetches the record carrying `id`; fails with `NotFound` if absent.
    pub fn get_by_id(&self, id: i32) -> (r: Result<User, StoreError>)
        requires
            self.wf(),
        ensures
            match r {
                Ok(u) => self.has_id(id) && u@ == self.user_by_id(id),
                Err(StoreError::NotFound) => !self.has_id(id),
                _ => false,
            },
    {
        match self.find_id(id) {
            Some(i) => {
                proof {
                    lemma_id_index(self@, i as int);
                }
                Ok(self.users[i].duplicate())
            },
            None => Err(StoreError::NotFound),
        }
    }

    /// Overwrites the record carrying `id`. Fails with `NotFound` if the id
    /// is absent, and with `DuplicateEmail` if the new email belongs to a
    /// different record; in both cases the store is unchanged.
    pub fn update(&mut self, id: i32, email: String, password_hash: String, is_admin: bool, is_confirmed: bool) -> (r:
        Result<(), StoreError>)
        requires
            old(self).wf(),
        ensures
            final(self).wf(),
            final(self).spec_next_id() == old(self).spec_next_id(),
            match r {
                Ok(()) => ({
                    &&& old(self).has_id(id)
                    &&& (forall|j: int|
                        0 <= j < old(self)@.len() && (#[trigger] old(self)@[j]).email == email@
                            ==> old(self)@[j].id == id)
                    &&& final(self)@ == old(self)@.update(
                        id_index_in(old(self)@, id),
                        (UserV {
                            id: id,
                            email: email@,
                            password: password_hash@,
                            is_admin: is_admin,
                            is_confirmed: is_confirmed,
                        }),
                    )
                }),
                Err(StoreError::NotFound) => !old(self).has_id(id) && final(self)@ == old(self)@,
                Err(StoreError::DuplicateEmail) => ({
                    &&& old(self).has_id(id)
                    &&& (exists|j: int|
                        0 <= j < old(self)@.len() && (#[trigger] old(self)@[j]).email == email@
                            && old(self)@[j].id != id)
                    &&& final(self)@ == old(self)@
                }),
                Err(StoreError::Backend) => false,
            },
    {
        let idx = match self.find_id(id) {
            Some(i) => i,
            None => {
                return Err(StoreError::NotFound);
            },
        };
        proof {
            lemma_id_index(self@, idx as int);
        }
        if let Some(k) = self.find_email(&email) {
            if self.users[k].id != id {
                return Err(StoreError::DuplicateEmail);
            }
            proof {
                lemma_id_index(self@, k as int);
            }
        }
        let u = User { id, email, password: password_hash, is_admin, is_confirmed };
        let ghost pre = self@;
        self.users[idx] = u;
        proof {
            assert(self@ =~= pre.update(
                idx as int,
                (UserV {
                    id: id,
                    email: u.email@,
                    password: u.password@,
                    is_admin: is_admin,
                    is_confirmed: is_confirmed,
                }),
            ));
            assert forall|a: int, b: int| 0 <= a < b < self@.len() implies (#[trigger] self@[a]).email
                != (#[trigger] self@[b]).email by {
                if a != idx as int && b != idx as int {
                    assert(self@[a] == pre[a] && self@[b] == pre[b]);
                }
            }
        }
        Ok(())
    }

    /// Removes the record carrying `id`; fails with `NotFound` if absent. A
    /// second removal of the same id fails: removal is not idempotent.
    pub fn delete(&mut self, id: i32) -> (r: Result<(), StoreError>)
        requires
            old(self).wf(),
        ensures
            final(self).wf(),
            final(self).spec_next_id() == old(self).spec_next_id(),
            match r {
                Ok(()) => old(self).has_id(id) && final(self)@ == old(self)@.remove(id_index_in(old(self)@, id)),
                Err(StoreError::NotFound) => !old(self).has_id(id) && final(self)@ == old(self)@,
                _ => false,
            },
    {
        let idx = match self.find_id(id) {
            Some(i) => i,
            None => {
                return Err(StoreError::NotFound);
            },
        };
        proof {
            lemma_id_index(self@, idx as int);
        }
        let ghost pre = self@;
        self.users.remove(idx);
        proof {
            assert(self@ =~= pre.remove(idx as int));
            assert forall|a: int, b: int| 0 <= a < b < self@.len() implies (#[trigger] self@[a]).id
                != (#[trigger] self@[b]).id && self@[a].email != self@[b].email by {
                let a0 = if a < idx as int { a } else { a + 1 };
                let b0 = if b < idx as int { b } else { b + 1 };
                assert(self@[a] == pre[a0]);
                assert(self@[b] == pre[b0]);
            }
        }
        Ok(())
    }
}

} // verus!
