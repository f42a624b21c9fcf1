//! The account store: the narrow read/write surface the core needs from
//! persistence, held here as an in-memory table of account rows.
//!
//! The store's invariant: account names are unique, and the two linked
//! external-service fields of a row are present or absent together. Every
//! operation's contract is stated over which name holds which row.

use crate::errors::Error;
use crate::model::User;
use vstd::prelude::*;

verus! {

/// One stored account row.
#[derive(Debug)]
pub struct UserRecord {
    pub name: String,
    pub password_hash: String,
    pub admin: bool,
    pub lastfm_username: Option<String>,
    pub lastfm_session_key: Option<String>,
}

/// The mathematical value of a stored row, keyed elsewhere by its name.
pub ghost struct UserRowView {
    pub password_hash: Seq<char>,
    pub admin: bool,
    pub lastfm_username: Option<Seq<char>>,
    pub lastfm_session_key: Option<Seq<char>>,
}

impl UserRecord {
    pub open spec fn row_view(self) -> UserRowView {
        UserRowView {
            password_hash: self.password_hash@,
            admin: self.admin,
            lastfm_username: match self.lastfm_username {
                Some(s) => Some(s@),
                None => None,
            },
            lastfm_session_key: match self.lastfm_session_key {
                Some(s) => Some(s@),
                None => None,
            },
        }
    }
}

/// Whether some row of `s` is named `name`.
pub open spec fn seq_has_name(s: Seq<UserRecord>, name: Seq<char>) -> bool {
    exists|i: int| 0 <= i < s.len() && (#[trigger] s[i]).name@ == name
}

/// The index of the row named `name`, when one exists.
pub open spec fn seq_name_idx(s: Seq<UserRecord>, name: Seq<char>) -> int {
    choose|i: int| 0 <= i < s.len() && (#[trigger] s[i]).name@ == name
}

/// No two rows share a name.
pub open spec fn seq_unique_names(s: Seq<UserRecord>) -> bool {
    forall|i: int, j: int|
        #![trigger s[i], s[j]]
        0 <= i < j < s.len() ==> s[i].name@ != s[j].name@
}

/// A row's linked identity and linked secret are present or absent together.
pub open spec fn seq_links_paired(s: Seq<UserRecord>) -> bool {
    forall|i: int|
        0 <= i < s.len() ==> ((#[trigger] s[i]).lastfm_username is Some
            <==> s[i].lastfm_session_key is Some)
}

/// A row index is the unique witness for its own name.
proof fn lemma_row_at(s: Seq<UserRecord>, i: int)
    requires
        seq_unique_names(s),
        0 <= i < s.len(),
    ensures
        seq_has_name(s, s[i].name@),
        seq_name_idx(s, s[i].name@) == i,
{
    let name = s[i].name@;
    assert(seq_has_name(s, name));
    let j = seq_name_idx(s, name);
    assert(0 <= j < s.len() && s[j].name@ == name);
    if i < j {
        assert(s[i].name@ != s[j].name@);
        assert(false);
    }
    if j < i {
        assert(s[j].name@ != s[i].name@);
        assert(false);
    }
}

/// What appending a fresh row does to the table.
proof fn lemma_push_effects(s: Seq<UserRecord>, r: UserRecord)
    requires
        seq_unique_names(s),
        seq_links_paired(s),
        !seq_has_name(s, r.name@),
        r.lastfm_username is Some <==> r.lastfm_session_key is Some,
    ensures
        seq_unique_names(s.push(r)),
        seq_links_paired(s.push(r)),
        s.push(r).len() == s.len() + 1,
        seq_has_name(s.push(r), r.name@),
        seq_name_idx(s.push(r), r.name@) == s.len(),
        s.push(r)[seq_name_idx(s.push(r), r.name@)] == r,
        forall|k: Seq<char>|
            k != r.name@ ==> #[trigger] seq_has_name(s.push(r), k) == seq_has_name(s, k),
        forall|k: Seq<char>|
            k != r.name@ && seq_has_name(s, k) ==> #[trigger] seq_name_idx(s.push(r), k)
                == seq_name_idx(s, k) && s.push(r)[seq_name_idx(s.push(r), k)] == s[seq_name_idx(
                s,
                k,
            )],
{
    let t = s.push(r);
    assert(t[s.len() as int] == r);
    assert forall|i: int, j: int|
        #![trigger t[i], t[j]]
        0 <= i < j < t.len() implies t[i].name@ != t[j].name@ by {
        if j < s.len() {
            assert(t[i] == s[i] && t[j] == s[j]);
        } else {
            assert(t[j] == r);
            assert(t[i] == s[i]);
            if t[i].name@ == r.name@ {
                assert(seq_has_name(s, r.name@));
            }
        }
    }
    assert forall|i: int| 0 <= i < t.len() implies ((#[trigger] t[i]).lastfm_username is Some
        <==> t[i].lastfm_session_key is Some) by {
        if i < s.len() {
            assert(t[i] == s[i]);
        } else {
            assert(t[i] == r);
        }
    }
    assert(t[s.len() as int].name@ == r.name@);
    assert(seq_has_name(t, r.name@));
    lemma_row_at(t, s.len() as int);
    assert forall|k: Seq<char>| k != r.name@ implies #[trigger] seq_has_name(t, k)
        == seq_has_name(s, k) by {
        if seq_has_name(s, k) {
            let i = seq_name_idx(s, k);
            assert(0 <= i < s.len() && s[i].name@ == k);
            assert(t[i] == s[i]);
            assert(seq_has_name(t, k));
        }
        if seq_has_name(t, k) {
            let i = seq_name_idx(t, k);
            assert(0 <= i < t.len() && t[i].name@ == k);
            assert(i != s.len());
            assert(t[i] == s[i]);
            assert(seq_has_name(s, k));
        }
    }
    assert forall|k: Seq<char>| k != r.name@ && seq_has_name(s, k) implies #[trigger] seq_name_idx(
        t,
        k,
    ) == seq_name_idx(s, k) && t[seq_name_idx(t, k)] == s[seq_name_idx(s, k)] by {
        let i = seq_name_idx(s, k);
        assert(0 <= i < s.len() && s[i].name@ == k);
        assert(t[i] == s[i]);
        lemma_row_at(t, i);
    }
}

/// What removing a row does to the table.
proof fn lemma_remove_effects(s: Seq<UserRecord>, i: int)
    requires
        seq_unique_names(s),
        seq_links_paired(s),
        0 <= i < s.len(),
    ensures
        s.remove(i).len() == s.len() - 1,
        seq_unique_names(s.remove(i)),
        seq_links_paired(s.remove(i)),
        !seq_has_name(s.remove(i), s[i].name@),
        forall|k: Seq<char>|
            k != s[i].name@ ==> #[trigger] seq_has_name(s.remove(i), k) == seq_has_name(s, k),
        forall|k: Seq<char>|
            k != s[i].name@ && seq_has_name(s, k) ==> #[trigger] s.remove(i)[seq_name_idx(
                s.remove(i),
                k,
            )] == s[seq_name_idx(s, k)],
{
    let t = s.remove(i);
    s.remove_ensures(i);
    assert forall|a: int, b: int|
        #![trigger t[a], t[b]]
        0 <= a < b < t.len() implies t[a].name@ != t[b].name@ by {
        let oa: int = if a < i { a } else { a + 1 };
        let ob: int = if b < i { b } else { b + 1 };
        assert(t[a] == s[oa]);
        assert(t[b] == s[ob]);
        assert(s[oa].name@ != s[ob].name@);
    }
    assert forall|a: int| 0 <= a < t.len() implies ((#[trigger] t[a]).lastfm_username is Some
        <==> t[a].lastfm_session_key is Some) by {
        let oa: int = if a < i { a } else { a + 1 };
        assert(t[a] == s[oa]);
    }
    assert(!seq_has_name(t, s[i].name@)) by {
        if seq_has_name(t, s[i].name@) {
            let a = seq_name_idx(t, s[i].name@);
            assert(0 <= a < t.len() && t[a].name@ == s[i].name@);
            let oa: int = if a < i { a } else { a + 1 };
            assert(t[a] == s[oa]);
            assert(oa != i);
            if oa < i {
                assert(s[oa].name@ != s[i].name@);
            } else {
                assert(s[i].name@ != s[oa].name@);
            }
            assert(false);
        }
    }
    assert forall|k: Seq<char>| k != s[i].name@ implies #[trigger] seq_has_name(t, k)
        == seq_has_name(s, k) by {
        if seq_has_name(s, k) {
            let a = seq_name_idx(s, k);
            assert(0 <= a < s.len() && s[a].name@ == k);
            assert(a != i);
            let na: int = if a < i { a } else { a - 1 };
            assert(t[na] == s[a]);
            assert(seq_has_name(t, k));
        }
        if seq_has_name(t, k) {
            let a = seq_name_idx(t, k);
            assert(0 <= a < t.len() && t[a].name@ == k);
            let oa: int = if a < i { a } else { a + 1 };
            assert(t[a] == s[oa]);
            assert(seq_has_name(s, k));
        }
    }
    assert forall|k: Seq<char>| k != s[i].name@ && seq_has_name(s, k) implies #[trigger] t[
        seq_name_idx(t, k)] == s[seq_name_idx(s, k)] by {
        let a = seq_name_idx(s, k);
        assert(0 <= a < s.len() && s[a].name@ == k);
        assert(a != i);
        let na: int = if a < i { a } else { a - 1 };
        assert(t[na] == s[a]);
        assert(t[na].name@ == k);
        lemma_row_at(t, na);
    }
}

/// The in-memory account table.
#[derive(Debug)]
pub struct AccountStore {
    users: Vec<UserRecord>,
}

impl AccountStore {
    /// The rows, as mathematics.
    pub closed spec fn rows(self) -> Seq<UserRecord> {
        self.users@
    }

    /// The store's invariant.
    pub open spec fn wf(self) -> bool {
        seq_unique_names(self.rows()) && seq_links_paired(self.rows())
    }

    /// How many accounts are stored.
    pub open spec fn len_spec(self) -> nat {
        self.rows().len()
    }

    /// Whether an account of this name is stored.
    pub open spec fn contains_spec(self, name: Seq<char>) -> bool {
        seq_has_name(self.rows(), name)
    }

    /// The row stored under `name`; meaningful when `contains_spec(name)`.
    pub open spec fn row(self, name: Seq<char>) -> UserRowView {
        self.rows()[seq_name_idx(self.rows(), name)].row_view()
    }

    /// An empty store.
    pub fn new() -> (r: AccountStore)
        ensures
            r.wf(),
            r.len_spec() == 0,
            forall|k: Seq<char>| !(#[trigger] r.contains_spec(k)),
    {
        AccountStore { users: Vec::new() }
    }

    /// The index of the row named `username`, if any.
    fn lookup(&self, username: &str) -> (r: Option<usize>)
        requires
            self.wf(),
        ensures
            match r {
                Some(i) => {
                    &&& i < self.rows().len()
                    &&& self.rows()[i as int].name@ == username@
                    &&& self.contains_spec(username@)
                    &&& seq_name_idx(self.rows(), username@) == i as int
                },
                None => !self.contains_spec(username@),
            },
    {
        let n = self.users.len();
        let target = username.to_owned();
        let mut i: usize = 0;
        while i < n
            invariant
                i <= n,
                n == self.rows().len(),
                self.wf(),
                target@ == username@,
                forall|j: int| 0 <= j < i ==> (#[trigger] self.rows()[j]).name@ != username@,
            decreases n - i,
        {
            if self.users[i].name == target {
                proof {
                    lemma_row_at(self.rows(), i as int);
                }
                return Some(i);
            }
            i = i + 1;
        }
        proof {
            assert(!seq_has_name(self.rows(), username@)) by {
                if seq_has_name(self.rows(), username@) {
                    let j = seq_name_idx(self.rows(), username@);
                    assert(0 <= j < self.rows().len() && self.rows()[j].name@ == username@);
                    assert(false);
                }
            }
        }
        None
    }

    /// Inserts a fresh account. A name already stored is refused, as the
    /// storage layer's uniqueness constraint would refuse it.
    pub fn insert(&mut self, user: User) -> (r: Result<(), Error>)
        requires
            old(self).wf(),
        ensures
            final(self).wf(),
            r is Ok <==> !old(self).contains_spec(user.name@),
            r is Err ==> r == Err::<(), Error>(Error::Unspecified) && *final(self) == *old(self),
            r is Ok ==> {
                &&& final(self).len_spec() == old(self).len_spec() + 1
                &&& final(self).contains_spec(user.name@)
                &&& final(self).row(user.name@) == (UserRowView {
                    password_hash: user.password_hash@,
                    admin: user.admin,
                    lastfm_username: None,
                    lastfm_session_key: None,
                })
                &&& forall|k: Seq<char>|
                    k != user.name@ ==> #[trigger] final(self).contains_spec(k) == old(self).contains_spec(k)
                &&& forall|k: Seq<char>|
                    k != user.name@ && old(self).contains_spec(k) ==> #[trigger] final(self).row(k)
                        == old(self).row(k)
            },
    {
        match self.lookup(user.name.as_str()) {
            Some(_) => Err(Error::Unspecified),
            None => {
                let ghost s0 = self.rows();
                let rec = UserRecord {
                    name: user.name,
                    password_hash: user.password_hash,
                    admin: user.admin,
                    lastfm_username: None,
                    lastfm_session_key: None,
                };
                let ghost recg = rec;
                self.users.push(rec);
                proof {
                    lemma_push_effects(s0, recg);
                }
                Ok(())
            },
        }
    }

    /// Deletes the account of this name, if one is stored; a miss is a
    /// no-op, as a storage-level delete of no rows is.
    pub fn delete(&mut self, username: &str)
        requires
            old(self).wf(),
        ensures
            final(self).wf(),
            !final(self).contains_spec(username@),
            final(self).len_spec() == if old(self).contains_spec(username@) {
                old(self).len_spec() - 1
            } else {
                old(self).len_spec() as int
            },
            forall|k: Seq<char>|
                k != username@ ==> #[trigger] final(self).contains_spec(k) == old(self).contains_spec(k),
            forall|k: Seq<char>|
                k != username@ && old(self).contains_spec(k) ==> #[trigger] final(self).row(k)
                    == old(self).row(k),
    {
        match self.lookup(username) {
            None => {},
            Some(i) => {
                let ghost s0 = self.rows();
                self.users.remove(i);
                proof {
                    lemma_remove_effects(s0, i as int);
                }
            },
        }
    }

    /// Replaces the stored password hash of this account; a miss is a no-op.
    pub fn update_password_hash(&mut self, username: &str, hash: &str)
        requires
            old(self).wf(),
        ensures
            final(self).wf(),
            final(self).len_spec() == old(self).len_spec(),
            forall|k: Seq<char>|
                #[trigger] final(self).contains_spec(k) == old(self).contains_spec(k),
            old(self).contains_spec(username@) ==> final(self).row(username@) == (UserRowView {
                password_hash: hash@,
                ..old(self).row(username@)
            }),
            forall|k: Seq<char>|
                k != username@ && old(self).contains_spec(k) ==> #[trigger] final(self).row(k)
                    == old(self).row(k),
    {
        match self.lookup(username) {
            None => {},
            Some(i) => {
                let ghost s0 = self.rows();
                let mut rec = self.users.remove(i);
                rec.password_hash = hash.to_owned();
                let ghost recg = rec;
                self.users.push(rec);
                proof {
                    lemma_remove_effects(s0, i as int);
                    lemma_push_effects(s0.remove(i as int), recg);
                    lemma_row_at(s0, i as int);
                }
            },
        }
    }

    /// Replaces the stored administrator flag; a miss is a no-op.
    pub fn update_admin_flag(&mut self, username: &str, is_admin: bool)
        requires
            old(self).wf(),
        ensures
            final(self).wf(),
            final(self).len_spec() == old(self).len_spec(),
            forall|k: Seq<char>|
                #[trigger] final(self).contains_spec(k) == old(self).contains_spec(k),
            old(self).contains_spec(username@) ==> final(self).row(username@) == (UserRowView {
                admin: is_admin,
                ..old(self).row(username@)
            }),
            forall|k: Seq<char>|
                k != username@ && old(self).contains_spec(k) ==> #[trigger] final(self).row(k)
                    == old(self).row(k),
    {
        match self.lookup(username) {
            None => {},
            Some(i) => {
                let ghost s0 = self.rows();
                let mut rec = self.users.remove(i);
                rec.admin = is_admin;
                let ghost recg = rec;
                self.users.push(rec);
                proof {
                    lemma_remove_effects(s0, i as int);
                    lemma_push_effects(s0.remove(i as int), recg);
                    lemma_row_at(s0, i as int);
                }
            },
        }
    }

    /// Stores the linked external identity and session secret, together;
    /// a miss is a no-op.
    pub fn update_link(&mut self, username: &str, lastfm_login: &str, session_key: &str)
        requires
            old(self).wf(),
        ensures
            final(self).wf(),
            final(self).len_spec() == old(self).len_spec(),
            forall|k: Seq<char>|
                #[trigger] final(self).contains_spec(k) == old(self).contains_spec(k),
            old(self).contains_spec(username@) ==> final(self).row(username@) == (UserRowView {
                lastfm_username: Some(lastfm_login@),
                lastfm_session_key: Some(session_key@),
                ..old(self).row(username@)
            }),
            forall|k: Seq<char>|
                k != username@ && old(self).contains_spec(k) ==> #[trigger] final(self).row(k)
                    == old(self).row(k),
    {
        match self.lookup(username) {
            None => {},
            Some(i) => {
                let ghost s0 = self.rows();
                let mut rec = self.users.remove(i);
                rec.lastfm_username = Some(lastfm_login.to_owned());
                rec.lastfm_session_key = Some(session_key.to_owned());
                let ghost recg = rec;
                self.users.push(rec);
                proof {
                    lemma_remove_effects(s0, i as int);
                    lemma_push_effects(s0.remove(i as int), recg);
                    lemma_row_at(s0, i as int);
                }
            },
        }
    }

    /// Clears the linked external identity and session secret, together;
    /// a miss is a no-op.
    pub fn clear_link(&mut self, username: &str)
        requires
            old(self).wf(),
        ensures
            final(self).wf(),
            final(self).len_spec() == old(self).len_spec(),
            forall|k: Seq<char>|
                #[trigger] final(self).contains_spec(k) == old(self).contains_spec(k),
            old(self).contains_spec(username@) ==> final(self).row(username@) == (UserRowView {
                lastfm_username: None,
                lastfm_session_key: None,
                ..old(self).row(username@)
            }),
            forall|k: Seq<char>|
                k != username@ && old(self).contains_spec(k) ==> #[trigger] final(self).row(k)
                    == old(self).row(k),
    {
        match self.lookup(username) {
            None => {},
            Some(i) => {
                let ghost s0 = self.rows();
                let mut rec = self.users.remove(i);
                rec.lastfm_username = None;
                rec.lastfm_session_key = None;
                let ghost recg = rec;
                self.users.push(rec);
                proof {
                    lemma_remove_effects(s0, i as int);
                    lemma_push_effects(s0.remove(i as int), recg);
                    lemma_row_at(s0, i as int);
                }
            },
        }
    }

    /// The stored password hash of this account, if it is stored.
    pub fn find_password_hash(&self, username: &str) -> (r: Option<String>)
        requires
            self.wf(),
        ensures
            match r {
                Some(h) => self.contains_spec(username@) && h@ == self.row(username@).password_hash,
                None => !self.contains_spec(username@),
            },
    {
        match self.lookup(username) {
            Some(i) => Some(self.users[i].password_hash.clone()),
            None => None,
        }
    }

    /// The stored administrator flag of this account, if it is stored.
    pub fn find_admin_flag(&self, username: &str) -> (r: Option<bool>)
        requires
            self.wf(),
        ensures
            match r {
                Some(b) => self.contains_spec(username@) && b == self.row(username@).admin,
                None => !self.contains_spec(username@),
            },
    {
        match self.lookup(username) {
            Some(i) => Some(self.users[i].admin),
            None => None,
        }
    }

    /// The stored linked session secret, when the account is stored and
    /// linked.
    pub fn find_linked_secret(&self, username: &str) -> (r: Option<String>)
        requires
            self.wf(),
        ensures
            match r {
                Some(s) => self.contains_spec(username@) && self.row(username@).lastfm_session_key
                    == Some(s@),
                None => !self.contains_spec(username@) || self.row(
                    username@,
                ).lastfm_session_key is None,
            },
    {
        match self.lookup(username) {
            Some(i) => match &self.users[i].lastfm_session_key {
                Some(s) => Some(s.clone()),
                None => None,
            },
            None => None,
        }
    }

    /// How many accounts are stored.
    pub fn count(&self) -> (r: usize)
        ensures
            r == self.len_spec(),
    {
        self.users.len()
    }

    /// Whether an account of this name is stored.
    pub fn user_exists(&self, username: &str) -> (r: bool)
        requires
            self.wf(),
        ensures
            r == self.contains_spec(username@),
    {
        match self.lookup(username) {
            Some(_) => true,
            None => false,
        }
    }

    /// Every stored account, one row each, in store order: name, password
    /// hash and administrator flag.
    pub fn list(&self) -> (r: Vec<User>)
        requires
            self.wf(),
        ensures
            r@.len() == self.len_spec(),
            forall|i: int|
                0 <= i < r@.len() ==> {
                    &&& (#[trigger] r@[i]).name@ == self.rows()[i].name@
                    &&& r@[i].password_hash@ == self.rows()[i].password_hash@
                    &&& r@[i].admin == self.rows()[i].admin
                    &&& self.contains_spec(r@[i].name@)
                    &&& r@[i].password_hash@ == self.row(r@[i].name@).password_hash
                    &&& r@[i].admin == self.row(r@[i].name@).admin
                },
    {
        let n = self.users.len();
        let mut out: Vec<User> = Vec::new();
        let mut i: usize = 0;
        while i < n
            invariant
                i <= n,
                n == self.rows().len(),
                self.wf(),
                out@.len() == i,
                forall|j: int|
                    0 <= j < i ==> {
                        &&& (#[trigger] out@[j]).name@ == self.rows()[j].name@
                        &&& out@[j].password_hash@ == self.rows()[j].password_hash@
                        &&& out@[j].admin == self.rows()[j].admin
                    },
            decreases n - i,
        {
            let u = User {
                name: self.users[i].name.clone(),
                password_hash: self.users[i].password_hash.clone(),
                admin: self.users[i].admin,
            };
            out.push(u);
            i = i + 1;
        }
        proof {
            assert forall|j: int| 0 <= j < out@.len() implies {
                &&& self.contains_spec((#[trigger] out@[j]).name@)
                &&& out@[j].password_hash@ == self.row(out@[j].name@).password_hash
                &&& out@[j].admin == self.row(out@[j].name@).admin
            } by {
                lemma_row_at(self.rows(), j);
            }
        }
        out
    }
}

} // verus!
