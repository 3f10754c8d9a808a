//! Identities and a store of them that keeps handles and ids unique.

use vstd::prelude::*;
use vstd::string::StringExecFns;
use crate::credential::Rejection;
use crate::synthetic_id::{lemma_synthetic_id_total, synthetic_github_user_id, synthetic_id};
use crate::text::same_text;

verus! {

/// A durable user record.
#[derive(Debug, Clone, PartialEq, Eq)]
pub struct Identity {
    pub id: i32,
    pub github_login: String,
    pub email: Option<String>,
    pub admin: bool,
}

/// What an [`Identity`] holds, as plain values.
pub struct IdentityModel {
    pub id: i32,
    pub login: Seq<char>,
    pub email: Option<Seq<char>>,
    pub admin: bool,
}

impl View for Identity {
    type V = IdentityModel;

    open spec fn view(&self) -> IdentityModel {
        IdentityModel {
            id: self.id,
            login: self.github_login@,
            email: match self.email {
                Some(e) => Some(e@),
                None => None,
            },
            admin: self.admin,
        }
    }
}

impl Identity {
    /// A copy of this record.
    pub fn duplicate(&self) -> (copy: Identity)
        ensures
            copy@ == self@,
    {
        Identity {
            id: self.id,
            github_login: self.github_login.clone(),
            email: match &self.email {
                Some(e) => Some(e.clone()),
                None => None,
            },
            admin: self.admin,
        }
    }
}

/// No two records share a handle, and no two share an id.
pub open spec fn unique(s: Seq<IdentityModel>) -> bool {
    forall|i: int, j: int|
        0 <= i < s.len() && 0 <= j < s.len() && i != j ==> (#[trigger] s[i]).login != (
        #[trigger] s[j]).login && s[i].id != s[j].id
}

/// Some record has the handle `login`.
pub open spec fn has_login(s: Seq<IdentityModel>, login: Seq<char>) -> bool {
    exists|i: int| 0 <= i < s.len() && (#[trigger] s[i]).login == login
}

/// Some record has the id `id`.
pub open spec fn has_id(s: Seq<IdentityModel>, id: i32) -> bool {
    exists|i: int| 0 <= i < s.len() && (#[trigger] s[i]).id == id
}

/// The record with the handle `login`, where there is one. Handles are
/// compared as they stand: normalizing them is the caller's part.
pub open spec fn by_login(s: Seq<IdentityModel>, login: Seq<char>) -> Option<IdentityModel> {
    if has_login(s, login) {
        Some(s[choose|i: int| 0 <= i < s.len() && (#[trigger] s[i]).login == login])
    } else {
        None
    }
}

/// The record with the id `id`, where there is one.
pub open spec fn by_id(s: Seq<IdentityModel>, id: i32) -> Option<IdentityModel> {
    if has_id(s, id) {
        Some(s[choose|i: int| 0 <= i < s.len() && (#[trigger] s[i]).id == id])
    } else {
        None
    }
}

/// Exactly one record has the handle `login`.
pub open spec fn one_record(s: Seq<IdentityModel>, login: Seq<char>) -> bool {
    exists|i: int|
        0 <= i < s.len() && (#[trigger] s[i]).login == login && forall|j: int|
            0 <= j < s.len() && (#[trigger] s[j]).login == login ==> j == i
}

/// The store and the answer after a record is offered for creation: where the
/// handle is known the store is unchanged and the known record is the answer;
/// where the handle is new and the id free, the record is added and is the
/// answer; where the id belongs to another handle, the store refuses.
pub open spec fn created(s: Seq<IdentityModel>, u: IdentityModel) -> (
    Seq<IdentityModel>,
    Result<IdentityModel, Rejection>,
) {
    match by_login(s, u.login) {
        Some(known) => (s, Ok(known)),
        None => if has_id(s, u.id) {
            (s, Err(Rejection::Storage))
        } else {
            (s.push(u), Ok(u))
        },
    }
}

/// The address recorded for a handle that was created on trust.
pub open spec fn placeholder_email(login: Seq<char>) -> Seq<char> {
    login + "@example.com"@
}

/// The record made for a trusted handle on first contact.
pub open spec fn first_record(login: Seq<char>) -> IdentityModel {
    IdentityModel {
        id: synthetic_id(login) as i32,
        login,
        email: Some(placeholder_email(login)),
        admin: false,
    }
}

/// The store and the answer after a trusted handle is resolved or created.
pub open spec fn bootstrapped(s: Seq<IdentityModel>, login: Seq<char>) -> (
    Seq<IdentityModel>,
    Result<IdentityModel, Rejection>,
) {
    created(s, first_record(login))
}

/// An in-memory identity store. Its records never share a handle or an id.
pub struct IdentityStore {
    users: Vec<Identity>,
}

impl View for IdentityStore {
    type V = Seq<IdentityModel>;

    closed spec fn view(&self) -> Seq<IdentityModel> {
        Seq::new(self.users@.len(), |i: int| self.users@[i]@)
    }
}

impl IdentityStore {
    /// The store keeps handles and ids unique.
    pub open spec fn wf(&self) -> bool {
        unique(self@)
    }

    /// An empty store.
    pub fn new() -> (store: IdentityStore)
        ensures
            store@ == Seq::<IdentityModel>::empty(),
            store.wf(),
    {
        let store = IdentityStore { users: Vec::new() };
        proof {
            assert(store@ =~= Seq::<IdentityModel>::empty());
        }
        store
    }

    /// The number of records.
    pub fn len(&self) -> (n: usize)
        ensures
            n == self@.len(),
    {
        self.users.len()
    }

    /// The record with the id `id`, where there is one.
    pub fn get_user_by_id(&self, id: i32) -> (r: Option<Identity>)
        requires
            self.wf(),
        ensures
            match by_id(self@, id) {
                Some(u) => r.is_some() && r.unwrap()@ == u,
                None => r.is_none(),
            },
    {
        let mut i: usize = 0;
        while i < self.users.len()
            invariant
                i <= self.users@.len(),
                self.wf(),
                forall|k: int| 0 <= k < i ==> (#[trigger] self@[k]).id != id,
            decreases self.users@.len() - i,
        {
            if self.users[i].id == id {
                proof {
                    assert(self@[i as int].id == id);
                    let c = choose|c: int| 0 <= c < self@.len() && (#[trigger] self@[c]).id == id;
                    assert(c == i);
                }
                return Some(self.users[i].duplicate());
            }
            i += 1;
        }
        None
    }

    /// The record with the handle `github_login`, where there is one.
    pub fn get_user_by_github_login(&self, github_login: &str) -> (r: Option<Identity>)
        requires
            self.wf(),
        ensures
            match by_login(self@, github_login@) {
                Some(u) => r.is_some() && r.unwrap()@ == u,
                None => r.is_none(),
            },
    {
        let mut i: usize = 0;
        while i < self.users.len()
            invariant
                i <= self.users@.len(),
                self.wf(),
                forall|k: int| 0 <= k < i ==> (#[trigger] self@[k]).login != github_login@,
            decreases self.users@.len() - i,
        {
            if same_text(self.users[i].github_login.as_str(), github_login) {
                proof {
                    assert(self@[i as int].login == github_login@);
                    let c = choose|c: int|
                        0 <= c < self@.len() && (#[trigger] self@[c]).login == github_login@;
                    assert(c == i);
                }
                return Some(self.users[i].duplicate());
            }
            i += 1;
        }
        None
    }

    /// Adds a record for `github_login` unless the handle is known, and
    /// returns the record that the store holds for it. A second creation of a
    /// handle is no error: the record that is there is the answer.
    pub fn create_user(
        &mut self,
        email_address: &str,
        github_login: &str,
        github_user_id: i32,
        admin: bool,
    ) -> (r: Result<Identity, Rejection>)
        requires
            old(self).wf(),
        ensures
            final(self).wf(),
            ({
                let offered = IdentityModel {
                    id: github_user_id,
                    login: github_login@,
                    email: Some(email_address@),
                    admin,
                };
                let (after, answer) = created(old(self)@, offered);
                &&& final(self)@ == after
                &&& match answer {
                    Ok(u) => r.is_ok() && r.unwrap()@ == u,
                    Err(e) => r.is_err() && r.unwrap_err() == e,
                }
            }),
    {
        if let Some(known) = self.get_user_by_github_login(github_login) {
            return Ok(known);
        }
        if self.get_user_by_id(github_user_id).is_some() {
            return Err(Rejection::Storage);
        }
        let user = Identity {
            id: github_user_id,
            github_login: github_login.to_owned(),
            email: Some(email_address.to_owned()),
            admin,
        };
        let copy = user.duplicate();
        self.users.push(user);
        proof {
            assert(final(self)@ =~= old(self)@.push(copy@));
        }
        Ok(copy)
    }
}

/// Resolves a trusted, normalized handle to its record, creating the record
/// on first contact with a synthetic id and a placeholder address.
pub fn get_or_create_user_for_trusted_login(github_login: &str, db: &mut IdentityStore) -> (r:
    Result<Identity, Rejection>)
    requires
        old(db).wf(),
    ensures
        final(db).wf(),
        final(db)@ == bootstrapped(old(db)@, github_login@).0,
        match bootstrapped(old(db)@, github_login@).1 {
            Ok(u) => r.is_ok() && r.unwrap()@ == u,
            Err(e) => r.is_err() && r.unwrap_err() == e,
        },
{
    if let Some(user) = db.get_user_by_github_login(github_login) {
        return Ok(user);
    }
    let mut email = github_login.to_owned();
    email.append("@example.com");
    db.create_user(email.as_str(), github_login, synthetic_github_user_id(github_login), false)
}

/// Offering a record keeps handles and ids unique, and where it succeeds the
/// answer is the one record of that handle.
pub proof fn lemma_created(s: Seq<IdentityModel>, u: IdentityModel)
    requires
        unique(s),
    ensures
        unique(created(s, u).0),
        created(s, u).1 is Ok ==> created(s, u).1->Ok_0.login == u.login && one_record(
            created(s, u).0,
            u.login,
        ) && by_login(created(s, u).0, u.login) == Some(created(s, u).1->Ok_0),
{
    let after = created(s, u).0;
    if has_login(s, u.login) {
        let c = choose|i: int| 0 <= i < s.len() && (#[trigger] s[i]).login == u.login;
        assert(s[c].login == u.login);
        assert(one_record(s, u.login));
    } else if !has_id(s, u.id) {
        let n = s.len() as int;
        assert(after[n] == u);
        assert forall|i: int, j: int|
            0 <= i < after.len() && 0 <= j < after.len() && i != j implies (
        #[trigger] after[i]).login != (#[trigger] after[j]).login && after[i].id
            != after[j].id by {
            if i < n {
                assert(after[i] == s[i]);
            }
            if j < n {
                assert(after[j] == s[j]);
            }
        }
        assert(after[n].login == u.login);
        assert(has_login(after, u.login));
        let c = choose|i: int| 0 <= i < after.len() && (#[trigger] after[i]).login == u.login;
        assert(c == n);
        assert(one_record(after, u.login));
    }
}

/// Resolving the same trusted handle twice gives the same record both times,
/// leaves the store as the first call left it, and the store then holds
/// exactly one record of that handle.
pub proof fn lemma_bootstrap_idempotent(s: Seq<IdentityModel>, login: Seq<char>)
    requires
        unique(s),
        bootstrapped(s, login).1 is Ok,
    ensures
        ({
            let (once, first) = bootstrapped(s, login);
            let (twice, second) = bootstrapped(once, login);
            &&& second == first
            &&& twice == once
            &&& one_record(twice, login)
            &&& unique(twice)
        }),
{
    lemma_created(s, first_record(login));
}

/// Any number of resolutions of one handle, in any order with each other,
/// leave one record of it: each of them after the first finds the store as
/// the first left it and gets the first one's answer.
pub proof fn lemma_bootstrap_repeated(s: Seq<IdentityModel>, login: Seq<char>, n: nat)
    requires
        unique(s),
        bootstrapped(s, login).1 is Ok,
    ensures
        bootstrapped_times(s, login, n + 1) == bootstrapped(s, login),
        one_record(bootstrapped_times(s, login, n + 1).0, login),
    decreases n,
{
    lemma_bootstrap_idempotent(s, login);
    if n > 0 {
        lemma_bootstrap_repeated(s, login, (n - 1) as nat);
    }
}

/// Two first contacts that race: both have missed the lookup, and both offer
/// a record of the same handle. The second offer is no error, adds nothing,
/// and both are answered with the record that the first one made.
pub proof fn lemma_racing_creations(s: Seq<IdentityModel>, a: IdentityModel, b: IdentityModel)
    requires
        unique(s),
        a.login == b.login,
        created(s, a).1 is Ok,
    ensures
        created(created(s, a).0, b) == created(s, a),
        one_record(created(s, a).0, a.login),
        by_login(created(created(s, a).0, b).0, a.login) == Some(created(s, a).1->Ok_0),
{
    lemma_created(s, a);
}

/// The store and the last answer after `n` resolutions of one handle.
pub open spec fn bootstrapped_times(s: Seq<IdentityModel>, login: Seq<char>, n: nat) -> (
    Seq<IdentityModel>,
    Result<IdentityModel, Rejection>,
)
    decreases n,
{
    if n <= 1 {
        bootstrapped(s, login)
    } else {
        bootstrapped(bootstrapped_times(s, login, (n - 1) as nat).0, login)
    }
}

/// A freshly made record carries a positive synthetic id.
pub proof fn lemma_first_record_id(login: Seq<char>)
    ensures
        first_record(login).id > 0,
        first_record(login).id == synthetic_id(login),
{
    lemma_synthetic_id_total(login);
}

} // verus!
