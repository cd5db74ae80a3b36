//! The identity domain model: one identity record, and the username-keyed
//! directory snapshot built from the external store's records.

use vstd::prelude::*;
use crate::text::str_eq;

verus! {

/// One record from the external secret store, reduced to the fields the
/// fixed naming convention declares: the username and the credential
/// material. A field the record does not carry is `None`.
pub struct SecretRecord {
    /// The record's declared username, if the record carries one.
    pub username: Option<String>,
    /// The record's declared credential material, if the record carries
    /// it.
    pub password: Option<String>,
}

/// A record that carries both required fields.
pub open spec fn record_valid(r: SecretRecord) -> bool {
    r.username is Some && r.password is Some
}

/// The username of a valid record.
pub open spec fn rec_name(r: SecretRecord) -> Seq<char>
    recommends
        record_valid(r),
{
    (r.username->0)@
}

/// The credential material of a valid record.
pub open spec fn rec_pass(r: SecretRecord) -> Seq<char>
    recommends
        record_valid(r),
{
    (r.password->0)@
}

/// One normalized identity record: the username is the natural key; the
/// credential material's format is the external store's, not this
/// crate's.
pub struct AuthUser {
    /// The natural key.
    pub username: String,
    /// Opaque credential material, as the store holds it.
    pub password: String,
}

/// The directory a sequence of store records stands for: every valid
/// record contributes its user, a later record overriding an earlier one
/// with the same username; a record missing a required field contributes
/// nothing.
pub open spec fn users_map(s: Seq<SecretRecord>) -> Map<Seq<char>, Seq<char>>
    decreases s.len(),
{
    if s.len() == 0 {
        Map::<Seq<char>, Seq<char>>::empty()
    } else {
        let prev = users_map(s.drop_last());
        if record_valid(s.last()) {
            prev.insert(rec_name(s.last()), rec_pass(s.last()))
        } else {
            prev
        }
    }
}

/// The mapping a list of normalized users stands for.
pub open spec fn entries_map(s: Seq<AuthUser>) -> Map<Seq<char>, Seq<char>>
    decreases s.len(),
{
    if s.len() == 0 {
        Map::<Seq<char>, Seq<char>>::empty()
    } else {
        entries_map(s.drop_last()).insert(s.last().username@, s.last().password@)
    }
}

/// No two users share a username.
pub open spec fn unique_usernames(s: Seq<AuthUser>) -> bool {
    forall|i: int, j: int| 0 <= i < j < s.len() ==> s[i].username@ != s[j].username@
}

/// Every user in the list is in its mapping.
proof fn lemma_entries_has(s: Seq<AuthUser>, i: int)
    requires
        0 <= i < s.len(),
    ensures
        entries_map(s).contains_key(s[i].username@),
    decreases s.len(),
{
    if i < s.len() - 1 {
        lemma_entries_has(s.drop_last(), i);
    }
}

/// A username held by no user in the list is not in its mapping.
proof fn lemma_entries_not_has(s: Seq<AuthUser>, u: Seq<char>)
    requires
        forall|i: int| 0 <= i < s.len() ==> s[i].username@ != u,
    ensures
        !entries_map(s).contains_key(u),
    decreases s.len(),
{
    if s.len() > 0 {
        lemma_entries_not_has(s.drop_last(), u);
    }
}

/// With unique usernames, each user's entry holds that user's credential.
proof fn lemma_entries_value(s: Seq<AuthUser>, i: int)
    requires
        unique_usernames(s),
        0 <= i < s.len(),
    ensures
        entries_map(s)[s[i].username@] == s[i].password@,
    decreases s.len(),
{
    if i < s.len() - 1 {
        lemma_entries_value(s.drop_last(), i);
    }
}

/// With unique usernames, the mapping is finite and has one entry per
/// user.
proof fn lemma_entries_len(s: Seq<AuthUser>)
    requires
        unique_usernames(s),
    ensures
        entries_map(s).dom().finite(),
        entries_map(s).dom().len() == s.len(),
    decreases s.len(),
{
    if s.len() > 0 {
        lemma_entries_len(s.drop_last());
        lemma_entries_not_has(s.drop_last(), s.last().username@);
    }
}

/// Overwriting the one user that holds a username updates the mapping at
/// that key alone.
proof fn lemma_entries_overwrite(s: Seq<AuthUser>, i: int, user: AuthUser)
    requires
        unique_usernames(s),
        0 <= i < s.len(),
        s[i].username@ == user.username@,
    ensures
        entries_map(s.update(i, user)) =~= entries_map(s).insert(user.username@, user.password@),
    decreases s.len(),
{
    let t = s.update(i, user);
    if i == s.len() - 1 {
        assert(t.drop_last() =~= s.drop_last());
    } else {
        lemma_entries_overwrite(s.drop_last(), i, user);
        assert(t.drop_last() =~= s.drop_last().update(i, user));
        assert(t.last() == s.last());
        assert(s.last().username@ != user.username@);
    }
}

/// A username-keyed directory snapshot: one `AuthUser` per username,
/// constructed only from a listing of store records, never mutated
/// incrementally.
pub struct AuthUsers {
    users: Vec<AuthUser>,
}

impl View for AuthUsers {
    type V = Map<Seq<char>, Seq<char>>;

    closed spec fn view(&self) -> Map<Seq<char>, Seq<char>> {
        entries_map(self.users@)
    }
}

impl AuthUsers {
    /// Usernames are the key and never repeat.
    #[verifier::type_invariant]
    closed spec fn wf(self) -> bool {
        unique_usernames(self.users@)
    }

    /// The index of the user holding `username`, if any.
    fn find_index(users: &Vec<AuthUser>, username: &str) -> (r: Option<usize>)
        ensures
            match r {
                Some(i) => i < users@.len() && users@[i as int].username@ == username@,
                None => forall|k: int| 0 <= k < users@.len() ==> users@[k].username@ != username@,
            },
    {
        let n = users.len();
        let mut i: usize = 0;
        while i < n
            invariant
                i <= n,
                n == users@.len(),
                forall|k: int| 0 <= k < i ==> users@[k].username@ != username@,
            decreases n - i,
        {
            if str_eq(users[i].username.as_str(), username) {
                return Some(i);
            }
            i = i + 1;
        }
        None
    }

    /// Builds the directory a listing of records stands for: every valid
    /// record's user, a later record overriding an earlier one with the
    /// same username; a record missing a required field is excluded and
    /// never makes the construction fail.
    #[verifier::loop_isolation(false)]
    pub fn from_records(records: &Vec<SecretRecord>) -> (r: AuthUsers)
        ensures
            r@ == users_map(records@),
    {
        let n = records.len();
        let mut users: Vec<AuthUser> = Vec::new();
        let mut k: usize = 0;
        proof {
            assert(records@.take(0) =~= Seq::<SecretRecord>::empty());
        }
        while k < n
            invariant
                k <= n,
                unique_usernames(users@),
                entries_map(users@) == users_map(records@.take(k as int)),
            decreases n - k,
        {
            proof {
                assert(records@.take(k + 1).drop_last() =~= records@.take(k as int));
                assert(records@.take(k + 1).last() == records@[k as int]);
            }
            let rec = &records[k];
            match (&rec.username, &rec.password) {
                (Some(name), Some(pass)) => {
                    let user = AuthUser { username: name.clone(), password: pass.clone() };
                    match Self::find_index(&users, name.as_str()) {
                        Some(i) => {
                            proof {
                                lemma_entries_overwrite(users@, i as int, user);
                            }
                            users[i] = user;
                        },
                        None => {
                            proof {
                                assert(users@.push(user).drop_last() =~= users@);
                            }
                            users.push(user);
                        },
                    }
                },
                _ => {
                },
            }
            k = k + 1;
        }
        proof {
            assert(records@.take(n as int) =~= records@);
        }
        AuthUsers { users }
    }

    /// An empty directory.
    pub fn new() -> (r: AuthUsers)
        ensures
            r@ == Map::<Seq<char>, Seq<char>>::empty(),
    {
        AuthUsers { users: Vec::new() }
    }

    /// How many users the snapshot holds.
    pub fn len(&self) -> (n: usize)
        ensures
            n == self@.dom().len(),
    {
        proof {
            use_type_invariant(self);
            lemma_entries_len(self.users@);
        }
        self.users.len()
    }

    /// The user holding `username`: `Some` exactly when the directory has
    /// that key, and then the one user with that username and the
    /// credential the directory maps it to.
    pub fn get(&self, username: &str) -> (r: Option<&AuthUser>)
        ensures
            match r {
                Some(u) => self@.contains_key(username@) && u.username@ == username@ && u.password@
                    == self@[username@],
                None => !self@.contains_key(username@),
            },
    {
        proof {
            use_type_invariant(self);
        }
        match Self::find_index(&self.users, username) {
            Some(i) => {
                proof {
                    lemma_entries_has(self.users@, i as int);
                    lemma_entries_value(self.users@, i as int);
                }
                Some(&self.users[i])
            },
            None => {
                proof {
                    lemma_entries_not_has(self.users@, username@);
                }
                None
            },
        }
    }

    /// Whether the directory holds `username`.
    pub fn contains(&self, username: &str) -> (r: bool)
        ensures
            r == self@.contains_key(username@),
    {
        self.get(username).is_some()
    }
}

/// Law: the last valid record with a username decides that user. For any
/// two records with the same username, the directory yields exactly one
/// entry for it, and the later one in listing order wins.
pub proof fn lemma_last_seen_wins(s: Seq<SecretRecord>, i: int)
    requires
        0 <= i < s.len(),
        record_valid(s[i]),
        forall|j: int| i < j < s.len() && record_valid(s[j]) ==> rec_name(s[j]) != rec_name(s[i]),
    ensures
        users_map(s).contains_key(rec_name(s[i])),
        users_map(s)[rec_name(s[i])] == rec_pass(s[i]),
    decreases s.len(),
{
    if i < s.len() - 1 {
        lemma_last_seen_wins(s.drop_last(), i);
    }
}

/// Law: a record missing a required field is excluded without effect: the
/// directory built with it is the directory built without it, and the
/// construction never fails on its account.
pub proof fn lemma_invalid_record_excluded(s: Seq<SecretRecord>, i: int)
    requires
        0 <= i < s.len(),
        !record_valid(s[i]),
    ensures
        users_map(s) == users_map(s.remove(i)),
    decreases s.len(),
{
    if i == s.len() - 1 {
        assert(s.remove(i) =~= s.drop_last());
    } else {
        lemma_invalid_record_excluded(s.drop_last(), i);
        assert(s.remove(i).drop_last() =~= s.drop_last().remove(i));
        assert(s.remove(i).last() == s.last());
    }
}

} // verus!
