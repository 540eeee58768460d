//! The in-memory user store behind the users CRUD routes.
//!
//! Users are kept in a hash map keyed by their id; ids come from a counter
//! that is incremented before each creation, so the first user gets id 1
//! and an id is never handed out twice, even after its user was deleted.

use std::collections::HashMap;
use vstd::prelude::*;
use vstd::std_specs::iter::IteratorSpec;

verus! {

broadcast use vstd::std_specs::hash::group_hash_axioms;

/// The fields of a user as they are stored and as a creation request
/// carries them.
#[derive(Debug)]
pub struct UserWithoutId {
    pub name: String,
    pub email: String,
}

/// A stored user together with its id.
#[derive(Debug)]
pub struct User {
    pub id: u64,
    pub name: String,
    pub email: String,
}

/// A partial update: each field that is `Some` replaces the stored one.
#[derive(Debug)]
pub struct UpdateUserRequest {
    pub name: Option<String>,
    pub email: Option<String>,
}

/// The error of an operation on an id that names no stored user.
#[derive(Debug, PartialEq, Eq, Structural)]
pub struct MissingUser {
    pub id: u64,
}

/// The mathematical value of a user's fields.
pub struct UserRecord {
    pub name: Seq<char>,
    pub email: Seq<char>,
}

impl View for UserWithoutId {
    type V = UserRecord;

    open spec fn view(&self) -> UserRecord {
        UserRecord { name: self.name@, email: self.email@ }
    }
}

impl User {
    /// The fields of this user without its id.
    pub open spec fn record(&self) -> UserRecord {
        UserRecord { name: self.name@, email: self.email@ }
    }
}

/// The abstract state of the store: the users by id, and the last id that
/// was handed out (0 before the first creation).
pub struct UsersModel {
    pub users: Map<u64, UserRecord>,
    pub last_id: u64,
}

impl UsersModel {
    /// The state of a fresh store.
    pub open spec fn empty() -> UsersModel {
        UsersModel { users: Map::empty(), last_id: 0 }
    }

    /// Every stored id was handed out already: it lies in `1..=last_id`.
    pub open spec fn wf(self) -> bool {
        &&& self.users.dom().finite()
        &&& forall|id: u64| #[trigger] self.users.contains_key(id) ==> 1 <= id <= self.last_id
    }

    /// The user stored under `id`, if any.
    pub open spec fn lookup(self, id: u64) -> Option<UserRecord> {
        if self.users.contains_key(id) {
            Some(self.users[id])
        } else {
            None
        }
    }

    /// The id that the next creation hands out.
    pub open spec fn next_id(self) -> u64 {
        (self.last_id + 1) as u64
    }

    /// The state after creating a user with the given fields.
    pub open spec fn create(self, rec: UserRecord) -> UsersModel {
        UsersModel { users: self.users.insert(self.next_id(), rec), last_id: self.next_id() }
    }

    /// The state after an update of `id`, or `None` where `id` names no user.
    pub open spec fn update(
        self,
        id: u64,
        name: Option<Seq<char>>,
        email: Option<Seq<char>>,
    ) -> Option<UsersModel> {
        if self.users.contains_key(id) {
            let old_rec = self.users[id];
            let rec = UserRecord {
                name: match name {
                    Some(n) => n,
                    None => old_rec.name,
                },
                email: match email {
                    Some(e) => e,
                    None => old_rec.email,
                },
            };
            Some(UsersModel { users: self.users.insert(id, rec), last_id: self.last_id })
        } else {
            None
        }
    }

    /// The state after deleting `id`, or `None` where `id` names no user.
    pub open spec fn delete(self, id: u64) -> Option<UsersModel> {
        if self.users.contains_key(id) {
            Some(UsersModel { users: self.users.remove(id), last_id: self.last_id })
        } else {
            None
        }
    }
}

/// One operation on the store, as its methods perform it.
pub enum UserOp {
    Create(UserRecord),
    Update(u64, Option<Seq<char>>, Option<Seq<char>>),
    Delete(u64),
}

/// `op` names `id` as the user it updates or deletes.
pub open spec fn touches(op: UserOp, id: u64) -> bool {
    match op {
        UserOp::Create(_) => false,
        UserOp::Update(k, _, _) => k == id,
        UserOp::Delete(k) => k == id,
    }
}

impl UsersModel {
    /// The state after `op`; an update or delete of an id that names no
    /// user fails and leaves the state as it was.
    pub open spec fn apply(self, op: UserOp) -> UsersModel {
        match op {
            UserOp::Create(rec) => self.create(rec),
            UserOp::Update(id, name, email) => match self.update(id, name, email) {
                Some(t) => t,
                None => self,
            },
            UserOp::Delete(id) => match self.delete(id) {
                Some(t) => t,
                None => self,
            },
        }
    }

    /// The state after the operations `ops`, in order.
    pub open spec fn apply_all(self, ops: Seq<UserOp>) -> UsersModel
        decreases ops.len(),
    {
        if ops.len() == 0 {
            self
        } else {
            self.apply(ops[0]).apply_all(ops.drop_first())
        }
    }

    /// Each creation among `ops` finds an id left to hand out, as
    /// `create_user` requires.
    pub open spec fn can_apply_all(self, ops: Seq<UserOp>) -> bool
        decreases ops.len(),
    {
        ops.len() == 0 || ((ops[0] is Create ==> self.last_id < u64::MAX) && self.apply(
            ops[0],
        ).can_apply_all(ops.drop_first()))
    }
}

/// The view of an optional string field of an update request.
pub open spec fn opt_view(s: Option<String>) -> Option<Seq<char>> {
    match s {
        Some(v) => Some(v@),
        None => None,
    }
}

/// `list` holds each stored user exactly once, with its stored fields, in
/// some order.
pub open spec fn lists_all_users(list: Seq<User>, users: Map<u64, UserRecord>) -> bool {
    &&& list.len() == users.dom().len()
    &&& forall|i: int|
        0 <= i < list.len() ==> {
            &&& users.contains_key(#[trigger] list[i].id)
            &&& users[list[i].id] == list[i].record()
            &&& users[list[i].id].name == list[i].name@
            &&& users[list[i].id].email == list[i].email@
        }
    &&& forall|i: int, j: int| 0 <= i < j < list.len() ==> #[trigger] list[i].id != #[trigger] list[j].id
    &&& forall|id: u64|
        #[trigger] users.contains_key(id) ==> exists|i: int| 0 <= i < list.len() && #[trigger] list[i].id == id
}

/// The shared state of the users routes.
pub struct UsersState {
    users: HashMap<u64, UserWithoutId>,
    counter: u64,
}

impl View for UsersState {
    type V = UsersModel;

    closed spec fn view(&self) -> UsersModel {
        UsersModel { users: self.users@.map_values(|u: UserWithoutId| u@), last_id: self.counter }
    }
}

impl UsersState {
    /// The store's internal consistency: that of its model.
    pub open spec fn wf(&self) -> bool {
        self@.wf()
    }

    /// An empty store whose first user will get id 1.
    pub fn new() -> (s: Self)
        ensures
            s.wf(),
            s@ == UsersModel::empty(),
    {
        let s = UsersState { users: HashMap::new(), counter: 0 };
        assert(s@.users =~= Map::<u64, UserRecord>::empty());
        s
    }

    /// The last id handed out, 0 before the first creation.
    pub fn last_id(&self) -> (id: u64)
        ensures
            id == self@.last_id,
    {
        self.counter
    }

    /// All stored users, each once, in the map's iteration order.
    pub fn get_users(&self) -> (list: Vec<User>)
        ensures
            lists_all_users(list@, self@.users),
    {
        let mut list: Vec<User> = Vec::new();
        let ghost m = self.users@;
        for entry in it: self.users.iter()
            invariant
                m == self.users@,
                it.seq() == vstd::std_specs::hash::spec_hash_map_iter(&self.users).remaining(),
                list.len() == it.index(),
                forall|i: int|
                    0 <= i < it.index() ==> (#[trigger] list@[i]).id == *it.seq()[i].0
                        && list@[i].record() == (*it.seq()[i].1)@,
        {
            let (id, user) = entry;
            list.push(User { id: *id, name: user.name.clone(), email: user.email.clone() });
        }
        proof {
            let v = vstd::std_specs::hash::spec_hash_map_iter(&self.users).remaining();
            assert(self@.users.dom() =~= m.dom());
            assert forall|i: int, j: int| 0 <= i < j < list@.len() implies #[trigger] list@[i].id
                != #[trigger] list@[j].id by {
                if list@[i].id == list@[j].id {
                    assert(m.contains_key(*v[i].0));
                    assert(m[*v[j].0] == *v[j].1);
                    assert(v[i] == v[j]);
                }
            }
            assert forall|id: u64| #[trigger] self@.users.contains_key(id) implies exists|i: int|
                0 <= i < list@.len() && #[trigger] list@[i].id == id by {
                assert(m.contains_key(id));
                assert(v.contains((&id, &m[id])));
                let i = choose|i: int| 0 <= i < v.len() && v[i] == (&id, &m[id]);
                assert(list@[i].id == id);
            }
            assert forall|i: int| 0 <= i < list@.len() implies self@.users.contains_key(
                #[trigger] list@[i].id,
            ) && self@.users[list@[i].id] == list@[i].record() by {
                assert(m.contains_key(*v[i].0));
                assert(m[*v[i].0] == *v[i].1);
            }
        }
        list
    }

    /// The user stored under `id`, if any.
    pub fn get_user(&self, id: u64) -> (user: Option<User>)
        ensures
            match user {
                Some(u) => {
                    &&& u.id == id
                    &&& self@.lookup(id) == Some(u.record())
                    &&& self@.users.contains_key(id)
                    &&& u.name@ == self@.users[id].name
                    &&& u.email@ == self@.users[id].email
                },
                None => self@.lookup(id) is None,
            },
    {
        match self.users.get(&id) {
            Some(u) => Some(User { id, name: u.name.clone(), email: u.email.clone() }),
            None => None,
        }
    }

    /// Stores `user` under the next id and returns that id.
    pub fn create_user(&mut self, user: UserWithoutId) -> (id: u64)
        requires
            old(self).wf(),
            old(self)@.last_id < u64::MAX,
        ensures
            final(self).wf(),
            id == old(self)@.next_id(),
            final(self)@ == old(self)@.create(user@),
    {
        self.counter = self.counter + 1;
        let id = self.counter;
        let ghost rec = user@;
        self.users.insert(id, user);
        assert(self@.users =~= old(self)@.users.insert(id, rec));
        id
    }

    /// Replaces the fields of user `id` that `update` gives; fails, leaving
    /// the store as it was, where `id` names no user.
    pub fn update_user(&mut self, id: u64, update: UpdateUserRequest) -> (r: Result<(), MissingUser>)
        requires
            old(self).wf(),
        ensures
            final(self).wf(),
            match old(self)@.update(id, opt_view(update.name), opt_view(update.email)) {
                Some(after) => r is Ok && final(self)@ == after,
                None => r == Err::<(), MissingUser>(MissingUser { id }) && final(self)@ == old(self)@,
            },
            old(self)@.users.contains_key(id) ==> {
                &&& r is Ok
                &&& final(self)@.users.contains_key(id)
                &&& final(self)@.users[id].name == match update.name {
                    Some(n) => n@,
                    None => old(self)@.users[id].name,
                }
                &&& final(self)@.users[id].email == match update.email {
                    Some(e) => e@,
                    None => old(self)@.users[id].email,
                }
                &&& forall|k: u64| k != id ==> #[trigger] final(self)@.lookup(k) == old(self)@.lookup(k)
                &&& final(self)@.last_id == old(self)@.last_id
            },
            !old(self)@.users.contains_key(id) ==> r == Err::<(), MissingUser>(MissingUser { id })
                && final(self)@ == old(self)@,
    {
        match self.users.remove(&id) {
            Some(user) => {
                let ghost before = old(self)@;
                let name = match update.name {
                    Some(n) => n,
                    None => user.name,
                };
                let email = match update.email {
                    Some(e) => e,
                    None => user.email,
                };
                self.users.insert(id, UserWithoutId { name, email });
                assert(self@.users =~= before.update(
                    id,
                    opt_view(update.name),
                    opt_view(update.email),
                ).unwrap().users);
                Ok(())
            },
            None => {
                assert(self@.users =~= old(self)@.users);
                Err(MissingUser { id })
            },
        }
    }

    /// Removes user `id`; fails, leaving the store as it was, where `id`
    /// names no user.
    pub fn delete_user(&mut self, id: u64) -> (r: Result<(), MissingUser>)
        requires
            old(self).wf(),
        ensures
            final(self).wf(),
            match old(self)@.delete(id) {
                Some(after) => r is Ok && final(self)@ == after,
                None => r == Err::<(), MissingUser>(MissingUser { id }) && final(self)@ == old(self)@,
            },
    {
        if self.users.remove(&id).is_some() {
            assert(self@.users =~= old(self)@.users.remove(id));
            Ok(())
        } else {
            assert(self@.users =~= old(self)@.users);
            Err(MissingUser { id })
        }
    }
}

/// Reading a user right after creating it gives back what was written, under
/// an id that named no user before; every other id reads as before.
pub proof fn lemma_read_after_create(s: UsersModel, rec: UserRecord)
    requires
        s.wf(),
        s.last_id < u64::MAX,
    ensures
        s.lookup(s.next_id()) is None,
        s.create(rec).lookup(s.next_id()) == Some(rec),
        forall|k: u64| k != s.next_id() ==> #[trigger] s.create(rec).lookup(k) == s.lookup(k),
        s.create(rec).wf(),
{
}

/// Two creations in a row hand out consecutive ids.
pub proof fn lemma_consecutive_ids(s: UsersModel, first: UserRecord)
    requires
        s.wf(),
        s.last_id < u64::MAX - 1,
    ensures
        s.create(first).next_id() == s.next_id() + 1,
{
}

/// An update succeeds exactly on a stored id; reading that id afterwards
/// gives the updated fields, each one replaced only where the update gives
/// it; every other id reads as before.
pub proof fn lemma_read_after_update(
    s: UsersModel,
    id: u64,
    name: Option<Seq<char>>,
    email: Option<Seq<char>>,
)
    requires
        s.wf(),
    ensures
        s.update(id, name, email) is Some <==> s.lookup(id) is Some,
        s.update(id, name, email) matches Some(t) ==> {
            &&& t.wf()
            &&& t.lookup(id) == Some(
                UserRecord {
                    name: match name {
                        Some(n) => n,
                        None => s.users[id].name,
                    },
                    email: match email {
                        Some(e) => e,
                        None => s.users[id].email,
                    },
                },
            )
            &&& forall|k: u64| k != id ==> #[trigger] t.lookup(k) == s.lookup(k)
            &&& t.last_id == s.last_id
        },
{
}

/// An update that gives no field leaves a stored user as it was.
pub proof fn lemma_empty_update_changes_nothing(s: UsersModel, id: u64)
    requires
        s.wf(),
        s.lookup(id) is Some,
    ensures
        s.update(id, None, None) == Some(s),
{
    assert(s.users.insert(id, s.users[id]) =~= s.users);
}

/// A delete succeeds exactly on a stored id; afterwards the id reads as
/// missing and a second delete of it fails; every other id reads as before.
pub proof fn lemma_read_after_delete(s: UsersModel, id: u64)
    requires
        s.wf(),
    ensures
        s.delete(id) is Some <==> s.lookup(id) is Some,
        s.delete(id) matches Some(t) ==> {
            &&& t.wf()
            &&& t.lookup(id) is None
            &&& t.delete(id) is None
            &&& forall|k: u64| k != id ==> #[trigger] t.lookup(k) == s.lookup(k)
        },
{
}

/// Deleting the user just created restores the stored users; only the id
/// counter remembers the creation.
pub proof fn lemma_delete_undoes_create(s: UsersModel, rec: UserRecord)
    requires
        s.wf(),
        s.last_id < u64::MAX,
    ensures
        s.create(rec).delete(s.next_id()) == Some(
            UsersModel { users: s.users, last_id: s.next_id() },
        ),
{
    assert(s.users.insert(s.next_id(), rec).remove(s.next_id()) =~= s.users);
}

/// An id is never handed out twice: after a user is deleted, the next
/// creation uses a different id.
pub proof fn lemma_ids_never_reused(s: UsersModel, id: u64, rec: UserRecord)
    requires
        s.wf(),
        s.lookup(id) is Some,
        s.last_id < u64::MAX,
    ensures
        s.delete(id) matches Some(t) && t.next_id() != id && t.create(rec).lookup(id) is None,
{
}

proof fn lemma_stored_user_persists(t: UsersModel, id: u64, rec: UserRecord, ops: Seq<UserOp>)
    requires
        t.wf(),
        t.lookup(id) == Some(rec),
        t.can_apply_all(ops),
        forall|i: int| 0 <= i < ops.len() ==> !touches(#[trigger] ops[i], id),
    ensures
        t.apply_all(ops).lookup(id) == Some(rec),
        t.apply_all(ops).wf(),
    decreases ops.len(),
{
    if ops.len() > 0 {
        let op = ops[0];
        assert(!touches(ops[0], id));
        match op {
            UserOp::Create(r) => {
                lemma_read_after_create(t, r);
            },
            UserOp::Update(k, n, e) => {
                lemma_read_after_update(t, k, n, e);
            },
            UserOp::Delete(k) => {
                lemma_read_after_delete(t, k);
            },
        }
        let rest = ops.drop_first();
        assert forall|i: int| 0 <= i < rest.len() implies !touches(#[trigger] rest[i], id) by {
            assert(rest[i] == ops[i + 1]);
        }
        lemma_stored_user_persists(t.apply(op), id, rec, rest);
    }
}

/// A created user reads back as written, under the id its creation handed
/// out, after any later operations that neither update nor delete that id.
pub proof fn lemma_created_user_persists(s: UsersModel, rec: UserRecord, ops: Seq<UserOp>)
    requires
        s.wf(),
        s.last_id < u64::MAX,
        s.create(rec).can_apply_all(ops),
        forall|i: int| 0 <= i < ops.len() ==> !touches(#[trigger] ops[i], s.next_id()),
    ensures
        s.create(rec).apply_all(ops).lookup(s.next_id()) == Some(rec),
{
    lemma_read_after_create(s, rec);
    lemma_stored_user_persists(s.create(rec), s.next_id(), rec, ops);
}

/// A field that an update request gives is read as exactly its characters;
/// a field it leaves out is read as absent.
pub proof fn lemma_update_field_view(s: Option<String>)
    ensures
        s matches Some(v) ==> opt_view(s) == Some(v@),
        s is None ==> opt_view(s) is None,
{
}

/// The mathematical value of a user's fields is their characters, field by
/// field, with nothing exchanged or dropped.
pub proof fn lemma_user_views(stored: UserWithoutId, listed: User)
    ensures
        stored@.name == stored.name@,
        stored@.email == stored.email@,
        listed.record().name == listed.name@,
        listed.record().email == listed.email@,
{
}

} // verus!
