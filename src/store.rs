use std::collections::HashMap;
use vstd::prelude::*;
use vstd::std_specs::hash::spec_values_iter;
use vstd::std_specs::iter::IteratorSpec;

verus! {

/// A task of the list; its identity is `id`.
#[derive(Clone, Debug)]
pub struct Task {
    pub id: u64,
    pub name: String,
    pub completed: bool,
}

/// A registered user; its identity is `id`. The password is kept as given.
#[derive(Clone, Debug)]
pub struct User {
    pub id: u64,
    pub username: String,
    pub password: String,
}

/// The whole store: tasks and users, each keyed by identifier.
pub struct Database {
    pub tasks: HashMap<u64, Task>,
    pub users: HashMap<u64, User>,
}

impl Database {
    /// Every record is stored under its own id.
    pub open spec fn wf(&self) -> bool {
        keys_match(self.tasks@, self.users@)
    }

    /// An empty store.
    pub fn new() -> (r: Database)
        ensures
            r.tasks@ == Map::<u64, Task>::empty(),
            r.users@ == Map::<u64, User>::empty(),
            r.wf(),
    {
        Database { tasks: HashMap::new(), users: HashMap::new() }
    }

    /// The store a process starts from: the one that was loaded, or an empty
    /// store when loading failed, whatever the reason.
    pub fn loaded_or_empty<E>(loaded: Result<Database, E>) -> (r: Database)
        ensures
            loaded matches Ok(db) ==> r == db,
            loaded is Err ==> r.tasks@ == Map::<u64, Task>::empty() && r.users@ == Map::<
                u64,
                User,
            >::empty(),
    {
        match loaded {
            Ok(db) => db,
            Err(_) => Database::new(),
        }
    }

    /// Insert a task, replacing any task with the same id.
    pub fn insert(&mut self, task: Task)
        ensures
            final(self).tasks@ == old(self).tasks@.insert(task.id, task),
            final(self).users@ == old(self).users@,
            old(self).wf() ==> final(self).wf(),
    {
        let id = task.id;
        self.tasks.insert(id, task);
    }

    /// The task stored under `id`, if any.
    pub fn get(&self, id: &u64) -> (r: Option<&Task>)
        ensures
            r is Some <==> self.tasks@.contains_key(*id),
            r matches Some(t) ==> *t == self.tasks@[*id],
    {
        self.tasks.get(id)
    }

    /// Every stored task, once per key, in the map's own order.
    pub fn get_all(&self) -> (r: Vec<&Task>)
        ensures
            r@.len() == self.tasks@.dom().len(),
            r@.unref().to_set() == self.tasks@.values(),
    {
        let ghost listed = spec_values_iter(&self.tasks).remaining();
        let mut out: Vec<&Task> = Vec::new();
        for t in it: self.tasks.values()
            invariant
                it.seq() == listed,
                out@ == listed.take(it.index()),
        {
            out.push(t);
        }
        assert(out@ =~= listed);
        out
    }

    /// Remove the task stored under `id`, handing back what was there.
    /// An absent id leaves the store as it was.
    pub fn delete(&mut self, id: &u64) -> (r: Option<Task>)
        ensures
            final(self).tasks@ == old(self).tasks@.remove(*id),
            final(self).users@ == old(self).users@,
            old(self).wf() ==> final(self).wf(),
            r is Some <==> old(self).tasks@.contains_key(*id),
            r matches Some(t) ==> t == old(self).tasks@[*id],
    {
        self.tasks.remove(id)
    }

    /// Store a task under its id; the same upsert as `insert`.
    pub fn update(&mut self, task: Task)
        ensures
            final(self).tasks@ == old(self).tasks@.insert(task.id, task),
            final(self).users@ == old(self).users@,
            old(self).wf() ==> final(self).wf(),
    {
        let id = task.id;
        self.tasks.insert(id, task);
    }

    /// Register a user, replacing any user with the same id.
    pub fn insert_user(&mut self, user: User)
        ensures
            final(self).users@ == old(self).users@.insert(user.id, user),
            final(self).tasks@ == old(self).tasks@,
            old(self).wf() ==> final(self).wf(),
    {
        let id = user.id;
        self.users.insert(id, user);
    }

    /// Some user whose username is `username`; which one, among several, is
    /// left to the map's order.
    pub fn get_user_by_name(&self, username: &str) -> (r: Option<&User>)
        ensures
            r matches Some(u) ==> self.users@.values().contains(*u) && u.username@ == username@,
            r is None <==> !has_username(self.users@, username@),
    {
        let wanted: String = username.to_owned();
        let ghost listed = spec_values_iter(&self.users).remaining();
        for u in it: self.users.values()
            invariant
                it.seq() == listed,
                listed.unref().to_set() == self.users@.values(),
                wanted@ == username@,
                forall|i: int| 0 <= i < it.index() ==> (#[trigger] listed[i]).username@ != username@,
        {
            if u.username == wanted {
                assert(listed.unref()[it.index()] == *u);
                assert(listed.unref().contains(*u));
                assert(self.users@.values().contains(*u));
                return Some(u);
            }
        }
        assert forall|v: User| #[trigger] self.users@.values().contains(v) implies v.username@
            != username@ by {
            assert(listed.unref().to_set().contains(v));
            let i = choose|i: int| 0 <= i < listed.len() && listed.unref()[i] == v;
            assert(listed.unref()[i] == *listed[i]);
        }
        None
    }

    /// Whether `username` and `password` name a registered user. Unknown
    /// user and wrong password give the same answer.
    pub fn login(&self, username: &str, password: &str) -> (r: bool)
        ensures
            r ==> exists|u: User| #[trigger] self.users@.values().contains(u) && u.username@ == username@
                && u.password@ == password@,
            !has_username(self.users@, username@) ==> !r,
            only_password(self.users@, username@, password@) ==> r,
    {
        let given: String = password.to_owned();
        match self.get_user_by_name(username) {
            Some(stored) => stored.password == given,
            None => false,
        }
    }
}

/// Whether some user in `users` has `name` as its username.
pub open spec fn has_username(users: Map<u64, User>, name: Seq<char>) -> bool {
    exists|u: User| #[trigger] users.values().contains(u) && u.username@ == name
}

/// Whether `name` is registered, and every user of that name has `password`.
pub open spec fn only_password(users: Map<u64, User>, name: Seq<char>, password: Seq<char>) -> bool {
    &&& has_username(users, name)
    &&& forall|u: User| #[trigger] users.values().contains(u) && u.username@ == name ==> u.password@ == password
}

/// Every task is stored under its own id, and so is every user.
pub open spec fn keys_match(tasks: Map<u64, Task>, users: Map<u64, User>) -> bool {
    &&& forall|k: u64| #[trigger] tasks.contains_key(k) ==> tasks[k].id == k
    &&& forall|k: u64| #[trigger] users.contains_key(k) ==> users[k].id == k
}

} // verus!
