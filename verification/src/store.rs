//! The store itself: a hash map from identifier to record, and its operations.

use std::collections::HashMap;
use vstd::prelude::*;
use vstd::std_specs::iter::IteratorSpec;
use crate::model::{
    after_create, after_delete, after_update, created, is_listing, is_max_id, lemma_max_empty,
    lemma_max_exists, lemma_max_unique, lookup, max_id, next_id, Records, UserView,
};
use crate::user::{views, Deleted, StoreError, User};

verus! {

broadcast use vstd::std_specs::hash::group_hash_axioms;

/// All the records, each under its own identifier.
pub struct UserStore {
    users: HashMap<u32, User>,
}

impl View for UserStore {
    type V = Records;

    closed spec fn view(&self) -> Records {
        Map::new(|k: u32| self.users@.contains_key(k), |k: u32| self.users@[k].name@)
    }
}

impl UserStore {
    /// Every record is kept under its own identifier.
    #[verifier::type_invariant]
    spec fn well_formed(self) -> bool {
        forall|k: u32| #[trigger] self.users@.contains_key(k) ==> self.users@[k].id == k
    }

    /// The identifiers in use are those of the underlying map.
    proof fn lemma_view(&self)
        ensures
            self@.dom() =~= self.users@.dom(),
            self@.dom().finite(),
            forall|k: u32| #[trigger] self@.contains_key(k) ==> self@[k] == self.users@[k].name@,
    {
    }

    /// Keeps `name` under `id`, in place of what was there. The map is taken
    /// out of the store while it is changed, so that the store is whole at
    /// every moment.
    fn put(&mut self, id: u32, name: String)
        ensures
            final(self)@ == old(self)@.insert(id, name@),
    {
        proof {
            self.lemma_view();
            use_type_invariant(&*self);
        }
        let mut users: HashMap<u32, User> = HashMap::new();
        std::mem::swap(&mut users, &mut self.users);
        users.insert(id, User { id, name });
        self.users = users;
        assert(self@ =~= old(self)@.insert(id, name@));
    }

    /// An empty store.
    pub fn new() -> (s: Self)
        ensures
            s@ == Map::<u32, Seq<char>>::empty(),
    {
        let s = UserStore { users: HashMap::new() };
        assert(s@ =~= Map::<u32, Seq<char>>::empty());
        s
    }

    /// The number of records.
    pub fn len(&self) -> (n: usize)
        ensures
            n == self@.len(),
            self@.dom().finite(),
    {
        proof {
            self.lemma_view();
        }
        self.users.len()
    }

    /// The largest identifier in use, or 0 for an empty store.
    pub fn max_id(&self) -> (m: u32)
        ensures
            m == max_id(self@.dom()),
            self@.dom().is_empty() ==> m == 0,
            !self@.dom().is_empty() ==> is_max_id(self@.dom(), m),
    {
        proof {
            self.lemma_view();
        }
        let mut best: u32 = 0;
        for k in it: self.users.keys()
            invariant
                self@.dom() =~= self.users@.dom(),
                it.seq().unref().to_set() == self.users@.dom(),
                forall|j: int| 0 <= j < it.index() ==> #[trigger] it.seq().unref()[j] <= best,
                best == 0 || self@.dom().contains(best),
        {
            proof {
                let keys = it.seq().unref();
                assert(keys[it.index()] == *k);
                assert(keys.to_set().contains(*k));
            }
            if *k > best {
                best = *k;
            }
        }
        proof {
            assert(forall|k: u32| self@.dom().contains(k) ==> k <= best);
            if exists|w: u32| self@.dom().contains(w) {
                let w = choose|w: u32| self@.dom().contains(w);
                assert(w <= best);
                assert(is_max_id(self@.dom(), best));
                lemma_max_unique(self@.dom(), best);
            } else {
                lemma_max_empty(self@.dom());
                assert(self@.dom() =~= Set::empty());
            }
        }
        best
    }

    /// Whether a record is kept under `id`.
    pub fn contains(&self, id: u32) -> (b: bool)
        ensures
            b == self@.contains_key(id),
    {
        proof {
            self.lemma_view();
        }
        self.users.contains_key(&id)
    }

    /// The record under `id`; `NotFound` where there is none. The store is
    /// not changed.
    pub fn get(&self, id: u32) -> (r: Result<User, StoreError>)
        ensures
            match r {
                Ok(u) => lookup(self@, id) == Some(u@),
                Err(e) => e == StoreError::NotFound && lookup(self@, id).is_none(),
            },
    {
        proof {
            self.lemma_view();
            use_type_invariant(self);
        }
        match self.users.get(&id) {
            Some(u) => Ok(u.clone()),
            None => Err(StoreError::NotFound),
        }
    }

    /// Every record, each once, in no particular order.
    pub fn list(&self) -> (all: Vec<User>)
        ensures
            is_listing(self@, views(all@)),
    {
        proof {
            self.lemma_view();
            use_type_invariant(self);
        }
        let mut all: Vec<User> = Vec::new();
        let ghost keys: Seq<u32> = self.users.keys().remaining().unref();
        for k in it: self.users.keys()
            invariant
                it.seq().unref() == keys,
                self@.dom() =~= self.users@.dom(),
                forall|k: u32| #[trigger] self@.contains_key(k) ==> self@[k] == self.users@[k].name@,
                forall|k: u32| #[trigger] self.users@.contains_key(k) ==> self.users@[k].id == k,
                it.seq().unref().to_set() == self.users@.dom(),
                it.seq().no_duplicates(),
                it.seq().len() == self.users@.dom().len(),
                all@.len() == it.index(),
                forall|j: int| 0 <= j < it.index() ==> #[trigger] all@[j].id == it.seq().unref()[j],
                forall|j: int| 0 <= j < it.index() ==> lookup(self@, #[trigger] all@[j].id) == Some(all@[j]@),
        {
            proof {
                let keys = it.seq().unref();
                assert(keys[it.index()] == *k);
                assert(keys.to_set().contains(*k));
            }
            match self.users.get(k) {
                Some(u) => {
                    all.push(u.clone());
                },
                None => {
                    assert(false);
                },
            }
        }
        proof {
            let listed = views(all@);
            assert forall|id: u32| self@.contains_key(id) implies exists|i: int|
                0 <= i < listed.len() && #[trigger] listed[i].id == id by {
                assert(keys.to_set().contains(id));
                let j = choose|j: int| 0 <= j < keys.len() && keys[j] == id;
                assert(listed[j].id == id);
            }
            assert forall|i: int| 0 <= i < listed.len() implies lookup(
                self@,
                #[trigger] listed[i].id,
            ) == Some(listed[i]) by {
                assert(lookup(self@, all@[i].id) == Some(all@[i]@));
            }
            assert forall|i: int, j: int| 0 <= i < j < listed.len() implies listed[i].id
                != listed[j].id by {
                assert(all@[i].id == keys[i] && all@[j].id == keys[j]);
            }
        }
        all
    }

    /// Adds a record with `name` under the next identifier, one more than the
    /// largest in use (1 for an empty store), and returns it.
    pub fn create(&mut self, name: String) -> (u: User)
        requires
            next_id(old(self)@) <= u32::MAX,
        ensures
            u@ == created(old(self)@, name@),
            !old(self)@.contains_key(u.id),
            final(self)@ == after_create(old(self)@, name@),
    {
        let top = self.max_id();
        proof {
            self.lemma_view();
            if self@.contains_key((top + 1) as u32) {
                lemma_max_exists(self@.dom(), (top + 1) as u32, u32::MAX);
            }
        }
        let id: u32 = top + 1;
        let u = User { id, name: name.clone() };
        self.put(id, name);
        u
    }

    /// Gives the record under `id` the name `name` and returns it; `NotFound`
    /// where there is none, and the store is then not changed.
    pub fn update(&mut self, id: u32, name: String) -> (r: Result<User, StoreError>)
        ensures
            final(self)@ == after_update(old(self)@, id, name@),
            match r {
                Ok(u) => old(self)@.contains_key(id) && u@ == (UserView { id, name: name@ }),
                Err(e) => e == StoreError::NotFound && !old(self)@.contains_key(id),
            },
    {
        if self.contains(id) {
            let u = User { id, name: name.clone() };
            self.put(id, name);
            Ok(u)
        } else {
            Err(StoreError::NotFound)
        }
    }

    /// Removes the record under `id` and answers with the identifier removed;
    /// `NotFound` where there is none, and the store is then not changed.
    pub fn delete(&mut self, id: u32) -> (r: Result<Deleted, StoreError>)
        ensures
            final(self)@ == after_delete(old(self)@, id),
            match r {
                Ok(gone) => old(self)@.contains_key(id) && gone.id == id,
                Err(e) => e == StoreError::NotFound && !old(self)@.contains_key(id),
            },
    {
        proof {
            self.lemma_view();
            use_type_invariant(&*self);
        }
        let mut users: HashMap<u32, User> = HashMap::new();
        std::mem::swap(&mut users, &mut self.users);
        let gone = users.remove(&id);
        self.users = users;
        match gone {
            Some(_) => {
                assert(self@ =~= after_delete(old(self)@, id));
                Ok(Deleted { id })
            },
            None => {
                assert(self@ =~= old(self)@);
                Err(StoreError::NotFound)
            },
        }
    }
}

} // verus!
