//! The mathematical model of the store: a finite map from identifier to name,
//! and the five operations as functions on that map.

use vstd::prelude::*;

verus! {

/// What a store holds: the name kept under each identifier.
pub type Records = Map<u32, Seq<char>>;

/// A record as a plain value: its identifier and the characters of its name.
pub struct UserView {
    pub id: u32,
    pub name: Seq<char>,
}

/// `m` is in `ids` and no identifier in `ids` is larger.
pub open spec fn is_max_id(ids: Set<u32>, m: u32) -> bool {
    &&& ids.contains(m)
    &&& forall|k: u32| ids.contains(k) ==> k <= m
}

/// The largest identifier in `ids`; 0 where `ids` is empty.
pub open spec fn max_id(ids: Set<u32>) -> u32 {
    if exists|m: u32| is_max_id(ids, m) {
        choose|m: u32| is_max_id(ids, m)
    } else {
        0
    }
}

/// The identifier that the next created record gets.
pub open spec fn next_id(recs: Records) -> int {
    max_id(recs.dom()) + 1
}

/// The record under `id`, if there is one.
pub open spec fn lookup(recs: Records, id: u32) -> Option<UserView> {
    if recs.contains_key(id) {
        Some(UserView { id, name: recs[id] })
    } else {
        None
    }
}

/// `all` holds every record of `recs` once, in whatever order.
pub open spec fn is_listing(recs: Records, all: Seq<UserView>) -> bool {
    &&& all.len() == recs.len()
    &&& forall|i: int| 0 <= i < all.len() ==> lookup(recs, #[trigger] all[i].id) == Some(all[i])
    &&& forall|i: int, j: int| 0 <= i < j < all.len() ==> all[i].id != all[j].id
    &&& forall|id: u32|
        recs.contains_key(id) ==> exists|i: int| 0 <= i < all.len() && #[trigger] all[i].id == id
}

/// The record that a create with `name` returns.
pub open spec fn created(recs: Records, name: Seq<char>) -> UserView
    recommends
        next_id(recs) <= u32::MAX,
{
    UserView { id: next_id(recs) as u32, name }
}

/// The store after a create with `name`.
pub open spec fn after_create(recs: Records, name: Seq<char>) -> Records
    recommends
        next_id(recs) <= u32::MAX,
{
    recs.insert(next_id(recs) as u32, name)
}

/// The store after an update of `id` to `name`: unchanged where `id` is absent.
pub open spec fn after_update(recs: Records, id: u32, name: Seq<char>) -> Records {
    if recs.contains_key(id) {
        recs.insert(id, name)
    } else {
        recs
    }
}

/// The store after a delete of `id`: unchanged where `id` is absent.
pub open spec fn after_delete(recs: Records, id: u32) -> Records {
    if recs.contains_key(id) {
        recs.remove(id)
    } else {
        recs
    }
}

/// The store after one create for each name of `names`, in order.
pub open spec fn after_creates(recs: Records, names: Seq<Seq<char>>) -> Records
    decreases names.len(),
{
    if names.len() == 0 {
        recs
    } else {
        after_create(after_creates(recs, names.drop_last()), names.last())
    }
}

/// A set with an upper bound `b` and a member `w` has a largest member.
pub proof fn lemma_max_exists(ids: Set<u32>, w: u32, b: u32)
    requires
        ids.contains(w),
        forall|k: u32| ids.contains(k) ==> k <= b,
    ensures
        is_max_id(ids, max_id(ids)),
    decreases b,
{
    if ids.contains(b) {
        assert(is_max_id(ids, b));
    } else {
        assert(w < b);
        lemma_max_exists(ids, w, (b - 1) as u32);
    }
}

/// Whatever is the largest member of `ids` is `max_id(ids)`.
pub proof fn lemma_max_unique(ids: Set<u32>, m: u32)
    requires
        is_max_id(ids, m),
    ensures
        max_id(ids) == m,
{
    let c = choose|c: u32| is_max_id(ids, c);
    assert(c <= m && m <= c);
}

/// With no member there is no largest one, and `max_id` is 0.
pub proof fn lemma_max_empty(ids: Set<u32>)
    requires
        forall|k: u32| !ids.contains(k),
    ensures
        max_id(ids) == 0,
{
}

/// No identifier in use is as large as the next one.
pub proof fn lemma_next_id_fresh(recs: Records, k: u32)
    requires
        recs.contains_key(k),
    ensures
        k < next_id(recs),
{
    lemma_max_exists(recs.dom(), k, u32::MAX);
}

} // verus!
