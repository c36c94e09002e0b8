//! What holds of the operations taken together, stated over the model and
//! proved once for every store.

use vstd::prelude::*;
use crate::model::{
    after_create, after_creates, after_delete, after_update, created, is_listing, is_max_id,
    lemma_max_empty, lemma_max_exists, lemma_max_unique, lemma_next_id_fresh, lookup, max_id,
    next_id, Records, UserView,
};

verus! {

/// A get on the identifier that a create returned finds the record that the
/// create returned.
pub proof fn law_get_after_create(recs: Records, name: Seq<char>)
    requires
        next_id(recs) <= u32::MAX,
    ensures
        lookup(after_create(recs, name), created(recs, name).id) == Some(created(recs, name)),
{
}

/// The first record of an empty store gets the identifier 1.
pub proof fn law_first_id(recs: Records, name: Seq<char>)
    requires
        forall|k: u32| !recs.contains_key(k),
    ensures
        next_id(recs) == 1,
        created(recs, name).id == 1,
{
    lemma_max_empty(recs.dom());
}

/// In a store that is not empty, the next identifier is one more than the
/// largest in use, and so is in use by no record.
pub proof fn law_next_id_is_max_plus_one(recs: Records)
    requires
        exists|k: u32| recs.contains_key(k),
    ensures
        is_max_id(recs.dom(), max_id(recs.dom())),
        next_id(recs) == max_id(recs.dom()) + 1,
        forall|k: u32| recs.contains_key(k) ==> k < next_id(recs),
        next_id(recs) <= u32::MAX ==> !recs.contains_key(next_id(recs) as u32),
{
    let w = choose|k: u32| recs.contains_key(k);
    lemma_max_exists(recs.dom(), w, u32::MAX);
}

/// On an identifier that is not in use, a get finds nothing, and an update
/// and a delete leave the store as it was.
pub proof fn law_absent_id_changes_nothing(recs: Records, id: u32, name: Seq<char>)
    requires
        !recs.contains_key(id),
    ensures
        lookup(recs, id).is_none(),
        after_update(recs, id, name) == recs,
        after_delete(recs, id) == recs,
{
}

/// The listing of an empty store is empty.
pub proof fn law_listing_of_empty(all: Seq<UserView>)
    requires
        is_listing(Map::empty(), all),
    ensures
        all.len() == 0,
{
}

/// After one create for each of `names`, a store holds what it held before
/// and one new record for each name, under consecutive identifiers above the
/// largest that was in use.
pub proof fn law_creates_add_one_each(recs: Records, names: Seq<Seq<char>>)
    requires
        recs.dom().finite(),
        max_id(recs.dom()) + names.len() <= u32::MAX,
    ensures
        ({
            let top = max_id(recs.dom());
            let then = after_creates(recs, names);
            &&& then.dom().finite()
            &&& then.len() == recs.len() + names.len()
            &&& forall|k: u32|
                then.contains_key(k) <==> recs.contains_key(k) || top < k <= top + names.len()
            &&& forall|k: u32| recs.contains_key(k) ==> then[k] == recs[k]
            &&& forall|i: int|
                0 <= i < names.len() ==> then[(top + 1 + i) as u32] == #[trigger] names[i]
            &&& max_id(then.dom()) == if names.len() == 0 {
                top
            } else {
                (top + names.len()) as u32
            }
        }),
    decreases names.len(),
{
    if names.len() > 0 {
        let top = max_id(recs.dom());
        let before = after_creates(recs, names.drop_last());
        let then = after_creates(recs, names);
        law_creates_add_one_each(recs, names.drop_last());
        let n = names.len() - 1;
        assert(max_id(before.dom()) == top + n);
        let id = (top + n + 1) as u32;
        assert(then == before.insert(id, names.last()));
        assert(!before.contains_key(id)) by {
            if recs.contains_key(id) {
                lemma_next_id_fresh(recs, id);
            }
        }
        assert(is_max_id(then.dom(), id)) by {
            assert forall|k: u32| then.dom().contains(k) implies k <= id by {
                if recs.contains_key(k) {
                    lemma_next_id_fresh(recs, k);
                }
            }
        }
        lemma_max_unique(then.dom(), id);
        assert forall|i: int| 0 <= i < names.len() implies then[(top + 1 + i) as u32]
            == #[trigger] names[i] by {
            if i < n {
                assert(names.drop_last()[i] == names[i]);
            }
        }
    }
}

/// After creates on an empty store, a listing holds one record for each
/// name: the name at position `i` under the identifier `i + 1`.
pub proof fn law_listing_after_creates(names: Seq<Seq<char>>, all: Seq<UserView>)
    requires
        names.len() <= u32::MAX,
        is_listing(after_creates(Map::empty(), names), all),
    ensures
        all.len() == names.len(),
        forall|i: int|
            0 <= i < names.len() ==> all.contains(
                UserView { id: (i + 1) as u32, name: #[trigger] names[i] },
            ),
        forall|j: int|
            0 <= j < all.len() ==> 1 <= (#[trigger] all[j]).id <= names.len() && all[j].name
                == names[all[j].id - 1],
{
    let empty = Map::<u32, Seq<char>>::empty();
    lemma_max_empty(empty.dom());
    law_creates_add_one_each(empty, names);
    let then = after_creates(empty, names);
    assert forall|i: int| 0 <= i < names.len() implies all.contains(
        UserView { id: (i + 1) as u32, name: #[trigger] names[i] },
    ) by {
        let id = (i + 1) as u32;
        assert(then.contains_key(id));
        let j = choose|j: int| 0 <= j < all.len() && #[trigger] all[j].id == id;
        assert(lookup(then, all[j].id) == Some(all[j]));
        assert(then[(0 + 1 + i) as u32] == names[i]);
        assert(all[j] == (UserView { id, name: names[i] }));
    }
    assert forall|j: int| 0 <= j < all.len() implies 1 <= (#[trigger] all[j]).id <= names.len()
        && all[j].name == names[all[j].id - 1] by {
        assert(lookup(then, all[j].id) == Some(all[j]));
        let i = all[j].id - 1;
        assert(then[(0 + 1 + i) as u32] == names[i]);
    }
}

/// An update of an identifier in use changes the name under it and nothing
/// else: the same identifiers stay in use, every other record is as it was,
/// and a get then finds the identifier with the new name.
pub proof fn law_update_changes_only_the_name(recs: Records, id: u32, name: Seq<char>)
    requires
        recs.contains_key(id),
    ensures
        lookup(after_update(recs, id, name), id) == Some(UserView { id, name }),
        after_update(recs, id, name).dom() == recs.dom(),
        forall|k: u32| k != id ==> lookup(after_update(recs, id, name), k) == lookup(recs, k),
{
    assert(after_update(recs, id, name).dom() =~= recs.dom());
}

/// A delete of an identifier in use removes that record and no other: a get
/// on it then finds nothing, and no listing holds it.
pub proof fn law_delete_removes_the_record(recs: Records, id: u32, all: Seq<UserView>)
    requires
        recs.dom().finite(),
        recs.contains_key(id),
        is_listing(after_delete(recs, id), all),
    ensures
        lookup(after_delete(recs, id), id).is_none(),
        forall|k: u32| k != id ==> lookup(after_delete(recs, id), k) == lookup(recs, k),
        after_delete(recs, id).len() + 1 == recs.len(),
        forall|i: int| 0 <= i < all.len() ==> (#[trigger] all[i]).id != id,
{
    assert forall|i: int| 0 <= i < all.len() implies (#[trigger] all[i]).id != id by {
        assert(lookup(after_delete(recs, id), all[i].id) == Some(all[i]));
    }
}

/// Creates that run one after another, from whichever callers, get
/// consecutive identifiers: the create at position `i` gets the identifier
/// `i + 1` above the largest that was in use before the first, so no two of
/// them get the same.
pub proof fn law_creates_in_turn_get_distinct_ids(
    recs: Records,
    names: Seq<Seq<char>>,
    i: int,
    j: int,
)
    requires
        recs.dom().finite(),
        max_id(recs.dom()) + names.len() <= u32::MAX,
        0 <= i < j < names.len(),
    ensures
        next_id(after_creates(recs, names.take(i))) == max_id(recs.dom()) + 1 + i,
        next_id(after_creates(recs, names.take(j))) == max_id(recs.dom()) + 1 + j,
        created(after_creates(recs, names.take(i)), names[i]).id != created(
            after_creates(recs, names.take(j)),
            names[j],
        ).id,
{
    law_creates_add_one_each(recs, names.take(i));
    law_creates_add_one_each(recs, names.take(j));
}

/// No two creates hand out the same identifier while the record of the
/// first is still in the store: whatever was done to the store in between,
/// the later create gets a larger identifier.
pub proof fn law_created_ids_are_distinct(
    recs: Records,
    first: Seq<char>,
    later: Records,
    second: Seq<char>,
)
    requires
        next_id(recs) <= u32::MAX,
        next_id(later) <= u32::MAX,
        later.contains_key(created(recs, first).id),
    ensures
        created(later, second).id > created(recs, first).id,
{
    lemma_next_id_fresh(later, created(recs, first).id);
}

} // verus!
