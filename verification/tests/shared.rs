use std::sync::{Arc, Mutex};
use user_store::store::UserStore;

#[test]
fn creates_through_several_handles_get_distinct_ids() {
    let shared = Arc::new(Mutex::new(UserStore::new()));
    let handles: Vec<Arc<Mutex<UserStore>>> = (0..4).map(|_| Arc::clone(&shared)).collect();
    let mut ids: Vec<u32> = Vec::new();
    for i in 0..50u32 {
        for (t, handle) in handles.iter().enumerate() {
            let mut store = handle.lock().unwrap();
            ids.push(store.create(format!("t{}-{}", t, i)).id);
        }
    }
    ids.sort();
    assert_eq!(ids, (1..=200).collect::<Vec<u32>>());
    assert_eq!(shared.lock().unwrap().len(), 200);
}
