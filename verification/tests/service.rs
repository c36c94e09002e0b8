use user_store::service::{
    Body, Reply, Request, STATUS_CREATED, STATUS_NOT_FOUND, STATUS_OK,
};
use user_store::store::UserStore;

fn record_of(reply: &Reply) -> (u32, String) {
    match &reply.body {
        Body::Record(u) => (u.id, u.name.clone()),
        other => panic!("expected a record, got {:?}", other),
    }
}

fn failure_of(reply: &Reply) -> String {
    match &reply.body {
        Body::Failure(text) => text.clone(),
        other => panic!("expected a failure, got {:?}", other),
    }
}

#[test]
fn status_values() {
    assert_eq!(STATUS_OK, 200);
    assert_eq!(STATUS_CREATED, 201);
    assert_eq!(STATUS_NOT_FOUND, 404);
}

#[test]
fn create_is_answered_with_201_and_the_record() {
    let mut store = UserStore::new();
    let reply = store.handle(Request::Create { name: "Ann".to_string() });
    assert_eq!(reply.status, 201);
    assert_eq!(record_of(&reply), (1, "Ann".to_string()));
    assert_eq!(store.len(), 1);
}

#[test]
fn get_is_answered_with_200_or_404() {
    let mut store = UserStore::new();
    store.create("Ann".to_string());
    let hit = store.handle(Request::Get { id: 1 });
    assert_eq!(hit.status, 200);
    assert_eq!(record_of(&hit), (1, "Ann".to_string()));
    let miss = store.handle(Request::Get { id: 2 });
    assert_eq!(miss.status, 404);
    assert_eq!(failure_of(&miss), "User not found");
    assert_eq!(store.len(), 1);
}

#[test]
fn list_is_answered_with_200_even_when_empty() {
    let mut store = UserStore::new();
    let reply = store.handle(Request::List);
    assert_eq!(reply.status, 200);
    match reply.body {
        Body::Records(all) => assert!(all.is_empty()),
        other => panic!("expected records, got {:?}", other),
    }
    store.create("Ann".to_string());
    store.create("Bo".to_string());
    let reply = store.handle(Request::List);
    assert_eq!(reply.status, 200);
    match reply.body {
        Body::Records(all) => {
            let mut pairs: Vec<(u32, String)> = all.into_iter().map(|u| (u.id, u.name)).collect();
            pairs.sort();
            assert_eq!(pairs, vec![(1, "Ann".to_string()), (2, "Bo".to_string())]);
        }
        other => panic!("expected records, got {:?}", other),
    }
}

#[test]
fn update_is_answered_with_200_or_404() {
    let mut store = UserStore::new();
    store.create("Ann".to_string());
    let hit = store.handle(Request::Update { id: 1, name: "Anna".to_string() });
    assert_eq!(hit.status, 200);
    assert_eq!(record_of(&hit), (1, "Anna".to_string()));
    assert_eq!(store.get(1).unwrap().name, "Anna");
    let miss = store.handle(Request::Update { id: 9, name: "X".to_string() });
    assert_eq!(miss.status, 404);
    assert_eq!(failure_of(&miss), "User not found");
    assert_eq!(store.len(), 1);
    assert_eq!(store.get(1).unwrap().name, "Anna");
}

#[test]
fn delete_is_answered_with_200_and_a_confirmation_or_404() {
    let mut store = UserStore::new();
    store.create("Ann".to_string());
    store.create("Bo".to_string());
    let hit = store.handle(Request::Delete { id: 2 });
    assert_eq!(hit.status, 200);
    match hit.body {
        Body::Message(text) => assert_eq!(text, "Deleted user 2"),
        other => panic!("expected a confirmation, got {:?}", other),
    }
    assert!(!store.contains(2));
    let miss = store.handle(Request::Delete { id: 2 });
    assert_eq!(miss.status, 404);
    assert_eq!(failure_of(&miss), "User not found");
    assert_eq!(store.len(), 1);
}

#[test]
fn scenario_through_requests() {
    let mut store = UserStore::new();
    let ann = store.handle(Request::Create { name: "Ann".to_string() });
    assert_eq!((ann.status, record_of(&ann)), (201, (1, "Ann".to_string())));
    let bo = store.handle(Request::Create { name: "Bo".to_string() });
    assert_eq!((bo.status, record_of(&bo)), (201, (2, "Bo".to_string())));
    assert_eq!(store.handle(Request::Delete { id: 1 }).status, 200);
    assert_eq!(store.handle(Request::Get { id: 1 }).status, 404);
    match store.handle(Request::List).body {
        Body::Records(all) => {
            assert_eq!(all.len(), 1);
            assert_eq!((all[0].id, all[0].name.as_str()), (2, "Bo"));
        }
        other => panic!("expected records, got {:?}", other),
    }
}
