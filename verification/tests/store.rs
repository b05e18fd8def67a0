use std::time::{SystemTime, UNIX_EPOCH};
use todo_store::item::Item;
use todo_store::store::{InsertError, Store};

const A: u128 = 0x1111_1111_1111_4111_8111_1111_1111_1111;
const B: u128 = 0x2222_2222_2222_4222_8222_2222_2222_2222;
const C: u128 = 0x3333_3333_3333_4333_8333_3333_3333_3333;

#[test]
fn new_store_is_empty() {
    let store = Store::new();
    assert_eq!(store.len(), 0);
    assert!(store.is_empty());
    assert!(!store.contains(A));
    assert!(store.get(A).is_none());
    assert_eq!(store.sorted_ids(), Vec::<u128>::new());
}

#[test]
fn insert_into_empty_store_shows_one_uncompleted_item() {
    let mut store = Store::new();
    let id = store.insert("buy milk".to_string()).unwrap();
    assert_eq!(store.len(), 1);
    let item = store.get(id).unwrap();
    assert_eq!(item.id, id);
    assert_eq!(item.contents, "buy milk");
    assert!(!item.completed);
    assert_eq!(store.sorted_ids(), vec![id]);
}

#[test]
fn insert_stamps_the_current_time() {
    let before = SystemTime::now().duration_since(UNIX_EPOCH).unwrap().as_secs();
    let mut store = Store::new();
    let id = store.insert("now".to_string()).unwrap();
    let after = SystemTime::now().duration_since(UNIX_EPOCH).unwrap().as_secs();
    let created = store.get(id).unwrap().created;
    assert!(before <= created && created <= after);
    assert!(created > 1_000_000_000);
}

#[test]
fn drawn_identifier_is_a_random_uuid() {
    let mut store = Store::new();
    let id = store.insert("x".to_string()).unwrap();
    assert_eq!((id >> 76) & 0xF, 4);
    assert_eq!((id >> 62) & 0x3, 2);
    let parsed = uuid::Uuid::from_u128(id);
    assert_eq!(parsed.get_version_num(), 4);
    assert_eq!(parsed.as_u128(), id);
}

#[test]
fn inserted_ids_are_pairwise_distinct() {
    let mut store = Store::new();
    let mut ids: Vec<u128> = Vec::new();
    for n in 0..50 {
        let id = store.insert(format!("item {n}")).unwrap();
        assert!(!ids.contains(&id));
        ids.push(id);
    }
    assert_eq!(store.len(), 50);
}

#[test]
fn later_insert_with_earlier_time_is_shown_first() {
    let mut store = Store::new();
    assert_eq!(store.insert_with(A, Some(100), "a".to_string()), Ok(A));
    assert_eq!(store.insert_with(B, Some(50), "b".to_string()), Ok(B));
    assert_eq!(store.sorted_ids(), vec![B, A]);
}

#[test]
fn equal_times_are_ordered_by_identifier() {
    let mut store = Store::new();
    assert!(store.insert_item(C, 10, "c".to_string()));
    assert!(store.insert_item(A, 10, "a".to_string()));
    assert!(store.insert_item(B, 10, "b".to_string()));
    assert_eq!(store.sorted_ids(), vec![A, B, C]);
}

#[test]
fn view_is_ascending_in_creation_time() {
    let mut store = Store::new();
    let times: [u64; 8] = [70, 10, 50, 10, 90, 0, u64::MAX, 30];
    for (n, t) in times.iter().enumerate() {
        assert!(store.insert_item(n as u128 + 1, *t, String::new()));
    }
    let ids = store.sorted_ids();
    assert_eq!(ids, vec![6, 2, 4, 8, 3, 1, 5, 7]);
    for pair in ids.windows(2) {
        assert!(store.get(pair[0]).unwrap().created <= store.get(pair[1]).unwrap().created);
    }
    assert_eq!(store.sorted_ids(), ids);
}

#[test]
fn insert_without_clock_reading_changes_nothing() {
    let mut store = Store::new();
    assert_eq!(
        store.insert_with(A, None, "a".to_string()),
        Err(InsertError::ClockBeforeEpoch)
    );
    assert!(store.is_empty());
}

#[test]
fn insert_under_taken_identifier_changes_nothing() {
    let mut store = Store::new();
    assert_eq!(store.insert_with(A, Some(1), "first".to_string()), Ok(A));
    assert_eq!(
        store.insert_with(A, Some(2), "second".to_string()),
        Err(InsertError::IdentifierTaken)
    );
    assert!(!store.insert_item(A, 3, "third".to_string()));
    assert_eq!(store.len(), 1);
    let item = store.get(A).unwrap();
    assert_eq!(item.contents, "first");
    assert_eq!(item.created, 1);
}

#[test]
fn empty_text_is_accepted() {
    let mut store = Store::new();
    assert_eq!(store.insert_with(A, Some(1), String::new()), Ok(A));
    assert_eq!(store.get(A).unwrap().contents, "");
}

#[test]
fn remove_empties_store_and_view() {
    let mut store = Store::new();
    let id = store.insert("gone soon".to_string()).unwrap();
    assert!(store.remove(id));
    assert!(store.is_empty());
    assert_eq!(store.sorted_ids(), Vec::<u128>::new());
    assert!(store.entries().is_empty());
}

#[test]
fn remove_of_absent_id_is_no_error() {
    let mut store = Store::new();
    assert!(store.insert_item(A, 1, "a".to_string()));
    assert!(!store.remove(B));
    assert_eq!(store.len(), 1);
    assert!(store.contains(A));
}

#[test]
fn removed_id_is_not_in_view() {
    let mut store = Store::new();
    assert!(store.insert_item(A, 1, "a".to_string()));
    assert!(store.insert_item(B, 2, "b".to_string()));
    assert!(store.insert_item(C, 3, "c".to_string()));
    assert!(store.remove(B));
    assert_eq!(store.sorted_ids(), vec![A, C]);
}

#[test]
fn set_completed_sets_the_flag_only() {
    let mut store = Store::new();
    assert!(store.insert_item(A, 5, "a".to_string()));
    assert!(store.insert_item(B, 6, "b".to_string()));
    assert!(store.set_completed(A, true));
    let a = store.get(A).unwrap();
    assert_eq!(
        *a,
        Item { id: A, created: 5, contents: "a".to_string(), completed: true }
    );
    assert!(!store.get(B).unwrap().completed);
    assert!(store.set_completed(A, false));
    assert!(!store.get(A).unwrap().completed);
    assert_eq!(store.sorted_ids(), vec![A, B]);
}

#[test]
fn set_completed_twice_is_as_once() {
    let mut once = Store::new();
    let mut twice = Store::new();
    assert!(once.insert_item(A, 5, "a".to_string()));
    assert!(twice.insert_item(A, 5, "a".to_string()));
    assert!(once.set_completed(A, true));
    assert!(twice.set_completed(A, true));
    assert!(twice.set_completed(A, true));
    assert_eq!(once.entries(), twice.entries());
    assert!(twice.get(A).unwrap().completed);
}

#[test]
fn set_completed_on_absent_id_is_reported() {
    let mut store = Store::new();
    assert!(store.insert_item(A, 5, "a".to_string()));
    assert!(!store.set_completed(B, true));
    assert_eq!(store.len(), 1);
    assert!(!store.get(A).unwrap().completed);
}

#[test]
fn put_replaces_what_stood_under_the_key() {
    let mut store = Store::new();
    store.put(A, Item { id: A, created: 1, contents: "old".to_string(), completed: false });
    store.put(A, Item { id: A, created: 2, contents: "new".to_string(), completed: true });
    assert_eq!(store.len(), 1);
    assert_eq!(
        *store.get(A).unwrap(),
        Item { id: A, created: 2, contents: "new".to_string(), completed: true }
    );
}

#[test]
fn item_new_and_duplicate() {
    let item = Item::new(A, 9, "text".to_string());
    assert_eq!(item, Item { id: A, created: 9, contents: "text".to_string(), completed: false });
    assert_eq!(item.duplicate(), item);
}
