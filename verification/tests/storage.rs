use enrollment_bot::backend::database_storage::{save_to_json, Enrollment, EnrollmentStore};

fn record(user_id: u64, name: &str) -> Enrollment {
    Enrollment::new(
        user_id,
        format!("user{}#0001", user_id),
        name.to_string(),
        "Acme University".to_string(),
        format!("{}@x.edu", user_id),
        "robotics".to_string(),
        "Yes".to_string(),
    )
}

fn alice() -> Enrollment {
    Enrollment::new(
        42,
        "alice#0001".to_string(),
        "Alice B".to_string(),
        "Acme University".to_string(),
        "a@x.edu".to_string(),
        "robotics".to_string(),
        "Yes".to_string(),
    )
}

fn fields(e: &Enrollment) -> (u64, String, String, String, String, String, String) {
    (
        e.user_id(),
        e.user_name().to_string(),
        e.name().to_string(),
        e.university().to_string(),
        e.email().to_string(),
        e.interests().to_string(),
        e.email_distro().to_string(),
    )
}

fn to_json(store: &EnrollmentStore) -> String {
    let mut object = serde_json::Map::new();
    for e in store.to_vec() {
        let mut entry = serde_json::Map::new();
        entry.insert("user_id".to_string(), serde_json::Value::from(e.user_id()));
        entry.insert("user_name".to_string(), serde_json::Value::from(e.user_name()));
        entry.insert("name".to_string(), serde_json::Value::from(e.name()));
        entry.insert("university".to_string(), serde_json::Value::from(e.university()));
        entry.insert("email".to_string(), serde_json::Value::from(e.email()));
        entry.insert("interests".to_string(), serde_json::Value::from(e.interests()));
        entry.insert("email_distro".to_string(), serde_json::Value::from(e.email_distro()));
        object.insert(e.user_id().to_string(), serde_json::Value::Object(entry));
    }
    serde_json::to_string(&serde_json::Value::Object(object)).unwrap()
}

fn text_of(entry: &serde_json::Value, key: &str) -> String {
    entry.get(key).unwrap().as_str().unwrap().to_string()
}

fn from_json(data: &str) -> EnrollmentStore {
    let value: serde_json::Value = serde_json::from_str(data).unwrap();
    let mut records = Vec::new();
    for (key, entry) in value.as_object().unwrap() {
        let user_id = entry.get("user_id").unwrap().as_u64().unwrap();
        assert_eq!(key, &user_id.to_string());
        records.push(Enrollment::new(
            user_id,
            text_of(entry, "user_name"),
            text_of(entry, "name"),
            text_of(entry, "university"),
            text_of(entry, "email"),
            text_of(entry, "interests"),
            text_of(entry, "email_distro"),
        ));
    }
    EnrollmentStore::from_records(&records)
}

#[test]
fn enrollment_keeps_its_fields() {
    let e = alice();
    assert_eq!(
        fields(&e),
        (
            42,
            "alice#0001".to_string(),
            "Alice B".to_string(),
            "Acme University".to_string(),
            "a@x.edu".to_string(),
            "robotics".to_string(),
            "Yes".to_string()
        )
    );
    assert_eq!(fields(&e.clone()), fields(&e));
}

#[test]
fn new_store_is_empty() {
    let store = EnrollmentStore::new();
    assert_eq!(store.len(), 0);
    assert!(store.get(42).is_none());
    assert!(store.to_vec().is_empty());
}

#[test]
fn save_into_absent_store_starts_from_nothing() {
    let store = save_to_json(None, &alice());
    assert_eq!(store.len(), 1);
    assert_eq!(fields(store.get(42).unwrap()), fields(&alice()));
    assert!(store.get(41).is_none());
}

#[test]
fn save_keeps_the_records_of_other_users() {
    let store = save_to_json(None, &record(1, "One"));
    let store = save_to_json(Some(store), &record(2, "Two"));
    assert_eq!(store.len(), 2);
    assert_eq!(fields(store.get(1).unwrap()), fields(&record(1, "One")));
    assert_eq!(fields(store.get(2).unwrap()), fields(&record(2, "Two")));
}

#[test]
fn saving_twice_leaves_one_entry() {
    let store = save_to_json(None, &record(7, "Other"));
    let once = save_to_json(Some(store), &alice());
    assert_eq!(once.len(), 2);
    let twice = save_to_json(Some(once), &alice());
    assert_eq!(twice.len(), 2);
    let of_alice: Vec<Enrollment> =
        twice.to_vec().into_iter().filter(|e| e.user_id() == 42).collect();
    assert_eq!(of_alice.len(), 1);
    assert_eq!(fields(&of_alice[0]), fields(&alice()));
}

#[test]
fn later_save_overwrites_earlier() {
    let store = save_to_json(None, &record(42, "Old Name"));
    let store = save_to_json(Some(store), &record(9, "Nine"));
    let store = save_to_json(Some(store), &alice());
    assert_eq!(store.len(), 2);
    assert_eq!(fields(store.get(42).unwrap()), fields(&alice()));
    let ids: Vec<u64> = store.to_vec().iter().map(|e| e.user_id()).collect();
    assert_eq!(ids, vec![42, 9]);
}

#[test]
fn saves_for_distinct_users_are_all_kept() {
    let mut store = EnrollmentStore::new();
    for id in 0..50u64 {
        store = save_to_json(Some(store), &record(id, &format!("Member {}", id)));
    }
    assert_eq!(store.len(), 50);
    for id in 0..50u64 {
        assert_eq!(
            fields(store.get(id).unwrap()),
            fields(&record(id, &format!("Member {}", id)))
        );
    }
}

#[test]
fn insert_adds_or_replaces() {
    let mut store = EnrollmentStore::new();
    store.insert(record(3, "Three"));
    store.insert(record(4, "Four"));
    store.insert(record(3, "Third"));
    assert_eq!(store.len(), 2);
    assert_eq!(store.get(3).unwrap().name(), "Third");
    assert_eq!(store.get(4).unwrap().name(), "Four");
    assert!(store.get(5).is_none());
}

#[test]
fn from_records_keeps_the_later_of_two() {
    let records = vec![record(1, "a"), record(2, "b"), record(1, "c"), record(u64::MAX, "d")];
    let store = EnrollmentStore::from_records(&records);
    assert_eq!(store.len(), 3);
    assert_eq!(store.get(1).unwrap().name(), "c");
    assert_eq!(store.get(2).unwrap().name(), "b");
    assert_eq!(store.get(u64::MAX).unwrap().name(), "d");
    let names: Vec<String> = store.to_vec().iter().map(|e| e.name().to_string()).collect();
    assert_eq!(names, vec!["c", "b", "d"]);
}

#[test]
fn saved_record_is_reloaded_under_its_user_id() {
    let store = save_to_json(None, &alice());
    let data = to_json(&store);
    let value: serde_json::Value = serde_json::from_str(&data).unwrap();
    let object = value.as_object().unwrap();
    assert_eq!(object.len(), 1);
    let entry = object.get("42").unwrap();
    assert_eq!(entry.get("user_id").unwrap().as_u64(), Some(42));
    assert_eq!(text_of(entry, "user_name"), "alice#0001");
    assert_eq!(text_of(entry, "name"), "Alice B");
    assert_eq!(text_of(entry, "university"), "Acme University");
    assert_eq!(text_of(entry, "email"), "a@x.edu");
    assert_eq!(text_of(entry, "interests"), "robotics");
    assert_eq!(text_of(entry, "email_distro"), "Yes");
    let reloaded = from_json(&data);
    assert_eq!(reloaded.len(), 1);
    assert_eq!(fields(reloaded.get(42).unwrap()), fields(&alice()));
}

#[test]
fn reloaded_store_takes_further_saves() {
    let store = save_to_json(None, &alice());
    let store = save_to_json(Some(from_json(&to_json(&store))), &record(43, "Bob"));
    let reloaded = from_json(&to_json(&store));
    assert_eq!(reloaded.len(), 2);
    assert_eq!(fields(reloaded.get(42).unwrap()), fields(&alice()));
    assert_eq!(fields(reloaded.get(43).unwrap()), fields(&record(43, "Bob")));
}
