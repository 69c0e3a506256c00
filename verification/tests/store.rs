use lever::api::{MutationRoot, QueryRoot};
use lever::data::{Data, Metadata, Mutation, Stamp, ThingInput, Timestamp, DB};
use lever::error::Error;

fn object(key: &str, value: i64) -> serde_json::Map<String, serde_json::Value> {
    let mut map = serde_json::Map::new();
    map.insert(key.to_string(), serde_json::Value::from(value));
    map
}

fn input(kind: &str, status: &str, data: serde_json::Map<String, serde_json::Value>) -> ThingInput {
    ThingInput { kind: kind.to_string(), status: status.to_string(), metadata: None, data: Data(data) }
}

fn stamp(id: u128, secs: i64, nanos: u32) -> Stamp {
    Stamp { id, at: Timestamp { secs, nanos } }
}

fn create(db: &mut DB, id: u128, at: Stamp) {
    db.commit_mutation(Mutation::Create { id, input: input("item", "pending", object("a", 1)) }, at).unwrap();
}

#[test]
fn new_store_is_empty() {
    let db = DB::new();
    assert!(db.all_things().unwrap().is_empty());
    assert!(db.all_events().unwrap().is_empty());
    assert!(db.get_thing_by_id(1).unwrap().is_none());
    assert!(db.get_thing_history(1).unwrap().is_empty());
    assert!(db.events_by_kind("create".to_string()).unwrap().is_empty());
}

#[test]
fn create_then_get_returns_the_fields_of_the_input() {
    let mut db = DB::new();
    let mut source = input("item", "pending", object("a", 1));
    source.metadata = Some(Metadata(object("m", 2)));
    let created = db.create_thing(source).unwrap();
    assert_eq!(created.kind, "item");
    assert_eq!(created.status, "pending");
    assert_eq!(created.data.0, object("a", 1));
    assert_eq!((created.id >> 76) & 0xf, 4);
    let found = db.get_thing_by_id(created.id).unwrap().unwrap();
    assert_eq!(found.id, created.id);
    assert_eq!(found.kind, "item");
    assert_eq!(found.status, "pending");
    assert_eq!(found.metadata.unwrap().0, object("m", 2));
    assert_eq!(found.data.0, object("a", 1));
}

#[test]
fn create_assigns_a_fresh_identity_each_time() {
    let mut db = DB::new();
    let first = db.create_thing(input("item", "pending", object("a", 1))).unwrap();
    let second = db.create_thing(input("item", "pending", object("a", 1))).unwrap();
    assert_ne!(first.id, second.id);
    assert_eq!(db.all_things().unwrap().len(), 2);
}

#[test]
fn create_with_empty_kind_persists_nothing() {
    let mut db = DB::new();
    assert!(matches!(db.create_thing(input("", "pending", object("a", 1))), Err(Error::InvalidInput)));
    assert!(db.all_things().unwrap().is_empty());
    assert!(db.all_events().unwrap().is_empty());
}

#[test]
fn create_with_empty_status_persists_nothing() {
    let mut db = DB::new();
    assert!(matches!(db.create_thing(input("item", "", object("a", 1))), Err(Error::InvalidInput)));
    assert!(db.all_things().unwrap().is_empty());
    assert!(db.all_events().unwrap().is_empty());
}

#[test]
fn create_with_empty_data_persists_nothing() {
    let mut db = DB::new();
    assert!(matches!(
        db.create_thing(input("item", "pending", serde_json::Map::new())),
        Err(Error::InvalidInput)
    ));
    assert!(db.all_things().unwrap().is_empty());
    assert!(db.all_events().unwrap().is_empty());
}

#[test]
fn create_under_a_taken_identity_is_a_storage_fault() {
    let mut db = DB::new();
    create(&mut db, 7, stamp(1, 10, 0));
    let second = db.commit_mutation(
        Mutation::Create { id: 7, input: input("other", "new", object("b", 2)) },
        stamp(2, 11, 0),
    );
    match second {
        Err(Error::Sql(reason)) => assert_eq!(reason, "duplicate thing identifier"),
        other => panic!("unexpected {:?}", other),
    }
    assert_eq!(db.all_things().unwrap().len(), 1);
    assert_eq!(db.all_events().unwrap().len(), 1);
    assert_eq!(db.get_thing_by_id(7).unwrap().unwrap().kind, "item");
}

#[test]
fn every_successful_mutation_appends_one_event_of_its_kind() {
    let mut db = DB::new();
    let id = db.create_thing(input("item", "pending", object("a", 1))).unwrap().id;
    assert_eq!(db.all_events().unwrap().len(), 1);
    db.update_thing_kind(id, "parcel".to_string()).unwrap();
    assert_eq!(db.all_events().unwrap().len(), 2);
    db.update_thing_status(id, "shipped".to_string()).unwrap();
    assert_eq!(db.all_events().unwrap().len(), 3);
    db.update_thing_metadata(id, Data(object("m", 1))).unwrap();
    assert_eq!(db.all_events().unwrap().len(), 4);
    db.update_thing_data(id, Data(object("d", 2))).unwrap();
    let events = db.all_events().unwrap();
    assert_eq!(events.len(), 5);
    let kinds: Vec<&str> = events.iter().map(|e| e.kind.as_str()).collect();
    assert_eq!(kinds, vec!["create", "update_kind", "update_status", "update_metadata", "update_data"]);
    for event in &events {
        assert_eq!(event.thing_id, id);
        assert!(event.metadata.is_none());
    }
    for kind in kinds {
        assert_eq!(db.events_by_kind(kind.to_string()).unwrap().len(), 1);
    }
    assert_eq!(db.get_thing_history(id).unwrap().len(), 5);
}

#[test]
fn updates_replace_one_field_and_keep_the_others() {
    let mut db = DB::new();
    let mut source = input("item", "pending", object("a", 1));
    source.metadata = Some(Metadata(object("m", 2)));
    let id = db.create_thing(source).unwrap().id;

    let after_kind = db.update_thing_kind(id, "parcel".to_string()).unwrap();
    assert_eq!(after_kind.id, id);
    assert_eq!(after_kind.kind, "parcel");
    assert_eq!(after_kind.status, "pending");
    assert_eq!(after_kind.metadata.unwrap().0, object("m", 2));
    assert_eq!(after_kind.data.0, object("a", 1));

    let after_status = db.update_thing_status(id, "shipped".to_string()).unwrap();
    assert_eq!(after_status.kind, "parcel");
    assert_eq!(after_status.status, "shipped");

    let after_metadata = db.update_thing_metadata(id, Data(object("n", 3))).unwrap();
    assert_eq!(after_metadata.metadata.unwrap().0, object("n", 3));
    assert_eq!(after_metadata.data.0, object("a", 1));

    let after_data = db.update_thing_data(id, Data(object("d", 4))).unwrap();
    assert_eq!(after_data.data.0, object("d", 4));

    let stored = db.get_thing_by_id(id).unwrap().unwrap();
    assert_eq!(stored.id, id);
    assert_eq!(stored.kind, "parcel");
    assert_eq!(stored.status, "shipped");
    assert_eq!(stored.metadata.unwrap().0, object("n", 3));
    assert_eq!(stored.data.0, object("d", 4));
}

#[test]
fn update_leaves_other_things_alone() {
    let mut db = DB::new();
    create(&mut db, 1, stamp(100, 1, 0));
    create(&mut db, 2, stamp(101, 2, 0));
    db.commit_mutation(Mutation::UpdateStatus { id: 2, status: "shipped".to_string() }, stamp(102, 3, 0))
        .unwrap();
    assert_eq!(db.get_thing_by_id(1).unwrap().unwrap().status, "pending");
    assert_eq!(db.get_thing_by_id(2).unwrap().unwrap().status, "shipped");
    let things = db.all_things().unwrap();
    assert_eq!(things.len(), 2);
    assert_eq!(things[0].id, 1);
    assert_eq!(things[1].id, 2);
}

#[test]
fn update_with_empty_value_is_refused_and_logs_nothing() {
    let mut db = DB::new();
    let id = db.create_thing(input("item", "pending", object("a", 1))).unwrap().id;
    assert!(matches!(db.update_thing_kind(id, String::new()), Err(Error::EmptyKind)));
    assert!(matches!(db.update_thing_status(id, String::new()), Err(Error::EmptyStatus)));
    assert!(matches!(db.update_thing_metadata(id, Data(serde_json::Map::new())), Err(Error::EmptyData)));
    assert!(matches!(db.update_thing_data(id, Data(serde_json::Map::new())), Err(Error::EmptyData)));
    assert_eq!(db.all_events().unwrap().len(), 1);
    let stored = db.get_thing_by_id(id).unwrap().unwrap();
    assert_eq!(stored.kind, "item");
    assert_eq!(stored.status, "pending");
    assert!(stored.metadata.is_none());
    assert_eq!(stored.data.0, object("a", 1));
}

#[test]
fn update_of_an_unknown_thing_is_not_found_and_logs_nothing() {
    let mut db = DB::new();
    let id = db.create_thing(input("item", "pending", object("a", 1))).unwrap().id;
    let unknown = id ^ 1;
    assert!(matches!(db.update_thing_kind(unknown, "k".to_string()), Err(Error::NotFound)));
    assert!(matches!(db.update_thing_status(unknown, "s".to_string()), Err(Error::NotFound)));
    assert!(matches!(db.update_thing_metadata(unknown, Data(object("a", 1))), Err(Error::NotFound)));
    assert!(matches!(db.update_thing_data(unknown, Data(object("a", 1))), Err(Error::NotFound)));
    assert_eq!(db.all_events().unwrap().len(), 1);
    assert_eq!(db.all_things().unwrap().len(), 1);
    assert!(db.get_thing_history(unknown).unwrap().is_empty());
}

#[test]
fn validation_comes_before_the_lookup() {
    let mut db = DB::new();
    assert!(matches!(db.update_thing_kind(5, String::new()), Err(Error::EmptyKind)));
    assert!(matches!(db.update_thing_status(5, String::new()), Err(Error::EmptyStatus)));
    assert!(matches!(db.update_thing_data(5, Data(serde_json::Map::new())), Err(Error::EmptyData)));
}

#[test]
fn get_of_an_unknown_identity_is_no_error() {
    let mut db = DB::new();
    create(&mut db, 1, stamp(100, 1, 0));
    assert!(matches!(db.get_thing_by_id(2), Ok(None)));
}

#[test]
fn all_things_come_in_the_order_of_creation() {
    let mut db = DB::new();
    create(&mut db, 30, stamp(100, 1, 0));
    create(&mut db, 10, stamp(101, 2, 0));
    create(&mut db, 20, stamp(102, 3, 0));
    let ids: Vec<u128> = db.all_things().unwrap().iter().map(|t| t.id).collect();
    assert_eq!(ids, vec![30, 10, 20]);
    let again: Vec<u128> = db.all_things().unwrap().iter().map(|t| t.id).collect();
    assert_eq!(again, ids);
}

#[test]
fn commit_stamps_the_event_with_the_given_stamp() {
    let mut db = DB::new();
    create(&mut db, 7, stamp(900, 1_700_000_000, 123));
    let events = db.all_events().unwrap();
    assert_eq!(events.len(), 1);
    assert_eq!(events[0].id, 900);
    assert_eq!(events[0].thing_id, 7);
    assert_eq!(events[0].kind, "create");
    assert_eq!(events[0].timestamp, Timestamp { secs: 1_700_000_000, nanos: 123 });
    assert!(events[0].metadata.is_none());
}

#[test]
fn events_by_kind_matches_the_whole_name() {
    let mut db = DB::new();
    create(&mut db, 1, stamp(100, 1, 0));
    create(&mut db, 2, stamp(101, 2, 0));
    db.commit_mutation(Mutation::UpdateStatus { id: 1, status: "s".to_string() }, stamp(102, 3, 0)).unwrap();
    let created: Vec<u128> = db.events_by_kind("create".to_string()).unwrap().iter().map(|e| e.id).collect();
    assert_eq!(created, vec![100, 101]);
    let updated: Vec<u128> =
        db.events_by_kind("update_status".to_string()).unwrap().iter().map(|e| e.id).collect();
    assert_eq!(updated, vec![102]);
    assert!(db.events_by_kind("update".to_string()).unwrap().is_empty());
    assert!(db.events_by_kind("Create".to_string()).unwrap().is_empty());
    assert!(db.events_by_kind(String::new()).unwrap().is_empty());
}

#[test]
fn instants_in_the_log_never_go_back() {
    let mut db = DB::new();
    create(&mut db, 1, stamp(100, 50, 10));
    create(&mut db, 2, stamp(200, 5, 0));
    db.commit_mutation(Mutation::UpdateStatus { id: 1, status: "a".to_string() }, stamp(101, 50, 9)).unwrap();
    db.commit_mutation(Mutation::UpdateStatus { id: 1, status: "b".to_string() }, stamp(102, 50, 11)).unwrap();
    db.commit_mutation(Mutation::UpdateKind { id: 2, kind: "k".to_string() }, stamp(201, 90, 0)).unwrap();
    db.commit_mutation(Mutation::UpdateStatus { id: 1, status: "c".to_string() }, stamp(103, -4, 0)).unwrap();
    db.commit_mutation(Mutation::UpdateStatus { id: 1, status: "d".to_string() }, stamp(104, 90, 0)).unwrap();

    let log = db.all_events().unwrap();
    let ids: Vec<u128> = log.iter().map(|e| e.id).collect();
    assert_eq!(ids, vec![100, 200, 101, 102, 201, 103, 104]);
    let instants: Vec<(i64, u32)> = log.iter().map(|e| (e.timestamp.secs, e.timestamp.nanos)).collect();
    assert_eq!(instants, vec![(50, 10), (50, 10), (50, 10), (50, 11), (90, 0), (90, 0), (90, 0)]);
    for pair in log.windows(2) {
        assert!(!pair[0].timestamp.is_after(&pair[1].timestamp));
    }
}

#[test]
fn history_is_in_the_order_of_time_and_of_the_log() {
    let mut db = DB::new();
    create(&mut db, 1, stamp(100, 50, 0));
    create(&mut db, 2, stamp(200, 5, 0));
    db.commit_mutation(Mutation::UpdateStatus { id: 1, status: "a".to_string() }, stamp(101, 30, 7)).unwrap();
    db.commit_mutation(Mutation::UpdateStatus { id: 1, status: "b".to_string() }, stamp(102, 60, 7)).unwrap();
    db.commit_mutation(Mutation::UpdateKind { id: 2, kind: "k".to_string() }, stamp(201, 1, 0)).unwrap();
    db.commit_mutation(Mutation::UpdateStatus { id: 1, status: "c".to_string() }, stamp(103, 60, 6)).unwrap();
    db.commit_mutation(Mutation::UpdateStatus { id: 1, status: "d".to_string() }, stamp(104, 90, 0)).unwrap();

    let history = db.get_thing_history(1).unwrap();
    let ids: Vec<u128> = history.iter().map(|e| e.id).collect();
    assert_eq!(ids, vec![100, 101, 102, 103, 104]);
    let seconds: Vec<i64> = history.iter().map(|e| e.timestamp.secs).collect();
    assert_eq!(seconds, vec![50, 50, 60, 60, 90]);
    for pair in history.windows(2) {
        assert!(!pair[0].timestamp.is_after(&pair[1].timestamp));
    }
    for event in &history {
        assert_eq!(event.thing_id, 1);
    }
    let other: Vec<u128> = db.get_thing_history(2).unwrap().iter().map(|e| e.id).collect();
    assert_eq!(other, vec![200, 201]);
}

#[test]
fn a_successful_mutation_puts_its_event_last_in_the_history() {
    let mut db = DB::new();
    create(&mut db, 1, stamp(100, 50, 0));
    create(&mut db, 2, stamp(200, 70, 0));
    let before: Vec<u128> = db.get_thing_history(1).unwrap().iter().map(|e| e.id).collect();
    db.commit_mutation(Mutation::UpdateStatus { id: 1, status: "a".to_string() }, stamp(101, 20, 0)).unwrap();
    let after = db.get_thing_history(1).unwrap();
    let ids: Vec<u128> = after.iter().map(|e| e.id).collect();
    assert_eq!(before, vec![100]);
    assert_eq!(ids, vec![100, 101]);
    let newest = &after[after.len() - 1];
    assert_eq!(newest.kind, "update_status");
    assert_eq!((newest.timestamp.secs, newest.timestamp.nanos), (70, 0));
    for event in &after {
        assert!(!event.timestamp.is_after(&newest.timestamp));
    }
    assert_eq!(after.iter().filter(|e| e.id == 101).count(), 1);
}

#[test]
fn history_is_the_same_however_often_it_is_read() {
    let mut db = DB::new();
    create(&mut db, 1, stamp(100, 50, 0));
    db.commit_mutation(Mutation::UpdateStatus { id: 1, status: "a".to_string() }, stamp(101, 30, 7)).unwrap();
    let first: Vec<u128> = db.get_thing_history(1).unwrap().iter().map(|e| e.id).collect();
    let second: Vec<u128> = db.get_thing_history(1).unwrap().iter().map(|e| e.id).collect();
    let third: Vec<u128> = db.get_thing_history(1).unwrap().iter().map(|e| e.id).collect();
    assert_eq!(first, vec![100, 101]);
    assert_eq!(second, first);
    assert_eq!(third, first);
    assert_eq!(db.all_events().unwrap().len(), 2);
}

#[test]
fn history_of_real_mutations_is_in_the_order_of_time() {
    let mut db = DB::new();
    let id = db.create_thing(input("item", "pending", object("a", 1))).unwrap().id;
    db.update_thing_status(id, "shipped".to_string()).unwrap();
    db.update_thing_kind(id, "parcel".to_string()).unwrap();
    let history = db.get_thing_history(id).unwrap();
    assert_eq!(history.len(), 3);
    for pair in history.windows(2) {
        assert!(!pair[0].timestamp.is_after(&pair[1].timestamp));
    }
}

#[test]
fn failed_write_leaves_the_log_unchanged() {
    let mut db = DB::new();
    create(&mut db, 1, stamp(100, 1, 0));
    let before = db.all_events().unwrap().len();
    assert!(db
        .commit_mutation(Mutation::UpdateStatus { id: 9, status: "s".to_string() }, stamp(101, 2, 0))
        .is_err());
    assert!(db
        .commit_mutation(Mutation::Create { id: 1, input: input("x", "y", object("a", 1)) }, stamp(102, 3, 0))
        .is_err());
    assert!(db.commit_mutation(Mutation::UpdateKind { id: 1, kind: String::new() }, stamp(103, 4, 0)).is_err());
    let after = db.all_events().unwrap();
    assert_eq!(after.len(), before);
    for event in &after {
        assert_ne!(event.id, 101);
        assert_ne!(event.id, 102);
        assert_ne!(event.id, 103);
    }
}

#[test]
fn scenario_create_refuse_update() {
    let mut db = DB::new();
    let created = db.create_thing(input("item", "pending", object("a", 1))).unwrap();
    let id = created.id;
    let log = db.all_events().unwrap();
    assert_eq!(log.len(), 1);
    assert_eq!(log[0].kind, "create");
    assert_eq!(log[0].thing_id, id);

    assert!(matches!(db.update_thing_status(id, String::new()), Err(Error::EmptyStatus)));
    assert_eq!(db.all_events().unwrap().len(), 1);

    let updated = db.update_thing_status(id, "shipped".to_string()).unwrap();
    assert_eq!(updated.status, "shipped");
    let log = db.all_events().unwrap();
    assert_eq!(log.len(), 2);
    assert_eq!(log[1].kind, "update_status");
    assert_eq!(log[1].thing_id, id);
    let history = db.get_thing_history(id).unwrap();
    assert_eq!(history.len(), 2);
    assert_eq!(history[0].kind, "create");
    assert_eq!(history[1].kind, "update_status");
    assert_eq!(history[0].thing_id, id);
    assert_eq!(history[1].thing_id, id);
    assert!(!history[0].timestamp.is_after(&history[1].timestamp));
}

#[test]
fn queries_read_what_the_store_holds() {
    let mut db = DB::new();
    create(&mut db, 1, stamp(100, 5, 0));
    db.commit_mutation(Mutation::UpdateStatus { id: 1, status: "s".to_string() }, stamp(101, 3, 0)).unwrap();
    let query = QueryRoot;
    assert_eq!(query.things(&db).unwrap().len(), 1);
    assert_eq!(query.thing_by_id(&db, 1).unwrap().unwrap().status, "s");
    assert!(query.thing_by_id(&db, 2).unwrap().is_none());
    let history: Vec<u128> = query.thing_history(&db, 1).unwrap().iter().map(|e| e.id).collect();
    assert_eq!(history, vec![100, 101]);
    let events: Vec<u128> = query.events(&db).unwrap().iter().map(|e| e.id).collect();
    assert_eq!(events, vec![100, 101]);
    let created: Vec<u128> =
        query.events_by_kind(&db, "create".to_string()).unwrap().iter().map(|e| e.id).collect();
    assert_eq!(created, vec![100]);
}

#[test]
fn mutations_through_the_boundary() {
    let mut db = DB::new();
    let mutation = MutationRoot;
    let id = mutation.create_thing(&mut db, input("item", "pending", object("a", 1))).unwrap().id;
    assert!(matches!(
        mutation.create_thing(&mut db, input("", "pending", object("a", 1))),
        Err(Error::InvalidInput)
    ));
    assert_eq!(mutation.update_thing_kind(&mut db, id, "parcel".to_string()).unwrap().kind, "parcel");
    assert_eq!(mutation.update_thing_status(&mut db, id, "shipped".to_string()).unwrap().status, "shipped");
    assert_eq!(
        mutation.update_thing_metadata(&mut db, id, Data(object("m", 1))).unwrap().metadata.unwrap().0,
        object("m", 1)
    );
    assert_eq!(mutation.update_thing_data(&mut db, id, Data(object("d", 2))).unwrap().data.0, object("d", 2));
    assert!(matches!(mutation.update_thing_status(&mut db, id, String::new()), Err(Error::EmptyStatus)));
    assert!(matches!(mutation.update_thing_kind(&mut db, id ^ 1, "k".to_string()), Err(Error::NotFound)));
    assert_eq!(db.all_events().unwrap().len(), 5);
}

#[test]
fn a_taken_event_identity_is_a_storage_fault_and_nothing_is_written() {
    let mut db = DB::new();
    create(&mut db, 1, stamp(100, 1, 0));
    let update = db.commit_mutation(Mutation::UpdateStatus { id: 1, status: "shipped".to_string() }, stamp(100, 2, 0));
    match update {
        Err(Error::Sql(reason)) => assert_eq!(reason, "duplicate event identifier"),
        other => panic!("unexpected {:?}", other),
    }
    assert_eq!(db.get_thing_by_id(1).unwrap().unwrap().status, "pending");
    assert_eq!(db.all_events().unwrap().len(), 1);

    let creation = db.commit_mutation(
        Mutation::Create { id: 2, input: input("item", "pending", object("a", 1)) },
        stamp(100, 3, 0),
    );
    match creation {
        Err(Error::Sql(reason)) => assert_eq!(reason, "duplicate event identifier"),
        other => panic!("unexpected {:?}", other),
    }
    assert!(db.get_thing_by_id(2).unwrap().is_none());
    assert_eq!(db.all_things().unwrap().len(), 1);
    assert_eq!(db.all_events().unwrap().len(), 1);
}

#[test]
fn the_error_of_the_write_comes_before_the_fault_of_the_stamp() {
    let mut db = DB::new();
    create(&mut db, 1, stamp(100, 1, 0));
    assert!(matches!(
        db.commit_mutation(Mutation::UpdateStatus { id: 1, status: String::new() }, stamp(100, 2, 0)),
        Err(Error::EmptyStatus)
    ));
    assert!(matches!(
        db.commit_mutation(Mutation::UpdateStatus { id: 9, status: "s".to_string() }, stamp(100, 2, 0)),
        Err(Error::NotFound)
    ));
    match db.commit_mutation(
        Mutation::Create { id: 1, input: input("item", "pending", object("a", 1)) },
        stamp(100, 2, 0),
    ) {
        Err(Error::Sql(reason)) => assert_eq!(reason, "duplicate thing identifier"),
        other => panic!("unexpected {:?}", other),
    }
    assert_eq!(db.all_events().unwrap().len(), 1);
}

#[test]
fn event_identities_in_the_log_are_distinct() {
    let mut db = DB::new();
    let id = db.create_thing(input("item", "pending", object("a", 1))).unwrap().id;
    db.update_thing_status(id, "a".to_string()).unwrap();
    db.update_thing_status(id, "b".to_string()).unwrap();
    db.update_thing_kind(id, "c".to_string()).unwrap();
    let ids: Vec<u128> = db.all_events().unwrap().iter().map(|e| e.id).collect();
    for (i, first) in ids.iter().enumerate() {
        for second in &ids[i + 1..] {
            assert_ne!(first, second);
        }
        assert_ne!(*first, id);
    }
}
