use db_client::connections::{ConnectionStore, SavedConnection};

fn conn(name: &str, host: &str) -> SavedConnection {
    SavedConnection {
        name: name.to_string(),
        host: host.to_string(),
        port: "5432".to_string(),
        user: "postgres".to_string(),
        database: "mydb".to_string(),
    }
}

fn names(store: &ConnectionStore) -> Vec<String> {
    store.connections().iter().map(|c| c.name.clone()).collect()
}

#[test]
fn empty_store_from_nothing_stored() {
    let store = ConnectionStore::from_stored(None);
    assert!(store.connections().is_empty());
    let store = ConnectionStore::from_stored(Some(vec![conn("a", "h1"), conn("b", "h2")]));
    assert_eq!(names(&store), vec!["a", "b"]);
}

#[test]
fn upsert_adds_a_new_name_at_the_end() {
    let mut store = ConnectionStore::from_stored(Some(vec![conn("a", "h1")]));
    store.upsert(conn("b", "h2"));
    assert_eq!(names(&store), vec!["a", "b"]);
    assert_eq!(store.connections()[1].host, "h2");
}

#[test]
fn upsert_replaces_the_first_connection_with_that_name() {
    let mut store = ConnectionStore::from_stored(Some(vec![conn("a", "h1"), conn("b", "h2"), conn("a", "h3")]));
    store.upsert(conn("a", "new"));
    assert_eq!(names(&store), vec!["a", "b", "a"]);
    assert_eq!(store.connections()[0].host, "new");
    assert_eq!(store.connections()[2].host, "h3");
}

#[test]
fn upsert_twice_is_upsert_once() {
    let mut once = ConnectionStore::from_stored(Some(vec![conn("a", "h1"), conn("b", "h2")]));
    let mut twice = ConnectionStore::from_stored(Some(vec![conn("a", "h1"), conn("b", "h2")]));
    once.upsert(conn("c", "h3"));
    twice.upsert(conn("c", "h3"));
    twice.upsert(conn("c", "h3"));
    assert_eq!(names(&once), names(&twice));
    assert_eq!(twice.connections().len(), 3);
}

#[test]
fn upsert_keeps_names_unique() {
    let mut store = ConnectionStore::from_stored(None);
    for (n, h) in [("a", "1"), ("b", "2"), ("a", "3"), ("c", "4"), ("b", "5")] {
        store.upsert(conn(n, h));
    }
    assert_eq!(names(&store), vec!["a", "b", "c"]);
    assert_eq!(store.connections()[0].host, "3");
    assert_eq!(store.connections()[1].host, "5");
}

#[test]
fn remove_in_and_out_of_range() {
    let mut store = ConnectionStore::from_stored(Some(vec![conn("a", "1"), conn("b", "2"), conn("c", "3")]));
    store.remove(1);
    assert_eq!(names(&store), vec!["a", "c"]);
    store.remove(5);
    assert_eq!(names(&store), vec!["a", "c"]);
    store.remove(0);
    store.remove(0);
    assert!(store.connections().is_empty());
    store.remove(0);
    assert!(store.connections().is_empty());
}

#[test]
fn update_at_replaces_in_place() {
    let mut store = ConnectionStore::from_stored(Some(vec![conn("a", "1"), conn("b", "2")]));
    store.update_at(1, conn("renamed", "9"));
    assert_eq!(names(&store), vec!["a", "renamed"]);
    store.update_at(2, conn("z", "0"));
    assert_eq!(names(&store), vec!["a", "renamed"]);
}

#[test]
fn duplicate_saves_a_copy() {
    let mut store = ConnectionStore::from_stored(Some(vec![conn("prod", "db1")]));
    store.duplicate_at(0);
    assert_eq!(names(&store), vec!["prod", "prod (copy)"]);
    assert_eq!(store.connections()[1].host, "db1");
    store.duplicate_at(0);
    assert_eq!(names(&store), vec!["prod", "prod (copy)"]);
    store.duplicate_at(7);
    assert_eq!(store.connections().len(), 2);
}

#[test]
fn blank_form_name_becomes_user_at_host() {
    let c = SavedConnection::from_form(
        "  \t".to_string(),
        "localhost".to_string(),
        "5432".to_string(),
        "alice".to_string(),
        "shop".to_string(),
    );
    assert_eq!(c.name, "alice@localhost/shop");
    assert_eq!(c.port, "5432");
    let c = SavedConnection::from_form(
        " Mine ".to_string(),
        "h".to_string(),
        "1".to_string(),
        "u".to_string(),
        "d".to_string(),
    );
    assert_eq!(c.name, " Mine ");
}

#[test]
fn duplicate_names_the_copy() {
    let c = conn("x", "h").duplicate();
    assert_eq!(c.name, "x (copy)");
    assert_eq!(c.host, "h");
    assert_eq!(c.database, "mydb");
}

#[test]
fn copy_keeps_every_field() {
    let c = conn("x", "h");
    let d = c.copy();
    assert_eq!((d.name, d.host, d.port, d.user, d.database), (c.name, c.host, c.port, c.user, c.database));
}

#[test]
fn upserting_a_copy_again_changes_nothing() {
    let c = conn("n", "h9");
    let mut s1 = ConnectionStore::from_stored(Some(vec![conn("a", "1"), conn("n", "2")]));
    let mut s2 = ConnectionStore::from_stored(Some(vec![conn("a", "1"), conn("n", "2")]));
    s1.upsert(c.copy());
    s2.upsert(c.copy());
    s2.upsert(c.copy());
    let view = |s: &ConnectionStore| -> Vec<(String, String)> {
        s.connections().iter().map(|c| (c.name.clone(), c.host.clone())).collect()
    };
    assert_eq!(view(&s1), view(&s2));
}
