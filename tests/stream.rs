use crr_server::error::HttpError;
use crr_server::migrate::Migration;
use crr_server::permissions::{
    DatabasePermissions, ObjectPermissions, PartialPermissions, TablePermissions,
};
use crr_server::stream::{same_bytes, Message, StreamAction, StreamFilter};
use crr_server::value::{Changeset, Value};
use crr_server::CRRError;

const Z: [u8; 16] = [9u8; 16];
const OTHER: [u8; 16] = [1u8; 16];

fn change(table: &str, db_version: i64, site: &[u8], val: &str) -> Message {
    Message::Change(Changeset::new(
        table.to_owned(),
        Value::Integer(db_version),
        Some("bar".to_owned()),
        Value::text(val),
        1,
        db_version,
        site.to_vec(),
    ))
}

fn emitted(action: StreamAction) -> Option<i64> {
    match action {
        StreamAction::EmitChange(cs) => Some(cs.db_version()),
        _ => None,
    }
}

#[test]
fn live_delivery_in_commit_order() {
    let mut filter = StreamFilter::new(Z.to_vec(), DatabasePermissions::Full, 0, 0);
    assert_eq!(emitted(filter.on_message(change("foo", 1, &OTHER, "foo"))), Some(1));
    assert_eq!(emitted(filter.on_message(change("foo", 2, &OTHER, "bar"))), Some(2));
    assert_eq!(emitted(filter.on_message(change("foo", 3, &OTHER, "baz"))), Some(3));
    assert_eq!(emitted(filter.on_message(change("foo", 3, &OTHER, "more"))), Some(3));
    assert_eq!(emitted(filter.on_message(change("foo", 2, &OTHER, "old"))), None);
}

#[test]
fn baseline_and_catch_up_set_the_cutoff() {
    let mut filter = StreamFilter::new(Z.to_vec(), DatabasePermissions::Full, 5, 0);
    assert_eq!(emitted(filter.on_message(change("foo", 5, &OTHER, "a"))), None);
    filter.go_live(7);
    assert_eq!(emitted(filter.on_message(change("foo", 7, &OTHER, "a"))), None);
    assert_eq!(emitted(filter.on_message(change("foo", 8, &OTHER, "a"))), Some(8));
}

#[test]
fn own_site_is_never_echoed() {
    let mut filter = StreamFilter::new(Z.to_vec(), DatabasePermissions::Full, 0, 0);
    assert_eq!(emitted(filter.on_message(change("foo", 1, &Z, "mine"))), None);
    assert_eq!(emitted(filter.on_message(change("foo", 1, &OTHER, "theirs"))), Some(1));
}

#[test]
fn unreadable_tables_are_dropped() {
    let mut tables = TablePermissions::new();
    tables.insert(
        "foo".to_owned(),
        ObjectPermissions::Partial(PartialPermissions {
            read: true,
            insert: false,
            update: false,
            delete: false,
        }),
    );
    let permissions = DatabasePermissions::Partial {
        database: PartialPermissions::default(),
        tables,
    };
    let mut filter = StreamFilter::new(Z.to_vec(), permissions, 0, 0);
    assert_eq!(emitted(filter.on_message(change("bar", 1, &OTHER, "b"))), None);
    assert_eq!(emitted(filter.on_message(change("foo", 1, &OTHER, "a"))), Some(1));
}

#[test]
fn two_subscribers_with_the_same_permissions_agree() {
    let messages = vec![
        change("foo", 1, &OTHER, "a"),
        change("bar", 2, &OTHER, "b"),
        change("foo", 3, &Z, "c"),
        change("foo", 4, &OTHER, "d"),
    ];
    let mut a = StreamFilter::new(Z.to_vec(), DatabasePermissions::Full, 0, 0);
    let mut b = StreamFilter::new(Z.to_vec(), DatabasePermissions::Full, 0, 0);
    let from_a: Vec<Option<i64>> = messages.iter().cloned().map(|m| emitted(a.on_message(m))).collect();
    let from_b: Vec<Option<i64>> = messages.into_iter().map(|m| emitted(b.on_message(m))).collect();
    assert_eq!(from_a, from_b);
    assert_eq!(from_a, vec![Some(1), Some(2), None, Some(4)]);
}

#[test]
fn migrations_are_sent_once_and_in_order() {
    let mut filter = StreamFilter::new(Z.to_vec(), DatabasePermissions::Create, 0, 0);
    let sql = "CREATE TABLE foo (bar text);\nSELECT crsql_as_crr('foo')".to_owned();
    match filter.on_message(Message::Migration(Migration::new(1, sql))) {
        StreamAction::EmitMigration(m) => {
            assert_eq!(m.version(), 1);
            assert!(m.sql().contains("crsql_as_crr('foo')"));
        }
        _ => panic!("expected the migration"),
    }
    assert!(matches!(
        filter.on_message(Message::Migration(Migration::new(1, "again".to_owned()))),
        StreamAction::Skip
    ));
    let mut caught_up = StreamFilter::new(Z.to_vec(), DatabasePermissions::Full, 0, 0);
    caught_up.caught_up_migration(&Migration::new(4, "x".to_owned()));
    assert!(matches!(
        caught_up.on_message(Message::Migration(Migration::new(3, "y".to_owned()))),
        StreamAction::Skip
    ));
}

#[test]
fn errors_end_the_stream() {
    let mut filter = StreamFilter::new(Z.to_vec(), DatabasePermissions::Full, 0, 0);
    let error = HttpError::from(CRRError::BroadcastRecvError("lagged".to_owned()));
    match filter.on_message(Message::Error(error)) {
        StreamAction::Fail(e) => {
            assert_eq!(e.status_code(), 500);
            assert_eq!(e.message(), "Internal Server Error");
        }
        _ => panic!("expected the stream to fail"),
    }
}

#[test]
fn message_changeset() {
    assert!(change("foo", 1, &OTHER, "a").changeset().is_some());
    assert!(Message::Migration(Migration::new(1, "x".to_owned())).changeset().is_none());
}

#[test]
fn byte_comparison() {
    assert!(same_bytes(&vec![1, 2], &vec![1, 2]));
    assert!(!same_bytes(&vec![1, 2], &vec![1, 3]));
    assert!(!same_bytes(&vec![1], &vec![1, 2]));
}
