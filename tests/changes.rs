use crr_server::changes_iter::{ChangePage, ChangesIter, IterStep, CHANGE_BUFFER_SIZE};
use crr_server::database::{AppEnv, Database};
use crr_server::permissions::DatabasePermissions;
use crr_server::value::{Changeset, Value};

fn row(table: &str, db_version: i64, val: Value) -> Changeset {
    Changeset::new(
        table.to_owned(),
        Value::Integer(1),
        Some("bar".to_owned()),
        val,
        1,
        db_version,
        vec![7u8; 16],
    )
}

#[test]
fn value_sizes() {
    assert_eq!(Value::Null.size(), 0);
    assert_eq!(Value::Integer(-3).size(), 8);
    assert_eq!(Value::Real(1.5f64.to_bits()).size(), 8);
    assert_eq!(Value::Text("héllo".to_owned()).size(), 6);
    assert_eq!(Value::Blob(vec![1, 2, 3]).size(), 3);
    assert_eq!(Value::text("baz"), Value::Text("'baz'".to_owned()));
}

#[test]
fn changeset_size_and_fields() {
    let cs = row("foo", 4, Value::text("x"));
    // table 3 + pk 8 + cid 3 + val 3 + 16 + site 16
    assert_eq!(cs.size(), 49);
    assert_eq!(cs.table(), "foo");
    assert_eq!(cs.pk(), &Value::Integer(1));
    assert_eq!(cs.cid(), Some("bar"));
    assert_eq!(cs.val(), &Value::Text("'x'".to_owned()));
    assert_eq!(cs.col_version(), 1);
    assert_eq!(cs.db_version(), 4);
    assert_eq!(cs.site_id(), &vec![7u8; 16]);
    let marker = Changeset::new("t".to_owned(), Value::Null, None, Value::Null, 1, 1, Vec::new());
    assert_eq!(marker.size(), 1 + 16);
}

fn blob_row(db_version: i64, total: usize) -> Changeset {
    // everything but the blob counts 3 + 8 + 3 + 16 + 16 = 46 bytes
    row("foo", db_version, Value::Blob(vec![0u8; total - 46]))
}

#[test]
fn page_over_budget_closes_at_next_commit() {
    let mut page = ChangePage::new(0);
    assert!(page.offer(blob_row(1, CHANGE_BUFFER_SIZE + 1)));
    assert!(page.offer(row("foo", 1, Value::Null)), "rows of the same commit stay together");
    assert!(!page.offer(row("foo", 2, Value::Null)), "a later commit starts a new page");
    let (rows, has_next_page, db_version) = page.finish();
    assert_eq!(rows.len(), 2);
    assert!(has_next_page);
    assert_eq!(db_version, 1);

    let mut next = ChangePage::new(db_version);
    assert!(next.offer(row("foo", 2, Value::Null)));
    let (rows, has_next_page, db_version) = next.finish();
    assert_eq!(rows.len(), 1);
    assert!(!has_next_page);
    assert_eq!(db_version, 2);
}

#[test]
fn page_at_exactly_the_budget_stays_open() {
    let mut page = ChangePage::new(0);
    assert!(page.offer(blob_row(1, CHANGE_BUFFER_SIZE)));
    assert!(page.offer(row("foo", 2, Value::Null)), "the budget must be exceeded");
    assert!(!page.offer(row("foo", 3, Value::Null)));
}

#[test]
fn empty_page_keeps_cursor() {
    let (rows, has_next_page, db_version) = ChangePage::new(9).finish();
    assert!(rows.is_empty());
    assert!(!has_next_page);
    assert_eq!(db_version, 9);
}

#[test]
fn iterator_pages_and_ends_on_empty_tail() {
    let mut it = ChangesIter::new();
    assert!(matches!(it.next_step(), IterStep::Load));
    it.load(vec![row("a", 1, Value::Null), row("b", 2, Value::Null)], true);
    match it.next_step() {
        IterStep::Yield(cs) => assert_eq!(cs.table(), "a"),
        _ => panic!("expected the first row"),
    }
    match it.next_step() {
        IterStep::Yield(cs) => assert_eq!(cs.table(), "b"),
        _ => panic!("expected the second row"),
    }
    assert!(matches!(it.next_step(), IterStep::Load));
    it.load(Vec::new(), true);
    assert!(matches!(it.next_step(), IterStep::Done));
    assert!(matches!(it.next_step(), IterStep::Done));
}

#[test]
fn iterator_stops_after_last_page() {
    let mut it = ChangesIter::new();
    it.load(vec![row("a", 1, Value::Null)], false);
    assert!(matches!(it.next_step(), IterStep::Yield(_)));
    assert!(matches!(it.next_step(), IterStep::Done));
}

#[test]
fn iterator_ends_after_a_failed_page() {
    let mut it = ChangesIter::new();
    assert!(matches!(it.next_step(), IterStep::Load));
    it.fail();
    assert!(matches!(it.next_step(), IterStep::Done));
    let mut it = ChangesIter::new();
    it.load(vec![row("a", 1, Value::Null)], true);
    it.fail();
    assert!(matches!(it.next_step(), IterStep::Done));
}

#[test]
fn wire_strings_tell_text_from_blob() {
    assert_eq!(
        Value::from_wire_string("'baz'".to_owned(), Some(vec![1])),
        Value::Text("'baz'".to_owned())
    );
    assert_eq!(
        Value::from_wire_string("AQID".to_owned(), Some(vec![1, 2, 3])),
        Value::Blob(vec![1, 2, 3])
    );
    assert_eq!(
        Value::from_wire_string("not base64!".to_owned(), None),
        Value::Text("not base64!".to_owned())
    );
    assert_eq!(
        Value::from_wire_string("'".to_owned(), None),
        Value::Text("'".to_owned())
    );
}

#[test]
fn empty_tail_keeps_the_database_cursor() {
    let env = AppEnv::new("./data".to_owned(), false);
    let mut db = Database::open_readonly(&env, "d".to_owned(), 5, DatabasePermissions::Full).unwrap();
    let (rows, has_next_page) = db.take_page(ChangePage::new(db.db_version()));
    assert!(rows.is_empty());
    assert!(!has_next_page);
    assert_eq!(db.db_version(), 5);

    let mut page = ChangePage::new(db.db_version());
    assert!(page.offer(row("foo", 8, Value::Null)));
    let (rows, has_next_page) = db.take_page(page);
    assert_eq!(rows.len(), 1);
    assert!(!has_next_page);
    assert_eq!(db.db_version(), 8);
}
