use crr_server::permissions::{
    AllowedTables, DatabasePermissions, ObjectPermissions, PartialPermissions, TablePermissions,
};

#[test]
fn do_nothing() {}

#[test]
fn full() {
    let p = DatabasePermissions::Full;

    assert!(p.full(), "Has full access to Database");
    assert!(p.full_table("foo"), "Has full access to arbitrary table");
    assert!(p.read(), "Has read access to Database");
    assert!(p.read_table("bar"), "Has read access to arbitrary table");
    assert!(p.insert(), "Has insert access to Database");
    assert!(
        p.delete_table("baz"),
        "Has delete access to arbitrary table"
    );

    let readable_tables = p.readable_tables();

    assert_eq!(readable_tables.is_empty(), false);
    assert_eq!(readable_tables, AllowedTables::All);
}

#[test]
fn readonly() {
    let p = DatabasePermissions::Partial {
        database: PartialPermissions {
            read: true,
            insert: false,
            update: false,
            delete: false,
        },
        tables: TablePermissions::new(),
    };

    assert!(!p.full());
    assert!(p.read());
    assert!(!p.full_table("foo"));
    assert!(p.read_table("bar"));
    assert!(!p.insert());
    assert!(!p.update_table("baz"));

    assert_eq!(p.readable_tables(), AllowedTables::All);
}

#[test]
fn read_table() {
    let mut tables = TablePermissions::new();
    tables.insert(
        "foo".to_owned(),
        ObjectPermissions::Partial(PartialPermissions {
            read: true,
            insert: false,
            update: false,
            delete: false,
        }),
    );
    let p = DatabasePermissions::Partial {
        database: PartialPermissions::default(),
        tables,
    };

    assert!(!p.full(), "No full permissions");
    assert!(!p.full_table("foo"), "No full table permissions");
    assert!(!p.read(), "No read permissions for whole DB");
    assert!(p.read_table("foo"), "Read permissions for table");
    assert!(!p.insert_table("foo"), "No insert permissions for table");

    assert_eq!(
        p.readable_tables(),
        AllowedTables::Listed(vec!["foo".to_owned()]),
        "Table is in readable tables"
    );
}

fn ops(read: bool, insert: bool, update: bool, delete: bool) -> PartialPermissions {
    PartialPermissions { read, insert, update, delete }
}

#[test]
fn create_grants_everything_but_is_not_full() {
    let p = DatabasePermissions::Create;
    assert!(!p.full());
    assert!(p.create());
    assert!(p.read_table("t") && p.insert_table("t") && p.update_table("t") && p.delete_table("t"));
    assert!(p.full_table("t"));
    assert!(!p.is_empty());
    assert_eq!(p.readable_tables(), AllowedTables::All);
}

#[test]
fn empty_permissions_grant_nothing() {
    let p = DatabasePermissions::default();
    assert!(p.is_empty());
    assert!(!p.read_table("t") && !p.insert_table("t") && !p.update_table("t") && !p.delete_table("t"));
    assert!(!p.full_table("t"));
    let readable = p.readable_tables();
    assert!(readable.is_empty());
    assert_eq!(readable, AllowedTables::Listed(Vec::new()));
}

#[test]
fn table_grant_or_database_grant() {
    let mut p = DatabasePermissions::default();
    p.set(ops(false, true, false, false));
    p.set_table("foo".to_owned(), ops(true, false, true, false));
    assert!(p.insert_table("bar"), "database-level insert applies to every table");
    assert!(!p.update_table("bar"));
    assert!(p.update_table("foo"));
    assert!(p.read_table("foo"));
    assert!(!p.delete_table("foo"));
    assert!(!p.is_empty());
}

#[test]
fn readable_tables_lists_only_tables_with_read() {
    let mut p = DatabasePermissions::default();
    p.set_table("foo".to_owned(), ops(true, false, false, false));
    p.set_table("bar".to_owned(), ops(false, true, false, false));
    p.set_table_full("baz".to_owned());
    match p.readable_tables() {
        AllowedTables::Listed(mut names) => {
            names.sort();
            assert_eq!(names, vec!["baz".to_owned(), "foo".to_owned()]);
        }
        AllowedTables::All => panic!("database-level read was never granted"),
    }
}

#[test]
fn full_table_survives_a_partial_grant() {
    let mut p = DatabasePermissions::default();
    p.set_table_full("foo".to_owned());
    p.set_table("foo".to_owned(), ops(false, false, false, false));
    assert!(p.full_table("foo"));
    assert!(p.delete_table("foo"));
}

#[test]
fn set_on_full_changes_nothing() {
    let mut p = DatabasePermissions::Full;
    p.set(ops(false, false, false, false));
    p.set_table("foo".to_owned(), ops(false, false, false, false));
    assert!(p.full());
    let mut q = DatabasePermissions::default();
    q.set_full();
    assert!(q.full());
}

#[test]
fn table_permissions_replace_on_insert() {
    let mut tables = TablePermissions::new();
    assert!(tables.is_empty());
    tables.insert("foo".to_owned(), ObjectPermissions::Full);
    tables.insert("foo".to_owned(), ObjectPermissions::Partial(ops(true, false, false, false)));
    assert!(!tables.is_empty());
    assert!(matches!(tables.get("foo"), Some(ObjectPermissions::Partial(p)) if p.read && !p.insert));
    assert!(tables.get("bar").is_none());
    let copy = tables.clone();
    assert!(matches!(copy.get("foo"), Some(ObjectPermissions::Partial(_))));
}

#[test]
fn object_permissions() {
    let mut o = ObjectPermissions::default();
    assert!(!o.read() && !o.insert() && !o.update() && !o.delete() && !o.full());
    o.set(ops(true, true, false, false));
    assert!(o.read() && o.insert() && !o.update());
    o.set_full();
    assert!(o.full() && o.delete());
    o.set(ops(false, false, false, false));
    assert!(o.full());
    assert!(ops(false, false, false, false).is_empty());
    assert!(!ops(false, false, false, true).is_empty());
}

#[test]
fn records_list_database_then_tables() {
    let full = DatabasePermissions::Full.records();
    assert_eq!(full.len(), 1);
    assert!(full[0].0.is_none() && full[0].1.full());

    let mut p = DatabasePermissions::default();
    p.set(ops(true, false, false, false));
    p.set_table_full("foo".to_owned());
    let records = p.records();
    assert_eq!(records.len(), 2);
    assert!(records[0].0.is_none());
    assert!(matches!(records[0].1, ObjectPermissions::Partial(d) if d.read && !d.insert));
    assert_eq!(records[1].0.as_deref(), Some("foo"));
    assert!(records[1].1.full());
}
