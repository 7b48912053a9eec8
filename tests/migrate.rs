use crr_server::database::{AppEnv, Database};
use crr_server::migrate::{join_statements, migrations, unquote, Migration, MigrationType};
use crr_server::permissions::DatabasePermissions;
use crr_server::CRRError;

#[test]
fn detect_migration_mode() {
    assert_eq!(
        MigrationType::detect("CREATE TABLE \"foo\" (value TEXT)"),
        MigrationType::Create("foo".to_owned())
    );
    assert_eq!(
        MigrationType::detect("ALTER TABLE \"foo\" ADD COLUMN value TEXT"),
        MigrationType::Alter("foo".to_owned())
    );
    assert_eq!(
        MigrationType::detect("INSERT INTO \"foo\" (value) VALUES ('test')"),
        MigrationType::Other
    );
}

#[test]
fn detect_bare_and_guarded_names() {
    assert_eq!(
        MigrationType::detect("CREATE TABLE foo (bar text)"),
        MigrationType::Create("foo".to_owned())
    );
    assert_eq!(
        MigrationType::detect("CREATE TABLE IF NOT EXISTS \"my table\" (a)"),
        MigrationType::Create("my table".to_owned())
    );
    assert_eq!(
        MigrationType::detect("ALTER TABLE bar RENAME COLUMN a TO b"),
        MigrationType::Alter("bar".to_owned())
    );
}

#[test]
fn from_groups_prefers_alter_and_unquotes() {
    assert_eq!(
        MigrationType::from_groups(Some("\"a\"".to_owned()), Some("b".to_owned())),
        MigrationType::Alter("a".to_owned())
    );
    assert_eq!(
        MigrationType::from_groups(None, Some("\"b\"".to_owned())),
        MigrationType::Create("b".to_owned())
    );
    assert_eq!(MigrationType::from_groups(None, None), MigrationType::Other);
    assert_eq!(unquote("\"x\""), "x");
    assert_eq!(unquote("\""), "\"");
    assert_eq!(unquote("plain"), "plain");
}

#[test]
fn ceremony_of_each_kind() {
    assert_eq!(
        MigrationType::Create("foo".to_owned()).ceremony("CREATE TABLE foo (a)".to_owned()),
        vec!["CREATE TABLE foo (a)".to_owned(), "SELECT crsql_as_crr('foo')".to_owned()]
    );
    assert_eq!(
        MigrationType::Alter("foo".to_owned()).ceremony("ALTER TABLE foo ADD b".to_owned()),
        vec![
            "SELECT crsql_begin_alter('foo')".to_owned(),
            "ALTER TABLE foo ADD b".to_owned(),
            "SELECT crsql_commit_alter('foo')".to_owned()
        ]
    );
    assert_eq!(
        MigrationType::Other.ceremony("INSERT INTO foo VALUES (1)".to_owned()),
        vec!["INSERT INTO foo VALUES (1)".to_owned()]
    );
}

#[test]
fn enable_migration_crr_appends() {
    let mut statements = vec!["SELECT 1".to_owned()];
    Database::enable_migration_crr(&mut statements, "CREATE TABLE \"t\" (a)".to_owned());
    assert_eq!(
        statements,
        vec![
            "SELECT 1".to_owned(),
            "CREATE TABLE \"t\" (a)".to_owned(),
            "SELECT crsql_as_crr('t')".to_owned()
        ]
    );
}

fn env() -> AppEnv {
    AppEnv::new("./data".to_owned(), false)
}

#[test]
fn migration_batch_for_owner() {
    let db = Database::open(&env(), "app".to_owned(), DatabasePermissions::Create).unwrap();
    let batch = db
        .prepare_migration(vec!["CREATE TABLE foo (bar text)".to_owned()])
        .unwrap();
    assert_eq!(batch, "CREATE TABLE foo (bar text);\nSELECT crsql_as_crr('foo')");
    assert!(batch.contains("crsql_as_crr('foo')"));
}

#[test]
fn migration_batch_joins_every_statement() {
    let db = Database::open(&env(), "app".to_owned(), DatabasePermissions::Full).unwrap();
    let batch = db
        .prepare_migration(vec![
            "CREATE TABLE \"foo\" (val TEXT PRIMARY KEY)".to_owned(),
            "ALTER TABLE \"foo\" ADD COLUMN n INTEGER".to_owned(),
            "INSERT INTO foo (val) VALUES ('a')".to_owned(),
        ])
        .unwrap();
    assert_eq!(
        batch,
        "CREATE TABLE \"foo\" (val TEXT PRIMARY KEY);\nSELECT crsql_as_crr('foo');\nSELECT crsql_begin_alter('foo');\nALTER TABLE \"foo\" ADD COLUMN n INTEGER;\nSELECT crsql_commit_alter('foo');\nINSERT INTO foo (val) VALUES ('a')"
    );
    assert_eq!(db.prepare_migration(Vec::new()).unwrap(), "");
}

#[test]
fn migration_needs_full_access() {
    let db = Database::open(&env(), "app".to_owned(), DatabasePermissions::default()).unwrap();
    match db.prepare_migration(vec!["CREATE TABLE foo (a)".to_owned()]) {
        Err(CRRError::Unauthorized(message)) => assert_eq!(
            message,
            "User must be authorized with full access to the database to apply migrations"
        ),
        other => panic!("expected a refusal, got {:?}", other),
    }
}

#[test]
fn join_statements_separates() {
    assert_eq!(join_statements(&vec![]), "");
    assert_eq!(join_statements(&vec!["a".to_owned()]), "a");
    assert_eq!(join_statements(&vec!["a".to_owned(), "b".to_owned()]), "a;\nb");
}

#[test]
fn migrations_since_a_version() {
    let log = vec![
        Migration::new(1, "one".to_owned()),
        Migration::new(2, "two".to_owned()),
        Migration::new(3, "three".to_owned()),
    ];
    let later: Vec<i64> = migrations(log.clone(), 1).iter().map(|m| m.version()).collect();
    assert_eq!(later, vec![2, 3]);
    assert!(migrations(log.clone(), 3).is_empty());
    assert_eq!(migrations(log, 0).len(), 3);
    assert!(migrations(Vec::new(), 0).is_empty());
    let m = Migration::new(7, "x".to_owned());
    assert_eq!(m.version(), 7);
    assert_eq!(m.sql(), "x");
}
