use crr_server::database::RunMode;
use crr_server::database::{
    authorize, check_name, is_reserved, needs_authorizer, AppEnv, AuthAction, ChangeKind, Database,
    EXCLUDE_SITE, SELECT_CHANGES, TABLE_FILTER,
};
use crr_server::error::HttpError;
use crr_server::permissions::{
    DatabasePermissions, ObjectPermissions, PartialPermissions, TablePermissions,
};
use crr_server::value::{Changeset, Value};
use crr_server::CRRError;

fn env() -> AppEnv {
    AppEnv::new("/srv/crr".to_owned(), true)
}

fn ops(read: bool, insert: bool, update: bool, delete: bool) -> PartialPermissions {
    PartialPermissions { read, insert, update, delete }
}

#[test]
fn reserved_name_is_refused_with_bad_request() {
    assert!(is_reserved("auth"));
    assert!(is_reserved("sync"));
    assert!(!is_reserved("authors"));
    let error = check_name("auth").unwrap_err();
    assert!(matches!(&error, CRRError::ReservedName(name) if name == "auth"));
    let answer = HttpError::from(error);
    assert_eq!(answer.status_code(), 400);
    assert_eq!(answer.message(), "Database auth is reserved for Internal Purposes");
    assert!(matches!(
        Database::open(&env(), "sync".to_owned(), DatabasePermissions::Full),
        Err(CRRError::ReservedName(_))
    ));
}

#[test]
fn open_places_the_file_under_the_data_dir() {
    let db = Database::open(&env(), "notes".to_owned(), DatabasePermissions::Full).unwrap();
    assert_eq!(db.name(), "notes");
    assert_eq!(db.path(), "/srv/crr/notes.sqlite3");
    assert_eq!(db.db_version(), 0);
    assert_eq!(Database::file_path(&env(), "x"), "/srv/crr/x.sqlite3");
    let mut reader =
        Database::open_readonly(&env(), "notes".to_owned(), 12, DatabasePermissions::Full).unwrap();
    assert_eq!(reader.db_version(), 12);
    reader.set_db_version(20);
    assert_eq!(reader.db_version(), 20);
    let latest =
        Database::open_readonly_latest(&env(), "notes".to_owned(), DatabasePermissions::Full, 33)
            .unwrap();
    assert_eq!(latest.db_version(), 33);
    assert!(latest.permissions().full());
}

#[test]
fn test_db_has_full_access() {
    let e = env();
    assert_eq!(e.data_dir(), "/srv/crr");
    assert!(e.disable_validation());
    let db = e.test_db();
    assert_eq!(db.name(), AppEnv::TEST_DB_NAME);
    assert!(db.permissions().full());
}

#[test]
fn authorizer_verdicts() {
    let mut tables = TablePermissions::new();
    tables.insert("foo".to_owned(), ObjectPermissions::Partial(ops(true, true, false, false)));
    let p = DatabasePermissions::Partial { database: ops(false, false, false, false), tables };
    assert!(authorize(&p, &AuthAction::Select));
    assert!(authorize(&p, &AuthAction::Transaction));
    assert!(authorize(&p, &AuthAction::Read("foo".to_owned())));
    assert!(!authorize(&p, &AuthAction::Read("bar".to_owned())));
    assert!(authorize(&p, &AuthAction::Insert("foo".to_owned())));
    assert!(!authorize(&p, &AuthAction::Update("foo".to_owned())));
    assert!(!authorize(&p, &AuthAction::Delete("foo".to_owned())));
    assert!(authorize(&p, &AuthAction::Function("crsql_siteid".to_owned())));
    assert!(!authorize(&p, &AuthAction::Function("load_extension".to_owned())));
    assert!(!authorize(&p, &AuthAction::Other));
    assert!(needs_authorizer(&p));
    assert!(!needs_authorizer(&DatabasePermissions::Full));
}

#[test]
fn change_read_for_the_whole_database() {
    let p = DatabasePermissions::Partial {
        database: ops(true, false, false, false),
        tables: TablePermissions::new(),
    };
    let db = Database::open(&env(), "d".to_owned(), p).unwrap();
    let query = db.changes().unwrap();
    assert_eq!(query.sql, format!("{}{}", SELECT_CHANGES, EXCLUDE_SITE));
    assert!(query.tables.is_empty());
}

#[test]
fn change_read_for_one_table() {
    let mut tables = TablePermissions::new();
    tables.insert("foo".to_owned(), ObjectPermissions::Partial(ops(true, false, false, false)));
    let p = DatabasePermissions::Partial { database: ops(false, false, false, false), tables };
    let db = Database::open(&env(), "d".to_owned(), p).unwrap();
    let query = db.changes().unwrap();
    assert_eq!(query.tables, vec!["foo".to_owned()]);
    assert_eq!(query.sql, format!("{}{}{}?)", SELECT_CHANGES, EXCLUDE_SITE, TABLE_FILTER));
    assert!(query.sql.ends_with("AND \"table\" IN (?)"));
}

#[test]
fn change_read_for_two_tables() {
    let mut p = DatabasePermissions::default();
    p.set_table("a".to_owned(), ops(true, false, false, false));
    p.set_table_full("b".to_owned());
    let db = Database::open(&env(), "d".to_owned(), p).unwrap();
    let query = db.changes().unwrap();
    assert_eq!(query.tables.len(), 2);
    assert!(query.sql.ends_with(" IN (?, ?)"));
}

#[test]
fn change_read_refused_without_read_access() {
    let db = Database::open(&env(), "d".to_owned(), DatabasePermissions::default()).unwrap();
    match db.changes() {
        Err(CRRError::Unauthorized(m)) => assert_eq!(m, "User is not authorized to read database"),
        other => panic!("expected a refusal, got {:?}", other),
    }
}

#[test]
fn all_changes_need_full_access() {
    let full = Database::open(&env(), "d".to_owned(), DatabasePermissions::Full).unwrap();
    let query = full.all_changes().unwrap();
    assert_eq!(query.sql, SELECT_CHANGES);
    let owner = Database::open(&env(), "d".to_owned(), DatabasePermissions::Create).unwrap();
    assert!(matches!(owner.all_changes(), Err(CRRError::Unauthorized(_))));
}

fn row(cid: Option<&str>, col_version: i64) -> Changeset {
    Changeset::new(
        "foo".to_owned(),
        Value::Integer(1),
        cid.map(|c| c.to_owned()),
        Value::text("a"),
        col_version,
        1,
        vec![3u8; 16],
    )
}

#[test]
fn classify_changes() {
    assert_eq!(ChangeKind::classify(&row(Some("__crsql_del"), 2)), ChangeKind::Delete);
    assert_eq!(ChangeKind::classify(&row(Some("__crsql_del"), 1)), ChangeKind::Delete);
    assert_eq!(ChangeKind::classify(&row(Some("bar"), 1)), ChangeKind::Insert);
    assert_eq!(ChangeKind::classify(&row(Some("__crsql_pko"), 1)), ChangeKind::Insert);
    assert_eq!(ChangeKind::classify(&row(Some("bar"), 2)), ChangeKind::Update);
    assert_eq!(ChangeKind::classify(&row(None, 3)), ChangeKind::Update);
}

fn insert_only() -> DatabasePermissions {
    DatabasePermissions::Partial {
        database: ops(false, true, false, false),
        tables: TablePermissions::new(),
    }
}

#[test]
fn permission_denied_write() {
    let db = Database::open(&env(), "d".to_owned(), insert_only()).unwrap();
    let insert = row(Some("bar"), 1);
    let update = row(Some("bar"), 2);
    let delete = row(Some("__crsql_del"), 2);
    assert!(db.authorize_changes(&vec![insert.clone()]).is_ok());
    match db.authorize_changes(&vec![insert.clone(), update.clone(), delete.clone()]) {
        Err(CRRError::Unauthorized(m)) => {
            assert_eq!(m, "User is not authorized to update table \"foo\"")
        }
        other => panic!("expected a refusal, got {:?}", other),
    }
    match db.authorize_changes(&vec![delete]) {
        Err(CRRError::Unauthorized(m)) => {
            assert_eq!(m, "User is not authorized to delete from table \"foo\"")
        }
        other => panic!("expected a refusal, got {:?}", other),
    }
    let reader = Database::open(
        &env(),
        "d".to_owned(),
        DatabasePermissions::Partial { database: ops(true, false, false, false), tables: TablePermissions::new() },
    )
    .unwrap();
    match reader.authorize_changes(&vec![insert]) {
        Err(CRRError::Unauthorized(m)) => {
            assert_eq!(m, "User is not authorized to insert into table \"foo\"")
        }
        other => panic!("expected a refusal, got {:?}", other),
    }
    assert!(reader.authorize_changes(&Vec::new()).is_ok());
}

#[test]
fn run_modes() {
    assert_eq!(RunMode::parse("run"), RunMode::Run);
    assert_eq!(RunMode::parse("get"), RunMode::Get);
    assert_eq!(RunMode::parse("all"), RunMode::All);
    assert_eq!(RunMode::parse("anything"), RunMode::All);
}

#[test]
fn extension_paths() {
    assert_eq!(
        crr_server::database::extension_path("macos", "aarch64", "dylib").unwrap(),
        "./extensions/crsqlite-darwin-aarch64.dylib"
    );
    assert_eq!(
        crr_server::database::extension_path("linux", "x86_64", "so").unwrap(),
        "./extensions/crsqlite-linux-x86_64.so"
    );
    assert!(matches!(
        crr_server::database::extension_path("freebsd", "x86_64", "so"),
        Err(CRRError::UnsupportedOS(os)) if os == "freebsd"
    ));
}

#[test]
fn read_simple_changes() {
    let db = env().test_db();
    let query = db.changes().unwrap();
    assert_eq!(query.sql, format!("{}{}", SELECT_CHANGES, EXCLUDE_SITE));
    assert!(query.sql.contains("site_id IS NOT ?"));
    assert!(query.tables.is_empty());
}

#[test]
fn with_permissions() {
    let open = |permissions: DatabasePermissions| {
        Database::open(&env(), AppEnv::TEST_DB_NAME.to_owned(), permissions).unwrap()
    };

    assert!(open(DatabasePermissions::default()).changes().is_err());

    let whole = open(DatabasePermissions::Partial {
        database: ops(true, false, false, false),
        tables: TablePermissions::new(),
    })
    .changes()
    .expect("Failed to plan the read with database read permission");
    assert!(whole.tables.is_empty());
    assert!(!whole.sql.contains(" IN ("));

    let mut tables = TablePermissions::new();
    tables.insert("foo".to_owned(), ObjectPermissions::Partial(ops(true, false, false, false)));
    let only_foo = open(DatabasePermissions::Partial { database: ops(false, false, false, false), tables })
        .changes()
        .unwrap();
    assert_eq!(only_foo.tables, vec!["foo".to_owned()]);
}
