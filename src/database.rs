//! A tenant database: its name and file, the version up to which its change
//! log was read, the permissions it was opened with, and the decisions taken
//! on its statements.
use crate::error::CRRError;
use crate::permissions::{AllowedTables, DatabasePermissions};
use crate::changes_iter::{last_version, ChangePage};
use crate::value::Changeset;
use vstd::prelude::*;

verus! {

/// Where the server keeps its databases.
#[derive(Debug, Clone)]
pub struct AppEnv {
    data_dir: String,
    disable_validation: bool,
}

/// Whether `name` is one of the names the server keeps for itself.
pub open spec fn reserved(name: Seq<char>) -> bool {
    name == "auth"@ || name == "sync"@
}

pub fn is_reserved(name: &str) -> (r: bool)
    ensures
        r == reserved(name@),
{
    let n = name.to_owned();
    n == "auth".to_owned() || n == "sync".to_owned()
}

/// Fails with `ReservedName` exactly on a reserved name.
pub fn check_name(name: &str) -> (r: Result<(), CRRError>)
    ensures
        r is Ok <==> !reserved(name@),
        r matches Err(e) ==> e matches CRRError::ReservedName(n) && n@ == name@,
{
    if is_reserved(name) {
        Err(CRRError::ReservedName(name.to_owned()))
    } else {
        Ok(())
    }
}

/// The file of the database `name` under `data_dir`.
pub open spec fn database_file(data_dir: Seq<char>, name: Seq<char>) -> Seq<char> {
    data_dir + "/"@ + name + ".sqlite3"@
}

impl AppEnv {
    /// The name of the database that tests open.
    pub const TEST_DB_NAME: &'static str = "data";

    pub closed spec fn spec_data_dir(&self) -> Seq<char> {
        self.data_dir@
    }

    pub closed spec fn spec_disable_validation(&self) -> bool {
        self.disable_validation
    }

    pub fn new(data_dir: String, disable_validation: bool) -> (r: AppEnv)
        ensures
            r.spec_data_dir() == data_dir@,
            r.spec_disable_validation() == disable_validation,
    {
        AppEnv { data_dir, disable_validation }
    }

    pub fn data_dir(&self) -> (r: &str)
        ensures
            r@ == self.spec_data_dir(),
    {
        self.data_dir.as_str()
    }

    pub fn disable_validation(&self) -> (r: bool)
        ensures
            r == self.spec_disable_validation(),
    {
        self.disable_validation
    }

    /// The test database, opened with full access.
    pub fn test_db(&self) -> (r: Database)
        ensures
            r.spec_name() == AppEnv::TEST_DB_NAME@,
            r.spec_path() == database_file(self.spec_data_dir(), AppEnv::TEST_DB_NAME@),
            r.spec_db_version() == 0,
            r.spec_permissions() == DatabasePermissions::Full,
    {
        let name = AppEnv::TEST_DB_NAME.to_owned();
        let path = Database::file_path(self, AppEnv::TEST_DB_NAME);
        Database { name, path, db_version: 0, permissions: DatabasePermissions::Full }
    }
}

/// The name under which the CR-SQLite builds know the operating system
/// `os`, as Rust names it; `None` for a system without a build.
pub open spec fn extension_os(os: Seq<char>) -> Option<Seq<char>> {
    if os == "macos"@ {
        Some("darwin"@)
    } else if os == "windows"@ {
        Some("windows"@)
    } else if os == "linux"@ {
        Some("linux"@)
    } else {
        None
    }
}

/// The shared object of the CR-SQLite extension for the operating system
/// `os`, the architecture `arch` and the library extension `dll_extension`
/// of the host; other systems than macOS, Windows and Linux are refused.
pub fn extension_path(os: &str, arch: &str, dll_extension: &str) -> (r: Result<String, CRRError>)
    ensures
        r is Ok <==> extension_os(os@) is Some,
        r matches Ok(path) ==> path@ == "./extensions/crsqlite-"@ + extension_os(os@)->0 + "-"@
            + arch@ + "."@ + dll_extension@,
        r matches Err(e) ==> e matches CRRError::UnsupportedOS(n) && n@ == os@,
{
    let name = os.to_owned();
    let mapped = if name == "macos".to_owned() {
        "darwin"
    } else if name == "windows".to_owned() {
        "windows"
    } else if name == "linux".to_owned() {
        "linux"
    } else {
        return Err(CRRError::UnsupportedOS(name));
    };
    Ok("./extensions/crsqlite-".to_owned().concat(mapped).concat("-").concat(arch).concat(".").concat(
        dll_extension,
    ))
}

/// How a statement acts on the database, as the SQLite authorizer reports it.
#[derive(Debug, Clone)]
pub enum AuthAction {
    Select,
    Transaction,
    Function(String),
    Read(String),
    Insert(String),
    Update(String),
    Delete(String),
    /// Anything else: schema changes, pragmas, attaching databases.
    Other,
}

/// Whether the function `name` may be called by any statement: the
/// functions that reading the change log calls.
pub open spec fn allowed_function(name: Seq<char>) -> bool {
    name == "coalesce"@ || name == "crsql_siteid"@ || name == "crsql_dbversion"@
}

/// The authorizer's verdict on one action.
pub open spec fn allows(permissions: DatabasePermissions, action: AuthAction) -> bool {
    match action {
        AuthAction::Select => true,
        AuthAction::Transaction => true,
        AuthAction::Function(f) => allowed_function(f@),
        AuthAction::Read(t) => permissions.can_read_table(t@),
        AuthAction::Insert(t) => permissions.can_insert_table(t@),
        AuthAction::Update(t) => permissions.can_update_table(t@),
        AuthAction::Delete(t) => permissions.can_delete_table(t@),
        AuthAction::Other => false,
    }
}

/// Whether a statement may take the action `action`.
pub fn authorize(permissions: &DatabasePermissions, action: &AuthAction) -> (r: bool)
    ensures
        r == allows(*permissions, *action),
{
    match action {
        AuthAction::Select => true,
        AuthAction::Transaction => true,
        AuthAction::Function(f) => {
            let f = f.clone();
            f == "coalesce".to_owned() || f == "crsql_siteid".to_owned() || f
                == "crsql_dbversion".to_owned()
        },
        AuthAction::Read(t) => permissions.read_table(t.as_str()),
        AuthAction::Insert(t) => permissions.insert_table(t.as_str()),
        AuthAction::Update(t) => permissions.update_table(t.as_str()),
        AuthAction::Delete(t) => permissions.delete_table(t.as_str()),
        AuthAction::Other => false,
    }
}

/// Whether statements need an authorizer at all: with full access every
/// statement may run.
pub fn needs_authorizer(permissions: &DatabasePermissions) -> (r: bool)
    ensures
        r == !(*permissions is Full),
{
    !permissions.full()
}

/// The read of the change log past a version, with the local site standing
/// in where a row has none.
pub const SELECT_CHANGES: &'static str =
    "SELECT \"table\", pk, cid, val, col_version, db_version, COALESCE(site_id, crsql_siteid()) FROM crsql_changes WHERE db_version > ?";

/// Leaves out the rows of the reader's own site.
pub const EXCLUDE_SITE: &'static str = " AND site_id IS NOT ?";

/// Keeps the rows of the tables bound after it.
pub const TABLE_FILTER: &'static str = " AND \"table\" IN (";

/// `n` parameter placeholders separated by commas.
pub open spec fn placeholders(n: nat) -> Seq<char>
    decreases n,
{
    if n == 0 {
        Seq::empty()
    } else if n == 1 {
        "?"@
    } else {
        placeholders((n - 1) as nat) + ", ?"@
    }
}

/// `n` placeholders, as [`placeholders`] spells them.
fn placeholder_list(n: usize) -> (r: String)
    ensures
        r@ == placeholders(n as nat),
{
    if n == 0 {
        return String::new();
    }
    let mut s = "?".to_owned();
    let mut i: usize = 1;
    while i < n
        invariant
            1 <= i <= n,
            s@ == placeholders(i as nat),
        decreases n - i,
    {
        s.append(", ?");
        i = i + 1;
    }
    s
}

/// A read of the change log: its text, and the table names bound after the
/// version and the site.
#[derive(Debug)]
pub struct ChangeQuery {
    pub sql: String,
    pub tables: Vec<String>,
}

/// The row classes that incoming changes fall into.
#[derive(Debug, Clone, Copy, PartialEq, Eq)]
pub enum ChangeKind {
    Insert,
    Update,
    Delete,
}

/// The column name that marks a deleted row.
pub const DELETE_MARKER: &'static str = "__crsql_del";

/// A row deletes when its column is the delete marker, inserts when its
/// column version is 1, and updates otherwise.
pub open spec fn kind_of(changeset: Changeset) -> ChangeKind {
    if changeset.spec_cid() matches Some(c) && c@ == DELETE_MARKER@ {
        ChangeKind::Delete
    } else if changeset.spec_col_version() == 1 {
        ChangeKind::Insert
    } else {
        ChangeKind::Update
    }
}

/// Whether `permissions` let a caller apply `changeset`.
pub open spec fn may_apply(permissions: DatabasePermissions, changeset: Changeset) -> bool {
    match kind_of(changeset) {
        ChangeKind::Delete => permissions.can_delete_table(changeset.spec_table()),
        ChangeKind::Insert => permissions.can_insert_table(changeset.spec_table()),
        ChangeKind::Update => permissions.can_update_table(changeset.spec_table()),
    }
}

/// Why applying `changeset` is refused.
pub open spec fn denial(changeset: Changeset) -> Seq<char> {
    match kind_of(changeset) {
        ChangeKind::Delete => "User is not authorized to delete from table \""@
            + changeset.spec_table() + "\""@,
        ChangeKind::Insert => "User is not authorized to insert into table \""@
            + changeset.spec_table() + "\""@,
        ChangeKind::Update => "User is not authorized to update table \""@ + changeset.spec_table()
            + "\""@,
    }
}

impl ChangeKind {
    pub fn classify(changeset: &Changeset) -> (r: ChangeKind)
        ensures
            r == kind_of(*changeset),
    {
        let deleted = match changeset.cid() {
            Some(c) => c.to_owned() == DELETE_MARKER.to_owned(),
            None => false,
        };
        if deleted {
            ChangeKind::Delete
        } else if changeset.col_version() == 1 {
            ChangeKind::Insert
        } else {
            ChangeKind::Update
        }
    }
}

/// How a statement run for a client answers.
#[derive(Debug, Clone, Copy, PartialEq, Eq)]
pub enum RunMode {
    /// Execute, and tell how many rows changed.
    Run,
    /// Return the first row.
    Get,
    /// Return every row.
    All,
}

impl RunMode {
    /// `run` and `get` name their modes; any other method returns all rows.
    pub fn parse(method: &str) -> (r: RunMode)
        ensures
            method@ == "run"@ ==> r == RunMode::Run,
            method@ == "get"@ ==> r == RunMode::Get,
            method@ != "run"@ && method@ != "get"@ ==> r == RunMode::All,
    {
        proof {
            reveal_strlit("run");
            reveal_strlit("get");
            assert("run"@[0] != "get"@[0]);
        }
        let m = method.to_owned();
        if m == "run".to_owned() {
            RunMode::Run
        } else if m == "get".to_owned() {
            RunMode::Get
        } else {
            RunMode::All
        }
    }
}

/// A tenant database as the server tracks it.
#[derive(Debug)]
pub struct Database {
    name: String,
    path: String,
    db_version: i64,
    permissions: DatabasePermissions,
}

impl Database {
    pub closed spec fn spec_name(&self) -> Seq<char> {
        self.name@
    }

    pub closed spec fn spec_path(&self) -> Seq<char> {
        self.path@
    }

    /// The version of the change log past which the next read starts.
    pub closed spec fn spec_db_version(&self) -> i64 {
        self.db_version
    }

    pub closed spec fn spec_permissions(&self) -> DatabasePermissions {
        self.permissions
    }

    /// The file of the database `name`.
    pub fn file_path(env: &AppEnv, name: &str) -> (r: String)
        ensures
            r@ == database_file(env.spec_data_dir(), name@),
    {
        env.data_dir().to_owned().concat("/").concat(name).concat(".sqlite3")
    }

    /// Opens the database `name` for reading and writing; reserved names
    /// are refused.
    pub fn open(env: &AppEnv, name: String, permissions: DatabasePermissions) -> (r: Result<
        Database,
        CRRError,
    >)
        ensures
            r is Ok <==> !reserved(name@),
            r matches Err(e) ==> e matches CRRError::ReservedName(n) && n@ == name@,
            r matches Ok(db) ==> db.spec_name() == name@ && db.spec_path() == database_file(
                env.spec_data_dir(),
                name@,
            ) && db.spec_db_version() == 0 && db.spec_permissions() == permissions,
    {
        Database::open_readonly(env, name, 0, permissions)
    }

    /// Opens the database `name` to read the changes past `db_version`.
    pub fn open_readonly(
        env: &AppEnv,
        name: String,
        db_version: i64,
        permissions: DatabasePermissions,
    ) -> (r: Result<Database, CRRError>)
        ensures
            r is Ok <==> !reserved(name@),
            r matches Err(e) ==> e matches CRRError::ReservedName(n) && n@ == name@,
            r matches Ok(db) ==> db.spec_name() == name@ && db.spec_path() == database_file(
                env.spec_data_dir(),
                name@,
            ) && db.spec_db_version() == db_version && db.spec_permissions() == permissions,
    {
        match check_name(name.as_str()) {
            Err(e) => Err(e),
            Ok(()) => {
                let path = Database::file_path(env, name.as_str());
                Ok(Database { name, path, db_version, permissions })
            },
        }
    }

    /// Opens the database `name` to read the changes committed after
    /// `latest_version`, the version its change log is at now.
    pub fn open_readonly_latest(
        env: &AppEnv,
        name: String,
        permissions: DatabasePermissions,
        latest_version: i64,
    ) -> (r: Result<Database, CRRError>)
        ensures
            r is Ok <==> !reserved(name@),
            r matches Err(e) ==> e matches CRRError::ReservedName(n) && n@ == name@,
            r matches Ok(db) ==> db.spec_name() == name@ && db.spec_path() == database_file(
                env.spec_data_dir(),
                name@,
            ) && db.spec_db_version() == latest_version && db.spec_permissions() == permissions,
    {
        Database::open_readonly(env, name, latest_version, permissions)
    }

    pub fn name(&self) -> (r: &str)
        ensures
            r@ == self.spec_name(),
    {
        self.name.as_str()
    }

    pub fn path(&self) -> (r: &str)
        ensures
            r@ == self.spec_path(),
    {
        self.path.as_str()
    }

    pub fn permissions(&self) -> (r: &DatabasePermissions)
        ensures
            *r == self.spec_permissions(),
    {
        &self.permissions
    }

    pub fn db_version(&self) -> (r: i64)
        ensures
            r == self.spec_db_version(),
    {
        self.db_version
    }

    /// The read of the changes this caller may see: those past the version
    /// cursor, not from the caller's site, and of the tables it may read.
    /// A caller who may read no table is refused.
    pub fn changes(&self) -> (r: Result<ChangeQuery, CRRError>)
        ensures
            r is Ok <==> exists|t: Seq<char>| self.spec_permissions().can_read_table(t),
            r matches Err(e) ==> e matches CRRError::Unauthorized(m) && m@
                == "User is not authorized to read database"@,
            r matches Ok(q) ==> (if self.spec_permissions().reads_all() {
                q.sql@ == SELECT_CHANGES@ + EXCLUDE_SITE@ && q.tables@.len() == 0
            } else {
                &&& q.sql@ == SELECT_CHANGES@ + EXCLUDE_SITE@ + TABLE_FILTER@ + placeholders(
                    q.tables@.len(),
                ) + ")"@
                &&& forall|t: Seq<char>|
                    #![trigger self.spec_permissions().can_read_table(t)]
                    self.spec_permissions().can_read_table(t) <==> exists|i: int|
                        0 <= i < q.tables@.len() && (#[trigger] q.tables@[i])@ == t
                &&& forall|i: int, j: int|
                    0 <= i < j < q.tables@.len() ==> q.tables@[i]@ != q.tables@[j]@
            }),
    {
        let readable = self.permissions.readable_tables();
        if readable.is_empty() {
            proof {
                assert forall|t: Seq<char>| !self.spec_permissions().can_read_table(t) by {
                    if self.spec_permissions().can_read_table(t) {
                        if let AllowedTables::Listed(v) = readable {
                            let i = choose|i: int| 0 <= i < v@.len() && (#[trigger] v@[i])@ == t;
                        }
                    }
                }
            }
            return Err(CRRError::Unauthorized("User is not authorized to read database".to_owned()));
        }
        let sql = SELECT_CHANGES.to_owned().concat(EXCLUDE_SITE);
        match readable {
            AllowedTables::All => {
                proof {
                    assert(self.spec_permissions().can_read_table(Seq::empty()));
                }
                Ok(ChangeQuery { sql, tables: Vec::new() })
            },
            AllowedTables::Listed(tables) => {
                proof {
                    assert(self.spec_permissions().can_read_table(tables@[0]@));
                }
                let sql = sql.concat(TABLE_FILTER).concat(placeholder_list(tables.len()).as_str()).concat(
                    ")",
                );
                Ok(ChangeQuery { sql, tables })
            },
        }
    }

    /// The read of every change past the version cursor, for the publisher;
    /// only full access may read it.
    pub fn all_changes(&self) -> (r: Result<ChangeQuery, CRRError>)
        ensures
            r is Ok <==> self.spec_permissions() is Full,
            r matches Err(e) ==> e matches CRRError::Unauthorized(m) && m@
                == "Full access is required to listen to all changes"@,
            r matches Ok(q) ==> q.sql@ == SELECT_CHANGES@ && q.tables@.len() == 0,
    {
        if !self.permissions.full() {
            return Err(
                CRRError::Unauthorized("Full access is required to listen to all changes".to_owned()),
            );
        }
        Ok(ChangeQuery { sql: SELECT_CHANGES.to_owned(), tables: Vec::new() })
    }

    /// Checks that the caller may apply every row of `changes`; the first row
    /// that it may not apply is named in the refusal.
    pub fn authorize_changes(&self, changes: &Vec<Changeset>) -> (r: Result<(), CRRError>)
        ensures
            r is Ok <==> forall|i: int|
                0 <= i < changes@.len() ==> may_apply(self.spec_permissions(), #[trigger] changes@[i]),
            r matches Err(e) ==> exists|i: int|
                0 <= i < changes@.len() && !may_apply(self.spec_permissions(), #[trigger] changes@[i])
                    && (forall|j: int| 0 <= j < i ==> may_apply(self.spec_permissions(), #[trigger] changes@[j]))
                    && (e matches CRRError::Unauthorized(m) && m@ == denial(changes@[i])),
    {
        let mut i: usize = 0;
        while i < changes.len()
            invariant
                i <= changes@.len(),
                forall|j: int| 0 <= j < i ==> may_apply(self.spec_permissions(), #[trigger] changes@[j]),
            decreases changes@.len() - i,
        {
            let changeset = &changes[i];
            let table = changeset.table();
            let refusal = match ChangeKind::classify(changeset) {
                ChangeKind::Delete => if self.permissions.delete_table(table) {
                    None
                } else {
                    Some("User is not authorized to delete from table \"".to_owned())
                },
                ChangeKind::Insert => if self.permissions.insert_table(table) {
                    None
                } else {
                    Some("User is not authorized to insert into table \"".to_owned())
                },
                ChangeKind::Update => if self.permissions.update_table(table) {
                    None
                } else {
                    Some("User is not authorized to update table \"".to_owned())
                },
            };
            if let Some(prefix) = refusal {
                return Err(CRRError::Unauthorized(prefix.concat(table).concat("\"")));
            }
            i = i + 1;
        }
        Ok(())
    }

    /// Ends a page of changes read from this database: the cursor moves to
    /// the version of the last row taken and stays where the page is empty.
    /// Returns the rows and whether another page follows; none follows an
    /// empty page.
    pub fn take_page(&mut self, page: ChangePage) -> (r: (Vec<Changeset>, bool))
        requires
            page.wf(),
        ensures
            r.0@ == page.spec_rows(),
            r.1 == page.spec_has_next_page(),
            final(self).spec_db_version() == last_version(page.spec_rows(), page.spec_cursor()),
            page.spec_rows().len() == 0 ==> !r.1 && final(self).spec_db_version()
                == page.spec_cursor(),
            final(self).spec_name() == old(self).spec_name(),
            final(self).spec_path() == old(self).spec_path(),
            final(self).spec_permissions() == old(self).spec_permissions(),
    {
        proof {
            page.lemma_empty_has_no_next();
        }
        let (rows, has_next_page, db_version) = page.finish();
        self.db_version = db_version;
        (rows, has_next_page)
    }

    pub fn set_db_version(&mut self, db_version: i64)
        ensures
            final(self).spec_db_version() == db_version,
            final(self).spec_name() == old(self).spec_name(),
            final(self).spec_path() == old(self).spec_path(),
            final(self).spec_permissions() == old(self).spec_permissions(),
    {
        self.db_version = db_version;
    }
}

} // verus!
