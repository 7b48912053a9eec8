//! Schema migrations: each statement is wrapped in the calls that keep its
//! table replicated, the statements are joined into one batch, and the log
//! of applied batches is read back from a version on.
use crate::database::Database;
use crate::error::CRRError;
use vstd::prelude::*;

verus! {

/// The text of the first capture group of the leftmost-first match of the
/// regular expression `pattern` in `text`; `None` where the pattern does not
/// compile, does not match, or matches without its first group.
pub uninterp spec fn first_group(pattern: Seq<char>, text: Seq<char>) -> Option<Seq<char>>;

/// Relies on `regex::Regex::new` to compile `pattern` and on
/// `regex::Regex::captures` with `regex::Captures::get(1)` for the text of
/// the first group of the leftmost match; the result depends on `pattern`
/// and `text` alone.
#[verifier::external_body]
fn regex_first_group(pattern: &str, text: &str) -> (r: Option<String>)
    ensures
        r is None <==> first_group(pattern@, text@) is None,
        r matches Some(g) ==> first_group(pattern@, text@) == Some(g@),
{
    let re = match regex::Regex::new(pattern) {
        Ok(re) => re,
        Err(_) => return None,
    };
    let captures = re.captures(text)?;
    let group = captures.get(1)?;
    Some(group.as_str().to_owned())
}

/// A statement that creates a table, with the table's name, in double
/// quotes or bare, as its first group.
pub const CREATE_TABLE_PATTERN: &'static str = "CREATE TABLE (?:IF NOT EXISTS )?(\"[^\"]+\"|[^\\s(\"]+)";

/// A statement that alters a table, with the table's name, in double quotes
/// or bare, as its first group.
pub const ALTER_TABLE_PATTERN: &'static str = "ALTER TABLE (\"[^\"]+\"|[^\\s(\"]+)";

/// `name` without the double quotes around it, if it has them.
pub open spec fn unquoted(name: Seq<char>) -> Seq<char> {
    if name.len() >= 2 && name[0] == '"' && name.last() == '"' {
        name.subrange(1, name.len() - 1)
    } else {
        name
    }
}

/// `name` without the double quotes around it, if it has them.
pub fn unquote(name: &str) -> (r: String)
    ensures
        r@ == unquoted(name@),
{
    let n = name.unicode_len();
    if n >= 2 && name.get_char(0) == '"' && name.get_char(n - 1) == '"' {
        name.substring_char(1, n - 1).to_owned()
    } else {
        name.to_owned()
    }
}

/// What a migration statement does to a replicated table.
#[derive(Debug, PartialEq)]
pub enum MigrationType {
    Create(String),
    Alter(String),
    Other,
}

/// The table name that a match of a pattern gives.
pub open spec fn table_of(o: Option<Seq<char>>) -> Option<Seq<char>> {
    match o {
        Some(s) => Some(unquoted(s)),
        None => None,
    }
}

pub open spec fn view_of(o: Option<String>) -> Option<Seq<char>> {
    match o {
        Some(s) => Some(s@),
        None => None,
    }
}

/// `kind` is what the matches `alter` and `create` make of a statement: an
/// alteration first, then a creation, else neither.
pub open spec fn classifies(
    kind: MigrationType,
    alter: Option<Seq<char>>,
    create: Option<Seq<char>>,
) -> bool {
    match alter {
        Some(a) => kind matches MigrationType::Alter(n) && n@ == a,
        None => match create {
            Some(c) => kind matches MigrationType::Create(n) && n@ == c,
            None => kind is Other,
        },
    }
}

/// The statements that run for the statement `sql`, given the table it
/// alters and the table it creates, if any.
pub open spec fn ceremony(
    alter: Option<Seq<char>>,
    create: Option<Seq<char>>,
    sql: Seq<char>,
) -> Seq<Seq<char>> {
    match alter {
        Some(a) => seq![
            "SELECT crsql_begin_alter('"@ + a + "')"@,
            sql,
            "SELECT crsql_commit_alter('"@ + a + "')"@,
        ],
        None => match create {
            Some(c) => seq![sql, "SELECT crsql_as_crr('"@ + c + "')"@],
            None => seq![sql],
        },
    }
}

/// The statements that run for the migration statement `sql`.
pub open spec fn statements(sql: Seq<char>) -> Seq<Seq<char>> {
    ceremony(
        table_of(first_group(ALTER_TABLE_PATTERN@, sql)),
        table_of(first_group(CREATE_TABLE_PATTERN@, sql)),
        sql,
    )
}

/// The statements that run for the migration `queries`, in order.
pub open spec fn rewrite(queries: Seq<Seq<char>>) -> Seq<Seq<char>>
    decreases queries.len(),
{
    if queries.len() == 0 {
        Seq::empty()
    } else {
        rewrite(queries.drop_last()) + statements(queries.last())
    }
}

/// `parts` with `sep` between each two.
pub open spec fn join(parts: Seq<Seq<char>>, sep: Seq<char>) -> Seq<char>
    decreases parts.len(),
{
    if parts.len() == 0 {
        Seq::empty()
    } else if parts.len() == 1 {
        parts[0]
    } else {
        join(parts.drop_last(), sep) + sep + parts.last()
    }
}

pub open spec fn views(v: Seq<String>) -> Seq<Seq<char>> {
    v.map_values(|s: String| s@)
}

/// What separates the statements of a batch.
pub const STATEMENT_SEPARATOR: &'static str = ";\n";

impl MigrationType {
    /// The classification that the two matches give: the names they
    /// captured lose their double quotes.
    pub fn from_groups(alter: Option<String>, create: Option<String>) -> (r: MigrationType)
        ensures
            classifies(r, table_of(view_of(alter)), table_of(view_of(create))),
    {
        match alter {
            Some(table_name) => MigrationType::Alter(unquote(table_name.as_str())),
            None => match create {
                Some(table_name) => MigrationType::Create(unquote(table_name.as_str())),
                None => MigrationType::Other,
            },
        }
    }

    /// Classifies a statement by the table named after `ALTER TABLE` or,
    /// failing that, after `CREATE TABLE`.
    pub fn detect(sql: &str) -> (r: MigrationType)
        ensures
            classifies(
                r,
                table_of(first_group(ALTER_TABLE_PATTERN@, sql@)),
                table_of(first_group(CREATE_TABLE_PATTERN@, sql@)),
            ),
    {
        let altered = regex_first_group(ALTER_TABLE_PATTERN, sql);
        if altered.is_some() {
            MigrationType::from_groups(altered, None)
        } else {
            let created = regex_first_group(CREATE_TABLE_PATTERN, sql);
            MigrationType::from_groups(None, created)
        }
    }

    /// The statements that run for `sql` when it is of this kind.
    pub fn ceremony(&self, sql: String) -> (r: Vec<String>)
        ensures
            views(r@) == ceremony(
                match self {
                    MigrationType::Alter(n) => Some(n@),
                    _ => None,
                },
                match self {
                    MigrationType::Create(n) => Some(n@),
                    _ => None,
                },
                sql@,
            ),
    {
        let mut r: Vec<String> = Vec::new();
        match self {
            MigrationType::Alter(table_name) => {
                r.push("SELECT crsql_begin_alter('".to_owned().concat(table_name.as_str()).concat("')"));
                r.push(sql);
                r.push("SELECT crsql_commit_alter('".to_owned().concat(table_name.as_str()).concat("')"));
            },
            MigrationType::Create(table_name) => {
                r.push(sql);
                r.push("SELECT crsql_as_crr('".to_owned().concat(table_name.as_str()).concat("')"));
            },
            MigrationType::Other => {
                r.push(sql);
            },
        }
        assert(views(r@) =~= ceremony(
            match self {
                MigrationType::Alter(n) => Some(n@),
                _ => None,
            },
            match self {
                MigrationType::Create(n) => Some(n@),
                _ => None,
            },
            sql@,
        ));
        r
    }
}

impl Database {
    /// Appends to `crr_migrations` the statements that run for `sql`.
    pub fn enable_migration_crr(crr_migrations: &mut Vec<String>, sql: String)
        ensures
            views(final(crr_migrations)@) == views(old(crr_migrations)@) + statements(sql@),
    {
        let kind = MigrationType::detect(sql.as_str());
        let ghost text = sql@;
        let steps = kind.ceremony(sql);
        let ghost before = crr_migrations@;
        let mut i: usize = 0;
        while i < steps.len()
            invariant
                i <= steps@.len(),
                views(crr_migrations@) == views(before) + views(steps@).take(i as int),
            decreases steps@.len() - i,
        {
            let ghost current = crr_migrations@;
            crr_migrations.push(steps[i].clone());
            proof {
                assert(views(crr_migrations@) =~= views(current).push(steps@[i as int]@));
                assert(views(steps@).take(i + 1) =~= views(steps@).take(i as int).push(steps@[i as int]@));
                assert(views(crr_migrations@) =~= views(before) + views(steps@).take(i + 1));
            }
            i = i + 1;
        }
        proof {
            assert(views(steps@).take(steps@.len() as int) =~= views(steps@));
        }
    }

    /// The batch that a migration of `queries` runs: each statement with its
    /// ceremony, joined by `;` and a line break. Only the owner of the
    /// database, or a caller with full access, may migrate it.
    pub fn prepare_migration(&self, queries: Vec<String>) -> (r: Result<String, CRRError>)
        ensures
            r is Ok <==> (self.spec_permissions() is Full || self.spec_permissions() is Create),
            r matches Err(e) ==> e matches CRRError::Unauthorized(m) && m@
                == "User must be authorized with full access to the database to apply migrations"@,
            r matches Ok(batch) ==> batch@ == join(rewrite(views(queries@)), STATEMENT_SEPARATOR@),
    {
        if !(self.permissions().full() || self.permissions().create()) {
            return Err(
                CRRError::Unauthorized(
                    "User must be authorized with full access to the database to apply migrations".to_owned(),
                ),
            );
        }
        let mut crr_migrations: Vec<String> = Vec::new();
        let mut i: usize = 0;
        while i < queries.len()
            invariant
                i <= queries@.len(),
                views(crr_migrations@) == rewrite(views(queries@).take(i as int)),
            decreases queries@.len() - i,
        {
            let sql = queries[i].clone();
            Database::enable_migration_crr(&mut crr_migrations, sql);
            proof {
                assert(views(queries@).take(i + 1).drop_last() =~= views(queries@).take(i as int));
            }
            i = i + 1;
        }
        proof {
            assert(views(queries@).take(queries@.len() as int) =~= views(queries@));
        }
        Ok(join_statements(&crr_migrations))
    }
}

/// The strings of `parts` with [`STATEMENT_SEPARATOR`] between each two.
pub fn join_statements(parts: &Vec<String>) -> (r: String)
    ensures
        r@ == join(views(parts@), STATEMENT_SEPARATOR@),
{
    if parts.len() == 0 {
        return String::new();
    }
    let mut joined = parts[0].clone();
    let mut i: usize = 1;
    proof {
        assert(views(parts@).take(1).len() == 1);
    }
    while i < parts.len()
        invariant
            1 <= i <= parts@.len(),
            joined@ == join(views(parts@).take(i as int), STATEMENT_SEPARATOR@),
        decreases parts@.len() - i,
    {
        joined.append(STATEMENT_SEPARATOR);
        joined.append(parts[i].as_str());
        proof {
            assert(views(parts@).take(i + 1).drop_last() =~= views(parts@).take(i as int));
        }
        i = i + 1;
    }
    proof {
        assert(views(parts@).take(parts@.len() as int) =~= views(parts@));
    }
    joined
}

/// One batch of the migration log of a database.
#[derive(Debug, Clone)]
pub struct Migration {
    pub version: i64,
    pub sql: String,
}

impl Migration {
    pub fn new(version: i64, sql: String) -> (r: Migration)
        ensures
            r.version == version,
            r.sql == sql,
    {
        Migration { version, sql }
    }

    pub fn version(&self) -> (r: i64)
        ensures
            r == self.version,
    {
        self.version
    }

    pub fn sql(&self) -> (r: &str)
        ensures
            r@ == self.sql@,
    {
        self.sql.as_str()
    }
}

/// The entries of `log` with a version above `since`, in log order.
pub open spec fn later(log: Seq<Migration>, since: i64) -> Seq<Migration>
    decreases log.len(),
{
    if log.len() == 0 {
        Seq::empty()
    } else if log.last().version > since {
        later(log.drop_last(), since).push(log.last())
    } else {
        later(log.drop_last(), since)
    }
}

/// The migrations of `log` past the schema version `since_version`.
pub fn migrations(log: Vec<Migration>, since_version: i64) -> (r: Vec<Migration>)
    ensures
        r@ == later(log@, since_version),
{
    let mut log = log;
    let ghost all = log@;
    let mut taken: Vec<Migration> = Vec::new();
    let mut i: usize = 0;
    let n = log.len();
    while i < n
        invariant
            n == all.len(),
            i <= n,
            log@ == all.subrange(0, (n - i) as int),
            later(all, since_version) == later(log@, since_version) + taken@,
        decreases n - i,
    {
        match log.pop() {
            Some(m) => {
                let ghost rest = log@;
                proof {
                    assert(rest.push(m) =~= all.subrange(0, (n - i) as int));
                    assert(rest.push(m).drop_last() =~= rest);
                }
                if m.version > since_version {
                    taken.insert(0, m);
                    proof {
                        assert(later(rest.push(m), since_version) == later(rest, since_version).push(m));
                        assert(later(all, since_version) =~= later(rest, since_version) + taken@);
                    }
                } else {
                    proof {
                        assert(later(rest.push(m), since_version) == later(rest, since_version));
                    }
                }
                proof {
                    assert(log@ =~= all.subrange(0, (n - (i + 1)) as int));
                }
            },
            None => {},
        }
        i = i + 1;
    }
    proof {
        assert(log@.len() == 0);
        assert(later(log@, since_version) =~= Seq::<Migration>::empty());
        assert(later(all, since_version) =~= taken@);
    }
    taken
}

} // verus!
