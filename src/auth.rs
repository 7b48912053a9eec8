//! What the stored grants of a user amount to on one database, and whether a
//! first user may claim a database that nobody holds yet.
use crate::database::check_name;
use crate::database::reserved;
use crate::error::CRRError;
use crate::permissions::{DatabasePermissions, ObjectPermissions, PartialPermissions};
use vstd::prelude::*;

verus! {

/// One stored grant: on the database as a whole when `table_name` is
/// `None`, else on one table.
#[derive(Debug, Clone)]
pub struct PermissionGrant {
    pub table_name: Option<String>,
    pub read: bool,
    pub insert: bool,
    pub update: bool,
    pub delete: bool,
    pub full: bool,
}

pub open spec fn operations(g: PermissionGrant) -> PartialPermissions {
    PartialPermissions { read: g.read, insert: g.insert, update: g.update, delete: g.delete }
}

pub open spec fn names_table(g: PermissionGrant, t: Seq<char>) -> bool {
    g.table_name matches Some(n) && n@ == t
}

/// Whether one of `grants` gives full access to the whole database.
pub open spec fn full_grant(grants: Seq<PermissionGrant>) -> bool {
    exists|i: int| 0 <= i < grants.len() && (#[trigger] grants[i]).table_name is None && grants[i].full
}

/// The operations on the whole database: those of the last grant on it.
pub open spec fn database_grant(grants: Seq<PermissionGrant>) -> PartialPermissions
    decreases grants.len(),
{
    if grants.len() == 0 {
        PartialPermissions { read: false, insert: false, update: false, delete: false }
    } else if grants.last().table_name is None {
        operations(grants.last())
    } else {
        database_grant(grants.drop_last())
    }
}

/// The capabilities on table `t`: full once a grant on it is full, else
/// those of the last grant on it.
pub open spec fn table_grant(grants: Seq<PermissionGrant>, t: Seq<char>) -> Option<ObjectPermissions>
    decreases grants.len(),
{
    if grants.len() == 0 {
        None
    } else {
        let before = table_grant(grants.drop_last(), t);
        if names_table(grants.last(), t) {
            if grants.last().full || before == Some(ObjectPermissions::Full) {
                Some(ObjectPermissions::Full)
            } else {
                Some(ObjectPermissions::Partial(operations(grants.last())))
            }
        } else {
            before
        }
    }
}

/// What a user was granted on one database.
pub fn permissions_from_grants(grants: &Vec<PermissionGrant>) -> (r: DatabasePermissions)
    ensures
        full_grant(grants@) <==> r is Full,
        !(r is Create),
        r matches DatabasePermissions::Partial { database, tables } ==> {
            &&& database == database_grant(grants@)
            &&& forall|t: Seq<char>|
                #![trigger tables@.contains_key(t)]
                (tables@.contains_key(t) <==> table_grant(grants@, t) is Some)
                    && (tables@.contains_key(t) ==> table_grant(grants@, t) == Some(tables@[t]))
        },
{
    let mut permissions = DatabasePermissions::default();
    let mut i: usize = 0;
    while i < grants.len()
        invariant
            i <= grants@.len(),
            !full_grant(grants@.take(i as int)),
            permissions matches DatabasePermissions::Partial { database, tables } && database
                == database_grant(grants@.take(i as int)) && (forall|t: Seq<char>|
                #![trigger tables@.contains_key(t)]
                (tables@.contains_key(t) <==> table_grant(grants@.take(i as int), t) is Some) && (
                tables@.contains_key(t) ==> table_grant(grants@.take(i as int), t) == Some(
                    tables@[t],
                ))),
        decreases grants@.len() - i,
    {
        let grant = &grants[i];
        let ghost prefix = grants@.take(i as int);
        let ghost next = grants@.take(i + 1);
        proof {
            assert(next.drop_last() =~= prefix);
            assert(next.last() == grants@[i as int]);
        }
        let ops = PartialPermissions {
            read: grant.read,
            insert: grant.insert,
            update: grant.update,
            delete: grant.delete,
        };
        match &grant.table_name {
            Some(table_name) => {
                let ghost before = permissions;
                if grant.full {
                    permissions.set_table_full(table_name.clone());
                } else {
                    permissions.set_table(table_name.clone(), ops);
                }
                proof {
                    assert forall|j: int| 0 <= j < next.len() implies !((#[trigger] next[j]).table_name is None
                        && next[j].full) by {
                        if j < i {
                            assert(next[j] == prefix[j]);
                        }
                    }
                    assert forall|t: Seq<char>| #[trigger] permissions->tables@.contains_key(t) <==> table_grant(next, t) is Some by {
                        if t != table_name@ {
                            assert(!names_table(next.last(), t));
                        }
                    }
                    assert forall|t: Seq<char>| #[trigger] permissions->tables@.contains_key(t) implies
                        table_grant(next, t) == Some(permissions->tables@[t]) by {
                        if t != table_name@ {
                            assert(!names_table(next.last(), t));
                        } else {
                            assert(names_table(next.last(), t));
                            if before->tables@.contains_key(t) {
                                assert(table_grant(prefix, t) == Some(before->tables@[t]));
                            } else {
                                assert(table_grant(prefix, t) is None);
                            }
                        }
                    }
                }
            },
            None => {
                if grant.full {
                    proof {
                        assert(grants@[i as int].table_name is None && grants@[i as int].full);
                    }
                    permissions.set_full();
                    return permissions;
                }
                permissions.set(ops);
                proof {
                    assert forall|j: int| 0 <= j < next.len() implies !((#[trigger] next[j]).table_name is None
                        && next[j].full) by {
                        if j < i {
                            assert(next[j] == prefix[j]);
                        }
                    }
                    assert forall|t: Seq<char>| #[trigger] permissions->tables@.contains_key(t) <==> table_grant(next, t) is Some by {
                        assert(!names_table(next.last(), t));
                    }
                    assert forall|t: Seq<char>| #[trigger] permissions->tables@.contains_key(t) implies
                        table_grant(next, t) == Some(permissions->tables@[t]) by {
                        assert(!names_table(next.last(), t));
                    }
                }
            },
        }
        i = i + 1;
    }
    proof {
        assert(grants@.take(grants@.len() as int) =~= grants@);
    }
    permissions
}

/// How a caller may use a database.
#[derive(Debug)]
pub enum Access {
    /// With the permissions granted.
    Granted(DatabasePermissions),
    /// As the owner of a database that nobody holds yet: the server records
    /// the caller as its owner, and the caller gets `Create`.
    Claim,
}

/// Decides on a caller's access to `db_name` from the permissions granted
/// to it and whether anyone holds the database. Reserved names are refused
/// before anything else; a caller without any grant may claim a database
/// that nobody holds and is refused one that somebody holds.
pub fn resolve_access(db_name: &str, granted: DatabasePermissions, database_exists: bool) -> (r:
    Result<Access, CRRError>)
    ensures
        reserved(db_name@) ==> (r matches Err(e) && e matches CRRError::ReservedName(n) && n@
            == db_name@),
        !reserved(db_name@) && !granted.no_rights() ==> r == Ok::<Access, CRRError>(
            Access::Granted(granted),
        ),
        !reserved(db_name@) && granted.no_rights() && !database_exists ==> r matches Ok(
            Access::Claim,
        ),
        !reserved(db_name@) && granted.no_rights() && database_exists ==> (r matches Err(e)
            && e matches CRRError::Unauthorized(m) && m@ == "User has no access to database "@
            + db_name@),
{
    match check_name(db_name) {
        Err(e) => {
            return Err(e);
        },
        Ok(()) => {},
    }
    if granted.is_empty() {
        if database_exists {
            return Err(
                CRRError::unauthorized("User has no access to database ".to_owned().concat(db_name)),
            );
        }
        return Ok(Access::Claim);
    }
    Ok(Access::Granted(granted))
}

} // verus!
