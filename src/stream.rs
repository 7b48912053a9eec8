//! The decisions of a change stream: after the catch-up reads, each message
//! of the publisher is forwarded or dropped by the caller's permissions,
//! site and the versions already sent.
use crate::error::{status_of, CRRError, HttpError};
use crate::migrate::Migration;
use crate::permissions::DatabasePermissions;
use crate::value::Changeset;
use vstd::prelude::*;

verus! {

/// What a publisher broadcasts to the subscribers of a database.
#[derive(Debug, Clone)]
pub enum Message {
    Change(Changeset),
    Migration(Migration),
    Error(HttpError),
}

impl Message {
    /// A change read by the publisher, or the error that ended its read.
    pub fn from_change(value: Result<Changeset, CRRError>) -> (r: Message)
        ensures
            value matches Ok(c) ==> r == Message::Change(c),
            value matches Err(e) ==> r matches Message::Error(h) && h.status_code == status_of(e)
                && h.message@ == e.spec_public_message(),
    {
        match value {
            Ok(changeset) => Message::Change(changeset),
            Err(error) => Message::Error(HttpError::from(error)),
        }
    }

    /// A migration applied, or the error that ended it.
    pub fn from_migration(value: Result<Migration, CRRError>) -> (r: Message)
        ensures
            value matches Ok(m) ==> r == Message::Migration(m),
            value matches Err(e) ==> r matches Message::Error(h) && h.status_code == status_of(e)
                && h.message@ == e.spec_public_message(),
    {
        match value {
            Ok(migration) => Message::Migration(migration),
            Err(error) => Message::Error(HttpError::from(error)),
        }
    }

    pub fn changeset(self) -> (r: Option<Changeset>)
        ensures
            self matches Message::Change(c) ==> r == Some(c),
            !(self is Change) ==> r is None,
    {
        match self {
            Message::Change(changeset) => Some(changeset),
            _ => None,
        }
    }
}

/// What the stream does with one message.
#[derive(Debug)]
pub enum StreamAction {
    /// Send a `change` event.
    EmitChange(Changeset),
    /// Send a `migration` event.
    EmitMigration(Migration),
    /// Send nothing.
    Skip,
    /// Send an `error` event and end the stream.
    Fail(HttpError),
}

/// Whether two byte strings are equal.
pub fn same_bytes(a: &Vec<u8>, b: &Vec<u8>) -> (r: bool)
    ensures
        r == (a@ == b@),
{
    if a.len() != b.len() {
        return false;
    }
    let mut i: usize = 0;
    while i < a.len()
        invariant
            a@.len() == b@.len(),
            i <= a@.len(),
            forall|j: int| 0 <= j < i ==> a@[j] == b@[j],
        decreases a@.len() - i,
    {
        if a[i] != b[i] {
            return false;
        }
        i = i + 1;
    }
    assert(a@ =~= b@);
    true
}

/// The state of one subscriber's stream.
pub struct StreamFilter {
    site_id: Vec<u8>,
    permissions: DatabasePermissions,
    cutoff: i128,
    schema_version: i64,
}

/// Whether a stream at `cutoff` for site `site_id` with `permissions` sends
/// the change `cs`: a table it may read, a version not below the cutoff,
/// and another site.
pub open spec fn forwards(
    permissions: DatabasePermissions,
    site_id: Seq<u8>,
    cutoff: int,
    cs: Changeset,
) -> bool {
    &&& permissions.can_read_table(cs.spec_table())
    &&& cs.spec_db_version() >= cutoff
    &&& cs.spec_site_id() != site_id
}

/// The cutoff of a stream at `cutoff` after the change `cs` reached it.
pub open spec fn next_cutoff(
    permissions: DatabasePermissions,
    site_id: Seq<u8>,
    cutoff: int,
    cs: Changeset,
) -> int {
    if forwards(permissions, site_id, cutoff, cs) {
        cs.spec_db_version() as int
    } else {
        cutoff
    }
}

/// The changes that a stream at `cutoff` sends for the changes `changes`
/// that reach it one after another.
pub open spec fn sent(
    permissions: DatabasePermissions,
    site_id: Seq<u8>,
    cutoff: int,
    changes: Seq<Changeset>,
) -> Seq<Changeset>
    decreases changes.len(),
{
    if changes.len() == 0 {
        Seq::empty()
    } else {
        let rest = sent(
            permissions,
            site_id,
            next_cutoff(permissions, site_id, cutoff, changes[0]),
            changes.drop_first(),
        );
        if forwards(permissions, site_id, cutoff, changes[0]) {
            seq![changes[0]] + rest
        } else {
            rest
        }
    }
}

/// Whether the versions of `changes` never decrease.
pub open spec fn in_commit_order(changes: Seq<Changeset>) -> bool {
    forall|i: int, j: int|
        0 <= i <= j < changes.len() ==> changes[i].spec_db_version() <= changes[j].spec_db_version()
}

impl StreamFilter {
    pub closed spec fn spec_site_id(&self) -> Seq<u8> {
        self.site_id@
    }

    pub closed spec fn spec_permissions(&self) -> DatabasePermissions {
        self.permissions
    }

    /// The least version a change must have to be sent.
    pub closed spec fn spec_cutoff(&self) -> int {
        self.cutoff as int
    }

    /// The version of the last migration sent, or the client's baseline.
    pub closed spec fn spec_schema_version(&self) -> i64 {
        self.schema_version
    }

    /// The stream of site `site_id`, which has the changes up to `db_version`
    /// and the migrations up to `schema_version`.
    pub fn new(
        site_id: Vec<u8>,
        permissions: DatabasePermissions,
        db_version: i64,
        schema_version: i64,
    ) -> (r: StreamFilter)
        ensures
            r.spec_site_id() == site_id@,
            r.spec_permissions() == permissions,
            r.spec_cutoff() == db_version + 1,
            r.spec_schema_version() == schema_version,
    {
        StreamFilter { site_id, permissions, cutoff: db_version as i128 + 1, schema_version }
    }

    /// Records a migration sent during the catch-up.
    pub fn caught_up_migration(&mut self, migration: &Migration)
        ensures
            final(self).spec_schema_version() == migration.version,
            final(self).spec_cutoff() == old(self).spec_cutoff(),
            final(self).spec_site_id() == old(self).spec_site_id(),
            final(self).spec_permissions() == old(self).spec_permissions(),
    {
        self.schema_version = migration.version;
    }

    /// Ends the catch-up, whose reads went up to the version `db_version`:
    /// live changes are sent from the next version on.
    pub fn go_live(&mut self, db_version: i64)
        ensures
            final(self).spec_cutoff() == db_version + 1,
            final(self).spec_schema_version() == old(self).spec_schema_version(),
            final(self).spec_site_id() == old(self).spec_site_id(),
            final(self).spec_permissions() == old(self).spec_permissions(),
    {
        self.cutoff = db_version as i128 + 1;
    }

    /// Decides on one message of the publisher. A change that is sent moves
    /// the cutoff to its version; a migration is sent when it is newer than
    /// the last one; an error ends the stream.
    pub fn on_message(&mut self, message: Message) -> (r: StreamAction)
        ensures
            final(self).spec_site_id() == old(self).spec_site_id(),
            final(self).spec_permissions() == old(self).spec_permissions(),
            match message {
                Message::Change(cs) => {
                    &&& final(self).spec_cutoff() == next_cutoff(
                        old(self).spec_permissions(),
                        old(self).spec_site_id(),
                        old(self).spec_cutoff(),
                        cs,
                    )
                    &&& final(self).spec_schema_version() == old(self).spec_schema_version()
                    &&& if forwards(
                        old(self).spec_permissions(),
                        old(self).spec_site_id(),
                        old(self).spec_cutoff(),
                        cs,
                    ) {
                        r == StreamAction::EmitChange(cs)
                    } else {
                        r is Skip
                    }
                },
                Message::Migration(m) => if m.version > old(self).spec_schema_version() {
                    &&& r == StreamAction::EmitMigration(m)
                    &&& final(self).spec_schema_version() == m.version
                    &&& final(self).spec_cutoff() == old(self).spec_cutoff()
                } else {
                    &&& r is Skip
                    &&& final(self).spec_schema_version() == old(self).spec_schema_version()
                    &&& final(self).spec_cutoff() == old(self).spec_cutoff()
                },
                Message::Error(e) => {
                    &&& r == StreamAction::Fail(e)
                    &&& final(self).spec_schema_version() == old(self).spec_schema_version()
                    &&& final(self).spec_cutoff() == old(self).spec_cutoff()
                },
            },
    {
        match message {
            Message::Change(changeset) => {
                if !self.permissions.read_table(changeset.table()) {
                    return StreamAction::Skip;
                }
                if (changeset.db_version() as i128) < self.cutoff {
                    return StreamAction::Skip;
                }
                if same_bytes(changeset.site_id(), &self.site_id) {
                    return StreamAction::Skip;
                }
                self.cutoff = changeset.db_version() as i128;
                StreamAction::EmitChange(changeset)
            },
            Message::Migration(migration) => {
                if migration.version > self.schema_version {
                    self.schema_version = migration.version;
                    StreamAction::EmitMigration(migration)
                } else {
                    StreamAction::Skip
                }
            },
            Message::Error(error) => StreamAction::Fail(error),
        }
    }
}

} // verus!
