//! Core of a replication hub for conflict-free replicated SQLite databases:
//! the permission model, the change log rows, the paging of change reads,
//! the authorization of incoming changes, the migration ceremony, the
//! filtering of live change streams and the registry of publishers.
pub mod auth;
pub mod changes_iter;
pub mod database;
pub mod error;
pub mod laws;
pub mod migrate;
pub mod permissions;
pub mod registry;
pub mod signed_url;
pub mod stream;
pub mod value;

pub use auth::{Access, PermissionGrant};
pub use changes_iter::{ChangePage, ChangesIter, IterStep, CHANGE_BUFFER_SIZE};
pub use database::{AppEnv, AuthAction, ChangeKind, ChangeQuery, Database, RunMode};
pub use error::{CRRError, HttpError};
pub use migrate::{Migration, MigrationType};
pub use permissions::{
    AllowedTables, DatabasePermissions, ObjectPermissions, PartialPermissions, TablePermissions,
};
pub use registry::Registry;
pub use stream::{Message, StreamAction, StreamFilter};
pub use value::{Changeset, Value};
