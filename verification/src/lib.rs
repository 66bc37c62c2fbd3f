//! A content-addressed object store for version-control commits.
//!
//! A commit is an immutable, identifier-addressed record referencing a tree
//! snapshot, zero or more parent commits, authorship metadata, and a free-form
//! message. Commits live in a [`store::Store`]; a [`commit::Commit`] handle is
//! an independent, owned resolution of one stored object. The only way to
//! "change" a commit is to derive a brand-new one (`amend`) with a new id.

pub mod bytes;
pub mod commit;
pub mod error;
pub mod header;
pub mod laws;
pub mod oid;
pub mod signature;
pub mod store;
pub mod text;

pub use commit::Commit;
pub use error::Error;
pub use oid::Oid;
pub use signature::Signature;
pub use signature::Time;
pub use store::Store;
pub use store::Tree;
