//! Synchronises versioned skill directories from remote repositories into a
//! project: reference parsing, key validation, the manifest and lockfile
//! tables, and the install / update / uninstall decisions, all verified.
pub mod error;
pub mod skill;
pub mod text;
pub mod source;
pub mod table;
pub mod manifest;
pub mod lockfile;
pub mod reconcile;
pub mod fetch;
pub mod frontmatter;
