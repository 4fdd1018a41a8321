//! Describe a directory tree to build (the stage) and build it.
//!
//! What should appear in the stage is written down as sources for each
//! target directory: a file to copy, the files of a tree that match some
//! patterns, a symbolic link. Resolving validates a source for its target and
//! fixes every path, without touching the disk. Staging then asks a stage,
//! request by request, for the files and links.
//!
//! - `path`: paths as text, and what keeps a path within the stage.
//! - `error`: failures as values, and how the failures of independent
//!   operations are gathered.
//! - `spec`: builders and the specifications that they resolve to.
//! - `de`: the configuration, with templates in place of paths, and what
//!   resolves and stages all of it.
//! - `staging`: the stage as a trait, and the record of what it is asked for.
//! - `harvest`: the walk that finds the files of a tree.
//! - `builder`, `action`, `fs`: sources that are built into actions on the
//!   filesystem, the actions, and a stage on disk as the actions it takes.
//! - `targets`, `text`: the order of targets, and how messages show text.

pub mod action;
pub mod builder;
pub mod de;
pub mod error;
pub mod fs;
pub mod harvest;
pub mod path;
pub mod spec;
pub mod staging;
pub mod targets;
pub mod text;
