//! A guarded command surface over a git repository: a small fixed set of
//! applets (stage, remove, commit, status, log) that perform one constrained
//! repository mutation or query each. This crate holds the verified core:
//! path containment checking, index-to-tree synthesis and commit planning,
//! status classification, ahead/behind graph analysis, and the pure string
//! logic (remote slugs, message joining, line formatting) behind each applet.

pub mod color;
pub mod commit;
pub mod decorations;
pub mod dispatch;
pub mod graph;
pub mod index;
pub mod logfmt;
pub mod message;
pub mod paths;
pub mod remote;
pub mod status;
pub mod strutil;
pub mod tree;
