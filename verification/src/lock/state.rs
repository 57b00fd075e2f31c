//! The state records themselves.
pub mod cwd;
pub mod output;
pub mod shell;
pub mod tail;
pub mod waitq;
pub mod ping;
pub mod blk;
