//! Coordination core of a pathfinding service: the module registry and its
//! worker pools, job dispatch with a deduplicating cache, result polling under
//! admission control, and the cancellation cascade that runs when a module's
//! last worker goes away.

pub mod types;
pub mod coordinator;
pub mod job;
pub mod logs;
pub mod maps;
pub mod multipart;
pub mod protocol;
pub mod registry;
pub mod table;
pub mod text;
pub mod util;
