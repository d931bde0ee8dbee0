//! Attach a process to the namespaces of a running target while injecting
//! host-filesystem volumes into the target's mount namespace.
//!
//! The library holds the verified logic of that protocol: volume-spec
//! parsing, a mount-table model with its parser and lookups, and the
//! phase-ordered orchestrator, expressed as a state machine whose actions
//! (system calls, reads of the mount-information file) a thin unverified
//! driver performs.

pub mod orchestrator;
pub mod table;
pub mod text;
pub mod volume;

pub use orchestrator::Action;
pub use orchestrator::Event;
pub use orchestrator::FailureReason;
pub use orchestrator::NSExecutor;
pub use orchestrator::Orchestrator;
pub use orchestrator::Phase;
pub use table::Context;
pub use table::Table;
pub use table::FS;
pub use volume::Volume;
pub use volume::VolumeParseError;
