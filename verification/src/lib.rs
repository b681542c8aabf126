//! Linux namespace resolution for a process.
//!
//! For each of the ten namespace kinds the kernel may expose under a
//! process's namespace directory, the library decides whether the running
//! kernel is recent enough for the kind, builds the path of the symbolic
//! link to read, and assembles the outcomes of those reads into a single
//! record, failing the whole query on the first failed read.
//!
//! The actual link reads are operating-system calls and are left to the
//! caller: the [`resolve::Resolver`] state machine tells the caller which
//! link to read next, and the caller hands the outcome back.

pub mod kinds;
pub mod paths;
pub mod resolve;
pub mod version;

pub use kinds::Kind;
pub use paths::link_path;
pub use resolve::{LinkOutcome, Namespaces, OsErrorKind, ResolveError, Resolver, Step};
pub use version::KernelVersion;
