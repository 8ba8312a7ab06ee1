//! Verified core of a commit-message assistant.
//!
//! The tool inspects the files staged for a version-control commit, sends
//! their differences to a locally running language-model service, and
//! proposes a commit message. This library holds the parts with real
//! invariants: lock-file classification, byte-accurate diff truncation,
//! prompt assembly, error shaping, and the per-file commit workflow state
//! machine. Process spawning, the network call and the interactive prompts
//! live outside the library and hand it plain values.

pub mod budget;
pub mod inference;
pub mod lockfile;
pub mod prompt;
pub mod text;
pub mod vcs;
pub mod workflow;
