//! Verified core of a Zig toolchain version manager: version-label
//! classification, release resolution, cache-key matching and the plans
//! that drive installing, fetching, running and pruning cached toolchains.

pub mod text;
pub mod arch;
pub mod paths;
pub mod releases;
pub mod cache;
pub mod install;
pub mod flow;
pub mod list;
pub mod update;
pub mod download;
