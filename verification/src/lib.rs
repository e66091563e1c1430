//! A verified core for a lazily populated virtual filesystem that mirrors a
//! remote code-hosting account: path classification, an inode/attribute
//! registry with a bijection invariant, lazy namespace population from
//! provider listings, and clone-then-redirect materialization.

pub mod fs;
pub mod populate;
pub mod paths;
pub mod registry;

pub use paths::GithubVirtualFileSystemPath;
pub use paths::classify;
