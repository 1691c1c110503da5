//! Snapshotting an accessibility object tree without native recursion, and
//! resolving a user-supplied token into application endpoints.
pub mod crawl;
pub mod endpoint;
pub mod outline;
pub mod properties;
pub mod resolve;
pub mod tree;
