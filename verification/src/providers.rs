//! The capability a package source must offer.

use crate::errors::WenError;
use crate::manifest::Package;
use vstd::prelude::*;

verus! {

/// A source of package metadata, such as a code-hosting site. The resolver
/// depends only on this capability, not on a concrete provider; the
/// surrounding application supplies an implementation that performs the
/// network work. Nothing is assumed about what a fetch returns: callers of
/// the resolver state their guarantees for every possible outcome.
pub trait SourceProvider {
    /// Extract package metadata, with latest release information, from a
    /// repository URL.
    fn fetch_package(&self, url: &str) -> Result<Package, WenError>;

    /// The version string of the repository's latest release.
    fn fetch_latest_version(&self, repo_url: &str) -> Result<String, WenError>;

    /// The provider's name.
    fn name(&self) -> &str;
}

} // verus!
