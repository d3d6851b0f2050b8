//! Cache policy of a packed file, rendered as the `cache-control` header.

use vstd::prelude::*;
use vstd::string::StringExecFns;

verus! {

/// Caching strategy chosen for a file at build time. The policy maps
/// directly to the value of the `cache-control` response header.
#[derive(Clone, Copy, PartialEq, Eq, Structural, Debug)]
pub enum CacheControl {
    /// Force revalidation on every request, by sending `no-cache`.
    NoCache,
    /// Treat the resource as immutable and cacheable for as long as
    /// possible, by sending `max-age=31536000, immutable`.
    MaxCache,
}

impl CacheControl {
    /// The `cache-control` header value this policy stands for.
    pub open spec fn spec_header_value(self) -> Seq<char> {
        match self {
            CacheControl::NoCache => "no-cache"@,
            CacheControl::MaxCache => "max-age=31536000, immutable"@,
        }
    }

    /// Renders the `cache-control` header value for this policy.
    pub fn cache_control(&self) -> (r: String)
        ensures
            r@ == self.spec_header_value(),
    {
        match self {
            CacheControl::NoCache => String::from_str("no-cache"),
            CacheControl::MaxCache => String::from_str("max-age=31536000, immutable"),
        }
    }
}

} // verus!
