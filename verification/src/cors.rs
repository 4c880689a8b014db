//! The headers that let pages from any origin call the service.

use vstd::prelude::*;

verus! {

/// The cross-origin policy of the service: the same headers on every
/// response.
pub struct CORS;

impl CORS {
    /// The headers of the policy, each as name and value, in the order in
    /// which they are set.
    pub open spec fn spec_headers() -> Seq<(Seq<char>, Seq<char>)> {
        seq![
            ("Access-Control-Allow-Origin"@, "*"@),
            ("Access-Control-Allow-Methods"@, "POST, GET, PATCH, OPTIONS"@),
            ("Access-Control-Allow-Headers"@, "*"@),
            ("Access-Control-Allow-Credentials"@, "true"@),
        ]
    }

    /// The headers to set on a response.
    pub fn headers(&self) -> (headers: Vec<(&'static str, &'static str)>)
        ensures
            headers.deep_view() == Self::spec_headers(),
    {
        let mut headers: Vec<(&'static str, &'static str)> = Vec::new();
        headers.push(("Access-Control-Allow-Origin", "*"));
        headers.push(("Access-Control-Allow-Methods", "POST, GET, PATCH, OPTIONS"));
        headers.push(("Access-Control-Allow-Headers", "*"));
        headers.push(("Access-Control-Allow-Credentials", "true"));
        assert(headers.deep_view() =~= Self::spec_headers());
        headers
    }
}

} // verus!
