use vstd::prelude::*;

verus! {

/// The JSON:API media type, for `Content-Type` and `Accept` headers.
pub const JSONAPI_CONTENT_TYPE: &'static str = "application/vnd.api+json";

} // verus!
