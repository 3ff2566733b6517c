use vstd::prelude::*;

verus! {

/// A JSON value, as `serde_json` holds it. The library carries such values
/// through unchanged and never looks inside them.
#[verifier::external_type_specification]
#[verifier::external_body]
pub struct ExJsonValue(serde_json::Value);

} // verus!
