use vstd::prelude::*;

use crate::document::{keys_distinct, RelationshipObject, ResourceObject};

verus! {

/// Trait that entities implement to become JSON:API resources
pub trait JsonApiResource {
    /// The JSON:API type name (e.g. "users")
    const RESOURCE_TYPE: &'static str;

    /// The resource ID
    fn id(&self) -> String;

    /// The model's attributes, as `(name, value)` entries in which each name
    /// occurs once.
    fn attributes(&self) -> (attributes: Vec<(String, serde_json::Value)>)
        ensures
            keys_distinct(attributes@),
    ;

    /// The model's JSON:API relationships, as `(name, relationship)` entries in
    /// which each name occurs once.
    /// Default implementation returns no entries (resource has no relationships).
    fn relationships(&self) -> (relationships: Vec<(String, RelationshipObject)>)
        ensures
            keys_distinct(relationships@),
        default_ensures
            relationships@ == Seq::<(String, RelationshipObject)>::empty(),
    {
        Vec::new()
    }

    /// Convert to a JSON:API resource object: its type is `RESOURCE_TYPE`, and its
    /// ID, attributes and relationships are what `id`, `attributes` and
    /// `relationships` return for `self`.
    fn to_resource_object(&self) -> (resource: ResourceObject)
        default_ensures
            resource.resource_type@ == Self::RESOURCE_TYPE@,
            resource.wf(),
            resource.id matches Some(i) && call_ensures(Self::id, (self,), i),
            call_ensures(Self::attributes, (self,), resource.attributes),
            call_ensures(Self::relationships, (self,), resource.relationships),
    {
        ResourceObject::from_parts(
            Self::RESOURCE_TYPE,
            self.id(),
            self.attributes(),
            self.relationships(),
        )
    }
}

} // verus!
