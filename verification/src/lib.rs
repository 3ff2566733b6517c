pub mod constants;
pub mod document;
pub mod json;
pub mod paths;
pub mod resource;

pub use constants::JSONAPI_CONTENT_TYPE;
pub use document::{
    Document, DocumentWithIncluded, DocumentWithMeta, ErrorDocument, RelationshipData,
    RelationshipObject,
};
pub use resource::JsonApiResource;
