use falcon_jsonapi::document::{
    ErrorObject, ErrorSource, PaginatedCollectionDocument, PaginationLinks, PaginationMeta,
    ResourceObject,
};
use falcon_jsonapi::{ErrorDocument, RelationshipData, RelationshipObject, JSONAPI_CONTENT_TYPE};
use serde_json::Value;

fn linkage(resource_type: &str, id: &str) -> RelationshipData {
    RelationshipData {
        resource_type: resource_type.to_string(),
        id: id.to_string(),
    }
}

fn text(s: &str) -> Value {
    Value::String(s.to_string())
}

fn resource() -> ResourceObject {
    ResourceObject {
        resource_type: "widgets".to_string(),
        id: Some("7".to_string()),
        attributes: vec![("name".to_string(), text("Left widget"))],
        relationships: Vec::new(),
    }
}

// --- relationship linkage ---

#[test]
fn to_one_linkage_reads_back_what_was_given() {
    let rel = RelationshipObject::to_one(Some(linkage("sites", "1")));
    let data = rel.as_to_one_data().expect("to-one linkage");
    assert_eq!(data.resource_type, "sites");
    assert_eq!(data.id, "1");
}

#[test]
fn null_to_one_linkage_reads_as_none() {
    assert!(RelationshipObject::to_one(None).as_to_one_data().is_none());
}

#[test]
fn to_many_never_reads_as_to_one_linkage() {
    let rel = RelationshipObject::to_many(vec![linkage("sites", "1"), linkage("sites", "2")]);
    assert!(rel.as_to_one_data().is_none());
    assert!(RelationshipObject::to_many(vec![]).as_to_one_data().is_none());
    match rel {
        RelationshipObject::ToMany { data } => {
            assert_eq!(data.len(), 2);
            assert_eq!(data[1].id, "2");
        }
        RelationshipObject::ToOne { .. } => panic!("built as to-many"),
    }
}

// --- sparse fieldsets ---

#[test]
fn retain_fields_drops_unrequested_attributes() {
    let mut resource = ResourceObject {
        resource_type: "widgets".to_string(),
        id: Some("7".to_string()),
        attributes: vec![
            ("name".to_string(), text("Left widget")),
            ("secret".to_string(), text("hidden")),
        ],
        relationships: Vec::new(),
    };

    resource.retain_fields(&vec!["name".to_string()]);

    assert!(resource.attribute("name").is_some());
    assert!(resource.attribute("secret").is_none());
}

/// Per the JSON:API spec, sparse fieldsets never strip relationships.
#[test]
fn retain_fields_leaves_relationships_untouched() {
    let mut resource = ResourceObject {
        resource_type: "widgets".to_string(),
        id: Some("7".to_string()),
        attributes: vec![("name".to_string(), text("Left widget"))],
        relationships: vec![(
            "site".to_string(),
            RelationshipObject::to_one(Some(linkage("sites", "1"))),
        )],
    };

    resource.retain_fields(&Vec::new());

    assert!(resource.attributes.is_empty());
    assert!(resource.relationship("site").is_some());
}

#[test]
fn retain_fields_keeps_order_values_and_is_idempotent() {
    let mut resource = ResourceObject {
        resource_type: "widgets".to_string(),
        id: Some("7".to_string()),
        attributes: vec![
            ("a".to_string(), text("1")),
            ("b".to_string(), text("2")),
            ("c".to_string(), text("3")),
            ("d".to_string(), text("4")),
        ],
        relationships: Vec::new(),
    };
    let fields = vec!["d".to_string(), "b".to_string(), "zzz".to_string()];

    resource.retain_fields(&fields);
    let keys: Vec<&str> = resource.attributes.iter().map(|(k, _)| k.as_str()).collect();
    assert_eq!(keys, vec!["b", "d"]);
    assert_eq!(resource.attribute("d"), Some(&text("4")));

    resource.retain_fields(&fields);
    let again: Vec<&str> = resource.attributes.iter().map(|(k, _)| k.as_str()).collect();
    assert_eq!(again, vec!["b", "d"]);
    assert_eq!(resource.resource_type, "widgets");
    assert_eq!(resource.id.as_deref(), Some("7"));
}

#[test]
fn retain_fields_requesting_everything_keeps_everything() {
    let mut resource = resource();
    resource.retain_fields(&vec!["name".to_string(), "other".to_string()]);
    assert_eq!(resource.attributes.len(), 1);
    assert_eq!(resource.attribute("name"), Some(&text("Left widget")));
}

// --- pagination ---

#[test]
fn paginated_collection_document_holds_its_parts() {
    let document = PaginatedCollectionDocument {
        data: vec![resource()],
        meta: PaginationMeta {
            page_number: 1,
            page_size: 25,
            total_pages: 3,
            total_items: 62,
        },
        links: PaginationLinks {
            first: "/api/v1/widgets?page[number]=1".to_string(),
            last: "/api/v1/widgets?page[number]=3".to_string(),
            prev: None,
            next: Some("/api/v1/widgets?page[number]=2".to_string()),
        },
    };

    assert_eq!(document.data.len(), 1);
    assert_eq!(document.meta.total_items, 62);
    assert!(document.links.prev.is_none());
}

// --- errors ---

#[test]
fn error_constructors_carry_their_status_and_title() {
    let cases = [
        (ErrorDocument::not_found(), "404", "Not Found"),
        (ErrorDocument::unauthorized(), "401", "Unauthorized"),
        (ErrorDocument::forbidden(), "403", "Forbidden"),
        (
            ErrorDocument::too_many_requests(),
            "429",
            "Too Many Requests",
        ),
        (
            ErrorDocument::service_unavailable(),
            "503",
            "Service Unavailable",
        ),
        (
            ErrorDocument::bad_request("bad".to_string()),
            "400",
            "Bad Request",
        ),
        (
            ErrorDocument::unprocessable("invalid".to_string()),
            "422",
            "Unprocessable Entity",
        ),
        (
            ErrorDocument::internal("boom".to_string()),
            "500",
            "Internal Server Error",
        ),
        (
            ErrorDocument::bad_gateway("upstream".to_string()),
            "502",
            "Bad Gateway",
        ),
        (
            ErrorDocument::unsupported_media_type(),
            "415",
            "Unsupported Media Type",
        ),
        (ErrorDocument::not_acceptable(), "406", "Not Acceptable"),
    ];

    for (document, status, title) in cases {
        assert_eq!(document.errors.len(), 1);
        assert_eq!(document.errors[0].status, status);
        assert_eq!(document.errors[0].title, title);
    }
}

/// The pointer is an RFC 6901 path into the request body — clients map it back
/// onto the form field that failed.
#[test]
fn unprocessable_field_points_at_the_offending_attribute() {
    let document = ErrorDocument::unprocessable_field("role", "is invalid".to_string());

    let error = &document.errors[0];
    assert_eq!(
        error.source.as_ref().map(|s| s.pointer.as_str()),
        Some("/data/attributes/role")
    );
    assert_eq!(error.detail.as_deref(), Some("is invalid"));
}

#[test]
fn errors_without_detail_leave_optional_members_empty() {
    for document in [
        ErrorDocument::not_found(),
        ErrorDocument::unauthorized(),
        ErrorDocument::forbidden(),
        ErrorDocument::too_many_requests(),
        ErrorDocument::service_unavailable(),
    ] {
        let error = &document.errors[0];
        assert!(error.detail.is_none());
        assert!(error.source.is_none());
        assert!(error.meta.is_none());
    }
}

#[test]
fn errors_with_detail_carry_it() {
    let cases = [
        (ErrorDocument::bad_request("bad".to_string()), "bad"),
        (ErrorDocument::unprocessable("invalid".to_string()), "invalid"),
        (ErrorDocument::internal("boom".to_string()), "boom"),
        (ErrorDocument::bad_gateway("upstream".to_string()), "upstream"),
    ];
    for (document, detail) in cases {
        let error = &document.errors[0];
        assert_eq!(error.detail.as_deref(), Some(detail));
        assert!(error.source.is_none());
        assert!(error.meta.is_none());
    }
}

#[test]
fn media_type_errors_name_the_json_api_media_type() {
    assert_eq!(JSONAPI_CONTENT_TYPE, "application/vnd.api+json");
    assert_eq!(
        ErrorDocument::unsupported_media_type().errors[0].detail.as_deref(),
        Some("Requests with a body must use Content-Type: application/vnd.api+json")
    );
    assert_eq!(
        ErrorDocument::not_acceptable().errors[0].detail.as_deref(),
        Some("Accept header must include application/vnd.api+json")
    );
}

#[test]
fn error_object_meta_is_kept_when_present() {
    let mut meta = serde_json::Map::new();
    meta.insert("max".to_string(), Value::from(255));
    let document = ErrorDocument {
        errors: vec![ErrorObject {
            status: "422".to_string(),
            title: "Unprocessable Entity".to_string(),
            detail: Some("too long".to_string()),
            source: Some(ErrorSource {
                pointer: "/data/attributes/name".to_string(),
            }),
            meta: Some(Value::Object(meta)),
        }],
    };

    assert_eq!(
        document.errors[0].meta.as_ref().and_then(|m| m.get("max")),
        Some(&Value::from(255))
    );
}
