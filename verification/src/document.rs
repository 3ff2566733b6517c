use vstd::prelude::*;
use vstd::string::*;

verus! {

/// The `data` member of a JSON:API relationship linkage
#[derive(Debug, Clone)]
pub struct RelationshipData {
    pub resource_type: String,
    pub id: String,
}

/// A JSON:API relationship object supporting both to-one and to-many linkage.
///
/// **To-one** (`ToOne`):
///   - `Some(rd)` → `"data": { "type": "...", "id": "..." }`
///   - `None`     → `"data": null`  (nullable relationship, e.g. parent)
///
/// **To-many** (`ToMany`):
///   - `vec![…]`  → `"data": [{ "type": "…", "id": "…" }, …]`
///   - `vec![]`   → `"data": []`
#[derive(Debug)]
pub enum RelationshipObject {
    ToMany { data: Vec<RelationshipData> },
    ToOne { data: Option<RelationshipData> },
}

impl RelationshipObject {
    /// The resource linkage that reads as to-one: the `data` of a to-one
    /// relationship, and nothing for a to-many one.
    pub open spec fn to_one_linkage(self) -> Option<RelationshipData> {
        match self {
            RelationshipObject::ToOne { data } => data,
            RelationshipObject::ToMany { .. } => None,
        }
    }

    pub fn to_one(data: Option<RelationshipData>) -> (rel: Self)
        ensures
            rel == (RelationshipObject::ToOne { data }),
    {
        Self::ToOne { data }
    }

    pub fn to_many(data: Vec<RelationshipData>) -> (rel: Self)
        ensures
            rel == (RelationshipObject::ToMany { data }),
    {
        Self::ToMany { data }
    }

    /// Extract the inner resource linkage for a to-one relationship.
    /// Returns `None` for to-many relationships or nullable to-one with `data: null`.
    pub fn as_to_one_data(&self) -> (linkage: Option<&RelationshipData>)
        ensures
            linkage is Some <==> self.to_one_linkage() is Some,
            linkage matches Some(d) ==> self.to_one_linkage() == Some(*d),
    {
        match self {
            Self::ToOne { data } => match data {
                Some(d) => Some(d),
                None => None,
            },
            Self::ToMany { .. } => None,
        }
    }
}

/// Reading a relationship built as to-one gives back exactly the linkage it was
/// built with; one built as to-many never reads as to-one linkage.
pub proof fn lemma_to_one_linkage_round_trip(
    data: Option<RelationshipData>,
    many: Vec<RelationshipData>,
)
    ensures
        (RelationshipObject::ToOne { data }).to_one_linkage() == data,
        (RelationshipObject::ToMany { data: many }).to_one_linkage() is None,
{
}


/// The keys of a list of key/value entries are pairwise distinct, so that the
/// list reads as a map.
pub open spec fn keys_distinct<V>(entries: Seq<(String, V)>) -> bool {
    forall|i: int, j: int|
        0 <= i < j < entries.len() ==> #[trigger] entries[i].0@ != #[trigger] entries[j].0@
}

/// Some entry of `entries` has the key `key`.
pub open spec fn has_key<V>(entries: Seq<(String, V)>, key: Seq<char>) -> bool {
    exists|i: int| 0 <= i < entries.len() && #[trigger] entries[i].0@ == key
}

/// `key` is one of the requested `fields`.
pub open spec fn is_requested(fields: Seq<String>, key: Seq<char>) -> bool {
    exists|i: int| 0 <= i < fields.len() && #[trigger] fields[i]@ == key
}

/// The attribute entries whose key is requested.
pub open spec fn requested_entry(fields: Seq<String>) -> spec_fn((String, serde_json::Value)) -> bool {
    |entry: (String, serde_json::Value)| is_requested(fields, entry.0@)
}

/// The sparse fieldset of `attributes`: the entries whose key is in `fields`,
/// in the order they had.
pub open spec fn sparse_attributes(
    attributes: Seq<(String, serde_json::Value)>,
    fields: Seq<String>,
) -> Seq<(String, serde_json::Value)> {
    attributes.filter(requested_entry(fields))
}

/// A JSON:API resource object
///
/// `attributes` and `relationships` are maps from member name to value, held as
/// lists of entries; a well-formed resource object names each member once.
#[derive(Debug)]
pub struct ResourceObject {
    pub resource_type: String,
    pub id: Option<String>,
    pub attributes: Vec<(String, serde_json::Value)>,
    pub relationships: Vec<(String, RelationshipObject)>,
}

/// Whether `key` is one of `fields`.
fn contains_field(fields: &Vec<String>, key: &String) -> (found: bool)
    ensures
        found == is_requested(fields@, key@),
{
    let mut i: usize = 0;
    while i < fields.len()
        invariant
            0 <= i <= fields.len(),
            forall|k: int| 0 <= k < i ==> fields@[k]@ != key@,
        decreases fields.len() - i,
    {
        if fields[i] == *key {
            return true;
        }
        i += 1;
    }
    false
}

/// The value of the first entry with the key `key`.
fn find_entry<'a, V>(entries: &'a Vec<(String, V)>, key: &str) -> (found: Option<&'a V>)
    ensures
        found is Some <==> has_key(entries@, key@),
        found matches Some(v) ==> exists|i: int|
            0 <= i < entries@.len() && entries@[i].0@ == key@ && entries@[i].1 == *v && (forall|
                k: int,
            |
                0 <= k < i ==> entries@[k].0@ != key@),
{
    let wanted = String::from_str(key);
    let mut i: usize = 0;
    while i < entries.len()
        invariant
            0 <= i <= entries.len(),
            wanted@ == key@,
            forall|k: int| 0 <= k < i ==> entries@[k].0@ != key@,
        decreases entries.len() - i,
    {
        if entries[i].0 == wanted {
            assert(entries@[i as int].0@ == key@);
            return Some(&entries[i].1);
        }
        i += 1;
    }
    None
}

impl ResourceObject {
    /// Every attribute and every relationship is named once.
    pub open spec fn wf(self) -> bool {
        &&& keys_distinct(self.attributes@)
        &&& keys_distinct(self.relationships@)
    }

    /// Assemble a resource object from its type, its ID and its members.
    pub fn from_parts(
        resource_type: &str,
        id: String,
        attributes: Vec<(String, serde_json::Value)>,
        relationships: Vec<(String, RelationshipObject)>,
    ) -> (resource: Self)
        ensures
            resource.resource_type@ == resource_type@,
            resource.id == Some(id),
            resource.attributes == attributes,
            resource.relationships == relationships,
    {
        ResourceObject {
            resource_type: String::from_str(resource_type),
            id: Some(id),
            attributes,
            relationships,
        }
    }

    /// The value of the attribute named `key`, if there is one.
    pub fn attribute(&self, key: &str) -> (value: Option<&serde_json::Value>)
        ensures
            value is Some <==> has_key(self.attributes@, key@),
            value matches Some(v) ==> exists|i: int|
                0 <= i < self.attributes@.len() && self.attributes@[i].0@ == key@
                    && self.attributes@[i].1 == *v && (forall|k: int|
                    0 <= k < i ==> self.attributes@[k].0@ != key@),
    {
        find_entry(&self.attributes, key)
    }

    /// The relationship named `key`, if there is one.
    pub fn relationship(&self, key: &str) -> (rel: Option<&RelationshipObject>)
        ensures
            rel is Some <==> has_key(self.relationships@, key@),
            rel matches Some(r) ==> exists|i: int|
                0 <= i < self.relationships@.len() && self.relationships@[i].0@ == key@
                    && self.relationships@[i].1 == *r && (forall|k: int|
                    0 <= k < i ==> self.relationships@[k].0@ != key@),
    {
        find_entry(&self.relationships, key)
    }

    /// Remove attributes not present in `fields`, implementing JSON:API sparse fieldsets.
    /// Relationships are never filtered (per JSON:API spec).
    pub fn retain_fields(&mut self, fields: &Vec<String>)
        ensures
            final(self).attributes@ == sparse_attributes(old(self).attributes@, fields@),
            forall|i: int|
                0 <= i < final(self).attributes@.len() ==> is_requested(
                    fields@,
                    (#[trigger] final(self).attributes@[i]).0@,
                ) && exists|k: int|
                    0 <= k < old(self).attributes@.len() && final(self).attributes@[i]
                        == #[trigger] old(self).attributes@[k],
            forall|k: int|
                0 <= k < old(self).attributes@.len() && is_requested(
                    fields@,
                    (#[trigger] old(self).attributes@[k]).0@,
                ) ==> final(self).attributes@.contains(old(self).attributes@[k]),
            final(self).relationships == old(self).relationships,
            final(self).resource_type == old(self).resource_type,
            final(self).id == old(self).id,
            old(self).wf() ==> final(self).wf(),
    {
        let ghost orig = self.attributes@;
        let ghost pred = requested_entry(fields@);
        let ghost mut j: int = 0;
        let mut i: usize = 0;
        proof {
            reveal(Seq::filter);
            assert(orig.take(0).filter(pred) =~= Seq::<(String, serde_json::Value)>::empty());
            assert(self.attributes@ =~= orig.take(0).filter(pred) + orig.skip(0));
        }
        while i < self.attributes.len()
            invariant
                0 <= j <= orig.len(),
                i == orig.take(j).filter(pred).len(),
                self.attributes@ == orig.take(j).filter(pred) + orig.skip(j),
                self.attributes@.len() - i == orig.len() - j,
                keys_distinct(orig) ==> keys_distinct(self.attributes@),
                pred == requested_entry(fields@),
                self.relationships == old(self).relationships,
                self.resource_type == old(self).resource_type,
                self.id == old(self).id,
            decreases self.attributes.len() - i,
        {
            let keep = contains_field(fields, &self.attributes[i].0);
            proof {
                assert(self.attributes@[i as int] == orig[j]);
                assert(orig.take(j + 1).drop_last() =~= orig.take(j));
                assert(orig.take(j + 1).last() == orig[j]);
                reveal(Seq::filter);
            }
            let ghost before = self.attributes@;
            if keep {
                i += 1;
            } else {
                self.attributes.remove(i);
                proof {
                    assert forall|a: int, b: int|
                        keys_distinct(orig) && 0 <= a < b < self.attributes@.len() implies
                        #[trigger] self.attributes@[a].0@ != #[trigger] self.attributes@[b].0@ by {
                        let a2 = if a < i { a } else { a + 1 };
                        let b2 = if b < i { b } else { b + 1 };
                        assert(before[a2].0@ != before[b2].0@);
                    }
                }
            }
            proof {
                assert(self.attributes@ =~= orig.take(j + 1).filter(pred) + orig.skip(j + 1));
                j = j + 1;
            }
        }
        proof {
            assert(orig.take(j) =~= orig);
            assert(self.attributes@ =~= orig.filter(pred));
            let pos = lemma_sparse_attributes_select_entries(orig, fields@);
            let out = self.attributes@;
            assert forall|i: int| 0 <= i < out.len() implies is_requested(
                fields@,
                (#[trigger] out[i]).0@,
            ) && exists|k: int| 0 <= k < orig.len() && out[i] == #[trigger] orig[k] by {
                let k = pos(i);
                assert(out[i] == orig[k]);
                assert(exists|i2: int| 0 <= i2 < out.len() && #[trigger] pos(i2) == k);
            }
            assert forall|k: int|
                0 <= k < orig.len() && is_requested(fields@, (#[trigger] orig[k]).0@) implies
                out.contains(orig[k]) by {
                let i = choose|i: int| 0 <= i < out.len() && #[trigger] pos(i) == k;
                assert(out[i] == orig[k]);
            }
        }
    }
}

/// Applying the same sparse fieldset twice keeps what applying it once keeps.
pub proof fn lemma_sparse_attributes_idempotent(
    attributes: Seq<(String, serde_json::Value)>,
    fields: Seq<String>,
)
    ensures
        sparse_attributes(sparse_attributes(attributes, fields), fields) == sparse_attributes(
            attributes,
            fields,
        ),
    decreases attributes.len(),
{
    reveal(Seq::filter);
    if attributes.len() > 0 {
        lemma_sparse_attributes_idempotent(attributes.drop_last(), fields);
        let once = sparse_attributes(attributes, fields);
        if requested_entry(fields)(attributes.last()) {
            assert(once.drop_last() =~= sparse_attributes(attributes.drop_last(), fields));
        }
    }
}

/// After a sparse fieldset, an attribute is present exactly when it was present
/// before and its name is requested; its value and the order of the attributes
/// are those it had before (see `sparse_attributes`).
pub proof fn lemma_sparse_attributes_keys(
    attributes: Seq<(String, serde_json::Value)>,
    fields: Seq<String>,
    key: Seq<char>,
)
    ensures
        has_key(sparse_attributes(attributes, fields), key) <==> (has_key(attributes, key)
            && is_requested(fields, key)),
    decreases attributes.len(),
{
    reveal(Seq::filter);
    if attributes.len() > 0 {
        let rest = attributes.drop_last();
        lemma_sparse_attributes_keys(rest, fields, key);
        let out = sparse_attributes(attributes, fields);
        let sub = sparse_attributes(rest, fields);
        if has_key(out, key) {
            let i = choose|i: int| 0 <= i < out.len() && #[trigger] out[i].0@ == key;
            if i < sub.len() {
                assert(sub[i].0@ == key);
                let k = choose|k: int| 0 <= k < rest.len() && #[trigger] rest[k].0@ == key;
                assert(attributes[k].0@ == key);
            } else {
                assert(attributes[attributes.len() - 1].0@ == key);
            }
        }
        if has_key(attributes, key) && is_requested(fields, key) {
            let k = choose|k: int| 0 <= k < attributes.len() && #[trigger] attributes[k].0@ == key;
            if k < rest.len() {
                assert(rest[k].0@ == key);
                let i = choose|i: int| 0 <= i < sub.len() && #[trigger] sub[i].0@ == key;
                assert(out[i].0@ == key);
            } else {
                assert(out[out.len() - 1].0@ == key);
            }
        }
    }
}

/// An empty sparse fieldset removes every attribute; a sparse fieldset that
/// requests every attribute present removes none.
pub proof fn lemma_sparse_attributes_extremes(
    attributes: Seq<(String, serde_json::Value)>,
    fields: Seq<String>,
)
    ensures
        sparse_attributes(attributes, Seq::empty())
            == Seq::<(String, serde_json::Value)>::empty(),
        (forall|i: int|
            0 <= i < attributes.len() ==> is_requested(fields, #[trigger] attributes[i].0@))
            ==> sparse_attributes(attributes, fields) == attributes,
    decreases attributes.len(),
{
    reveal(Seq::filter);
    if attributes.len() > 0 {
        let rest = attributes.drop_last();
        lemma_sparse_attributes_extremes(rest, fields);
        if forall|i: int|
            0 <= i < attributes.len() ==> is_requested(fields, #[trigger] attributes[i].0@) {
            assert forall|i: int| 0 <= i < rest.len() implies is_requested(
                fields,
                #[trigger] rest[i].0@,
            ) by {
                assert(attributes[i].0@ == rest[i].0@);
            }
            assert(is_requested(fields, attributes[attributes.len() - 1].0@));
            assert(rest.push(attributes.last()) =~= attributes);
        }
    }
}

/// A JSON:API document with a single resource
#[derive(Debug)]
pub struct Document {
    pub data: ResourceObject,
}

/// A JSON:API document with a single resource and included sideloaded resources
#[derive(Debug)]
pub struct DocumentWithIncluded {
    pub data: ResourceObject,
    pub included: Vec<ResourceObject>,
}

/// A JSON:API document with a single resource and top-level `meta`.
#[derive(Debug)]
pub struct DocumentWithMeta {
    pub data: ResourceObject,
    pub meta: serde_json::Value,
}

/// Pagination metadata in the top-level `meta` object.
#[derive(Debug)]
pub struct PaginationMeta {
    pub page_number: u64,
    pub page_size: u64,
    pub total_pages: u64,
    pub total_items: u64,
}

/// JSON:API pagination links (`first`, `last`, `prev`, `next`).
#[derive(Debug)]
pub struct PaginationLinks {
    pub first: String,
    pub last: String,
    pub prev: Option<String>,
    pub next: Option<String>,
}

/// A JSON:API document with a paginated collection of resources
#[derive(Debug)]
pub struct PaginatedCollectionDocument {
    pub data: Vec<ResourceObject>,
    pub meta: PaginationMeta,
    pub links: PaginationLinks,
}

/// A JSON:API document with a paginated collection of resources and included sideloaded resources
#[derive(Debug)]
pub struct PaginatedCollectionWithIncludedDocument {
    pub data: Vec<ResourceObject>,
    pub included: Vec<ResourceObject>,
    pub meta: PaginationMeta,
    pub links: PaginationLinks,
}

/// A JSON:API error source — points to the input field that caused the error
#[derive(Debug)]
pub struct ErrorSource {
    /// JSON Pointer (RFC 6901) to the offending field, e.g. `/data/attributes/role`
    pub pointer: String,
}

/// A JSON:API error object
#[derive(Debug)]
pub struct ErrorObject {
    pub status: String,
    pub title: String,
    pub detail: Option<String>,
    pub source: Option<ErrorSource>,
    pub meta: Option<serde_json::Value>,
}

/// A JSON:API error document
#[derive(Debug)]
pub struct ErrorDocument {
    pub errors: Vec<ErrorObject>,
}

/// The JSON Pointer (RFC 6901) into a request body at the attribute `field`.
pub open spec fn attribute_pointer(field: Seq<char>) -> Seq<char> {
    "/data/attributes/"@ + field
}

/// The attribute pointer is the literal `/data/attributes/` followed by the whole
/// field name, unchanged.
pub proof fn lemma_attribute_pointer_shape(field: Seq<char>)
    ensures
        attribute_pointer(field) == "/data/attributes/"@ + field,
        attribute_pointer(field).len() == 17 + field.len(),
        attribute_pointer(field).subrange(17, 17 + field.len() as int) == field,
{
    reveal_strlit("/data/attributes/");
    assert(("/data/attributes/"@ + field).subrange(17, 17 + field.len() as int) =~= field);
}

/// An error object with the given status and title, and with no `meta`.
fn error_object(
    status: &str,
    title: &str,
    detail: Option<String>,
    source: Option<ErrorSource>,
) -> (error: ErrorObject)
    ensures
        error.status@ == status@,
        error.title@ == title@,
        error.detail == detail,
        error.source == source,
        error.meta is None,
{
    ErrorObject {
        status: String::from_str(status),
        title: String::from_str(title),
        detail,
        source,
        meta: None,
    }
}

impl ErrorDocument {
    /// The document holds exactly one error, with this status and title, no
    /// `source` and no `meta`.
    pub open spec fn is_single_error(self, status: Seq<char>, title: Seq<char>) -> bool {
        &&& self.errors@.len() == 1
        &&& self.errors@[0].status@ == status
        &&& self.errors@[0].title@ == title
        &&& self.errors@[0].source is None
        &&& self.errors@[0].meta is None
    }

    /// The single error of the document carries `detail@` as its `detail`.
    pub open spec fn has_detail(self, detail: Seq<char>) -> bool {
        &&& self.errors@.len() >= 1
        &&& self.errors@[0].detail matches Some(d)
        &&& d@ == detail
    }

    fn single(error: ErrorObject) -> (document: Self)
        ensures
            document.errors@ == seq![error],
    {
        let mut errors = Vec::new();
        errors.push(error);
        ErrorDocument { errors }
    }

    pub fn not_found() -> (document: Self)
        ensures
            document.is_single_error("404"@, "Not Found"@),
            document.errors@[0].detail is None,
    {
        Self::single(error_object("404", "Not Found", None, None))
    }

    pub fn unprocessable(detail: String) -> (document: Self)
        ensures
            document.is_single_error("422"@, "Unprocessable Entity"@),
            document.errors@[0].detail == Some(detail),
    {
        Self::single(error_object("422", "Unprocessable Entity", Some(detail), None))
    }

    /// 422 with a `source.pointer` pointing to a specific attribute field.
    pub fn unprocessable_field(field: &str, detail: String) -> (document: Self)
        ensures
            document.errors@.len() == 1,
            document.errors@[0].status@ == "422"@,
            document.errors@[0].title@ == "Unprocessable Entity"@,
            document.errors@[0].detail == Some(detail),
            document.errors@[0].source matches Some(source) && source.pointer@
                == attribute_pointer(field@),
            document.errors@[0].source matches Some(source) && source.pointer@
                == "/data/attributes/"@ + field@,
            document.errors@[0].meta is None,
    {
        proof {
            lemma_attribute_pointer_shape(field@);
        }
        let mut pointer = String::from_str("/data/attributes/");
        pointer.append(field);
        Self::single(
            error_object("422", "Unprocessable Entity", Some(detail), Some(ErrorSource { pointer })),
        )
    }

    pub fn unauthorized() -> (document: Self)
        ensures
            document.is_single_error("401"@, "Unauthorized"@),
            document.errors@[0].detail is None,
    {
        Self::single(error_object("401", "Unauthorized", None, None))
    }

    pub fn forbidden() -> (document: Self)
        ensures
            document.is_single_error("403"@, "Forbidden"@),
            document.errors@[0].detail is None,
    {
        Self::single(error_object("403", "Forbidden", None, None))
    }

    pub fn bad_request(detail: String) -> (document: Self)
        ensures
            document.is_single_error("400"@, "Bad Request"@),
            document.errors@[0].detail == Some(detail),
    {
        Self::single(error_object("400", "Bad Request", Some(detail), None))
    }

    pub fn internal(detail: String) -> (document: Self)
        ensures
            document.is_single_error("500"@, "Internal Server Error"@),
            document.errors@[0].detail == Some(detail),
    {
        Self::single(error_object("500", "Internal Server Error", Some(detail), None))
    }

    pub fn bad_gateway(detail: String) -> (document: Self)
        ensures
            document.is_single_error("502"@, "Bad Gateway"@),
            document.errors@[0].detail == Some(detail),
    {
        Self::single(error_object("502", "Bad Gateway", Some(detail), None))
    }

    pub fn too_many_requests() -> (document: Self)
        ensures
            document.is_single_error("429"@, "Too Many Requests"@),
            document.errors@[0].detail is None,
    {
        Self::single(error_object("429", "Too Many Requests", None, None))
    }

    pub fn service_unavailable() -> (document: Self)
        ensures
            document.is_single_error("503"@, "Service Unavailable"@),
            document.errors@[0].detail is None,
    {
        Self::single(error_object("503", "Service Unavailable", None, None))
    }

    pub fn unsupported_media_type() -> (document: Self)
        ensures
            document.is_single_error("415"@, "Unsupported Media Type"@),
            document.has_detail(
                "Requests with a body must use Content-Type: application/vnd.api+json"@,
            ),
    {
        Self::single(
            error_object(
                "415",
                "Unsupported Media Type",
                Some(
                    String::from_str(
                        "Requests with a body must use Content-Type: application/vnd.api+json",
                    ),
                ),
                None,
            ),
        )
    }

    pub fn not_acceptable() -> (document: Self)
        ensures
            document.is_single_error("406"@, "Not Acceptable"@),
            document.has_detail("Accept header must include application/vnd.api+json"@),
    {
        Self::single(
            error_object(
                "406",
                "Not Acceptable",
                Some(String::from_str("Accept header must include application/vnd.api+json")),
                None,
            ),
        )
    }
}

/// A sparse fieldset is an ordered selection from the attributes: the returned
/// `pos` maps each entry of the result to the position in the input it was taken
/// from. Each entry, name and value together, equals the input entry at that
/// position, positions increase, and the positions taken are exactly those whose
/// name is requested. No value moves from one name to another.
pub proof fn lemma_sparse_attributes_select_entries(
    attributes: Seq<(String, serde_json::Value)>,
    fields: Seq<String>,
) -> (pos: spec_fn(int) -> int)
    ensures
        forall|i: int|
            0 <= i < sparse_attributes(attributes, fields).len() ==> 0 <= #[trigger] pos(i)
                < attributes.len() && sparse_attributes(attributes, fields)[i]
                == attributes[pos(i)],
        forall|i: int, j: int|
            0 <= i < j < sparse_attributes(attributes, fields).len() ==> #[trigger] pos(i)
                < #[trigger] pos(j),
        forall|k: int|
            0 <= k < attributes.len() ==> (is_requested(fields, #[trigger] attributes[k].0@)
                <==> exists|i: int|
                0 <= i < sparse_attributes(attributes, fields).len() && #[trigger] pos(i) == k),
    decreases attributes.len(),
{
    reveal(Seq::filter);
    if attributes.len() == 0 {
        |i: int| 0int
    } else {
        let rest = attributes.drop_last();
        let last = attributes.len() - 1;
        let p0 = lemma_sparse_attributes_select_entries(rest, fields);
        let sub = sparse_attributes(rest, fields);
        let out = sparse_attributes(attributes, fields);
        assert(rest.filter(requested_entry(fields)) == sub);
        if is_requested(fields, attributes[last].0@) {
            let pos = |i: int| if i < sub.len() { p0(i) } else { last };
            assert(out == sub.push(attributes[last]));
            assert forall|k: int| 0 <= k < attributes.len() implies (is_requested(
                fields,
                #[trigger] attributes[k].0@,
            ) <==> exists|i: int| 0 <= i < out.len() && #[trigger] pos(i) == k) by {
                if k < last {
                    assert(attributes[k] == rest[k]);
                    if is_requested(fields, attributes[k].0@) {
                        let i = choose|i: int| 0 <= i < sub.len() && #[trigger] p0(i) == k;
                        assert(pos(i) == k);
                    }
                    if exists|i: int| 0 <= i < out.len() && #[trigger] pos(i) == k {
                        let i = choose|i: int| 0 <= i < out.len() && #[trigger] pos(i) == k;
                        assert(i < sub.len());
                        assert(p0(i) == k);
                    }
                } else {
                    assert(pos(sub.len() as int) == k);
                }
            }
            assert forall|i: int|
                0 <= i < out.len() implies 0 <= #[trigger] pos(i) < attributes.len()
                && out[i] == attributes[pos(i)] by {
                if i < sub.len() {
                    assert(sub[i] == rest[p0(i)]);
                }
            }
            assert forall|i: int, j: int| 0 <= i < j < out.len() implies #[trigger] pos(i)
                < #[trigger] pos(j) by {
                if j < sub.len() {
                    assert(p0(i) < p0(j));
                } else {
                    assert(p0(i) < rest.len());
                }
            }
            pos
        } else {
            assert(out == sub);
            assert forall|k: int| 0 <= k < attributes.len() implies (is_requested(
                fields,
                #[trigger] attributes[k].0@,
            ) <==> exists|i: int| 0 <= i < out.len() && #[trigger] p0(i) == k) by {
                if k < last {
                    assert(attributes[k] == rest[k]);
                } else {
                    if exists|i: int| 0 <= i < out.len() && #[trigger] p0(i) == k {
                        let i = choose|i: int| 0 <= i < out.len() && #[trigger] p0(i) == k;
                        assert(p0(i) < rest.len());
                    }
                }
            }
            assert forall|i: int|
                0 <= i < out.len() implies 0 <= #[trigger] p0(i) < attributes.len()
                && out[i] == attributes[p0(i)] by {
                assert(sub[i] == rest[p0(i)]);
            }
            p0
        }
    }
}

} // verus!
