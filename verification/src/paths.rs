use vstd::prelude::*;
use vstd::string::*;

use crate::resource::JsonApiResource;

verus! {

/// The version prefix under which every API path lives.
pub open spec fn api_prefix() -> Seq<char> {
    "/api/v1"@
}

/// `/api/v1/{resource_type}`
pub open spec fn spec_collection_path(resource_type: Seq<char>) -> Seq<char> {
    api_prefix() + "/"@ + resource_type
}

/// `/api/v1/{resource_type}/{id}`
pub open spec fn spec_resource_path(resource_type: Seq<char>, id: Seq<char>) -> Seq<char> {
    api_prefix() + "/"@ + resource_type + "/"@ + id
}

/// `/{resource_type}`
pub open spec fn spec_route_collection(resource_type: Seq<char>) -> Seq<char> {
    "/"@ + resource_type
}

/// `/{resource_type}/{id}`, where `{id}` stays a literal route parameter.
pub open spec fn spec_route_resource(resource_type: Seq<char>) -> Seq<char> {
    "/"@ + resource_type + "/{id}"@
}

/// Build the collection path for a resource type string, e.g. `/api/v1/media-sets`.
pub fn collection_path_for_type(resource_type: &str) -> (path: String)
    ensures
        path@ == spec_collection_path(resource_type@),
        path@ == "/api/v1/"@ + resource_type@,
{
    proof {
        lemma_path_shapes(resource_type@, Seq::empty());
    }
    let mut path = String::from_str("/api/v1");
    path.append("/");
    path.append(resource_type);
    path
}

/// Build the item path for a resource type string, e.g. `/api/v1/media-sets/{id}`.
pub fn resource_path_for_type(resource_type: &str, id: &str) -> (path: String)
    ensures
        path@ == spec_resource_path(resource_type@, id@),
        path@ == "/api/v1/"@ + resource_type@ + "/"@ + id@,
{
    proof {
        lemma_path_shapes(resource_type@, id@);
    }
    let mut path = String::from_str("/api/v1");
    path.append("/");
    path.append(resource_type);
    path.append("/");
    path.append(id);
    path
}

/// Build the collection path from a `JsonApiResource` type, e.g. `/api/v1/media-sets`.
pub fn collection_path<T: JsonApiResource>() -> (path: String)
    ensures
        path@ == spec_collection_path(T::RESOURCE_TYPE@),
        path@ == "/api/v1/"@ + T::RESOURCE_TYPE@,
{
    collection_path_for_type(T::RESOURCE_TYPE)
}

/// Build the item path from a `JsonApiResource` type, e.g. `/api/v1/media-sets/{id}`.
pub fn resource_path<T: JsonApiResource>(id: &str) -> (path: String)
    ensures
        path@ == spec_resource_path(T::RESOURCE_TYPE@, id@),
        path@ == "/api/v1/"@ + T::RESOURCE_TYPE@ + "/"@ + id@,
{
    resource_path_for_type(T::RESOURCE_TYPE, id)
}

/// Build a route collection path (no API prefix), e.g. `/media-sets`.
pub fn route_collection(resource_type: &str) -> (path: String)
    ensures
        path@ == spec_route_collection(resource_type@),
        path@ == "/"@ + resource_type@,
{
    let mut path = String::from_str("/");
    path.append(resource_type);
    path
}

/// Build a route item path (no API prefix), e.g. `/media-sets/{id}`.
pub fn route_resource(resource_type: &str) -> (path: String)
    ensures
        path@ == spec_route_resource(resource_type@),
        path@ == "/"@ + resource_type@ + "/{id}"@,
{
    let mut path = String::from_str("/");
    path.append(resource_type);
    path.append("/{id}");
    path
}

/// An item path is its collection path followed by `/` and the id.
pub proof fn lemma_resource_path_extends_collection_path(resource_type: Seq<char>, id: Seq<char>)
    ensures
        spec_resource_path(resource_type, id) == spec_collection_path(resource_type) + "/"@ + id,
{
}

/// The API paths are the route paths with the version prefix in front, and the
/// route item path is the route collection path followed by the `{id}` parameter.
pub proof fn lemma_api_paths_are_prefixed_routes(resource_type: Seq<char>)
    ensures
        spec_collection_path(resource_type) == api_prefix() + spec_route_collection(
            resource_type,
        ),
        spec_route_resource(resource_type) == spec_route_collection(resource_type) + "/{id}"@,
{
    assert(spec_collection_path(resource_type) =~= api_prefix() + spec_route_collection(
        resource_type,
    ));
}

/// Every path that this module builds is absolute: it starts with `/`, so it can be
/// joined directly onto a base URL.
pub proof fn lemma_paths_are_absolute(resource_type: Seq<char>, id: Seq<char>)
    ensures
        spec_collection_path(resource_type).len() > 0,
        spec_collection_path(resource_type)[0] == '/',
        spec_resource_path(resource_type, id).len() > 0,
        spec_resource_path(resource_type, id)[0] == '/',
        spec_route_collection(resource_type).len() > 0,
        spec_route_collection(resource_type)[0] == '/',
        spec_route_resource(resource_type).len() > 0,
        spec_route_resource(resource_type)[0] == '/',
{
    reveal_strlit("/api/v1");
    reveal_strlit("/");
    reveal_strlit("/{id}");
}

/// The paths are the literal prefix, the resource type unchanged, and the id
/// unchanged: `/api/v1/{type}`, `/api/v1/{type}/{id}`, `/{type}` and
/// `/{type}/{id}` with a literal `{id}`. The resource type stands whole at a fixed
/// position, and each path is exactly as long as its parts.
pub proof fn lemma_path_shapes(resource_type: Seq<char>, id: Seq<char>)
    ensures
        spec_collection_path(resource_type) == "/api/v1/"@ + resource_type,
        spec_resource_path(resource_type, id) == "/api/v1/"@ + resource_type + "/"@ + id,
        spec_route_collection(resource_type) == "/"@ + resource_type,
        spec_route_resource(resource_type) == "/"@ + resource_type + "/{id}"@,
        spec_collection_path(resource_type).len() == 8 + resource_type.len() as int,
        spec_collection_path(resource_type).subrange(8, 8 + resource_type.len() as int)
            == resource_type,
        spec_resource_path(resource_type, id).len() == 9 + resource_type.len() as int + id.len() as int,
        spec_resource_path(resource_type, id).subrange(8, 8 + resource_type.len() as int)
            == resource_type,
        spec_resource_path(resource_type, id)[8 + resource_type.len() as int] == '/',
        spec_resource_path(resource_type, id).subrange(
            9 + resource_type.len() as int,
            9 + resource_type.len() as int + id.len() as int,
        ) == id,
        spec_route_collection(resource_type).len() == 1 + resource_type.len() as int,
        spec_route_collection(resource_type).subrange(1, 1 + resource_type.len() as int)
            == resource_type,
        spec_route_resource(resource_type).len() == 6 + resource_type.len() as int,
        spec_route_resource(resource_type).subrange(1, 1 + resource_type.len() as int)
            == resource_type,
{
    reveal_strlit("/api/v1");
    reveal_strlit("/api/v1/");
    reveal_strlit("/");
    reveal_strlit("/{id}");
    let p: Seq<char> = "/api/v1/"@;
    assert(api_prefix() + "/"@ =~= p);
    assert(spec_collection_path(resource_type) =~= p + resource_type);
    assert(spec_resource_path(resource_type, id) =~= p + resource_type + "/"@ + id);
    assert((p + resource_type).subrange(8, 8 + resource_type.len() as int) =~= resource_type);
    assert((p + resource_type + "/"@ + id).subrange(8, 8 + resource_type.len() as int)
        =~= resource_type);
    assert((p + resource_type + "/"@ + id).subrange(
        9 + resource_type.len() as int,
        9 + resource_type.len() as int + id.len() as int,
    ) =~= id);
    assert(("/"@ + resource_type).subrange(1, 1 + resource_type.len() as int) =~= resource_type);
    assert(("/"@ + resource_type + "/{id}"@).subrange(1, 1 + resource_type.len() as int)
        =~= resource_type);
}

} // verus!
