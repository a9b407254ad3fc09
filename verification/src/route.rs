//! The routing table: which operation a method and a path ask for.

use crate::text::{chars_of, join2, join3};
use vstd::prelude::*;
use vstd::string::StrSliceExecFns;

verus! {

/// The path parted at every `/`: as many segments as the path has slashes,
/// and one more. A segment may be empty.
pub open spec fn segments(path: Seq<char>) -> Seq<Seq<char>>
    decreases path.len(),
{
    if path.len() == 0 {
        seq![Seq::empty()]
    } else {
        let before = segments(path.drop_last());
        if path.last() == '/' {
            before.push(Seq::empty())
        } else {
            before.drop_last().push(before.last().push(path.last()))
        }
    }
}

/// A path always has a segment, and its last segment is what follows its
/// last slash.
pub proof fn lemma_segments(path: Seq<char>)
    ensures
        segments(path).len() >= 1,
        segments(path).last().len() <= path.len(),
        segments(path).last() == path.subrange(
            path.len() - segments(path).last().len(),
            path.len() as int,
        ),
    decreases path.len(),
{
    if path.len() > 0 {
        let front = path.drop_last();
        lemma_segments(front);
        let before = segments(front);
        if path.last() == '/' {
            assert(segments(path).last() =~= path.subrange(path.len() as int, path.len() as int));
        } else {
            let start = front.len() - before.last().len();
            assert(before.last().push(path.last()) =~= path.subrange(start, path.len() as int)) by {
                assert(before.last() == front.subrange(start, front.len() as int));
            }
        }
    } else {
        assert(segments(path).last() =~= path.subrange(0, 0));
    }
}

/// The texts of a list of string slices.
pub open spec fn slices(parts: Seq<&str>) -> Seq<Seq<char>> {
    parts.map_values(|s: &str| s@)
}

/// Parts a path at every `/`.
pub fn split_path<'a>(path: &'a str) -> (r: Vec<&'a str>)
    ensures
        slices(r@) == segments(path@),
{
    let chars = chars_of(path);
    let mut out: Vec<&'a str> = Vec::new();
    let mut start: usize = 0;
    let mut i: usize = 0;
    proof {
        assert(chars@.take(0) =~= Seq::<char>::empty());
        assert(slices(out@) =~= segments(chars@.take(0)).drop_last());
    }
    while i < chars.len()
        invariant
            i <= chars.len(),
            start <= i,
            chars@ == path@,
            slices(out@) == segments(chars@.take(i as int)).drop_last(),
            segments(chars@.take(i as int)).last() == chars@.subrange(start as int, i as int),
            segments(chars@.take(i as int)).len() >= 1,
        decreases chars.len() - i,
    {
        let ghost upto = chars@.take(i as int);
        let ghost next = chars@.take(i + 1);
        proof {
            assert(next.drop_last() =~= upto);
            assert(next.last() == chars@[i as int]);
            lemma_segments(next);
        }
        if chars[i] == '/' {
            let part = path.substring_char(start, i);
            let ghost prior = out@;
            out.push(part);
            start = i + 1;
            proof {
                assert(slices(out@) =~= slices(prior).push(part@));
                assert(segments(next).drop_last() =~= segments(upto));
                assert(segments(upto) =~= segments(upto).drop_last().push(segments(upto).last()));
                assert(segments(next).last() =~= chars@.subrange(start as int, i + 1));
            }
        } else {
            proof {
                assert(segments(next).drop_last() =~= segments(upto).drop_last());
                assert(segments(next).last() =~= chars@.subrange(start as int, i + 1));
            }
        }
        i = i + 1;
    }
    let part = path.substring_char(start, i);
    proof {
        let ghost prior = out@;
        assert(chars@.take(i as int) =~= chars@);
        let all = segments(path@);
        assert(all =~= all.drop_last().push(all.last()));
        assert(slices(prior.push(part)) =~= slices(prior).push(part@));
    }
    out.push(part);
    out
}

/// The method of a request.
#[derive(Clone, Copy, Debug, PartialEq, Eq, Structural)]
pub enum Method {
    Get,
    Post,
    Put,
    Delete,
    Other,
}

/// What a request asks for.
#[derive(Clone, Copy, Debug, PartialEq, Eq, Structural)]
pub enum Endpoint {
    CreateNode,
    ListNodes,
    GetNode,
    UpdateNode,
    DeleteNode,
    RelatedNodes,
    CreateEdge,
    GetEdge,
    UpdateEdge,
    DeleteEdge,
    CreateEntities,
    CreateRelations,
    AddObservations,
    DeleteEntities,
    DeleteObservations,
    DeleteRelations,
    Search,
    Open,
    ReadGraph,
    NotFound,
}

/// The endpoint under a method and the segments of a path. The first
/// segment is empty: a path begins with a slash.
pub open spec fn endpoint_of(method: Method, parts: Seq<Seq<char>>) -> Endpoint {
    if parts.len() < 2 || parts[0] != Seq::<char>::empty() {
        Endpoint::NotFound
    } else if parts.len() == 2 {
        if parts[1] == "nodes"@ && method == Method::Post {
            Endpoint::CreateNode
        } else if parts[1] == "nodes"@ && method == Method::Get {
            Endpoint::ListNodes
        } else if parts[1] == "edges"@ && method == Method::Post {
            Endpoint::CreateEdge
        } else if parts[1] == "state"@ && method == Method::Get {
            Endpoint::ReadGraph
        } else {
            Endpoint::NotFound
        }
    } else if parts.len() == 3 {
        if parts[1] == "nodes"@ {
            match method {
                Method::Get => Endpoint::GetNode,
                Method::Put => Endpoint::UpdateNode,
                Method::Delete => Endpoint::DeleteNode,
                _ => Endpoint::NotFound,
            }
        } else if parts[1] == "edges"@ {
            match method {
                Method::Get => Endpoint::GetEdge,
                Method::Put => Endpoint::UpdateEdge,
                Method::Delete => Endpoint::DeleteEdge,
                _ => Endpoint::NotFound,
            }
        } else if parts[1] == "graph"@ {
            if parts[2] == "entities"@ && method == Method::Post {
                Endpoint::CreateEntities
            } else if parts[2] == "relations"@ && method == Method::Post {
                Endpoint::CreateRelations
            } else if parts[2] == "search"@ && method == Method::Post {
                Endpoint::Search
            } else if parts[2] == "open"@ && method == Method::Post {
                Endpoint::Open
            } else if parts[2] == "state"@ && method == Method::Get {
                Endpoint::ReadGraph
            } else {
                Endpoint::NotFound
            }
        } else {
            Endpoint::NotFound
        }
    } else if parts.len() == 4 {
        if parts[1] == "nodes"@ && parts[3] == "related"@ && method == Method::Get {
            Endpoint::RelatedNodes
        } else if parts[1] == "graph"@ && method == Method::Post {
            if parts[2] == "observations"@ && parts[3] == "add"@ {
                Endpoint::AddObservations
            } else if parts[2] == "entities"@ && parts[3] == "delete"@ {
                Endpoint::DeleteEntities
            } else if parts[2] == "observations"@ && parts[3] == "delete"@ {
                Endpoint::DeleteObservations
            } else if parts[2] == "relations"@ && parts[3] == "delete"@ {
                Endpoint::DeleteRelations
            } else {
                Endpoint::NotFound
            }
        } else {
            Endpoint::NotFound
        }
    } else {
        Endpoint::NotFound
    }
}

/// Whether requests to an endpoint name a node or an edge in their path.
pub open spec fn names_an_id(endpoint: Endpoint) -> bool {
    match endpoint {
        Endpoint::GetNode
        | Endpoint::UpdateNode
        | Endpoint::DeleteNode
        | Endpoint::RelatedNodes
        | Endpoint::GetEdge
        | Endpoint::UpdateEdge
        | Endpoint::DeleteEdge => true,
        _ => false,
    }
}

/// The id that a path names: its third segment, for the endpoints that
/// name one; the empty text for the others.
pub open spec fn id_of_path(method: Method, parts: Seq<Seq<char>>) -> Seq<char> {
    if names_an_id(endpoint_of(method, parts)) {
        parts[2]
    } else {
        Seq::empty()
    }
}

/// An endpoint and the id that the path names for it.
#[derive(Debug, PartialEq, Eq)]
pub struct Route {
    pub endpoint: Endpoint,
    pub id: String,
}

/// The route of a request.
pub fn route(method: Method, path: &str) -> (r: Route)
    ensures
        r.endpoint == endpoint_of(method, segments(path@)),
        r.id@ == id_of_path(method, segments(path@)),
{
    let parts = split_path(path);
    let ghost wanted = segments(path@);
    assert(forall|k: int| 0 <= k < parts.len() ==> (#[trigger] parts@[k])@ == wanted[k]);
    let endpoint = if parts.len() < 2 || !(parts[0].unicode_len() == 0) {
        proof {
            if parts.len() >= 2 && parts@[0]@.len() != 0 {
                assert(wanted[0] != Seq::<char>::empty());
            }
            if parts.len() >= 2 && parts@[0]@.len() == 0 {
                assert(wanted[0] =~= Seq::<char>::empty());
            }
        }
        Endpoint::NotFound
    } else if parts.len() == 2 {
        assert(wanted[0] =~= Seq::<char>::empty());
        let is_post = method == Method::Post;
        let is_get = method == Method::Get;
        if *parts[1] == *"nodes" && is_post {
            Endpoint::CreateNode
        } else if *parts[1] == *"nodes" && is_get {
            Endpoint::ListNodes
        } else if *parts[1] == *"edges" && is_post {
            Endpoint::CreateEdge
        } else if *parts[1] == *"state" && is_get {
            Endpoint::ReadGraph
        } else {
            Endpoint::NotFound
        }
    } else if parts.len() == 3 {
        assert(wanted[0] =~= Seq::<char>::empty());
        if *parts[1] == *"nodes" {
            match method {
                Method::Get => Endpoint::GetNode,
                Method::Put => Endpoint::UpdateNode,
                Method::Delete => Endpoint::DeleteNode,
                _ => Endpoint::NotFound,
            }
        } else if *parts[1] == *"edges" {
            match method {
                Method::Get => Endpoint::GetEdge,
                Method::Put => Endpoint::UpdateEdge,
                Method::Delete => Endpoint::DeleteEdge,
                _ => Endpoint::NotFound,
            }
        } else if *parts[1] == *"graph" {
            let is_post = method == Method::Post;
            if *parts[2] == *"entities" && is_post {
                Endpoint::CreateEntities
            } else if *parts[2] == *"relations" && is_post {
                Endpoint::CreateRelations
            } else if *parts[2] == *"search" && is_post {
                Endpoint::Search
            } else if *parts[2] == *"open" && is_post {
                Endpoint::Open
            } else if *parts[2] == *"state" && method == Method::Get {
                Endpoint::ReadGraph
            } else {
                Endpoint::NotFound
            }
        } else {
            Endpoint::NotFound
        }
    } else if parts.len() == 4 {
        assert(wanted[0] =~= Seq::<char>::empty());
        if *parts[1] == *"nodes" && *parts[3] == *"related" && method == Method::Get {
            Endpoint::RelatedNodes
        } else if *parts[1] == *"graph" && method == Method::Post {
            if *parts[2] == *"observations" && *parts[3] == *"add" {
                Endpoint::AddObservations
            } else if *parts[2] == *"entities" && *parts[3] == *"delete" {
                Endpoint::DeleteEntities
            } else if *parts[2] == *"observations" && *parts[3] == *"delete" {
                Endpoint::DeleteObservations
            } else if *parts[2] == *"relations" && *parts[3] == *"delete" {
                Endpoint::DeleteRelations
            } else {
                Endpoint::NotFound
            }
        } else {
            Endpoint::NotFound
        }
    } else {
        assert(wanted[0] =~= Seq::<char>::empty());
        Endpoint::NotFound
    };
    let id = match endpoint {
        Endpoint::GetNode
        | Endpoint::UpdateNode
        | Endpoint::DeleteNode
        | Endpoint::RelatedNodes
        | Endpoint::GetEdge
        | Endpoint::UpdateEdge
        | Endpoint::DeleteEdge => parts[2].to_owned(),
        _ => String::new(),
    };
    Route { endpoint, id }
}

/// The address under which a request is passed on to the graph: the path
/// after a fixed host, then the query behind a `?` where there is one and
/// it is not empty.
pub open spec fn forwarded(path: Seq<char>, query: Option<Seq<char>>) -> Seq<char> {
    let address = "https://durable-object.internal-url/"@ + path;
    match query {
        Some(q) => if q.len() > 0 {
            address + "?"@ + q
        } else {
            address
        },
        None => address,
    }
}

/// The query of an optional string slice.
pub open spec fn optional_query(query: Option<&str>) -> Option<Seq<char>> {
    match query {
        Some(q) => Some(q@),
        None => None,
    }
}

/// The address under which a request for `path`, with its query, is passed
/// on to the graph.
pub fn forward_url(path: &str, query: Option<&str>) -> (r: String)
    ensures
        r@ == forwarded(path@, optional_query(query)),
{
    let address = join2("https://durable-object.internal-url/", path);
    match query {
        Some(q) => {
            if q.is_empty() {
                address
            } else {
                join3(address.as_str(), "?", q)
            }
        },
        None => address,
    }
}

} // verus!
