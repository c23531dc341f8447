//! Addresses of the vector store, embedding, rerank and knowledge graph
//! services, and the checks made on their answers before the answers are used.
use vstd::prelude::*;
use crate::interop::{uuid_string, uuid_text};
use crate::text::{from_chars, to_chars, trim, trim_str};

verus! {

broadcast use vstd::string::group_string_axioms;

/// `s` without the slashes at its end.
pub open spec fn without_trailing_slashes(s: Seq<char>) -> Seq<char>
    decreases s.len(),
{
    if s.len() > 0 && s.last() == '/' {
        without_trailing_slashes(s.drop_last())
    } else {
        s
    }
}

/// How many characters of `s[..n]` stay once the slashes at its end go.
pub open spec fn kept_before_slashes(s: Seq<char>, n: int) -> int
    decreases n,
{
    if n > 0 && s[n - 1] == '/' {
        kept_before_slashes(s, n - 1)
    } else {
        n
    }
}

proof fn lemma_kept_before_slashes(s: Seq<char>, n: int)
    requires
        0 <= n <= s.len(),
    ensures
        0 <= kept_before_slashes(s, n) <= n,
        s.subrange(0, kept_before_slashes(s, n)) == without_trailing_slashes(s.subrange(0, n)),
    decreases n,
{
    let t = s.subrange(0, n);
    if n > 0 && s[n - 1] == '/' {
        lemma_kept_before_slashes(s, n - 1);
        assert(t.drop_last() =~= s.subrange(0, n - 1));
    }
}

/// A base address followed by a path, the base without its trailing slashes.
pub open spec fn service_address(base: Seq<char>, path: Seq<char>) -> Seq<char> {
    without_trailing_slashes(base) + path
}

/// Joins a service's base address and a path, dropping the slashes at the end
/// of the base so that the path's own slash is the only one.
pub fn service_url(base: &str, path: &str) -> (r: String)
    ensures
        r@ == service_address(base@, path@),
{
    let v = to_chars(base);
    let mut k = v.len();
    while k > 0 && v[k - 1] == '/'
        invariant
            k <= v.len(),
            v@ == base@,
            kept_before_slashes(base@, k as int) == kept_before_slashes(base@, v.len() as int),
        decreases k,
    {
        k -= 1;
    }
    proof {
        lemma_kept_before_slashes(base@, base@.len() as int);
        assert(base@.subrange(0, base@.len() as int) =~= base@);
    }
    let mut r = from_chars(&v, 0, k);
    r.append(path);
    r
}

/// The address of a vector collection.
pub fn collection_url(base: &str, collection: &str) -> (r: String)
    ensures
        r@ == service_address(base@, "/collections/"@ + collection@),
{
    let mut path = "/collections/".to_owned();
    path.append(collection);
    service_url(base, &path)
}

/// Where the embeddings of a text are asked for.
pub fn embeddings_url(base: &str) -> (r: String)
    ensures
        r@ == service_address(base@, "/embeddings"@),
{
    service_url(base, "/embeddings")
}

/// Where candidate documents are reranked.
pub fn rerank_url(base: &str) -> (r: String)
    ensures
        r@ == service_address(base@, "/rerank"@),
{
    service_url(base, "/rerank")
}

/// Why an embedding answer cannot be used.
#[derive(Debug, PartialEq, Eq, Structural)]
pub enum EmbeddingError {
    /// The answer held no vector at all.
    NoVectors,
    /// The first vector does not have the configured number of dimensions.
    DimensionMismatch { expected: usize, received: usize },
}

/// Where the smallest index first occurs among `indices[..n]` (0 when `n` is 0).
pub open spec fn first_smallest(indices: Seq<usize>, n: int) -> int
    decreases n,
{
    if n <= 1 {
        0
    } else {
        let best = first_smallest(indices, n - 1);
        if indices[n - 1] < indices[best] {
            n - 1
        } else {
            best
        }
    }
}

proof fn lemma_first_smallest(indices: Seq<usize>, n: int)
    requires
        1 <= n <= indices.len(),
    ensures
        0 <= first_smallest(indices, n) < n,
        forall|j: int| 0 <= j < n ==> indices[first_smallest(indices, n)] <= #[trigger] indices[j],
        forall|j: int| 0 <= j < first_smallest(indices, n) ==> indices[first_smallest(indices, n)] < #[trigger] indices[j],
    decreases n,
{
    if n > 1 {
        lemma_first_smallest(indices, n - 1);
    }
}

/// Picks the vector an embedding answer gives for the text: the one with the
/// smallest index (the first such one), which must have `dimensions` values.
/// `indices[i]` and `lengths[i]` are the index and length of the i-th vector.
/// The result is the position of the chosen vector.
pub fn choose_embedding(indices: &Vec<usize>, lengths: &Vec<usize>, dimensions: usize) -> (r: Result<usize, EmbeddingError>)
    requires
        indices.len() == lengths.len(),
    ensures
        indices.len() == 0 <==> r == Err::<usize, EmbeddingError>(EmbeddingError::NoVectors),
        indices.len() > 0 ==> {
            let chosen = first_smallest(indices@, indices.len() as int);
            &&& (forall|j: int| 0 <= j < indices.len() ==> indices[chosen] <= #[trigger] indices[j])
            &&& (forall|j: int| 0 <= j < chosen ==> indices[chosen] < #[trigger] indices[j])
            &&& r == if lengths[chosen] == dimensions {
                Ok::<usize, EmbeddingError>(chosen as usize)
            } else {
                Err(EmbeddingError::DimensionMismatch { expected: dimensions, received: lengths[chosen] })
            }
        },
{
    if indices.len() == 0 {
        return Err(EmbeddingError::NoVectors);
    }
    let mut best: usize = 0;
    let mut i: usize = 1;
    while i < indices.len()
        invariant
            1 <= i <= indices.len(),
            best < i,
            best as int == first_smallest(indices@, i as int),
        decreases indices.len() - i,
    {
        if indices[i] < indices[best] {
            best = i;
        }
        i += 1;
    }
    proof {
        lemma_first_smallest(indices@, indices.len() as int);
    }
    if lengths[best] == dimensions {
        Ok(best)
    } else {
        Err(EmbeddingError::DimensionMismatch { expected: dimensions, received: lengths[best] })
    }
}

/// How the knowledge graph service is reached: its base address, without
/// trailing slashes, and the token sent with each request.
pub struct GraphService {
    pub base_url: String,
    pub token: String,
}

/// The settings of the knowledge graph service: none when it is disabled; an
/// error naming the (trimmed) token variable when no token was found; else the
/// base address without its trailing slashes and the token.
pub fn graph_service(enabled: bool, token: Option<String>, token_env: &str, url: &str) -> (r: Result<Option<GraphService>, String>)
    ensures
        !enabled ==> r == Ok::<Option<GraphService>, String>(None),
        enabled && token is None ==> r is Err && r->Err_0@ == trim(token_env@) + " is missing or empty"@,
        enabled && token is Some ==> r is Ok && r->Ok_0 is Some && {
            let s = r->Ok_0->Some_0;
            &&& s.base_url@ == without_trailing_slashes(url@)
            &&& s.token == token->Some_0
        },
{
    if !enabled {
        return Ok(None);
    }
    match token {
        None => {
            let mut message = trim_str(token_env);
            message.append(" is missing or empty");
            Err(message)
        },
        Some(token) => {
            let base_url = service_url(url, "");
            proof {
                reveal_strlit("");
                assert(base_url@ =~= without_trailing_slashes(url@));
            }
            Ok(Some(GraphService { base_url, token }))
        },
    }
}

/// Where a message's episode is stored in the knowledge graph.
pub fn episode_url(base_url: &str, message_id: u128) -> (r: String)
    ensures
        r@ == base_url@ + "/v1/episodes/"@ + uuid_text(message_id),
{
    let mut r = base_url.to_owned();
    r.append("/v1/episodes/");
    let id = uuid_string(message_id);
    r.append(&id);
    r
}

/// Where a room's graph is read from the knowledge graph.
pub fn room_graph_url(base_url: &str, room_id: u128) -> (r: String)
    ensures
        r@ == base_url@ + "/v1/rooms/"@ + uuid_text(room_id) + "/graph"@,
{
    let mut r = base_url.to_owned();
    r.append("/v1/rooms/");
    let id = uuid_string(room_id);
    r.append(&id);
    r.append("/graph");
    r
}

} // verus!
