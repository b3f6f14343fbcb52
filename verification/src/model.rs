//! The news records that the API stores, publishes and lists.

use vstd::prelude::*;
use crate::chunk::{chunk_text, chunks_of};

verus! {

/// An embedding vector, computed by an embedding model and carried through unchanged.
#[verifier::external_type_specification]
#[verifier::external_body]
pub struct ExVector(pgvector::Vector);

/// A date and time without a time zone, as a news source or an API client gives it.
#[derive(Clone, Copy, Debug, PartialEq, Eq, Structural)]
pub struct Timestamp {
    pub year: i32,
    pub month: u32,
    pub day: u32,
    pub hour: u32,
    pub minute: u32,
    pub second: u32,
    pub nanosecond: u32,
}

/// The views of a list of strings.
pub open spec fn strings_view(v: Seq<String>) -> Seq<Seq<char>> {
    v.map_values(|s: String| s@)
}

/// A copy of a list of strings.
pub fn copy_strings(v: &Vec<String>) -> (r: Vec<String>)
    ensures
        strings_view(r@) == strings_view(v@),
{
    let mut r: Vec<String> = Vec::new();
    let mut i: usize = 0;
    while i < v.len()
        invariant
            0 <= i <= v.len(),
            strings_view(r@) == strings_view(v@).take(i as int),
        decreases v.len() - i,
    {
        let ghost before = r@;
        r.push(v[i].clone());
        assert(strings_view(r@) =~= strings_view(before).push(v@[i as int]@));
        assert(strings_view(v@).take(i + 1) =~= strings_view(v@).take(i as int).push(
            v@[i as int]@,
        ));
        i = i + 1;
    }
    assert(strings_view(v@).take(v.len() as int) =~= strings_view(v@));
    r
}

/// A stored news item.
pub struct News {
    pub id: i32,
    pub title: String,
    pub pub_date: Timestamp,
    pub sources: Vec<String>,
    pub content: String,
}

impl News {
    /// A news item with the given fields.
    pub fn new(
        id: i32,
        title: String,
        pub_date: Timestamp,
        sources: Vec<String>,
        content: String,
    ) -> (n: Self)
        ensures
            n.id == id,
            n.title@ == title@,
            n.pub_date == pub_date,
            n.sources@ == sources@,
            n.content@ == content@,
    {
        News { id, title, pub_date, sources, content }
    }

    /// The item's id.
    pub fn id(&self) -> (r: i32)
        ensures
            r == self.id,
    {
        self.id
    }
}

/// A news item as a client submits it for publication.
pub struct NewsInput {
    pub title: String,
    pub pub_date: Timestamp,
    pub sources: Vec<String>,
    pub content: String,
}

impl NewsInput {
    /// The article content.
    pub fn get_content(&self) -> (r: &str)
        ensures
            r@ == self.content@,
    {
        self.content.as_str()
    }

    /// Text used for content-based semantic search: the article content, chunked by
    /// `chunk_text` so that long articles do not exceed the model's context window.
    pub fn search_chunks(&self, max_chars: usize) -> (r: Vec<String>)
        ensures
            strings_view(r@) == chunks_of(self.content@, max_chars as nat),
    {
        chunk_text(self.content.as_str(), max_chars)
    }
}

/// The fields of a news item to be stored.
pub struct NewsData {
    pub title: String,
    pub pub_date: Timestamp,
    pub sources: Vec<String>,
    pub content: String,
}

impl NewsData {
    /// The data to store for a submitted item: a copy of its fields.
    pub fn new(input: &NewsInput) -> (d: Self)
        ensures
            d.title@ == input.title@,
            d.pub_date == input.pub_date,
            strings_view(d.sources@) == strings_view(input.sources@),
            d.content@ == input.content@,
    {
        NewsData {
            title: input.title.clone(),
            pub_date: input.pub_date,
            sources: copy_strings(&input.sources),
            content: input.content.clone(),
        }
    }
}

/// A chunk of searchable text paired with its embedding, ready to be stored once the
/// news item it belongs to has an id.
pub struct ChunkInput {
    pub chunk_index: i32,
    pub chunk_text: String,
    pub chunk_v: pgvector::Vector,
}

/// A stored chunk of a news item.
pub struct NewsChunkData {
    pub news_id: i32,
    pub chunk_index: i32,
    pub chunk_text: String,
    pub chunk_v: pgvector::Vector,
}

impl NewsChunkData {
    /// The stored form of `chunk`, attached to the news item `news_id`.
    pub fn new(news_id: i32, chunk: ChunkInput) -> (d: Self)
        ensures
            d.news_id == news_id,
            d.chunk_index == chunk.chunk_index,
            d.chunk_text@ == chunk.chunk_text@,
            d.chunk_v == chunk.chunk_v,
    {
        NewsChunkData {
            news_id,
            chunk_index: chunk.chunk_index,
            chunk_text: chunk.chunk_text,
            chunk_v: chunk.chunk_v,
        }
    }
}

/// The query of a listing request.
pub struct QueryParams {
    /// Maximum number of results to return (defaults to 100).
    pub limit: Option<u8>,
    /// Semantic search query; when present, results are ordered by embedding similarity.
    pub search: Option<String>,
}

/// What the repository is asked to list.
pub struct ListParams {
    pub limit: u8,
    pub search: Option<pgvector::Vector>,
}

/// The number of items listed when a request names no limit.
pub const DEFAULT_LIMIT: u8 = 100;

impl ListParams {
    /// The listing parameters for a request's `limit` and the embedding of its
    /// search query, if it has one.
    pub fn from_query(limit: Option<u8>, search: Option<pgvector::Vector>) -> (p: Self)
        ensures
            p.limit == (match limit {
                Some(l) => l,
                None => DEFAULT_LIMIT,
            }),
            p.search == search,
    {
        ListParams { limit: limit.unwrap_or(DEFAULT_LIMIT), search }
    }
}

/// The chunks of a news item paired with their embeddings: `texts[k]` with
/// `vectors[k]`, numbered by position.
pub fn chunk_inputs(texts: Vec<String>, vectors: Vec<pgvector::Vector>) -> (r: Vec<ChunkInput>)
    requires
        texts.len() == vectors.len(),
    ensures
        r@.len() == texts@.len(),
        forall|k: int|
            0 <= k < r@.len() ==> (#[trigger] r@[k]).chunk_index == k as i32 && r@[k].chunk_text
                == texts@[k] && r@[k].chunk_v == vectors@[k],
{
    let ghost all_texts = texts@;
    let ghost all_vectors = vectors@;
    let n = texts.len();
    let mut texts = texts;
    let mut vectors = vectors;
    let mut out: Vec<ChunkInput> = Vec::new();
    let mut k: usize = 0;
    assert(all_texts.skip(0) =~= all_texts);
    assert(all_vectors.skip(0) =~= all_vectors);
    while texts.len() > 0
        invariant
            all_texts.len() == all_vectors.len(),
            all_texts.len() == n,
            0 <= k <= all_texts.len(),
            texts@ == all_texts.skip(k as int),
            vectors@ == all_vectors.skip(k as int),
            out@.len() == k,
            forall|j: int|
                0 <= j < k ==> (#[trigger] out@[j]).chunk_index == j as i32 && out@[j].chunk_text
                    == all_texts[j] && out@[j].chunk_v == all_vectors[j],
        decreases texts.len(),
    {
        let text = texts.remove(0);
        let v = vectors.remove(0);
        out.push(ChunkInput { chunk_index: k as i32, chunk_text: text, chunk_v: v });
        assert(texts@ =~= all_texts.skip(k + 1));
        assert(vectors@ =~= all_vectors.skip(k + 1));
        k = k + 1;
    }
    out
}

/// The stored rows of the chunks of the news item `news_id`, in order.
pub fn chunk_rows(news_id: i32, chunks: Vec<ChunkInput>) -> (r: Vec<NewsChunkData>)
    ensures
        r@.len() == chunks@.len(),
        forall|k: int|
            0 <= k < r@.len() ==> (#[trigger] r@[k]).news_id == news_id && r@[k].chunk_index
                == chunks@[k].chunk_index && r@[k].chunk_text@ == chunks@[k].chunk_text@
                && r@[k].chunk_v == chunks@[k].chunk_v,
{
    let ghost all = chunks@;
    let n = chunks.len();
    let mut rest = chunks;
    let mut out: Vec<NewsChunkData> = Vec::new();
    let mut k: usize = 0;
    assert(all.skip(0) =~= all);
    while rest.len() > 0
        invariant
            all.len() == n,
            0 <= k <= all.len(),
            rest@ == all.skip(k as int),
            out@.len() == k,
            forall|j: int|
                0 <= j < k ==> (#[trigger] out@[j]).news_id == news_id && out@[j].chunk_index
                    == all[j].chunk_index && out@[j].chunk_text@ == all[j].chunk_text@
                    && out@[j].chunk_v == all[j].chunk_v,
        decreases rest.len(),
    {
        let chunk = rest.remove(0);
        out.push(NewsChunkData::new(news_id, chunk));
        assert(rest@ =~= all.skip(k + 1));
        k = k + 1;
    }
    out
}

} // verus!
