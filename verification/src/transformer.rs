//! The embedding model that turns text into vectors for semantic search.

use vstd::prelude::*;

verus! {

/// The endpoint of the local embedding service.
pub const EMBEDDINGS_URL: &'static str = "http://localhost:11434/api/embeddings";

/// An embedding model of the local embedding service, by name.
pub struct Model {
    pub name: String,
}

/// The body of an embedding request.
pub struct EmbeddingRequest {
    pub model: String,
    pub prompt: String,
}

impl Model {
    /// The model called `name`.
    pub fn new(name: &str) -> (m: Self)
        ensures
            m.name@ == name@,
    {
        Model { name: name.to_owned() }
    }

    /// The request that embeds `input` with this model.
    pub fn request(&self, input: &str) -> (r: EmbeddingRequest)
        ensures
            r.model@ == self.name@,
            r.prompt@ == input@,
    {
        EmbeddingRequest { model: self.name.clone(), prompt: input.to_owned() }
    }
}

} // verus!
