//! A tool that queries an external vector database.
use vstd::prelude::*;
use vstd::string::*;

verus! {

/// The kinds of vector database the lookup tool can query.
#[derive(Debug, Clone, Copy, PartialEq, Eq, Structural)]
pub enum VectorProvider {
    Chroma,
    Qdrant,
    Milvus,
}

/// Retrieves context from a vector database.
#[derive(Debug)]
pub struct VectorLookup {
    provider: VectorProvider,
    base_url: String,
}

/// The search endpoint of each kind of database on the server `base`.
pub open spec fn search_endpoint(provider: VectorProvider, base: Seq<char>) -> Seq<char> {
    match provider {
        VectorProvider::Chroma => base + "/api/v1/collections/default/query"@,
        VectorProvider::Qdrant => base + "/collections/default/points/search"@,
        VectorProvider::Milvus => base + "/v1/vector/search"@,
    }
}

impl VectorLookup {
    /// The kind of database queried.
    pub closed spec fn kind(&self) -> VectorProvider {
        self.provider
    }

    /// The server queried.
    pub closed spec fn server(&self) -> Seq<char> {
        self.base_url@
    }

    /// A lookup tool for the database of kind `provider` at `url`.
    pub fn new(provider: VectorProvider, url: &str) -> (tool: Self)
        ensures
            tool.kind() == provider,
            tool.server() == url@,
    {
        VectorLookup { provider, base_url: url.to_string() }
    }

    /// The kind of database queried.
    pub fn provider(&self) -> (provider: VectorProvider)
        ensures
            provider == self.kind(),
    {
        self.provider
    }

    /// The tool's name.
    pub fn name(&self) -> (name: &'static str)
        ensures
            name@ == "vector_lookup"@,
    {
        "vector_lookup"
    }

    /// What the tool does.
    pub fn description(&self) -> (text: &'static str)
        ensures
            text@ == "Retrieve relevant context from external vector databases like Chroma, Qdrant, or Milvus."@,
    {
        "Retrieve relevant context from external vector databases like Chroma, Qdrant, or Milvus."
    }

    /// The URL to send the search to.
    pub fn endpoint_url(&self) -> (url: String)
        ensures
            url@ == search_endpoint(self.kind(), self.server()),
    {
        let mut url = self.base_url.clone();
        match self.provider {
            VectorProvider::Chroma => url.append("/api/v1/collections/default/query"),
            VectorProvider::Qdrant => url.append("/collections/default/points/search"),
            VectorProvider::Milvus => url.append("/v1/vector/search"),
        }
        url
    }
}

} // verus!
