//! Vector memory: documents kept in a ChromaDB collection over HTTP.
use vstd::prelude::*;
use vstd::string::*;

verus! {

/// The `documents` array of a `get` answer, as plain values: each element's
/// text where it is a string.
pub type Documents = Vec<Option<String>>;

/// The `documents` array of a `query` answer: one array per query text.
pub type QueryDocuments = Vec<Option<Vec<Option<String>>>>;

/// The texts among `docs`, in order.
pub open spec fn texts_of(docs: Seq<Option<String>>) -> Seq<Seq<char>>
    decreases docs.len(),
{
    if docs.len() == 0 {
        Seq::empty()
    } else {
        let before = texts_of(docs.drop_last());
        match docs.last() {
            Some(text) => before.push(text@),
            None => before,
        }
    }
}

/// A ChromaDB collection used as memory.
#[derive(Debug)]
pub struct VectorMemory {
    base_url: String,
    collection: String,
}

impl VectorMemory {
    /// The server the collection lives on.
    pub closed spec fn server(&self) -> Seq<char> {
        self.base_url@
    }

    /// The collection's name.
    pub closed spec fn collection_name(&self) -> Seq<char> {
        self.collection@
    }

    /// A vector memory in `collection` on the server at `base_url`.
    pub fn new(base_url: &str, collection: &str) -> (memory: Self)
        ensures
            memory.server() == base_url@,
            memory.collection_name() == collection@,
    {
        VectorMemory { base_url: base_url.to_string(), collection: collection.to_string() }
    }

    /// The URL of the collection's `action` endpoint (`upsert`, `get` or
    /// `query`).
    pub fn endpoint(&self, action: &str) -> (url: String)
        ensures
            url@ == self.server() + "/api/v1/collections/"@ + self.collection_name() + "/"@
                + action@,
    {
        let mut url = self.base_url.clone();
        url.append("/api/v1/collections/");
        url.append(self.collection.as_str());
        url.append("/");
        url.append(action);
        url
    }

    /// The document a `get` answer holds: the first element of its
    /// `documents` array, when there is one and it is a string.
    pub fn first_document(documents: &Option<Documents>) -> (doc: Option<String>)
        ensures
            match documents {
                Some(docs) => if docs@.len() > 0 {
                    match docs@[0] {
                        Some(text) => doc matches Some(d) && d@ == text@,
                        None => doc is None,
                    }
                } else {
                    doc is None
                },
                None => doc is None,
            },
    {
        match documents {
            Some(docs) => {
                if docs.len() > 0 {
                    match &docs[0] {
                        Some(text) => Some(text.clone()),
                        None => None,
                    }
                } else {
                    None
                }
            },
            None => None,
        }
    }

    /// The documents a `query` answer holds for its first query text: the
    /// strings of the first array in `documents`. The answer's `documents`
    /// must not be an empty array.
    pub fn query_documents(documents: &Option<QueryDocuments>) -> (found: Vec<String>)
        requires
            documents matches Some(outer) ==> outer@.len() > 0,
        ensures
            found@.map_values(|t: String| t@) == match documents {
                Some(outer) => match outer@[0] {
                    Some(inner) => texts_of(inner@),
                    None => Seq::empty(),
                },
                None => Seq::<Seq<char>>::empty(),
            },
    {
        let mut found: Vec<String> = Vec::new();
        match documents {
            None => {},
            Some(outer) => match &outer[0] {
                None => {},
                Some(inner) => {
                    let mut i: usize = 0;
                    while i < inner.len()
                        invariant
                            i <= inner@.len(),
                            found@.map_values(|t: String| t@) == texts_of(inner@.take(i as int)),
                        decreases inner.len() - i,
                    {
                        assert(inner@.take(i + 1).drop_last() =~= inner@.take(i as int));
                        assert(inner@.take(i + 1).last() == inner@[i as int]);
                        let ghost before = found@.map_values(|t: String| t@);
                        match &inner[i] {
                            Some(text) => {
                                found.push(text.clone());
                                assert(found@.map_values(|t: String| t@) =~= before.push(text@));
                            },
                            None => {},
                        }
                        i = i + 1;
                    }
                    assert(inner@.take(inner@.len() as int) =~= inner@);
                },
            },
        }
        found
    }
}

} // verus!
