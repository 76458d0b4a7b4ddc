//! Knowledge bases: named collections of text, cut into chunks for an
//! embedder of type `E`.
use vstd::prelude::*;

use crate::text::{chars_of, string_of_range};

verus! {

/// A named knowledge base with an optional embedder.
pub struct KnowledgeBase<E> {
    pub name: String,
    pub embedder: Option<E>,
}

/// `s` cut into consecutive pieces of `size` characters, the last one
/// possibly shorter; no pieces for an empty text.
pub open spec fn chunks_of(s: Seq<char>, size: nat) -> Seq<Seq<char>>
    decreases s.len(),
{
    if size == 0 || s.len() == 0 {
        Seq::empty()
    } else if s.len() <= size {
        seq![s]
    } else {
        seq![s.take(size as int)] + chunks_of(s.skip(size as int), size)
    }
}

/// The pieces written one after the other.
pub open spec fn flatten(pieces: Seq<Seq<char>>) -> Seq<char>
    decreases pieces.len(),
{
    if pieces.len() == 0 {
        Seq::empty()
    } else {
        pieces[0] + flatten(pieces.drop_first())
    }
}

impl<E> KnowledgeBase<E> {
    /// A knowledge base named `name`, without an embedder.
    pub fn new(name: &str) -> (kb: Self)
        ensures
            kb.name@ == name@,
            kb.embedder is None,
    {
        KnowledgeBase { name: name.to_string(), embedder: None }
    }

    /// `text` cut into pieces of `size` characters (the last may be
    /// shorter); `size` must not be zero.
    pub fn chunk_text(text: &str, size: usize) -> (chunks: Vec<String>)
        requires
            size > 0,
        ensures
            chunks@.map_values(|c: String| c@) == chunks_of(text@, size as nat),
    {
        let chars = chars_of(text);
        let n = chars.len();
        let mut chunks: Vec<String> = Vec::new();
        let mut pos: usize = 0;
        assert(chars@.skip(0) =~= chars@);
        while pos < n
            invariant
                pos <= n == chars@.len(),
                chars@ == text@,
                size > 0,
                chunks@.map_values(|c: String| c@) + chunks_of(chars@.skip(pos as int), size as nat)
                    == chunks_of(text@, size as nat),
            decreases n - pos,
        {
            let end = if n - pos <= size {
                n
            } else {
                pos + size
            };
            let piece = string_of_range(&chars, pos, end);
            let ghost rest = chars@.skip(pos as int);
            let ghost before = chunks@.map_values(|c: String| c@);
            chunks.push(piece);
            proof {
                assert(chunks@.map_values(|c: String| c@) =~= before.push(piece@));
                if n - pos <= size {
                    assert(piece@ =~= rest);
                    assert(chars@.skip(n as int) =~= Seq::<char>::empty());
                    assert(chunks_of(rest, size as nat) == seq![rest]);
                    assert(before.push(piece@) + chunks_of(chars@.skip(end as int), size as nat)
                        =~= before + chunks_of(rest, size as nat));
                } else {
                    assert(piece@ =~= rest.take(size as int));
                    assert(rest.skip(size as int) =~= chars@.skip(end as int));
                    assert(before.push(piece@) + chunks_of(chars@.skip(end as int), size as nat)
                        =~= before + chunks_of(rest, size as nat));
                }
            }
            pos = end;
        }
        assert(chars@.skip(n as int) =~= Seq::<char>::empty());
        assert(chunks@.map_values(|c: String| c@) + Seq::<Seq<char>>::empty() =~= chunks@.map_values(
            |c: String| c@,
        ));
        chunks
    }
}

/// Written back to back, the chunks of a text give the text again.
pub proof fn lemma_chunks_rebuild_text(s: Seq<char>, size: nat)
    requires
        size > 0,
    ensures
        flatten(chunks_of(s, size)) == s,
    decreases s.len(),
{
    if s.len() == 0 {
    } else if s.len() <= size {
        assert(flatten(seq![s]) == s + flatten(seq![s].drop_first()));
        assert(seq![s].drop_first() =~= Seq::<Seq<char>>::empty());
        assert(s + Seq::<char>::empty() =~= s);
    } else {
        let first = s.take(size as int);
        let rest_chunks = chunks_of(s.skip(size as int), size);
        lemma_chunks_rebuild_text(s.skip(size as int), size);
        let all = seq![first] + rest_chunks;
        assert(all[0] == first);
        assert(all.drop_first() =~= rest_chunks);
        assert(first + s.skip(size as int) =~= s);
    }
}

/// Every chunk holds between one and `size` characters, and every chunk
/// but the last holds exactly `size`.
pub proof fn lemma_chunk_sizes(s: Seq<char>, size: nat, i: int)
    requires
        size > 0,
        0 <= i < chunks_of(s, size).len(),
    ensures
        0 < chunks_of(s, size)[i].len() <= size,
        i < chunks_of(s, size).len() - 1 ==> chunks_of(s, size)[i].len() == size,
    decreases s.len(),
{
    if s.len() <= size {
    } else {
        let rest_chunks = chunks_of(s.skip(size as int), size);
        if i > 0 {
            lemma_chunk_sizes(s.skip(size as int), size, i - 1);
            assert(chunks_of(s, size)[i] == rest_chunks[i - 1]);
        }
    }
}

} // verus!
