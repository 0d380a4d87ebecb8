use vstd::prelude::*;

use crate::nlp::tokens_of;
use crate::orchestrator::sparse::tokenize;
use crate::term_counts::{count_terms, is_term_counts, EmbeddingCounts};
use crate::term_map::TermMap;

verus! {

/// The vocabulary of the worker's TF-IDF embeddings: the index of each term, the number of
/// documents each index occurs in, and the number of documents seen.
pub struct VocabState {
    pub term_to_index: TermMap<usize>,
    pub term_doc_count: Vec<u64>,
    pub total_docs: u64,
}

impl Default for VocabState {
    /// An empty vocabulary.
    fn default() -> (r: Self)
        ensures
            r.term_to_index.wf(),
            r.term_to_index@ == Map::<Seq<char>, usize>::empty(),
            r.term_doc_count@.len() == 0,
            r.total_docs == 0,
    {
        VocabState { term_to_index: TermMap::new(), term_doc_count: Vec::new(), total_docs: 0 }
    }
}

/// Computes TF-IDF embeddings against a vocabulary.
pub struct TfIdfProvider {
    vocab: VocabState,
}

impl TfIdfProvider {
    /// The vocabulary.
    pub closed spec fn state(&self) -> VocabState {
        self.vocab
    }

    /// A provider over `vocab`.
    pub fn new(vocab: VocabState) -> (r: Self)
        ensures
            r.state() == vocab,
    {
        TfIdfProvider { vocab }
    }

    /// The vocabulary.
    pub fn vocab(&self) -> (v: &VocabState)
        ensures
            *v == self.state(),
    {
        &self.vocab
    }

    /// What the TF-IDF embedding of `text` is computed from: its tokens (see `tokenize`)
    /// counted against the vocabulary.
    pub fn embed_counts(&self, text: &str) -> (r: EmbeddingCounts)
        ensures
            r.num_terms == tokens_of(text@).len(),
            r.total_docs == self.state().total_docs,
            is_term_counts(
                r.counts@,
                self.state().term_to_index@,
                self.state().term_doc_count@,
                tokens_of(text@),
            ),
    {
        let terms = tokenize(text);
        let counts = count_terms(&self.vocab.term_to_index, &self.vocab.term_doc_count, &terms);
        EmbeddingCounts { num_terms: terms.len(), total_docs: self.vocab.total_docs, counts }
    }
}

} // verus!
