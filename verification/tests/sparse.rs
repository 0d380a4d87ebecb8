use lm_agent::orchestrator::sparse::{tokenize, TfIdfProvider, VocabState};
use lm_agent::worker::tfidf;
use lm_agent::term_map::TermMap;

#[test]
fn sparse_test_tokenize_basic() {
    let tokens = tokenize("The quick brown foxes jumped over the lazy dogs");
    assert!(!tokens.is_empty());
}

#[test]
fn tokenize_lowercases_stems_and_drops_single_letters() {
    let tokens = tokenize("The foxes a jumped");
    assert_eq!(tokens, vec!["the".to_string(), "fox".to_string(), "jump".to_string()]);
}

#[test]
fn sparse_test_embed_with_vocab() {
    let mut state = VocabState::default();
    state.term_to_index.insert("hello".to_string(), 0);
    state.term_to_index.insert("world".to_string(), 1);
    state.term_doc_count = vec![5, 3];
    state.total_docs = 10;

    let provider = TfIdfProvider::new(state, 10);
    let counts = provider.embed_counts("hello world");
    let indices: Vec<u32> = counts.counts.iter().map(|c| c.index as u32).collect();
    let values: Vec<f32> = counts
        .counts
        .iter()
        .map(|c| {
            let idf = ((counts.total_docs as f64 + 1.0) / (c.df as f64 + 1.0)).ln() as f32;
            (c.tf as f32 / counts.num_terms as f32) * idf
        })
        .collect();
    assert_eq!(indices.len(), 2);
    assert_eq!(indices[0], 0);
    assert_eq!(indices[1], 1);
    assert_eq!(counts.num_terms, 2);
    assert_eq!(counts.total_docs, 10);
    assert_eq!((counts.counts[0].tf, counts.counts[0].df), (1, 5));
    assert_eq!((counts.counts[1].tf, counts.counts[1].df), (1, 3));
    assert!(values[0] > 0.0);
    assert!(values[1] > 0.0);
}

#[test]
fn embed_counts_counts_repeated_terms() {
    let mut state = VocabState::default();
    state.term_to_index.insert("hello".to_string(), 0);
    state.term_doc_count = vec![4];
    state.total_docs = 7;
    let provider = TfIdfProvider::new(state, 10);
    let counts = provider.embed_counts("hello hello unknown");
    assert_eq!(counts.num_terms, 3);
    assert_eq!(counts.total_docs, 7);
    assert_eq!(counts.counts.len(), 1);
    assert_eq!(counts.counts[0].index, 0);
    assert_eq!(counts.counts[0].tf, 2);
    assert_eq!(counts.counts[0].df, 4);
}

#[test]
fn test_pruned_term_accumulates_across_batches() {
    let state = VocabState::default();
    let mut provider = TfIdfProvider::new(state, 3);

    let batch_a = vec!["alpha beta gamma".to_string()];
    let batch_b = vec!["alpha beta gamma".to_string()];
    let batch_c = vec!["alpha beta gamma".to_string()];
    let batch_new = vec!["delta".to_string()];

    provider.update_vocab(&batch_a);
    provider.update_vocab(&batch_b);
    provider.update_vocab(&batch_c);

    {
        let vocab = provider.vocab();
        assert!(vocab.term_to_index.contains_key("alpha"));
        assert!(vocab.term_to_index.contains_key("beta"));
        assert!(vocab.term_to_index.contains_key("gamma"));
    }

    provider.update_vocab(&batch_new);

    {
        let vocab = provider.vocab();
        assert!(vocab.pruned_counts.contains_key("delta"));
        assert_eq!(*vocab.pruned_counts.get("delta").unwrap(), 1);
    }

    for _ in 0..5 {
        provider.update_vocab(&batch_new);
    }

    {
        let vocab = provider.vocab();
        let shadow_delta = vocab.pruned_counts.get("delta").copied().unwrap_or(0);
        let active_delta = vocab
            .term_to_index
            .get("delta")
            .and_then(|&idx| vocab.term_doc_count.get(idx).copied())
            .unwrap_or(0);
        let total = shadow_delta + active_delta;
        assert!(total >= 5, "delta should have accumulated df >= 5 across batches, got {total}");
    }
}

#[test]
fn test_pruned_counts_restored_on_reentry() {
    let state = VocabState::default();
    let mut provider = TfIdfProvider::new(state, 2);

    provider.update_vocab(&vec!["alpha beta".to_string()]);
    provider.update_vocab(&vec!["gamma".to_string()]);

    {
        let vocab = provider.vocab();
        assert!(vocab.pruned_counts.contains_key("gamma"));
    }

    provider.update_vocab(&vec!["gamma".to_string()]);

    {
        let vocab = provider.vocab();
        if let Some(&idx) = vocab.term_to_index.get("gamma") {
            assert!(vocab.term_doc_count[idx] >= 2);
        }
    }
}

#[test]
fn update_counts_documents_and_frequencies() {
    let mut provider = TfIdfProvider::new(VocabState::default(), 10);
    provider.update_vocab(&vec!["alpha beta".to_string(), "alpha".to_string(), "".to_string()]);
    let vocab = provider.vocab();
    assert_eq!(vocab.total_docs, 2);
    let a = *vocab.term_to_index.get("alpha").unwrap();
    let b = *vocab.term_to_index.get("beta").unwrap();
    assert_eq!(vocab.term_doc_count[a], 2);
    assert_eq!(vocab.term_doc_count[b], 1);
}

#[test]
fn prune_keeps_at_most_the_limit() {
    let mut provider = TfIdfProvider::new(VocabState::default(), 2);
    provider.update_vocab(&vec!["alpha beta gamma".to_string(), "alpha beta".to_string()]);
    let vocab = provider.vocab();
    assert_eq!(vocab.term_to_index.len(), 2);
    assert!(vocab.term_to_index.contains_key("alpha"));
    assert!(vocab.term_to_index.contains_key("beta"));
    assert_eq!(*vocab.pruned_counts.get("gamma").unwrap(), 1);
}

#[test]
fn tfidf_test_tokenize_basic() {
    let tokens = tokenize("The quick brown foxes jumped over the lazy dogs");
    assert!(!tokens.is_empty());
}

#[test]
fn tfidf_test_embed_with_vocab() {
    let mut state = tfidf::VocabState::default();
    state.term_to_index.insert("hello".to_string(), 0);
    state.term_to_index.insert("world".to_string(), 1);
    state.term_doc_count = vec![5, 3];
    state.total_docs = 10;

    let provider = tfidf::TfIdfProvider::new(state);
    let counts = provider.embed_counts("hello world");
    let indices: Vec<u32> = counts.counts.iter().map(|c| c.index as u32).collect();
    let values: Vec<f32> = counts
        .counts
        .iter()
        .map(|c| {
            let idf = ((counts.total_docs as f64 + 1.0) / (c.df as f64 + 1.0)).ln() as f32;
            (c.tf as f32 / counts.num_terms as f32) * idf
        })
        .collect();
    assert_eq!(indices.len(), 2);
    assert_eq!(indices[0], 0);
    assert_eq!(indices[1], 1);
    assert_eq!(counts.num_terms, 2);
    assert_eq!(counts.total_docs, 10);
    assert_eq!((counts.counts[0].tf, counts.counts[0].df), (1, 5));
    assert_eq!((counts.counts[1].tf, counts.counts[1].df), (1, 3));
    assert!(values[0] > 0.0);
    assert!(values[1] > 0.0);
}

#[test]
fn ties_keep_the_older_terms_and_sets_stay_apart() {
    let mut provider = TfIdfProvider::new(VocabState::default(), 2);
    provider.update_vocab(&vec!["alpha beta".to_string()]);
    provider.update_vocab(&vec!["gamma".to_string()]);
    let vocab = provider.vocab();
    assert!(vocab.term_to_index.contains_key("alpha"));
    assert!(vocab.term_to_index.contains_key("beta"));
    assert!(!vocab.term_to_index.contains_key("gamma"));
    assert_eq!(*vocab.pruned_counts.get("gamma").unwrap(), 1);
    for t in ["alpha", "beta", "gamma"] {
        assert!(!(vocab.term_to_index.contains_key(t) && vocab.pruned_counts.contains_key(t)));
    }
}

#[test]
fn vocabularies_are_rebuilt_in_index_order() {
    let mut index: TermMap<usize> = TermMap::new();
    index.insert("beta".to_string(), 1);
    index.insert("alpha".to_string(), 0);
    let pruned: TermMap<u64> = TermMap::new();
    let state = VocabState::from_parts(index, vec![4, 2], 5, pruned).unwrap();
    assert!(state.is_well_formed());
    assert_eq!(*state.term_to_index.get("alpha").unwrap(), 0);
    assert_eq!(*state.term_to_index.get("beta").unwrap(), 1);
    assert_eq!(state.total_docs, 5);

    let mut gap: TermMap<usize> = TermMap::new();
    gap.insert("alpha".to_string(), 0);
    gap.insert("beta".to_string(), 2);
    assert!(VocabState::from_parts(gap, vec![1, 1], 2, TermMap::new()).is_none());

    let mut twice: TermMap<usize> = TermMap::new();
    twice.insert("alpha".to_string(), 0);
    twice.insert("beta".to_string(), 0);
    assert!(VocabState::from_parts(twice, vec![1, 1], 2, TermMap::new()).is_none());
}

#[test]
fn pruning_keeps_the_limit_and_the_total() {
    let mut provider = TfIdfProvider::new(VocabState::default(), 10);
    provider.update_vocab(&vec!["alpha beta gamma".to_string(), "alpha beta".to_string(), "alpha".to_string()]);
    let mut small = TfIdfProvider::new(VocabState::default(), 1);
    small.update_vocab(&vec!["alpha beta gamma".to_string(), "alpha beta".to_string(), "alpha".to_string()]);
    let vocab = small.vocab();
    assert_eq!(vocab.term_to_index.len(), 1);
    assert!(vocab.term_to_index.contains_key("alpha"));
    assert_eq!(vocab.term_doc_count, vec![3]);
    assert_eq!(vocab.total_docs, 3);
    assert_eq!(provider.vocab().term_to_index.len(), 3);
    provider.prune_vocab();
    assert_eq!(provider.vocab().term_to_index.len(), 3);
}
