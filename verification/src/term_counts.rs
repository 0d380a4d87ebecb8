use vstd::prelude::*;

use crate::term_map::TermMap;
use crate::text::views;

verus! {

/// How often the tokens of a text hit one index of a vocabulary, with the document
/// frequency stored for that index.
#[derive(Debug, Clone, Copy, PartialEq, Eq, Structural)]
pub struct TermCount {
    pub index: usize,
    pub tf: u64,
    pub df: u64,
}

/// What a TF-IDF embedding of a text is computed from: the number of its tokens, the number
/// of documents the vocabulary has seen, and the counts of its tokens (see
/// `is_term_counts`).
#[derive(Debug)]
pub struct EmbeddingCounts {
    pub num_terms: usize,
    pub total_docs: u64,
    pub counts: Vec<TermCount>,
}

/// The number of tokens of `terms` that `index` maps to `idx`.
pub open spec fn tf_of(index: Map<Seq<char>, usize>, terms: Seq<Seq<char>>, idx: usize) -> nat
    decreases terms.len(),
{
    if terms.len() == 0 {
        0
    } else {
        tf_of(index, terms.drop_last(), idx) + if index.contains_key(terms.last())
            && index[terms.last()] == idx {
            1nat
        } else {
            0nat
        }
    }
}

/// The document frequency used for an index: the stored count, or 1 where none is stored.
pub open spec fn df_at(counts: Seq<u64>, idx: usize) -> u64 {
    if idx < counts.len() {
        counts[idx as int]
    } else {
        1
    }
}

/// The counts of a text's tokens against a vocabulary: one entry for each index that some
/// token maps to, in increasing order of index, with the number of such tokens and the
/// document frequency of the index.
pub open spec fn is_term_counts(
    r: Seq<TermCount>,
    index: Map<Seq<char>, usize>,
    counts: Seq<u64>,
    terms: Seq<Seq<char>>,
) -> bool {
    &&& forall|a: int, b: int| 0 <= a < b < r.len() ==> (#[trigger] r[a]).index < (#[trigger] r[b]).index
    &&& forall|a: int|
        0 <= a < r.len() ==> (#[trigger] r[a]).tf == tf_of(index, terms, r[a].index) && r[a].tf > 0
            && r[a].df == df_at(counts, r[a].index)
    &&& forall|x: usize| #[trigger] tf_of(index, terms, x) > 0 ==> exists|a: int| 0 <= a < r.len() && r[a].index == x
}

proof fn lemma_tf_bounded(index: Map<Seq<char>, usize>, terms: Seq<Seq<char>>, idx: usize)
    ensures
        tf_of(index, terms, idx) <= terms.len(),
    decreases terms.len(),
{
    if terms.len() > 0 {
        lemma_tf_bounded(index, terms.drop_last(), idx);
    }
}

/// Counts the tokens `terms` against the vocabulary `term_to_index` (see `is_term_counts`).
pub fn count_terms(term_to_index: &TermMap<usize>, term_doc_count: &Vec<u64>, terms: &Vec<String>) -> (r: Vec<TermCount>)
    ensures
        is_term_counts(r@, term_to_index@, term_doc_count@, views(terms@)),
{
    let ghost index = term_to_index@;
    let ghost ts = views(terms@);
    let mut acc: Vec<TermCount> = Vec::new();
    let mut i: usize = 0;
    while i < terms.len()
        invariant
            i <= terms@.len(),
            index == term_to_index@,
            ts == views(terms@),
            is_term_counts(acc@, index, term_doc_count@, ts.take(i as int)),
        decreases terms@.len() - i,
    {
        let ghost pre = ts.take(i as int);
        let ghost post = ts.take(i + 1);
        proof {
            assert(post.drop_last() == pre);
            assert(post.last() == terms@[i as int]@);
        }
        match term_to_index.get(terms[i].as_str()) {
            None => {
                assert forall|x: usize| tf_of(index, post, x) == tf_of(index, pre, x) by {}
                assert forall|x: usize| #[trigger] tf_of(index, post, x) > 0 implies exists|a: int|
                    0 <= a < acc@.len() && acc@[a].index == x by {
                    assert(tf_of(index, pre, x) > 0);
                }
            },
            Some(idx_ref) => {
                let idx = *idx_ref;
                assert forall|x: usize| x != idx implies tf_of(index, post, x) == tf_of(index, pre, x) by {}
                assert(tf_of(index, post, idx) == tf_of(index, pre, idx) + 1);
                let mut p: usize = 0;
                while p < acc.len() && acc[p].index < idx
                    invariant
                        p <= acc@.len(),
                        forall|a: int| 0 <= a < p ==> (#[trigger] acc@[a]).index < idx,
                    decreases acc@.len() - p,
                {
                    p = p + 1;
                }
                let ghost old_acc = acc@;
                if p < acc.len() && acc[p].index == idx {
                    proof {
                        lemma_tf_bounded(index, post, idx);
                    }
                    let cur = acc[p];
                    assert(cur.tf == tf_of(index, pre, idx));
                    let updated = TermCount { index: idx, tf: cur.tf + 1, df: cur.df };
                    acc.set(p, updated);
                    assert forall|a: int| 0 <= a < acc@.len() implies (#[trigger] acc@[a]).tf == tf_of(
                        index,
                        post,
                        acc@[a].index,
                    ) && acc@[a].tf > 0 && acc@[a].df == df_at(term_doc_count@, acc@[a].index) by {
                        if a != p {
                            assert(old_acc[a].index != idx);
                        }
                    }
                    assert forall|x: usize| #[trigger] tf_of(index, post, x) > 0 implies exists|a: int|
                        0 <= a < acc@.len() && acc@[a].index == x by {
                        if x == idx {
                            assert(acc@[p as int].index == x);
                        } else {
                            assert(tf_of(index, pre, x) > 0);
                            let a = choose|a: int| 0 <= a < old_acc.len() && old_acc[a].index == x;
                            assert(acc@[a].index == x);
                        }
                    }
                } else {
                    proof {
                        if tf_of(index, pre, idx) > 0 {
                            let a = choose|a: int| 0 <= a < old_acc.len() && old_acc[a].index == idx;
                            if a < p {
                            } else {
                                assert(old_acc[p as int].index <= old_acc[a].index);
                            }
                        }
                    }
                    assert(tf_of(index, pre, idx) == 0);
                    let df = if idx < term_doc_count.len() { term_doc_count[idx] } else { 1 };
                    let entry = TermCount { index: idx, tf: 1, df };
                    acc.insert(p, entry);
                    assert(acc@ == old_acc.insert(p as int, entry));
                    assert forall|a: int| 0 <= a < acc@.len() implies #[trigger] acc@[a] == (if a < p {
                        old_acc[a]
                    } else if a == p {
                        entry
                    } else {
                        old_acc[a - 1]
                    }) by {}
                    assert forall|a: int, b: int| 0 <= a < b < acc@.len() implies (#[trigger] acc@[a]).index
                        < (#[trigger] acc@[b]).index by {
                        if a < p && b > p {
                            assert(old_acc[a].index < idx);
                            assert(old_acc[p as int].index >= idx);
                            if b - 1 > p {
                                assert(old_acc[p as int].index < old_acc[b - 1].index);
                            }
                        } else if a == p && b > p {
                            assert(old_acc[p as int].index >= idx);
                            if b - 1 > p {
                                assert(old_acc[p as int].index < old_acc[b - 1].index);
                            }
                        } else if a < p && b == p {
                            assert(old_acc[a].index < idx);
                        } else if a > p {
                            assert(old_acc[a - 1].index < old_acc[b - 1].index);
                        } else {
                            assert(old_acc[a].index < old_acc[b].index);
                        }
                    }
                    assert forall|a: int| 0 <= a < acc@.len() implies (#[trigger] acc@[a]).tf == tf_of(
                        index,
                        post,
                        acc@[a].index,
                    ) && acc@[a].tf > 0 && acc@[a].df == df_at(term_doc_count@, acc@[a].index) by {
                        if a < p {
                            assert(old_acc[a].index != idx);
                        } else if a > p {
                            assert(old_acc[a - 1].index != idx);
                        }
                    }
                    assert forall|x: usize| #[trigger] tf_of(index, post, x) > 0 implies exists|a: int|
                        0 <= a < acc@.len() && acc@[a].index == x by {
                        if x == idx {
                            assert(acc@[p as int].index == x);
                        } else {
                            assert(tf_of(index, pre, x) > 0);
                            let a = choose|a: int| 0 <= a < old_acc.len() && old_acc[a].index == x;
                            if a < p {
                                assert(acc@[a].index == x);
                            } else {
                                assert(acc@[a + 1].index == x);
                            }
                        }
                    }
                }
            },
        }
        i = i + 1;
    }
    assert(ts.take(terms@.len() as int) == ts);
    acc
}

} // verus!
