use vstd::prelude::*;
use vstd::hash_map::StringHashMap;

use crate::nlp::{tokens_of, tokens_from, unicode_words, unicode_words_of, to_lowercase, EnglishStemmer};
use vstd::utf8::encode_utf8;
use crate::term_map::TermMap;
use crate::term_counts::{count_terms, is_term_counts, EmbeddingCounts};
use crate::text::views;

verus! {

broadcast use vstd::hash_map::group_hash_map_axioms;

/// Splits `text` into Unicode words, lower-cases them, drops the one-byte ones and stems
/// the rest with the English stemmer.
pub fn tokenize(text: &str) -> (r: Vec<String>)
    ensures
        views(r@) == tokens_of(text@),
{
    let stemmer = EnglishStemmer::new();
    let words = unicode_words(text);
    let mut out: Vec<String> = Vec::new();
    let mut i: usize = 0;
    while i < words.len()
        invariant
            i <= words@.len(),
            views(words@) == unicode_words_of(text@),
            views(out@) == tokens_from(views(words@).take(i as int)),
        decreases words@.len() - i,
    {
        let lw = to_lowercase(words[i].as_str());
        let lws = lw.as_str();
        let n = lws.as_bytes().len();
        assert(n == encode_utf8(lw@).len());
        proof {
            let ws = views(words@);
            assert(ws.take(i + 1).drop_last() == ws.take(i as int));
            assert(ws.take(i + 1).last() == words@[i as int]@);
        }
        if n > 1 {
            let st = stemmer.stem(lw.as_str());
            let ghost prev = views(out@);
            out.push(st);
            assert(views(out@) == prev.push(st@));
        }
        i = i + 1;
    }
    assert(views(words@).take(words@.len() as int) == views(words@));
    out
}


/// The abstract content of a vocabulary: its terms in index order, the index of each
/// term, the document frequency stored for each index, the frequencies remembered for
/// terms that were pruned away, and the number of documents seen.
pub struct VocabModel {
    pub terms: Seq<Seq<char>>,
    pub index: Map<Seq<char>, usize>,
    pub counts: Seq<u64>,
    pub pruned: Map<Seq<char>, u64>,
    pub total: u64,
}

/// `x + 1`, stopping at `u64::MAX`.
pub open spec fn sat_inc(x: u64) -> u64 {
    if x == u64::MAX {
        x
    } else {
        (x + 1) as u64
    }
}

/// `x + y`, stopping at `u64::MAX`.
pub open spec fn sat_add(x: u64, y: u64) -> u64 {
    if x + y > u64::MAX {
        u64::MAX
    } else {
        (x + y) as u64
    }
}

/// The value stored for `t`, or 0.
pub open spec fn get_or_zero(m: Map<Seq<char>, u64>, t: Seq<char>) -> u64 {
    if m.contains_key(t) {
        m[t]
    } else {
        0
    }
}

/// The document frequency of `t` as the model records it: its active count, its remembered
/// count when it was pruned away, or 0.
pub open spec fn df_of(m: VocabModel, t: Seq<char>) -> u64 {
    if m.index.contains_key(t) {
        m.counts[m.index[t] as int]
    } else {
        get_or_zero(m.pruned, t)
    }
}

/// The model is consistent: the index of the term at position `i` is `i`, and each term
/// has one count.
pub open spec fn model_wf(m: VocabModel) -> bool {
    &&& m.terms.no_duplicates()
    &&& m.counts.len() == m.terms.len()
    &&& m.index.dom().finite()
    &&& m.index.len() == m.terms.len()
    &&& forall|t: Seq<char>| #[trigger] m.index.contains_key(t) <==> m.terms.contains(t)
    &&& forall|i: int| 0 <= i < m.terms.len() ==> #[trigger] m.index[m.terms[i]] == i
    &&& m.pruned.dom().finite()
}

/// One more document holds term `t`: an active term's count grows by one; a new term gets
/// the next index, and starts from the count remembered for it when it was pruned (or 0),
/// plus one.
pub open spec fn add_term(m: VocabModel, t: Seq<char>) -> VocabModel {
    if m.index.contains_key(t) {
        let i = m.index[t] as int;
        VocabModel {
            terms: m.terms,
            index: m.index,
            counts: m.counts.update(i, sat_inc(m.counts[i])),
            pruned: m.pruned,
            total: m.total,
        }
    } else {
        VocabModel {
            terms: m.terms.push(t),
            index: m.index.insert(t, m.counts.len() as usize),
            counts: m.counts.push(sat_inc(get_or_zero(m.pruned, t))),
            pruned: m.pruned.remove(t),
            total: m.total,
        }
    }
}

/// A document with tokens `toks`: each distinct token counts once, in order of first
/// appearance.
pub open spec fn add_doc(m: VocabModel, toks: Seq<Seq<char>>) -> VocabModel
    decreases toks.len(),
{
    if toks.len() == 0 {
        m
    } else {
        let prev = add_doc(m, toks.drop_last());
        if toks.drop_last().contains(toks.last()) {
            prev
        } else {
            add_term(prev, toks.last())
        }
    }
}

/// A batch of documents, given by their tokens; documents without tokens are skipped.
pub open spec fn add_docs(m: VocabModel, docs: Seq<Seq<Seq<char>>>) -> VocabModel
    decreases docs.len(),
{
    if docs.len() == 0 {
        m
    } else {
        add_doc(add_docs(m, docs.drop_last()), docs.last())
    }
}

proof fn lemma_add_doc_total(m: VocabModel, toks: Seq<Seq<char>>)
    ensures
        add_doc(m, toks).total == m.total,
    decreases toks.len(),
{
    if toks.len() > 0 {
        lemma_add_doc_total(m, toks.drop_last());
    }
}

proof fn lemma_add_docs_total(m: VocabModel, docs: Seq<Seq<Seq<char>>>)
    ensures
        add_docs(m, docs).total == m.total,
    decreases docs.len(),
{
    if docs.len() > 0 {
        lemma_add_docs_total(m, docs.drop_last());
        lemma_add_doc_total(add_docs(m, docs.drop_last()), docs.last());
    }
}

/// How many of `docs` have at least one token.
pub open spec fn nonempty_count(docs: Seq<Seq<Seq<char>>>) -> nat
    decreases docs.len(),
{
    if docs.len() == 0 {
        0
    } else {
        nonempty_count(docs.drop_last()) + if docs.last().len() > 0 {
            1nat
        } else {
            0nat
        }
    }
}

/// The tokens of each text.
pub open spec fn docs_tokens(texts: Seq<String>) -> Seq<Seq<Seq<char>>> {
    texts.map_values(|s: String| tokens_of(s@))
}

/// The model after counting a batch of documents, before pruning.
pub open spec fn counted(m: VocabModel, texts: Seq<String>) -> VocabModel {
    let a = add_docs(m, docs_tokens(texts));
    VocabModel {
        terms: a.terms,
        index: a.index,
        counts: a.counts,
        pruned: a.pruned,
        total: sat_add(m.total, nonempty_count(docs_tokens(texts)) as u64),
    }
}

proof fn lemma_add_term_wf(m: VocabModel, t: Seq<char>)
    requires
        model_wf(m),
        !m.index.contains_key(t) ==> m.counts.len() < usize::MAX,
    ensures
        model_wf(add_term(m, t)),
        add_term(m, t).total == m.total,
        add_term(m, t).terms.len() <= m.terms.len() + 1,
{
    if !m.index.contains_key(t) {
        let r = add_term(m, t);
        assert(!m.terms.contains(t));
        assert forall|a: int, b: int| 0 <= a < r.terms.len() && 0 <= b < r.terms.len() && a != b
            implies r.terms[a] != r.terms[b] by {
            if a == m.terms.len() {
                assert(m.terms.contains(r.terms[b]));
            } else if b == m.terms.len() {
                assert(m.terms.contains(r.terms[a]));
            }
        }
        assert forall|u: Seq<char>| #[trigger] r.index.contains_key(u) <==> r.terms.contains(u) by {
            if m.terms.contains(u) {
                let i = choose|i: int| 0 <= i < m.terms.len() && m.terms[i] == u;
                assert(r.terms[i] == u);
            }
            if u == t {
                assert(r.terms[m.terms.len() as int] == u);
            }
            if r.terms.contains(u) && u != t {
                let i = choose|i: int| 0 <= i < r.terms.len() && r.terms[i] == u;
                assert(m.terms[i] == u);
            }
        }
        assert forall|i: int| 0 <= i < r.terms.len() implies #[trigger] r.index[r.terms[i]] == i by {
            if i < m.terms.len() {
                assert(r.terms[i] == m.terms[i]);
                assert(m.terms.contains(m.terms[i]));
            }
        }
    }
}

/// The state of a TF-IDF vocabulary.
pub struct VocabState {
    pub term_to_index: TermMap<usize>,
    pub term_doc_count: Vec<u64>,
    pub total_docs: u64,
    pub pruned_counts: TermMap<u64>,
}

impl VocabState {
    /// The abstract content of the state.
    pub open spec fn model(&self) -> VocabModel {
        VocabModel {
            terms: self.term_to_index.key_seq(),
            index: self.term_to_index@,
            counts: self.term_doc_count@,
            pruned: self.pruned_counts@,
            total: self.total_docs,
        }
    }

    /// Well-formed: both maps are consistent, and the term at position `i` of
    /// `term_to_index` has index `i` and count `term_doc_count[i]`.
    pub open spec fn wf(&self) -> bool {
        &&& self.term_to_index.wf()
        &&& self.pruned_counts.wf()
        &&& model_wf(self.model())
    }

    pub proof fn lemma_wf_facts(&self)
        requires
            self.term_to_index.wf(),
            self.pruned_counts.wf(),
            self.term_doc_count@.len() == self.term_to_index.key_seq().len(),
            forall|i: int|
                0 <= i < self.term_to_index.key_seq().len() ==> #[trigger] self.term_to_index@[self.term_to_index.key_seq()[i]]
                    == i,
        ensures
            self.wf(),
    {
        self.term_to_index.lemma_wf_len();
        self.pruned_counts.lemma_wf_len();
    }

    /// An empty vocabulary.
    pub fn empty() -> (r: Self)
        ensures
            r.wf(),
            r.model().terms.len() == 0,
            r.model().pruned == Map::<Seq<char>, u64>::empty(),
            r.total_docs == 0,
    {
        let r = VocabState {
            term_to_index: TermMap::new(),
            term_doc_count: Vec::new(),
            total_docs: 0,
            pruned_counts: TermMap::new(),
        };
        proof {
            r.lemma_wf_facts();
        }
        r
    }

    /// What the TF-IDF embedding of `text` is computed from: its tokens (see `tokenize`)
    /// counted against the vocabulary.
    pub fn embedding_counts(&self, text: &str) -> (r: EmbeddingCounts)
        ensures
            r.num_terms == tokens_of(text@).len(),
            r.total_docs == self.total_docs,
            is_term_counts(r.counts@, self.term_to_index@, self.term_doc_count@, tokens_of(text@)),
    {
        let terms = tokenize(text);
        let counts = count_terms(&self.term_to_index, &self.term_doc_count, &terms);
        EmbeddingCounts { num_terms: terms.len(), total_docs: self.total_docs, counts }
    }

    /// Whether the state is well-formed (`wf`), decided at run time.
    pub fn is_well_formed(&self) -> (b: bool)
        requires
            self.term_to_index.wf(),
            self.pruned_counts.wf(),
        ensures
            b == self.wf(),
    {
        let n = self.term_to_index.len();
        if self.term_doc_count.len() != n {
            return false;
        }
        let mut i: usize = 0;
        while i < n
            invariant
                i <= n == self.term_to_index.key_seq().len(),
                self.term_to_index.wf(),
                self.term_doc_count@.len() == n,
                forall|j: int| 0 <= j < i ==> #[trigger] self.term_to_index@[self.term_to_index.key_seq()[j]] == j,
            decreases n - i,
        {
            proof {
                self.term_to_index.lemma_wf_len();
            }
            let k = self.term_to_index.key_at(i);
            match self.term_to_index.get(k.as_str()) {
                Some(v) => {
                    if *v != i {
                        return false;
                    }
                },
                None => {
                    return false;
                },
            }
            i = i + 1;
        }
        proof {
            self.lemma_wf_facts();
        }
        true
    }

    /// Counts term `t` once more (see `add_term`).
    fn add_term_exec(&mut self, t: &String)
        requires
            old(self).wf(),
        ensures
            final(self).wf(),
            final(self).model() == add_term(old(self).model(), t@),
    {
        let ghost m = self.model();
        match self.term_to_index.get(t.as_str()) {
            Some(idx) => {
                let i = *idx;
                assert(m.terms.contains(t@));
                let c = self.term_doc_count[i];
                let c2 = c.saturating_add(1);
                self.term_doc_count.set(i, c2);
                proof {
                    lemma_add_term_wf(m, t@);
                }
            },
            None => {
                let idx = self.term_doc_count.len();
                let initial = match self.pruned_counts.get(t.as_str()) {
                    Some(c) => *c,
                    None => 0,
                };
                self.pruned_counts.remove(t.as_str());
                self.term_to_index.insert(t.clone(), idx);
                self.term_doc_count.push(initial.saturating_add(1));
                assert(self.model().counts =~= add_term(m, t@).counts);
                proof {
                    assert(self.term_doc_count.len() == self.term_doc_count@.len());
                    lemma_add_term_wf(m, t@);
                }
            },
        }
    }

    /// Counts the distinct tokens of one document (see `add_doc`).
    fn add_doc_exec(&mut self, toks: &Vec<String>)
        requires
            old(self).wf(),
        ensures
            final(self).wf(),
            final(self).model() == add_doc(old(self).model(), views(toks@)),
    {
        let ghost m0 = self.model();
        let ghost ts = views(toks@);
        let mut seen: StringHashMap<bool> = StringHashMap::new();
        let mut i: usize = 0;
        while i < toks.len()
            invariant
                i <= toks@.len(),
                ts == views(toks@),
                self.wf(),
                self.model() == add_doc(m0, ts.take(i as int)),
                forall|t: Seq<char>| #[trigger] seen@.contains_key(t) <==> ts.take(i as int).contains(t),
            decreases toks@.len() - i,
        {
            let t = &toks[i];
            proof {
                assert(ts.take(i + 1).drop_last() == ts.take(i as int));
                assert(ts.take(i + 1).last() == t@);
            }
            if !seen.contains_key(t.as_str()) {
                seen.insert(t.clone(), true);
                self.add_term_exec(t);
            }
            proof {
                assert forall|u: Seq<char>| #[trigger] seen@.contains_key(u) <==> ts.take(i + 1).contains(u) by {
                    if ts.take(i as int).contains(u) {
                        let j = choose|j: int| 0 <= j < i && ts.take(i as int)[j] == u;
                        assert(ts.take(i + 1)[j] == u);
                    }
                    if ts.take(i + 1).contains(u) && u != t@ {
                        let j = choose|j: int| 0 <= j < i + 1 && #[trigger] ts.take(i + 1)[j] == u;
                        assert(j != i);
                        assert(ts.take(i as int)[j] == u);
                    }
                    if u == t@ {
                        assert(ts.take(i + 1)[i as int] == u);
                    }
                }
            }
            i = i + 1;
        }
        assert(ts.take(toks@.len() as int) == ts);
    }
}


/// Calls std's `slice::sort_by_key`, largest count first. Claimed, as std documents it: the
/// result is a permutation of the input, its counts do not increase, and the sort is stable,
/// so entries of equal count keep their order, which for an input in increasing order of
/// position is increasing order of position.
#[verifier::external_body]
fn sort_by_count_desc(v: &mut Vec<(usize, u64)>)
    requires
        forall|i: int, j: int| 0 <= i < j < old(v)@.len() ==> (#[trigger] old(v)@[i]).0 < (#[trigger] old(v)@[j]).0,
    ensures
        final(v)@.to_multiset() == old(v)@.to_multiset(),
        forall|i: int, j: int| 0 <= i <= j < final(v)@.len() ==> (#[trigger] final(v)@[i]).1 >= (#[trigger] final(v)@[j]).1,
        forall|i: int, j: int|
            0 <= i < j < final(v)@.len() && (#[trigger] final(v)@[i]).1 == (#[trigger] final(v)@[j]).1
                ==> final(v)@[i].0 < final(v)@[j].0,
{
    v.sort_by_key(|p| std::cmp::Reverse(p.1));
}

/// Some entry of `s` is at position `x`.
pub open spec fn lists_position(s: Seq<(usize, u64)>, x: int) -> bool {
    exists|j: int| 0 <= j < s.len() && (#[trigger] s[j]).0 == x
}

/// `s` lists the positions `0..vals.len()` of `vals`, each paired with its value, in some order.
pub open spec fn is_enumeration(s: Seq<(usize, u64)>, vals: Seq<u64>) -> bool {
    &&& s.len() == vals.len()
    &&& forall|j: int| 0 <= j < s.len() ==> (#[trigger] s[j]).0 < vals.len() && s[j].1 == vals[s[j].0 as int]
    &&& forall|a: int, b: int| 0 <= a < s.len() && 0 <= b < s.len() && a != b ==> (#[trigger] s[a]).0 != (#[trigger] s[b]).0
    &&& forall|x: int| 0 <= x < vals.len() ==> #[trigger] lists_position(s, x)
}

proof fn lemma_permuted_enumeration(e: Seq<(usize, u64)>, s: Seq<(usize, u64)>, vals: Seq<u64>)
    requires
        e.len() == vals.len(),
        e.len() <= usize::MAX,
        forall|i: int| 0 <= i < e.len() ==> #[trigger] e[i] == (i as usize, vals[i]),
        s.to_multiset() == e.to_multiset(),
    ensures
        is_enumeration(s, vals),
{
    broadcast use vstd::seq_lib::to_multiset_contains, vstd::seq_lib::to_multiset_len;

    assert(s.len() == e.len()) by {
        vstd::seq_lib::to_multiset_len(s);
        vstd::seq_lib::to_multiset_len(e);
    }
    assert forall|j: int| 0 <= j < s.len() implies (#[trigger] s[j]).0 < vals.len() && s[j].1 == vals[s[j].0 as int] by {
        assert(s.contains(s[j]));
        assert(s.to_multiset().count(s[j]) > 0);
        assert(e.contains(s[j]));
        let i = choose|i: int| 0 <= i < e.len() && e[i] == s[j];
        assert(e[i] == (i as usize, vals[i]));
    }
    assert(e.no_duplicates()) by {
        assert forall|a: int, b: int| 0 <= a < e.len() && 0 <= b < e.len() && a != b implies e[a] != e[b] by {
            assert(e[a] == (a as usize, vals[a]));
            assert(e[b] == (b as usize, vals[b]));
        }
    }
    e.lemma_multiset_has_no_duplicates();
    s.lemma_multiset_has_no_duplicates_conv();
    assert forall|a: int, b: int| 0 <= a < s.len() && 0 <= b < s.len() && a != b implies (#[trigger] s[a]).0 != (#[trigger] s[b]).0 by {
        if s[a].0 == s[b].0 {
            assert(s[a] == s[b]);
        }
    }
    assert forall|x: int| 0 <= x < vals.len() implies #[trigger] lists_position(s, x) by {
        assert(e[x] == (x as usize, vals[x]));
        assert(e.contains(e[x]));
        assert(e.to_multiset().count(e[x]) > 0);
        assert(s.contains(e[x]));
        let j = choose|j: int| 0 <= j < s.len() && s[j] == e[x];
        assert(s[j].0 == x);
    }
}

/// Pairs each value of `vals` with its position, then orders the pairs largest value first,
/// and, among equal values, lower position first.
fn sorted_enumeration(vals: &Vec<u64>) -> (s: Vec<(usize, u64)>)
    ensures
        is_enumeration(s@, vals@),
        forall|i: int, j: int| 0 <= i <= j < s@.len() ==> (#[trigger] s@[i]).1 >= (#[trigger] s@[j]).1,
        forall|i: int, j: int|
            0 <= i < j < s@.len() && (#[trigger] s@[i]).1 == (#[trigger] s@[j]).1 ==> s@[i].0 < s@[j].0,
{
    let mut e: Vec<(usize, u64)> = Vec::new();
    let n = vals.len();
    for i in 0..n
        invariant
            n == vals@.len(),
            e@.len() == i,
            forall|k: int| 0 <= k < i ==> #[trigger] e@[k] == (k as usize, vals@[k]),
    {
        e.push((i, vals[i]));
    }
    let ghost e0 = e@;
    sort_by_count_desc(&mut e);
    proof {
        lemma_permuted_enumeration(e0, e@, vals@);
    }
    e
}

/// The number of `true` entries.
pub open spec fn count_true(s: Seq<bool>) -> nat
    decreases s.len(),
{
    if s.len() == 0 {
        0
    } else {
        count_true(s.drop_last()) + if s.last() {
            1nat
        } else {
            0nat
        }
    }
}

proof fn lemma_count_true_set(s: Seq<bool>, k: int)
    requires
        0 <= k < s.len(),
        !s[k],
    ensures
        count_true(s.update(k, true)) == count_true(s) + 1,
    decreases s.len(),
{
    if k < s.len() - 1 {
        lemma_count_true_set(s.drop_last(), k);
        assert(s.update(k, true).drop_last() == s.drop_last().update(k, true));
    } else {
        assert(s.update(k, true).drop_last() == s.drop_last());
    }
}

proof fn lemma_count_true_all_false(s: Seq<bool>)
    requires
        forall|i: int| 0 <= i < s.len() ==> !s[i],
    ensures
        count_true(s) == 0,
    decreases s.len(),
{
    if s.len() > 0 {
        lemma_count_true_all_false(s.drop_last());
    }
}

/// The shadow capacity for a vocabulary of `target` terms: ten times as many, stopping at
/// `usize::MAX`.
pub open spec fn shadow_cap(target: nat) -> nat {
    if target * 10 > usize::MAX {
        usize::MAX as nat
    } else {
        target * 10
    }
}

/// `t` was indexed before and is not after.
pub open spec fn evicted(before: VocabModel, after: VocabModel, t: Seq<char>) -> bool {
    before.index.contains_key(t) && !after.index.contains_key(t)
}

/// The remembered counts after the evicted terms were added: an evicted term with a
/// positive count remembers the larger of that count and what it remembered before.
pub open spec fn merged_pruned(before: VocabModel, after: VocabModel) -> Map<Seq<char>, u64> {
    Map::new(
        |t: Seq<char>|
            before.pruned.contains_key(t) || (evicted(before, after, t) && df_of(before, t) > 0),
        |t: Seq<char>|
            if evicted(before, after, t) && df_of(before, t) > 0 {
                if get_or_zero(before.pruned, t) >= df_of(before, t) {
                    get_or_zero(before.pruned, t)
                } else {
                    df_of(before, t)
                }
            } else {
                before.pruned[t]
            },
    )
}

/// `after` keeps `cap` of the entries of `before` when `before` holds more than `cap`, and
/// those with the largest values; otherwise it is `before`.
pub open spec fn shadow_trimmed(before: Map<Seq<char>, u64>, after: Map<Seq<char>, u64>, cap: nat) -> bool {
    if before.len() > cap {
        &&& after.dom().finite()
        &&& after.len() == cap
        &&& forall|t: Seq<char>| #[trigger] after.contains_key(t) ==> before.contains_key(t) && after[t] == before[t]
        &&& forall|t: Seq<char>, u: Seq<char>|
            after.contains_key(t) && before.contains_key(u) && !after.contains_key(u) ==> #[trigger] before[t] >= #[trigger] before[u]
    } else {
        after == before
    }
}

/// Pruning to `target` terms: when there are more, exactly `target` of them stay, those
/// with the largest counts (on equal counts, the older term, of lower index), with their counts; the others are remembered with their
/// counts, and the remembered counts are cut back to the shadow capacity.
pub open spec fn prune_spec(before: VocabModel, after: VocabModel, target: nat) -> bool {
    if before.terms.len() <= target {
        after == before
    } else {
        &&& after.total == before.total
        &&& after.terms.len() == target
        &&& forall|t: Seq<char>| #[trigger] after.index.contains_key(t) ==> before.index.contains_key(t) && df_of(after, t) == df_of(before, t)
        &&& forall|t: Seq<char>, u: Seq<char>|
            after.index.contains_key(t) && evicted(before, after, u) ==> #[trigger] df_of(before, t) >= #[trigger] df_of(before, u)
        &&& forall|t: Seq<char>, u: Seq<char>|
            after.index.contains_key(t) && evicted(before, after, u) && #[trigger] df_of(before, t) == #[trigger] df_of(
                before,
                u,
            ) ==> before.index[t] < before.index[u]
        &&& shadow_trimmed(merged_pruned(before, after), after.pruned, shadow_cap(target))
    }
}


/// The remembered counts after the terms at positions below `upto` that are not flagged
/// for keeping were merged in (see `merged_pruned`).
pub open spec fn merged_upto(m: VocabModel, keep: Seq<bool>, upto: int) -> Map<Seq<char>, u64> {
    Map::new(
        |t: Seq<char>|
            m.pruned.contains_key(t) || (m.index.contains_key(t) && m.index[t] < upto && !keep[m.index[t] as int]
                && m.counts[m.index[t] as int] > 0),
        |t: Seq<char>|
            if m.index.contains_key(t) && m.index[t] < upto && !keep[m.index[t] as int]
                && m.counts[m.index[t] as int] > 0 {
                if get_or_zero(m.pruned, t) >= m.counts[m.index[t] as int] {
                    get_or_zero(m.pruned, t)
                } else {
                    m.counts[m.index[t] as int]
                }
            } else {
                m.pruned[t]
            },
    )
}

/// Keeps the `cap` entries of `p` with the largest values.
fn trim_shadow(p: &TermMap<u64>, cap: usize) -> (r: TermMap<u64>)
    requires
        p.wf(),
        p@.len() > cap,
    ensures
        r.wf(),
        shadow_trimmed(p@, r@, cap as nat),
{
    proof {
        p.lemma_wf_len();
    }
    let n = p.len();
    let mut vals: Vec<u64> = Vec::new();
    for i in 0..n
        invariant
            n == p.key_seq().len(),
            p.wf(),
            vals@.len() == i,
            forall|k: int| 0 <= k < i ==> #[trigger] vals@[k] == p@[p.key_seq()[k]],
    {
        let k = p.key_at(i);
        proof {
            p.lemma_wf_len();
        }
        let v = *p.get(k.as_str()).unwrap();
        vals.push(v);
    }
    let sorted = sorted_enumeration(&vals);
    let mut r: TermMap<u64> = TermMap::new();
    let mut j: usize = 0;
    while j < cap
        invariant
            j <= cap < n,
            n == p.key_seq().len() == vals@.len(),
            p.wf(),
            r.wf(),
            is_enumeration(sorted@, vals@),
            forall|k: int| 0 <= k < n ==> #[trigger] vals@[k] == p@[p.key_seq()[k]],
            r.key_seq().len() == j,
            forall|a: int| 0 <= a < j ==> #[trigger] r.key_seq()[a] == p.key_seq()[sorted@[a].0 as int],
            forall|t: Seq<char>| #[trigger] r@.contains_key(t) ==> p@.contains_key(t) && r@[t] == p@[t],
        decreases cap - j,
    {
        proof {
            p.lemma_wf_len();
            r.lemma_wf_len();
        }
        let pos = sorted[j].0;
        let key = p.key_at(pos);
        assert(!r@.contains_key(key@)) by {
            if r@.contains_key(key@) {
                assert(r.key_seq().contains(key@));
                let a = choose|a: int| 0 <= a < j && r.key_seq()[a] == key@;
                assert(p.key_seq()[sorted@[a].0 as int] == p.key_seq()[pos as int]);
                assert(sorted@[a].0 != sorted@[j as int].0);
            }
        }
        r.insert(key.clone(), sorted[j].1);
        j = j + 1;
    }
    proof {
        p.lemma_wf_len();
        r.lemma_wf_len();
        assert forall|t: Seq<char>, u: Seq<char>|
            r@.contains_key(t) && p@.contains_key(u) && !r@.contains_key(u) implies #[trigger] p@[t] >= #[trigger] p@[u] by {
            assert(r.key_seq().contains(t));
            let a = choose|a: int| 0 <= a < cap && r.key_seq()[a] == t;
            assert(p.key_seq().contains(u));
            let x = choose|x: int| 0 <= x < n && p.key_seq()[x] == u;
            assert(lists_position(sorted@, x));
            let b = choose|b: int| 0 <= b < sorted@.len() && (#[trigger] sorted@[b]).0 == x;
            if b < cap {
                assert(r.key_seq()[b] == u);
                assert(r.key_seq().contains(u));
            }
            assert(sorted@[a].1 >= sorted@[b].1);
        }
    }
    r
}

impl Default for VocabState {
    /// An empty vocabulary (see `empty`).
    fn default() -> (r: Self)
        ensures
            r.wf(),
            r.model().terms.len() == 0,
            r.model().pruned == Map::<Seq<char>, u64>::empty(),
            r.total_docs == 0,
    {
        VocabState::empty()
    }
}

/// A TF-IDF provider: a vocabulary and the number of terms it may hold.
pub struct TfIdfProvider {
    vocab: VocabState,
    max_vocab_size: u32,
}

impl TfIdfProvider {
    /// The vocabulary.
    pub closed spec fn state(&self) -> VocabState {
        self.vocab
    }

    /// The number of terms the vocabulary may hold after an update.
    pub closed spec fn max_size(&self) -> u32 {
        self.max_vocab_size
    }

    /// A provider over `vocab` that keeps at most `max_vocab_size` terms.
    pub fn new(vocab: VocabState, max_vocab_size: u32) -> (r: Self)
        ensures
            r.state() == vocab,
            r.max_size() == max_vocab_size,
    {
        TfIdfProvider { vocab, max_vocab_size }
    }

    /// Counts the documents `doc_texts` into the vocabulary (see `counted`), then prunes it
    /// to `max_vocab_size` terms (see `prune_spec`).
    pub fn update_vocab(&mut self, doc_texts: &[String])
        requires
            old(self).state().wf(),
        ensures
            final(self).state().wf(),
            final(self).max_size() == old(self).max_size(),
            prune_spec(counted(old(self).state().model(), doc_texts@), final(self).state().model(), old(self).max_size() as nat),
            disjoint_terms(old(self).state().model()) ==> disjoint_terms(final(self).state().model()),
            final(self).state().model().terms.len() <= old(self).max_size(),
    {
        let ghost m0 = self.vocab.model();
        let ghost docs = docs_tokens(doc_texts@);
        let mut processed: u64 = 0;
        let n = doc_texts.len();
        let mut d: usize = 0;
        while d < n
            invariant
                d <= n == doc_texts@.len(),
                docs == docs_tokens(doc_texts@),
                self.vocab.wf(),
                self.max_vocab_size == old(self).max_vocab_size,
                self.vocab.model() == add_docs(m0, docs.take(d as int)),
                processed as nat == nonempty_count(docs.take(d as int)),
                processed <= d,
            decreases n - d,
        {
            proof {
                assert(docs.take(d + 1).drop_last() == docs.take(d as int));
                assert(docs.take(d + 1).last() == tokens_of(doc_texts@[d as int]@));
            }
            let terms = tokenize(doc_texts[d].as_str());
            if terms.len() > 0 {
                processed = processed + 1;
                self.vocab.add_doc_exec(&terms);
            }
            d = d + 1;
        }
        assert(docs.take(n as int) == docs);
        proof {
            lemma_add_docs_total(m0, docs);
        }
        self.vocab.total_docs = self.vocab.total_docs.saturating_add(processed);
        proof {
            self.vocab.lemma_wf_facts();
        }
        self.prune_vocab();
        proof {
            lemma_update_keeps_invariant(m0, doc_texts@, self.vocab.model(), self.max_vocab_size as nat);
        }
    }

    /// The vocabulary.
    pub fn vocab(&self) -> (v: &VocabState)
        ensures
            *v == self.state(),
    {
        &self.vocab
    }

    /// What the TF-IDF embedding of `text` is computed from (see
    /// `VocabState::embedding_counts`).
    pub fn embed_counts(&self, text: &str) -> (r: EmbeddingCounts)
        ensures
            r.num_terms == tokens_of(text@).len(),
            r.total_docs == self.state().total_docs,
            is_term_counts(
                r.counts@,
                self.state().term_to_index@,
                self.state().term_doc_count@,
                tokens_of(text@),
            ),
    {
        self.vocab.embedding_counts(text)
    }

    /// Prunes the vocabulary to `max_vocab_size` terms (see `prune_spec`).
    pub fn prune_vocab(&mut self)
        requires
            old(self).state().wf(),
        ensures
            final(self).state().wf(),
            final(self).max_size() == old(self).max_size(),
            prune_spec(old(self).state().model(), final(self).state().model(), old(self).max_size() as nat),
    {
        let ghost m = self.vocab.model();
        proof {
            self.vocab.term_to_index.lemma_wf_len();
        }
        let target = self.max_vocab_size as usize;
        let n = self.vocab.term_to_index.len();
        if n <= target {
            return;
        }
        let sorted = sorted_enumeration(&self.vocab.term_doc_count);
        let mut keep: Vec<bool> = Vec::new();
        for i in 0..n
            invariant
                keep@.len() == i,
                forall|k: int| 0 <= k < i ==> !#[trigger] keep@[k],
        {
            keep.push(false);
        }
        proof {
            lemma_count_true_all_false(keep@);
        }
        let mut j: usize = 0;
        while j < target
            invariant
                j <= target < n,
                keep@.len() == n,
                n == m.counts.len(),
                is_enumeration(sorted@, m.counts),
                count_true(keep@) == j,
                forall|x: int| 0 <= x < n ==> (#[trigger] keep@[x] <==> exists|a: int| 0 <= a < j && (#[trigger] sorted@[a]).0 == x),
            decreases target - j,
        {
            let pos = sorted[j].0;
            assert(!keep@[pos as int]) by {
                if keep@[pos as int] {
                    let a = choose|a: int| 0 <= a < j && (#[trigger] sorted@[a]).0 == pos;
                    assert(sorted@[a].0 != sorted@[j as int].0);
                }
            }
            proof {
                lemma_count_true_set(keep@, pos as int);
            }
            keep.set(pos, true);
            proof {
                assert forall|x: int| 0 <= x < n implies (#[trigger] keep@[x] <==> exists|a: int| 0 <= a < j + 1 && (#[trigger] sorted@[a]).0 == x) by {
                    if x == pos {
                        assert(sorted@[j as int].0 == x);
                    } else if exists|a: int| 0 <= a < j + 1 && (#[trigger] sorted@[a]).0 == x {
                        let a = choose|a: int| 0 <= a < j + 1 && (#[trigger] sorted@[a]).0 == x;
                        assert(a != j);
                    }
                }
            }
            j = j + 1;
        }
        let mut new_index: TermMap<usize> = TermMap::new();
        let mut new_counts: Vec<u64> = Vec::new();
        let mut i: usize = 0;
        while i < n
            invariant
                i <= n == m.terms.len() == m.counts.len() == keep@.len(),
                model_wf(m),
                self.vocab.term_to_index.key_seq() == m.terms,
                self.vocab.term_to_index@ == m.index,
                self.vocab.term_doc_count@ == m.counts,
                self.vocab.total_docs == m.total,
                self.max_vocab_size == target,
                self.vocab.term_to_index.wf(),
                self.vocab.pruned_counts.wf(),
                self.vocab.pruned_counts@ == merged_upto(m, keep@, i as int),
                is_enumeration(sorted@, m.counts),
                count_true(keep@) == target,
                target < n,
                forall|x: int| 0 <= x < n ==> (#[trigger] keep@[x] <==> exists|a: int| 0 <= a < target && (#[trigger] sorted@[a]).0 == x),
                new_index.wf(),
                new_counts@.len() == new_index.key_seq().len(),
                count_true(keep@.take(i as int)) == new_counts@.len(),
                forall|p: int| 0 <= p < new_counts@.len() ==> #[trigger] new_index@[new_index.key_seq()[p]] == p,
                forall|t: Seq<char>| #[trigger] new_index@.contains_key(t) <==> (m.index.contains_key(t) && m.index[t] < i && keep@[m.index[t] as int]),
                forall|t: Seq<char>| #[trigger] new_index@.contains_key(t) ==> new_counts@[new_index@[t] as int] == m.counts[m.index[t] as int],
            decreases n - i,
        {
            proof {
                self.vocab.term_to_index.lemma_wf_len();
                new_index.lemma_wf_len();
                self.vocab.pruned_counts.lemma_wf_len();
                assert(keep@.take(i + 1).drop_last() == keep@.take(i as int));
                assert(m.index[m.terms[i as int]] == i);
            }
            let term = self.vocab.term_to_index.key_at(i);
            let count = self.vocab.term_doc_count[i];
            let ghost t = term@;
            let ghost before = self.vocab.pruned_counts@;
            if keep[i] {
                let p = new_counts.len();
                assert(!new_index@.contains_key(t));
                new_index.insert(term.clone(), p);
                new_counts.push(count);
                proof {
                    new_index.lemma_wf_len();
                    assert(self.vocab.pruned_counts@ =~= merged_upto(m, keep@, i + 1));
                }
            } else {
                if count > 0 {
                    let cur = match self.vocab.pruned_counts.get(term.as_str()) {
                        Some(c) => *c,
                        None => 0,
                    };
                    let merged = if cur >= count { cur } else { count };
                    let k2 = term.clone();
                    self.vocab.pruned_counts.insert(k2, merged);
                    proof {
                        assert(before.contains_key(t) ==> before[t] == m.pruned[t]);
                        assert(get_or_zero(m.pruned, t) == cur);
                        assert(self.vocab.pruned_counts@ =~= merged_upto(m, keep@, i + 1));
                    }
                } else {
                    proof {
                        assert(self.vocab.pruned_counts@ =~= merged_upto(m, keep@, i + 1));
                    }
                }
            }
            i = i + 1;
        }
        proof {
            new_index.lemma_wf_len();
            assert(keep@.take(n as int) == keep@);
        }
        self.vocab.term_to_index = new_index;
        self.vocab.term_doc_count = new_counts;
        proof {
            self.vocab.lemma_wf_facts();
        }
        let ghost a = self.vocab.model();
        proof {
            assert(merged_upto(m, keep@, n as int) =~= merged_pruned(m, a));
        }
        let cap = if target <= usize::MAX / 10 {
            target * 10
        } else {
            usize::MAX
        };
        proof {
            self.vocab.pruned_counts.lemma_wf_len();
        }
        assert(cap as nat == shadow_cap(target as nat)) by (nonlinear_arith)
            requires
                target <= usize::MAX / 10 ==> cap == target * 10,
                target > usize::MAX / 10 ==> cap == usize::MAX,
        ;
        if self.vocab.pruned_counts.len() > cap {
            let trimmed = trim_shadow(&self.vocab.pruned_counts, cap);
            self.vocab.pruned_counts = trimmed;
        }
        proof {
            self.vocab.lemma_wf_facts();
            let f = self.vocab.model();
            assert(f.total == m.total);
            assert(f.terms.len() == target);
            assert forall|t: Seq<char>| #[trigger] f.index.contains_key(t) implies m.index.contains_key(t) && df_of(f, t) == df_of(m, t) by {
            }
            assert(merged_pruned(m, f) =~= merged_pruned(m, a));
            assert(shadow_trimmed(merged_pruned(m, f), f.pruned, shadow_cap(target as nat)));
            assert forall|t: Seq<char>, u: Seq<char>|
                f.index.contains_key(t) && evicted(m, f, u) implies #[trigger] df_of(m, t) >= #[trigger] df_of(m, u) by {
                let it = m.index[t] as int;
                let iu = m.index[u] as int;
                assert(keep@[it]);
                let a1 = choose|a1: int| 0 <= a1 < target && (#[trigger] sorted@[a1]).0 == it;
                assert(m.terms.contains(u));
                let x = choose|x: int| 0 <= x < m.terms.len() && m.terms[x] == u;
                assert(m.index[m.terms[x]] == x);
                assert(!keep@[iu]);
                assert(lists_position(sorted@, iu));
                let b = choose|b: int| 0 <= b < sorted@.len() && (#[trigger] sorted@[b]).0 == iu;
                assert(b >= target);
                assert(sorted@[a1].1 >= sorted@[b].1);
            }
            assert forall|t: Seq<char>, u: Seq<char>|
                f.index.contains_key(t) && evicted(m, f, u) && #[trigger] df_of(m, t) == #[trigger] df_of(m, u)
                implies m.index[t] < m.index[u] by {
                let it = m.index[t] as int;
                let iu = m.index[u] as int;
                assert(keep@[it]);
                let a1 = choose|a1: int| 0 <= a1 < target && (#[trigger] sorted@[a1]).0 == it;
                assert(m.terms.contains(u));
                let x = choose|x: int| 0 <= x < m.terms.len() && m.terms[x] == u;
                assert(m.index[m.terms[x]] == x);
                assert(!keep@[iu]);
                assert(lists_position(sorted@, iu));
                let b = choose|b: int| 0 <= b < sorted@.len() && (#[trigger] sorted@[b]).0 == iu;
                assert(b >= target);
                assert(sorted@[a1].1 == sorted@[b].1);
            }
        }
    }
}



/// After pruning to `target` terms, the vocabulary holds at most `target` terms.
pub proof fn lemma_prune_bounds_vocabulary(before: VocabModel, after: VocabModel, target: nat)
    requires
        prune_spec(before, after, target),
    ensures
        after.terms.len() <= target,
        after.total == before.total,
{
}

/// Pruning never lowers the document frequency of a term, unless the shadow capacity drops
/// the term altogether.
pub proof fn lemma_prune_keeps_frequencies(before: VocabModel, after: VocabModel, target: nat, t: Seq<char>)
    requires
        model_wf(before),
        prune_spec(before, after, target),
    ensures
        df_of(after, t) >= df_of(before, t) || (!after.index.contains_key(t) && !after.pruned.contains_key(t)),
{
    if before.terms.len() > target {
        let mp = merged_pruned(before, after);
        if !after.index.contains_key(t) && after.pruned.contains_key(t) {
            assert(mp.contains_key(t));
            assert(after.pruned[t] == mp[t]);
            if before.index.contains_key(t) {
                assert(evicted(before, after, t));
            }
        }
    }
}

proof fn lemma_add_term_df(m: VocabModel, t: Seq<char>, u: Seq<char>)
    requires
        model_wf(m),
        !m.index.contains_key(t) ==> m.counts.len() < usize::MAX,
    ensures
        df_of(add_term(m, t), u) == if u == t { sat_inc(df_of(m, t)) } else { df_of(m, u) },
{
    if m.index.contains_key(t) && m.index.contains_key(u) && u != t {
        assert(m.terms.contains(t));
        assert(m.terms.contains(u));
        let it = choose|i: int| 0 <= i < m.terms.len() && m.terms[i] == t;
        let iu = choose|i: int| 0 <= i < m.terms.len() && m.terms[i] == u;
        assert(m.index[m.terms[it]] == it);
        assert(m.index[m.terms[iu]] == iu);
    }
    if !m.index.contains_key(t) && m.index.contains_key(u) {
        assert(m.terms.contains(u));
        let iu = choose|i: int| 0 <= i < m.terms.len() && m.terms[i] == u;
        assert(m.index[m.terms[iu]] == iu);
    }
}

/// Counting a document raises the document frequency of each of its distinct tokens by one
/// (stopping at `u64::MAX`) and leaves every other term's alone; a pruned term comes back
/// with its remembered frequency plus one.
pub proof fn lemma_add_doc_df(m: VocabModel, toks: Seq<Seq<char>>, u: Seq<char>)
    requires
        model_wf(m),
        m.counts.len() + toks.len() < usize::MAX,
    ensures
        model_wf(add_doc(m, toks)),
        add_doc(m, toks).counts.len() <= m.counts.len() + toks.len(),
        df_of(add_doc(m, toks), u) == if toks.contains(u) { sat_inc(df_of(m, u)) } else { df_of(m, u) },
    decreases toks.len(),
{
    if toks.len() > 0 {
        let init = toks.drop_last();
        let last = toks.last();
        lemma_add_doc_df(m, init, u);
        let prev = add_doc(m, init);
        if !init.contains(last) {
            lemma_add_term_wf(prev, last);
            lemma_add_term_df(prev, last, u);
        }
        if toks.contains(u) && !init.contains(u) {
            let k = choose|k: int| 0 <= k < toks.len() && toks[k] == u;
            if k < init.len() {
                assert(init[k] == u);
            }
        }
        if init.contains(u) {
            let k = choose|k: int| 0 <= k < init.len() && init[k] == u;
            assert(toks[k] == u);
        }
    }
}


/// `x`, stopping at `u64::MAX`.
pub open spec fn capped(x: int) -> u64 {
    if x > u64::MAX {
        u64::MAX
    } else {
        x as u64
    }
}

/// How many of `docs` hold `t`.
pub open spec fn docs_holding(docs: Seq<Seq<Seq<char>>>, t: Seq<char>) -> nat
    decreases docs.len(),
{
    if docs.len() == 0 {
        0
    } else {
        docs_holding(docs.drop_last(), t) + if docs.last().contains(t) {
            1nat
        } else {
            0nat
        }
    }
}

/// The number of tokens in all of `docs`.
pub open spec fn token_total(docs: Seq<Seq<Seq<char>>>) -> nat
    decreases docs.len(),
{
    if docs.len() == 0 {
        0
    } else {
        token_total(docs.drop_last()) + docs.last().len()
    }
}

proof fn lemma_add_docs_df(m: VocabModel, docs: Seq<Seq<Seq<char>>>, u: Seq<char>)
    requires
        model_wf(m),
        m.counts.len() + token_total(docs) < usize::MAX,
    ensures
        model_wf(add_docs(m, docs)),
        add_docs(m, docs).counts.len() <= m.counts.len() + token_total(docs),
        df_of(add_docs(m, docs), u) == capped(df_of(m, u) + docs_holding(docs, u)),
    decreases docs.len(),
{
    if docs.len() > 0 {
        let init = docs.drop_last();
        lemma_add_docs_df(m, init, u);
        let prev = add_docs(m, init);
        lemma_add_doc_df(prev, docs.last(), u);
    }
}

/// Counting a batch of documents and pruning never loses document frequency: afterwards
/// the frequency of a term (active, or remembered after pruning) is at least what it was
/// plus the number of the batch's documents that hold it (stopping at `u64::MAX`), unless
/// the remembered frequencies were cut down to their capacity and dropped the term.
pub proof fn lemma_update_accumulates(before: VocabModel, texts: Seq<String>, after: VocabModel, target: nat, t: Seq<char>)
    requires
        model_wf(before),
        before.counts.len() + token_total(docs_tokens(texts)) < usize::MAX,
        prune_spec(counted(before, texts), after, target),
    ensures
        df_of(after, t) >= capped(df_of(before, t) + docs_holding(docs_tokens(texts), t)) || (
        !after.index.contains_key(t) && !after.pruned.contains_key(t)),
{
    let docs = docs_tokens(texts);
    lemma_add_docs_df(before, docs, t);
    let c = counted(before, texts);
    assert(df_of(c, t) == df_of(add_docs(before, docs), t));
    lemma_prune_keeps_frequencies(c, after, target, t);
}

/// No term is both active and remembered as pruned.
pub open spec fn disjoint_terms(m: VocabModel) -> bool {
    forall|t: Seq<char>| !(#[trigger] m.index.contains_key(t) && m.pruned.contains_key(t))
}

proof fn lemma_add_term_disjoint(m: VocabModel, t: Seq<char>)
    requires
        disjoint_terms(m),
    ensures
        disjoint_terms(add_term(m, t)),
{
}

proof fn lemma_add_doc_disjoint(m: VocabModel, toks: Seq<Seq<char>>)
    requires
        disjoint_terms(m),
    ensures
        disjoint_terms(add_doc(m, toks)),
    decreases toks.len(),
{
    if toks.len() > 0 {
        lemma_add_doc_disjoint(m, toks.drop_last());
        lemma_add_term_disjoint(add_doc(m, toks.drop_last()), toks.last());
    }
}

proof fn lemma_add_docs_disjoint(m: VocabModel, docs: Seq<Seq<Seq<char>>>)
    requires
        disjoint_terms(m),
    ensures
        disjoint_terms(add_docs(m, docs)),
    decreases docs.len(),
{
    if docs.len() > 0 {
        lemma_add_docs_disjoint(m, docs.drop_last());
        lemma_add_doc_disjoint(add_docs(m, docs.drop_last()), docs.last());
    }
}

/// Pruning a vocabulary of more than `target` terms leaves exactly `target` of its terms,
/// and the number of documents seen.
pub proof fn lemma_prune_shape(before: VocabModel, after: VocabModel, target: nat)
    requires
        before.terms.len() > target,
        prune_spec(before, after, target),
    ensures
        after.terms.len() == target,
        after.total == before.total,
        forall|t: Seq<char>| #[trigger] after.index.contains_key(t) ==> before.index.contains_key(t),
{
}

/// Counting a batch and pruning keep the vocabulary's invariant: the active and the
/// remembered terms stay apart, and at most `target` terms stay active.
pub proof fn lemma_update_keeps_invariant(before: VocabModel, texts: Seq<String>, after: VocabModel, target: nat)
    requires
        prune_spec(counted(before, texts), after, target),
    ensures
        disjoint_terms(before) ==> disjoint_terms(after),
        after.terms.len() <= target,
{
    let c = counted(before, texts);
    if disjoint_terms(before) {
        lemma_add_docs_disjoint(before, docs_tokens(texts));
        assert(disjoint_terms(c));
        if c.terms.len() > target {
            assert forall|t: Seq<char>| !(#[trigger] after.index.contains_key(t) && after.pruned.contains_key(t)) by {
                if after.index.contains_key(t) && after.pruned.contains_key(t) {
                    let mp = merged_pruned(c, after);
                    assert(mp.contains_key(t));
                    assert(c.index.contains_key(t));
                }
            }
        }
    }
}

proof fn lemma_count_true_bound(s: Seq<bool>)
    ensures
        count_true(s) <= s.len(),
        count_true(s) == s.len() ==> forall|i: int| 0 <= i < s.len() ==> #[trigger] s[i],
    decreases s.len(),
{
    if s.len() > 0 {
        lemma_count_true_bound(s.drop_last());
        assert forall|i: int| 0 <= i < s.len() - 1 implies s.drop_last()[i] == s[i] by {}
    }
}

/// `index` maps its terms one to one onto the positions `0..n`.
pub open spec fn dense_index(index: Map<Seq<char>, usize>, n: nat) -> bool {
    &&& index.dom().finite()
    &&& index.len() == n
    &&& forall|t: Seq<char>| #[trigger] index.contains_key(t) ==> index[t] < n
    &&& forall|t: Seq<char>, u: Seq<char>|
        #[trigger] index.contains_key(t) && #[trigger] index.contains_key(u) && t != u ==> index[t] != index[u]
}

impl VocabState {
    /// A vocabulary from its parts, with the terms put in the order of their indices: there
    /// is one exactly when the indices are the positions `0..term_doc_count.len()`, each used
    /// once (see `dense_index`).
    pub fn from_parts(
        term_to_index: TermMap<usize>,
        term_doc_count: Vec<u64>,
        total_docs: u64,
        pruned_counts: TermMap<u64>,
    ) -> (r: Option<VocabState>)
        requires
            term_to_index.wf(),
            pruned_counts.wf(),
        ensures
            r is Some <==> dense_index(term_to_index@, term_doc_count@.len()),
            r matches Some(v) ==> {
                &&& v.wf()
                &&& v.term_to_index@ == term_to_index@
                &&& v.term_doc_count@ == term_doc_count@
                &&& v.total_docs == total_docs
                &&& v.pruned_counts@ == pruned_counts@
            },
    {
        proof {
            term_to_index.lemma_wf_len();
        }
        let ghost m = term_to_index@;
        let ghost ks = term_to_index.key_seq();
        let n = term_doc_count.len();
        if term_to_index.len() != n {
            return None;
        }
        let mut filled: Vec<bool> = Vec::new();
        let mut slot_keys: Vec<String> = Vec::new();
        for p in 0..n
            invariant
                filled@.len() == p,
                slot_keys@.len() == p,
                forall|q: int| 0 <= q < p ==> !#[trigger] filled@[q],
        {
            filled.push(false);
            slot_keys.push(String::new());
        }
        proof {
            lemma_count_true_all_false(filled@);
        }
        let mut i: usize = 0;
        while i < n
            invariant
                n == ks.len() == m.len(),
                m == term_to_index@,
                ks == term_to_index.key_seq(),
                term_to_index.wf(),
                i <= n,
                filled@.len() == n,
                slot_keys@.len() == n,
                count_true(filled@) == i,
                forall|j: int| 0 <= j < i ==> #[trigger] m[ks[j]] < n,
                forall|j: int| 0 <= j < i ==> #[trigger] filled@[m[ks[j]] as int] && slot_keys@[m[ks[j]] as int]@ == ks[j],
                forall|q: int| 0 <= q < n && #[trigger] filled@[q] ==> m.contains_key(slot_keys@[q]@) && m[slot_keys@[q]@] == q,
                forall|q: int| 0 <= q < n && #[trigger] filled@[q] ==> exists|j: int| 0 <= j < i && ks[j] == slot_keys@[q]@,
            decreases n - i,
        {
            proof {
                term_to_index.lemma_wf_len();
            }
            let k = term_to_index.key_at(i);
            let v = *term_to_index.get(k.as_str()).unwrap();
            if v >= n {
                proof {
                    assert(m.contains_key(ks[i as int]));
                }
                return None;
            }
            if filled[v] {
                proof {
                    let j = choose|j: int| 0 <= j < i && ks[j] == slot_keys@[v as int]@;
                    assert(ks[j] != ks[i as int]);
                    assert(m.contains_key(ks[j]) && m.contains_key(ks[i as int]));
                    assert(m[ks[j]] == m[ks[i as int]]);
                }
                return None;
            }
            proof {
                lemma_count_true_set(filled@, v as int);
            }
            filled.set(v, true);
            slot_keys.set(v, k.clone());
            proof {
                assert forall|q: int| 0 <= q < n && #[trigger] filled@[q] implies exists|j: int| 0 <= j < i + 1 && ks[j] == slot_keys@[q]@ by {
                    if q == v {
                        assert(ks[i as int] == slot_keys@[q]@);
                    } else {
                        let j = choose|j: int| 0 <= j < i && ks[j] == slot_keys@[q]@;
                        assert(ks[j] == slot_keys@[q]@);
                    }
                }
                assert forall|j: int| 0 <= j < i + 1 implies #[trigger] filled@[m[ks[j]] as int] && slot_keys@[m[ks[j]] as int]@ == ks[j] by {
                    if j < i {
                        if m[ks[j]] == v {
                            assert(filled@[v as int]);
                        }
                    }
                }
            }
            i = i + 1;
        }
        proof {
            lemma_count_true_bound(filled@);
            assert forall|j: int| 0 <= j < n implies #[trigger] m[ks[j]] < n && slot_keys@[m[ks[j]] as int]@ == ks[j] by {
                assert(m[ks[j]] < n);
                assert(filled@[m[ks[j]] as int] && slot_keys@[m[ks[j]] as int]@ == ks[j]);
            }
        }
        let mut index: TermMap<usize> = TermMap::new();
        let mut p: usize = 0;
        while p < n
            invariant
                p <= n,
                filled@.len() == n,
                slot_keys@.len() == n,
                forall|q: int| 0 <= q < n ==> #[trigger] filled@[q],
                forall|q: int| 0 <= q < n && #[trigger] filled@[q] ==> m.contains_key(slot_keys@[q]@) && m[slot_keys@[q]@] == q,
                index.wf(),
                index.key_seq().len() == p,
                forall|q: int| 0 <= q < p ==> #[trigger] index.key_seq()[q] == slot_keys@[q]@,
                forall|t: Seq<char>| #[trigger] index@.contains_key(t) ==> m.contains_key(t) && m[t] < p && index@[t] == m[t],
                forall|q: int| 0 <= q < p ==> index@.contains_key(#[trigger] slot_keys@[q]@),
                n == ks.len(),
                forall|j: int| 0 <= j < n ==> #[trigger] m[ks[j]] < n && slot_keys@[m[ks[j]] as int]@ == ks[j],
            decreases n - p,
        {
            let key = slot_keys[p].clone();
            assert(filled@[p as int]);
            assert(!index@.contains_key(key@)) by {
                if index@.contains_key(key@) {
                    assert(m[key@] < p);
                }
            }
            index.insert(key, p);
            p = p + 1;
        }
        proof {
            index.lemma_wf_len();
            assert forall|t: Seq<char>| #[trigger] m.contains_key(t) implies index@.contains_key(t) by {
                assert(ks.contains(t));
                let j = choose|j: int| 0 <= j < ks.len() && ks[j] == t;
                assert(m[ks[j]] < n && slot_keys@[m[ks[j]] as int]@ == ks[j]);
                assert(index@.contains_key(slot_keys@[m[ks[j]] as int]@));
            }
            assert(index@ =~= m);
            assert forall|t: Seq<char>, u: Seq<char>|
                #[trigger] m.contains_key(t) && #[trigger] m.contains_key(u) && t != u implies m[t] != m[u] by {
                if m[t] == m[u] {
                    assert(filled@[m[t] as int]);
                    assert(index@.contains_key(t) && index@.contains_key(u));
                    assert(index.key_seq()[m[t] as int] == slot_keys@[m[t] as int]@);
                }
            }
        }
        let r = VocabState { term_to_index: index, term_doc_count, total_docs, pruned_counts };
        proof {
            assert forall|q: int| 0 <= q < r.term_to_index.key_seq().len() implies #[trigger] r.term_to_index@[r.term_to_index.key_seq()[q]] == q by {
                assert(filled@[q]);
            }
            r.lemma_wf_facts();
        }
        Some(r)
    }
}

} // verus!
