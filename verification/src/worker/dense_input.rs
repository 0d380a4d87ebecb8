use vstd::prelude::*;

verus! {

/// The longest token sequence that the embedding model is given.
pub const MAX_SEQ_LENGTH: usize = 512;

/// The inputs of the embedding model, one entry per token.
#[derive(Debug)]
pub struct ModelInput {
    pub token_ids: Vec<i64>,
    pub token_type_ids: Vec<i64>,
    pub attention_mask: Vec<i64>,
}

/// The values of `s` as `i64`.
pub open spec fn widened(s: Seq<u32>) -> Seq<i64> {
    s.map_values(|x: u32| x as i64)
}

/// The values of `s` as `i64`, in order.
pub fn widen(s: &[u32]) -> (r: Vec<i64>)
    ensures
        r@ == widened(s@),
{
    let mut r: Vec<i64> = Vec::new();
    for i in 0..s.len()
        invariant
            r@ == widened(s@.take(i as int)),
    {
        r.push(s[i] as i64);
        assert(widened(s@.take(i + 1)) =~= widened(s@.take(i as int)).push(s@[i as int] as i64));
    }
    assert(s@.take(s@.len() as int) == s@);
    r
}

/// The inputs of the model for an encoding: the token ids, type ids and attention mask as
/// `i64`; when there are more than `MAX_SEQ_LENGTH` tokens, the first `MAX_SEQ_LENGTH` of each.
pub fn model_input(ids: &[u32], type_ids: &[u32], mask: &[u32]) -> (r: ModelInput)
    requires
        ids@.len() > MAX_SEQ_LENGTH ==> type_ids@.len() >= MAX_SEQ_LENGTH && mask@.len() >= MAX_SEQ_LENGTH,
    ensures
        ids@.len() <= MAX_SEQ_LENGTH ==> {
            &&& r.token_ids@ == widened(ids@)
            &&& r.token_type_ids@ == widened(type_ids@)
            &&& r.attention_mask@ == widened(mask@)
        },
        ids@.len() > MAX_SEQ_LENGTH ==> {
            &&& r.token_ids@ == widened(ids@.take(MAX_SEQ_LENGTH as int))
            &&& r.token_type_ids@ == widened(type_ids@.take(MAX_SEQ_LENGTH as int))
            &&& r.attention_mask@ == widened(mask@.take(MAX_SEQ_LENGTH as int))
        },
{
    let token_ids = widen(ids);
    let token_type_ids = widen(type_ids);
    let attention_mask = widen(mask);
    if ids.len() > MAX_SEQ_LENGTH {
        let mut a = token_ids;
        let mut b = token_type_ids;
        let mut c = attention_mask;
        a.truncate(MAX_SEQ_LENGTH);
        b.truncate(MAX_SEQ_LENGTH);
        c.truncate(MAX_SEQ_LENGTH);
        assert(widened(ids@.take(MAX_SEQ_LENGTH as int)) =~= widened(ids@).take(MAX_SEQ_LENGTH as int));
        assert(widened(type_ids@.take(MAX_SEQ_LENGTH as int)) =~= widened(type_ids@).take(MAX_SEQ_LENGTH as int));
        assert(widened(mask@.take(MAX_SEQ_LENGTH as int)) =~= widened(mask@).take(MAX_SEQ_LENGTH as int));
        ModelInput { token_ids: a, token_type_ids: b, attention_mask: c }
    } else {
        ModelInput { token_ids, token_type_ids, attention_mask }
    }
}

/// The number of entries of `mask` that are 1.
pub open spec fn ones(mask: Seq<u32>) -> nat
    decreases mask.len(),
{
    if mask.len() == 0 {
        0
    } else {
        ones(mask.drop_last()) + if mask.last() == 1 {
            1nat
        } else {
            0nat
        }
    }
}

proof fn lemma_ones_bounded(mask: Seq<u32>)
    ensures
        ones(mask) <= mask.len(),
    decreases mask.len(),
{
    if mask.len() > 0 {
        lemma_ones_bounded(mask.drop_last());
    }
}

/// The number of tokens that the mean is taken over: the tokens whose mask is 1, or 1
/// when there are none.
pub fn pooling_divisor(mask: &[u32]) -> (r: usize)
    ensures
        r == if ones(mask@) == 0 { 1 } else { ones(mask@) },
{
    let mut n: usize = 0;
    for i in 0..mask.len()
        invariant
            n == ones(mask@.take(i as int)),
    {
        proof {
            assert(mask@.take(i + 1).drop_last() == mask@.take(i as int));
            lemma_ones_bounded(mask@.take(i as int));
        }
        if mask[i] == 1 {
            n = n + 1;
        }
    }
    assert(mask@.take(mask@.len() as int) == mask@);
    if n == 0 {
        1
    } else {
        n
    }
}

/// The rows of the model's output that are averaged: each row below `seq_dim` whose mask
/// entry is 1, in order.
pub open spec fn pooled_rows_spec(mask: Seq<u32>, seq_dim: nat) -> Seq<usize>
    decreases seq_dim,
{
    if seq_dim == 0 {
        Seq::empty()
    } else {
        let k = (seq_dim - 1) as nat;
        let prev = pooled_rows_spec(mask, k);
        if k < mask.len() && mask[k as int] == 1 {
            prev.push(k as usize)
        } else {
            prev
        }
    }
}

/// The averaged rows are, in increasing order, exactly the rows below `seq_dim` whose mask
/// entry is 1; over the whole mask there are as many of them as the mask holds ones.
pub proof fn lemma_pooled_rows_are_masked(mask: Seq<u32>, seq_dim: nat)
    requires
        seq_dim <= usize::MAX,
    ensures
        forall|a: int, b: int|
            0 <= a < b < pooled_rows_spec(mask, seq_dim).len() ==> pooled_rows_spec(mask, seq_dim)[a]
                < pooled_rows_spec(mask, seq_dim)[b],
        forall|a: int|
            0 <= a < pooled_rows_spec(mask, seq_dim).len() ==> pooled_rows_spec(mask, seq_dim)[a] < seq_dim
                && pooled_rows_spec(mask, seq_dim)[a] < mask.len() && mask[pooled_rows_spec(mask, seq_dim)[a] as int]
                == 1,
        forall|k: int|
            0 <= k < seq_dim && k < mask.len() && mask[k] == 1 ==> pooled_rows_spec(mask, seq_dim).contains(
                k as usize,
            ),
        seq_dim <= mask.len() ==> pooled_rows_spec(mask, seq_dim).len() == ones(mask.take(seq_dim as int)),
    decreases seq_dim,
{
    if seq_dim > 0 {
        let k = (seq_dim - 1) as nat;
        lemma_pooled_rows_are_masked(mask, k);
        let prev = pooled_rows_spec(mask, k);
        let r = pooled_rows_spec(mask, seq_dim);
        if k < mask.len() && mask[k as int] == 1 {
            assert(r == prev.push(k as usize));
            assert(r[prev.len() as int] == k as usize);
            assert forall|j: int| 0 <= j < seq_dim && j < mask.len() && mask[j] == 1 implies r.contains(j as usize) by {
                if j < k {
                    assert(prev.contains(j as usize));
                    let a = choose|a: int| 0 <= a < prev.len() && prev[a] == j as usize;
                    assert(r[a] == j as usize);
                }
            }
        } else {
            assert forall|j: int| 0 <= j < seq_dim && j < mask.len() && mask[j] == 1 implies r.contains(j as usize) by {
                assert(j != k);
            }
        }
        if seq_dim <= mask.len() {
            assert(mask.take(seq_dim as int).drop_last() == mask.take(k as int));
            assert(mask.take(seq_dim as int).last() == mask[k as int]);
        }
    } else {
        assert(mask.take(0) == Seq::<u32>::empty());
    }
}

/// The rows of the model's output that are averaged (see `pooled_rows_spec`).
pub fn pooled_rows(mask: &[u32], seq_dim: usize) -> (r: Vec<usize>)
    ensures
        r@ == pooled_rows_spec(mask@, seq_dim as nat),
{
    let mut r: Vec<usize> = Vec::new();
    for k in 0..seq_dim
        invariant
            r@ == pooled_rows_spec(mask@, k as nat),
    {
        if k < mask.len() && mask[k] == 1 {
            r.push(k);
        }
    }
    r
}

} // verus!
