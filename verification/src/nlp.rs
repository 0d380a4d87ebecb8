use vstd::prelude::*;
use vstd::utf8::encode_utf8;
use rust_stemmers::{Algorithm, Stemmer};
use unicode_segmentation::UnicodeSegmentation;

use crate::text::views;

verus! {

/// `rust_stemmers::Stemmer`, declared so that a field can hold one; Verus sees nothing
/// inside it.
#[verifier::external_type_specification]
#[verifier::external_body]
pub struct ExStemmer(Stemmer);

/// The words that `UnicodeSegmentation::unicode_words` finds in `text`, in order.
pub uninterp spec fn unicode_words_of(text: Seq<char>) -> Seq<Seq<char>>;

/// What `str::to_lowercase` makes of `s`.
pub uninterp spec fn lowercase_of(s: Seq<char>) -> Seq<char>;

/// What the English Snowball stemmer of `rust_stemmers` makes of `word`.
pub uninterp spec fn english_stem_of(word: Seq<char>) -> Seq<char>;

/// Calls `unicode_segmentation::UnicodeSegmentation::unicode_words` on `text` and copies
/// each word out. Claimed: the copies are exactly the words that the crate yields, in
/// order (named `unicode_words_of`, a function of `text` alone).
#[verifier::external_body]
pub(crate) fn unicode_words(text: &str) -> (words: Vec<String>)
    ensures
        views(words@) == unicode_words_of(text@),
{
    text.unicode_words().map(|w| w.to_string()).collect()
}

/// Calls std's `str::to_lowercase`. Claimed: the result is the lower-case mapping of `s`
/// (named `lowercase_of`, a function of `s` alone).
#[verifier::external_body]
pub(crate) fn to_lowercase(s: &str) -> (r: String)
    ensures
        r@ == lowercase_of(s@),
{
    s.to_lowercase()
}

/// The English Snowball stemmer of `rust_stemmers`.
pub struct EnglishStemmer {
    inner: Stemmer,
}

impl EnglishStemmer {
    /// Calls `rust_stemmers::Stemmer::create(Algorithm::English)`. Nothing is claimed of
    /// the value beyond that it is an English stemmer, which `stem` relies on.
    #[verifier::external_body]
    pub(crate) fn new() -> (s: Self) {
        EnglishStemmer { inner: Stemmer::create(Algorithm::English) }
    }

    /// Calls `rust_stemmers::Stemmer::stem` on the English stemmer and copies the stem out.
    /// Claimed: the stem is a function of `word` alone (named `english_stem_of`).
    #[verifier::external_body]
    pub(crate) fn stem(&self, word: &str) -> (r: String)
        ensures
            r@ == english_stem_of(word@),
    {
        self.inner.stem(word).to_string()
    }
}

/// The number of UTF-8 bytes that encode `s`, as `str::len` reports it.
pub open spec fn utf8_len(s: Seq<char>) -> usize {
    encode_utf8(s).len() as usize
}

/// Tokens of a list of words: each word lower-cased, kept when its lower-case form takes
/// more than one byte, then stemmed.
pub open spec fn tokens_from(words: Seq<Seq<char>>) -> Seq<Seq<char>>
    decreases words.len(),
{
    if words.len() == 0 {
        Seq::empty()
    } else {
        let prev = tokens_from(words.drop_last());
        let lw = lowercase_of(words.last());
        if encode_utf8(lw).len() > 1 {
            prev.push(english_stem_of(lw))
        } else {
            prev
        }
    }
}

/// The tokens of `text`.
pub open spec fn tokens_of(text: Seq<char>) -> Seq<Seq<char>> {
    tokens_from(unicode_words_of(text))
}

/// No words give no tokens; one more word adds the stem of its lower-case form exactly when
/// that form takes two or more UTF-8 bytes, and adds nothing when it takes one byte or none.
pub proof fn lemma_tokens_one_more_word(ws: Seq<Seq<char>>, w: Seq<char>)
    ensures
        tokens_from(Seq::empty()) == Seq::<Seq<char>>::empty(),
        encode_utf8(lowercase_of(w)).len() >= 2 ==> tokens_from(ws.push(w)) == tokens_from(ws).push(
            english_stem_of(lowercase_of(w)),
        ),
        encode_utf8(lowercase_of(w)).len() < 2 ==> tokens_from(ws.push(w)) == tokens_from(ws),
{
    assert(ws.push(w).drop_last() == ws);
    assert(ws.push(w).last() == w);
}

/// The tokens of a text are the stems of the lower-case forms of its Unicode words, in
/// order, leaving out exactly the words whose lower-case form takes fewer than two bytes: a
/// word of two or more bytes always gives a token.
pub proof fn lemma_tokens_of_words(ws: Seq<Seq<char>>)
    ensures
        tokens_from(ws).len() <= ws.len(),
        (forall|k: int| 0 <= k < ws.len() ==> encode_utf8(lowercase_of(#[trigger] ws[k])).len() >= 2) ==> tokens_from(ws)
            == ws.map_values(|w: Seq<char>| english_stem_of(lowercase_of(w))),
    decreases ws.len(),
{
    if ws.len() > 0 {
        let init = ws.drop_last();
        lemma_tokens_of_words(init);
        lemma_tokens_one_more_word(init, ws.last());
        assert(init.push(ws.last()) == ws);
        if forall|k: int| 0 <= k < ws.len() ==> encode_utf8(lowercase_of(#[trigger] ws[k])).len() >= 2 {
            assert forall|k: int| 0 <= k < init.len() implies encode_utf8(lowercase_of(#[trigger] init[k])).len() >= 2 by {
                assert(init[k] == ws[k]);
            }
            assert(encode_utf8(lowercase_of(ws[ws.len() - 1])).len() >= 2);
            assert(tokens_from(ws) =~= ws.map_values(|w: Seq<char>| english_stem_of(lowercase_of(w))));
        }
    } else {
        assert(tokens_from(ws) =~= ws.map_values(|w: Seq<char>| english_stem_of(lowercase_of(w))));
    }
}

/// The tokens of a text whose Unicode words all take two or more bytes once lower-cased are
/// the stems of those lower-case words, one for each word, in order.
pub proof fn lemma_tokens_of_text(text: Seq<char>)
    ensures
        tokens_of(text).len() <= unicode_words_of(text).len(),
        (forall|k: int|
            0 <= k < unicode_words_of(text).len() ==> encode_utf8(lowercase_of(#[trigger] unicode_words_of(text)[k])).len()
                >= 2) ==> tokens_of(text) == unicode_words_of(text).map_values(
            |w: Seq<char>| english_stem_of(lowercase_of(w)),
        ),
{
    lemma_tokens_of_words(unicode_words_of(text));
}

} // verus!
