use vstd::prelude::*;
use vstd::string::*;

verus! {

broadcast use vstd::string::group_string_axioms;

/// Unicode `White_Space` characters, as `char::is_whitespace` documents them.
pub open spec fn is_ws(c: char) -> bool {
    let u = c as u32;
    ||| 0x09 <= u <= 0x0d
    ||| u == 0x20
    ||| u == 0x85
    ||| u == 0xa0
    ||| u == 0x1680
    ||| 0x2000 <= u <= 0x200a
    ||| u == 0x2028
    ||| u == 0x2029
    ||| u == 0x202f
    ||| u == 0x205f
    ||| u == 0x3000
}

/// `s` without its leading white space.
pub open spec fn trim_start_spec(s: Seq<char>) -> Seq<char>
    decreases s.len(),
{
    if s.len() > 0 && is_ws(s[0]) {
        trim_start_spec(s.drop_first())
    } else {
        s
    }
}

/// `s` without its trailing white space.
pub open spec fn trim_end_spec(s: Seq<char>) -> Seq<char>
    decreases s.len(),
{
    if s.len() > 0 && is_ws(s.last()) {
        trim_end_spec(s.drop_last())
    } else {
        s
    }
}

/// `s` without leading and trailing white space (what `str::trim` gives).
pub open spec fn trim_spec(s: Seq<char>) -> Seq<char> {
    trim_end_spec(trim_start_spec(s))
}

/// `pat` occurs in `text` at character position `i`.
pub open spec fn occurs_at(text: Seq<char>, pat: Seq<char>, i: int) -> bool {
    0 <= i && i + pat.len() <= text.len() && text.subrange(i, i + pat.len()) == pat
}

/// The first position at or after `start` where `pat` occurs in `text`.
pub open spec fn find_from(text: Seq<char>, pat: Seq<char>, start: int) -> Option<int>
    decreases text.len() - start,
{
    if start < 0 || start + pat.len() > text.len() {
        None
    } else if occurs_at(text, pat, start) {
        Some(start)
    } else if start >= text.len() {
        None
    } else {
        find_from(text, pat, start + 1)
    }
}

/// The first position where `pat` occurs in `text` (what `str::find` gives, counted in characters).
pub open spec fn find_spec(text: Seq<char>, pat: Seq<char>) -> Option<int> {
    find_from(text, pat, 0)
}

/// `text` contains `pat`.
pub open spec fn contains_spec(text: Seq<char>, pat: Seq<char>) -> bool {
    find_spec(text, pat) is Some
}

/// `s` begins with `p`.
pub open spec fn starts_with_spec(s: Seq<char>, p: Seq<char>) -> bool {
    p.len() <= s.len() && s.take(p.len() as int) == p
}

/// `s` ends with `p`.
pub open spec fn ends_with_spec(s: Seq<char>, p: Seq<char>) -> bool {
    p.len() <= s.len() && s.skip(s.len() - p.len()) == p
}

/// The view of an optional string.
pub open spec fn opt_view(o: Option<String>) -> Option<Seq<char>> {
    match o {
        Some(s) => Some(s@),
        None => None,
    }
}

/// The views of a sequence of strings.
pub open spec fn views(v: Seq<String>) -> Seq<Seq<char>> {
    v.map_values(|s: String| s@)
}

/// The characters of `s`, in order.
pub fn chars_of(s: &str) -> (out: Vec<char>)
    ensures
        out@ == s@,
{
    let mut out: Vec<char> = Vec::new();
    for c in it: s.chars()
        invariant
            out@ == it.seq().take(it.index() as int),
            it.seq() == s@,
    {
        out.push(c);
    }
    out
}

/// A fresh string holding the characters `from..to` of `s`.
pub fn substring(s: &str, from: usize, to: usize) -> (out: String)
    requires
        from <= to <= s@.len(),
    ensures
        out@ == s@.subrange(from as int, to as int),
{
    let sub = s.substring_char(from, to);
    sub.to_string()
}

/// Concatenation of two strings.
pub fn concat2(a: &str, b: &str) -> (out: String)
    ensures
        out@ == a@ + b@,
{
    let mut out = a.to_string();
    out.append(b);
    out
}

/// Whether `c` is white space, as `char::is_whitespace` decides.
pub fn is_whitespace(c: char) -> (b: bool)
    ensures
        b == is_ws(c),
{
    let u = c as u32;
    (0x09 <= u && u <= 0x0d) || u == 0x20 || u == 0x85 || u == 0xa0 || u == 0x1680 || (0x2000
        <= u && u <= 0x200a) || u == 0x2028 || u == 0x2029 || u == 0x202f || u == 0x205f || u
        == 0x3000
}

proof fn lemma_trim_start_skip(s: Seq<char>, i: int)
    requires
        0 <= i <= s.len(),
        forall|k: int| 0 <= k < i ==> is_ws(#[trigger] s[k]),
    ensures
        trim_start_spec(s) == trim_start_spec(s.skip(i)),
    decreases i,
{
    if i > 0 {
        assert(s.drop_first() == s.skip(1));
        lemma_trim_start_skip(s.drop_first(), i - 1);
        assert(s.drop_first().skip(i - 1) == s.skip(i));
    } else {
        assert(s.skip(0) == s);
    }
}

proof fn lemma_trim_end_take(s: Seq<char>, j: int)
    requires
        0 <= j <= s.len(),
        forall|k: int| j <= k < s.len() ==> is_ws(#[trigger] s[k]),
    ensures
        trim_end_spec(s) == trim_end_spec(s.take(j)),
    decreases s.len() - j,
{
    if j < s.len() {
        assert(s.drop_last() == s.take(s.len() - 1));
        lemma_trim_end_take(s.drop_last(), j);
        assert(s.drop_last().take(j) == s.take(j));
    } else {
        assert(s.take(j) == s);
    }
}

proof fn lemma_trim_start_shape(s: Seq<char>)
    ensures
        trim_start_spec(s).len() > 0 ==> !is_ws(trim_start_spec(s)[0]),
    decreases s.len(),
{
    if s.len() > 0 && is_ws(s[0]) {
        lemma_trim_start_shape(s.drop_first());
    }
}

proof fn lemma_trim_end_shape(s: Seq<char>)
    ensures
        trim_end_spec(s).len() <= s.len(),
        trim_end_spec(s) == s.take(trim_end_spec(s).len() as int),
        trim_end_spec(s).len() > 0 ==> !is_ws(trim_end_spec(s).last()),
    decreases s.len(),
{
    if s.len() > 0 && is_ws(s.last()) {
        lemma_trim_end_shape(s.drop_last());
        let t = trim_end_spec(s.drop_last());
        assert(s.drop_last().take(t.len() as int) == s.take(t.len() as int));
    } else {
        assert(s.take(s.len() as int) == s);
    }
}

proof fn trim_start_cut(s: Seq<char>) -> (lo: int)
    ensures
        0 <= lo <= s.len(),
        trim_start_spec(s) == s.skip(lo),
        forall|k: int| 0 <= k < lo ==> is_ws(#[trigger] s[k]),
    decreases s.len(),
{
    if s.len() > 0 && is_ws(s[0]) {
        let l = trim_start_cut(s.drop_first());
        assert(s.drop_first().skip(l) == s.skip(l + 1));
        assert forall|k: int| 0 <= k < l + 1 implies is_ws(#[trigger] s[k]) by {
            if k > 0 {
                assert(s[k] == s.drop_first()[k - 1]);
            }
        }
        l + 1
    } else {
        assert(s.skip(0) == s);
        0
    }
}

proof fn trim_end_cut(s: Seq<char>) -> (hi: int)
    ensures
        0 <= hi <= s.len(),
        trim_end_spec(s) == s.take(hi),
        forall|k: int| hi <= k < s.len() ==> is_ws(#[trigger] s[k]),
    decreases s.len(),
{
    if s.len() > 0 && is_ws(s.last()) {
        let h = trim_end_cut(s.drop_last());
        assert(s.drop_last().take(h) == s.take(h));
        assert forall|k: int| h <= k < s.len() implies is_ws(#[trigger] s[k]) by {
            if k < s.len() - 1 {
                assert(s[k] == s.drop_last()[k]);
            }
        }
        h
    } else {
        assert(s.take(s.len() as int) == s);
        s.len() as int
    }
}

/// Trimming cuts white space, and only white space, off both ends: the result is a
/// contiguous piece of `s` with nothing but white space before and after it, and it neither
/// starts nor ends with white space.
pub proof fn lemma_trim_cuts_white_space(s: Seq<char>)
    ensures
        trim_spec(s).len() > 0 ==> !is_ws(trim_spec(s)[0]) && !is_ws(trim_spec(s).last()),
        exists|lo: int, hi: int|
            0 <= lo <= hi <= s.len() && trim_spec(s) == s.subrange(lo, hi) && (forall|k: int|
                0 <= k < lo ==> is_ws(#[trigger] s[k])) && (forall|k: int| hi <= k < s.len() ==> is_ws(#[trigger] s[k])),
{
    lemma_trim_start_shape(s);
    let a = trim_start_spec(s);
    lemma_trim_end_shape(a);
    if trim_end_spec(a).len() > 0 {
        assert(trim_end_spec(a)[0] == a[0]);
    }
    let lo = trim_start_cut(s);
    let h = trim_end_cut(a);
    assert(a.take(h) == s.subrange(lo, lo + h));
    assert forall|k: int| lo + h <= k < s.len() implies is_ws(#[trigger] s[k]) by {
        assert(s[k] == a[k - lo]);
    }
}

/// Trimming twice is trimming once.
pub proof fn lemma_trim_idempotent(s: Seq<char>)
    ensures
        trim_spec(trim_spec(s)) == trim_spec(s),
{
    let a = trim_start_spec(s);
    let b = trim_end_spec(a);
    lemma_trim_start_shape(s);
    lemma_trim_end_shape(a);
    if b.len() > 0 {
        assert(b[0] == a[0]);
    }
    assert(trim_start_spec(b) == b);
}

/// Character positions `(lo, hi)` such that `s[lo..hi]` is `s` trimmed.
pub fn trim_bounds(s: &Vec<char>) -> (r: (usize, usize))
    ensures
        r.0 <= r.1 <= s@.len(),
        s@.subrange(r.0 as int, r.1 as int) == trim_spec(s@),
{
    let n = s.len();
    let mut lo: usize = 0;
    while lo < n && is_whitespace(s[lo])
        invariant
            lo <= n == s@.len(),
            forall|k: int| 0 <= k < lo ==> is_ws(#[trigger] s@[k]),
        decreases n - lo,
    {
        lo = lo + 1;
    }
    proof {
        lemma_trim_start_skip(s@, lo as int);
    }
    let mut hi: usize = n;
    while hi > lo && is_whitespace(s[hi - 1])
        invariant
            lo <= hi <= n == s@.len(),
            forall|k: int| hi <= k < n ==> is_ws(#[trigger] s@[k]),
        decreases hi,
    {
        hi = hi - 1;
    }
    proof {
        let t = s@.skip(lo as int);
        assert(trim_start_spec(t) == t) by {
            if t.len() > 0 {
                assert(t[0] == s@[lo as int]);
            }
        }
        lemma_trim_end_take(t, hi - lo);
        assert(t.take(hi - lo) == s@.subrange(lo as int, hi as int));
        let u = s@.subrange(lo as int, hi as int);
        if u.len() > 0 {
            assert(u.last() == s@[hi - 1]);
        }
    }
    (lo, hi)
}

/// `s` without leading and trailing white space, as `str::trim` gives it.
pub fn trim(s: &str) -> (out: String)
    ensures
        out@ == trim_spec(s@),
{
    let cs = chars_of(s);
    let (lo, hi) = trim_bounds(&cs);
    substring(s, lo, hi)
}

/// The first position at or after `start` where `pat` occurs in `text`, as `str::find` finds it.
pub fn find_chars_from(text: &Vec<char>, pat: &Vec<char>, start: usize) -> (r: Option<usize>)
    ensures
        match r {
            Some(i) => find_from(text@, pat@, start as int) == Some(i as int),
            None => find_from(text@, pat@, start as int) is None,
        },
{
    let n = text.len();
    let m = pat.len();
    if m == 0 {
        if start <= n {
            assert(text@.subrange(start as int, start as int) =~= pat@);
            return Some(start);
        } else {
            return None;
        }
    }
    let mut i = start;
    while i <= n && m <= n - i
        invariant
            start <= i,
            n == text@.len(),
            1 <= m == pat@.len(),
            find_from(text@, pat@, start as int) == find_from(text@, pat@, i as int),
        decreases n + 1 - i,
    {
        let mut j: usize = 0;
        let mut ok = true;
        while j < m
            invariant
                j <= m == pat@.len(),
                i + m <= n == text@.len(),
                ok ==> forall|k: int| 0 <= k < j ==> text@[i + k] == pat@[k],
                !ok ==> !occurs_at(text@, pat@, i as int),
            decreases m - j,
        {
            if text[i + j] != pat[j] {
                ok = false;
                proof {
                    assert(text@.subrange(i as int, i + m)[j as int] == text@[i + j]);
                }
            }
            j = j + 1;
        }
        if ok {
            assert(text@.subrange(i as int, i + m) == pat@);
            return Some(i);
        }
        i = i + 1;
    }
    None
}

/// The first position where `pat` occurs in `text`, counted in characters.
pub fn find_chars(text: &Vec<char>, pat: &Vec<char>) -> (r: Option<usize>)
    ensures
        match r {
            Some(i) => find_spec(text@, pat@) == Some(i as int),
            None => find_spec(text@, pat@) is None,
        },
{
    find_chars_from(text, pat, 0)
}

/// Whether `pat` occurs in `text`, as `str::contains` decides.
pub fn contains_str(text: &str, pat: &str) -> (b: bool)
    ensures
        b == contains_spec(text@, pat@),
{
    let t = chars_of(text);
    let p = chars_of(pat);
    find_chars(&t, &p).is_some()
}

/// Whether `s` begins with `p`.
pub fn starts_with_chars(s: &Vec<char>, p: &Vec<char>) -> (b: bool)
    ensures
        b == starts_with_spec(s@, p@),
{
    if p.len() > s.len() {
        return false;
    }
    let mut j: usize = 0;
    while j < p.len()
        invariant
            j <= p@.len() <= s@.len(),
            forall|k: int| 0 <= k < j ==> s@[k] == p@[k],
        decreases p@.len() - j,
    {
        if s[j] != p[j] {
            assert(s@.take(p@.len() as int)[j as int] == s@[j as int]);
            return false;
        }
        j = j + 1;
    }
    assert(s@.take(p@.len() as int) == p@);
    true
}

/// Whether `s` ends with `p`.
pub fn ends_with_chars(s: &Vec<char>, p: &Vec<char>) -> (b: bool)
    ensures
        b == ends_with_spec(s@, p@),
{
    if p.len() > s.len() {
        return false;
    }
    let off = s.len() - p.len();
    let mut j: usize = 0;
    while j < p.len()
        invariant
            j <= p@.len() <= s@.len(),
            p.len() == p@.len(),
            s.len() == s@.len(),
            off == s@.len() - p@.len(),
            forall|k: int| 0 <= k < j ==> s@[off + k] == p@[k],
        decreases p@.len() - j,
    {
        if s[off + j] != p[j] {
            assert(s@.skip(off as int)[j as int] == s@[off + j]);
            return false;
        }
        j = j + 1;
    }
    assert(s@.skip(off as int) == p@);
    true
}

/// The first `n` characters of `s` (all of them when `s` is shorter).
pub fn take_chars(s: &str, n: usize) -> (out: String)
    ensures
        out@ == s@.take(if n <= s@.len() { n as int } else { s@.len() as int }),
{
    let len = s.unicode_len();
    let end = if n <= len { n } else { len };
    substring(s, 0, end)
}

/// A position that `find_from` reports is an occurrence at or after `start`.
pub proof fn lemma_find_from_occurs(text: Seq<char>, pat: Seq<char>, start: int)
    ensures
        find_from(text, pat, start) matches Some(i) ==> start <= i && occurs_at(text, pat, i),
    decreases text.len() - start,
{
    if start >= 0 && start + pat.len() <= text.len() && !occurs_at(text, pat, start) && start < text.len() {
        lemma_find_from_occurs(text, pat, start + 1);
    }
}

proof fn lemma_find_from_first(text: Seq<char>, pat: Seq<char>, start: int)
    requires
        start >= 0,
    ensures
        find_from(text, pat, start) matches Some(i) ==> start <= i && occurs_at(text, pat, i) && forall|j: int|
            start <= j < i ==> !#[trigger] occurs_at(text, pat, j),
        find_from(text, pat, start) is None ==> forall|j: int| start <= j ==> !#[trigger] occurs_at(text, pat, j),
    decreases text.len() - start,
{
    if start + pat.len() <= text.len() && !occurs_at(text, pat, start) && start < text.len() {
        lemma_find_from_first(text, pat, start + 1);
    }
}

/// The position that `find_spec` gives is where `pat` first occurs in `text`; when it gives
/// none, `pat` occurs nowhere in `text`.
pub proof fn lemma_find_is_first(text: Seq<char>, pat: Seq<char>)
    ensures
        find_spec(text, pat) matches Some(i) ==> occurs_at(text, pat, i) && forall|j: int|
            0 <= j < i ==> !#[trigger] occurs_at(text, pat, j),
        find_spec(text, pat) is None ==> forall|j: int| !#[trigger] occurs_at(text, pat, j),
{
    lemma_find_from_first(text, pat, 0);
}

/// The characters of `s` after position `from`, as a fresh string.
pub fn suffix_from(s: &str, from: usize) -> (out: String)
    requires
        from <= s@.len(),
    ensures
        out@ == s@.skip(from as int),
{
    let n = s.unicode_len();
    let out = substring(s, from, n);
    assert(s@.subrange(from as int, n as int) == s@.skip(from as int));
    out
}

/// Whether `a` and `b` hold the same characters.
pub fn str_eq(a: &str, b: &str) -> (r: bool)
    ensures
        r == (a@ == b@),
{
    let x = a.to_string();
    let y = b.to_string();
    x == y
}

/// The view of an optional string slice.
pub open spec fn opt_str_view(o: Option<&str>) -> Option<Seq<char>> {
    match o {
        Some(s) => Some(s@),
        None => None,
    }
}

/// The block that carries the conversation summary in a prompt: empty when there is no
/// summary or it is empty.
pub open spec fn summary_block_spec(summary: Option<Seq<char>>) -> Seq<char> {
    match summary {
        Some(s) => if s.len() > 0 {
            "\n## Conversation Summary\n"@ + s + "\n"@
        } else {
            Seq::empty()
        },
        None => Seq::empty(),
    }
}

/// The block that carries the conversation summary in a prompt (see `summary_block_spec`).
pub fn summary_block(summary: Option<&str>) -> (r: String)
    ensures
        r@ == summary_block_spec(opt_str_view(summary)),
{
    match summary {
        Some(s) => {
            if !s.is_empty() {
                let mut b = "\n## Conversation Summary\n".to_string();
                b.append(s);
                b.append("\n");
                b
            } else {
                String::new()
            }
        },
        None => String::new(),
    }
}

/// The decimal digit character for `d`.
pub open spec fn digit_char(d: nat) -> char {
    ((d + 48) as u32) as char
}

/// The decimal representation of `n`, without leading zeros.
pub open spec fn decimal_spec(n: nat) -> Seq<char>
    decreases n,
{
    if n < 10 {
        seq![digit_char(n)]
    } else {
        decimal_spec(n / 10).push(digit_char(n % 10))
    }
}

/// The decimal digit `d` as a one-character string.
fn digit_string(d: u64) -> (s: String)
    requires
        d < 10,
    ensures
        s@ == seq![digit_char(d as nat)],
{
    proof {
        reveal_strlit("0123456789");
    }
    let digits = "0123456789";
    let s = digits.substring_char(d as usize, d as usize + 1);
    assert(s@ =~= seq![digit_char(d as nat)]);
    s.to_string()
}

/// The decimal representation of `n` (what `Display` writes for an unsigned integer).
pub fn decimal_string(n: u64) -> (s: String)
    ensures
        s@ == decimal_spec(n as nat),
    decreases n,
{
    if n < 10 {
        digit_string(n)
    } else {
        let mut s = decimal_string(n / 10);
        let d = digit_string(n % 10);
        s.append(d.as_str());
        s
    }
}

proof fn lemma_occurs_found(text: Seq<char>, pat: Seq<char>, start: int, i: int)
    requires
        0 <= start <= i,
        occurs_at(text, pat, i),
    ensures
        find_from(text, pat, start) is Some,
    decreases i - start,
{
    if start < i && !occurs_at(text, pat, start) {
        lemma_occurs_found(text, pat, start + 1, i);
    }
}

/// A text holds each of its pieces.
pub proof fn lemma_contains_piece(a: Seq<char>, b: Seq<char>, c: Seq<char>)
    ensures
        contains_spec(a + b + c, b),
{
    let t = a + b + c;
    assert(t.subrange(a.len() as int, (a.len() + b.len()) as int) =~= b);
    lemma_occurs_found(t, b, 0, a.len() as int);
}

/// A prompt made of fixed pieces `p0`..`p3` with the schema, the summary block and the tool
/// descriptions put in holds the tool descriptions, the schema and, for a non-empty summary,
/// its block; an empty summary gives the same prompt as none.
pub proof fn lemma_prompt_pieces(
    p0: Seq<char>,
    p1: Seq<char>,
    p2: Seq<char>,
    p3: Seq<char>,
    tools: Seq<char>,
    summary: Option<Seq<char>>,
    schema: Seq<char>,
)
    ensures
        ({
            let prompt = p0 + schema + p1 + summary_block_spec(summary) + p2 + tools + p3;
            &&& contains_spec(prompt, tools)
            &&& contains_spec(prompt, schema)
            &&& (summary matches Some(s) && s.len() > 0) ==> contains_spec(
                prompt,
                "\n## Conversation Summary\n"@ + summary->0 + "\n"@,
            )
        }),
        summary_block_spec(Some(Seq::empty())) == summary_block_spec(None),
{
    let blk = summary_block_spec(summary);
    let prompt = p0 + schema + p1 + blk + p2 + tools + p3;
    assert(prompt =~= (p0 + schema + p1 + blk + p2) + tools + p3);
    lemma_contains_piece(p0 + schema + p1 + blk + p2, tools, p3);
    assert(prompt =~= p0 + schema + (p1 + blk + p2 + tools + p3));
    lemma_contains_piece(p0, schema, p1 + blk + p2 + tools + p3);
    if summary matches Some(s) && s.len() > 0 {
        assert(prompt =~= (p0 + schema + p1) + blk + (p2 + tools + p3));
        lemma_contains_piece(p0 + schema + p1, blk, p2 + tools + p3);
    }
}

} // verus!
