//! Character-level helpers shared by the scanners.

use vstd::prelude::*;
use vstd::string::{StrSliceExecFns, StringExecFns};

verus! {

/// Decodes a string slice into its characters.
pub fn chars_of(s: &str) -> (v: Vec<char>)
    ensures
        v@ == s@,
{
    let mut v: Vec<char> = Vec::new();
    for c in it: s.chars()
        invariant
            v@ == it.seq().take(it.index()),
            it.seq() == s@,
    {
        v.push(c);
    }
    v
}

/// A list of strings as sequences of characters.
pub open spec fn token_views(list: Seq<String>) -> Seq<Seq<char>> {
    Seq::new(list.len(), |i: int| list[i]@)
}

/// Position of the first element of `s` equal to `x`; the length of `s` if
/// there is none.
pub open spec fn first_index<A>(s: Seq<A>, x: A) -> int
    decreases s.len(),
{
    if s.len() == 0 {
        0
    } else if s[0] == x {
        0
    } else {
        1 + first_index(s.drop_first(), x)
    }
}

/// `first_index` is the least index that holds `x`.
pub proof fn lemma_first_index<A>(s: Seq<A>, x: A)
    ensures
        0 <= first_index(s, x) <= s.len(),
        forall|j: int| 0 <= j < first_index(s, x) ==> s[j] != x,
        first_index(s, x) < s.len() ==> s[first_index(s, x)] == x,
    decreases s.len(),
{
    if s.len() > 0 && s[0] != x {
        let rest = s.drop_first();
        lemma_first_index(rest, x);
        assert forall|j: int| 0 <= j < first_index(s, x) implies s[j] != x by {
            if j > 0 {
                assert(s[j] == rest[j - 1]);
            }
        }
    }
}

/// An index that holds `x`, with none before it, is `first_index`; so is
/// the length of `s` where nothing holds `x`.
pub proof fn lemma_first_index_is<A>(s: Seq<A>, x: A, i: int)
    requires
        0 <= i <= s.len(),
        forall|j: int| 0 <= j < i ==> s[j] != x,
        i < s.len() ==> s[i] == x,
    ensures
        first_index(s, x) == i,
{
    lemma_first_index(s, x);
}

/// Whether `c` separates tokens: the Unicode white space characters.
pub open spec fn is_space(c: char) -> bool {
    let n = c as u32;
    ||| 0x09 <= n <= 0x0D
    ||| n == 0x20
    ||| n == 0x85
    ||| n == 0xA0
    ||| n == 0x1680
    ||| 0x2000 <= n <= 0x200A
    ||| n == 0x2028
    ||| n == 0x2029
    ||| n == 0x202F
    ||| n == 0x205F
    ||| n == 0x3000
}

/// Tells whether `c` separates tokens.
pub fn is_whitespace(c: char) -> (r: bool)
    ensures
        r == is_space(c),
{
    let n = c as u32;
    (0x09 <= n && n <= 0x0D) || n == 0x20 || n == 0x85 || n == 0xA0 || n == 0x1680 || (0x2000 <= n
        && n <= 0x200A) || n == 0x2028 || n == 0x2029 || n == 0x202F || n == 0x205F || n == 0x3000
}

/// Length of the run of non-space characters that `s` starts with.
pub open spec fn word_len(s: Seq<char>) -> nat
    decreases s.len(),
{
    if s.len() == 0 || is_space(s[0]) {
        0
    } else {
        1 + word_len(s.drop_first())
    }
}

/// The tokens of `s`: its maximal runs of non-space characters, in order.
pub open spec fn tokens(s: Seq<char>) -> Seq<Seq<char>>
    decreases s.len(),
    via tokens_decreases
{
    if s.len() == 0 {
        Seq::empty()
    } else if is_space(s[0]) {
        tokens(s.drop_first())
    } else {
        seq![s.take(word_len(s) as int)] + tokens(s.skip(word_len(s) as int))
    }
}

#[via_fn]
proof fn tokens_decreases(s: Seq<char>) {
    if s.len() > 0 && !is_space(s[0]) {
        lemma_word_len(s);
    }
}

/// `word_len` stops at the first space or at the end, and not before.
pub proof fn lemma_word_len(s: Seq<char>)
    ensures
        word_len(s) <= s.len(),
        forall|k: int| 0 <= k < word_len(s) ==> !is_space(#[trigger] s[k]),
        word_len(s) < s.len() ==> is_space(s[word_len(s) as int]),
        s.len() > 0 && !is_space(s[0]) ==> word_len(s) > 0,
    decreases s.len(),
{
    if s.len() > 0 && !is_space(s[0]) {
        let rest = s.drop_first();
        lemma_word_len(rest);
        assert forall|k: int| 0 <= k < word_len(s) implies !is_space(#[trigger] s[k]) by {
            if k > 0 {
                assert(s[k] == rest[k - 1]);
            }
        }
    }
}

/// A run of `m` non-space characters that ends at a space, or at the end
/// of `s`, is the word that `s` starts with.
pub proof fn lemma_word_len_is(s: Seq<char>, m: int)
    requires
        0 <= m <= s.len(),
        forall|k: int| 0 <= k < m ==> !is_space(#[trigger] s[k]),
        m < s.len() ==> is_space(s[m]),
    ensures
        word_len(s) == m,
{
    lemma_word_len(s);
}

/// Whether `t` is a word: not empty, and without white space.
pub open spec fn is_word(t: Seq<char>) -> bool {
    t.len() > 0 && forall|k: int| 0 <= k < t.len() ==> !is_space(#[trigger] t[k])
}

/// Every token is a word.
pub proof fn law_tokens_are_words(s: Seq<char>)
    ensures
        forall|i: int| 0 <= i < tokens(s).len() ==> is_word(#[trigger] tokens(s)[i]),
    decreases s.len(),
{
    if s.len() == 0 {
    } else if is_space(s[0]) {
        law_tokens_are_words(s.drop_first());
        assert(tokens(s) == tokens(s.drop_first()));
    } else {
        let n = word_len(s) as int;
        lemma_word_len(s);
        law_tokens_are_words(s.skip(n));
        let rest = tokens(s.skip(n));
        assert(is_word(s.take(n)));
        assert forall|i: int| 0 <= i < tokens(s).len() implies is_word(#[trigger] tokens(s)[i]) by {
            if i > 0 {
                assert(tokens(s)[i] == rest[i - 1]);
            }
        }
    }
}

/// A word is its own single token, and a string of white space has none.
pub proof fn law_word_is_one_token(s: Seq<char>)
    ensures
        is_word(s) ==> tokens(s) == seq![s],
        (forall|k: int| 0 <= k < s.len() ==> is_space(#[trigger] s[k])) ==> tokens(s).len() == 0,
    decreases s.len(),
{
    if is_word(s) {
        lemma_word_len_is(s, s.len() as int);
        assert(s.take(s.len() as int) == s);
        assert(tokens(s) == seq![s.take(word_len(s) as int)] + tokens(s.skip(word_len(s) as int)));
    }
    if s.len() > 0 && forall|k: int| 0 <= k < s.len() ==> is_space(#[trigger] s[k]) {
        law_word_is_one_token(s.drop_first());
    }
}

/// Splits `s` at white space into its tokens, in order; none is empty.
pub fn split_whitespace(s: &str) -> (out: Vec<String>)
    ensures
        token_views(out@) == tokens(s@),
{
    let chars = chars_of(s);
    let n = chars.len();
    let mut out: Vec<String> = Vec::new();
    let mut i: usize = 0;
    assert(s@.skip(0) == s@);
    while i < n
        invariant
            i <= n,
            n == chars.len(),
            chars@ == s@,
            tokens(s@) == token_views(out@) + tokens(s@.skip(i as int)),
        decreases n - i,
    {
        let ghost rest = s@.skip(i as int);
        if is_whitespace(chars[i]) {
            assert(rest.drop_first() == s@.skip(i + 1));
            i += 1;
        } else {
            let mut j: usize = i + 1;
            while j < n && !is_whitespace(chars[j])
                invariant
                    i < j <= n,
                    n == chars.len(),
                    forall|k: int| i <= k < j ==> !is_space(#[trigger] chars@[k]),
                decreases n - j,
            {
                j += 1;
            }
            let word = String::from_str(s.substring_char(i, j));
            proof {
                lemma_word_len_is(rest, j - i);
                assert(rest.take(j - i) == s@.subrange(i as int, j as int));
                assert(rest.skip(j - i) == s@.skip(j as int));
            }
            out.push(word);
            i = j;
        }
    }
    out
}

} // verus!
