//! Word scanning: splitting document text into maximal runs of word characters.
use vstd::prelude::*;

verus! {

/// What `char::is_alphanumeric` answers for a character.
pub uninterp spec fn alphanumeric(c: char) -> bool;

/// Calls `char::is_alphanumeric` from the standard library. The contract only
/// gives the answer a name: the Unicode tables behind it are not modelled.
#[verifier::external_body]
fn char_is_alphanumeric(c: char) -> (b: bool)
    ensures
        b == alphanumeric(c),
{
    c.is_alphanumeric()
}

/// Appends one character with `String::push`, which the standard library
/// documents as adding the character to the end of the string.
#[verifier::external_body]
pub(crate) fn push_char(s: &mut String, c: char)
    ensures
        final(s)@ == old(s)@.push(c),
{
    s.push(c)
}

/// A word character is a letter, a digit or an underscore.
pub open spec fn is_word_char(c: char) -> bool {
    c == '_' || alphanumeric(c)
}

/// Length of the longest prefix of `s` that consists of word characters.
pub open spec fn run_len(s: Seq<char>) -> nat
    decreases s.len(),
{
    if s.len() == 0 || !is_word_char(s[0]) {
        0
    } else {
        1 + run_len(s.skip(1))
    }
}

/// The words of a text: its maximal runs of word characters, left to right.
/// Where the text begins with a word character its first run is never empty,
/// so the last branch below is never taken; it is there for termination.
pub open spec fn word_tokens(s: Seq<char>) -> Seq<Seq<char>>
    decreases s.len(),
{
    if s.len() == 0 {
        Seq::empty()
    } else if !is_word_char(s[0]) {
        word_tokens(s.skip(1))
    } else {
        let n = run_len(s) as int;
        if 0 < n <= s.len() {
            seq![s.take(n)] + word_tokens(s.skip(n))
        } else {
            Seq::empty()
        }
    }
}

/// The texts held by a vector of strings.
pub open spec fn texts_of(v: Seq<String>) -> Seq<Seq<char>> {
    Seq::new(v.len(), |i: int| v[i]@)
}

/// Tells whether `c` is a word character.
pub fn word_char(c: char) -> (b: bool)
    ensures
        b == is_word_char(c),
{
    c == '_' || char_is_alphanumeric(c)
}

/// A run of `n` word characters that ends at the end of the text or at a
/// character that is no word character has length `n`.
pub proof fn lemma_run_len(s: Seq<char>, n: nat)
    requires
        n <= s.len(),
        forall|k: int| 0 <= k < n ==> is_word_char(#[trigger] s[k]),
        n == s.len() || !is_word_char(s[n as int]),
    ensures
        run_len(s) == n,
    decreases n,
{
    if n > 0 {
        let t = s.skip(1);
        assert forall|k: int| 0 <= k < n - 1 implies is_word_char(#[trigger] t[k]) by {
            assert(t[k] == s[k + 1]);
        }
        lemma_run_len(t, (n - 1) as nat);
    }
}

/// The length of the first run never exceeds the length of the text, and the
/// run holds word characters only.
pub proof fn lemma_run_len_bounds(s: Seq<char>)
    ensures
        run_len(s) <= s.len(),
        s.len() > 0 && is_word_char(s[0]) ==> run_len(s) >= 1,
        forall|k: int| 0 <= k < run_len(s) ==> is_word_char(#[trigger] s[k]),
        run_len(s) < s.len() ==> !is_word_char(s[run_len(s) as int]),
    decreases s.len(),
{
    if s.len() > 0 && is_word_char(s[0]) {
        let t = s.skip(1);
        lemma_run_len_bounds(t);
        assert forall|k: int| 0 <= k < run_len(s) implies is_word_char(#[trigger] s[k]) by {
            if k > 0 {
                assert(s[k] == t[k - 1]);
            }
        }
        if run_len(s) < s.len() {
            assert(s[run_len(s) as int] == t[run_len(t) as int]);
        }
    }
}

/// Every word of a text is non-empty and made of word characters only, and
/// a text without word characters has no words.
pub proof fn lemma_tokens_are_words(s: Seq<char>)
    ensures
        forall|i: int|
            0 <= i < word_tokens(s).len() ==> (#[trigger] word_tokens(s)[i]).len() > 0,
        forall|i: int, k: int|
            0 <= i < word_tokens(s).len() && 0 <= k < word_tokens(s)[i].len() ==> is_word_char(
                #[trigger] word_tokens(s)[i][k],
            ),
        (forall|k: int| 0 <= k < s.len() ==> !is_word_char(#[trigger] s[k])) ==> word_tokens(
            s,
        ).len() == 0,
    decreases s.len(),
{
    if s.len() > 0 {
        if !is_word_char(s[0]) {
            let t = s.skip(1);
            lemma_tokens_are_words(t);
            assert(word_tokens(s) == word_tokens(t));
            if forall|k: int| 0 <= k < s.len() ==> !is_word_char(#[trigger] s[k]) {
                assert forall|k: int| 0 <= k < t.len() implies !is_word_char(#[trigger] t[k]) by {
                    assert(t[k] == s[k + 1]);
                }
            }
        } else {
            lemma_run_len_bounds(s);
            let n = run_len(s) as int;
            let rest = word_tokens(s.skip(n));
            lemma_tokens_are_words(s.skip(n));
            let all = word_tokens(s);
            assert(all == seq![s.take(n)] + rest);
            assert forall|i: int| 0 <= i < all.len() implies (#[trigger] all[i]).len() > 0 by {
                if i > 0 {
                    assert(all[i] == rest[i - 1]);
                }
            }
            assert forall|i: int, k: int| 0 <= i < all.len() && 0 <= k < all[i].len() implies is_word_char(
                #[trigger] all[i][k],
            ) by {
                if i > 0 {
                    assert(all[i] == rest[i - 1]);
                } else {
                    assert(all[0][k] == s[k]);
                }
            }
        }
    }
}

/// Scans a text for its words.
pub fn scan_words(text: &str) -> (tokens: Vec<String>)
    ensures
        texts_of(tokens@) == word_tokens(text@),
{
    let mut tokens: Vec<String> = Vec::new();
    let mut cur = String::new();
    let ghost mut start: int = 0;
    proof {
        assert(text@.skip(0) =~= text@);
        assert(texts_of(tokens@) + word_tokens(text@) =~= word_tokens(text@));
    }
    for c in it: text.chars()
        invariant
            it.seq() == text@,
            0 <= start <= it.index(),
            cur@ == text@.subrange(start, it.index()),
            forall|k: int| start <= k < it.index() ==> is_word_char(#[trigger] text@[k]),
            texts_of(tokens@) + word_tokens(text@.skip(start)) == word_tokens(text@),
    {
        let ghost i = it.index();
        assert(c == text@[i]);
        if word_char(c) {
            push_char(&mut cur, c);
            assert(cur@ =~= text@.subrange(start, i + 1));
        } else {
            proof {
                lemma_flush(text@, start, i);
            }
            if !cur.as_str().is_empty() {
                proof {
                    lemma_texts_push(tokens@, cur);
                }
                tokens.push(cur);
                cur = String::new();
            }
            proof {
                let t = text@.skip(i);
                assert(t[0] == text@[i]);
                assert(t.skip(1) =~= text@.skip(i + 1));
                start = i + 1;
            }
            assert(cur@ =~= text@.subrange(start, i + 1));
        }
    }
    proof {
        lemma_flush(text@, start, text@.len() as int);
        assert(text@.skip(text@.len() as int).len() == 0);
    }
    if !cur.as_str().is_empty() {
        proof {
            lemma_texts_push(tokens@, cur);
        }
        tokens.push(cur);
    }
    tokens
}

/// Pushing a string onto a vector pushes its text onto the vector's texts.
proof fn lemma_texts_push(v: Seq<String>, s: String)
    ensures
        texts_of(v.push(s)) == texts_of(v).push(s@),
{
    assert(texts_of(v.push(s)) =~= texts_of(v).push(s@));
}

/// A run of word characters from `start` to `end`, closed at `end`, is the
/// first word of the text from `start` on, unless it is empty.
proof fn lemma_flush(s: Seq<char>, start: int, end: int)
    requires
        0 <= start <= end <= s.len(),
        forall|k: int| start <= k < end ==> is_word_char(#[trigger] s[k]),
        end == s.len() || !is_word_char(s[end]),
    ensures
        start < end ==> word_tokens(s.skip(start)) == seq![s.subrange(start, end)] + word_tokens(
            s.skip(end),
        ),
{
    if start < end {
        let t = s.skip(start);
        let n = (end - start) as nat;
        assert forall|k: int| 0 <= k < n implies is_word_char(#[trigger] t[k]) by {
            assert(t[k] == s[start + k]);
        }
        lemma_run_len(t, n);
        assert(t.take(n as int) =~= s.subrange(start, end));
        assert(t.skip(n as int) =~= s.skip(end));
    }
}

} // verus!
