//! Candidate lists: the distinct words of a scan, in first-seen order, each
//! with a stable index.
use std::sync::Arc;
use vstd::hash_map::StringHashMap;
use vstd::prelude::*;
use crate::scan::{scan_words, texts_of, word_tokens};

verus! {

/// One entry offered to a fuzzy matcher: a text and its position in the list.
#[derive(Debug, Clone)]
pub struct Candidate {
    pub id: usize,
    pub text: String,
}

/// The texts of a candidate list, in order.
pub open spec fn candidate_texts(list: Seq<Candidate>) -> Seq<Seq<char>> {
    Seq::new(list.len(), |i: int| list[i].text@)
}

/// Every candidate's index is its position in the list.
pub open spec fn well_indexed(list: Seq<Candidate>) -> bool {
    forall|i: int| 0 <= i < list.len() ==> (#[trigger] list[i]).id == i
}

/// The distinct elements of `tokens`, each at the place of its first
/// occurrence.
pub open spec fn distinct(tokens: Seq<Seq<char>>) -> Seq<Seq<char>>
    decreases tokens.len(),
{
    if tokens.len() == 0 {
        Seq::empty()
    } else {
        let before = distinct(tokens.drop_last());
        if before.contains(tokens.last()) {
            before
        } else {
            before.push(tokens.last())
        }
    }
}

/// `list` is the candidate list of a document with the given text: the
/// distinct words of the text in first-seen order, indexed by position.
pub open spec fn is_word_list(list: Seq<Candidate>, text: Seq<char>) -> bool {
    &&& candidate_texts(list) == distinct(word_tokens(text))
    &&& well_indexed(list)
}

/// The words of one scan, published as a unit: the set of distinct words and
/// the candidate list derived from it.
pub struct UniqueWords {
    pub words: StringHashMap<()>,
    pub word_matches: Arc<Vec<Candidate>>,
}

impl UniqueWords {
    /// The set and the list hold the same words, and the list is indexed by
    /// position.
    pub open spec fn wf(&self) -> bool {
        &&& well_indexed(self.word_matches@)
        &&& forall|w: Seq<char>| #[trigger]
            self.words@.contains_key(w) <==> candidate_texts(self.word_matches@).contains(w)
    }

    /// The texts of the candidate list, in order.
    pub open spec fn texts(&self) -> Seq<Seq<char>> {
        candidate_texts(self.word_matches@)
    }

    /// No words at all.
    pub fn new() -> (empty: UniqueWords)
        ensures
            empty.wf(),
            empty.texts() == Seq::<Seq<char>>::empty(),
    {
        let empty = UniqueWords { words: StringHashMap::new(), word_matches: Arc::new(Vec::new()) };
        assert(empty.texts() =~= Seq::empty());
        empty
    }

    /// Collects the distinct tokens: duplicates are dropped, the first
    /// occurrence of each token keeps its place in the list, and indices
    /// count up from zero.
    pub fn build(tokens: &Vec<String>) -> (unique: UniqueWords)
        ensures
            unique.wf(),
            unique.texts() == distinct(texts_of(tokens@)),
    {
        let mut words: StringHashMap<()> = StringHashMap::new();
        let mut list: Vec<Candidate> = Vec::new();
        let mut i: usize = 0;
        assert(texts_of(tokens@).take(0) =~= Seq::empty());
        assert(candidate_texts(list@) =~= Seq::empty());
        while i < tokens.len()
            invariant
                i <= tokens.len(),
                candidate_texts(list@) == distinct(texts_of(tokens@).take(i as int)),
                well_indexed(list@),
                forall|w: Seq<char>| #[trigger]
                    words@.contains_key(w) <==> candidate_texts(list@).contains(w),
            decreases tokens.len() - i,
        {
            let ghost seen = texts_of(tokens@).take(i as int);
            let ghost next = texts_of(tokens@).take(i + 1);
            let ghost word = tokens@[i as int]@;
            assert(next.drop_last() =~= seen);
            assert(next.last() == word);
            if !words.contains_key(tokens[i].as_str()) {
                let ghost before = candidate_texts(list@);
                words.insert(tokens[i].clone(), ());
                list.push(Candidate { id: list.len(), text: tokens[i].clone() });
                assert(candidate_texts(list@) =~= before.push(word));
                assert forall|w: Seq<char>| #[trigger]
                    words@.contains_key(w) <==> candidate_texts(list@).contains(w) by {
                    lemma_push_contains(before, word, w);
                }
            }
            i += 1;
        }
        assert(texts_of(tokens@).take(i as int) =~= texts_of(tokens@));
        UniqueWords { words, word_matches: Arc::new(list) }
    }

    /// Tells whether `word` is one of the words.
    pub fn contains(&self, word: &str) -> (found: bool)
        requires
            self.wf(),
        ensures
            found == self.texts().contains(word@),
    {
        self.words.contains_key(word)
    }

    /// The number of distinct words.
    pub fn len(&self) -> (n: usize)
        ensures
            n == self.texts().len(),
    {
        self.word_matches.len()
    }
}

/// A sequence with one more element at its end contains what it contained
/// before, and that element.
proof fn lemma_push_contains(s: Seq<Seq<char>>, last: Seq<char>, w: Seq<char>)
    ensures
        s.push(last).contains(w) <==> (s.contains(w) || w == last),
{
    let t = s.push(last);
    if s.contains(w) {
        let k = choose|k: int| 0 <= k < s.len() && s[k] == w;
        assert(t[k] == w);
    }
    if w == last {
        assert(t[s.len() as int] == w);
    }
    if t.contains(w) {
        let k = choose|k: int| 0 <= k < t.len() && t[k] == w;
        if k < s.len() {
            assert(s[k] == w);
        }
    }
}

/// Scans a text and collects its distinct words from scratch.
pub fn rebuild_words(text: &str) -> (unique: UniqueWords)
    ensures
        unique.wf(),
        is_word_list(unique.word_matches@, text@),
{
    let tokens = scan_words(text);
    UniqueWords::build(&tokens)
}

/// Deduplication keeps the set of words: a word is in `distinct(tokens)` if
/// and only if it is in `tokens`.
pub proof fn lemma_distinct_same_set(tokens: Seq<Seq<char>>)
    ensures
        distinct(tokens).to_set() == tokens.to_set(),
        forall|w: Seq<char>| #[trigger] distinct(tokens).contains(w) ==> tokens.contains(w),
        forall|w: Seq<char>| #[trigger] tokens.contains(w) ==> distinct(tokens).contains(w),
    decreases tokens.len(),
{
    if tokens.len() > 0 {
        let init = tokens.drop_last();
        let before = distinct(init);
        lemma_distinct_same_set(init);
        assert forall|w: Seq<char>| #[trigger] tokens.contains(w) implies distinct(
            tokens,
        ).contains(w) by {
            let k = choose|k: int| 0 <= k < tokens.len() && tokens[k] == w;
            if k < tokens.len() - 1 {
                assert(init[k] == w);
                assert(init.contains(w));
            }
            if before.contains(w) {
                let j = choose|j: int| 0 <= j < before.len() && before[j] == w;
                assert(distinct(tokens)[j] == w);
            } else {
                assert(distinct(tokens).last() == w);
            }
        }
        assert forall|w: Seq<char>| #[trigger] distinct(tokens).contains(w) implies tokens.contains(
            w,
        ) by {
            let j = choose|j: int| 0 <= j < distinct(tokens).len() && distinct(tokens)[j] == w;
            if j < before.len() {
                assert(before[j] == w);
                assert(before.contains(w));
                assert(init.contains(w));
                let k = choose|k: int| 0 <= k < init.len() && init[k] == w;
                assert(tokens[k] == w);
            } else {
                assert(tokens[tokens.len() - 1] == w);
            }
        }
    }
    assert(distinct(tokens).to_set() =~= tokens.to_set());
}

/// First-seen order: scanning further never moves a word that was already
/// found. The distinct words of a longer scan begin with those of its first
/// part, in the same places.
pub proof fn lemma_distinct_keeps_earlier(earlier: Seq<Seq<char>>, later: Seq<Seq<char>>)
    ensures
        distinct(earlier).is_prefix_of(distinct(earlier + later)),
    decreases later.len(),
{
    if later.len() == 0 {
        assert(earlier + later =~= earlier);
    } else {
        let all = earlier + later;
        assert(all.drop_last() =~= earlier + later.drop_last());
        lemma_distinct_keeps_earlier(earlier, later.drop_last());
    }
}

/// No word occurs twice in `distinct(tokens)`.
pub proof fn lemma_distinct_no_duplicates(tokens: Seq<Seq<char>>)
    ensures
        distinct(tokens).no_duplicates(),
    decreases tokens.len(),
{
    if tokens.len() > 0 {
        lemma_distinct_no_duplicates(tokens.drop_last());
    }
}

/// The candidate list has one entry for each distinct word of the scan.
pub proof fn lemma_distinct_len(tokens: Seq<Seq<char>>)
    ensures
        distinct(tokens).len() == tokens.to_set().len(),
        distinct(tokens).len() <= tokens.len(),
{
    lemma_distinct_same_set(tokens);
    lemma_distinct_no_duplicates(tokens);
    distinct(tokens).unique_seq_to_set();
    vstd::seq_lib::seq_to_set_is_finite(tokens);
    lemma_distinct_bounded(tokens);
}

proof fn lemma_distinct_bounded(tokens: Seq<Seq<char>>)
    ensures
        distinct(tokens).len() <= tokens.len(),
    decreases tokens.len(),
{
    if tokens.len() > 0 {
        lemma_distinct_bounded(tokens.drop_last());
    }
}

/// Two candidate lists built for the same text agree entry by entry, in text
/// and in index: a rebuild depends on the text alone.
pub proof fn lemma_rebuild_deterministic(a: Seq<Candidate>, b: Seq<Candidate>, text: Seq<char>)
    requires
        is_word_list(a, text),
        is_word_list(b, text),
    ensures
        a.len() == b.len(),
        forall|i: int| 0 <= i < a.len() ==> a[i].text@ == b[i].text@ && a[i].id == b[i].id,
{
    assert(a.len() == candidate_texts(a).len());
    assert(b.len() == candidate_texts(b).len());
    assert forall|i: int| 0 <= i < a.len() implies a[i].text@ == b[i].text@ && a[i].id
        == b[i].id by {
        assert(candidate_texts(a)[i] == candidate_texts(b)[i]);
    }
}

} // verus!
