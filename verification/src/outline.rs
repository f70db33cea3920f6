//! Symbol outlines: a list of named entries in document order, nested by
//! depth, and the path candidates derived from it.
use std::sync::Arc;
use vstd::prelude::*;
use crate::candidates::{candidate_texts, well_indexed, Candidate};
use crate::scan::push_char;

verus! {

/// One symbol of a document. `depth` is its nesting level; `start` and `end`
/// bound the span of source text it covers, as the extractor reported it.
#[derive(Debug, Clone)]
pub struct OutlineItem {
    pub depth: usize,
    pub start: usize,
    pub end: usize,
    pub text: String,
}

/// An outline together with the candidate list of its symbol paths.
#[derive(Debug, Clone)]
pub struct Outline {
    pub items: Vec<OutlineItem>,
    pub path_candidates: Arc<Vec<Candidate>>,
}

/// The nearest entry at or before position `j` that lies less deep than
/// entry `i`, if there is one.
pub open spec fn enclosing(items: Seq<OutlineItem>, i: int, j: int) -> Option<int>
    decreases j + 1,
{
    if j < 0 || j >= i || i >= items.len() {
        None
    } else if items[j].depth < items[i].depth {
        Some(j)
    } else {
        enclosing(items, i, j - 1)
    }
}

/// The entry that encloses entry `i`: the nearest earlier entry of smaller
/// depth.
pub open spec fn parent(items: Seq<OutlineItem>, i: int) -> Option<int> {
    enclosing(items, i, i - 1)
}

/// The path of entry `i`: the names of its enclosing entries from the
/// outermost inwards, then its own name, separated by single spaces.
pub open spec fn path_text(items: Seq<OutlineItem>, i: int) -> Seq<char>
    recommends
        0 <= i < items.len(),
    decreases i,
{
    match parent(items, i) {
        Some(p) => if 0 <= p < i {
            path_text(items, p).push(' ') + items[i].text@
        } else {
            items[i].text@
        },
        None => items[i].text@,
    }
}

/// The paths of all entries, in outline order.
pub open spec fn outline_paths(items: Seq<OutlineItem>) -> Seq<Seq<char>> {
    Seq::new(items.len(), |i: int| path_text(items, i))
}

/// A stored link of entry `k` names the entry that encloses it.
pub open spec fn is_parent_link(items: Seq<OutlineItem>, link: Option<usize>, k: int) -> bool {
    match link {
        Some(p) => parent(items, k) == Some(p as int) && p < k,
        None => parent(items, k) is None,
    }
}

/// Looking back from `m` for what encloses entry `i` finds the same as
/// first looking for what encloses `k` and going on from there, when `k`
/// lies at least as deep as `i`.
proof fn lemma_enclosing_through(items: Seq<OutlineItem>, i: int, k: int, m: int)
    requires
        -1 <= m < k < i < items.len(),
        items[k].depth >= items[i].depth,
    ensures
        enclosing(items, k, m) is None ==> enclosing(items, i, m) is None,
        enclosing(items, k, m) is Some ==> enclosing(items, i, m) == enclosing(
            items,
            i,
            enclosing(items, k, m)->0,
        ),
    decreases m + 1,
{
    if m >= 0 && items[m].depth >= items[k].depth {
        lemma_enclosing_through(items, i, k, m - 1);
    }
}

/// Finds the entry that encloses entry `i`, given the links of all earlier
/// entries: from the entry just before `i`, it follows the links outwards
/// until it meets an entry of smaller depth.
pub fn find_parent(items: &Vec<OutlineItem>, links: &Vec<Option<usize>>, i: usize) -> (found: Option<
    usize,
>)
    requires
        i < items.len(),
        links.len() == i,
        forall|k: int| 0 <= k < i ==> is_parent_link(items@, #[trigger] links[k], k),
    ensures
        is_parent_link(items@, found, i as int),
{
    let mut cur: Option<usize> = if i == 0 {
        None
    } else {
        Some((i - 1) as usize)
    };
    while cur.is_some()
        invariant
            i < items.len(),
            links.len() == i,
            forall|k: int| 0 <= k < i ==> is_parent_link(items@, #[trigger] links[k], k),
            match cur {
                Some(k) => k < i && parent(items@, i as int) == enclosing(items@, i as int, k as int),
                None => parent(items@, i as int) is None,
            },
        decreases
            match cur {
                Some(k) => k + 1,
                None => 0,
            },
    {
        let k = cur.unwrap();
        if items[k].depth < items[i].depth {
            return Some(k);
        }
        proof {
            lemma_enclosing_through(items@, i as int, k as int, k - 1);
        }
        cur = links[k];
    }
    None
}

impl Outline {
    /// Builds an outline from extracted entries and derives the candidate
    /// list of their paths, one candidate per entry, in outline order.
    pub fn new(items: Vec<OutlineItem>) -> (outline: Outline)
        ensures
            outline.items@ == items@,
            candidate_texts(outline.path_candidates@) == outline_paths(items@),
            well_indexed(outline.path_candidates@),
    {
        let mut paths: Vec<Candidate> = Vec::new();
        let mut links: Vec<Option<usize>> = Vec::new();
        let mut i: usize = 0;
        while i < items.len()
            invariant
                i <= items.len(),
                paths.len() == i,
                links.len() == i,
                forall|k: int| 0 <= k < i ==> is_parent_link(items@, #[trigger] links[k], k),
                forall|k: int| 0 <= k < i ==> (#[trigger] paths[k]).text@ == path_text(items@, k),
                well_indexed(paths@),
            decreases items.len() - i,
        {
            let found = find_parent(&items, &links, i);
            let text = match found {
                Some(p) => {
                    let mut prefix = paths[p].text.clone();
                    push_char(&mut prefix, ' ');
                    prefix.append(items[i].text.as_str());
                    prefix
                },
                None => items[i].text.clone(),
            };
            paths.push(Candidate { id: i, text });
            links.push(found);
            i += 1;
        }
        assert(candidate_texts(paths@) =~= outline_paths(items@));
        Outline { items, path_candidates: Arc::new(paths) }
    }
}

} // verus!
