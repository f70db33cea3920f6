use buffer_words::outline::OutlineItem;
use buffer_words::snapshot::{Snapshot, DEBOUNCE_MILLIS};
use buffer_words::words::{Publication, ScanError, SearchPlan, Words};

fn plan_texts(plan: &SearchPlan) -> Option<Vec<String>> {
    match plan {
        SearchPlan::Empty => None,
        SearchPlan::Match { candidates, .. } => {
            Some(candidates.iter().map(|c| c.text.clone()).collect())
        }
    }
}

fn strings(words: &[&str]) -> Vec<String> {
    words.iter().map(|w| w.to_string()).collect()
}

#[test]
fn search_before_first_rebuild_is_empty() {
    let (words, job) = Words::new(Snapshot::new(1, "let x = 1;"));
    assert_eq!(job.ticket, 0);
    assert!(!job.debounce);
    assert_eq!(job.delay_millis(), 0);
    assert_eq!(job.snapshot.version, 1);
    assert_eq!(job.snapshot.text.as_str(), "let x = 1;");
    assert!(matches!(words.fuzzy_search_words("x".to_string()), SearchPlan::Empty));
    assert!(matches!(words.fuzzy_search_outlines("x".to_string()), SearchPlan::Empty));
    assert_eq!(words.words_version(), None);
    assert_eq!(words.word_candidates().len(), 0);
}

#[test]
fn first_job_publishes_the_distinct_words() {
    let (mut words, job) = Words::new(Snapshot::new(1, "foo bar foo foo"));
    assert!(words.word_job_is_current(&job));
    assert_eq!(words.run_word_job(&job), Publication::Published);
    assert_eq!(words.words_version(), Some(1));
    assert!(words.contains_word("foo"));
    assert!(words.contains_word("bar"));
    assert!(!words.contains_word("baz"));
    let plan = words.fuzzy_search_words("fo".to_string());
    assert_eq!(plan_texts(&plan), Some(strings(&["foo", "bar"])));
    match plan {
        SearchPlan::Match { candidates, query } => {
            assert_eq!(query, "fo");
            assert_eq!(candidates.len(), 2);
            assert_eq!(candidates[0].id, 0);
            assert_eq!(candidates[1].id, 1);
        }
        SearchPlan::Empty => panic!("words are published"),
    }
}

#[test]
fn scenario_search_plan_offers_bar_baz() {
    let (mut words, job) = Words::new(Snapshot::new(7, "let foo = bar_baz; // foo"));
    assert_eq!(words.run_word_job(&job), Publication::Published);
    let plan = words.fuzzy_search_words("brbz".to_string());
    assert_eq!(plan_texts(&plan), Some(strings(&["let", "foo", "bar_baz"])));
}

#[test]
fn a_job_publishes_once() {
    let (mut words, job) = Words::new(Snapshot::new(1, "a b"));
    assert_eq!(words.run_word_job(&job), Publication::Published);
    assert!(!words.word_job_is_current(&job));
    assert_eq!(words.run_word_job(&job), Publication::Superseded);
}

#[test]
fn stale_snapshot_is_ignored() {
    let (mut words, _first) = Words::new(Snapshot::new(5, "five"));
    let job = words.update_words(Some(Snapshot::new(4, "four")), Vec::new(), true);
    assert!(job.is_none());
    assert_eq!(words.version(), 5);
    assert_eq!(words.snapshot().text.as_str(), "five");
    let same = words.update_words(Some(Snapshot::new(5, "five")), Vec::new(), true);
    assert!(same.is_some());
    assert_eq!(words.version(), 5);
}

#[test]
fn rebind_without_snapshot_reschedules_the_bound_one() {
    let (mut words, first) = Words::new(Snapshot::new(2, "two"));
    let job = words.update_words(None, Vec::new(), true).unwrap();
    assert_eq!(job.ticket, 1);
    assert!(job.debounce);
    assert_eq!(job.delay_millis(), DEBOUNCE_MILLIS);
    assert_eq!(job.delay_millis(), 50);
    assert_eq!(job.snapshot.version, 2);
    assert_eq!(job.snapshot.text.as_str(), "two");
    assert!(!words.word_job_is_current(&first));
    assert!(words.word_job_is_current(&job));
}

#[test]
fn binds_in_quick_succession_publish_once() {
    let (mut words, first) = Words::new(Snapshot::new(1, "one"));
    let second = words.update_words(Some(Snapshot::new(2, "one two")), Vec::new(), true).unwrap();
    let third = words.update_words(Some(Snapshot::new(3, "one two three")), Vec::new(), true).unwrap();
    let fourth = words.update_words(Some(Snapshot::new(4, "four")), Vec::new(), true).unwrap();
    let mut published = 0;
    for job in [&second, &fourth, &first, &third, &fourth] {
        if words.run_word_job(job) == Publication::Published {
            published += 1;
        }
    }
    assert_eq!(published, 1);
    assert_eq!(words.words_version(), Some(4));
    assert_eq!(
        plan_texts(&words.fuzzy_search_words(String::new())),
        Some(strings(&["four"]))
    );
}

#[test]
fn older_scan_never_replaces_a_newer_result() {
    let (mut words, first) = Words::new(Snapshot::new(1, "old"));
    let second = words.update_words(Some(Snapshot::new(2, "new")), Vec::new(), false).unwrap();
    assert_eq!(words.run_word_job(&second), Publication::Published);
    assert_eq!(words.run_word_job(&first), Publication::Superseded);
    assert_eq!(words.words_version(), Some(2));
    assert_eq!(
        plan_texts(&words.fuzzy_search_words(String::new())),
        Some(strings(&["new"]))
    );
}

#[test]
fn published_words_stay_while_a_newer_rebuild_is_pending() {
    let (mut words, first) = Words::new(Snapshot::new(1, "kept"));
    assert_eq!(words.run_word_job(&first), Publication::Published);
    let _pending = words.update_words(Some(Snapshot::new(2, "next")), Vec::new(), true).unwrap();
    assert_eq!(words.words_version(), Some(1));
    assert_eq!(
        plan_texts(&words.fuzzy_search_words(String::new())),
        Some(strings(&["kept"]))
    );
}

#[test]
fn failed_scan_keeps_what_was_published() {
    let (mut words, first) = Words::new(Snapshot::new(1, "kept words"));
    assert_eq!(words.run_word_job(&first), Publication::Published);
    let job = words.update_words(Some(Snapshot::new(2, "other")), Vec::new(), false).unwrap();
    let failure = ScanError { message: "pattern did not compile".to_string() };
    assert_eq!(words.publish_words(&job, Err(failure)), Publication::Failed);
    assert_eq!(words.words_version(), Some(1));
    assert_eq!(
        plan_texts(&words.fuzzy_search_words(String::new())),
        Some(strings(&["kept", "words"]))
    );
    assert!(!words.word_job_is_current(&job));
}

#[test]
fn publish_words_deduplicates_the_tokens_it_is_given() {
    let (mut words, first) = Words::new(Snapshot::new(1, ""));
    let done = words.publish_words(&first, Ok(strings(&["x", "y", "x", "z", "y"])));
    assert_eq!(done, Publication::Published);
    assert_eq!(
        plan_texts(&words.fuzzy_search_words(String::new())),
        Some(strings(&["x", "y", "z"]))
    );
}

#[test]
fn document_without_words_searches_empty_after_publication() {
    let (mut words, first) = Words::new(Snapshot::new(1, " ;; "));
    assert_eq!(words.run_word_job(&first), Publication::Published);
    assert_eq!(words.words_version(), Some(1));
    assert!(matches!(words.fuzzy_search_words("x".to_string()), SearchPlan::Empty));
}

#[test]
fn earlier_generation_is_untouched_by_a_later_rebuild() {
    let (mut words, first) = Words::new(Snapshot::new(1, "alpha beta"));
    assert_eq!(words.run_word_job(&first), Publication::Published);
    let held = words.word_candidates();
    let next = words.update_words(Some(Snapshot::new(2, "gamma")), Vec::new(), false).unwrap();
    assert_eq!(words.run_word_job(&next), Publication::Published);
    let held_texts: Vec<String> = held.iter().map(|c| c.text.clone()).collect();
    assert_eq!(held_texts, strings(&["alpha", "beta"]));
    let now: Vec<String> = words.word_candidates().iter().map(|c| c.text.clone()).collect();
    assert_eq!(now, strings(&["gamma"]));
}

#[test]
fn teardown_stops_publication() {
    let (mut words, first) = Words::new(Snapshot::new(1, "late"));
    assert!(!words.is_cancelled());
    words.cancel();
    assert!(words.is_cancelled());
    assert!(!words.word_job_is_current(&first));
    assert_eq!(words.run_word_job(&first), Publication::Superseded);
    assert_eq!(words.words_version(), None);
    words.cancel();
    assert!(words.is_cancelled());
}

fn item(depth: usize, text: &str) -> OutlineItem {
    OutlineItem { depth, start: 0, end: 0, text: text.to_string() }
}

#[test]
fn outline_is_published_with_its_paths() {
    let (mut words, _first) = Words::new(Snapshot::new(1, "mod a { fn b() {} }"));
    let job = words.update_outlines();
    assert_eq!(job.ticket, 1);
    assert_eq!(job.snapshot.version, 1);
    assert!(words.outline_job_is_current(&job));
    let done = words.publish_outlines(&job, Some(vec![item(0, "mod a"), item(1, "fn b")]));
    assert_eq!(done, Publication::Published);
    assert_eq!(words.outlines_version(), Some(1));
    let plan = words.fuzzy_search_outlines("b".to_string());
    assert_eq!(plan_texts(&plan), Some(strings(&["mod a", "mod a fn b"])));
}

#[test]
fn empty_outline_differs_from_no_outline() {
    let (mut words, _first) = Words::new(Snapshot::new(1, ""));
    assert!(matches!(words.fuzzy_search_outlines("q".to_string()), SearchPlan::Empty));
    let job = words.update_outlines();
    assert_eq!(words.publish_outlines(&job, Some(Vec::new())), Publication::Published);
    let plan = words.fuzzy_search_outlines("q".to_string());
    assert_eq!(plan_texts(&plan), Some(Vec::new()));
}

#[test]
fn outline_of_a_replaced_snapshot_is_discarded() {
    let (mut words, _first) = Words::new(Snapshot::new(1, "fn a() {}"));
    let job = words.update_outlines();
    let _rebuild = words.update_words(Some(Snapshot::new(2, "fn b() {}")), Vec::new(), true);
    assert!(!words.outline_job_is_current(&job));
    assert_eq!(words.publish_outlines(&job, Some(vec![item(0, "fn a")])), Publication::Superseded);
    assert_eq!(words.outlines_version(), None);
    assert!(matches!(words.fuzzy_search_outlines(String::new()), SearchPlan::Empty));
}

#[test]
fn later_outline_request_supersedes_the_earlier_one() {
    let (mut words, _first) = Words::new(Snapshot::new(1, "fn a() {}"));
    let early = words.update_outlines();
    let late = words.update_outlines();
    assert_eq!(words.publish_outlines(&early, Some(vec![item(0, "early")])), Publication::Superseded);
    assert_eq!(words.publish_outlines(&late, Some(vec![item(0, "late")])), Publication::Published);
    assert_eq!(
        plan_texts(&words.fuzzy_search_outlines(String::new())),
        Some(strings(&["late"]))
    );
}

#[test]
fn failed_extraction_keeps_the_published_outline() {
    let (mut words, _first) = Words::new(Snapshot::new(1, "fn a() {}"));
    let job = words.update_outlines();
    assert_eq!(words.publish_outlines(&job, Some(vec![item(0, "fn a")])), Publication::Published);
    let again = words.update_outlines();
    assert_eq!(words.publish_outlines(&again, None), Publication::Failed);
    assert_eq!(
        plan_texts(&words.fuzzy_search_outlines(String::new())),
        Some(strings(&["fn a"]))
    );
}

#[test]
fn word_and_outline_rebuilds_do_not_disturb_each_other() {
    let (mut words, first) = Words::new(Snapshot::new(1, "fn a() {}"));
    let outline_job = words.update_outlines();
    assert!(words.word_job_is_current(&first));
    assert_eq!(words.run_word_job(&first), Publication::Published);
    assert!(words.outline_job_is_current(&outline_job));
    assert!(words.can_schedule());
}

#[test]
fn snapshot_supersession_is_by_version() {
    let old = Snapshot::new(1, "a");
    let new = Snapshot::new(2, "b");
    assert!(old.superseded_by(&new));
    assert!(!new.superseded_by(&old));
    assert!(!old.superseded_by(&old.duplicate()));
    assert_eq!(old.duplicate().text.as_str(), "a");
    assert_eq!(old.duplicate().version, 1);
}
