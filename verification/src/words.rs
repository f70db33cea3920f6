//! The index of one open document: the bound snapshot, the published word
//! list and outline, and the rebuilds that are pending.
use std::sync::Arc;
use vstd::prelude::*;
use crate::candidates::{candidate_texts, well_indexed, Candidate, UniqueWords};
use crate::outline::{outline_paths, Outline, OutlineItem};
use crate::scan::{scan_words, texts_of, word_tokens};
use crate::snapshot::{share, Edit, OutlineJob, Snapshot, WordJob};
use crate::state::State;

verus! {

/// Why a word scan brought no tokens.
#[derive(Debug, Clone)]
pub struct ScanError {
    pub message: String,
}

/// What became of a finished rebuild.
#[derive(Debug, Clone, Copy, PartialEq, Eq, Structural)]
pub enum Publication {
    /// Its result is now the published one.
    Published,
    /// It was accepted but had failed; what was published before stays.
    Failed,
    /// It was superseded or the instance was torn down; nothing changed.
    Superseded,
}

/// What a search has to do.
#[derive(Debug, Clone)]
pub enum SearchPlan {
    /// Nothing is indexed yet: the answer is the empty list.
    Empty,
    /// Match `query` against `candidates`, one generation of a published
    /// list, under the instance's cancellation signal.
    Match { candidates: Arc<Vec<Candidate>>, query: String },
}

/// The index of one document.
pub struct Words {
    buffer: Snapshot,
    unique_words: UniqueWords,
    words_version: Option<u64>,
    outlines: Option<Outline>,
    outlines_version: Option<u64>,
    word_update_task: Option<u64>,
    outline_update_task: Option<u64>,
    issued: u64,
    cancel_flag: bool,
}

/// A machine number, or none, as a mathematical one.
pub open spec fn as_nat(value: Option<u64>) -> Option<nat> {
    match value {
        Some(v) => Some(v as nat),
        None => None,
    }
}

/// The snapshot handed to a bind, as mathematical values.
pub open spec fn snapshot_model(snapshot: Option<Snapshot>) -> Option<(nat, Seq<char>)> {
    match snapshot {
        Some(s) => Some(s.model()),
        None => None,
    }
}

/// The outcome of a scan, as mathematical values.
pub open spec fn scan_model(scanned: Result<Vec<String>, ScanError>) -> Option<Seq<Seq<char>>> {
    match scanned {
        Ok(tokens) => Some(texts_of(tokens@)),
        Err(_) => None,
    }
}

/// The outcome of an extraction, as mathematical values.
pub open spec fn extraction_model(extracted: Option<Vec<OutlineItem>>) -> Option<
    Seq<OutlineItem>,
> {
    match extracted {
        Some(items) => Some(items@),
        None => None,
    }
}

/// What is reported for a finished rebuild: superseded where it is not
/// accepted, else published or failed by whether it brought a result.
pub open spec fn outcome(accepted: bool, has_result: bool) -> Publication {
    if !accepted {
        Publication::Superseded
    } else if has_result {
        Publication::Published
    } else {
        Publication::Failed
    }
}

impl Words {
    /// The instance as a state of the coordination machine.
    pub closed spec fn view(&self) -> State {
        State {
            version: self.buffer.version as nat,
            text: self.buffer.text@,
            words: self.unique_words.texts(),
            words_version: as_nat(self.words_version),
            word_task: as_nat(self.word_update_task),
            outline: match self.outlines {
                Some(o) => Some(o.items@),
                None => None,
            },
            outline_version: as_nat(self.outlines_version),
            outline_task: as_nat(self.outline_update_task),
            issued: self.issued as nat,
            cancelled: self.cancel_flag,
        }
    }

    /// The instance is in a reachable state, its candidates are indexed by
    /// position, and the published path candidates are those of the
    /// published outline.
    pub closed spec fn wf(&self) -> bool {
        &&& self@.inv()
        &&& self.unique_words.wf()
        &&& self.outlines matches Some(o) ==> {
            &&& candidate_texts(o.path_candidates@) == outline_paths(o.items@)
            &&& well_indexed(o.path_candidates@)
        }
    }

    /// A well-formed instance is in a state that satisfies the machine's
    /// invariant.
    pub proof fn lemma_wf_inv(&self)
        requires
            self.wf(),
        ensures
            self@.inv(),
    {
    }

    /// Creates the index of a document, bound to its first snapshot, and
    /// schedules the first word rebuild, which does not wait.
    pub fn new(buffer: Snapshot) -> (created: (Words, WordJob))
        ensures
            created.0.wf(),
            created.0@ == State::initial(buffer.version as nat, buffer.text@).bind(None),
            created.1.ticket == 0,
            !created.1.debounce,
            created.1.snapshot == buffer,
    {
        let snapshot = buffer.duplicate();
        let words = Words {
            buffer,
            unique_words: UniqueWords::new(),
            words_version: None,
            outlines: None,
            outlines_version: None,
            word_update_task: Some(0),
            outline_update_task: None,
            issued: 1,
            cancel_flag: false,
        };
        (words, WordJob { ticket: 0, debounce: false, snapshot })
    }

    /// Tells whether another rebuild can be scheduled: tickets are machine
    /// numbers and run out after `u64::MAX` of them.
    pub fn can_schedule(&self) -> (yes: bool)
        ensures
            yes == (self@.issued < u64::MAX),
    {
        self.issued < u64::MAX
    }

    /// Binds `new_snapshot` unless the bound one supersedes it, and schedules
    /// a word rebuild of the bound snapshot in place of any that was pending.
    /// With `None` the bound snapshot stays. A stale snapshot changes nothing
    /// and yields no job.
    pub fn update_words(
        &mut self,
        new_snapshot: Option<Snapshot>,
        edits: Vec<Edit>,
        debounce: bool,
    ) -> (job: Option<WordJob>)
        requires
            old(self).wf(),
            old(self)@.issued < u64::MAX,
        ensures
            final(self).wf(),
            final(self)@ == old(self)@.bind(snapshot_model(new_snapshot)),
            job is None <==> (new_snapshot matches Some(n) && old(self)@.is_stale(
                n.version as nat,
            )),
            job matches Some(j) ==> j.ticket == old(self)@.issued && j.debounce == debounce
                && j.snapshot.model() == (final(self)@.version, final(self)@.text)
                && final(self)@.accepts_words(j.ticket as nat, j.snapshot.version as nat)
                == !old(self)@.cancelled,
    {
        match new_snapshot {
            Some(snapshot) => {
                if snapshot.superseded_by(&self.buffer) {
                    return None;
                }
                self.buffer = snapshot;
            },
            None => {},
        }
        let ticket = self.issued;
        self.word_update_task = Some(ticket);
        self.issued = ticket + 1;
        Some(WordJob { ticket, debounce, snapshot: self.buffer.duplicate() })
    }

    /// Tells whether a word job may still publish: it is the pending one, its
    /// snapshot is the bound one, and the instance was not torn down. A job
    /// that waited asks this before it scans.
    pub fn word_job_is_current(&self, job: &WordJob) -> (current: bool)
        ensures
            current == self@.accepts_words(job.ticket as nat, job.snapshot.version as nat),
    {
        !self.cancel_flag && self.word_update_task == Some(job.ticket) && job.snapshot.version
            == self.buffer.version
    }

    /// Takes the outcome of a word scan. A job that is no longer current is
    /// discarded and nothing changes. A current job ends the pending rebuild;
    /// if its scan brought tokens, a fresh candidate list of their distinct
    /// values, in first-seen order, replaces the published one, else the
    /// published one stays.
    pub fn publish_words(&mut self, job: &WordJob, scanned: Result<Vec<String>, ScanError>) -> (done:
        Publication)
        requires
            old(self).wf(),
        ensures
            final(self).wf(),
            final(self)@ == old(self)@.complete_words(
                job.ticket as nat,
                job.snapshot.version as nat,
                scan_model(scanned),
            ),
            done == outcome(
                old(self)@.accepts_words(job.ticket as nat, job.snapshot.version as nat),
                scanned is Ok,
            ),
    {
        if !self.word_job_is_current(job) {
            return Publication::Superseded;
        }
        self.word_update_task = None;
        match scanned {
            Ok(tokens) => {
                self.unique_words = UniqueWords::build(&tokens);
                self.words_version = Some(job.snapshot.version);
                Publication::Published
            },
            Err(_) => Publication::Failed,
        }
    }

    /// Scans the job's snapshot for words and publishes the result, in one
    /// step: afterwards, if the job was current, the published candidates
    /// are the distinct words of the job's text.
    pub fn run_word_job(&mut self, job: &WordJob) -> (done: Publication)
        requires
            old(self).wf(),
        ensures
            final(self).wf(),
            final(self)@ == old(self)@.complete_words(
                job.ticket as nat,
                job.snapshot.version as nat,
                Some(word_tokens(job.snapshot.text@)),
            ),
            done == outcome(
                old(self)@.accepts_words(job.ticket as nat, job.snapshot.version as nat),
                true,
            ),
    {
        let tokens = scan_words(job.snapshot.text.as_str());
        self.publish_words(job, Ok(tokens))
    }

    /// Schedules an extraction of the outline of the bound snapshot, in
    /// place of any that was pending.
    pub fn update_outlines(&mut self) -> (job: OutlineJob)
        requires
            old(self).wf(),
            old(self)@.issued < u64::MAX,
        ensures
            final(self).wf(),
            final(self)@ == old(self)@.schedule_outline(),
            job.ticket == old(self)@.issued,
            job.snapshot.model() == (old(self)@.version, old(self)@.text),
    {
        let ticket = self.issued;
        self.outline_update_task = Some(ticket);
        self.issued = ticket + 1;
        OutlineJob { ticket, snapshot: self.buffer.duplicate() }
    }

    /// Tells whether an outline job may still publish.
    pub fn outline_job_is_current(&self, job: &OutlineJob) -> (current: bool)
        ensures
            current == self@.accepts_outline(job.ticket as nat, job.snapshot.version as nat),
    {
        !self.cancel_flag && self.outline_update_task == Some(job.ticket)
            && job.snapshot.version == self.buffer.version
    }

    /// Takes the outcome of an outline extraction, by the same rule as for
    /// words: a job that is no longer current is discarded; a current one
    /// ends the pending extraction and, if it brought entries (possibly
    /// none at all), publishes them with their path candidates.
    pub fn publish_outlines(&mut self, job: &OutlineJob, extracted: Option<Vec<OutlineItem>>) -> (done:
        Publication)
        requires
            old(self).wf(),
        ensures
            final(self).wf(),
            final(self)@ == old(self)@.complete_outline(
                job.ticket as nat,
                job.snapshot.version as nat,
                extraction_model(extracted),
            ),
            done == outcome(
                old(self)@.accepts_outline(job.ticket as nat, job.snapshot.version as nat),
                extracted is Some,
            ),
    {
        if !self.outline_job_is_current(job) {
            return Publication::Superseded;
        }
        self.outline_update_task = None;
        match extracted {
            Some(items) => {
                self.outlines = Some(Outline::new(items));
                self.outlines_version = Some(job.snapshot.version);
                Publication::Published
            },
            None => Publication::Failed,
        }
    }

    /// Plans a search of the published words. While no word is published the
    /// plan is `Empty`; else it holds the published generation: one candidate
    /// per word, in first-seen order, indexed by position.
    pub fn fuzzy_search_words(&self, query: String) -> (plan: SearchPlan)
        requires
            self.wf(),
        ensures
            plan is Empty <==> self@.words.len() == 0,
            plan is Match ==> candidate_texts(plan->candidates@) == self@.words,
            plan is Match ==> well_indexed(plan->candidates@),
            plan is Match ==> plan->query == query,
    {
        if self.unique_words.len() == 0 {
            SearchPlan::Empty
        } else {
            SearchPlan::Match { candidates: share(&self.unique_words.word_matches), query }
        }
    }

    /// Plans a search of the published outline. While no outline is
    /// published the plan is `Empty`; a published outline, even one without
    /// entries, gives a plan over its path candidates.
    pub fn fuzzy_search_outlines(&self, query: String) -> (plan: SearchPlan)
        requires
            self.wf(),
        ensures
            plan is Empty <==> self@.outline is None,
            plan is Match ==> self@.outline is Some && candidate_texts(plan->candidates@)
                == outline_paths(self@.outline->0),
            plan is Match ==> well_indexed(plan->candidates@),
            plan is Match ==> plan->query == query,
    {
        match &self.outlines {
            None => SearchPlan::Empty,
            Some(outline) => SearchPlan::Match {
                candidates: share(&outline.path_candidates),
                query,
            },
        }
    }

    /// Tears the instance down: sets the cancellation signal, for good.
    /// Nothing else changes, and no rebuild publishes afterwards.
    pub fn cancel(&mut self)
        requires
            old(self).wf(),
        ensures
            final(self).wf(),
            final(self)@ == old(self)@.teardown(),
    {
        self.cancel_flag = true;
    }

    /// Tells whether the instance was torn down.
    pub fn is_cancelled(&self) -> (cancelled: bool)
        ensures
            cancelled == self@.cancelled,
    {
        self.cancel_flag
    }

    /// Tells whether `word` is among the published words.
    pub fn contains_word(&self, word: &str) -> (found: bool)
        requires
            self.wf(),
        ensures
            found == self@.words.contains(word@),
    {
        self.unique_words.contains(word)
    }

    /// The bound snapshot.
    pub fn snapshot(&self) -> (bound: Snapshot)
        ensures
            bound.model() == (self@.version, self@.text),
    {
        self.buffer.duplicate()
    }

    /// The version of the bound snapshot.
    pub fn version(&self) -> (version: u64)
        ensures
            version == self@.version,
    {
        self.buffer.version
    }

    /// The version that the published words were scanned from, if any are
    /// published.
    pub fn words_version(&self) -> (version: Option<u64>)
        ensures
            as_nat(version) == self@.words_version,
    {
        self.words_version
    }

    /// The version that the published outline was extracted from, if one is
    /// published.
    pub fn outlines_version(&self) -> (version: Option<u64>)
        ensures
            as_nat(version) == self@.outline_version,
    {
        self.outlines_version
    }

    /// The published word candidates, as one generation that later rebuilds
    /// leave untouched.
    pub fn word_candidates(&self) -> (candidates: Arc<Vec<Candidate>>)
        requires
            self.wf(),
        ensures
            candidate_texts(candidates@) == self@.words,
            well_indexed(candidates@),
    {
        share(&self.unique_words.word_matches)
    }
}

} // verus!
