//! Document snapshots and the jobs that carry them to background work.
use std::sync::Arc;
use vstd::prelude::*;

verus! {

/// An immutable view of a document's content at one version. A snapshot with
/// a larger version supersedes one with a smaller version.
#[derive(Debug, Clone)]
pub struct Snapshot {
    pub version: u64,
    pub text: Arc<String>,
}

/// Hands out another handle to a shared value with `Arc::clone`, which the
/// standard library documents as pointing to the same allocation: the new
/// handle shows the same value.
#[verifier::external_body]
pub(crate) fn share<T>(value: &Arc<T>) -> (shared: Arc<T>)
    ensures
        shared == *value,
{
    Arc::clone(value)
}

impl Snapshot {
    /// The version and the text of the snapshot, as mathematical values.
    pub open spec fn model(&self) -> (nat, Seq<char>) {
        (self.version as nat, self.text@)
    }

    /// A snapshot of `text` at `version`.
    pub fn new(version: u64, text: &str) -> (snapshot: Snapshot)
        ensures
            snapshot.version == version,
            snapshot.text@ == text@,
    {
        Snapshot { version, text: Arc::new(text.to_owned()) }
    }

    /// Another handle to the same snapshot; the text is shared, not copied.
    pub fn duplicate(&self) -> (copy: Snapshot)
        ensures
            copy == *self,
    {
        Snapshot { version: self.version, text: share(&self.text) }
    }

    /// Tells whether `newer` supersedes this snapshot.
    pub fn superseded_by(&self, newer: &Snapshot) -> (stale: bool)
        ensures
            stale == (self.version < newer.version),
    {
        self.version < newer.version
    }
}

/// The fixed wait, in milliseconds, before a debounced rebuild starts.
pub const DEBOUNCE_MILLIS: u64 = 50;

/// A scheduled rebuild of the word list: which snapshot to scan, under which
/// ticket, and whether to wait before starting.
#[derive(Debug, Clone)]
pub struct WordJob {
    pub ticket: u64,
    pub debounce: bool,
    pub snapshot: Snapshot,
}

impl WordJob {
    /// How long the job waits before it scans, in milliseconds.
    pub fn delay_millis(&self) -> (millis: u64)
        ensures
            self.debounce ==> millis == DEBOUNCE_MILLIS,
            !self.debounce ==> millis == 0,
    {
        if self.debounce {
            DEBOUNCE_MILLIS
        } else {
            0
        }
    }
}

/// A scheduled extraction of the outline of one snapshot.
#[derive(Debug, Clone)]
pub struct OutlineJob {
    pub ticket: u64,
    pub snapshot: Snapshot,
}

/// A change of the document between two snapshots, as offsets into the old
/// and the new text.
#[derive(Debug, Clone, Copy)]
pub struct Edit {
    pub old_start: usize,
    pub old_end: usize,
    pub new_start: usize,
    pub new_end: usize,
}

} // verus!
