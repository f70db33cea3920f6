//! The coordination rules as a state machine over mathematical values: which
//! snapshot is bound, which rebuild is pending, what is published, and how
//! each event changes that.
use vstd::prelude::*;
use crate::candidates::distinct;
use crate::outline::OutlineItem;

verus! {

/// What an index instance holds, as mathematical values.
pub struct State {
    /// Version of the bound snapshot.
    pub version: nat,
    /// Text of the bound snapshot.
    pub text: Seq<char>,
    /// Texts of the published word candidates, in order.
    pub words: Seq<Seq<char>>,
    /// Version of the snapshot that the published words were scanned from;
    /// `None` until the first publication.
    pub words_version: Option<nat>,
    /// Ticket of the pending word rebuild, if one is pending.
    pub word_task: Option<nat>,
    /// Entries of the published outline; `None` until one is published.
    pub outline: Option<Seq<OutlineItem>>,
    /// Version of the snapshot that the published outline was extracted from.
    pub outline_version: Option<nat>,
    /// Ticket of the pending outline extraction, if one is pending.
    pub outline_task: Option<nat>,
    /// Number of tickets handed out so far.
    pub issued: nat,
    /// Whether the instance was torn down.
    pub cancelled: bool,
}

/// What can happen to an index instance.
pub enum Event {
    /// A snapshot is bound (or, with `None`, a rebuild of the bound one is
    /// asked for).
    Bind { snapshot: Option<(nat, Seq<char>)> },
    /// A word scan ended, with its tokens or with a failure.
    WordsDone { ticket: nat, version: nat, scanned: Option<Seq<Seq<char>>> },
    /// An outline extraction is asked for.
    OutlineRequested,
    /// An outline extraction ended, with its entries or with a failure.
    OutlineDone { ticket: nat, version: nat, extracted: Option<Seq<OutlineItem>> },
    /// The instance is torn down.
    Teardown,
}

/// `a` is no later than `b`, where `None` stands for "nothing yet".
pub open spec fn no_later(a: Option<nat>, b: Option<nat>) -> bool {
    match (a, b) {
        (None, _) => true,
        (Some(_), None) => false,
        (Some(x), Some(y)) => x <= y,
    }
}

impl State {
    /// The state of an instance bound to its first snapshot, before any
    /// rebuild is scheduled.
    pub open spec fn initial(version: nat, text: Seq<char>) -> State {
        State {
            version,
            text,
            words: Seq::empty(),
            words_version: None,
            word_task: None,
            outline: None,
            outline_version: None,
            outline_task: None,
            issued: 0,
            cancelled: false,
        }
    }

    /// What holds of every reachable state.
    pub open spec fn inv(self) -> bool {
        &&& no_later(self.words_version, Some(self.version))
        &&& no_later(self.outline_version, Some(self.version))
        &&& self.words_version is None ==> self.words.len() == 0
        &&& (self.outline is None <==> self.outline_version is None)
        &&& self.word_task matches Some(t) ==> t < self.issued
        &&& self.outline_task matches Some(t) ==> t < self.issued
    }

    /// A snapshot of this version arrives too late: a newer one is bound.
    pub open spec fn is_stale(self, version: nat) -> bool {
        version < self.version
    }

    /// Schedules a word rebuild under a fresh ticket, in place of any that
    /// was pending.
    pub open spec fn schedule_words(self) -> State {
        State { word_task: Some(self.issued), issued: self.issued + 1, ..self }
    }

    /// Binds a snapshot unless it is stale, and schedules a word rebuild.
    /// With `None` the bound snapshot stays and a rebuild is scheduled.
    pub open spec fn bind(self, snapshot: Option<(nat, Seq<char>)>) -> State {
        match snapshot {
            Some((version, text)) => if self.is_stale(version) {
                self
            } else {
                State { version, text, ..self }.schedule_words()
            },
            None => self.schedule_words(),
        }
    }

    /// The word rebuild with this ticket, made from this version, may still
    /// publish: it is the pending one, its snapshot is the bound one, and the
    /// instance is alive.
    pub open spec fn accepts_words(self, ticket: nat, version: nat) -> bool {
        !self.cancelled && self.word_task == Some(ticket) && version == self.version
    }

    /// The end of a word scan. A scan that is no longer accepted changes
    /// nothing. An accepted one ends the pending rebuild; if it brought
    /// tokens, their distinct values become the published words.
    pub open spec fn complete_words(
        self,
        ticket: nat,
        version: nat,
        scanned: Option<Seq<Seq<char>>>,
    ) -> State {
        if !self.accepts_words(ticket, version) {
            self
        } else {
            match scanned {
                Some(tokens) => State {
                    words: distinct(tokens),
                    words_version: Some(version),
                    word_task: None,
                    ..self
                },
                None => State { word_task: None, ..self },
            }
        }
    }

    /// Schedules an outline extraction under a fresh ticket, in place of any
    /// that was pending.
    pub open spec fn schedule_outline(self) -> State {
        State { outline_task: Some(self.issued), issued: self.issued + 1, ..self }
    }

    /// The outline extraction with this ticket, made from this version, may
    /// still publish.
    pub open spec fn accepts_outline(self, ticket: nat, version: nat) -> bool {
        !self.cancelled && self.outline_task == Some(ticket) && version == self.version
    }

    /// The end of an outline extraction, by the same rule as for words.
    pub open spec fn complete_outline(
        self,
        ticket: nat,
        version: nat,
        extracted: Option<Seq<OutlineItem>>,
    ) -> State {
        if !self.accepts_outline(ticket, version) {
            self
        } else {
            match extracted {
                Some(items) => State {
                    outline: Some(items),
                    outline_version: Some(version),
                    outline_task: None,
                    ..self
                },
                None => State { outline_task: None, ..self },
            }
        }
    }

    /// Tears the instance down: the cancellation signal is set for good.
    pub open spec fn teardown(self) -> State {
        State { cancelled: true, ..self }
    }

    /// The state after one event.
    pub open spec fn step(self, event: Event) -> State {
        match event {
            Event::Bind { snapshot } => self.bind(snapshot),
            Event::WordsDone { ticket, version, scanned } => self.complete_words(
                ticket,
                version,
                scanned,
            ),
            Event::OutlineRequested => self.schedule_outline(),
            Event::OutlineDone { ticket, version, extracted } => self.complete_outline(
                ticket,
                version,
                extracted,
            ),
            Event::Teardown => self.teardown(),
        }
    }

    /// The state after a sequence of events, in order.
    pub open spec fn run(self, events: Seq<Event>) -> State
        decreases events.len(),
    {
        if events.len() == 0 {
            self
        } else {
            self.run(events.drop_last()).step(events.last())
        }
    }

    /// How many of the given word scans publish, when they end one after the
    /// other with no bind in between. Each scan is a ticket, a version and
    /// the tokens it found.
    pub open spec fn publications(self, scans: Seq<(nat, nat, Seq<Seq<char>>)>) -> nat
        decreases scans.len(),
    {
        if scans.len() == 0 {
            0
        } else {
            let first = scans[0];
            let here: nat = if self.accepts_words(first.0, first.1) {
                1
            } else {
                0
            };
            here + self.complete_words(first.0, first.1, Some(first.2)).publications(
                scans.skip(1),
            )
        }
    }
}

/// One event keeps the invariant and never moves anything backwards: the
/// bound version and both published versions only grow, a published index is
/// never emptied again, tickets are never reused, and a cancelled instance
/// stays cancelled.
pub proof fn lemma_step_monotone(s: State, event: Event)
    requires
        s.inv(),
    ensures
        s.step(event).inv(),
        s.version <= s.step(event).version,
        no_later(s.words_version, s.step(event).words_version),
        no_later(s.outline_version, s.step(event).outline_version),
        s.outline is Some ==> s.step(event).outline is Some,
        s.issued <= s.step(event).issued,
        s.cancelled ==> s.step(event).cancelled,
{
}

/// Freshness: over any sequence of binds, completed scans, extractions and
/// teardown, in any order, the published words and the published outline
/// never go back to an older snapshot, nor to nothing, and never run ahead
/// of the bound snapshot.
pub proof fn lemma_freshness(s: State, events: Seq<Event>)
    requires
        s.inv(),
    ensures
        s.run(events).inv(),
        s.version <= s.run(events).version,
        no_later(s.words_version, s.run(events).words_version),
        no_later(s.outline_version, s.run(events).outline_version),
        no_later(s.run(events).words_version, Some(s.run(events).version)),
        s.outline is Some ==> s.run(events).outline is Some,
        s.issued <= s.run(events).issued,
        s.cancelled ==> s.run(events).cancelled,
    decreases events.len(),
{
    if events.len() > 0 {
        lemma_freshness(s, events.drop_last());
        lemma_step_monotone(s.run(events.drop_last()), events.last());
    }
}

/// Last snapshot wins: once words scanned from version `v` are published, a
/// scan of an older version can no longer publish, whenever it ends.
pub proof fn lemma_older_scan_discarded(
    s: State,
    events: Seq<Event>,
    ticket: nat,
    version: nat,
    scanned: Option<Seq<Seq<char>>>,
)
    requires
        s.inv(),
        s.words_version matches Some(v) && version < v,
    ensures
        !s.run(events).accepts_words(ticket, version),
        s.run(events).complete_words(ticket, version, scanned) == s.run(events),
{
    lemma_freshness(s, events);
}

/// A bind that is not stale supersedes every rebuild scheduled before it:
/// none of the earlier tickets is accepted afterwards, whatever version it
/// scanned.
pub proof fn lemma_bind_supersedes(
    s: State,
    snapshot: Option<(nat, Seq<char>)>,
    ticket: nat,
    version: nat,
)
    requires
        s.inv(),
        ticket < s.issued,
        snapshot matches Some(n) ==> !s.is_stale(n.0),
    ensures
        !s.bind(snapshot).accepts_words(ticket, version),
        s.bind(snapshot).accepts_words(s.issued, s.bind(snapshot).version) == !s.cancelled,
{
}

/// When no word rebuild is pending, no scan publishes.
pub proof fn lemma_idle_publishes_nothing(s: State, scans: Seq<(nat, nat, Seq<Seq<char>>)>)
    requires
        s.word_task is None,
    ensures
        s.publications(scans) == 0,
    decreases scans.len(),
{
    if scans.len() > 0 {
        let first = scans[0];
        lemma_idle_publishes_nothing(
            s.complete_words(first.0, first.1, Some(first.2)),
            scans.skip(1),
        );
    }
}

/// Coalescing: however many rebuilds were scheduled, and in whatever order
/// their scans end, at most one of them publishes until the next bind.
pub proof fn lemma_single_publication(s: State, scans: Seq<(nat, nat, Seq<Seq<char>>)>)
    ensures
        s.publications(scans) <= 1,
    decreases scans.len(),
{
    if scans.len() > 0 {
        let first = scans[0];
        let next = s.complete_words(first.0, first.1, Some(first.2));
        if s.accepts_words(first.0, first.1) {
            lemma_idle_publishes_nothing(next, scans.skip(1));
        } else {
            lemma_single_publication(next, scans.skip(1));
        }
    }
}

/// Teardown is final: whatever happens afterwards, the cancellation signal
/// stays set and what is published stays exactly as it was.
pub proof fn lemma_teardown_is_final(s: State, events: Seq<Event>)
    ensures
        s.teardown().run(events).cancelled,
        s.teardown().run(events).words == s.words,
        s.teardown().run(events).words_version == s.words_version,
        s.teardown().run(events).outline == s.outline,
        s.teardown().run(events).outline_version == s.outline_version,
    decreases events.len(),
{
    if events.len() > 0 {
        lemma_teardown_is_final(s, events.drop_last());
    }
}

/// Empty before ready: from creation until the first scan publishes, the
/// published word list is empty, whatever is bound meanwhile.
pub proof fn lemma_empty_before_ready(s: State, events: Seq<Event>)
    requires
        s.inv(),
        s.run(events).words_version is None,
    ensures
        s.run(events).words.len() == 0,
{
    lemma_freshness(s, events);
}

} // verus!
