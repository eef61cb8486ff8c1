//! The resolver as a state machine over plain values.
//!
//! A [`Cursor`] is the state of one resolution pass. What the filesystem
//! answers reaches it as an [`Event`]; [`Cursor::step`] says which state and
//! which outcome follow. The resolver itself only asks the questions and
//! takes the step, so everything that holds of every run of steps holds of
//! it, whatever is on disk.

use vstd::prelude::*;
use crate::error::Failure;
use crate::lookup::glob_accepts;
use crate::paths::{final_name, path_components, rewritten, Rewrite};
use crate::resource::{target_of, ResourceView};

verus! {

/// What one pull of the resolver gives.
#[derive(Debug)]
pub enum Pull<T> {
    /// The next item of the sequence.
    Item(T),
    /// No item yet: the resolver has moved on and is to be pulled again.
    Pending,
    /// The sequence has ended.
    Finished,
}

/// One pattern of a resolution: its text, and the explicit target where the
/// patterns came as a mapping.
pub struct Pattern {
    pub text: Seq<char>,
    pub target: Option<Seq<char>>,
}

impl Pattern {
    /// A pattern with a wildcard marker is a glob expression; any other is a
    /// literal path.
    pub open spec fn is_glob(self) -> bool {
        self.text.contains('*')
    }
}

/// Where a resolution stands between two pulls.
#[derive(Debug, Clone, Copy, PartialEq, Eq, Structural)]
pub enum Phase {
    /// Between patterns.
    Idle,
    /// Inside the matches of a glob expression.
    InGlob,
    /// Inside the walk of a directory.
    InWalk,
    /// One path is waiting to be looked at.
    PendingSingle,
}

/// The state of a resolution pass.
pub struct Cursor {
    /// The patterns, in their order.
    pub patterns: Seq<Pattern>,
    /// How many of them have been taken up.
    pub taken: nat,
    /// Whether directories may be walked.
    pub allow_walk: bool,
    /// The destination override of the pattern in progress.
    pub dest: Option<Seq<char>>,
    /// The normalized path that waits to be looked at.
    pub pending: Option<Seq<char>>,
    /// Whether a walk is open.
    pub walking: bool,
    /// Whether a glob expansion is open.
    pub globbing: bool,
}

/// What the world outside answers to the question that a state asks.
pub enum Event {
    /// Between patterns: the failure to open the next pattern as a glob
    /// expression, if it is one and is malformed.
    Start(Option<glob::PatternError>),
    /// Inside a glob expansion: its next match.
    Glob(Option<Result<Seq<char>, glob::GlobError>>),
    /// Inside a walk: its next entry.
    Walk(Option<Result<Seq<char>, walkdir::Error>>),
    /// For the waiting path: whether it names a directory.
    Probe(bool),
}

/// What a step hands to the caller.
pub type Outcome = Pull<Result<ResourceView, Failure>>;

/// The text of a path normalized for access to the filesystem.
pub open spec fn normalized(path: Seq<char>) -> Seq<char> {
    rewritten(path_components(path), Rewrite::Source)
}

impl Cursor {
    /// The state before the first pull.
    pub open spec fn start(patterns: Seq<Pattern>, allow_walk: bool) -> Cursor {
        Cursor {
            patterns,
            taken: 0,
            allow_walk,
            dest: None,
            pending: None,
            walking: false,
            globbing: false,
        }
    }

    /// The innermost thing in progress.
    pub open spec fn phase(self) -> Phase {
        if self.pending is Some {
            Phase::PendingSingle
        } else if self.walking {
            Phase::InWalk
        } else if self.globbing {
            Phase::InGlob
        } else {
            Phase::Idle
        }
    }

    /// No more patterns are taken up than there are; while a pattern is in
    /// progress the override is that pattern's; a walk is only ever open with
    /// permission.
    pub open spec fn wf(self) -> bool {
        &&& self.taken <= self.patterns.len()
        &&& !(self.phase() is Idle) ==> self.taken > 0 && self.dest == self.patterns[self.taken
            - 1].target
        &&& self.walking ==> self.allow_walk
    }

    /// The state with the pattern in progress given up.
    pub open spec fn abandoned(self) -> Cursor {
        Cursor { pending: None, walking: false, globbing: false, ..self }
    }

    /// The event answers the question that this state asks.
    pub open spec fn accepts(self, event: Event) -> bool {
        match self.phase() {
            Phase::PendingSingle => event is Probe,
            Phase::InWalk => event is Walk,
            Phase::InGlob => event is Glob,
            Phase::Idle => event matches Event::Start(failure) && (failure is Some <==> self.taken
                < self.patterns.len() && self.patterns[self.taken as int].is_glob()
                && !glob_accepts(self.patterns[self.taken as int].text)),
        }
    }

    /// The step for a waiting path, once it is known whether it names a
    /// directory.
    pub open spec fn after_probe(self, is_dir: bool) -> (Cursor, Outcome) {
        let path = self.pending->0;
        if is_dir && !self.allow_walk {
            (self.abandoned(), Pull::Item(Err(Failure::DirectoryNotAllowed(path))))
        } else if is_dir {
            (Cursor { pending: None, walking: true, ..self }, Pull::Pending)
        } else {
            (
                Cursor { pending: None, ..self },
                Pull::Item(
                    Ok(ResourceView { path, target: target_of(path_components(path), self.dest) }),
                ),
            )
        }
    }

    /// The step inside a walk, given its next entry.
    pub open spec fn after_walk(self, found: Option<Result<Seq<char>, walkdir::Error>>) -> (
        Cursor,
        Outcome,
    ) {
        match found {
            None => (Cursor { walking: false, ..self }, Pull::Pending),
            Some(Err(failure)) => (self.abandoned(), Pull::Item(Err(Failure::Walk(failure)))),
            Some(Ok(path)) => (Cursor { pending: Some(normalized(path)), ..self }, Pull::Pending),
        }
    }

    /// The step inside a glob expansion, given its next match.
    pub open spec fn after_glob(self, found: Option<Result<Seq<char>, glob::GlobError>>) -> (
        Cursor,
        Outcome,
    ) {
        match found {
            None => (Cursor { globbing: false, ..self }, Pull::Pending),
            Some(Err(failure)) => (
                self.abandoned(),
                Pull::Item(Err(Failure::GlobMatch(failure))),
            ),
            Some(Ok(path)) => (Cursor { pending: Some(normalized(path)), ..self }, Pull::Pending),
        }
    }

    /// The step between patterns: the next pattern is taken up, as a glob
    /// expression or as a literal path, or the sequence ends.
    pub open spec fn after_start(self, failure: Option<glob::PatternError>) -> (Cursor, Outcome) {
        if self.taken >= self.patterns.len() {
            (Cursor { dest: None, ..self }, Pull::Finished)
        } else {
            let pattern = self.patterns[self.taken as int];
            let taken = Cursor { taken: self.taken + 1, dest: pattern.target, ..self };
            if pattern.is_glob() {
                match failure {
                    Some(failure) => (taken, Pull::Item(Err(Failure::GlobSyntax(failure)))),
                    None => (Cursor { globbing: true, ..taken }, Pull::Pending),
                }
            } else {
                (Cursor { pending: Some(normalized(pattern.text)), ..taken }, Pull::Pending)
            }
        }
    }

    /// One step of the resolution: the state and the outcome that follow
    /// from this state and the event that answers it.
    pub open spec fn step(self, event: Event) -> (Cursor, Outcome) {
        match event {
            Event::Probe(is_dir) => self.after_probe(is_dir),
            Event::Walk(found) => self.after_walk(found),
            Event::Glob(found) => self.after_glob(found),
            Event::Start(failure) => self.after_start(failure),
        }
    }
}

/// One item of the output sequence, with the index of the pattern that it
/// came from.
pub struct Yielded {
    pub origin: int,
    pub item: Result<ResourceView, Failure>,
}

/// The state after a run of steps, and the items that the run has yielded,
/// in order.
pub open spec fn run(cursor: Cursor, events: Seq<Event>) -> (Cursor, Seq<Yielded>)
    decreases events.len(),
{
    if events.len() == 0 {
        (cursor, Seq::empty())
    } else {
        let (before, items) = run(cursor, events.drop_last());
        let (after, outcome) = before.step(events.last());
        match outcome {
            Pull::Item(item) => (after, items.push(Yielded { origin: after.taken - 1, item })),
            _ => (after, items),
        }
    }
}

/// Each event of the run answers the question of the state that it meets.
pub open spec fn admissible(cursor: Cursor, events: Seq<Event>) -> bool
    decreases events.len(),
{
    events.len() == 0 || (admissible(cursor, events.drop_last()) && run(
        cursor,
        events.drop_last(),
    ).0.accepts(events.last()))
}

impl Cursor {
    /// Every pattern has been taken up and nothing is in progress.
    pub open spec fn finished(self) -> bool {
        self.phase() is Idle && self.taken == self.patterns.len()
    }

    /// The least index of a pattern that an item can still come from.
    pub open spec fn floor(self) -> int {
        if self.phase() is Idle {
            self.taken as int
        } else {
            self.taken - 1
        }
    }
}

/// What a bounded number of pulls comes to: `events` answers them, `after`
/// is the state that they lead to, and `outcome` is what the last of them
/// gave. An item or the end stops the pulls and is the only thing that they
/// yield; where `limit` pulls gave neither, the outcome is `Pending`.
pub open spec fn pulled(
    cursor: Cursor,
    events: Seq<Event>,
    limit: nat,
    after: Cursor,
    outcome: Outcome,
) -> bool {
    &&& events.len() <= limit
    &&& admissible(cursor, events)
    &&& run(cursor, events).0 == after
    &&& match outcome {
        Pull::Item(item) => run(cursor, events).1 == seq![
            Yielded { origin: after.taken - 1, item },
        ],
        Pull::Pending => events.len() == limit && run(cursor, events).1.len() == 0,
        Pull::Finished => after.finished() && run(cursor, events).1.len() == 0,
    }
}

/// A step keeps a state well formed, takes up at most one pattern and never
/// goes back; an item that it yields comes from the pattern then in
/// progress, and a resource among them has the target that this pattern's
/// override gives to its path.
pub proof fn lemma_step(cursor: Cursor, event: Event)
    requires
        cursor.wf(),
        cursor.accepts(event),
    ensures
        cursor.step(event).0.wf(),
        cursor.step(event).0.patterns == cursor.patterns,
        cursor.step(event).0.allow_walk == cursor.allow_walk,
        cursor.taken <= cursor.step(event).0.taken <= cursor.taken + 1,
        cursor.floor() <= cursor.step(event).0.floor(),
        cursor.step(event).1 is Item ==> cursor.floor() <= cursor.step(event).0.taken - 1,
        cursor.step(event).1 matches Pull::Item(Ok(resource)) ==> resource.target == target_of(
            path_components(resource.path),
            cursor.patterns[cursor.step(event).0.taken - 1].target,
        ),
{
}

/// When each outcome comes: the sequence ends exactly where every pattern
/// has been taken up and nothing is in progress; a resource comes exactly
/// where the waiting path is found to be no directory; and each failure
/// comes exactly where its cause is met, a malformed glob expression as the
/// next pattern, a directory without permission to walk, a failed match, a
/// failed entry.
pub proof fn law_outcomes(cursor: Cursor, event: Event)
    requires
        cursor.wf(),
        cursor.accepts(event),
    ensures
        cursor.step(event).1 is Finished <==> cursor.finished(),
        cursor.step(event).1 matches Pull::Item(Ok(_)) <==> cursor.phase() is PendingSingle
            && event == Event::Probe(false),
        cursor.step(event).1 matches Pull::Item(Ok(resource)) ==> Some(resource.path)
            == cursor.pending,
        cursor.step(event).1 matches Pull::Item(Err(Failure::DirectoryNotAllowed(_)))
            <==> cursor.phase() is PendingSingle && event == Event::Probe(true)
            && !cursor.allow_walk,
        cursor.step(event).1 matches Pull::Item(Err(Failure::DirectoryNotAllowed(path)))
            ==> Some(path) == cursor.pending,
        cursor.step(event).1 matches Pull::Item(Err(Failure::GlobSyntax(_)))
            <==> cursor.phase() is Idle && cursor.taken < cursor.patterns.len()
            && cursor.patterns[cursor.taken as int].is_glob() && !glob_accepts(
            cursor.patterns[cursor.taken as int].text,
        ),
        cursor.step(event).1 matches Pull::Item(Err(Failure::GlobMatch(_)))
            <==> cursor.phase() is InGlob && event matches Event::Glob(Some(Err(_))),
        cursor.step(event).1 matches Pull::Item(Err(Failure::Walk(_))) <==> cursor.phase()
            is InWalk && event matches Event::Walk(Some(Err(_))),
{
}

/// What [`lemma_step`] says of one step holds along a run.
pub proof fn lemma_run(cursor: Cursor, events: Seq<Event>)
    requires
        cursor.wf(),
        admissible(cursor, events),
    ensures
        run(cursor, events).0.wf(),
        run(cursor, events).0.patterns == cursor.patterns,
        run(cursor, events).0.allow_walk == cursor.allow_walk,
        cursor.taken <= run(cursor, events).0.taken,
        cursor.floor() <= run(cursor, events).0.floor(),
        forall|i: int|
            0 <= i < run(cursor, events).1.len() ==> cursor.floor() <= (#[trigger] run(
                cursor,
                events,
            ).1[i]).origin < run(cursor, events).0.taken,
        forall|i: int, j: int|
            0 <= i <= j < run(cursor, events).1.len() ==> (#[trigger] run(cursor, events).1[i]).origin
                <= (#[trigger] run(cursor, events).1[j]).origin,
        forall|i: int|
            0 <= i < run(cursor, events).1.len() ==> ((#[trigger] run(
                cursor,
                events,
            ).1[i]).item matches Ok(resource) ==> resource.target == target_of(
                path_components(resource.path),
                cursor.patterns[run(cursor, events).1[i].origin].target,
            )),
    decreases events.len(),
{
    if events.len() > 0 {
        lemma_run(cursor, events.drop_last());
        lemma_step(run(cursor, events.drop_last()).0, events.last());
    }
}

/// Order is preserved: along any run, the items of an earlier pattern all
/// come before any item of a later one, and no pattern is taken up again.
pub proof fn law_pattern_order(cursor: Cursor, events: Seq<Event>, i: int, j: int)
    requires
        cursor.wf(),
        admissible(cursor, events),
        0 <= i <= j < run(cursor, events).1.len(),
    ensures
        run(cursor, events).1[i].origin <= run(cursor, events).1[j].origin,
        run(cursor, events).1[j].origin < run(cursor, events).0.taken,
        cursor.taken <= run(cursor, events).0.taken <= cursor.patterns.len(),
{
    lemma_run(cursor, events);
}

/// Permission to walk is enforced at every path: where walking is not
/// permitted and the waiting path names a directory, the step yields the
/// failure that names this path, and the pattern in progress is given up
/// with everything that was open for it.
pub proof fn law_directory_refused(cursor: Cursor)
    requires
        cursor.wf(),
        cursor.phase() is PendingSingle,
        !cursor.allow_walk,
    ensures
        cursor.step(Event::Probe(true)).1 == Outcome::Item(
            Err(Failure::DirectoryNotAllowed(cursor.pending->0)),
        ),
        cursor.step(Event::Probe(true)).0.phase() is Idle,
        cursor.step(Event::Probe(true)).0.taken == cursor.taken,
{
}

/// The answers that a literal pattern meets where it names a directory: it
/// is taken up, and the probe of its path finds a directory.
pub open spec fn directory_answers() -> Seq<Event> {
    seq![Event::Start(None), Event::Probe(true)]
}

/// A literal pattern that names a directory, resolved without permission to
/// walk, yields exactly one item, the failure that names the directory: the
/// two steps that the pattern takes yield nothing else, and whatever
/// follows comes from later patterns.
pub proof fn law_directory_pattern_refused(cursor: Cursor, rest: Seq<Event>)
    requires
        cursor.wf(),
        cursor.phase() is Idle,
        !cursor.allow_walk,
        cursor.taken < cursor.patterns.len(),
        !cursor.patterns[cursor.taken as int].is_glob(),
        admissible(run(cursor, directory_answers()).0, rest),
    ensures
        admissible(cursor, directory_answers()),
        run(cursor, directory_answers()).1 == seq![
            Yielded {
                origin: cursor.taken as int,
                item: Err(
                    Failure::DirectoryNotAllowed(
                        normalized(cursor.patterns[cursor.taken as int].text),
                    ),
                ),
            },
        ],
        forall|i: int|
            0 <= i < run(run(cursor, directory_answers()).0, rest).1.len() ==> (#[trigger] run(
                run(cursor, directory_answers()).0,
                rest,
            ).1[i]).origin > cursor.taken,
{
    let none = Seq::<Event>::empty();
    let one = seq![Event::Start(None)];
    let two = directory_answers();
    assert(one.drop_last() =~= none);
    assert(two.drop_last() =~= one);
    assert(run(cursor, none) == (cursor, Seq::<Yielded>::empty()));
    assert(admissible(cursor, none));
    let (opened, first) = cursor.step(Event::Start(None));
    assert(run(cursor, one) == (opened, Seq::<Yielded>::empty()));
    assert(admissible(cursor, one));
    assert(admissible(cursor, two));
    let (closed, second) = opened.step(Event::Probe(true));
    assert(run(cursor, two).1 =~= seq![
        Yielded {
            origin: cursor.taken as int,
            item: Err(
                Failure::DirectoryNotAllowed(
                    normalized(cursor.patterns[cursor.taken as int].text),
                ),
            ),
        },
    ]);
    lemma_run(cursor, two);
    lemma_run(closed, rest);
}

/// An override propagates: along any run, a resource that comes from a
/// pattern with a non-empty explicit target has exactly that target,
/// whether the pattern named it or a walk or a glob expansion found it.
pub proof fn law_override_propagates(cursor: Cursor, events: Seq<Event>, i: int)
    requires
        cursor.wf(),
        admissible(cursor, events),
        0 <= i < run(cursor, events).1.len(),
        run(cursor, events).1[i].item is Ok,
        cursor.patterns[run(cursor, events).1[i].origin].target is Some,
        cursor.patterns[run(cursor, events).1[i].origin].target->0.len() > 0,
    ensures
        run(cursor, events).1[i].item->Ok_0.target == cursor.patterns[run(
            cursor,
            events,
        ).1[i].origin].target->0,
{
    lemma_run(cursor, events);
}

/// An empty override flattens: along any run, a resource that comes from a
/// pattern with an empty explicit target is stored under the name that its
/// path ends in, without the directories before it; where its path ends in
/// no name, its target is empty.
pub proof fn law_empty_override_flattens(cursor: Cursor, events: Seq<Event>, i: int)
    requires
        cursor.wf(),
        admissible(cursor, events),
        0 <= i < run(cursor, events).1.len(),
        run(cursor, events).1[i].item is Ok,
        cursor.patterns[run(cursor, events).1[i].origin].target == Some(Seq::<char>::empty()),
    ensures
        ({
            let resource = run(cursor, events).1[i].item->Ok_0;
            match final_name(path_components(resource.path)) {
                Some(name) => resource.target == name,
                None => resource.target.len() == 0,
            }
        }),
{
    lemma_run(cursor, events);
}

/// With no override, a resource is stored at its own path rewritten for a
/// target, along any run.
pub proof fn law_default_target(cursor: Cursor, events: Seq<Event>, i: int)
    requires
        cursor.wf(),
        admissible(cursor, events),
        0 <= i < run(cursor, events).1.len(),
        run(cursor, events).1[i].item is Ok,
        cursor.patterns[run(cursor, events).1[i].origin].target is None,
    ensures
        run(cursor, events).1[i].item->Ok_0.target == rewritten(
            path_components(run(cursor, events).1[i].item->Ok_0.path),
            Rewrite::Target,
        ),
{
    lemma_run(cursor, events);
}

} // verus!
