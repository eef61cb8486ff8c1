//! The resolver: patterns in, resources out, one pull at a time.
//!
//! Each pull asks the filesystem at most one question and takes one step of
//! the state machine of [`crate::machine`]. A pull that has no item yet says
//! so, and the caller pulls again: nothing runs ahead of what is asked for.

use vstd::pervasive::unreached;
use vstd::prelude::*;
use crate::error::{Failure, ResourceError};
use crate::lookup::{is_dir, next_entry, next_match, open_glob, open_walk};
use crate::machine::{
    admissible, pulled, run, Cursor, Event, Outcome, Pattern, Phase, Pull, Yielded,
};
use crate::paths::{normalize, path_components};
use crate::resource::{entry_target, target_of, text_of, Resource, ResourceView};

verus! {

broadcast use vstd::string::group_string_axioms;

/// A path that has been looked at.
#[derive(Debug)]
pub enum Entry {
    /// A file, with the target that it is stored at.
    File(Resource),
    /// A directory that may be walked.
    Directory(String),
}

/// Decides what becomes of one normalized path, given whether it names a
/// directory: a directory is refused where walking is not permitted and
/// handed back for walking where it is; anything else is a resource, with
/// its target chosen under the destination override.
pub fn materialize(path: String, is_dir: bool, allow_walk: bool, dest: Option<&str>) -> (entry:
    Result<Entry, ResourceError>)
    ensures
        match entry {
            Err(failure) => is_dir && !allow_walk && failure@ == Failure::DirectoryNotAllowed(
                path@,
            ),
            Ok(Entry::Directory(root)) => is_dir && allow_walk && root@ == path@,
            Ok(Entry::File(resource)) => !is_dir && resource@ == (ResourceView {
                path: path@,
                target: target_of(path_components(path@), text_of(dest)),
            }),
        },
{
    if is_dir && !allow_walk {
        Err(ResourceError::DirectoryNotAllowed(path))
    } else if is_dir {
        Ok(Entry::Directory(path))
    } else {
        let target = entry_target(path.as_str(), dest);
        Ok(Entry::File(Resource::new(path, target)))
    }
}

/// Whether a pattern holds the wildcard marker `*`.
pub fn has_wildcard(pattern: &str) -> (found: bool)
    ensures
        found == pattern@.contains('*'),
{
    let mut found = false;
    for c in it: pattern.chars()
        invariant
            it.seq() == pattern@,
            found == it.seq().take(it.index() as int).contains('*'),
    {
        proof {
            let seen = it.seq().take(it.index() as int);
            assert(it.seq().take(it.index() + 1) =~= seen.push(c));
            assert(seen.push(c).contains('*') <==> seen.contains('*') || c == '*') by {
                if seen.contains('*') {
                    let k = choose|k: int| 0 <= k < seen.len() && seen[k] == '*';
                    assert(seen.push(c)[k] == '*');
                }
                if c == '*' {
                    assert(seen.push(c)[seen.len() as int] == '*');
                }
            }
        }
        if c == '*' {
            found = true;
        }
    }
    assert(pattern@.take(pattern@.len() as int) =~= pattern@);
    found
}

/// The patterns of a plain list: none has an explicit target.
pub open spec fn listed_patterns(patterns: Seq<String>) -> Seq<Pattern> {
    Seq::new(patterns.len(), |i: int| Pattern { text: patterns[i]@, target: None })
}

/// The patterns of an ordered mapping: each has the target that it maps to.
pub open spec fn mapped_patterns(patterns: Seq<(String, String)>) -> Seq<Pattern> {
    Seq::new(
        patterns.len(),
        |i: int| Pattern { text: patterns[i].0@, target: Some(patterns[i].1@) },
    )
}

/// The patterns of a resolution and how many of them have been taken up.
#[derive(Debug)]
enum PatternIter<'a> {
    Listed { list: &'a [String], next: usize },
    Mapped { pairs: &'a [(String, String)], next: usize },
}

impl<'a> PatternIter<'a> {
    spec fn patterns(&self) -> Seq<Pattern> {
        match self {
            PatternIter::Listed { list, .. } => listed_patterns(list@),
            PatternIter::Mapped { pairs, .. } => mapped_patterns(pairs@),
        }
    }

    spec fn taken(&self) -> nat {
        match self {
            PatternIter::Listed { next, .. } => *next as nat,
            PatternIter::Mapped { next, .. } => *next as nat,
        }
    }

    spec fn wf(&self) -> bool {
        self.taken() <= self.patterns().len()
    }

    /// Takes up the next pattern, with its explicit target if it has one.
    fn take(&mut self) -> (taken: Option<(&'a str, Option<&'a str>)>)
        requires
            old(self).wf(),
        ensures
            final(self).wf(),
            final(self).patterns() == old(self).patterns(),
            match taken {
                None => old(self).taken() == old(self).patterns().len() && final(self).taken()
                    == old(self).taken(),
                Some((text, target)) => {
                    &&& old(self).taken() < old(self).patterns().len()
                    &&& final(self).taken() == old(self).taken() + 1
                    &&& old(self).patterns()[old(self).taken() as int] == (Pattern {
                        text: text@,
                        target: text_of(target),
                    })
                },
            },
    {
        match *self {
            PatternIter::Listed { list, next } => {
                if next < list.len() {
                    *self = PatternIter::Listed { list, next: next + 1 };
                    Some((list[next].as_str(), None))
                } else {
                    None
                }
            },
            PatternIter::Mapped { pairs, next } => {
                if next < pairs.len() {
                    *self = PatternIter::Mapped { pairs, next: next + 1 };
                    Some((pairs[next].0.as_str(), Some(pairs[next].1.as_str())))
                } else {
                    None
                }
            },
        }
    }
}

/// The value of what a pull of the resolver gives.
pub open spec fn outcome_of(pull: Pull<Result<Resource, ResourceError>>) -> Outcome {
    match pull {
        Pull::Item(Ok(resource)) => Pull::Item(Ok(resource@)),
        Pull::Item(Err(failure)) => Pull::Item(Err(failure@)),
        Pull::Pending => Pull::Pending,
        Pull::Finished => Pull::Finished,
    }
}

/// The value of what a cursor over the filesystem yields.
pub open spec fn found_of<E>(found: Option<Result<String, E>>) -> Option<Result<Seq<char>, E>> {
    match found {
        Some(Ok(path)) => Some(Ok(path@)),
        Some(Err(failure)) => Some(Err(failure)),
        None => None,
    }
}

/// Iterator of a [`ResourcePaths`].
#[derive(Debug)]
pub struct ResourcePathsIter<'a> {
    /// the patterns to iterate.
    pattern_iter: PatternIter<'a>,
    /// whether the resource paths allows directories or not.
    allow_walk: bool,
    current_path: Option<String>,
    current_dest: Option<&'a str>,
    walk_iter: Option<walkdir::IntoIter>,
    glob_iter: Option<glob::Paths>,
}

impl<'a> View for ResourcePathsIter<'a> {
    type V = Cursor;

    closed spec fn view(&self) -> Cursor {
        Cursor {
            patterns: self.pattern_iter.patterns(),
            taken: self.pattern_iter.taken(),
            allow_walk: self.allow_walk,
            dest: text_of(self.current_dest),
            pending: match self.current_path {
                Some(path) => Some(path@),
                None => None,
            },
            walking: self.walk_iter is Some,
            globbing: self.glob_iter is Some,
        }
    }
}

impl<'a> ResourcePathsIter<'a> {
    /// The state is one that a resolution can be in.
    pub open spec fn wf(&self) -> bool {
        self@.wf()
    }

    /// Where the resolution stands.
    pub fn phase(&self) -> (phase: Phase)
        ensures
            phase == self@.phase(),
    {
        if self.current_path.is_some() {
            Phase::PendingSingle
        } else if self.walk_iter.is_some() {
            Phase::InWalk
        } else if self.glob_iter.is_some() {
            Phase::InGlob
        } else {
            Phase::Idle
        }
    }

    /// Between patterns: takes up the next one, as a glob expression where
    /// it holds a wildcard marker and as a literal path where it does not.
    fn next_pattern(&mut self) -> (out: Pull<Result<Resource, ResourceError>>)
        requires
            old(self).wf(),
            old(self)@.phase() is Idle,
        ensures
            final(self).wf(),
            exists|event: Event|
                old(self)@.accepts(event) && #[trigger] old(self)@.step(event) == (
                    final(self)@,
                    outcome_of(out),
                ),
    {
        self.current_dest = None;
        let pattern = match self.pattern_iter.take() {
            Some((pattern, dest)) => {
                self.current_dest = dest;
                pattern
            },
            None => {
                assert(old(self)@.step(Event::Start(None)) == (self@, outcome_of(Pull::Finished)));
                return Pull::Finished;
            },
        };
        if has_wildcard(pattern) {
            match open_glob(pattern) {
                Ok(paths) => {
                    self.glob_iter = Some(paths);
                    assert(old(self)@.step(Event::Start(None)) == (
                        self@,
                        outcome_of(Pull::Pending),
                    ));
                    Pull::Pending
                },
                Err(failure) => {
                    let out = Pull::Item(Err(ResourceError::GlobSyntax(failure)));
                    assert(old(self)@.step(Event::Start(Some(failure))) == (
                        self@,
                        outcome_of(out),
                    ));
                    out
                },
            }
        } else {
            self.current_path = Some(normalize(pattern));
            assert(old(self)@.step(Event::Start(None)) == (self@, outcome_of(Pull::Pending)));
            Pull::Pending
        }
    }

    /// Inside a glob expansion: pulls its next match and takes the step for
    /// it.
    fn next_glob_iter(&mut self) -> (out: Pull<Result<Resource, ResourceError>>)
        requires
            old(self).wf(),
            old(self)@.phase() is InGlob,
        ensures
            final(self).wf(),
            exists|event: Event|
                old(self)@.accepts(event) && #[trigger] old(self)@.step(event) == (
                    final(self)@,
                    outcome_of(out),
                ),
    {
        let found = match &mut self.glob_iter {
            Some(paths) => next_match(paths),
            None => unreached(),
        };
        let ghost event = Event::Glob(found_of(found));
        let out = self.accept_match(found);
        assert(old(self)@.step(event) == (self@, outcome_of(out)));
        out
    }

    /// The step inside a glob expansion, for what its cursor gave: a match is
    /// normalized and waits to be looked at, the end of the matches ends the
    /// expansion, a failure is handed on and ends the pattern.
    pub fn accept_match(&mut self, found: Option<Result<String, glob::GlobError>>) -> (out: Pull<
        Result<Resource, ResourceError>,
    >)
        requires
            old(self).wf(),
            old(self)@.phase() is InGlob,
        ensures
            final(self).wf(),
            (final(self)@, outcome_of(out)) == old(self)@.after_glob(found_of(found)),
    {
        match found {
            None => {
                self.glob_iter = None;
                Pull::Pending
            },
            Some(Err(failure)) => {
                self.glob_iter = None;
                Pull::Item(Err(ResourceError::GlobMatch(failure)))
            },
            Some(Ok(path)) => {
                self.current_path = Some(normalize(path.as_str()));
                Pull::Pending
            },
        }
    }

    /// Inside a walk: pulls its next entry and takes the step for it.
    fn next_walk_iter(&mut self) -> (out: Pull<Result<Resource, ResourceError>>)
        requires
            old(self).wf(),
            old(self)@.phase() is InWalk,
        ensures
            final(self).wf(),
            exists|event: Event|
                old(self)@.accepts(event) && #[trigger] old(self)@.step(event) == (
                    final(self)@,
                    outcome_of(out),
                ),
    {
        let found = match &mut self.walk_iter {
            Some(walk) => next_entry(walk),
            None => unreached(),
        };
        let ghost event = Event::Walk(found_of(found));
        let out = self.accept_entry(found);
        assert(old(self)@.step(event) == (self@, outcome_of(out)));
        out
    }

    /// The step inside a walk, for what its cursor gave: an entry is
    /// normalized and waits to be looked at, the end of the entries ends the
    /// walk, a failure is handed on and ends the pattern.
    pub fn accept_entry(&mut self, found: Option<Result<String, walkdir::Error>>) -> (out: Pull<
        Result<Resource, ResourceError>,
    >)
        requires
            old(self).wf(),
            old(self)@.phase() is InWalk,
        ensures
            final(self).wf(),
            (final(self)@, outcome_of(out)) == old(self)@.after_walk(found_of(found)),
    {
        match found {
            None => {
                self.walk_iter = None;
                Pull::Pending
            },
            Some(Err(failure)) => {
                self.walk_iter = None;
                self.glob_iter = None;
                Pull::Item(Err(ResourceError::Walk(failure)))
            },
            Some(Ok(path)) => {
                self.current_path = Some(normalize(path.as_str()));
                Pull::Pending
            },
        }
    }

    /// For the waiting path: asks whether it names a directory and takes the
    /// step for the answer.
    fn next_current_path(&mut self) -> (out: Pull<Result<Resource, ResourceError>>)
        requires
            old(self).wf(),
            old(self)@.phase() is PendingSingle,
        ensures
            final(self).wf(),
            exists|event: Event|
                old(self)@.accepts(event) && #[trigger] old(self)@.step(event) == (
                    final(self)@,
                    outcome_of(out),
                ),
    {
        let answer = match &self.current_path {
            Some(path) => is_dir(path.as_str()),
            None => unreached(),
        };
        let ghost event = Event::Probe(answer);
        let out = self.accept_probe(answer);
        assert(old(self)@.step(event) == (self@, outcome_of(out)));
        out
    }

    /// The step for the waiting path, once it is known whether it names a
    /// directory; [`materialize`] decides. A refused directory ends the
    /// pattern; a permitted one opens a walk, unless it was met on a walk,
    /// which descends by itself; a file is the next resource.
    pub fn accept_probe(&mut self, is_dir: bool) -> (out: Pull<Result<Resource, ResourceError>>)
        requires
            old(self).wf(),
            old(self)@.phase() is PendingSingle,
        ensures
            final(self).wf(),
            (final(self)@, outcome_of(out)) == old(self)@.after_probe(is_dir),
    {
        let path = match self.current_path.take() {
            Some(path) => path,
            None => unreached(),
        };
        match materialize(path, is_dir, self.allow_walk, self.current_dest) {
            Err(failure) => {
                self.walk_iter = None;
                self.glob_iter = None;
                Pull::Item(Err(failure))
            },
            Ok(Entry::Directory(root)) => {
                if self.walk_iter.is_none() {
                    self.walk_iter = Some(open_walk(root.as_str()));
                }
                Pull::Pending
            },
            Ok(Entry::File(resource)) => Pull::Item(Ok(resource)),
        }
    }

    /// One pull: answers the innermost thing in progress, the waiting path
    /// before the walk, the walk before the glob expansion, and takes up the
    /// next pattern where nothing is in progress. Whatever the filesystem
    /// answered, state and outcome are those of one step of the machine.
    pub fn next(&mut self) -> (out: Pull<Result<Resource, ResourceError>>)
        requires
            old(self).wf(),
        ensures
            final(self).wf(),
            exists|event: Event|
                old(self)@.accepts(event) && #[trigger] old(self)@.step(event) == (
                    final(self)@,
                    outcome_of(out),
                ),
            out is Finished <==> old(self)@.finished(),
    {
        if self.current_path.is_some() {
            self.next_current_path()
        } else if self.walk_iter.is_some() {
            self.next_walk_iter()
        } else if self.glob_iter.is_some() {
            self.next_glob_iter()
        } else {
            self.next_pattern()
        }
    }

    /// Pulls until an item comes or the sequence ends, but at most `limit`
    /// times: the outcome is that of the last pull, and the pulls before it
    /// yielded nothing.
    pub fn next_within(&mut self, limit: usize) -> (out: Pull<Result<Resource, ResourceError>>)
        requires
            old(self).wf(),
        ensures
            final(self).wf(),
            exists|events: Seq<Event>| #[trigger]
                pulled(old(self)@, events, limit as nat, final(self)@, outcome_of(out)),
    {
        let ghost mut events: Seq<Event> = Seq::empty();
        let mut count: usize = 0;
        while count < limit
            invariant
                self.wf(),
                count <= limit,
                events.len() == count,
                admissible(old(self)@, events),
                run(old(self)@, events) == (self@, Seq::<Yielded>::empty()),
            decreases limit - count,
        {
            let ghost before = self@;
            let ghost answered = events;
            let out = self.next();
            proof {
                let event = choose|event: Event|
                    before.accepts(event) && #[trigger] before.step(event) == (
                        self@,
                        outcome_of(out),
                    );
                events = answered.push(event);
                assert(events.drop_last() =~= answered);
                if let Pull::Item(item) = outcome_of(out) {
                    assert(run(old(self)@, events).1 =~= seq![
                        Yielded { origin: self@.taken - 1, item },
                    ]);
                }
            }
            count += 1;
            match out {
                Pull::Pending => {},
                Pull::Item(item) => {
                    assert(pulled(
                        old(self)@,
                        events,
                        limit as nat,
                        self@,
                        outcome_of(Pull::Item(item)),
                    ));
                    return Pull::Item(item);
                },
                Pull::Finished => {
                    assert(pulled(old(self)@, events, limit as nat, self@, Pull::Finished));
                    return Pull::Finished;
                },
            }
        }
        assert(pulled(old(self)@, events, limit as nat, self@, Pull::Pending));
        Pull::Pending
    }
}

/// A helper to iterate through resources.
#[derive(Debug)]
pub struct ResourcePaths<'a> {
    iter: ResourcePathsIter<'a>,
}

impl<'a> View for ResourcePaths<'a> {
    type V = Cursor;

    closed spec fn view(&self) -> Cursor {
        self.iter@
    }
}

/// An outcome with each resource given up for its path.
pub open spec fn paths_only(outcome: Outcome) -> Pull<Result<Seq<char>, Failure>> {
    match outcome {
        Pull::Item(Ok(resource)) => Pull::Item(Ok(resource.path)),
        Pull::Item(Err(failure)) => Pull::Item(Err(failure)),
        Pull::Pending => Pull::Pending,
        Pull::Finished => Pull::Finished,
    }
}

/// The value of what a pull for paths alone gives.
pub open spec fn path_outcome_of(pull: Pull<Result<String, ResourceError>>) -> Pull<
    Result<Seq<char>, Failure>,
> {
    match pull {
        Pull::Item(Ok(path)) => Pull::Item(Ok(path@)),
        Pull::Item(Err(failure)) => Pull::Item(Err(failure@)),
        Pull::Pending => Pull::Pending,
        Pull::Finished => Pull::Finished,
    }
}

impl<'a> ResourcePaths<'a> {
    /// The state is one that a resolution can be in.
    pub open spec fn wf(&self) -> bool {
        self@.wf()
    }

    /// Creates a new ResourcePaths from a slice of patterns to iterate
    pub fn new(patterns: &'a [String], allow_walk: bool) -> (paths: ResourcePaths<'a>)
        ensures
            paths.wf(),
            paths@ == Cursor::start(listed_patterns(patterns@), allow_walk),
    {
        ResourcePaths {
            iter: ResourcePathsIter {
                pattern_iter: PatternIter::Listed { list: patterns, next: 0 },
                allow_walk,
                current_path: None,
                current_dest: None,
                walk_iter: None,
                glob_iter: None,
            },
        }
    }

    /// Creates a new ResourcePaths from an ordered mapping of patterns to
    /// explicit targets
    pub fn from_map(patterns: &'a [(String, String)], allow_walk: bool) -> (paths: ResourcePaths<
        'a,
    >)
        ensures
            paths.wf(),
            paths@ == Cursor::start(mapped_patterns(patterns@), allow_walk),
    {
        ResourcePaths {
            iter: ResourcePathsIter {
                pattern_iter: PatternIter::Mapped { pairs: patterns, next: 0 },
                allow_walk,
                current_path: None,
                current_dest: None,
                walk_iter: None,
                glob_iter: None,
            },
        }
    }

    /// Returns the resource iterator that yields the source and target paths.
    /// Needed when using [`Self::from_map`].
    pub fn iter(self) -> (iter: ResourcePathsIter<'a>)
        requires
            self.wf(),
        ensures
            iter.wf(),
            iter@ == self@,
    {
        self.iter
    }

    /// One pull for the source paths alone: the pull of the resource
    /// iterator, with each resource given up for its path.
    pub fn next(&mut self) -> (out: Pull<Result<String, ResourceError>>)
        requires
            old(self).wf(),
        ensures
            final(self).wf(),
            exists|event: Event|
                {
                    &&& old(self)@.accepts(event)
                    &&& (#[trigger] old(self)@.step(event)).0 == final(self)@
                    &&& paths_only(old(self)@.step(event).1) == path_outcome_of(out)
                },
    {
        let pulled = self.iter.next();
        let ghost event = choose|event: Event|
            old(self)@.accepts(event) && #[trigger] old(self)@.step(event) == (
                self@,
                outcome_of(pulled),
            );
        let out = match pulled {
            Pull::Item(Ok(resource)) => Pull::Item(Ok(resource.into_path())),
            Pull::Item(Err(failure)) => Pull::Item(Err(failure)),
            Pull::Pending => Pull::Pending,
            Pull::Finished => Pull::Finished,
        };
        assert(paths_only(old(self)@.step(event).1) == path_outcome_of(out));
        out
    }
}

} // verus!
