//! The decisions of a walk over a directory tree: which entries are
//! analysed, what becomes of each outcome, and when the walk ends.
//!
//! The walk itself, meeting the entries and decoding the files, is the
//! caller's. It asks [`Walk::wants`] of each entry, processes those that are
//! wanted, and hands each outcome to [`Walk::accept`].

use vstd::prelude::*;
use vstd::string::*;
use crate::model::{AudioFile, AudioInfo, ProcessError, WalkEntry};
use crate::process::is_flac_file;

verus! {

/// What a walk does when a file cannot be processed.
#[derive(Clone, Copy, Debug, PartialEq, Eq)]
pub enum ErrorPolicy {
    /// The first such file ends the walk; what was collected before it stays.
    AbortOnError,
    /// Such files are passed over.
    SkipAndContinue,
}

/// Whether a name is hidden: it begins with a point.
pub open spec fn is_hidden_name(name: Seq<char>) -> bool {
    name.len() > 0 && name[0] == '.'
}

/// Whether a path is hidden: one of its names is.
pub open spec fn is_hidden(segments: Seq<String>) -> bool {
    exists|i: int| 0 <= i < segments.len() && is_hidden_name(#[trigger] segments[i]@)
}

/// Whether an entry is to be analysed: a regular `flac` file on a path that
/// is not hidden.
pub open spec fn is_candidate(entry: WalkEntry) -> bool {
    !is_hidden(entry.path_segments@) && is_flac_file(entry)
}

/// Whether an outcome ends the walk: under [`ErrorPolicy::AbortOnError`],
/// every error but that of a file that is no `flac` file.
pub open spec fn ends_walk(policy: ErrorPolicy, outcome: Result<AudioFile, ProcessError>) -> bool {
    policy is AbortOnError && outcome is Err && !(outcome->Err_0 is NonFlacError)
}

/// The state of a walk: the files collected so far, and whether it has
/// ended.
pub struct WalkState {
    pub files: Seq<AudioFile>,
    pub halted: bool,
}

/// The state after one more outcome. A walk that has ended takes nothing
/// more.
pub open spec fn after_outcome(
    policy: ErrorPolicy,
    state: WalkState,
    outcome: Result<AudioFile, ProcessError>,
) -> WalkState {
    if state.halted {
        state
    } else {
        match outcome {
            Ok(file) => WalkState { files: state.files.push(file), halted: false },
            Err(_) => WalkState { files: state.files, halted: ends_walk(policy, outcome) },
        }
    }
}

/// The state after a sequence of outcomes, taken in order.
pub open spec fn after_outcomes(
    policy: ErrorPolicy,
    outcomes: Seq<Result<AudioFile, ProcessError>>,
) -> WalkState
    decreases outcomes.len(),
{
    if outcomes.len() == 0 {
        WalkState { files: Seq::empty(), halted: false }
    } else {
        after_outcome(policy, after_outcomes(policy, outcomes.drop_last()), outcomes.last())
    }
}

/// Once a walk has ended, later outcomes add nothing: where outcome `n` ends
/// the walk, what is collected is what was collected before it.
pub proof fn lemma_abort_suppresses_later(
    outcomes: Seq<Result<AudioFile, ProcessError>>,
    n: int,
)
    requires
        0 <= n < outcomes.len(),
        ends_walk(ErrorPolicy::AbortOnError, outcomes[n]),
    ensures
        after_outcomes(ErrorPolicy::AbortOnError, outcomes).halted,
        after_outcomes(ErrorPolicy::AbortOnError, outcomes).files == after_outcomes(
            ErrorPolicy::AbortOnError,
            outcomes.take(n),
        ).files,
    decreases outcomes.len(),
{
    let before = outcomes.drop_last();
    if n == outcomes.len() - 1 {
        assert(before =~= outcomes.take(n));
    } else {
        assert(before[n] == outcomes[n]);
        lemma_abort_suppresses_later(before, n);
        assert(before.take(n) =~= outcomes.take(n));
    }
}

/// A walk that passes over the files that cannot be processed never ends
/// early.
pub proof fn lemma_skip_never_halts(outcomes: Seq<Result<AudioFile, ProcessError>>)
    ensures
        !after_outcomes(ErrorPolicy::SkipAndContinue, outcomes).halted,
    decreases outcomes.len(),
{
    if outcomes.len() > 0 {
        lemma_skip_never_halts(outcomes.drop_last());
    }
}

/// A walk in progress.
pub struct Walk {
    files: Vec<AudioFile>,
    halted: bool,
    policy: ErrorPolicy,
}

impl View for Walk {
    type V = WalkState;

    closed spec fn view(&self) -> WalkState {
        WalkState { files: self.files@, halted: self.halted }
    }
}

fn name_is_hidden(name: &str) -> (hidden: bool)
    ensures
        hidden == is_hidden_name(name@),
{
    name.unicode_len() > 0 && name.get_char(0) == '.'
}

impl Walk {
    /// The policy that the walk was begun with.
    pub closed spec fn policy(&self) -> ErrorPolicy {
        self.policy
    }

    /// Begins a walk.
    pub fn new(policy: ErrorPolicy) -> (walk: Walk)
        ensures
            walk.policy() == policy,
            walk@ == (WalkState { files: Seq::empty(), halted: false }),
    {
        Walk { files: Vec::new(), halted: false, policy }
    }

    /// Whether the walk has ended.
    pub fn is_halted(&self) -> (halted: bool)
        ensures
            halted == self@.halted,
    {
        self.halted
    }

    /// Whether the entry is to be processed: the walk has not ended and the
    /// entry is a candidate.
    pub fn wants(&self, entry: &WalkEntry) -> (wanted: bool)
        ensures
            wanted == (!self@.halted && is_candidate(*entry)),
    {
        if self.halted {
            return false;
        }
        if AudioInfo::is_hidden(&entry.path_segments) {
            return false;
        }
        AudioInfo::is_flac_file(entry)
    }

    /// Takes the outcome of processing one entry.
    pub fn accept(&mut self, outcome: Result<AudioFile, ProcessError>)
        ensures
            final(self).policy() == old(self).policy(),
            final(self)@ == after_outcome(old(self).policy(), old(self)@, outcome),
    {
        if self.halted {
            return ;
        }
        match outcome {
            Ok(file) => {
                self.files.push(file);
            },
            Err(ProcessError::NonFlacError) => {},
            Err(_) => {
                match self.policy {
                    ErrorPolicy::AbortOnError => {
                        self.halted = true;
                    },
                    ErrorPolicy::SkipAndContinue => {},
                }
            },
        }
    }

    /// Ends the walk and gives the files collected, in the order in which
    /// they were accepted.
    pub fn into_files(self) -> (files: Vec<AudioFile>)
        ensures
            files@ == self@.files,
    {
        self.files
    }
}

impl AudioInfo {
    /// Whether a path is hidden: one of its names begins with a point.
    pub fn is_hidden(path_segments: &Vec<String>) -> (hidden: bool)
        ensures
            hidden == is_hidden(path_segments@),
    {
        let mut i: usize = 0;
        while i < path_segments.len()
            invariant
                i <= path_segments.len(),
                forall|j: int| 0 <= j < i ==> !is_hidden_name(#[trigger] path_segments@[j]@),
            decreases path_segments.len() - i,
        {
            if name_is_hidden(path_segments[i].as_str()) {
                return true;
            }
            i = i + 1;
        }
        false
    }

    /// Collects the records of a walk from the outcomes of its entries, taken
    /// in the order in which the entries were met: the first file that could
    /// not be processed ends the walk, and nothing after it is collected.
    pub fn walk_dir(outcomes: Vec<Result<AudioFile, ProcessError>>) -> (songs: Vec<AudioFile>)
        ensures
            songs@ == after_outcomes(ErrorPolicy::AbortOnError, outcomes@).files,
    {
        let mut walk = Walk::new(ErrorPolicy::AbortOnError);
        let ghost all = outcomes@;
        for outcome in it: outcomes
            invariant
                it.seq() == all,
                walk.policy() == ErrorPolicy::AbortOnError,
                walk@ == after_outcomes(ErrorPolicy::AbortOnError, all.take(it.index() as int)),
        {
            proof {
                assert(all.take(it.index() + 1).drop_last() =~= all.take(it.index() as int));
            }
            walk.accept(outcome);
        }
        assert(all.take(all.len() as int) =~= all);
        walk.into_files()
    }
}

} // verus!
