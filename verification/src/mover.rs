//! Disposition of one source file: move it into a free destination slot,
//! delete it as a duplicate of the file that holds the slot, or try the next
//! numbered variant of its name, up to a fixed ceiling.
//!
//! The decisions are a state machine. Its caller performs the action that a
//! state asks for (look at the slot, hash two files, rename, remove) and hands
//! back what happened as an event.

use vstd::prelude::*;
use vstd::string::*;
use crate::naming::{variant_file_name, variant_name, Destination, DestinationView};

verus! {

/// The highest variant index that is tried for one source file.
pub const MAX_VARIANT: usize = 1000;

/// What became of a source file.
#[derive(Clone, Copy, PartialEq, Eq, Debug, Structural)]
pub enum DispositionOutcome {
    /// The file was renamed into a slot that nothing held.
    Moved,
    /// The file was removed, since its slot holds the same content.
    Deleted,
    /// Nothing was done to the file.
    Skipped,
}

/// Why a source file could not be disposed of.
#[derive(Clone, Copy, PartialEq, Eq, Debug, Structural)]
pub enum ResolveError {
    /// Hashing, renaming or removing a file failed.
    Io,
    /// The directory of the bucket could not be created.
    DirectoryCreation,
    /// Every variant up to the ceiling is held by other content.
    RetryLimit,
}

/// The slot that a source file was resolved to, and what to do there.
#[derive(Clone, Copy, PartialEq, Eq, Debug, Structural)]
pub enum Decision {
    /// Nothing holds the slot: rename the source into it.
    Move { variant: usize },
    /// The slot holds the same content: remove the source.
    Delete { variant: usize },
}

/// Where the disposition of one source file stands.
#[derive(Clone, Copy, PartialEq, Eq, Debug, Structural)]
pub enum ResolveState {
    /// The slot of `variant` has to be looked at.
    ProbeSlot { variant: usize },
    /// The slot of `variant` is held: source and occupant have to be hashed.
    Compare { variant: usize },
    /// The occupant of `variant` differs: the next variant is about to be tried.
    Uniquify { variant: usize },
    /// The slot is found: the file has to be renamed or removed.
    Commit { decision: Decision },
    /// The disposition is over.
    Done { outcome: DispositionOutcome },
    /// The disposition was given up.
    Fail { error: ResolveError },
}

/// What the caller reports after it has performed an action.
#[derive(Debug)]
pub enum Event {
    /// Nothing is at the probed path.
    SlotVacant,
    /// A file is at the probed path.
    SlotOccupied,
    /// The digests of the source and of the occupant of the slot.
    Hashed { source: String, occupant: String },
    /// The collision was announced.
    Announced,
    /// The file was renamed or removed, or the run is a dry run.
    Committed,
    /// Reading, renaming or removing a file failed.
    IoFailed,
    /// The directory of the slot could not be created.
    DirectoryFailed,
}

/// An `Event` as a mathematical value.
pub enum EventView {
    SlotVacant,
    SlotOccupied,
    Hashed { source: Seq<char>, occupant: Seq<char> },
    Announced,
    Committed,
    IoFailed,
    DirectoryFailed,
}

impl View for Event {
    type V = EventView;

    open spec fn view(&self) -> EventView {
        match *self {
            Event::SlotVacant => EventView::SlotVacant,
            Event::SlotOccupied => EventView::SlotOccupied,
            Event::Hashed { source, occupant } => EventView::Hashed {
                source: source@,
                occupant: occupant@,
            },
            Event::Announced => EventView::Announced,
            Event::Committed => EventView::Committed,
            Event::IoFailed => EventView::IoFailed,
            Event::DirectoryFailed => EventView::DirectoryFailed,
        }
    }
}

/// What the caller has to do next.
#[derive(Debug)]
pub enum Action {
    /// Report whether a file is at `slot`.
    Probe { slot: Destination },
    /// Hash the file at `source` and the file at `occupant`.
    HashBoth { source: String, occupant: Destination },
    /// Announce that `occupant` differs from the source.
    AnnounceCollision { occupant: Destination },
    /// Announce the move; if `perform`, create the directory of `target` where
    /// it is missing and rename `source` to `target`.
    MoveFile { source: String, target: Destination, perform: bool },
    /// Announce the duplicate; if `perform`, remove `source`.
    RemoveFile { source: String, duplicate_of: Destination, perform: bool },
    /// Nothing is left to do.
    Stop,
}

/// An `Action` as a mathematical value.
pub enum ActionView {
    Probe { slot: DestinationView },
    HashBoth { source: Seq<char>, occupant: DestinationView },
    AnnounceCollision { occupant: DestinationView },
    MoveFile { source: Seq<char>, target: DestinationView, perform: bool },
    RemoveFile { source: Seq<char>, duplicate_of: DestinationView, perform: bool },
    Stop,
}

impl View for Action {
    type V = ActionView;

    open spec fn view(&self) -> ActionView {
        match *self {
            Action::Probe { slot } => ActionView::Probe { slot: slot@ },
            Action::HashBoth { source, occupant } => ActionView::HashBoth {
                source: source@,
                occupant: occupant@,
            },
            Action::AnnounceCollision { occupant } => ActionView::AnnounceCollision {
                occupant: occupant@,
            },
            Action::MoveFile { source, target, perform } => ActionView::MoveFile {
                source: source@,
                target: target@,
                perform,
            },
            Action::RemoveFile { source, duplicate_of, perform } => ActionView::RemoveFile {
                source: source@,
                duplicate_of: duplicate_of@,
                perform,
            },
            Action::Stop => ActionView::Stop,
        }
    }
}

/// One source file on its way into a bucket directory.
#[derive(Debug)]
pub struct ResolveJob {
    /// The path of the source file.
    pub source: String,
    /// The bucket directory under the destination root.
    pub dir: String,
    /// The name of the source file without its extension.
    pub stem: String,
    /// The extension of the source file.
    pub ext: String,
    /// Whether renaming and removing are left out.
    pub dry_run: bool,
}

/// A `ResolveJob` as a mathematical value.
pub struct JobView {
    pub source: Seq<char>,
    pub dir: Seq<char>,
    pub stem: Seq<char>,
    pub ext: Seq<char>,
    pub dry_run: bool,
}

impl View for ResolveJob {
    type V = JobView;

    open spec fn view(&self) -> JobView {
        JobView {
            source: self.source@,
            dir: self.dir@,
            stem: self.stem@,
            ext: self.ext@,
            dry_run: self.dry_run,
        }
    }
}

impl JobView {
    /// The destination slot of variant `variant`.
    pub open spec fn slot(self, variant: usize) -> DestinationView {
        DestinationView {
            dir: self.dir,
            file_name: variant_name(self.stem, self.ext, variant as nat),
        }
    }
}

/// What a decision comes to once it has been carried out. In a dry run nothing
/// is carried out.
pub open spec fn outcome_of(decision: Decision, dry_run: bool) -> DispositionOutcome {
    if dry_run {
        DispositionOutcome::Skipped
    } else {
        match decision {
            Decision::Move { .. } => DispositionOutcome::Moved,
            Decision::Delete { .. } => DispositionOutcome::Deleted,
        }
    }
}

/// The state that follows `state` on `event`. An event that does not answer the
/// action of `state` leaves the state as it is.
pub open spec fn advance_spec(state: ResolveState, event: EventView, dry_run: bool) -> ResolveState {
    match state {
        ResolveState::ProbeSlot { variant } => match event {
            EventView::SlotVacant => ResolveState::Commit {
                decision: Decision::Move { variant },
            },
            EventView::SlotOccupied => ResolveState::Compare { variant },
            _ => state,
        },
        ResolveState::Compare { variant } => match event {
            EventView::Hashed { source, occupant } => if source == occupant {
                ResolveState::Commit { decision: Decision::Delete { variant } }
            } else if variant < MAX_VARIANT {
                ResolveState::Uniquify { variant }
            } else {
                ResolveState::Fail { error: ResolveError::RetryLimit }
            },
            EventView::IoFailed => ResolveState::Fail { error: ResolveError::Io },
            _ => state,
        },
        ResolveState::Uniquify { variant } => match event {
            EventView::Announced => if variant < MAX_VARIANT {
                ResolveState::ProbeSlot { variant: (variant + 1) as usize }
            } else {
                ResolveState::Fail { error: ResolveError::RetryLimit }
            },
            _ => state,
        },
        ResolveState::Commit { decision } => match event {
            EventView::Committed => ResolveState::Done { outcome: outcome_of(decision, dry_run) },
            EventView::IoFailed => ResolveState::Fail { error: ResolveError::Io },
            EventView::DirectoryFailed => ResolveState::Fail {
                error: ResolveError::DirectoryCreation,
            },
            _ => state,
        },
        ResolveState::Done { .. } => state,
        ResolveState::Fail { .. } => state,
    }
}

/// The action that `state` asks for on `job`.
pub open spec fn action_spec(job: JobView, state: ResolveState) -> ActionView {
    match state {
        ResolveState::ProbeSlot { variant } => ActionView::Probe { slot: job.slot(variant) },
        ResolveState::Compare { variant } => ActionView::HashBoth {
            source: job.source,
            occupant: job.slot(variant),
        },
        ResolveState::Uniquify { variant } => ActionView::AnnounceCollision {
            occupant: job.slot(variant),
        },
        ResolveState::Commit { decision } => match decision {
            Decision::Move { variant } => ActionView::MoveFile {
                source: job.source,
                target: job.slot(variant),
                perform: !job.dry_run,
            },
            Decision::Delete { variant } => ActionView::RemoveFile {
                source: job.source,
                duplicate_of: job.slot(variant),
                perform: !job.dry_run,
            },
        },
        ResolveState::Done { .. } => ActionView::Stop,
        ResolveState::Fail { .. } => ActionView::Stop,
    }
}

/// What the disposition came to, once it is over.
pub open spec fn result_spec(state: ResolveState) -> Option<Result<DispositionOutcome, ResolveError>> {
    match state {
        ResolveState::Done { outcome } => Some(Ok(outcome)),
        ResolveState::Fail { error } => Some(Err(error)),
        _ => None,
    }
}

/// Whether the variant that `state` is about lies within the ceiling.
pub open spec fn within_ceiling(state: ResolveState) -> bool {
    match state {
        ResolveState::ProbeSlot { variant } => variant <= MAX_VARIANT,
        ResolveState::Compare { variant } => variant <= MAX_VARIANT,
        ResolveState::Uniquify { variant } => variant < MAX_VARIANT,
        ResolveState::Commit { decision } => match decision {
            Decision::Move { variant } => variant <= MAX_VARIANT,
            Decision::Delete { variant } => variant <= MAX_VARIANT,
        },
        ResolveState::Done { .. } => true,
        ResolveState::Fail { .. } => true,
    }
}

/// The ceiling holds throughout a disposition: whatever the caller reports,
/// no state is reached whose variant lies above it.
pub proof fn lemma_ceiling_is_kept(state: ResolveState, event: EventView, dry_run: bool)
    requires
        within_ceiling(state),
    ensures
        within_ceiling(advance_spec(state, event, dry_run)),
{
}

/// A disposition that is over stays over, with the result it has: a file is
/// not both moved and deleted.
pub proof fn lemma_result_is_kept(state: ResolveState, event: EventView, dry_run: bool)
    requires
        result_spec(state) is Some,
    ensures
        advance_spec(state, event, dry_run) == state,
{
}

impl ResolveJob {
    /// The job of bringing `source`, named `stem.ext`, into the directory `dir`.
    pub fn new(source: &str, dir: &str, stem: &str, ext: &str, dry_run: bool) -> (job: ResolveJob)
        ensures
            job@ == (JobView { source: source@, dir: dir@, stem: stem@, ext: ext@, dry_run }),
    {
        ResolveJob {
            source: String::from_str(source),
            dir: String::from_str(dir),
            stem: String::from_str(stem),
            ext: String::from_str(ext),
            dry_run,
        }
    }

    /// The destination slot of variant `variant`.
    pub fn slot(&self, variant: usize) -> (slot: Destination)
        ensures
            slot@ == self@.slot(variant),
    {
        Destination {
            dir: self.dir.clone(),
            file_name: variant_file_name(self.stem.as_str(), self.ext.as_str(), variant),
        }
    }

    /// The action that `state` asks for.
    pub fn action(&self, state: ResolveState) -> (action: Action)
        ensures
            action@ == action_spec(self@, state),
    {
        match state {
            ResolveState::ProbeSlot { variant } => Action::Probe { slot: self.slot(variant) },
            ResolveState::Compare { variant } => Action::HashBoth {
                source: self.source.clone(),
                occupant: self.slot(variant),
            },
            ResolveState::Uniquify { variant } => Action::AnnounceCollision {
                occupant: self.slot(variant),
            },
            ResolveState::Commit { decision } => match decision {
                Decision::Move { variant } => Action::MoveFile {
                    source: self.source.clone(),
                    target: self.slot(variant),
                    perform: !self.dry_run,
                },
                Decision::Delete { variant } => Action::RemoveFile {
                    source: self.source.clone(),
                    duplicate_of: self.slot(variant),
                    perform: !self.dry_run,
                },
            },
            ResolveState::Done { .. } => Action::Stop,
            ResolveState::Fail { .. } => Action::Stop,
        }
    }
}

/// The state in which every disposition starts: the base name is looked at.
pub fn start() -> (state: ResolveState)
    ensures
        state == (ResolveState::ProbeSlot { variant: 0 }),
{
    ResolveState::ProbeSlot { variant: 0 }
}

/// The state that follows `state` on `event`.
pub fn advance(state: ResolveState, event: &Event, dry_run: bool) -> (next: ResolveState)
    ensures
        next == advance_spec(state, event@, dry_run),
{
    match state {
        ResolveState::ProbeSlot { variant } => match event {
            Event::SlotVacant => ResolveState::Commit { decision: Decision::Move { variant } },
            Event::SlotOccupied => ResolveState::Compare { variant },
            _ => state,
        },
        ResolveState::Compare { variant } => match event {
            Event::Hashed { source, occupant } => {
                if *source == *occupant {
                    ResolveState::Commit { decision: Decision::Delete { variant } }
                } else if variant < MAX_VARIANT {
                    ResolveState::Uniquify { variant }
                } else {
                    ResolveState::Fail { error: ResolveError::RetryLimit }
                }
            },
            Event::IoFailed => ResolveState::Fail { error: ResolveError::Io },
            _ => state,
        },
        ResolveState::Uniquify { variant } => match event {
            Event::Announced => {
                if variant < MAX_VARIANT {
                    ResolveState::ProbeSlot { variant: variant + 1 }
                } else {
                    ResolveState::Fail { error: ResolveError::RetryLimit }
                }
            },
            _ => state,
        },
        ResolveState::Commit { decision } => match event {
            Event::Committed => {
                let outcome = if dry_run {
                    DispositionOutcome::Skipped
                } else {
                    match decision {
                        Decision::Move { .. } => DispositionOutcome::Moved,
                        Decision::Delete { .. } => DispositionOutcome::Deleted,
                    }
                };
                ResolveState::Done { outcome }
            },
            Event::IoFailed => ResolveState::Fail { error: ResolveError::Io },
            Event::DirectoryFailed => ResolveState::Fail { error: ResolveError::DirectoryCreation },
            _ => state,
        },
        ResolveState::Done { .. } => state,
        ResolveState::Fail { .. } => state,
    }
}

/// One step of the disposition of `job`: the state that follows `state` on
/// `event`, and the action that the new state asks for.
pub fn move_or_delete(job: &ResolveJob, state: ResolveState, event: &Event) -> (step: (
    ResolveState,
    Action,
))
    ensures
        step.0 == advance_spec(state, event@, job.dry_run),
        step.1@ == action_spec(job@, step.0),
{
    let next = advance(state, event, job.dry_run);
    let action = job.action(next);
    (next, action)
}

/// What the disposition came to: `None` while it is still under way.
pub fn result_of(state: ResolveState) -> (result: Option<Result<DispositionOutcome, ResolveError>>)
    ensures
        result == result_spec(state),
{
    match state {
        ResolveState::Done { outcome } => Some(Ok(outcome)),
        ResolveState::Fail { error } => Some(Err(error)),
        _ => None,
    }
}

} // verus!
