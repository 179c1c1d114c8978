//! A model of the destination tree, and what the mover guarantees on it.
//!
//! The tree is a map from the path of each file to the digest of its content.
//! `resolution` says directly which slot a source file is resolved to;
//! the state machine of the mover, run against the tree, is proved to come to
//! the same decision. On `resolution` and on `merge_all`, the merge of many
//! files, stand the laws of the merge: collision safety, dedup correctness and
//! idempotence.

use vstd::prelude::*;
use crate::engine::{deletes_in, moves_in};
use crate::naming::{lemma_paths_differ, lemma_variant_names_differ};
use crate::mover::{
    advance_spec, outcome_of, Decision, DispositionOutcome, EventView, JobView, ResolveError,
    ResolveState, MAX_VARIANT,
};

verus! {

/// The path of the slot of variant `variant` of `job`.
pub open spec fn slot_path(job: JobView, variant: usize) -> Seq<char> {
    job.slot(variant).path()
}

/// The slot that a source file with content `digest` is resolved to when the
/// variants from `from` on are tried in order: the first one that is free, or
/// that holds the same content. No variant above the ceiling is tried.
pub open spec fn resolution(
    tree: Map<Seq<char>, Seq<char>>,
    job: JobView,
    digest: Seq<char>,
    from: usize,
) -> Result<Decision, ResolveError>
    decreases MAX_VARIANT + 1 - from,
{
    if from > MAX_VARIANT {
        Err(ResolveError::RetryLimit)
    } else if !tree.contains_key(slot_path(job, from)) {
        Ok(Decision::Move { variant: from })
    } else if tree[slot_path(job, from)] == digest {
        Ok(Decision::Delete { variant: from })
    } else {
        resolution(tree, job, digest, (from + 1) as usize)
    }
}

/// The event that an honest caller reports in `state`, when the destination
/// is `tree` and the source has content `digest`.
pub open spec fn honest_event(
    tree: Map<Seq<char>, Seq<char>>,
    job: JobView,
    digest: Seq<char>,
    state: ResolveState,
) -> EventView {
    match state {
        ResolveState::ProbeSlot { variant } => if tree.contains_key(slot_path(job, variant)) {
            EventView::SlotOccupied
        } else {
            EventView::SlotVacant
        },
        ResolveState::Compare { variant } => EventView::Hashed {
            source: digest,
            occupant: tree[slot_path(job, variant)],
        },
        ResolveState::Uniquify { .. } => EventView::Announced,
        _ => EventView::Committed,
    }
}

/// Whether the search for a slot is over in `state`: a slot is found, or the
/// disposition has ended.
pub open spec fn is_decided(state: ResolveState) -> bool {
    state is Commit || state is Done || state is Fail
}

/// The number of variants above `variant` that may still be tried.
pub open spec fn variants_left(variant: usize) -> nat {
    if variant <= MAX_VARIANT {
        (MAX_VARIANT - variant) as nat
    } else {
        0
    }
}

/// A bound on the number of steps that the search for a slot still takes.
pub open spec fn steps_left(state: ResolveState) -> nat {
    match state {
        ResolveState::ProbeSlot { variant } => 3 * variants_left(variant) + 3,
        ResolveState::Compare { variant } => 3 * variants_left(variant) + 2,
        ResolveState::Uniquify { variant } => 3 * variants_left(variant) + 1,
        _ => 0,
    }
}

/// The state in which the search for a slot ends when the machine is run
/// from `state` with the events of an honest caller.
pub open spec fn decide(
    tree: Map<Seq<char>, Seq<char>>,
    job: JobView,
    digest: Seq<char>,
    state: ResolveState,
) -> ResolveState
    decreases steps_left(state),
{
    if is_decided(state) {
        state
    } else {
        decide(
            tree,
            job,
            digest,
            advance_spec(state, honest_event(tree, job, digest, state), job.dry_run),
        )
    }
}

/// The state that stands for the result `resolved` of the search for a slot.
pub open spec fn decided_state(resolved: Result<Decision, ResolveError>) -> ResolveState {
    match resolved {
        Ok(decision) => ResolveState::Commit { decision },
        Err(error) => ResolveState::Fail { error },
    }
}

/// The machine decides as `resolution` says: run from the probe of variant
/// `from` with the events of an honest caller, it comes to commit the
/// decision that `resolution` names from `from`, or fails where that fails.
pub proof fn lemma_machine_follows_resolution(
    tree: Map<Seq<char>, Seq<char>>,
    job: JobView,
    digest: Seq<char>,
    from: usize,
)
    requires
        from <= MAX_VARIANT,
    ensures
        decide(tree, job, digest, ResolveState::ProbeSlot { variant: from }) == decided_state(
            resolution(tree, job, digest, from),
        ),
    decreases MAX_VARIANT - from,
{
    let probe = ResolveState::ProbeSlot { variant: from };
    let path = slot_path(job, from);
    reveal_with_fuel(decide, 4);
    if !tree.contains_key(path) {
        let commit = ResolveState::Commit { decision: Decision::Move { variant: from } };
        assert(advance_spec(probe, honest_event(tree, job, digest, probe), job.dry_run) == commit);
    } else {
        let compare = ResolveState::Compare { variant: from };
        assert(advance_spec(probe, honest_event(tree, job, digest, probe), job.dry_run) == compare);
        if tree[path] == digest {
            let commit = ResolveState::Commit { decision: Decision::Delete { variant: from } };
            assert(advance_spec(compare, honest_event(tree, job, digest, compare), job.dry_run)
                == commit);
        } else if from < MAX_VARIANT {
            let uniquify = ResolveState::Uniquify { variant: from };
            let next = ResolveState::ProbeSlot { variant: (from + 1) as usize };
            assert(advance_spec(compare, honest_event(tree, job, digest, compare), job.dry_run)
                == uniquify);
            assert(advance_spec(uniquify, honest_event(tree, job, digest, uniquify), job.dry_run)
                == next);
            lemma_machine_follows_resolution(tree, job, digest, (from + 1) as usize);
        } else {
            assert(resolution(tree, job, digest, (from + 1) as usize) == Err::<
                Decision,
                ResolveError,
            >(ResolveError::RetryLimit));
        }
    }
}

/// A disposition from its start to its end, where no operation fails: the
/// machine commits what `resolution` names and ends with the outcome of that
/// decision, or fails at the ceiling.
pub proof fn lemma_disposition_follows_resolution(
    tree: Map<Seq<char>, Seq<char>>,
    job: JobView,
    digest: Seq<char>,
)
    ensures
        match resolution(tree, job, digest, 0) {
            Ok(decision) => {
                let commit = decide(tree, job, digest, ResolveState::ProbeSlot { variant: 0 });
                &&& commit == ResolveState::Commit { decision }
                &&& advance_spec(commit, EventView::Committed, job.dry_run) == (ResolveState::Done {
                    outcome: outcome_of(decision, job.dry_run),
                })
            },
            Err(error) => {
                &&& error == ResolveError::RetryLimit
                &&& decide(tree, job, digest, ResolveState::ProbeSlot { variant: 0 })
                    == (ResolveState::Fail { error })
            },
        },
{
    lemma_machine_follows_resolution(tree, job, digest, 0);
    lemma_resolution_is_first_fit(tree, job, digest, 0);
}

/// The variant that `decision` is about.
pub open spec fn variant_of(decision: Decision) -> usize {
    match decision {
        Decision::Move { variant } => variant,
        Decision::Delete { variant } => variant,
    }
}

/// Whether the slot of `variant` is held by content other than `digest`.
pub open spec fn held_by_other(
    tree: Map<Seq<char>, Seq<char>>,
    job: JobView,
    digest: Seq<char>,
    variant: usize,
) -> bool {
    tree.contains_key(slot_path(job, variant)) && tree[slot_path(job, variant)] != digest
}

/// What a successful resolution means: every variant before the resolved one
/// is held by other content, and the resolved slot is free for a move, or
/// holds the same content for a delete.
pub proof fn lemma_resolution_is_first_fit(
    tree: Map<Seq<char>, Seq<char>>,
    job: JobView,
    digest: Seq<char>,
    from: usize,
)
    ensures
        match resolution(tree, job, digest, from) {
            Ok(decision) => {
                &&& from <= variant_of(decision) <= MAX_VARIANT
                &&& forall|u: usize|
                    from <= u < variant_of(decision) ==> held_by_other(tree, job, digest, u)
                &&& decision is Move ==> !tree.contains_key(slot_path(job, variant_of(decision)))
                &&& decision is Delete ==> tree.contains_key(slot_path(job, variant_of(decision)))
                    && tree[slot_path(job, variant_of(decision))] == digest
            },
            Err(error) => {
                &&& error == ResolveError::RetryLimit
                &&& forall|u: usize| from <= u <= MAX_VARIANT ==> held_by_other(tree, job, digest, u)
            },
        },
    decreases MAX_VARIANT + 1 - from,
{
    if from <= MAX_VARIANT && held_by_other(tree, job, digest, from) {
        lemma_resolution_is_first_fit(tree, job, digest, (from + 1) as usize);
    }
}

/// The converse for a delete: where every variant from `from` up to `variant`
/// is held by other content and the slot of `variant` holds `digest`, the
/// source is resolved to a delete at `variant`.
pub proof fn lemma_first_match_is_resolution(
    tree: Map<Seq<char>, Seq<char>>,
    job: JobView,
    digest: Seq<char>,
    from: usize,
    variant: usize,
)
    requires
        from <= variant <= MAX_VARIANT,
        forall|u: usize| from <= u < variant ==> held_by_other(tree, job, digest, u),
        tree.contains_key(slot_path(job, variant)),
        tree[slot_path(job, variant)] == digest,
    ensures
        resolution(tree, job, digest, from) == Ok::<Decision, ResolveError>(
            Decision::Delete { variant },
        ),
    decreases variant - from,
{
    if from < variant {
        assert(held_by_other(tree, job, digest, from));
        lemma_first_match_is_resolution(tree, job, digest, (from + 1) as usize, variant);
    }
}

/// The tree once `decision` has been carried out for a source with content
/// `digest`. A dry run carries nothing out.
pub open spec fn tree_after(
    tree: Map<Seq<char>, Seq<char>>,
    job: JobView,
    digest: Seq<char>,
    decision: Decision,
) -> Map<Seq<char>, Seq<char>> {
    if job.dry_run {
        tree
    } else {
        match decision {
            Decision::Move { variant } => tree.insert(slot_path(job, variant), digest),
            Decision::Delete { .. } => tree,
        }
    }
}

/// Whether `big` holds every file of `small`, with the same content.
pub open spec fn extends(big: Map<Seq<char>, Seq<char>>, small: Map<Seq<char>, Seq<char>>) -> bool {
    forall|path: Seq<char>| #[trigger]
        small.contains_key(path) ==> big.contains_key(path) && big[path] == small[path]
}


/// Different variants of one job have different paths.
pub proof fn lemma_slots_differ(job: JobView, first: usize, second: usize)
    requires
        first != second,
    ensures
        slot_path(job, first) != slot_path(job, second),
{
    lemma_variant_names_differ(job.stem, job.ext, first as nat, second as nat);
    lemma_paths_differ(job.dir, job.slot(first).file_name, job.slot(second).file_name);
}

/// Whether two jobs are bound for the same base destination name.
pub open spec fn same_destination(first: JobView, second: JobView) -> bool {
    first.dir == second.dir && first.stem == second.stem && first.ext == second.ext
}

/// Collision safety. Two sources with different content that are bound for
/// the same base name, resolved one after the other, end up in the tree at
/// different paths, each path holding the content of its own source.
pub proof fn lemma_collision_safety(
    tree: Map<Seq<char>, Seq<char>>,
    first: JobView,
    second: JobView,
    first_digest: Seq<char>,
    second_digest: Seq<char>,
    first_decision: Decision,
    second_decision: Decision,
)
    requires
        same_destination(first, second),
        !first.dry_run,
        !second.dry_run,
        first_digest != second_digest,
        resolution(tree, first, first_digest, 0) == Ok::<Decision, ResolveError>(first_decision),
        resolution(tree_after(tree, first, first_digest, first_decision), second, second_digest, 0)
            == Ok::<Decision, ResolveError>(second_decision),
    ensures
        ({
            let middle = tree_after(tree, first, first_digest, first_decision);
            let end = tree_after(middle, second, second_digest, second_decision);
            let first_path = slot_path(first, variant_of(first_decision));
            let second_path = slot_path(second, variant_of(second_decision));
            &&& first_path != second_path
            &&& end.contains_key(first_path) && end[first_path] == first_digest
            &&& end.contains_key(second_path) && end[second_path] == second_digest
        }),
{
    let middle = tree_after(tree, first, first_digest, first_decision);
    lemma_resolution_is_first_fit(tree, first, first_digest, 0);
    lemma_resolution_is_first_fit(middle, second, second_digest, 0);
    assert(forall|v: usize| slot_path(first, v) == slot_path(second, v));
}

/// Collision safety where the base name and its first variant are free: the
/// first source is moved to the base name, the second to the variant with the
/// suffix `-1`.
pub proof fn lemma_collision_takes_first_variant(
    tree: Map<Seq<char>, Seq<char>>,
    first: JobView,
    second: JobView,
    first_digest: Seq<char>,
    second_digest: Seq<char>,
)
    requires
        same_destination(first, second),
        !first.dry_run,
        first_digest != second_digest,
        !tree.contains_key(slot_path(first, 0)),
        !tree.contains_key(slot_path(first, 1)),
    ensures
        resolution(tree, first, first_digest, 0) == Ok::<Decision, ResolveError>(
            Decision::Move { variant: 0 },
        ),
        resolution(
            tree_after(tree, first, first_digest, Decision::Move { variant: 0 }),
            second,
            second_digest,
            0,
        ) == Ok::<Decision, ResolveError>(Decision::Move { variant: 1 }),
        slot_path(first, 0) != slot_path(second, 1),
        second.slot(1).file_name == second.stem + seq!['-', '1', '.'] + second.ext,
{
    let middle = tree_after(tree, first, first_digest, Decision::Move { variant: 0 });
    assert(forall|v: usize| slot_path(first, v) == slot_path(second, v));
    lemma_slots_differ(second, 0, 1);
    assert(second.slot(1).file_name =~= second.stem + seq!['-', '1', '.'] + second.ext);
    assert(middle.contains_key(slot_path(second, 0)));
    assert(!middle.contains_key(slot_path(second, 1)));
    reveal_with_fuel(resolution, 3);
}

/// Dedup correctness. Of two sources with the same content that are bound for
/// the same base name, the second is resolved to a delete at the slot of the
/// first, which holds their content, and the tree stays as the first left it.
pub proof fn lemma_dedup(
    tree: Map<Seq<char>, Seq<char>>,
    first: JobView,
    second: JobView,
    digest: Seq<char>,
    decision: Decision,
)
    requires
        same_destination(first, second),
        !first.dry_run,
        resolution(tree, first, digest, 0) == Ok::<Decision, ResolveError>(decision),
    ensures
        ({
            let middle = tree_after(tree, first, digest, decision);
            let again = Decision::Delete { variant: variant_of(decision) };
            &&& resolution(middle, second, digest, 0) == Ok::<Decision, ResolveError>(again)
            &&& tree_after(middle, second, digest, again) == middle
            &&& middle.contains_key(slot_path(first, variant_of(decision)))
            &&& middle[slot_path(first, variant_of(decision))] == digest
        }),
{
    let middle = tree_after(tree, first, digest, decision);
    let variant = variant_of(decision);
    lemma_resolution_is_first_fit(tree, first, digest, 0);
    assert(forall|v: usize| slot_path(first, v) == slot_path(second, v));
    assert forall|u: usize| 0 <= u < variant implies held_by_other(middle, second, digest, u) by {
        assert(held_by_other(tree, first, digest, u));
    }
    lemma_first_match_is_resolution(middle, second, digest, 0, variant);
}


/// A source file that is bound for a bucket: its job and the digest of its
/// content.
pub struct PlannedFile {
    pub job: JobView,
    pub digest: Seq<char>,
}

/// Where a merge stands: the destination tree and the two counts.
pub struct MergeReport {
    pub tree: Map<Seq<char>, Seq<char>>,
    pub moved: nat,
    pub deleted: nat,
}

/// What the disposition of `file` comes to in `tree`, where no operation
/// fails.
pub open spec fn disposition(tree: Map<Seq<char>, Seq<char>>, file: PlannedFile) -> Result<
    DispositionOutcome,
    ResolveError,
> {
    match resolution(tree, file.job, file.digest, 0) {
        Ok(decision) => Ok(outcome_of(decision, file.job.dry_run)),
        Err(error) => Err(error),
    }
}

/// The report after `file` has been disposed of: the tree once the decision
/// has been carried out, and the counts as the tally records them. A file
/// that cannot be resolved leaves the report as it is.
pub open spec fn merge_one(before: MergeReport, file: PlannedFile) -> MergeReport {
    MergeReport {
        tree: match resolution(before.tree, file.job, file.digest, 0) {
            Ok(decision) => tree_after(before.tree, file.job, file.digest, decision),
            Err(_) => before.tree,
        },
        moved: before.moved + moves_in(disposition(before.tree, file)),
        deleted: before.deleted + deletes_in(disposition(before.tree, file)),
    }
}

/// The report after `files` have been disposed of in order, starting from
/// `tree` with both counts at zero.
pub open spec fn merge_all(tree: Map<Seq<char>, Seq<char>>, files: Seq<PlannedFile>) -> MergeReport
    decreases files.len(),
{
    if files.len() == 0 {
        MergeReport { tree, moved: 0, deleted: 0 }
    } else {
        merge_one(merge_all(tree, files.drop_last()), files.last())
    }
}

/// Whether disposing of `file` would leave `tree` as it is and move nothing:
/// the run is a dry run, the file cannot be resolved, or its slot holds its
/// content already.
pub open spec fn settled(tree: Map<Seq<char>, Seq<char>>, file: PlannedFile) -> bool {
    file.job.dry_run || !(resolution(tree, file.job, file.digest, 0) matches Ok(
        Decision::Move { .. },
    ))
}

/// Whether disposing of `file` in `tree` counts as a move or a delete.
pub open spec fn counted(tree: Map<Seq<char>, Seq<char>>, file: PlannedFile) -> bool {
    !file.job.dry_run && resolution(tree, file.job, file.digest, 0) is Ok
}

/// A resolution that is no move stays what it is when files are added to the
/// tree.
pub proof fn lemma_resolution_survives_growth(
    small: Map<Seq<char>, Seq<char>>,
    big: Map<Seq<char>, Seq<char>>,
    job: JobView,
    digest: Seq<char>,
    from: usize,
)
    requires
        extends(big, small),
        !(resolution(small, job, digest, from) matches Ok(Decision::Move { .. })),
    ensures
        resolution(big, job, digest, from) == resolution(small, job, digest, from),
    decreases MAX_VARIANT + 1 - from,
{
    if from <= MAX_VARIANT {
        assert(small.contains_key(slot_path(job, from)));
        if small[slot_path(job, from)] != digest {
            lemma_resolution_survives_growth(small, big, job, digest, (from + 1) as usize);
        }
    }
}

/// Once a file has been disposed of, disposing of it again changes nothing
/// in the tree, which has only grown.
pub proof fn lemma_merge_one_settles(before: MergeReport, file: PlannedFile)
    ensures
        extends(merge_one(before, file).tree, before.tree),
        settled(merge_one(before, file).tree, file),
        counted(merge_one(before, file).tree, file) == counted(before.tree, file),
{
    let after = merge_one(before, file);
    lemma_resolution_is_first_fit(before.tree, file.job, file.digest, 0);
    match resolution(before.tree, file.job, file.digest, 0) {
        Ok(decision) => {
            if !file.job.dry_run && decision is Move {
                let variant = variant_of(decision);
                assert forall|u: usize| 0 <= u < variant implies held_by_other(
                    after.tree,
                    file.job,
                    file.digest,
                    u,
                ) by {
                    assert(held_by_other(before.tree, file.job, file.digest, u));
                }
                lemma_first_match_is_resolution(after.tree, file.job, file.digest, 0, variant);
            }
        },
        Err(_) => {},
    }
}

/// The tree only grows in a merge, and every file of the merge is settled
/// in the tree that the merge leaves.
pub proof fn lemma_merge_all_settles(tree: Map<Seq<char>, Seq<char>>, files: Seq<PlannedFile>)
    ensures
        extends(merge_all(tree, files).tree, tree),
        forall|i: int| 0 <= i < files.len() ==> settled(merge_all(tree, files).tree, #[trigger] files[i]),
    decreases files.len(),
{
    if files.len() > 0 {
        let before = merge_all(tree, files.drop_last());
        let after = merge_all(tree, files);
        lemma_merge_all_settles(tree, files.drop_last());
        lemma_merge_one_settles(before, files.last());
        assert forall|i: int| 0 <= i < files.len() implies settled(after.tree, #[trigger] files[i]) by {
            if i < files.len() - 1 {
                assert(files[i] == files.drop_last()[i]);
                assert(settled(before.tree, files[i]));
                if !files[i].job.dry_run {
                    lemma_resolution_survives_growth(
                        before.tree,
                        after.tree,
                        files[i].job,
                        files[i].digest,
                        0,
                    );
                }
            }
        }
    }
}

/// The number of `files` that count as a move or a delete when each is
/// disposed of in `tree`.
pub open spec fn counted_files(tree: Map<Seq<char>, Seq<char>>, files: Seq<PlannedFile>) -> nat
    decreases files.len(),
{
    if files.len() == 0 {
        0
    } else if counted(tree, files.last()) {
        counted_files(tree, files.drop_last()) + 1
    } else {
        counted_files(tree, files.drop_last())
    }
}

/// Settled files count the same in a tree that has grown.
pub proof fn lemma_counted_files_survive_growth(
    small: Map<Seq<char>, Seq<char>>,
    big: Map<Seq<char>, Seq<char>>,
    files: Seq<PlannedFile>,
)
    requires
        extends(big, small),
        forall|i: int| 0 <= i < files.len() ==> settled(small, #[trigger] files[i]),
    ensures
        counted_files(big, files) == counted_files(small, files),
    decreases files.len(),
{
    if files.len() > 0 {
        let last = files.last();
        assert forall|i: int| 0 <= i < files.drop_last().len() implies settled(
            small,
            #[trigger] files.drop_last()[i],
        ) by {
            assert(files.drop_last()[i] == files[i]);
        }
        lemma_counted_files_survive_growth(small, big, files.drop_last());
        assert(settled(small, files[files.len() - 1]));
        if !last.job.dry_run {
            lemma_resolution_survives_growth(small, big, last.job, last.digest, 0);
        }
    }
}

/// The two counts of a merge add up to the number of its files that count in
/// the tree that the merge leaves.
pub proof fn lemma_merge_counts(tree: Map<Seq<char>, Seq<char>>, files: Seq<PlannedFile>)
    ensures
        merge_all(tree, files).moved + merge_all(tree, files).deleted == counted_files(
            merge_all(tree, files).tree,
            files,
        ),
    decreases files.len(),
{
    if files.len() > 0 {
        let before = merge_all(tree, files.drop_last());
        let after = merge_all(tree, files);
        lemma_merge_counts(tree, files.drop_last());
        lemma_merge_all_settles(tree, files.drop_last());
        lemma_merge_one_settles(before, files.last());
        lemma_counted_files_survive_growth(before.tree, after.tree, files.drop_last());
    }
}

/// A merge of files that are all settled leaves the tree as it is, moves
/// nothing, and deletes every file that counts.
pub proof fn lemma_settled_merge_moves_nothing(
    tree: Map<Seq<char>, Seq<char>>,
    files: Seq<PlannedFile>,
)
    requires
        forall|i: int| 0 <= i < files.len() ==> settled(tree, #[trigger] files[i]),
    ensures
        merge_all(tree, files).tree == tree,
        merge_all(tree, files).moved == 0,
        merge_all(tree, files).deleted == counted_files(tree, files),
    decreases files.len(),
{
    if files.len() > 0 {
        assert forall|i: int| 0 <= i < files.drop_last().len() implies settled(
            tree,
            #[trigger] files.drop_last()[i],
        ) by {
            assert(files.drop_last()[i] == files[i]);
        }
        lemma_settled_merge_moves_nothing(tree, files.drop_last());
        assert(settled(tree, files[files.len() - 1]));
    }
}

/// Idempotence. A second merge of the same files into the tree that the first
/// merge left moves nothing and leaves the tree as it is: every file that the
/// first merge moved or deleted is deleted by the second.
pub proof fn lemma_second_merge_moves_nothing(
    tree: Map<Seq<char>, Seq<char>>,
    files: Seq<PlannedFile>,
)
    ensures
        ({
            let first = merge_all(tree, files);
            let second = merge_all(first.tree, files);
            &&& second.tree == first.tree
            &&& second.moved == 0
            &&& second.deleted == first.moved + first.deleted
        }),
{
    lemma_merge_all_settles(tree, files);
    lemma_merge_counts(tree, files);
    lemma_settled_merge_moves_nothing(merge_all(tree, files).tree, files);
}


/// Whether the slot of `variant` holds a file.
pub open spec fn held(tree: Map<Seq<char>, Seq<char>>, job: JobView, variant: usize) -> bool {
    tree.contains_key(slot_path(job, variant))
}

/// Whether the variants of the name of `job` are in the state that merges
/// leave them in: the slots that are held come first, without a gap, and no
/// two of them hold the same content.
pub open spec fn one_file_per_content(tree: Map<Seq<char>, Seq<char>>, job: JobView) -> bool {
    &&& forall|u: usize, v: usize|
        u < v <= MAX_VARIANT && #[trigger] held(tree, job, v) ==> #[trigger] held(tree, job, u)
    &&& forall|u: usize, v: usize|
        u < v <= MAX_VARIANT && #[trigger] held(tree, job, u) && #[trigger] held(tree, job, v)
            ==> tree[slot_path(job, u)] != tree[slot_path(job, v)]
}

/// Jobs that are bound for the same base name see the same variants.
pub proof fn lemma_same_destination_same_variants(
    tree: Map<Seq<char>, Seq<char>>,
    first: JobView,
    second: JobView,
)
    requires
        same_destination(first, second),
        one_file_per_content(tree, first),
    ensures
        one_file_per_content(tree, second),
{
    assert(forall|v: usize| slot_path(first, v) == slot_path(second, v));
    assert forall|u: usize, v: usize|
        u < v <= MAX_VARIANT && #[trigger] held(tree, second, v) implies #[trigger] held(
        tree,
        second,
        u,
    ) by {
        assert(held(tree, first, v));
        assert(held(tree, first, u));
    }
    assert forall|u: usize, v: usize|
        u < v <= MAX_VARIANT && #[trigger] held(tree, second, u) && #[trigger] held(
            tree,
            second,
            v,
        ) implies tree[slot_path(second, u)] != tree[slot_path(second, v)] by {
        assert(held(tree, first, u) && held(tree, first, v));
    }
}

/// Disposing of a file keeps its content single among the variants of its
/// name.
pub proof fn lemma_merge_one_keeps_content_single(before: MergeReport, file: PlannedFile)
    requires
        one_file_per_content(before.tree, file.job),
    ensures
        one_file_per_content(merge_one(before, file).tree, file.job),
{
    let tree = before.tree;
    let after = merge_one(before, file).tree;
    let job = file.job;
    lemma_resolution_is_first_fit(tree, job, file.digest, 0);
    match resolution(tree, job, file.digest, 0) {
        Ok(decision) => {
            if !job.dry_run && decision is Move {
                let at = variant_of(decision);
                assert(!held(tree, job, at));
                assert forall|u: usize| u <= MAX_VARIANT implies (held(after, job, u) <==> u <= at)
                by {
                    if u < at {
                        assert(held_by_other(tree, job, file.digest, u));
                    } else if u > at {
                        lemma_slots_differ(job, u, at);
                        if held(tree, job, u) {
                            assert(held(tree, job, at));
                        }
                    }
                }
                assert forall|u: usize, v: usize|
                    u < v <= MAX_VARIANT && #[trigger] held(after, job, u) && #[trigger] held(
                        after,
                        job,
                        v,
                    ) implies after[slot_path(job, u)] != after[slot_path(job, v)] by {
                    lemma_slots_differ(job, u, v);
                    if v == at {
                        assert(held_by_other(tree, job, file.digest, u));
                    } else {
                        lemma_slots_differ(job, u, at);
                        lemma_slots_differ(job, v, at);
                        assert(held(tree, job, u) && held(tree, job, v));
                    }
                }
            }
        },
        Err(_) => {},
    }
}

/// One file for each content. Where files that are all bound for one base
/// name are merged into a tree that holds each content once among the
/// variants of that name, the tree holds each content once after the merge,
/// and holds the content of every file of the merge that was moved or deleted.
pub proof fn lemma_one_file_per_content(
    tree: Map<Seq<char>, Seq<char>>,
    files: Seq<PlannedFile>,
    job: JobView,
)
    requires
        one_file_per_content(tree, job),
        forall|i: int| 0 <= i < files.len() ==> same_destination(#[trigger] files[i].job, job),
    ensures
        one_file_per_content(merge_all(tree, files).tree, job),
        forall|i: int|
            0 <= i < files.len() && counted(merge_all(tree, files).tree, #[trigger] files[i])
                ==> exists|v: usize|
                v <= MAX_VARIANT && #[trigger] held(merge_all(tree, files).tree, job, v)
                    && merge_all(tree, files).tree[slot_path(job, v)] == files[i].digest,
    decreases files.len(),
{
    let end = merge_all(tree, files).tree;
    if files.len() > 0 {
        let before = merge_all(tree, files.drop_last());
        let last = files.last();
        assert forall|i: int| 0 <= i < files.drop_last().len() implies same_destination(
            #[trigger] files.drop_last()[i].job,
            job,
        ) by {
            assert(files.drop_last()[i] == files[i]);
        }
        lemma_one_file_per_content(tree, files.drop_last(), job);
        assert(same_destination(files[files.len() - 1].job, job));
        lemma_same_destination_same_variants(before.tree, job, last.job);
        lemma_merge_one_keeps_content_single(before, last);
        lemma_same_destination_same_variants(end, last.job, job);
    }
    lemma_merge_all_settles(tree, files);
    assert forall|i: int| 0 <= i < files.len() && counted(end, #[trigger] files[i]) implies exists|
        v: usize,
    |
        v <= MAX_VARIANT && #[trigger] held(end, job, v) && end[slot_path(job, v)]
            == files[i].digest by {
        let file = files[i];
        assert(same_destination(file.job, job));
        assert(settled(end, file));
        lemma_resolution_is_first_fit(end, file.job, file.digest, 0);
        let at = variant_of(resolution(end, file.job, file.digest, 0)->Ok_0);
        assert(slot_path(file.job, at) == slot_path(job, at));
        assert(held(end, job, at));
    }
}

} // verus!
