//! The list of changes with its cursor: what is shown, what is selected,
//! and what staging and unstaging do to the index.

use crate::branches::{FetchStatus, LocalBranch, UpstreamBranch, UpstreamCommitsDiff};
use crate::change::{
    change_views, paths_of, stage_action, unstage_action, Change, ChangeView, StagingError,
    StagingErrorView, TreeEntry, WILDCARD,
};
use crate::change_ordering::{position_keys, priority_keys, record_paths, ChangeOrdering};
use crate::classification::{
    conflict_entry_views, lemma_scanned_changes_ranked, populate_changes, scan_is_ranked,
    scanned_changes, status_entry_views, ClassifyError, ClassifyErrorView, ConflictEntry,
    StatusEntry,
};
use crate::index::{action_views, IndexAction, IndexActionView};
use crate::sorting::stable_sorted;
use crate::statuses::{flags_intersect, intersects, Status, WORKTREE_MASK};
use vstd::prelude::*;

verus! {

/// Whether a status shows a change in the working tree.
pub open spec fn touches_worktree(status: Status) -> bool {
    status matches Status::NonConflicting(flags) && flags_intersect(flags, WORKTREE_MASK)
}

/// Whether `at` is the change that is selected when a list is first shown:
/// the first change in a merge conflict, or, where there is none, the first
/// that shows a change in the working tree.
pub open spec fn is_default_selection(changes: Seq<ChangeView>, at: int) -> bool {
    &&& 0 <= at < changes.len()
    &&& if exists|i: int| 0 <= i < changes.len() && (#[trigger] changes[i]).status is Conflicting {
        &&& changes[at].status is Conflicting
        &&& forall|i: int| 0 <= i < at ==> !((#[trigger] changes[i]).status is Conflicting)
    } else {
        &&& touches_worktree(changes[at].status)
        &&& forall|i: int| 0 <= i < at ==> !touches_worktree((#[trigger] changes[i]).status)
    }
}

/// Whether a list has no change to select when it is first shown: none in
/// a merge conflict and none in the working tree.
pub open spec fn has_no_default_selection(changes: Seq<ChangeView>) -> bool {
    forall|i: int|
        0 <= i < changes.len() ==> !((#[trigger] changes[i]).status is Conflicting)
            && !touches_worktree(changes[i].status)
}

/// Where the cursor stands when a list is first shown: on the default
/// selection, and at 0 where there is none.
pub open spec fn is_first_cursor(changes: Seq<ChangeView>, at: int) -> bool {
    is_default_selection(changes, at) || (has_no_default_selection(changes) && at == 0)
}

/// The change that is selected when a list is first shown, if there is
/// one.
pub fn select_default_change(changes: &Vec<Change>) -> (selected: Option<usize>)
    ensures
        match selected {
            Some(at) => is_default_selection(change_views(changes@), at as int),
            None => has_no_default_selection(change_views(changes@)),
        },
{
    let ghost views = change_views(changes@);
    let mut first_worktree_change_index: Option<usize> = None;
    let mut i: usize = 0;
    while i < changes.len()
        invariant
            i <= changes.len(),
            views == change_views(changes@),
            forall|j: int| 0 <= j < i ==> !((#[trigger] views[j]).status is Conflicting),
            match first_worktree_change_index {
                Some(at) => at < i && touches_worktree(views[at as int].status) && forall|j: int|
                    0 <= j < at ==> !touches_worktree((#[trigger] views[j]).status),
                None => forall|j: int|
                    0 <= j < i ==> !touches_worktree((#[trigger] views[j]).status),
            },
        decreases changes.len() - i,
    {
        assert(views[i as int] == changes@[i as int]@);
        match changes[i].status {
            Status::Conflicting { .. } => {
                return Some(i);
            },
            Status::NonConflicting(flags) => {
                if first_worktree_change_index.is_none() && intersects(flags, WORKTREE_MASK) {
                    first_worktree_change_index = Some(i);
                }
            },
        }
        i = i + 1;
    }
    first_worktree_change_index
}

/// The place of the cursor in a list of `length` changes when it stood at
/// `selected` before: the same place, or the last of the list where that
/// place is gone.
pub open spec fn clamped_selection(selected: int, length: int) -> int {
    if length == 0 {
        0
    } else if length <= selected {
        length - 1
    } else {
        selected
    }
}

/// The steps of a staging command, and why they end early if they do.
///
/// The steps are taken in their order. Where one fails, nothing more is
/// done, and what the index has taken stays. After the last step `failure`,
/// if there is one, is what is reported; the index is not written then.
#[derive(Clone, Debug, PartialEq, Eq)]
pub struct StagingPlan {
    pub actions: Vec<IndexAction>,
    pub failure: Option<StagingError>,
}

/// A plan as contracts see it.
pub ghost struct StagingPlanView {
    pub actions: Seq<IndexActionView>,
    pub failure: Option<StagingErrorView>,
}

impl View for StagingPlan {
    type V = StagingPlanView;

    open spec fn view(&self) -> StagingPlanView {
        StagingPlanView {
            actions: action_views(self.actions@),
            failure: match self.failure {
                Some(error) => Some(error@),
                None => None,
            },
        }
    }
}

impl StagingPlan {
    /// Whether the list is to be scanned anew once the steps are taken:
    /// that is so where the plan changes the index and runs to its end.
    pub fn calls_for_refresh(&self) -> (refresh: bool)
        ensures
            refresh == (self@.failure is None && self@.actions.len() > 0),
    {
        self.failure.is_none() && self.actions.len() > 0
    }
}

/// The plan that stages one change: the step for it, and the writing of
/// the index.
pub open spec fn stage_plan(change: ChangeView, is_file: bool) -> StagingPlanView {
    StagingPlanView {
        actions: seq![stage_action(change, is_file), IndexActionView::Write],
        failure: None,
    }
}

/// The plan that stages every change: all is added, and the index is
/// written.
pub open spec fn stage_all_plan() -> StagingPlanView {
    StagingPlanView {
        actions: seq![IndexActionView::AddAll { pathspec: seq![WILDCARD] }, IndexActionView::Write],
        failure: None,
    }
}

/// The plan that does nothing.
pub open spec fn empty_plan() -> StagingPlanView {
    StagingPlanView { actions: Seq::empty(), failure: None }
}

/// The plan that unstages one change: the step for it and the writing of
/// the index, or the reason why there is no step.
pub open spec fn unstage_plan(change: ChangeView, head_entry: Option<TreeEntry>) -> StagingPlanView {
    match unstage_action(change, head_entry) {
        Ok(action) => StagingPlanView {
            actions: seq![action, IndexActionView::Write],
            failure: None,
        },
        Err(error) => StagingPlanView { actions: Seq::empty(), failure: Some(error) },
    }
}

/// What the last commit holds of the path of the change at `i`, as far as
/// `head_entries` says.
pub open spec fn head_entry_at(head_entries: Seq<Option<TreeEntry>>, i: int) -> Option<TreeEntry> {
    if 0 <= i < head_entries.len() {
        head_entries[i]
    } else {
        None
    }
}

/// Whether `plan` unstages `changes` one by one: it holds the step of each
/// change up to the first that has none, whose reason it gives; where every
/// change has a step, the writing of the index follows.
pub open spec fn is_unstage_all_plan(
    changes: Seq<ChangeView>,
    head_entries: Seq<Option<TreeEntry>>,
    plan: StagingPlanView,
) -> bool {
    let done = if plan.failure is Some {
        plan.actions.len() as int
    } else {
        plan.actions.len() - 1
    };
    &&& 0 <= done <= changes.len()
    &&& forall|i: int|
        0 <= i < done ==> unstage_action(changes[i], head_entry_at(head_entries, i)) == Ok::<
            IndexActionView,
            StagingErrorView,
        >(#[trigger] plan.actions[i])
    &&& match plan.failure {
        Some(error) => done < changes.len() && unstage_action(
            changes[done],
            head_entry_at(head_entries, done),
        ) == Err::<IndexActionView, StagingErrorView>(error),
        None => done == changes.len() && plan.actions[done] == IndexActionView::Write,
    }
}

/// An upstream after `update` was applied to it, where there is one.
pub open spec fn upstream_with(
    upstream: Option<UpstreamBranch>,
    update: spec_fn(UpstreamBranch) -> UpstreamBranch,
) -> Option<UpstreamBranch> {
    match upstream {
        Some(branch) => Some(update(branch)),
        None => None,
    }
}

/// An upstream after a fetch came back with `commits_diff`.
pub open spec fn after_fetch_completed(
    upstream: Option<UpstreamBranch>,
    commits_diff: UpstreamCommitsDiff,
) -> Option<UpstreamBranch> {
    upstream_with(
        upstream,
        |branch: UpstreamBranch|
            UpstreamBranch {
                commits_diff,
                fetch_status: FetchStatus::Complete(commits_diff),
                ..branch
            },
    )
}

/// An upstream with the given state of its fetch.
pub open spec fn with_fetch_status(
    upstream: Option<UpstreamBranch>,
    fetch_status: FetchStatus,
) -> Option<UpstreamBranch> {
    upstream_with(upstream, |branch: UpstreamBranch| UpstreamBranch { fetch_status, ..branch })
}

/// Whether a fetch of an upstream can start: there is an upstream, and no
/// fetch of it is under way.
pub open spec fn can_fetch(upstream: Option<UpstreamBranch>) -> bool {
    upstream matches Some(branch) && branch.fetch_status != FetchStatus::Fetching
}

/// The list of changes as contracts see it.
pub ghost struct ChangeListView {
    pub changes: Seq<ChangeView>,
    pub selected: int,
    pub ordering: Seq<Seq<u8>>,
    pub current_branch: LocalBranch,
    pub upstream: Option<UpstreamBranch>,
}

/// The list of changes, the cursor on it, the record of the order, and the
/// branch with its upstream.
#[derive(Debug)]
pub struct ChangeList {
    changes: Vec<Change>,
    index_of_selected_change: usize,
    ordering: ChangeOrdering,
    current_branch: LocalBranch,
    upstream: Option<UpstreamBranch>,
}

impl View for ChangeList {
    type V = ChangeListView;

    closed spec fn view(&self) -> ChangeListView {
        ChangeListView {
            changes: change_views(self.changes@),
            selected: self.index_of_selected_change as int,
            ordering: self.ordering@,
            current_branch: self.current_branch,
            upstream: self.upstream,
        }
    }
}

/// The place of the cursor after it went one change on.
pub open spec fn next_selection(list: ChangeListView) -> int {
    if list.selected + 1 < list.changes.len() {
        list.selected + 1
    } else {
        list.selected
    }
}

/// The place of the cursor after it went one change back.
pub open spec fn previous_selection(list: ChangeListView) -> int {
    if list.selected > 0 {
        list.selected - 1
    } else {
        list.selected
    }
}

/// Whether the cursor of a list stands on one of its changes, or at 0
/// where the list is empty.
pub open spec fn cursor_in_range(list: ChangeListView) -> bool {
    if list.changes.len() == 0 {
        list.selected == 0
    } else {
        0 <= list.selected < list.changes.len()
    }
}

impl ChangeList {
    /// The cursor stands on a change, or at 0 where there is none.
    #[verifier::type_invariant]
    spec fn well_formed(&self) -> bool {
        cursor_in_range(self@)
    }

    /// The list of a first scan: the changes that the scan and the conflict
    /// entries give, sorted by status and then by path, with the order
    /// recorded and the cursor on the default selection. The flags of every
    /// path in no conflict must have a place in the order of statuses.
    pub fn new(
        statuses: &Vec<StatusEntry>,
        conflicts: &Vec<ConflictEntry>,
        current_branch: LocalBranch,
        upstream: Option<UpstreamBranch>,
    ) -> (result: Result<ChangeList, ClassifyError>)
        requires
            scan_is_ranked(status_entry_views(statuses@)),
        ensures
            match result {
                Ok(list) => {
                    &&& scanned_changes(
                        status_entry_views(statuses@),
                        conflict_entry_views(conflicts@),
                    ) matches Ok(changes)
                    &&& stable_sorted(changes, priority_keys(changes), list@.changes)
                    &&& list@.ordering == record_paths(
                        Seq::<Seq<u8>>::empty(),
                        paths_of(list@.changes),
                    )
                    &&& is_first_cursor(list@.changes, list@.selected)
                    &&& cursor_in_range(list@)
                    &&& list@.current_branch == current_branch
                    &&& list@.upstream == upstream
                },
                Err(error) => scanned_changes(
                    status_entry_views(statuses@),
                    conflict_entry_views(conflicts@),
                ) == Err::<Seq<ChangeView>, ClassifyErrorView>(error@),
            },
    {
        proof {
            lemma_scanned_changes_ranked(
                status_entry_views(statuses@),
                conflict_entry_views(conflicts@),
            );
        }
        let mut changes = match populate_changes(statuses, conflicts) {
            Ok(changes) => changes,
            Err(error) => {
                return Err(error);
            },
        };
        let mut ordering = ChangeOrdering::with_capacity(changes.len());
        ordering.sort_changes_and_save_ordering(&mut changes);
        let index_of_selected_change = match select_default_change(&changes) {
            Some(at) => at,
            None => 0,
        };
        Ok(ChangeList { changes, index_of_selected_change, ordering, current_branch, upstream })
    }

    /// Takes the changes of a new scan: they are sorted by the recorded
    /// order, new paths after all recorded ones, and the cursor stays where
    /// it was, or goes to the last change where its place is gone. Where
    /// the scan cannot be classified the list stays as it was.
    pub fn refresh_changes(&mut self, statuses: &Vec<StatusEntry>, conflicts: &Vec<ConflictEntry>) -> (result:
        Result<(), ClassifyError>)
        ensures
            match result {
                Ok(_) => {
                    &&& scanned_changes(
                        status_entry_views(statuses@),
                        conflict_entry_views(conflicts@),
                    ) matches Ok(changes)
                    &&& stable_sorted(
                        changes,
                        position_keys(old(self)@.ordering, changes),
                        final(self)@.changes,
                    )
                    &&& final(self)@.ordering == record_paths(
                        old(self)@.ordering,
                        paths_of(final(self)@.changes),
                    )
                    &&& final(self)@.selected == clamped_selection(
                        old(self)@.selected,
                        final(self)@.changes.len() as int,
                    )
                    &&& cursor_in_range(final(self)@)
                    &&& final(self)@.current_branch == old(self)@.current_branch
                    &&& final(self)@.upstream == old(self)@.upstream
                },
                Err(error) => {
                    &&& final(self)@ == old(self)@
                    &&& scanned_changes(
                        status_entry_views(statuses@),
                        conflict_entry_views(conflicts@),
                    ) == Err::<Seq<ChangeView>, ClassifyErrorView>(error@)
                },
            },
    {
        let mut changes = match populate_changes(statuses, conflicts) {
            Ok(changes) => changes,
            Err(error) => {
                return Err(error);
            },
        };
        proof {
            use_type_invariant(&*self);
        }
        let mut ordering = ChangeOrdering::with_capacity(0);
        std::mem::swap(&mut self.ordering, &mut ordering);
        ordering.sort_changes(&mut changes);
        std::mem::swap(&mut self.ordering, &mut ordering);
        let changes_length = changes.len();
        let selected = self.index_of_selected_change;
        self.index_of_selected_change = 0;
        std::mem::swap(&mut self.changes, &mut changes);
        if changes_length == 0 {
            self.index_of_selected_change = 0;
        } else if changes_length <= selected {
            self.index_of_selected_change = changes_length - 1;
        } else {
            self.index_of_selected_change = selected;
        }
        Ok(())
    }

    /// The changes, in the order in which they are listed.
    pub fn changes(&self) -> (changes: &Vec<Change>)
        ensures
            change_views(changes@) == self@.changes,
    {
        &self.changes
    }

    /// Where the cursor stands: on a change of the list, or at 0 where the
    /// list is empty.
    pub fn index_of_selected_change(&self) -> (index: usize)
        ensures
            index == self@.selected,
            cursor_in_range(self@),
    {
        proof {
            use_type_invariant(self);
        }
        self.index_of_selected_change
    }

    /// The change under the cursor, if the list has any change.
    pub fn selected_change(&self) -> (change: Option<&Change>)
        ensures
            match change {
                Some(change) => self@.changes.len() > 0 && change@ == self@.changes[self@.selected],
                None => self@.changes.len() == 0,
            },
    {
        proof {
            use_type_invariant(self);
        }
        if self.changes.len() == 0 {
            None
        } else {
            Some(&self.changes[self.index_of_selected_change])
        }
    }

    /// The record of the order of the list.
    pub fn ordering(&self) -> (ordering: &ChangeOrdering)
        ensures
            ordering@ == self@.ordering,
    {
        &self.ordering
    }

    /// The branch that is checked out.
    pub fn current_branch(&self) -> (branch: &LocalBranch)
        ensures
            *branch == self@.current_branch,
    {
        &self.current_branch
    }

    /// The branch that the current branch follows, if it follows one.
    pub fn upstream(&self) -> (upstream: &Option<UpstreamBranch>)
        ensures
            *upstream == self@.upstream,
    {
        &self.upstream
    }

    /// Moves the cursor to the next change, unless it stands on the last.
    pub fn select_next_change(&mut self)
        ensures
            final(self)@ == (ChangeListView { selected: next_selection(old(self)@), ..old(self)@ }),
    {
        proof {
            use_type_invariant(&*self);
        }
        let changes_length = self.changes.len();
        if changes_length > 0 && self.index_of_selected_change < changes_length - 1 {
            self.index_of_selected_change += 1;
        }
    }

    /// Moves the cursor to the change before, unless it stands on the
    /// first.
    pub fn select_previous_change(&mut self)
        ensures
            final(self)@ == (ChangeListView {
                selected: previous_selection(old(self)@),
                ..old(self)@
            }),
    {
        proof {
            use_type_invariant(&*self);
        }
        if self.index_of_selected_change > 0 {
            self.index_of_selected_change -= 1;
        }
    }

    /// The plan that stages the change under the cursor; it does nothing
    /// where the list is empty. `is_file` says whether the path of that
    /// change is a regular file in the working tree.
    pub fn stage_selected_change(&self, is_file: bool) -> (plan: StagingPlan)
        ensures
            plan@ == if self@.changes.len() == 0 {
                empty_plan()
            } else {
                stage_plan(self@.changes[self@.selected], is_file)
            },
    {
        proof {
            use_type_invariant(self);
        }
        let mut actions: Vec<IndexAction> = Vec::new();
        if self.changes.len() > 0 {
            let change = &self.changes[self.index_of_selected_change];
            actions.push(change.stage(is_file));
            actions.push(IndexAction::Write);
        }
        let plan = StagingPlan { actions, failure: None };
        assert(plan@.actions =~= if self@.changes.len() == 0 {
            empty_plan().actions
        } else {
            stage_plan(self@.changes[self@.selected], is_file).actions
        });
        plan
    }

    /// The plan that stages every change, listed or not.
    pub fn stage_all_changes(&self) -> (plan: StagingPlan)
        ensures
            plan@ == stage_all_plan(),
    {
        let mut pathspec: Vec<u8> = Vec::new();
        pathspec.push(WILDCARD);
        let mut actions: Vec<IndexAction> = Vec::new();
        actions.push(IndexAction::AddAll { pathspec });
        actions.push(IndexAction::Write);
        let plan = StagingPlan { actions, failure: None };
        assert(pathspec@ =~= seq![WILDCARD]);
        assert(plan@.actions =~= stage_all_plan().actions);
        plan
    }

    /// The plan that unstages the change under the cursor; it does nothing
    /// where the list is empty. `head_entry` is what the last commit holds
    /// of the path of that change.
    pub fn unstage_selected_change(&self, head_entry: Option<TreeEntry>) -> (plan: StagingPlan)
        ensures
            plan@ == if self@.changes.len() == 0 {
                empty_plan()
            } else {
                unstage_plan(self@.changes[self@.selected], head_entry)
            },
    {
        proof {
            use_type_invariant(self);
        }
        let mut actions: Vec<IndexAction> = Vec::new();
        if self.changes.len() == 0 {
            let plan = StagingPlan { actions, failure: None };
            assert(plan@.actions =~= empty_plan().actions);
            return plan;
        }
        let change = &self.changes[self.index_of_selected_change];
        match change.unstage(head_entry) {
            Ok(action) => {
                actions.push(action);
                actions.push(IndexAction::Write);
                let plan = StagingPlan { actions, failure: None };
                assert(plan@.actions =~= unstage_plan(
                    self@.changes[self@.selected],
                    head_entry,
                ).actions);
                plan
            },
            Err(error) => {
                let plan = StagingPlan { actions, failure: Some(error) };
                assert(plan@.actions =~= unstage_plan(
                    self@.changes[self@.selected],
                    head_entry,
                ).actions);
                plan
            },
        }
    }

    /// The plan that unstages every change of the list, one by one in the
    /// order of the list, up to the first that cannot be unstaged.
    /// `head_entries` holds for each change, at its place in the list, what
    /// the last commit holds of its path.
    pub fn unstage_all_changes(&self, head_entries: &Vec<Option<TreeEntry>>) -> (plan: StagingPlan)
        ensures
            is_unstage_all_plan(self@.changes, head_entries@, plan@),
    {
        let ghost changes = self@.changes;
        let mut actions: Vec<IndexAction> = Vec::with_capacity(self.changes.len());
        let mut i: usize = 0;
        while i < self.changes.len()
            invariant
                i <= self.changes.len(),
                changes == change_views(self.changes@),
                actions.len() == i,
                forall|j: int|
                    0 <= j < i ==> unstage_action(changes[j], head_entry_at(head_entries@, j))
                        == Ok::<IndexActionView, StagingErrorView>((#[trigger] actions@[j])@),
            decreases self.changes.len() - i,
        {
            let head_entry = if i < head_entries.len() {
                head_entries[i]
            } else {
                None
            };
            assert(changes[i as int] == self.changes@[i as int]@);
            match self.changes[i].unstage(head_entry) {
                Ok(action) => {
                    actions.push(action);
                },
                Err(error) => {
                    let plan = StagingPlan { actions, failure: Some(error) };
                    assert forall|j: int| 0 <= j < i implies unstage_action(
                        changes[j],
                        head_entry_at(head_entries@, j),
                    ) == Ok::<IndexActionView, StagingErrorView>(#[trigger] plan@.actions[j]) by {
                        assert(plan@.actions[j] == actions@[j]@);
                    }
                    return plan;
                },
            }
            i = i + 1;
        }
        let ghost steps = actions@;
        actions.push(IndexAction::Write);
        let plan = StagingPlan { actions, failure: None };
        proof {
            assert forall|j: int| 0 <= j < i implies unstage_action(
                changes[j],
                head_entry_at(head_entries@, j),
            ) == Ok::<IndexActionView, StagingErrorView>(#[trigger] plan@.actions[j]) by {
                assert(plan@.actions[j] == steps[j]@);
            }
        }
        plan
    }

    /// Takes note that a fetch of the upstream came back with
    /// `commits_diff`. Nothing is noted where no upstream is followed.
    pub fn fetch_completed(&mut self, commits_diff: UpstreamCommitsDiff)
        ensures
            final(self)@ == (ChangeListView {
                upstream: after_fetch_completed(old(self)@.upstream, commits_diff),
                ..old(self)@
            }),
    {
        proof {
            use_type_invariant(&*self);
        }
        let mut upstream: Option<UpstreamBranch> = None;
        std::mem::swap(&mut self.upstream, &mut upstream);
        let mut upstream = match upstream {
            Some(mut branch) => {
                branch.fetch_completed(commits_diff);
                Some(branch)
            },
            None => None,
        };
        std::mem::swap(&mut self.upstream, &mut upstream);
    }

    /// Takes note that a fetch of the upstream failed. Nothing is noted
    /// where no upstream is followed.
    pub fn fetch_failed(&mut self)
        ensures
            final(self)@ == (ChangeListView {
                upstream: with_fetch_status(old(self)@.upstream, FetchStatus::Failed),
                ..old(self)@
            }),
    {
        proof {
            use_type_invariant(&*self);
        }
        let mut upstream: Option<UpstreamBranch> = None;
        std::mem::swap(&mut self.upstream, &mut upstream);
        let mut upstream = match upstream {
            Some(mut branch) => {
                branch.fetch_failed();
                Some(branch)
            },
            None => None,
        };
        std::mem::swap(&mut self.upstream, &mut upstream);
    }

    /// Starts a fetch of the upstream, and says whether it did: it does
    /// not where no upstream is followed, or where a fetch is under way.
    pub fn begin_fetch(&mut self) -> (started: bool)
        ensures
            started == can_fetch(old(self)@.upstream),
            final(self)@ == (ChangeListView {
                upstream: with_fetch_status(old(self)@.upstream, FetchStatus::Fetching),
                ..old(self)@
            }),
    {
        proof {
            use_type_invariant(&*self);
        }
        let mut upstream: Option<UpstreamBranch> = None;
        std::mem::swap(&mut self.upstream, &mut upstream);
        let (mut upstream, started) = match upstream {
            Some(mut branch) => {
                let started = branch.begin_fetch();
                (Some(branch), started)
            },
            None => (None, false),
        };
        std::mem::swap(&mut self.upstream, &mut upstream);
        started
    }

    /// Takes note of the difference to the upstream that was found anew.
    /// Nothing is noted where no upstream is followed.
    pub fn update_upstream_commits_diff(&mut self, commits_diff: UpstreamCommitsDiff)
        ensures
            final(self)@ == (ChangeListView {
                upstream: upstream_with(
                    old(self)@.upstream,
                    |branch: UpstreamBranch| UpstreamBranch { commits_diff, ..branch },
                ),
                ..old(self)@
            }),
    {
        proof {
            use_type_invariant(&*self);
        }
        let mut upstream: Option<UpstreamBranch> = None;
        std::mem::swap(&mut self.upstream, &mut upstream);
        let mut upstream = match upstream {
            Some(mut branch) => {
                branch.commits_diff = commits_diff;
                Some(branch)
            },
            None => None,
        };
        std::mem::swap(&mut self.upstream, &mut upstream);
    }
}

} // verus!
