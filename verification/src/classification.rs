//! From the raw results of a scan to the changes of the list.
//!
//! A path that is in no conflict keeps its flags. A path in a merge conflict
//! is looked up in the conflict entries of the index, and which of the three
//! versions of the path exist there gives the two sides of its status. The
//! paths that the scan flags as conflicted and the conflict entries must
//! match one to one.

use crate::change::{change_views, paths_of, Change, ChangeView};
use crate::paths::{find_position, lemma_position_in, path_views, position_in};
use crate::statuses::{flags_intersect, is_conflicted, ConflictingStatus, Status, CONFLICTED};
use crate::utils::{message_naming, lossy_text, utf8_lossy};
use vstd::prelude::*;

verus! {

/// One entry of a status scan: a path and its raw flags.
#[derive(Clone, Debug, PartialEq, Eq)]
pub struct StatusEntry {
    pub path: Vec<u8>,
    pub status: u32,
}

/// An entry of a status scan as contracts see it.
pub ghost struct StatusEntryView {
    pub path: Seq<u8>,
    pub status: u32,
}

impl View for StatusEntry {
    type V = StatusEntryView;

    open spec fn view(&self) -> StatusEntryView {
        StatusEntryView { path: self.path@, status: self.status }
    }
}

/// One conflict entry of the index: for each of the three versions of the
/// path that exists, the path under which it is entered.
#[derive(Clone, Debug, PartialEq, Eq)]
pub struct ConflictEntry {
    pub ancestor: Option<Vec<u8>>,
    pub our: Option<Vec<u8>>,
    pub their: Option<Vec<u8>>,
}

/// A conflict entry as contracts see it.
pub ghost struct ConflictEntryView {
    pub ancestor: Option<Seq<u8>>,
    pub our: Option<Seq<u8>>,
    pub their: Option<Seq<u8>>,
}

/// A path that may be absent, as contracts see it.
pub open spec fn optional_path_view(path: Option<Vec<u8>>) -> Option<Seq<u8>> {
    match path {
        Some(path) => Some(path@),
        None => None,
    }
}

impl View for ConflictEntry {
    type V = ConflictEntryView;

    open spec fn view(&self) -> ConflictEntryView {
        ConflictEntryView {
            ancestor: optional_path_view(self.ancestor),
            our: optional_path_view(self.our),
            their: optional_path_view(self.their),
        }
    }
}

/// Why the results of a scan could not be classified.
#[derive(Clone, Debug, PartialEq, Eq)]
pub enum ClassifyError {
    /// A path is flagged as conflicted, and no conflict entry is left for
    /// it.
    NoMatchingConflictEntry,
    /// A conflict entry holds none of the three versions.
    InvalidConflictEntry,
    /// A conflict entry is for a path that is not flagged as conflicted, or
    /// for which an earlier entry was taken.
    UnexpectedConflictEntry { path: Vec<u8> },
}

/// An error of classification as contracts see it.
pub ghost enum ClassifyErrorView {
    NoMatchingConflictEntry,
    InvalidConflictEntry,
    UnexpectedConflictEntry { path: Seq<u8> },
}

impl View for ClassifyError {
    type V = ClassifyErrorView;

    open spec fn view(&self) -> ClassifyErrorView {
        match self {
            ClassifyError::NoMatchingConflictEntry => ClassifyErrorView::NoMatchingConflictEntry,
            ClassifyError::InvalidConflictEntry => ClassifyErrorView::InvalidConflictEntry,
            ClassifyError::UnexpectedConflictEntry { path } => {
                ClassifyErrorView::UnexpectedConflictEntry { path: path@ }
            },
        }
    }
}

/// What is said of an error of classification, with `name` for the path
/// of the error, where it has one.
pub open spec fn classify_error_text_naming(error: ClassifyErrorView, name: Seq<char>) -> Seq<
    char,
> {
    match error {
        ClassifyErrorView::NoMatchingConflictEntry => {
            "Failed to find Git index entries for all conflicting paths in merge conflict"@
        },
        ClassifyErrorView::InvalidConflictEntry => {
            "Failed to find path for merge conflict in Git index"@
        },
        ClassifyErrorView::UnexpectedConflictEntry { .. } => {
            "Expected to find conflicting change path for merge conflict in '"@ + name
                + "', but found nothing"@
        },
    }
}

/// What is said of an error of classification: what is wrong, and the
/// path, where the error has one, as a reader sees it.
pub open spec fn classify_error_text(error: ClassifyErrorView) -> Seq<char> {
    classify_error_text_naming(
        error,
        match error {
            ClassifyErrorView::UnexpectedConflictEntry { path } => utf8_lossy(path),
            _ => Seq::empty(),
        },
    )
}

impl ClassifyError {
    /// The error in words, with `name` for the path of the error, where it
    /// has one.
    pub fn message_naming(&self, name: &str) -> (message: String)
        ensures
            message@ == classify_error_text_naming(self@, name@),
    {
        match self {
            ClassifyError::NoMatchingConflictEntry => String::from_str(
                "Failed to find Git index entries for all conflicting paths in merge conflict",
            ),
            ClassifyError::InvalidConflictEntry => String::from_str(
                "Failed to find path for merge conflict in Git index",
            ),
            ClassifyError::UnexpectedConflictEntry { .. } => message_naming(
                "Expected to find conflicting change path for merge conflict in '",
                name,
                "', but found nothing",
            ),
        }
    }

    /// The error in words.
    pub fn message(&self) -> (message: String)
        ensures
            message@ == classify_error_text(self@),
    {
        match self {
            ClassifyError::UnexpectedConflictEntry { path } => {
                let name = lossy_text(path.as_slice());
                self.message_naming(name.as_str())
            },
            _ => self.message_naming(""),
        }
    }
}

/// The two sides (ours, theirs) of a path in a merge conflict, by which of
/// the three versions of the path exist; nothing where none exists.
pub open spec fn conflict_sides(ancestor: bool, ours: bool, theirs: bool) -> Option<
    (ConflictingStatus, ConflictingStatus),
> {
    match (ancestor, ours, theirs) {
        (true, true, true) => Some((ConflictingStatus::Unmerged, ConflictingStatus::Unmerged)),
        (true, true, false) => Some((ConflictingStatus::Unmerged, ConflictingStatus::Deleted)),
        (true, false, true) => Some((ConflictingStatus::Deleted, ConflictingStatus::Unmerged)),
        (true, false, false) => Some((ConflictingStatus::Deleted, ConflictingStatus::Deleted)),
        (false, true, true) => Some((ConflictingStatus::Added, ConflictingStatus::Added)),
        (false, true, false) => Some((ConflictingStatus::Added, ConflictingStatus::Unmerged)),
        (false, false, true) => Some((ConflictingStatus::Unmerged, ConflictingStatus::Added)),
        (false, false, false) => None,
    }
}

/// The status that a conflict entry gives its path.
pub open spec fn conflict_status(entry: ConflictEntryView) -> Option<Status> {
    match conflict_sides(entry.ancestor is Some, entry.our is Some, entry.their is Some) {
        Some((ours, theirs)) => Some(Status::Conflicting { ours, theirs }),
        None => None,
    }
}

/// The path of a conflict entry: that of the first version that exists,
/// ancestor, ours, theirs.
pub open spec fn conflict_path(entry: ConflictEntryView) -> Option<Seq<u8>> {
    if entry.ancestor is Some {
        entry.ancestor
    } else if entry.our is Some {
        entry.our
    } else {
        entry.their
    }
}

/// The status of a path with the given flags and conflict entry.
pub open spec fn classified(flags: u32, conflict: Option<ConflictEntryView>) -> Result<
    Status,
    ClassifyErrorView,
> {
    if !flags_intersect(flags, CONFLICTED) {
        Ok(Status::NonConflicting(flags))
    } else {
        match conflict {
            None => Err(ClassifyErrorView::NoMatchingConflictEntry),
            Some(entry) => match conflict_status(entry) {
                Some(status) => Ok(status),
                None => Err(ClassifyErrorView::InvalidConflictEntry),
            },
        }
    }
}

/// Every status that a conflict entry gives has a place in the order of
/// statuses.
pub proof fn lemma_conflict_status_is_ranked(entry: ConflictEntryView)
    ensures
        conflict_status(entry) is Some ==> crate::status_priorities::is_ranked(
            conflict_status(entry).unwrap(),
        ),
        conflict_status(entry) is Some <==> conflict_path(entry) is Some,
{
}

/// The two sides of a path in a merge conflict, by which of the three
/// versions of the path exist.
pub fn conflicting_sides(ancestor: bool, ours: bool, theirs: bool) -> (sides: Option<
    (ConflictingStatus, ConflictingStatus),
>)
    ensures
        sides == conflict_sides(ancestor, ours, theirs),
{
    match (ancestor, ours, theirs) {
        (true, true, true) => Some((ConflictingStatus::Unmerged, ConflictingStatus::Unmerged)),
        (true, true, false) => Some((ConflictingStatus::Unmerged, ConflictingStatus::Deleted)),
        (true, false, true) => Some((ConflictingStatus::Deleted, ConflictingStatus::Unmerged)),
        (true, false, false) => Some((ConflictingStatus::Deleted, ConflictingStatus::Deleted)),
        (false, true, true) => Some((ConflictingStatus::Added, ConflictingStatus::Added)),
        (false, true, false) => Some((ConflictingStatus::Added, ConflictingStatus::Unmerged)),
        (false, false, true) => Some((ConflictingStatus::Unmerged, ConflictingStatus::Added)),
        (false, false, false) => None,
    }
}

/// A result of classification as contracts see it.
pub open spec fn status_result_view(result: Result<Status, ClassifyError>) -> Result<
    Status,
    ClassifyErrorView,
> {
    match result {
        Ok(status) => Ok(status),
        Err(error) => Err(error@),
    }
}

/// A conflict entry that may be absent, as contracts see it.
pub open spec fn optional_conflict_view(conflict: Option<&ConflictEntry>) -> Option<
    ConflictEntryView,
> {
    match conflict {
        Some(entry) => Some(entry@),
        None => None,
    }
}

/// Classifies one path: flags that are not conflicted are kept as they are;
/// for a conflicted path the conflict entry decides, and must be there and
/// hold one version at least.
pub fn classify(raw_status_flags: u32, conflict: Option<&ConflictEntry>) -> (result: Result<
    Status,
    ClassifyError,
>)
    ensures
        status_result_view(result) == classified(raw_status_flags, optional_conflict_view(conflict)),
{
    if !is_conflicted(raw_status_flags) {
        return Ok(Status::NonConflicting(raw_status_flags));
    }
    match conflict {
        None => Err(ClassifyError::NoMatchingConflictEntry),
        Some(entry) => {
            match conflicting_sides(
                entry.ancestor.is_some(),
                entry.our.is_some(),
                entry.their.is_some(),
            ) {
                Some((ours, theirs)) => Ok(Status::Conflicting { ours, theirs }),
                None => Err(ClassifyError::InvalidConflictEntry),
            }
        },
    }
}

/// The entries of a scan as contracts see them.
pub open spec fn status_entry_views(entries: Seq<StatusEntry>) -> Seq<StatusEntryView> {
    Seq::new(entries.len(), |i: int| entries[i]@)
}

/// The conflict entries of the index as contracts see them.
pub open spec fn conflict_entry_views(entries: Seq<ConflictEntry>) -> Seq<ConflictEntryView> {
    Seq::new(entries.len(), |i: int| entries[i]@)
}

/// The changes of the paths of a scan that are in no conflict, in the order
/// of the scan.
pub open spec fn nonconflicting_changes(scan: Seq<StatusEntryView>) -> Seq<ChangeView>
    decreases scan.len(),
{
    if scan.len() == 0 {
        Seq::empty()
    } else if flags_intersect(scan.last().status, CONFLICTED) {
        nonconflicting_changes(scan.drop_last())
    } else {
        nonconflicting_changes(scan.drop_last()).push(
            ChangeView {
                path: scan.last().path,
                status: Status::NonConflicting(scan.last().status),
            },
        )
    }
}

/// The paths of a scan that are flagged as conflicted, in the order of the
/// scan.
pub open spec fn conflicting_paths(scan: Seq<StatusEntryView>) -> Seq<Seq<u8>>
    decreases scan.len(),
{
    if scan.len() == 0 {
        Seq::empty()
    } else if flags_intersect(scan.last().status, CONFLICTED) {
        conflicting_paths(scan.drop_last()).push(scan.last().path)
    } else {
        conflicting_paths(scan.drop_last())
    }
}

/// `changes` followed by what `rest` holds, or the error that `rest` is.
pub open spec fn followed_by(
    changes: Seq<ChangeView>,
    rest: Result<Seq<ChangeView>, ClassifyErrorView>,
) -> Result<Seq<ChangeView>, ClassifyErrorView> {
    match rest {
        Ok(more) => Ok(changes + more),
        Err(error) => Err(error),
    }
}

/// The changes of the conflicted paths `pending`, in the order of the
/// conflict entries: each entry takes the first pending path that is its
/// own. It is an error if an entry holds no version, if it finds no pending
/// path, or if a path is still pending when the entries are used up; the
/// first that occurs is given.
pub open spec fn conflicting_changes(
    pending: Seq<Seq<u8>>,
    conflicts: Seq<ConflictEntryView>,
) -> Result<Seq<ChangeView>, ClassifyErrorView>
    decreases conflicts.len(),
{
    if conflicts.len() == 0 {
        if pending.len() == 0 {
            Ok(Seq::empty())
        } else {
            Err(ClassifyErrorView::NoMatchingConflictEntry)
        }
    } else {
        match (conflict_path(conflicts[0]), conflict_status(conflicts[0])) {
            (Some(path), Some(status)) => {
                if pending.contains(path) {
                    followed_by(
                        seq![ChangeView { path, status }],
                        conflicting_changes(
                            pending.remove(position_in(pending, path)),
                            conflicts.drop_first(),
                        ),
                    )
                } else {
                    Err(ClassifyErrorView::UnexpectedConflictEntry { path })
                }
            },
            _ => Err(ClassifyErrorView::InvalidConflictEntry),
        }
    }
}

/// The changes that a scan and the conflict entries of the index give:
/// first those of the paths in no conflict, in the order of the scan, then
/// those of the conflicted paths, in the order of the conflict entries.
pub open spec fn scanned_changes(
    scan: Seq<StatusEntryView>,
    conflicts: Seq<ConflictEntryView>,
) -> Result<Seq<ChangeView>, ClassifyErrorView> {
    followed_by(
        nonconflicting_changes(scan),
        conflicting_changes(conflicting_paths(scan), conflicts),
    )
}

/// The paths of a scan, in its order.
pub open spec fn scan_paths(scan: Seq<StatusEntryView>) -> Seq<Seq<u8>> {
    Seq::new(scan.len(), |i: int| scan[i].path)
}

/// The paths of a scan are those in no conflict and those flagged as
/// conflicted, each as often as the scan holds it.
proof fn lemma_scan_paths_split(scan: Seq<StatusEntryView>)
    ensures
        scan_paths(scan).to_multiset() == paths_of(nonconflicting_changes(scan)).to_multiset().add(
            conflicting_paths(scan).to_multiset(),
        ),
        nonconflicting_changes(scan).len() + conflicting_paths(scan).len() == scan.len(),
        forall|i: int|
            0 <= i < nonconflicting_changes(scan).len() ==> (
            #[trigger] nonconflicting_changes(scan)[i]).status is NonConflicting,
    decreases scan.len(),
{
    broadcast use vstd::seq_lib::group_to_multiset_ensures;

    if scan.len() == 0 {
        assert(scan_paths(scan) =~= Seq::<Seq<u8>>::empty());
        assert(paths_of(nonconflicting_changes(scan)) =~= Seq::<Seq<u8>>::empty());
        assert(scan_paths(scan).to_multiset() =~= paths_of(
            nonconflicting_changes(scan),
        ).to_multiset().add(conflicting_paths(scan).to_multiset()));
    } else {
        let before = scan.drop_last();
        let last = scan.last();
        lemma_scan_paths_split(before);
        assert(scan_paths(scan) =~= scan_paths(before).push(last.path));
        if !flags_intersect(last.status, CONFLICTED) {
            assert(paths_of(nonconflicting_changes(scan)) =~= paths_of(
                nonconflicting_changes(before),
            ).push(last.path));
        }
        assert(scan_paths(scan).to_multiset() =~= paths_of(
            nonconflicting_changes(scan),
        ).to_multiset().add(conflicting_paths(scan).to_multiset()));
    }
}

/// The changes of the conflicted paths hold each pending path as often as
/// it was pending, each with a status that has a place in the order of
/// statuses.
proof fn lemma_conflicting_changes_keep_paths(
    pending: Seq<Seq<u8>>,
    conflicts: Seq<ConflictEntryView>,
)
    ensures
        conflicting_changes(pending, conflicts) matches Ok(changes) ==> {
            &&& paths_of(changes).to_multiset() == pending.to_multiset()
            &&& changes.len() == pending.len()
            &&& changes.len() == conflicts.len()
            &&& forall|i: int|
                0 <= i < changes.len() ==> {
                    &&& (#[trigger] changes[i]).status is Conflicting
                    &&& crate::status_priorities::is_ranked(changes[i].status)
                    &&& Some(changes[i].status) == conflict_status(conflicts[i])
                    &&& Some(changes[i].path) == conflict_path(conflicts[i])
                }
        },
    decreases conflicts.len(),
{
    broadcast use vstd::seq_lib::group_to_multiset_ensures;

    if conflicts.len() == 0 {
        if pending.len() == 0 {
            assert(paths_of(Seq::<ChangeView>::empty()) =~= pending);
        }
    } else {
        match (conflict_path(conflicts[0]), conflict_status(conflicts[0])) {
            (Some(path), Some(status)) => {
                if pending.contains(path) {
                    lemma_position_in(pending, path);
                    let at = position_in(pending, path);
                    let left = pending.remove(at);
                    let rest = conflicts.drop_first();
                    lemma_conflicting_changes_keep_paths(left, rest);
                    lemma_conflict_status_is_ranked(conflicts[0]);
                    match conflicting_changes(left, rest) {
                        Ok(more) => {
                            let changes = seq![ChangeView { path, status }] + more;
                            assert(paths_of(changes) =~= paths_of(more).insert(0, path));
                            assert(left.to_multiset() == pending.to_multiset().remove(pending[at]));
                            assert(paths_of(changes).to_multiset() =~= pending.to_multiset());
                            assert forall|i: int| 0 <= i < changes.len() implies {
                                &&& (#[trigger] changes[i]).status is Conflicting
                                &&& crate::status_priorities::is_ranked(changes[i].status)
                                &&& Some(changes[i].status) == conflict_status(conflicts[i])
                                &&& Some(changes[i].path) == conflict_path(conflicts[i])
                            } by {
                                if i > 0 {
                                    assert(changes[i] == more[i - 1]);
                                    assert(rest[i - 1] == conflicts[i]);
                                }
                            }
                        },
                        Err(_) => {},
                    }
                }
            },
            _ => {},
        }
    }
}

/// The paths of conflict entries, in their order.
pub open spec fn conflict_paths(conflicts: Seq<ConflictEntryView>) -> Seq<Seq<u8>> {
    Seq::new(conflicts.len(), |i: int| conflict_path(conflicts[i]).unwrap())
}

/// The conflicted paths and the conflict entries match exactly where every
/// entry holds a version and the paths of the entries are the conflicted
/// paths, each as often as it is flagged.
pub proof fn lemma_conflicts_match_one_to_one(
    pending: Seq<Seq<u8>>,
    conflicts: Seq<ConflictEntryView>,
)
    ensures
        conflicting_changes(pending, conflicts) is Ok <==> (forall|i: int|
            0 <= i < conflicts.len() ==> conflict_path(#[trigger] conflicts[i]) is Some)
            && conflict_paths(conflicts).to_multiset() == pending.to_multiset(),
    decreases conflicts.len(),
{
    broadcast use vstd::seq_lib::group_to_multiset_ensures;

    let paths = conflict_paths(conflicts);
    if conflicts.len() == 0 {
        assert(paths =~= Seq::<Seq<u8>>::empty());
        assert(paths.to_multiset().len() == 0);
        assert(pending.to_multiset().len() == pending.len());
        if pending.len() == 0 {
            assert(pending =~= paths);
        }
    } else {
        lemma_conflict_status_is_ranked(conflicts[0]);
        match conflict_path(conflicts[0]) {
            Some(path) => {
                let rest = conflicts.drop_first();
                assert(paths =~= conflict_paths(rest).insert(0, path));
                assert(paths.to_multiset() == conflict_paths(rest).to_multiset().insert(path));
                assert forall|i: int| 0 <= i < rest.len() implies rest[i] == conflicts[i + 1] by {}
                if pending.contains(path) {
                    lemma_position_in(pending, path);
                    let at = position_in(pending, path);
                    let left = pending.remove(at);
                    lemma_conflicts_match_one_to_one(left, rest);
                    assert(left.to_multiset() == pending.to_multiset().remove(path));
                    assert(pending.to_multiset().count(path) > 0);
                    assert(pending.to_multiset() =~= left.to_multiset().insert(path));
                    if conflict_paths(rest).to_multiset() == left.to_multiset() {
                        assert(paths.to_multiset() == pending.to_multiset());
                    }
                    if paths.to_multiset() == pending.to_multiset() {
                        assert(conflict_paths(rest).to_multiset() =~= paths.to_multiset().remove(
                            path,
                        ));
                        assert(conflict_paths(rest).to_multiset() =~= left.to_multiset());
                    }
                    if forall|i: int|
                        0 <= i < conflicts.len() ==> conflict_path(#[trigger] conflicts[i])
                            is Some {
                        assert forall|i: int| 0 <= i < rest.len() implies conflict_path(
                            #[trigger] rest[i],
                        ) is Some by {
                            assert(conflict_path(conflicts[i + 1]) is Some);
                        }
                    }
                    if forall|i: int|
                        0 <= i < rest.len() ==> conflict_path(#[trigger] rest[i]) is Some {
                        assert forall|i: int| 0 <= i < conflicts.len() implies conflict_path(
                            #[trigger] conflicts[i],
                        ) is Some by {
                            if i > 0 {
                                assert(conflict_path(rest[i - 1]) is Some);
                            }
                        }
                    }
                } else {
                    assert(paths.to_multiset().count(path) > 0);
                    assert(pending.to_multiset().count(path) == 0);
                }
            },
            None => {},
        }
    }
}

/// Where a scan can be classified, the changes hold every path of the scan
/// as often as the scan holds it — a path that the scan holds once is in
/// one change — and the statuses are the flags of the paths in no conflict
/// and, for the conflicted paths, statuses that have a place in the order.
pub proof fn lemma_scanned_changes_keep_paths(
    scan: Seq<StatusEntryView>,
    conflicts: Seq<ConflictEntryView>,
)
    ensures
        scanned_changes(scan, conflicts) matches Ok(changes) ==> {
            &&& changes.len() == scan.len()
            &&& paths_of(changes).to_multiset() == scan_paths(scan).to_multiset()
            &&& forall|i: int|
                0 <= i < changes.len() && (#[trigger] changes[i]).status is Conflicting
                    ==> crate::status_priorities::is_ranked(changes[i].status)
        },
{
    broadcast use vstd::seq_lib::group_to_multiset_ensures;

    lemma_scan_paths_split(scan);
    lemma_conflicting_changes_keep_paths(conflicting_paths(scan), conflicts);
    match conflicting_changes(conflicting_paths(scan), conflicts) {
        Ok(more) => {
            let first = nonconflicting_changes(scan);
            let changes = first + more;
            assert(paths_of(changes) =~= paths_of(first) + paths_of(more));
            vstd::seq_lib::lemma_multiset_commutative(paths_of(first), paths_of(more));
            assert forall|i: int|
                0 <= i < changes.len() && (
                #[trigger] changes[i]).status is Conflicting implies crate::status_priorities::is_ranked(
                changes[i].status,
            ) by {
                if i < first.len() {
                    assert(changes[i] == first[i]);
                } else {
                    assert(changes[i] == more[i - first.len()]);
                }
            }
        },
        Err(_) => {},
    }
}

/// Whether the flags of every path of a scan that is in no conflict have a
/// place in the order of statuses.
pub open spec fn scan_is_ranked(scan: Seq<StatusEntryView>) -> bool {
    forall|i: int|
        0 <= i < scan.len() && !flags_intersect((#[trigger] scan[i]).status, CONFLICTED)
            ==> crate::status_priorities::is_ranked(Status::NonConflicting(scan[i].status))
}

/// The changes of the paths in no conflict have the flags of the scan.
proof fn lemma_nonconflicting_changes_ranked(scan: Seq<StatusEntryView>)
    requires
        scan_is_ranked(scan),
    ensures
        forall|i: int|
            0 <= i < nonconflicting_changes(scan).len() ==> crate::status_priorities::is_ranked(
                (#[trigger] nonconflicting_changes(scan)[i]).status,
            ),
    decreases scan.len(),
{
    if scan.len() > 0 {
        let before = scan.drop_last();
        assert forall|i: int|
            0 <= i < before.len() && !flags_intersect(
                (#[trigger] before[i]).status,
                CONFLICTED,
            ) implies crate::status_priorities::is_ranked(
            Status::NonConflicting(before[i].status),
        ) by {
            assert(before[i] == scan[i]);
        }
        lemma_nonconflicting_changes_ranked(before);
        assert(scan.last() == scan[scan.len() - 1]);
    }
}

/// Where every path of a scan that is in no conflict has flags with a place
/// in the order of statuses, every change of the scan has a status with
/// one.
pub proof fn lemma_scanned_changes_ranked(
    scan: Seq<StatusEntryView>,
    conflicts: Seq<ConflictEntryView>,
)
    requires
        scan_is_ranked(scan),
    ensures
        scanned_changes(scan, conflicts) matches Ok(changes) ==> forall|i: int|
            0 <= i < changes.len() ==> crate::status_priorities::is_ranked(
                (#[trigger] changes[i]).status,
            ),
{
    lemma_nonconflicting_changes_ranked(scan);
    lemma_conflicting_changes_keep_paths(conflicting_paths(scan), conflicts);
    match conflicting_changes(conflicting_paths(scan), conflicts) {
        Ok(more) => {
            let first = nonconflicting_changes(scan);
            let changes = first + more;
            assert forall|i: int|
                0 <= i < changes.len() implies crate::status_priorities::is_ranked(
                (#[trigger] changes[i]).status,
            ) by {
                if i < first.len() {
                    assert(changes[i] == first[i]);
                } else {
                    assert(changes[i] == more[i - first.len()]);
                }
            }
        },
        Err(_) => {},
    }
}

/// Whether the flags of every path of a scan that is in no conflict have a
/// place in the order of statuses.
pub fn is_ranked_scan(statuses: &Vec<StatusEntry>) -> (ranked: bool)
    ensures
        ranked == scan_is_ranked(status_entry_views(statuses@)),
{
    let priorities = crate::status_priorities::StatusPriorityMap::new();
    let ghost scan = status_entry_views(statuses@);
    let mut i: usize = 0;
    while i < statuses.len()
        invariant
            i <= statuses.len(),
            scan == status_entry_views(statuses@),
            forall|j: int|
                0 <= j < i && !flags_intersect((#[trigger] scan[j]).status, CONFLICTED)
                    ==> crate::status_priorities::is_ranked(
                    Status::NonConflicting(scan[j].status),
                ),
        decreases statuses.len() - i,
    {
        let flags = statuses[i].status;
        if !is_conflicted(flags) && priorities.priority(&Status::NonConflicting(flags)).is_none() {
            assert(scan[i as int].status == flags);
            return false;
        }
        i = i + 1;
    }
    true
}

/// Changes or an error as contracts see them.
pub open spec fn changes_result_view(result: Result<Vec<Change>, ClassifyError>) -> Result<
    Seq<ChangeView>,
    ClassifyErrorView,
> {
    match result {
        Ok(changes) => Ok(change_views(changes@)),
        Err(error) => Err(error@),
    }
}

/// The path of a conflict entry: that of the first version that exists.
fn path_of_conflict(entry: &ConflictEntry) -> (path: Option<&Vec<u8>>)
    ensures
        match path {
            Some(path) => conflict_path(entry@) == Some(path@),
            None => conflict_path(entry@) is None,
        },
{
    match &entry.ancestor {
        Some(path) => Some(path),
        None => match &entry.our {
            Some(path) => Some(path),
            None => match &entry.their {
                Some(path) => Some(path),
                None => None,
            },
        },
    }
}

/// The changes of the paths that the scan flagged as conflicted, from the
/// conflict entries of the index.
pub fn populate_conflicting_changes(
    conflicting_change_paths: Vec<Vec<u8>>,
    conflicts: &Vec<ConflictEntry>,
) -> (result: Result<Vec<Change>, ClassifyError>)
    ensures
        changes_result_view(result) == conflicting_changes(
            path_views(conflicting_change_paths@),
            conflict_entry_views(conflicts@),
        ),
{
    let ghost entries = conflict_entry_views(conflicts@);
    let ghost flagged = path_views(conflicting_change_paths@);
    let ghost all = conflicting_changes(flagged, entries);
    let mut pending = conflicting_change_paths;
    let mut changes: Vec<Change> = Vec::with_capacity(pending.len());
    let mut i: usize = 0;
    proof {
        assert(entries.subrange(0, entries.len() as int) =~= entries);
        match conflicting_changes(path_views(pending@), entries) {
            Ok(found) => {
                assert(change_views(changes@) + found =~= found);
            },
            Err(_) => {},
        }
    }
    while i < conflicts.len()
        invariant
            i <= conflicts.len(),
            entries == conflict_entry_views(conflicts@),
            all == conflicting_changes(flagged, entries),
            flagged == path_views(conflicting_change_paths@),
            followed_by(
                change_views(changes@),
                conflicting_changes(
                    path_views(pending@),
                    entries.subrange(i as int, entries.len() as int),
                ),
            ) == all,
        decreases conflicts.len() - i,
    {
        let ghost rest = entries.subrange(i as int, entries.len() as int);
        let ghost waiting = path_views(pending@);
        let ghost done = change_views(changes@);
        proof {
            assert(rest[0] == conflicts@[i as int]@);
            assert(rest.drop_first() =~= entries.subrange(i + 1, entries.len() as int));
            lemma_conflict_status_is_ranked(rest[0]);
        }
        let conflict = &conflicts[i];
        let path = match path_of_conflict(conflict) {
            Some(path) => path,
            None => {
                return Err(ClassifyError::InvalidConflictEntry);
            },
        };
        proof {
            lemma_position_in(waiting, path@);
        }
        let index = find_position(&pending, path.as_slice());
        if index == pending.len() {
            return Err(ClassifyError::UnexpectedConflictEntry { path: path.clone() });
        }
        let change_path = pending.remove(index);
        let status = match conflicting_sides(
            conflict.ancestor.is_some(),
            conflict.our.is_some(),
            conflict.their.is_some(),
        ) {
            Some((ours, theirs)) => Status::Conflicting { ours, theirs },
            None => {
                return Err(ClassifyError::InvalidConflictEntry);
            },
        };
        changes.push(Change { path: change_path, status });
        proof {
            let change = ChangeView { path: path@, status };
            assert(path_views(pending@) =~= waiting.remove(index as int));
            assert(change_views(changes@) =~= done.push(change));
            match conflicting_changes(path_views(pending@), rest.drop_first()) {
                Ok(found) => {
                    assert(done + (seq![change] + found) =~= done.push(change) + found);
                },
                Err(_) => {},
            }
        }
        i = i + 1;
    }
    proof {
        assert(entries.subrange(i as int, entries.len() as int) =~= Seq::<
            ConflictEntryView,
        >::empty());
        assert(change_views(changes@) + Seq::<ChangeView>::empty() =~= change_views(changes@));
    }
    if pending.len() > 0 {
        return Err(ClassifyError::NoMatchingConflictEntry);
    }
    Ok(changes)
}

/// The changes that a scan and the conflict entries of the index give. The
/// paths that the scan flags as conflicted and the conflict entries must
/// match one to one.
pub fn populate_changes(statuses: &Vec<StatusEntry>, conflicts: &Vec<ConflictEntry>) -> (result:
    Result<Vec<Change>, ClassifyError>)
    ensures
        changes_result_view(result) == scanned_changes(
            status_entry_views(statuses@),
            conflict_entry_views(conflicts@),
        ),
{
    let ghost scan = status_entry_views(statuses@);
    let mut changes: Vec<Change> = Vec::with_capacity(statuses.len());
    let mut conflicting_change_paths: Vec<Vec<u8>> = Vec::new();
    let mut i: usize = 0;
    while i < statuses.len()
        invariant
            i <= statuses.len(),
            scan == status_entry_views(statuses@),
            change_views(changes@) == nonconflicting_changes(scan.subrange(0, i as int)),
            path_views(conflicting_change_paths@) == conflicting_paths(scan.subrange(0, i as int)),
        decreases statuses.len() - i,
    {
        let ghost before = scan.subrange(0, i as int);
        let ghost done = change_views(changes@);
        let ghost flagged = path_views(conflicting_change_paths@);
        proof {
            assert(scan.subrange(0, i + 1).drop_last() =~= before);
            assert(scan.subrange(0, i + 1).last() == statuses@[i as int]@);
        }
        let status = statuses[i].status;
        let path = statuses[i].path.clone();
        if is_conflicted(status) {
            conflicting_change_paths.push(path);
            assert(path_views(conflicting_change_paths@) =~= flagged.push(path@));
        } else {
            changes.push(Change { path, status: Status::NonConflicting(status) });
            assert(change_views(changes@) =~= done.push(
                ChangeView { path: path@, status: Status::NonConflicting(status) },
            ));
        }
        i = i + 1;
    }
    proof {
        assert(scan.subrange(0, i as int) =~= scan);
    }
    match populate_conflicting_changes(conflicting_change_paths, conflicts) {
        Ok(mut conflicting) => {
            let ghost first = change_views(changes@);
            let ghost second = change_views(conflicting@);
            changes.append(&mut conflicting);
            assert(change_views(changes@) =~= first + second);
            Ok(changes)
        },
        Err(error) => Err(error),
    }
}

} // verus!
