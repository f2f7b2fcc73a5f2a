//! The current branch, the branch it follows, and how far the two are apart.

use crate::index::Oid;
use vstd::prelude::*;

verus! {

/// The branch that is checked out.
#[derive(Clone, Debug, PartialEq, Eq)]
pub struct LocalBranch {
    pub name: String,
    pub object_id: Oid,
}

/// How many commits the local branch has that its upstream lacks, and the
/// other way round.
#[derive(Clone, Copy, Debug, PartialEq, Eq)]
pub struct UpstreamCommitsDiff {
    pub ahead: usize,
    pub behind: usize,
}

/// Where the fetch of the upstream stands.
#[derive(Clone, Copy, Debug, PartialEq, Eq)]
pub enum FetchStatus {
    /// A fetch is under way.
    Fetching,
    /// The last fetch came back, with this difference.
    Complete(UpstreamCommitsDiff),
    /// The last fetch failed.
    Failed,
}

/// The branch that the current branch follows.
#[derive(Clone, Debug, PartialEq, Eq)]
pub struct UpstreamBranch {
    /// The name of the branch on its remote.
    pub name: String,
    /// The name of the remote.
    pub remote_name: String,
    /// The remote's name, a slash, and the branch's name.
    pub full_name: String,
    pub object_id: Oid,
    /// The difference that was last found.
    pub commits_diff: UpstreamCommitsDiff,
    pub fetch_status: FetchStatus,
}

/// The character that parts the name of a remote from that of its branch.
pub const SEPARATOR: char = '/';

/// Whether `remote` and `name` are what stands before and after the first
/// slash of `full_name`.
pub open spec fn splits_at_first_slash(
    full_name: Seq<char>,
    remote: Seq<char>,
    name: Seq<char>,
) -> bool {
    &&& full_name == remote + seq![SEPARATOR] + name
    &&& !remote.contains(SEPARATOR)
}

/// The names of the remote and of the branch in the full name of an
/// upstream branch: what stands before its first slash, and what stands
/// after it. A full name without a slash names no remote.
pub fn split_upstream_name(full_name: &str) -> (parts: Option<(String, String)>)
    ensures
        match parts {
            Some((remote_name, name)) => splits_at_first_slash(full_name@, remote_name@, name@),
            None => !full_name@.contains(SEPARATOR),
        },
{
    let length = full_name.unicode_len();
    let mut i: usize = 0;
    while i < length
        invariant
            i <= length,
            length == full_name@.len(),
            forall|j: int| 0 <= j < i ==> full_name@[j] != SEPARATOR,
        decreases length - i,
    {
        if full_name.get_char(i) == SEPARATOR {
            let remote_name = full_name.substring_char(0, i).to_owned();
            let name = full_name.substring_char(i + 1, length).to_owned();
            proof {
                assert(full_name@ =~= remote_name@ + seq![SEPARATOR] + name@);
            }
            return Some((remote_name, name));
        }
        i = i + 1;
    }
    None
}

impl UpstreamBranch {
    /// The upstream branch with the given full name, while its first fetch
    /// is under way. There is none where the full name names no remote.
    pub fn new(full_name: String, object_id: Oid, commits_diff: UpstreamCommitsDiff) -> (upstream:
        Option<UpstreamBranch>)
        ensures
            match upstream {
                Some(branch) => {
                    &&& splits_at_first_slash(full_name@, branch.remote_name@, branch.name@)
                    &&& branch.full_name == full_name
                    &&& branch.object_id == object_id
                    &&& branch.commits_diff == commits_diff
                    &&& branch.fetch_status == FetchStatus::Fetching
                },
                None => !full_name@.contains(SEPARATOR),
            },
    {
        match split_upstream_name(full_name.as_str()) {
            Some((remote_name, name)) => Some(
                UpstreamBranch {
                    name,
                    remote_name,
                    full_name,
                    object_id,
                    commits_diff,
                    fetch_status: FetchStatus::Fetching,
                },
            ),
            None => None,
        }
    }

    /// Takes note that a fetch came back with `commits_diff`.
    pub fn fetch_completed(&mut self, commits_diff: UpstreamCommitsDiff)
        ensures
            *final(self) == (UpstreamBranch {
                commits_diff,
                fetch_status: FetchStatus::Complete(commits_diff),
                ..*old(self)
            }),
    {
        self.commits_diff = commits_diff;
        self.fetch_status = FetchStatus::Complete(commits_diff);
    }

    /// Takes note that a fetch failed.
    pub fn fetch_failed(&mut self)
        ensures
            *final(self) == (UpstreamBranch { fetch_status: FetchStatus::Failed, ..*old(self) }),
    {
        self.fetch_status = FetchStatus::Failed;
    }

    /// Starts a fetch unless one is under way, and says whether it did.
    pub fn begin_fetch(&mut self) -> (started: bool)
        ensures
            started == (old(self).fetch_status != FetchStatus::Fetching),
            *final(self) == (UpstreamBranch { fetch_status: FetchStatus::Fetching, ..*old(self) }),
    {
        match self.fetch_status {
            FetchStatus::Fetching => false,
            _ => {
                self.fetch_status = FetchStatus::Fetching;
                true
            },
        }
    }
}

} // verus!
