//! Proof of ownership: whether a directory is still the worktree a capsule
//! created.
//!
//! Everything read from the file system and from Git comes in as a value; what
//! follows from it is decided here.

use vstd::prelude::*;
use vstd::string::*;

use crate::error::{Error, ErrorView};
use crate::git::{Repository, WorktreeRecord, WorktreeView};
use crate::model::Capsule;
use crate::paths::NativePath;
use crate::{error, paths, record, text};

verus! {

/// What was found at a path that may serve as a repository's worktree.
#[derive(Debug, PartialEq, Eq)]
pub struct PathProbe {
    /// Whether something exists there.
    pub exists: bool,
    /// The common directory of the repository there, if there is one.
    pub common_dir: Option<NativePath>,
}

/// What was found at a capsule's recorded common directory.
#[derive(Debug, PartialEq, Eq)]
pub struct CommonDirProbe {
    /// Whether something exists there.
    pub exists: bool,
    /// Its canonical path.
    pub canonical: Result<NativePath, Error>,
}

/// Whether a probe found the capsule's repository.
pub open spec fn finds(probe: PathProbe, capsule: Capsule) -> bool {
    probe.exists && (probe.common_dir matches Some(d) && paths::same(
        d@,
        capsule.repository_common_dir@,
    ))
}

/// The directory from which Git can be run for a capsule's repository: the
/// source worktree, then the workspace, then the common directory, whichever
/// first still belongs to that repository.
pub open spec fn execution_root_of(
    capsule: Capsule,
    source: PathProbe,
    workspace: PathProbe,
    common: CommonDirProbe,
) -> std::result::Result<Seq<u8>, ErrorView> {
    let foreign = ErrorView::ForeignWorktree(capsule.workspace_path@);
    if finds(source, capsule) {
        Ok(capsule.source_worktree@)
    } else if finds(workspace, capsule) {
        Ok(capsule.workspace_path@)
    } else if common.exists {
        match common.canonical {
            Err(e) => Err(e@),
            Ok(p) => if paths::same(p@, capsule.repository_common_dir@) {
                Ok(capsule.repository_common_dir@)
            } else {
                Err(foreign)
            },
        }
    } else {
        Err(foreign)
    }
}

fn probe_finds(probe: &PathProbe, capsule: &Capsule) -> (r: bool)
    ensures
        r == finds(*probe, *capsule),
{
    if !probe.exists {
        return false;
    }
    match &probe.common_dir {
        Some(d) => d.same_path(&capsule.repository_common_dir),
        None => false,
    }
}

/// The error that refuses a workspace.
pub fn foreign(capsule: &Capsule) -> (r: Error)
    ensures
        r@ == ErrorView::ForeignWorktree(capsule.workspace_path@),
{
    Error::ForeignWorktree(capsule.workspace_path.clone())
}

/// Find the directory from which Git can be run; see [`execution_root_of`].
pub fn execution_root(
    capsule: &Capsule,
    source: &PathProbe,
    workspace: &PathProbe,
    common: &CommonDirProbe,
) -> (r: std::result::Result<NativePath, Error>)
    ensures
        match execution_root_of(*capsule, *source, *workspace, *common) {
            Ok(p) => r matches Ok(found) && found@ == p,
            Err(e) => r matches Err(found) && found@ == e,
        },
{
    if probe_finds(source, capsule) {
        return Ok(capsule.source_worktree.clone());
    }
    if probe_finds(workspace, capsule) {
        return Ok(capsule.workspace_path.clone());
    }
    if common.exists {
        match &common.canonical {
            Err(e) => {
                return Err(e.clone());
            },
            Ok(p) => {
                if p.same_path(&capsule.repository_common_dir) {
                    return Ok(capsule.repository_common_dir.clone());
                }
            },
        }
    }
    Err(foreign(capsule))
}

/// A registered worktree, with the canonical form of its path where the path
/// still resolves.
#[derive(Debug, PartialEq, Eq)]
pub struct ListedWorktree {
    /// What Git has registered.
    pub record: WorktreeRecord,
    /// Canonical path, if it resolves.
    pub canonical: Option<NativePath>,
}

/// A path made absolute, where that is possible.
pub open spec fn clean_absolute_of(path: Seq<u8>, current_dir: Option<Seq<u8>>) -> Option<Seq<u8>> {
    if paths::is_absolute(path) {
        Some(path)
    } else {
        match current_dir {
            Some(d) => Some(paths::join_of(d, path)),
            None => None,
        }
    }
}

/// Whether two paths are the same: by their canonical forms where both
/// resolve, otherwise as they are written.
pub open spec fn same_place(
    left: Seq<u8>,
    left_canonical: Option<Seq<u8>>,
    right: Seq<u8>,
    right_canonical: Option<Seq<u8>>,
    current_dir: Option<Seq<u8>>,
) -> bool {
    match (left_canonical, right_canonical) {
        (Some(l), Some(r)) => paths::same(l, r),
        _ => match (clean_absolute_of(left, current_dir), clean_absolute_of(right, current_dir)) {
            (Some(l), Some(r)) => paths::same(l, r),
            (None, None) => true,
            _ => false,
        },
    }
}

fn clean_absolute(path: &NativePath, current_dir: &Option<NativePath>) -> (r: Option<NativePath>)
    ensures
        record::opt_view(r) == clean_absolute_of(path@, record::opt_view(*current_dir)),
{
    if path.is_absolute() {
        Some(path.clone())
    } else {
        match current_dir {
            Some(d) => Some(d.join_path(path)),
            None => None,
        }
    }
}

/// Test for [`same_place`].
pub fn same_path_existing_or_clean(
    left: &NativePath,
    left_canonical: &Option<NativePath>,
    right: &NativePath,
    right_canonical: &Option<NativePath>,
    current_dir: &Option<NativePath>,
) -> (r: bool)
    ensures
        r == same_place(
            left@,
            record::opt_view(*left_canonical),
            right@,
            record::opt_view(*right_canonical),
            record::opt_view(*current_dir),
        ),
{
    match (left_canonical, right_canonical) {
        (Some(l), Some(r)) => l.same_path(r),
        _ => match (clean_absolute(left, current_dir), clean_absolute(right, current_dir)) {
            (Some(l), Some(r)) => l.same_path(&r),
            (None, None) => true,
            _ => false,
        },
    }
}

/// Whether a listed worktree is at a given place.
pub open spec fn listed_at(
    listed: ListedWorktree,
    path: Seq<u8>,
    canonical: Option<Seq<u8>>,
    current_dir: Option<Seq<u8>>,
) -> bool {
    same_place(
        listed.record.path@,
        record::opt_view(listed.canonical),
        path,
        canonical,
        current_dir,
    )
}

/// Whether a record is that of the first worktree listed at a place, or absent
/// where none is.
pub open spec fn is_first_listed(
    r: Option<WorktreeRecord>,
    listed: Seq<ListedWorktree>,
    path: Seq<u8>,
    canonical: Option<Seq<u8>>,
    current_dir: Option<Seq<u8>>,
) -> bool {
    match r {
        Some(found) => exists|i: int|
            0 <= i < listed.len() && found == (#[trigger] listed[i]).record && listed_at(
                listed[i],
                path,
                canonical,
                current_dir,
            ) && none_listed(listed.take(i), path, canonical, current_dir),
        None => none_listed(listed, path, canonical, current_dir),
    }
}

/// Whether no worktree of a row is at a place.
pub open spec fn none_listed(
    listed: Seq<ListedWorktree>,
    path: Seq<u8>,
    canonical: Option<Seq<u8>>,
    current_dir: Option<Seq<u8>>,
) -> bool {
    forall|j: int|
        0 <= j < listed.len() ==> !listed_at(#[trigger] listed[j], path, canonical, current_dir)
}

/// The registered worktree at a capsule's workspace: the first one listed
/// there, if any.
pub fn registered_record(
    capsule: &Capsule,
    canonical_workspace: &Option<NativePath>,
    current_dir: &Option<NativePath>,
    listed: Vec<ListedWorktree>,
) -> (r: Option<WorktreeRecord>)
    ensures
        is_first_listed(
            r,
            listed@,
            capsule.workspace_path@,
            record::opt_view(*canonical_workspace),
            record::opt_view(*current_dir),
        ),
        match r {
            Some(found) => exists|i: int|
                0 <= i < listed@.len() && found == (#[trigger] listed@[i]).record && listed_at(
                    listed@[i],
                    capsule.workspace_path@,
                    record::opt_view(*canonical_workspace),
                    record::opt_view(*current_dir),
                ) && forall|j: int|
                    0 <= j < i ==> !listed_at(
                        #[trigger] listed@[j],
                        capsule.workspace_path@,
                        record::opt_view(*canonical_workspace),
                        record::opt_view(*current_dir),
                    ),
            None => forall|j: int|
                0 <= j < listed@.len() ==> !listed_at(
                    #[trigger] listed@[j],
                    capsule.workspace_path@,
                    record::opt_view(*canonical_workspace),
                    record::opt_view(*current_dir),
                ),
        },
{
    let ghost all = listed@;
    let mut rest = listed;
    let mut index: usize = 0;
    let mut found: bool = false;
    while index < rest.len() && !found
        invariant
            index <= rest.len(),
            rest@ == all,
            forall|j: int|
                0 <= j < index ==> !listed_at(
                    #[trigger] all[j],
                    capsule.workspace_path@,
                    record::opt_view(*canonical_workspace),
                    record::opt_view(*current_dir),
                ),
            found ==> index < rest.len() && listed_at(
                all[index as int],
                capsule.workspace_path@,
                record::opt_view(*canonical_workspace),
                record::opt_view(*current_dir),
            ),
        decreases rest.len() - index + (if found {
            0int
        } else {
            1int
        }),
    {
        if same_path_existing_or_clean(
            &rest[index].record.path,
            &rest[index].canonical,
            &capsule.workspace_path,
            canonical_workspace,
            current_dir,
        ) {
            found = true;
        } else {
            index += 1;
        }
    }
    if found {
        let entry = rest.swap_remove(index);
        proof {
            assert(entry == all[index as int]);
        }
        Some(entry.record)
    } else {
        None
    }
}

/// Whether some listed worktree has a branch checked out or is at a capsule's
/// workspace.
pub open spec fn already_registered(
    capsule: Capsule,
    canonical_workspace: Option<Seq<u8>>,
    current_dir: Option<Seq<u8>>,
    listed: Seq<ListedWorktree>,
) -> bool {
    exists|i: int|
        0 <= i < listed.len() && (text::opt_view((#[trigger] listed[i]).record.branch) == Some(
            capsule.branch@,
        ) || listed_at(listed[i], capsule.workspace_path@, canonical_workspace, current_dir))
}

/// Test for [`already_registered`].
pub fn is_already_registered(
    capsule: &Capsule,
    canonical_workspace: &Option<NativePath>,
    current_dir: &Option<NativePath>,
    listed: &Vec<ListedWorktree>,
) -> (r: bool)
    ensures
        r == already_registered(
            *capsule,
            record::opt_view(*canonical_workspace),
            record::opt_view(*current_dir),
            listed@,
        ),
{
    let mut i: usize = 0;
    while i < listed.len()
        invariant
            i <= listed.len(),
            forall|j: int|
                0 <= j < i ==> !(text::opt_view((#[trigger] listed@[j]).record.branch) == Some(
                    capsule.branch@,
                ) || listed_at(
                    listed@[j],
                    capsule.workspace_path@,
                    record::opt_view(*canonical_workspace),
                    record::opt_view(*current_dir),
                )),
        decreases listed.len() - i,
    {
        let on_branch = match &listed[i].record.branch {
            Some(b) => text::same_text(b.as_str(), capsule.branch.as_str()),
            None => false,
        };
        if on_branch || same_path_existing_or_clean(
            &listed[i].record.path,
            &listed[i].canonical,
            &capsule.workspace_path,
            canonical_workspace,
            current_dir,
        ) {
            assert(text::opt_view(listed@[i as int].record.branch) == Some(capsule.branch@)
                || listed_at(
                listed@[i as int],
                capsule.workspace_path@,
                record::opt_view(*canonical_workspace),
                record::opt_view(*current_dir),
            ));
            return true;
        }
        i += 1;
    }
    false
}

/// Whether a registered worktree is the one a capsule created: on its branch,
/// not bare, and at the expected `HEAD`.
pub open spec fn is_registered_as(
    capsule: Capsule,
    found: WorktreeView,
    expected_head: Option<Seq<char>>,
) -> bool {
    found.branch == Some(capsule.branch@) && !found.bare && found.head == expected_head
}

/// What a check of a registered worktree says.
pub open spec fn registration_check(
    capsule: Capsule,
    found: WorktreeView,
    expected_head: Option<Seq<char>>,
) -> std::result::Result<(), ErrorView> {
    if is_registered_as(capsule, found, expected_head) {
        Ok(())
    } else {
        Err(ErrorView::ForeignWorktree(capsule.workspace_path@))
    }
}

/// Refuse a registered worktree that is not the one the capsule created.
pub fn validate_registered_record(
    capsule: &Capsule,
    found: &WorktreeRecord,
    expected_head: &Option<String>,
) -> (r: std::result::Result<(), Error>)
    ensures
        error::outcome(r) == registration_check(*capsule, found@, text::opt_view(*expected_head)),
{
    let on_branch = match &found.branch {
        Some(b) => text::same_text(b.as_str(), capsule.branch.as_str()),
        None => false,
    };
    if !on_branch || found.bare || !text::same_opt_text(&found.head, expected_head) {
        return Err(foreign(capsule));
    }
    Ok(())
}

/// Everything that was read to decide whether a workspace is still the
/// capsule's own.
#[derive(Debug, PartialEq, Eq)]
pub struct WorktreeInspection {
    /// The repository found at the workspace path.
    pub repository: Result<Repository, Error>,
    /// The canonical workspace path.
    pub canonical_workspace: Result<NativePath, Error>,
    /// The branch checked out there.
    pub branch: Result<String, Error>,
    /// The registered worktree at that path, if any.
    pub registered: Result<Option<WorktreeRecord>, Error>,
    /// The `HEAD` commit there.
    pub head: Result<String, Error>,
}

/// Whether the repository at a workspace is the capsule's, and its Git
/// directory the one recorded.
pub open spec fn is_own_repository(capsule: Capsule, found: Repository) -> bool {
    &&& paths::same(found.common_dir@, capsule.repository_common_dir@)
    &&& capsule.workspace_git_dir matches Some(d) && paths::same(d@, found.git_dir@)
}

/// What a check of a workspace's ownership says.
pub open spec fn ownership_check(
    capsule: Capsule,
    inspection: WorktreeInspection,
) -> std::result::Result<(), ErrorView> {
    let foreign = ErrorView::ForeignWorktree(capsule.workspace_path@);
    match inspection.repository {
        Err(_) => Err(foreign),
        Ok(repository) => if !is_own_repository(capsule, repository) {
            Err(foreign)
        } else {
            match inspection.canonical_workspace {
                Err(e) => Err(e@),
                Ok(canonical) => if !paths::same(repository.worktree@, canonical@) {
                    Err(foreign)
                } else {
                    match inspection.branch {
                        Err(e) => Err(e@),
                        Ok(branch) => if branch@ != capsule.branch@ {
                            Err(foreign)
                        } else {
                            match inspection.registered {
                                Err(e) => Err(e@),
                                Ok(None) => Err(foreign),
                                Ok(Some(found)) => match inspection.head {
                                    Err(e) => Err(e@),
                                    Ok(head) => registration_check(
                                        capsule,
                                        found@,
                                        Some(head@),
                                    ),
                                },
                            }
                        },
                    }
                },
            }
        },
    }
}

/// Refuse a workspace that no longer proves it is the worktree the capsule
/// created.
pub fn validate_owned_worktree(capsule: &Capsule, inspection: &WorktreeInspection) -> (r:
    std::result::Result<(), Error>)
    ensures
        error::outcome(r) == ownership_check(*capsule, *inspection),
{
    let repository = match &inspection.repository {
        Err(_) => {
            return Err(foreign(capsule));
        },
        Ok(r) => r,
    };
    let own_git_dir = match &capsule.workspace_git_dir {
        Some(d) => d.same_path(&repository.git_dir),
        None => false,
    };
    if !repository.common_dir.same_path(&capsule.repository_common_dir) || !own_git_dir {
        return Err(foreign(capsule));
    }
    match &inspection.canonical_workspace {
        Err(e) => {
            return Err(e.clone());
        },
        Ok(canonical) => {
            if !repository.worktree.same_path(canonical) {
                return Err(foreign(capsule));
            }
        },
    }
    match &inspection.branch {
        Err(e) => {
            return Err(e.clone());
        },
        Ok(branch) => {
            if !text::same_text(branch.as_str(), capsule.branch.as_str()) {
                return Err(foreign(capsule));
            }
        },
    }
    let found = match &inspection.registered {
        Err(e) => {
            return Err(e.clone());
        },
        Ok(None) => {
            return Err(foreign(capsule));
        },
        Ok(Some(found)) => found,
    };
    match &inspection.head {
        Err(e) => Err(e.clone()),
        Ok(head) => validate_registered_record(capsule, found, &Some(head.clone())),
    }
}

} // verus!
