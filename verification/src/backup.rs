//! Copying durable state: manifests, results, patches, and the policy.
//!
//! Live workspaces, locks, and Git object databases are left out.

use vstd::prelude::*;
use vstd::utf8::*;

use crate::error::{Error, ErrorView};
use crate::manager::CapsuleManager;
use crate::model::BackupReport;
use crate::paths::NativePath;
use crate::record::Record;
use crate::{bytes, metrics, paths, record, text};

verus! {

/// A file found below the state root.
#[derive(Debug, PartialEq, Eq)]
pub struct StateFile {
    /// Its path relative to the state root.
    pub path: NativePath,
    /// Its size.
    pub bytes: u64,
}

/// What a [`StateFile`] holds.
pub struct StateFileView {
    pub path: Seq<u8>,
    pub bytes: u64,
}

impl View for StateFile {
    type V = StateFileView;

    open spec fn view(&self) -> StateFileView {
        StateFileView { path: self.path@, bytes: self.bytes }
    }
}

impl Record for StateFile {
    fn same(&self, other: &Self) -> (r: bool) {
        self.path.same(&other.path) && self.bytes == other.bytes
    }

    fn copy(&self) -> (r: Self) {
        StateFile { path: self.path.clone(), bytes: self.bytes }
    }
}

/// Whether a name is one that a capsule's record stores a document under.
pub open spec fn is_document(name: Seq<u8>) -> bool {
    name == encode_utf8("capsule.json"@) || name == encode_utf8("result.json"@) || name
        == encode_utf8("result.patch"@)
}

/// Whether a path below the state root is durable state: the policy, or a
/// manifest, result, or patch in the directory of a record. What the document
/// holds does not matter, so records of another schema version are included.
pub open spec fn is_durable(path: Seq<u8>) -> bool {
    let parts = paths::components(path);
    (parts.len() == 1 && parts[0] == encode_utf8("policy.json"@)) || (parts.len() == 3 && parts[0]
        == encode_utf8("capsules"@) && is_document(parts[2]))
}

fn durable(path: &NativePath) -> (r: bool)
    ensures
        r == is_durable(path@),
{
    let parts = path.components();
    proof {
        assert(bytes::views(parts@).len() == parts@.len());
    }
    if parts.len() == 1 {
        proof {
            assert(paths::components(path@)[0] == parts@[0]@);
        }
        return bytes::same_bytes(parts[0].as_slice(), "policy.json".as_bytes());
    }
    if parts.len() != 3 {
        return false;
    }
    proof {
        assert(paths::components(path@)[0] == parts@[0]@);
        assert(paths::components(path@)[2] == parts@[2]@);
    }
    bytes::same_bytes(parts[0].as_slice(), "capsules".as_bytes()) && (bytes::same_bytes(
        parts[2].as_slice(),
        "capsule.json".as_bytes(),
    ) || bytes::same_bytes(parts[2].as_slice(), "result.json".as_bytes()) || bytes::same_bytes(
        parts[2].as_slice(),
        "result.patch".as_bytes(),
    ))
}

/// The durable files of a row, in the order found.
pub open spec fn durable_of(found: Seq<StateFileView>) -> Seq<StateFileView>
    decreases found.len(),
{
    if found.len() == 0 {
        found
    } else {
        let before = durable_of(found.drop_last());
        if is_durable(found.last().path) {
            before.push(found.last())
        } else {
            before
        }
    }
}

/// The size of a row of files.
pub open spec fn size_of(rows: Seq<StateFileView>) -> u64
    decreases rows.len(),
{
    if rows.len() == 0 {
        0
    } else {
        metrics::saturated(size_of(rows.drop_last()), rows.last().bytes)
    }
}

/// A backup to be written: every file listed, then a completion marker.
#[derive(Debug, PartialEq, Eq)]
pub struct BackupPlan {
    /// What to copy, by path relative to the state root.
    pub files: Vec<StateFile>,
    /// What the backup amounts to.
    pub report: BackupReport,
}

/// What the reads before a backup say, in order: where it goes, and what there
/// is to copy.
pub open spec fn backup_check(
    root: Seq<u8>,
    requested: Seq<u8>,
    normalized: std::result::Result<Option<NativePath>, Error>,
    present: std::result::Result<bool, Error>,
    found: std::result::Result<Vec<StateFile>, Error>,
) -> std::result::Result<(), ErrorView> {
    match normalized {
        Err(e) => Err(e@),
        Ok(None) => Err(
            ErrorView::InvalidInput(
                "destination must name a new directory: "@ + paths::display_of(requested),
            ),
        ),
        Ok(Some(p)) => if paths::is_within(p@, root) {
            Err(
                ErrorView::InvalidInput(
                    "destination must be outside managed state: "@ + paths::display_of(requested),
                ),
            )
        } else {
            match present {
                Err(e) => Err(e@),
                Ok(true) => Err(
                    ErrorView::InvalidInput(
                        "backup destination already exists: "@ + paths::display_of(p@),
                    ),
                ),
                Ok(false) => match found {
                    Err(e) => Err(e@),
                    Ok(_) => Ok(()),
                },
            }
        },
    }
}

fn choose_durable(found: &Vec<StateFile>) -> (r: Vec<StateFile>)
    ensures
        record::views(r@) == durable_of(record::views(found@)),
        r@.len() <= found@.len(),
{
    let ghost all = record::views(found@);
    let mut r: Vec<StateFile> = Vec::new();
    let mut i: usize = 0;
    proof {
        assert(record::views(r@) =~= durable_of(all.take(0)));
    }
    while i < found.len()
        invariant
            i <= found.len(),
            all == record::views(found@),
            record::views(r@) == durable_of(all.take(i as int)),
            r@.len() <= i,
        decreases found.len() - i,
    {
        proof {
            assert(all.take(i + 1).drop_last() =~= all.take(i as int));
            assert(all.take(i + 1).last() == found@[i as int]@);
        }
        if durable(&found[i].path) {
            let ghost before = r@;
            let copy = found[i].copy();
            let ghost v = copy@;
            r.push(copy);
            proof {
                assert(record::views(r@) =~= record::views(before).push(v));
            }
        }
        i += 1;
    }
    proof {
        assert(all.take(all.len() as int) =~= all);
    }
    r
}

fn total_size(rows: &Vec<StateFile>) -> (r: u64)
    ensures
        r == size_of(record::views(rows@)),
{
    let ghost all = record::views(rows@);
    let mut total: u64 = 0;
    let mut i: usize = 0;
    while i < rows.len()
        invariant
            i <= rows.len(),
            all == record::views(rows@),
            total == size_of(all.take(i as int)),
        decreases rows.len() - i,
    {
        proof {
            assert(all.take(i + 1).drop_last() =~= all.take(i as int));
            assert(all.take(i + 1).last() == rows@[i as int]@);
        }
        total = metrics::saturate(total, rows[i].bytes);
        i += 1;
    }
    proof {
        assert(all.take(all.len() as int) =~= all);
    }
    total
}

impl CapsuleManager {
    /// Plan a copy of the durable state to a new directory outside it.
    ///
    /// `normalized` is the canonical parent of the requested path joined with
    /// its name, or absent where it names no new directory; `present` says
    /// whether anything is there; `found` lists the files below the state root.
    pub fn backup_state(
        &self,
        requested: &NativePath,
        normalized: std::result::Result<Option<NativePath>, Error>,
        present: std::result::Result<bool, Error>,
        found: std::result::Result<Vec<StateFile>, Error>,
    ) -> (r: std::result::Result<BackupPlan, Error>)
        ensures
            match backup_check(self.store.root@, requested@, normalized, present, found) {
                Err(e) => r matches Err(shown) && shown@ == e,
                Ok(_) => r matches Ok(plan) && record::views(plan.files@) == durable_of(
                    record::views(found->Ok_0@),
                ) && plan.report.source@ == self.store.root@ && plan.report.destination
                    == normalized->Ok_0->0 && plan.report.files == plan.files@.len()
                    && plan.report.bytes == size_of(record::views(plan.files@)),
            },
    {
        let normalized = match normalized {
            Err(e) => {
                return Err(e);
            },
            Ok(p) => p,
        };
        let destination = match self.store.external_destination(requested, normalized) {
            Err(e) => {
                return Err(e);
            },
            Ok(p) => p,
        };
        match present {
            Err(e) => {
                return Err(e);
            },
            Ok(there) => {
                if there {
                    return Err(
                        Error::InvalidInput(
                            text::cat2(
                                "backup destination already exists: ",
                                destination.display().as_str(),
                            ),
                        ),
                    );
                }
            },
        }
        let found = match found {
            Err(e) => {
                return Err(e);
            },
            Ok(rows) => rows,
        };
        let files = choose_durable(&found);
        let count: u64 = files.len() as u64;
        let total: u64 = total_size(&files);
        Ok(
            BackupPlan {
                files,
                report: BackupReport {
                    source: self.store.root.clone(),
                    destination,
                    files: count,
                    bytes: total,
                },
            },
        )
    }
}

/// A backup holds every durable file that was found, and nothing else.
pub proof fn law_backup_is_complete(found: Seq<StateFileView>, file: StateFileView)
    ensures
        durable_of(found).contains(file) <==> found.contains(file) && is_durable(file.path),
    decreases found.len(),
{
    if found.len() > 0 {
        let rest = found.drop_last();
        let before = durable_of(rest);
        law_backup_is_complete(rest, file);
        assert(found =~= rest.push(found.last()));
        if found.contains(file) {
            let i = choose|i: int| 0 <= i < found.len() && found[i] == file;
            if i < rest.len() {
                assert(rest[i] == file);
            }
        }
        if rest.contains(file) {
            let i = choose|i: int| 0 <= i < rest.len() && rest[i] == file;
            assert(found[i] == file);
        }
        if is_durable(found.last().path) {
            let all = before.push(found.last());
            assert(all.last() == found.last());
            if before.contains(file) {
                let i = choose|i: int| 0 <= i < before.len() && before[i] == file;
                assert(all[i] == file);
            }
            if all.contains(file) {
                let i = choose|i: int| 0 <= i < all.len() && all[i] == file;
                if i < before.len() {
                    assert(before[i] == file);
                }
            }
            assert(found[found.len() - 1] == found.last());
        }
    }
}

} // verus!
