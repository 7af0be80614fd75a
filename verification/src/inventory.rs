//! The structural inventory of ignored content at close time.
//!
//! Ignored files are left out of a patch, but what was there is recorded: how
//! many bytes, and one digest over every path, kind, and content. The tree is
//! walked by asking for one path after another; each answer is taken in here.

use vstd::prelude::*;
use vstd::string::*;
use vstd::utf8::*;

use crate::error::{Error, ErrorView};
use crate::files::FileName;
use crate::git_path::{GitPath, GitPathView};
use crate::paths::NativePath;
use crate::record::Record;
use crate::{bytes, digest, error, git_path, order, paths, record, text};

verus! {

/// What the ignored content of a workspace amounts to.
#[derive(Debug, PartialEq, Eq)]
pub struct IgnoredContentInventory {
    /// The ignored paths, as Git reported them.
    pub paths: Vec<GitPath>,
    /// Total bytes.
    pub bytes: u64,
    /// Digest over every path, kind, and content.
    pub content_sha256: String,
}

/// What an [`IgnoredContentInventory`] holds.
pub struct InventoryView {
    pub paths: Seq<GitPathView>,
    pub bytes: u64,
    pub content_sha256: Seq<char>,
}

impl View for IgnoredContentInventory {
    type V = InventoryView;

    open spec fn view(&self) -> InventoryView {
        InventoryView {
            paths: record::views(self.paths@),
            bytes: self.bytes,
            content_sha256: self.content_sha256@,
        }
    }
}

impl Record for IgnoredContentInventory {
    fn same(&self, other: &Self) -> (r: bool) {
        record::same_rows(&self.paths, &other.paths) && self.bytes == other.bytes
            && text::same_text(self.content_sha256.as_str(), other.content_sha256.as_str())
    }

    fn copy(&self) -> (r: Self) {
        IgnoredContentInventory {
            paths: record::copy_rows(&self.paths),
            bytes: self.bytes,
            content_sha256: self.content_sha256.clone(),
        }
    }
}

/// A file as it was read through an open handle.
#[derive(Debug, PartialEq, Eq)]
pub struct OpenedFile {
    /// Whether the handle is a regular file.
    pub regular: bool,
    /// Its size when it was opened.
    pub size: u64,
    /// Everything that could be read.
    pub content: Result<Vec<u8>, Error>,
    /// Its size after everything was read.
    pub size_after: Result<u64, Error>,
}

/// What was found at an ignored path.
#[derive(Debug, PartialEq, Eq)]
pub enum IgnoredEntry {
    /// A symbolic link.
    Link {
        /// Where it points.
        target: Result<NativePath, Error>,
        /// Its size.
        size: u64,
    },
    /// A regular file.
    File {
        /// Its size before it was opened.
        listed: u64,
        /// What opening it gave.
        opened: Result<OpenedFile, Error>,
    },
    /// A directory.
    Directory {
        /// The names of its entries.
        entries: Result<Vec<FileName>, Error>,
    },
    /// Anything else.
    Special,
}

/// A path in a field of the inventory: the field's name, then the path, each
/// preceded by its length.
pub open spec fn native_field(field: Seq<char>, path: Seq<u8>) -> Seq<u8> {
    bytes::framed(encode_utf8(field)) + encode_utf8("unix-bytes"@) + bytes::framed(path)
}

fn push_native_field(out: &mut Vec<u8>, field: &str, path: &NativePath)
    ensures
        final(out)@ == old(out)@ + native_field(field@, path@),
{
    let ghost before = out@;
    bytes::push_framed(out, field.as_bytes());
    bytes::push_bytes(out, "unix-bytes".as_bytes());
    bytes::push_framed(out, path.bytes.as_slice());
    proof {
        assert(out@ =~= before + native_field(field@, path@));
    }
}

/// The error for a file that did not hold still.
pub open spec fn changed_error(path: Seq<u8>) -> ErrorView {
    ErrorView::UnsafeState(
        "ignored file changed while it was inspected: "@ + paths::display_of(path),
    )
}

fn changed(path: &NativePath) -> (r: Error)
    ensures
        r@ == changed_error(path@),
{
    Error::UnsafeState(
        text::cat2("ignored file changed while it was inspected: ", path.display().as_str()),
    )
}

/// What a check of a file that was read says.
pub open spec fn file_check(path: Seq<u8>, listed: u64, opened: std::result::Result<OpenedFile, Error>) -> std::result::Result<
    Seq<u8>,
    ErrorView,
> {
    match opened {
        Err(e) => Err(e@),
        Ok(file) => if !file.regular || file.size != listed {
            Err(changed_error(path))
        } else {
            match file.content {
                Err(e) => Err(e@),
                Ok(content) => if content@.len() != file.size {
                    Err(changed_error(path))
                } else {
                    match file.size_after {
                        Err(e) => Err(e@),
                        Ok(after) => if after != file.size {
                            Err(changed_error(path))
                        } else {
                            Ok(content@)
                        },
                    }
                },
            }
        },
    }
}

fn check_file(path: &NativePath, listed: u64, opened: std::result::Result<OpenedFile, Error>) -> (r:
    std::result::Result<Vec<u8>, Error>)
    ensures
        match file_check(path@, listed, opened) {
            Ok(content) => r matches Ok(found) && found@ == content,
            Err(e) => r matches Err(found) && found@ == e,
        },
{
    let file = match opened {
        Err(e) => {
            return Err(e);
        },
        Ok(file) => file,
    };
    if !file.regular || file.size != listed {
        return Err(changed(path));
    }
    let content = match file.content {
        Err(e) => {
            return Err(e);
        },
        Ok(content) => content,
    };
    if content.len() as u64 != file.size {
        return Err(changed(path));
    }
    match file.size_after {
        Err(e) => Err(e),
        Ok(after) => if after != file.size {
            Err(changed(path))
        } else {
            Ok(content)
        },
    }
}

/// An inventory being taken.
#[derive(Debug, PartialEq, Eq)]
pub struct InventoryRun {
    /// The ignored paths, as Git reported them.
    pub roots: Vec<GitPath>,
    /// How many of them were begun.
    pub begun: usize,
    /// Paths still to be looked at below the current one, the next one last.
    pub pending: Vec<NativePath>,
    /// Every path that was looked at.
    pub seen: Vec<NativePath>,
    /// Total bytes so far.
    pub total: u64,
    /// The bytes that the digest covers so far.
    pub preimage: Vec<u8>,
}

/// Whether a path was looked at.
pub open spec fn was_seen(seen: Seq<Seq<u8>>, path: Seq<u8>) -> bool {
    exists|i: int| 0 <= i < seen.len() && paths::same(#[trigger] seen[i], path)
}

/// Pending paths without those at the end that were looked at.
pub open spec fn unseen_end(pending: Seq<Seq<u8>>, seen: Seq<Seq<u8>>) -> Seq<Seq<u8>>
    decreases pending.len(),
{
    if pending.len() > 0 && was_seen(seen, pending.last()) {
        unseen_end(pending.drop_last(), seen)
    } else {
        pending
    }
}

/// What is to be looked at next.
pub enum NextView {
    /// A path, with what then is pending and how many roots are begun.
    Path(Seq<u8>, Seq<Seq<u8>>, nat),
    /// Nothing is left.
    Done,
    /// A root cannot be looked at.
    Fail(ErrorView),
}

/// What is to be looked at next among roots from `begun` on.
pub open spec fn next_root(roots: Seq<GitPathView>, begun: nat, seen: Seq<Seq<u8>>) -> NextView
    decreases roots.len() - begun,
{
    if begun >= roots.len() {
        NextView::Done
    } else {
        match git_path::ignored_relative_of(roots[begun as int]) {
            Err(e) => NextView::Fail(e),
            Ok(p) => if was_seen(seen, p) {
                next_root(roots, begun + 1, seen)
            } else {
                NextView::Path(p, Seq::empty(), begun + 1)
            },
        }
    }
}

/// What is to be looked at next.
pub open spec fn next_of(
    roots: Seq<GitPathView>,
    begun: nat,
    pending: Seq<Seq<u8>>,
    seen: Seq<Seq<u8>>,
) -> NextView {
    let rest = unseen_end(pending, seen);
    if rest.len() > 0 {
        NextView::Path(rest.last(), rest.drop_last(), begun)
    } else {
        next_root(roots, begun, seen)
    }
}

fn is_seen(seen: &Vec<NativePath>, path: &NativePath) -> (r: bool)
    ensures
        r == was_seen(record::views(seen@), path@),
{
    let ghost all = record::views(seen@);
    let mut i: usize = 0;
    while i < seen.len()
        invariant
            i <= seen.len(),
            all == record::views(seen@),
            forall|j: int| 0 <= j < i ==> !paths::same(#[trigger] all[j], path@),
        decreases seen.len() - i,
    {
        assert(all[i as int] == seen@[i as int]@);
        if seen[i].same_path(path) {
            return true;
        }
        i += 1;
    }
    false
}

fn drop_seen(pending: &mut Vec<NativePath>, seen: &Vec<NativePath>)
    ensures
        record::views(final(pending)@) == unseen_end(
            record::views(old(pending)@),
            record::views(seen@),
        ),
{
    let ghost all = record::views(pending@);
    let mut done = false;
    while !done
        invariant
            unseen_end(record::views(pending@), record::views(seen@)) == unseen_end(
                all,
                record::views(seen@),
            ),
            done ==> record::views(pending@) == unseen_end(
                record::views(pending@),
                record::views(seen@),
            ),
        decreases pending@.len() + (if done {
            0nat
        } else {
            1nat
        }),
    {
        let n = pending.len();
        if n == 0 {
            done = true;
        } else if is_seen(seen, &pending[n - 1]) {
            let ghost before = record::views(pending@);
            proof {
                assert(before.last() == pending@[n - 1]@);
            }
            let _ = pending.pop();
            proof {
                assert(record::views(pending@) =~= before.drop_last());
            }
        } else {
            proof {
                assert(record::views(pending@).last() == pending@[n - 1]@);
            }
            done = true;
        }
    }
}

/// The names of a directory as paths below it, in reverse order of name: the
/// first name is looked at first.
pub open spec fn children_of(relative: Seq<u8>, names: Seq<FileName>) -> Seq<Seq<u8>> {
    order::sorted(names).reverse().map_values(
        |n: FileName| paths::join_of(relative, n.bytes@),
    )
}

fn push_children(pending: &mut Vec<NativePath>, relative: &NativePath, names: Vec<FileName>)
    ensures
        record::views(final(pending)@) == record::views(old(pending)@) + children_of(
            relative@,
            names@,
        ),
{
    let ghost start = record::views(pending@);
    let ghost wanted = children_of(relative@, names@);
    let rows = order::sort(names);
    let ghost all = rows@;
    let mut todo = rows;
    let ghost mut done: nat = 0;
    proof {
        assert(wanted.len() == all.len());
        assert(record::views(pending@) =~= start + wanted.take(0));
        assert(all.take(all.len() as int) =~= all);
    }
    while todo.len() > 0
        invariant
            done + todo@.len() == all.len(),
            todo@ == all.take(todo@.len() as int),
            wanted == all.reverse().map_values(|n: FileName| paths::join_of(relative@, n.bytes@)),
            wanted.len() == all.len(),
            record::views(pending@) == start + wanted.take(done as int),
        decreases todo.len(),
    {
        let ghost n = todo@.len() as int;
        let ghost before = record::views(pending@);
        let name = match todo.pop() {
            Some(name) => name,
            None => {
                return ;
            },
        };
        let child = relative.join_path(&NativePath::from_bytes(name.bytes));
        proof {
            assert(name == all[n - 1]);
            assert(todo@ =~= all.take(n - 1));
            assert(all.reverse()[done as int] == all[n - 1]);
            assert(wanted[done as int] == child@);
        }
        pending.push(child);
        proof {
            assert(record::views(pending@) =~= before.push(child@));
            assert(wanted.take(done as int + 1) =~= wanted.take(done as int).push(
                wanted[done as int],
            ));
            assert(record::views(pending@) =~= start + wanted.take(done as int + 1));
            done = done + 1;
        }
    }
    proof {
        assert(wanted.take(done as int) =~= wanted);
    }
}

/// What an entry adds to an inventory.
pub struct AdditionView {
    /// Bytes that the digest covers.
    pub preimage: Seq<u8>,
    /// Bytes that are counted.
    pub size: nat,
    /// Paths that are then pending.
    pub children: Seq<Seq<u8>>,
}

/// What an entry adds to an inventory, or why it cannot be taken in. `path` is
/// where the entry is, for messages.
pub open spec fn addition_of(relative: Seq<u8>, path: Seq<u8>, entry: IgnoredEntry) -> std::result::Result<
    AdditionView,
    ErrorView,
> {
    let head = native_field("relative"@, relative);
    match entry {
        IgnoredEntry::Link { target, size } => match target {
            Err(e) => Err(e@),
            Ok(t) => Ok(
                AdditionView {
                    preimage: head + encode_utf8("link"@) + native_field("target"@, t@),
                    size: size as nat,
                    children: Seq::empty(),
                },
            ),
        },
        IgnoredEntry::File { listed, opened } => match file_check(path, listed, opened) {
            Err(e) => Err(e),
            Ok(content) => Ok(
                AdditionView {
                    preimage: head + encode_utf8("file"@) + bytes::framed(content),
                    size: content.len(),
                    children: Seq::empty(),
                },
            ),
        },
        IgnoredEntry::Directory { entries } => match entries {
            Err(e) => Err(e@),
            Ok(names) => Ok(
                AdditionView {
                    preimage: head + encode_utf8("dir"@),
                    size: 0,
                    children: children_of(relative, names@),
                },
            ),
        },
        IgnoredEntry::Special => Err(
            ErrorView::UnsafeState(
                "ignored path has an unsupported special-file type: "@ + paths::display_of(path),
            ),
        ),
    }
}

fn counted(total: u64, more: u64) -> (r: std::result::Result<u64, Error>)
    ensures
        if total + more > u64::MAX {
            r matches Err(e) && e@ == ErrorView::UnsafeState("ignored byte count overflowed"@)
        } else {
            r == Ok::<u64, Error>((total + more) as u64)
        },
{
    match total.checked_add(more) {
        Some(n) => Ok(n),
        None => Err(Error::UnsafeState("ignored byte count overflowed".to_owned())),
    }
}

/// The bytes that the digest covers before anything is looked at.
pub open spec fn inventory_domain() -> Seq<u8> {
    encode_utf8("change-capsule ignored-content inventory v2\0"@)
}

/// Whether a run is another in which a path was named to be looked at.
pub open spec fn is_named(
    next: InventoryRun,
    run: InventoryRun,
    path: Seq<u8>,
    pending: Seq<Seq<u8>>,
    begun: nat,
) -> bool {
    &&& next.roots == run.roots
    &&& next.begun == begun
    &&& record::views(next.pending@) == pending
    &&& record::views(next.seen@) == record::views(run.seen@).push(path)
    &&& next.total == run.total
    &&& next.preimage == run.preimage
}

/// Whether a run is another that took in what an entry adds.
pub open spec fn is_taken(next: InventoryRun, run: InventoryRun, added: AdditionView) -> bool {
    &&& next.roots == run.roots
    &&& next.begun == run.begun
    &&& record::views(next.pending@) == record::views(run.pending@) + added.children
    &&& next.seen == run.seen
    &&& next.total == run.total + added.size
    &&& next.preimage@ == run.preimage@ + added.preimage
}

/// Whether a run is one that begins with the paths that Git reported.
pub open spec fn is_begun(run: InventoryRun, roots: Seq<GitPath>) -> bool {
    &&& run.roots@ == roots
    &&& run.begun == 0
    &&& run.pending@.len() == 0
    &&& run.seen@.len() == 0
    &&& run.total == 0
    &&& run.preimage@ == inventory_domain()
}

impl InventoryRun {
    /// Begin an inventory of the paths that Git reported as ignored.
    pub fn start(roots: Vec<GitPath>) -> (r: InventoryRun)
        ensures
            r.roots == roots,
            is_begun(r, roots@),
    {
        InventoryRun {
            roots,
            begun: 0,
            pending: Vec::new(),
            seen: Vec::new(),
            total: 0,
            preimage: bytes::copy_bytes(
                "change-capsule ignored-content inventory v2\0".as_bytes(),
            ),
        }
    }

    /// What is to be looked at next.
    pub open spec fn upcoming(self) -> NextView {
        next_of(
            record::views(self.roots@),
            self.begun as nat,
            record::views(self.pending@),
            record::views(self.seen@),
        )
    }

    /// Name the next path to look at, relative to the workspace, and mark it
    /// as seen. No path is looked at twice.
    pub fn next_path(&mut self) -> (r: std::result::Result<Option<NativePath>, Error>)
        requires
            old(self).begun <= old(self).roots@.len(),
        ensures
            final(self).roots == old(self).roots,
            final(self).begun <= final(self).roots@.len(),
            final(self).total == old(self).total,
            final(self).preimage == old(self).preimage,
            match old(self).upcoming() {
                NextView::Path(p, pending, begun) => {
                    &&& r matches Ok(Some(found)) && found@ == p
                    &&& is_named(*final(self), *old(self), p, pending, begun)
                },
                NextView::Done => {
                    &&& r == Ok::<Option<NativePath>, Error>(None)
                    &&& final(self).pending@.len() == 0
                    &&& final(self).begun == final(self).roots@.len()
                    &&& final(self).seen == old(self).seen
                },
                NextView::Fail(e) => r matches Err(found) && found@ == e && final(self).seen
                    == old(self).seen,
            },
    {
        let ghost seen_before = record::views(self.seen@);
        drop_seen(&mut self.pending, &self.seen);
        let n = self.pending.len();
        if n > 0 {
            let ghost rest = record::views(self.pending@);
            let next = self.pending[n - 1].clone();
            let _ = self.pending.pop();
            self.seen.push(next.clone());
            proof {
                assert(rest.last() == next@);
                assert(record::views(self.pending@) =~= rest.drop_last());
                assert(record::views(self.seen@) =~= seen_before.push(next@));
            }
            return Ok(Some(next));
        }
        self.next_unseen_root()
    }

    fn next_unseen_root(&mut self) -> (r: std::result::Result<Option<NativePath>, Error>)
        requires
            old(self).begun <= old(self).roots@.len(),
            old(self).pending@.len() == 0,
        ensures
            final(self).roots == old(self).roots,
            final(self).begun <= final(self).roots@.len(),
            final(self).total == old(self).total,
            final(self).preimage == old(self).preimage,
            final(self).pending == old(self).pending,
            match next_root(
                record::views(old(self).roots@),
                old(self).begun as nat,
                record::views(old(self).seen@),
            ) {
                NextView::Path(p, pending, begun) => {
                    &&& r matches Ok(Some(found)) && found@ == p
                    &&& is_named(*final(self), *old(self), p, pending, begun)
                },
                NextView::Done => {
                    &&& r == Ok::<Option<NativePath>, Error>(None)
                    &&& final(self).begun == final(self).roots@.len()
                    &&& final(self).seen == old(self).seen
                },
                NextView::Fail(e) => r matches Err(found) && found@ == e && final(self).seen
                    == old(self).seen,
            },
        decreases old(self).roots@.len() - old(self).begun,
    {
        if self.begun >= self.roots.len() {
            return Ok(None);
        }
        proof {
            assert(record::views(self.roots@)[self.begun as int] == self.roots@[self.begun as int]@);
        }
        let relative = match git_path::safe_ignored_relative(&self.roots[self.begun]) {
            Err(e) => {
                return Err(e);
            },
            Ok(p) => p,
        };
        self.begun = self.begun + 1;
        if is_seen(&self.seen, &relative) {
            return self.next_unseen_root();
        }
        let ghost seen_before = record::views(self.seen@);
        self.seen.push(relative.clone());
        proof {
            assert(record::views(self.seen@) =~= seen_before.push(relative@));
            assert(record::views(self.pending@) =~= Seq::<Seq<u8>>::empty());
        }
        Ok(Some(relative))
    }

    /// Take in what was found at a path; see [`addition_of`].
    pub fn accept(self, relative: &NativePath, path: &NativePath, entry: IgnoredEntry) -> (r:
        std::result::Result<InventoryRun, Error>)
        ensures
            match addition_of(relative@, path@, entry) {
                Err(e) => r matches Err(found) && found@ == e,
                Ok(added) => if self.total + added.size > u64::MAX {
                    r matches Err(found) && found@ == ErrorView::UnsafeState(
                        "ignored byte count overflowed"@,
                    )
                } else {
                    r matches Ok(next) && is_taken(next, self, added)
                },
            },
    {
        let ghost covered = self.preimage@;
        let ghost waiting = record::views(self.pending@);
        let mut run = self;
        match entry {
            IgnoredEntry::Link { target, size } => {
                let target = match target {
                    Err(e) => {
                        return Err(e);
                    },
                    Ok(t) => t,
                };
                run.total = match counted(run.total, size) {
                    Err(e) => {
                        return Err(e);
                    },
                    Ok(n) => n,
                };
                push_native_field(&mut run.preimage, "relative", relative);
                bytes::push_bytes(&mut run.preimage, "link".as_bytes());
                push_native_field(&mut run.preimage, "target", &target);
                proof {
                    assert(run.preimage@ =~= covered + (native_field("relative"@, relative@)
                        + encode_utf8("link"@) + native_field("target"@, target@)));
                    assert(waiting + Seq::<Seq<u8>>::empty() =~= waiting);
                }
                Ok(run)
            },
            IgnoredEntry::File { listed, opened } => {
                let content = match check_file(path, listed, opened) {
                    Err(e) => {
                        return Err(e);
                    },
                    Ok(content) => content,
                };
                run.total = match counted(run.total, content.len() as u64) {
                    Err(e) => {
                        return Err(e);
                    },
                    Ok(n) => n,
                };
                push_native_field(&mut run.preimage, "relative", relative);
                bytes::push_bytes(&mut run.preimage, "file".as_bytes());
                bytes::push_framed(&mut run.preimage, content.as_slice());
                proof {
                    assert(run.preimage@ =~= covered + (native_field("relative"@, relative@)
                        + encode_utf8("file"@) + bytes::framed(content@)));
                    assert(waiting + Seq::<Seq<u8>>::empty() =~= waiting);
                }
                Ok(run)
            },
            IgnoredEntry::Directory { entries } => {
                let names = match entries {
                    Err(e) => {
                        return Err(e);
                    },
                    Ok(names) => names,
                };
                push_native_field(&mut run.preimage, "relative", relative);
                bytes::push_bytes(&mut run.preimage, "dir".as_bytes());
                proof {
                    assert(run.preimage@ =~= covered + (native_field("relative"@, relative@)
                        + encode_utf8("dir"@)));
                }
                push_children(&mut run.pending, relative, names);
                Ok(run)
            },
            IgnoredEntry::Special => Err(
                Error::UnsafeState(
                    text::cat2(
                        "ignored path has an unsupported special-file type: ",
                        path.display().as_str(),
                    ),
                ),
            ),
        }
    }

    /// The finished inventory.
    pub fn finish(self) -> (r: IgnoredContentInventory)
        ensures
            r.paths == self.roots,
            r.bytes == self.total,
            r.content_sha256@ == digest::sha256_hex_of(self.preimage@),
    {
        let content_sha256 = digest::sha256_hex(self.preimage.as_slice());
        IgnoredContentInventory { paths: self.roots, bytes: self.total, content_sha256 }
    }
}

/// What comparing two inventories of the same workspace says.
pub open spec fn stable_ignored_check(first: InventoryView, second: InventoryView) -> std::result::Result<
    (),
    ErrorView,
> {
    if first == second {
        Ok(())
    } else {
        Err(
            ErrorView::UnsafeState(
                "capsule ignored paths or content changed while close was finalizing; no artifacts were written"@,
            ),
        )
    }
}

/// Refuse ignored content that did not hold still.
pub fn require_stable_ignored_content(
    initial: &IgnoredContentInventory,
    later: &IgnoredContentInventory,
) -> (r: std::result::Result<(), Error>)
    ensures
        error::outcome(r) == stable_ignored_check(initial@, later@),
{
    if initial.same(later) {
        Ok(())
    } else {
        Err(
            Error::UnsafeState(
                "capsule ignored paths or content changed while close was finalizing; no artifacts were written".to_owned(),
            ),
        )
    }
}

} // verus!
