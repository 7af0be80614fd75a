//! A whole walk over ignored content.
//!
//! The inventory asks for one path after another and takes in one answer after
//! another. What it amounts to is told here over the tree that was walked:
//! every entry once, each directory before what it holds, and what it holds in
//! the order of the names.

use vstd::prelude::*;
use vstd::string::*;
use vstd::utf8::*;

use crate::git_path::{GitPath, GitPathView};
use crate::inventory::{IgnoredEntry, InventoryRun, NextView};
use crate::{bytes, digest, git_path, inventory, order, paths, record};

verus! {

/// Ignored content as a tree.
pub enum Tree {
    /// A symbolic link.
    Link { target: Seq<u8>, size: u64 },
    /// A regular file.
    File { content: Seq<u8> },
    /// A directory, with its entries in the order of their names.
    Directory { entries: Seq<Branch> },
}

/// One entry of a directory.
pub struct Branch {
    pub name: Seq<u8>,
    pub tree: Tree,
}

/// How far a walk has come: the bytes that the digest covers, the bytes that
/// are counted, and the paths that were looked at.
pub struct Progress {
    pub covered: Seq<u8>,
    pub size: nat,
    pub seen: Seq<Seq<u8>>,
}

/// What an entry itself adds to the bytes that the digest covers.
pub open spec fn own_bytes(t: Tree, path: Seq<u8>) -> Seq<u8> {
    let head = inventory::native_field("relative"@, path);
    match t {
        Tree::Link { target, .. } => head + encode_utf8("link"@) + inventory::native_field(
            "target"@,
            target,
        ),
        Tree::File { content } => head + encode_utf8("file"@) + bytes::framed(content),
        Tree::Directory { .. } => head + encode_utf8("dir"@),
    }
}

/// What an entry itself adds to the bytes that are counted.
pub open spec fn own_size(t: Tree) -> nat {
    match t {
        Tree::Link { size, .. } => size as nat,
        Tree::File { content } => content.len(),
        Tree::Directory { .. } => 0,
    }
}

/// A walk once one entry was looked at.
pub open spec fn looked(t: Tree, path: Seq<u8>, before: Progress) -> Progress {
    Progress {
        covered: before.covered + own_bytes(t, path),
        size: before.size + own_size(t),
        seen: before.seen.push(path),
    }
}

/// A walk once a tree was walked: nothing where its path was looked at before,
/// otherwise its own entry and then everything below it.
pub open spec fn walked(t: Tree, path: Seq<u8>, before: Progress) -> Progress
    decreases t,
{
    if inventory::was_seen(before.seen, path) {
        before
    } else {
        match t {
            Tree::Directory { entries } => all_walked(entries, path, looked(t, path, before)),
            _ => looked(t, path, before),
        }
    }
}

/// A walk once the entries of a directory were walked, one after the other.
pub open spec fn all_walked(entries: Seq<Branch>, path: Seq<u8>, before: Progress) -> Progress
    decreases entries,
{
    if entries.len() == 0 {
        before
    } else {
        all_walked(
            entries.drop_first(),
            path,
            walked(entries[0].tree, paths::join_of(path, entries[0].name), before),
        )
    }
}

/// A walk once the roots from `begun` on were walked, in the order in which Git
/// reported them.
pub open spec fn roots_walked(
    roots: Seq<GitPathView>,
    tree: spec_fn(Seq<u8>) -> Tree,
    begun: nat,
    before: Progress,
) -> Progress
    decreases roots.len() - begun,
{
    if begun >= roots.len() {
        before
    } else {
        let path = git_path::ignored_relative_of(roots[begun as int])->Ok_0;
        roots_walked(roots, tree, begun + 1, walked(tree(path), path, before))
    }
}

/// A walk once all pending paths were walked, the last one first.
pub open spec fn pending_walked(
    pending: Seq<Seq<u8>>,
    tree: spec_fn(Seq<u8>) -> Tree,
    before: Progress,
) -> Progress
    decreases pending.len(),
{
    if pending.len() == 0 {
        before
    } else {
        pending_walked(
            pending.drop_last(),
            tree,
            walked(tree(pending.last()), pending.last(), before),
        )
    }
}

/// Whether what is found at each path fits together: below a directory is what
/// the directory holds.
pub open spec fn is_content(tree: spec_fn(Seq<u8>) -> Tree) -> bool {
    forall|path: Seq<u8>, i: int|
        (#[trigger] tree(path) matches Tree::Directory { entries } && 0 <= i < entries.len())
            ==> tree(
            paths::join_of(path, (#[trigger] tree(path)->entries[i]).name),
        ) == tree(path)->entries[i].tree
}

/// Whether what was read at a path is the entry of a tree.
pub open spec fn is_entry_of(entry: IgnoredEntry, t: Tree, place: Seq<u8>) -> bool {
    match entry {
        IgnoredEntry::Link { target, size } => target is Ok && t == (Tree::Link {
            target: target->Ok_0@,
            size,
        }),
        IgnoredEntry::File { listed, opened } => inventory::file_check(place, listed, opened) is Ok
            && t == (Tree::File { content: inventory::file_check(place, listed, opened)->Ok_0 }),
        IgnoredEntry::Directory { entries } => {
            &&& entries is Ok
            &&& t is Directory
            &&& t->entries.len() == entries->Ok_0@.len()
            &&& forall|i: int|
                0 <= i < t->entries.len() ==> (#[trigger] t->entries[i]).name == order::sorted(
                    entries->Ok_0@,
                )[i].bytes@
        },
        IgnoredEntry::Special => false,
    }
}

/// Whether a run is another after one step: it named a path, and what the tree
/// holds there was taken in.
pub open spec fn is_step(
    run: InventoryRun,
    place: Seq<u8>,
    entry: IgnoredEntry,
    next: InventoryRun,
    tree: spec_fn(Seq<u8>) -> Tree,
) -> bool {
    &&& run.upcoming() matches NextView::Path(path, pending, begun) && is_entry_of(
        entry,
        tree(path),
        place,
    ) && (inventory::addition_of(path, place, entry) matches Ok(added) && exists|
        named: InventoryRun,
    | #[trigger]
        inventory::is_named(named, run, path, pending, begun) && inventory::is_taken(
            next,
            named,
            added,
        ))
}

/// How far a run has come.
pub open spec fn progress_of(run: InventoryRun) -> Progress {
    Progress {
        covered: run.preimage@,
        size: run.total as nat,
        seen: record::views(run.seen@),
    }
}

/// What a run comes to, once everything that is left is walked.
pub open spec fn outlook(run: InventoryRun, tree: spec_fn(Seq<u8>) -> Tree) -> Progress {
    roots_walked(
        record::views(run.roots@),
        tree,
        run.begun as nat,
        pending_walked(record::views(run.pending@), tree, progress_of(run)),
    )
}

/// The paths of a directory's entries, the first one last.
pub open spec fn branch_paths(path: Seq<u8>, entries: Seq<Branch>) -> Seq<Seq<u8>> {
    entries.reverse().map_values(|b: Branch| paths::join_of(path, b.name))
}

/// Paths that were looked at may be left out of what is pending.
proof fn lemma_seen_adds_nothing(
    pending: Seq<Seq<u8>>,
    tree: spec_fn(Seq<u8>) -> Tree,
    before: Progress,
)
    ensures
        pending_walked(pending, tree, before) == pending_walked(
            inventory::unseen_end(pending, before.seen),
            tree,
            before,
        ),
        inventory::unseen_end(pending, before.seen).len() > 0 ==> !inventory::was_seen(
            before.seen,
            inventory::unseen_end(pending, before.seen).last(),
        ),
    decreases pending.len(),
{
    if pending.len() > 0 && inventory::was_seen(before.seen, pending.last()) {
        lemma_seen_adds_nothing(pending.drop_last(), tree, before);
    }
}

/// The next root is the first one that was not looked at.
proof fn lemma_next_root(
    roots: Seq<GitPathView>,
    tree: spec_fn(Seq<u8>) -> Tree,
    begun: nat,
    before: Progress,
)
    ensures
        match inventory::next_root(roots, begun, before.seen) {
            NextView::Path(path, pending, next) => {
                &&& pending.len() == 0
                &&& !inventory::was_seen(before.seen, path)
                &&& roots_walked(roots, tree, begun, before) == roots_walked(
                    roots,
                    tree,
                    next,
                    walked(tree(path), path, before),
                )
            },
            NextView::Done => roots_walked(roots, tree, begun, before) == before,
            NextView::Fail(_) => true,
        },
    decreases roots.len() - begun,
{
    if begun < roots.len() {
        match git_path::ignored_relative_of(roots[begun as int]) {
            Err(_) => {},
            Ok(path) => {
                if inventory::was_seen(before.seen, path) {
                    lemma_next_root(roots, tree, begun + 1, before);
                }
            },
        }
    }
}

/// Pending entries of a directory are walked before what was pending already,
/// in the order of their names.
proof fn lemma_branches_first(
    pending: Seq<Seq<u8>>,
    tree: spec_fn(Seq<u8>) -> Tree,
    path: Seq<u8>,
    entries: Seq<Branch>,
    before: Progress,
)
    requires
        forall|i: int|
            0 <= i < entries.len() ==> tree(
                paths::join_of(path, (#[trigger] entries[i]).name),
            ) == entries[i].tree,
    ensures
        pending_walked(pending + branch_paths(path, entries), tree, before) == pending_walked(
            pending,
            tree,
            all_walked(entries, path, before),
        ),
    decreases entries.len(),
{
    let all = pending + branch_paths(path, entries);
    if entries.len() == 0 {
        assert(all =~= pending);
    } else {
        let rest = entries.drop_first();
        let first = entries[0];
        assert(entries.reverse()[entries.len() - 1] == first);
        assert(all.last() == paths::join_of(path, first.name));
        assert(all.drop_last() =~= pending + branch_paths(path, rest)) by {
            assert forall|i: int| 0 <= i < rest.len() implies #[trigger] branch_paths(
                path,
                entries,
            )[i] == branch_paths(path, rest)[i] by {
                assert(entries.reverse()[i] == rest.reverse()[i]);
            }
        }
        assert forall|i: int| 0 <= i < rest.len() implies tree(
            paths::join_of(path, (#[trigger] rest[i]).name),
        ) == rest[i].tree by {
            assert(rest[i] == entries[i + 1]);
        }
        lemma_branches_first(
            pending,
            tree,
            path,
            rest,
            walked(first.tree, paths::join_of(path, first.name), before),
        );
    }
}

/// What is pending below an entry is what the tree holds below it.
proof fn lemma_addition(path: Seq<u8>, place: Seq<u8>, entry: IgnoredEntry, t: Tree)
    requires
        is_entry_of(entry, t, place),
    ensures
        inventory::addition_of(path, place, entry) matches Ok(added) && added.preimage == own_bytes(
            t,
            path,
        ) && added.size == own_size(t) && added.children == match t {
            Tree::Directory { entries } => branch_paths(path, entries),
            _ => Seq::empty(),
        },
{
    if let IgnoredEntry::Directory { entries } = entry {
        let names = entries->Ok_0@;
        let branches = t->entries;
        order::lemma_sorted_is_permutation(names);
        let sorted = order::sorted(names);
        assert(inventory::children_of(path, names) =~= branch_paths(path, branches)) by {
            assert forall|i: int| 0 <= i < branches.len() implies #[trigger] inventory::children_of(
                path,
                names,
            )[i] == branch_paths(path, branches)[i] by {
                let k = branches.len() - 1 - i;
                assert(sorted.reverse()[i] == sorted[k]);
                assert(branches.reverse()[i] == branches[k]);
                assert(branches[k].name == sorted[k].bytes@);
            }
        }
    }
}

/// A step changes nothing about what a walk comes to.
proof fn lemma_step(
    run: InventoryRun,
    place: Seq<u8>,
    entry: IgnoredEntry,
    next: InventoryRun,
    tree: spec_fn(Seq<u8>) -> Tree,
)
    requires
        is_content(tree),
        is_step(run, place, entry, next, tree),
    ensures
        outlook(next, tree) == outlook(run, tree),
        next.roots == run.roots,
{
    let roots = record::views(run.roots@);
    let before = progress_of(run);
    let waiting = record::views(run.pending@);
    lemma_seen_adds_nothing(waiting, tree, before);
    lemma_next_root(roots, tree, run.begun as nat, before);
    match run.upcoming() {
        NextView::Path(path, pending, begun) => {
            let t = tree(path);
            lemma_addition(path, place, entry, t);
            let here = looked(t, path, before);
            assert(outlook(run, tree) == roots_walked(
                roots,
                tree,
                begun,
                pending_walked(pending, tree, walked(t, path, before)),
            ));
            assert(progress_of(next) == here);
            match t {
                Tree::Directory { entries } => {
                    assert forall|i: int| 0 <= i < entries.len() implies tree(
                        paths::join_of(path, (#[trigger] entries[i]).name),
                    ) == entries[i].tree by {
                        assert(tree(path)->entries[i] == entries[i]);
                    }
                    lemma_branches_first(pending, tree, path, entries, here);
                },
                _ => {
                    assert(pending + Seq::<Seq<u8>>::empty() =~= pending);
                },
            }
        },
        _ => {},
    }
}

/// A walk that runs from its beginning until nothing is left to look at covers
/// exactly the ignored content: the digest is that of every entry below the
/// reported paths, and the total that of their sizes, each entry once, each
/// directory before what it holds, and what it holds in the order of the names.
pub proof fn law_walk_covers_the_ignored_content(
    roots: Seq<GitPath>,
    tree: spec_fn(Seq<u8>) -> Tree,
    runs: Seq<InventoryRun>,
    places: Seq<Seq<u8>>,
    entries: Seq<IgnoredEntry>,
)
    requires
        is_content(tree),
        runs.len() == entries.len() + 1,
        places.len() == entries.len(),
        inventory::is_begun(runs[0], roots),
        forall|i: int|
            0 <= i < entries.len() ==> is_step(
                runs[i],
                places[i],
                #[trigger] entries[i],
                runs[i + 1],
                tree,
            ),
        runs.last().upcoming() is Done,
    ensures
        ({
            let whole = roots_walked(
                record::views(roots),
                tree,
                0,
                Progress {
                    covered: inventory::inventory_domain(),
                    size: 0,
                    seen: Seq::empty(),
                },
            );
            &&& progress_of(runs.last()) == whole
            &&& runs.last().roots@ == roots
            &&& digest::sha256_hex_of(runs.last().preimage@) == digest::sha256_hex_of(whole.covered)
            &&& runs.last().total == whole.size
        }),
{
    lemma_steps(tree, runs, places, entries, entries.len() as int);
    let first = runs[0];
    assert(record::views(first.pending@) =~= Seq::<Seq<u8>>::empty());
    assert(record::views(first.seen@) =~= Seq::<Seq<u8>>::empty());
    let end = runs.last();
    lemma_seen_adds_nothing(record::views(end.pending@), tree, progress_of(end));
    lemma_next_root(
        record::views(end.roots@),
        tree,
        end.begun as nat,
        progress_of(end),
    );
}

/// Any number of steps changes nothing about what a walk comes to.
proof fn lemma_steps(
    tree: spec_fn(Seq<u8>) -> Tree,
    runs: Seq<InventoryRun>,
    places: Seq<Seq<u8>>,
    entries: Seq<IgnoredEntry>,
    n: int,
)
    requires
        is_content(tree),
        runs.len() == entries.len() + 1,
        0 <= n <= entries.len(),
        forall|i: int|
            0 <= i < entries.len() ==> is_step(
                runs[i],
                places[i],
                #[trigger] entries[i],
                runs[i + 1],
                tree,
            ),
    ensures
        outlook(runs[n], tree) == outlook(runs[0], tree),
        runs[n].roots == runs[0].roots,
    decreases n,
{
    if n > 0 {
        lemma_steps(tree, runs, places, entries, n - 1);
        assert(is_step(runs[n - 1], places[n - 1], entries[n - 1], runs[n], tree));
        lemma_step(runs[n - 1], places[n - 1], entries[n - 1], runs[n], tree);
    }
}

} // verus!
