//! The exact Git command lines that carry out each operation.
//!
//! Snapshots depend on these options: without them a patch would not be
//! complete, binary-safe, or the same on every machine.

use vstd::prelude::*;
use vstd::string::*;
use vstd::utf8::*;

use crate::paths::NativePath;
use crate::{bytes, text, validate};

verus! {

/// The words of a command line as the operating system receives them.
pub open spec fn encoded(words: Seq<Seq<char>>) -> Seq<Seq<u8>> {
    words.map_values(|w: Seq<char>| encode_utf8(w))
}

/// What each word of a row holds.
pub open spec fn word_views(words: Seq<&str>) -> Seq<Seq<char>> {
    words.map_values(|w: &str| w@)
}

/// The command line made of `words`.
fn line(words: &[&str]) -> (r: Vec<Vec<u8>>)
    ensures
        bytes::views(r@) == encoded(word_views(words@)),
{
    let ghost wanted = encoded(word_views(words@));
    let mut r: Vec<Vec<u8>> = Vec::new();
    let mut i: usize = 0;
    proof {
        assert(bytes::views(r@) =~= wanted.take(0));
    }
    while i < words.len()
        invariant
            i <= words.len(),
            wanted == encoded(word_views(words@)),
            bytes::views(r@) == wanted.take(i as int),
        decreases words.len() - i,
    {
        let ghost before = r@;
        let w = bytes::copy_bytes(words[i].as_bytes());
        let ghost v = w@;
        r.push(w);
        proof {
            assert(bytes::views(r@) =~= bytes::views(before).push(v));
            assert(wanted.take(i + 1) =~= wanted.take(i as int).push(wanted[i as int]));
        }
        i += 1;
    }
    proof {
        assert(wanted.take(wanted.len() as int) =~= wanted);
    }
    r
}

/// Ask for the top-level directory of a worktree.
pub fn show_toplevel() -> (r: Vec<Vec<u8>>)
    ensures
        bytes::views(r@) == encoded(seq!["rev-parse"@, "--show-toplevel"@]),
{
    let words: [&str; 2] = ["rev-parse", "--show-toplevel"];
    proof {
        assert(word_views(words@) =~= seq!["rev-parse"@, "--show-toplevel"@]);
    }
    line(words.as_slice())
}

/// Ask for the Git directory that all worktrees share.
pub fn git_common_dir() -> (r: Vec<Vec<u8>>)
    ensures
        bytes::views(r@) == encoded(seq!["rev-parse"@, "--path-format=absolute"@, "--git-common-dir"@]),
{
    let words: [&str; 3] = ["rev-parse", "--path-format=absolute", "--git-common-dir"];
    proof {
        assert(word_views(words@) =~= seq!["rev-parse"@, "--path-format=absolute"@, "--git-common-dir"@]);
    }
    line(words.as_slice())
}

/// Ask for the Git directory of a worktree.
pub fn absolute_git_dir() -> (r: Vec<Vec<u8>>)
    ensures
        bytes::views(r@) == encoded(seq!["rev-parse"@, "--path-format=absolute"@, "--absolute-git-dir"@]),
{
    let words: [&str; 3] = ["rev-parse", "--path-format=absolute", "--absolute-git-dir"];
    proof {
        assert(word_views(words@) =~= seq!["rev-parse"@, "--path-format=absolute"@, "--absolute-git-dir"@]);
    }
    line(words.as_slice())
}

/// Resolve a revision argument to a commit.
pub fn verify_commit(argument: &str) -> (r: Vec<Vec<u8>>)
    ensures
        bytes::views(r@) == encoded(seq!["rev-parse"@, "--verify"@, argument@]),
{
    let words: [&str; 3] = ["rev-parse", "--verify", argument];
    proof {
        assert(word_views(words@) =~= seq!["rev-parse"@, "--verify"@, argument@]);
    }
    line(words.as_slice())
}

/// Make index and worktree equal to a commit.
pub fn reset_hard(commit: &str) -> (r: Vec<Vec<u8>>)
    ensures
        bytes::views(r@) == encoded(seq!["reset"@, "--hard"@, commit@]),
{
    let words: [&str; 3] = ["reset", "--hard", commit];
    proof {
        assert(word_views(words@) =~= seq!["reset"@, "--hard"@, commit@]);
    }
    line(words.as_slice())
}

/// Turn sparse checkout off for a worktree.
pub fn disable_sparse_checkout() -> (r: Vec<Vec<u8>>)
    ensures
        bytes::views(r@) == encoded(seq!["sparse-checkout"@, "disable"@]),
{
    let words: [&str; 2] = ["sparse-checkout", "disable"];
    proof {
        assert(word_views(words@) =~= seq!["sparse-checkout"@, "disable"@]);
    }
    line(words.as_slice())
}

/// What each command line of a row holds.
pub open spec fn line_views(rows: Seq<Vec<Vec<u8>>>) -> Seq<Seq<Seq<u8>>> {
    rows.map_values(|row: Vec<Vec<u8>>| bytes::views(row@))
}

/// The commands that check a new worktree out completely: a sparse checkout
/// that it inherited is turned off, then everything is made equal to `base`.
pub fn finish_worktree_creation(base: &str, inherited_sparse: bool) -> (r: Vec<Vec<Vec<u8>>>)
    ensures
        line_views(r@) == if inherited_sparse {
            seq![
                encoded(seq!["sparse-checkout"@, "disable"@]),
                encoded(seq!["reset"@, "--hard"@, base@]),
            ]
        } else {
            seq![encoded(seq!["reset"@, "--hard"@, base@])]
        },
{
    let mut r: Vec<Vec<Vec<u8>>> = Vec::new();
    if inherited_sparse {
        r.push(disable_sparse_checkout());
    }
    r.push(reset_hard(base));
    r
}

/// Make the index equal to a commit.
pub fn reset_mixed(commit: &str) -> (r: Vec<Vec<u8>>)
    ensures
        bytes::views(r@) == encoded(seq!["reset"@, "--mixed"@, commit@]),
{
    let words: [&str; 3] = ["reset", "--mixed", commit];
    proof {
        assert(word_views(words@) =~= seq!["reset"@, "--mixed"@, commit@]);
    }
    line(words.as_slice())
}

/// Print the object a ref points at.
pub fn for_each_ref(reference: &str) -> (r: Vec<Vec<u8>>)
    ensures
        bytes::views(r@) == encoded(seq!["for-each-ref"@, "--format=%(objectname)"@, "--"@, reference@]),
{
    let words: [&str; 4] = ["for-each-ref", "--format=%(objectname)", "--", reference];
    proof {
        assert(word_views(words@) =~= seq!["for-each-ref"@, "--format=%(objectname)"@, "--"@, reference@]);
    }
    line(words.as_slice())
}

/// Delete a ref that points at an expected commit.
pub fn delete_ref(reference: &str, expected: &str) -> (r: Vec<Vec<u8>>)
    ensures
        bytes::views(r@) == encoded(seq!["update-ref"@, "-d"@, reference@, expected@]),
{
    let words: [&str; 4] = ["update-ref", "-d", reference, expected];
    proof {
        assert(word_views(words@) =~= seq!["update-ref"@, "-d"@, reference@, expected@]);
    }
    line(words.as_slice())
}

/// Move a ref from one commit to another.
pub fn advance_ref(reference: &str, commit: &str, previous: &str) -> (r: Vec<Vec<u8>>)
    ensures
        bytes::views(r@) == encoded(seq!["update-ref"@, reference@, commit@, previous@]),
{
    let words: [&str; 4] = ["update-ref", reference, commit, previous];
    proof {
        assert(word_views(words@) =~= seq!["update-ref"@, reference@, commit@, previous@]);
    }
    line(words.as_slice())
}

/// List the registered worktrees.
pub fn worktree_list() -> (r: Vec<Vec<u8>>)
    ensures
        bytes::views(r@) == encoded(seq!["worktree"@, "list"@, "--porcelain"@, "-z"@]),
{
    let words: [&str; 4] = ["worktree", "list", "--porcelain", "-z"];
    proof {
        assert(word_views(words@) =~= seq!["worktree"@, "list"@, "--porcelain"@, "-z"@]);
    }
    line(words.as_slice())
}

/// Forget worktrees that are gone.
pub fn worktree_prune() -> (r: Vec<Vec<u8>>)
    ensures
        bytes::views(r@) == encoded(seq!["worktree"@, "prune"@]),
{
    let words: [&str; 2] = ["worktree", "prune"];
    proof {
        assert(word_views(words@) =~= seq!["worktree"@, "prune"@]);
    }
    line(words.as_slice())
}

/// Print the commit `HEAD` resolves to.
pub fn head_commit() -> (r: Vec<Vec<u8>>)
    ensures
        bytes::views(r@) == encoded(seq!["rev-parse"@, "HEAD"@]),
{
    let words: [&str; 2] = ["rev-parse", "HEAD"];
    proof {
        assert(word_views(words@) =~= seq!["rev-parse"@, "HEAD"@]);
    }
    line(words.as_slice())
}

/// Print the full name of `HEAD`.
pub fn symbolic_head() -> (r: Vec<Vec<u8>>)
    ensures
        bytes::views(r@) == encoded(seq!["rev-parse"@, "--symbolic-full-name"@, "HEAD"@]),
{
    let words: [&str; 3] = ["rev-parse", "--symbolic-full-name", "HEAD"];
    proof {
        assert(word_views(words@) =~= seq!["rev-parse"@, "--symbolic-full-name"@, "HEAD"@]);
    }
    line(words.as_slice())
}

/// Print the short name of the checked-out branch.
pub fn current_branch() -> (r: Vec<Vec<u8>>)
    ensures
        bytes::views(r@) == encoded(seq!["symbolic-ref"@, "--quiet"@, "--short"@, "HEAD"@]),
{
    let words: [&str; 4] = ["symbolic-ref", "--quiet", "--short", "HEAD"];
    proof {
        assert(word_views(words@) =~= seq!["symbolic-ref"@, "--quiet"@, "--short"@, "HEAD"@]);
    }
    line(words.as_slice())
}

/// Print whether sparse checkout is enabled.
pub fn sparse_checkout_value() -> (r: Vec<Vec<u8>>)
    ensures
        bytes::views(r@) == encoded(seq!["config"@, "--type=bool"@, "--default=false"@, "--get"@, "core.sparseCheckout"@]),
{
    let words: [&str; 5] = ["config", "--type=bool", "--default=false", "--get", "core.sparseCheckout"];
    proof {
        assert(word_views(words@) =~= seq!["config"@, "--type=bool"@, "--default=false"@, "--get"@, "core.sparseCheckout"@]);
    }
    line(words.as_slice())
}

/// List index entries with their tags.
pub fn tagged_index_entries() -> (r: Vec<Vec<u8>>)
    ensures
        bytes::views(r@) == encoded(seq!["ls-files"@, "-v"@, "-z"@]),
{
    let words: [&str; 3] = ["ls-files", "-v", "-z"];
    proof {
        assert(word_views(words@) =~= seq!["ls-files"@, "-v"@, "-z"@]);
    }
    line(words.as_slice())
}

/// List ignored untracked paths.
pub fn ignored_untracked() -> (r: Vec<Vec<u8>>)
    ensures
        bytes::views(r@) == encoded(seq!["ls-files"@, "--others"@, "--ignored"@, "--exclude-standard"@, "--directory"@, "-z"@]),
{
    let words: [&str; 6] = ["ls-files", "--others", "--ignored", "--exclude-standard", "--directory", "-z"];
    proof {
        assert(word_views(words@) =~= seq!["ls-files"@, "--others"@, "--ignored"@, "--exclude-standard"@, "--directory"@, "-z"@]);
    }
    line(words.as_slice())
}

/// Count the commits of a range.
pub fn count_range(range: &str) -> (r: Vec<Vec<u8>>)
    ensures
        bytes::views(r@) == encoded(seq!["rev-list"@, "--count"@, range@]),
{
    let words: [&str; 3] = ["rev-list", "--count", range];
    proof {
        assert(word_views(words@) =~= seq!["rev-list"@, "--count"@, range@]);
    }
    line(words.as_slice())
}

/// Print a commit and its parents.
pub fn commit_parents(commit: &str) -> (r: Vec<Vec<u8>>)
    ensures
        bytes::views(r@) == encoded(seq!["rev-list"@, "--parents"@, "-n"@, "1"@, commit@]),
{
    let words: [&str; 5] = ["rev-list", "--parents", "-n", "1", commit];
    proof {
        assert(word_views(words@) =~= seq!["rev-list"@, "--parents"@, "-n"@, "1"@, commit@]);
    }
    line(words.as_slice())
}

/// Fill the index from a commit.
pub fn read_tree(commit: &str) -> (r: Vec<Vec<u8>>)
    ensures
        bytes::views(r@) == encoded(seq!["read-tree"@, commit@]),
{
    let words: [&str; 2] = ["read-tree", commit];
    proof {
        assert(word_views(words@) =~= seq!["read-tree"@, commit@]);
    }
    line(words.as_slice())
}

/// Put the whole worktree into the index.
pub fn add_everything() -> (r: Vec<Vec<u8>>)
    ensures
        bytes::views(r@) == encoded(seq!["add"@, "-A"@, "--"@, "."@]),
{
    let words: [&str; 4] = ["add", "-A", "--", "."];
    proof {
        assert(word_views(words@) =~= seq!["add"@, "-A"@, "--"@, "."@]);
    }
    line(words.as_slice())
}

/// List what the index changes, with modes.
pub fn diff_index_raw(base: &str) -> (r: Vec<Vec<u8>>)
    ensures
        bytes::views(r@) == encoded(seq!["diff"@, "--cached"@, "--raw"@, "-z"@, "--no-renames"@, base@, "--"@]),
{
    let words: [&str; 7] = ["diff", "--cached", "--raw", "-z", "--no-renames", base, "--"];
    proof {
        assert(word_views(words@) =~= seq!["diff"@, "--cached"@, "--raw"@, "-z"@, "--no-renames"@, base@, "--"@]);
    }
    line(words.as_slice())
}

/// Print the complete patch from a base to the index.
pub fn diff_index_patch(base: &str) -> (r: Vec<Vec<u8>>)
    ensures
        bytes::views(r@) == encoded(seq!["diff"@, "--cached"@, "--binary"@, "--full-index"@, "--no-ext-diff"@, "--no-textconv"@, "--no-renames"@, "--no-color"@, base@, "--"@]),
{
    let words: [&str; 10] = ["diff", "--cached", "--binary", "--full-index", "--no-ext-diff", "--no-textconv", "--no-renames", "--no-color", base, "--"];
    proof {
        assert(word_views(words@) =~= seq!["diff"@, "--cached"@, "--binary"@, "--full-index"@, "--no-ext-diff"@, "--no-textconv"@, "--no-renames"@, "--no-color"@, base@, "--"@]);
    }
    line(words.as_slice())
}

/// List the paths that differ between a base and the index.
pub fn diff_index_names(base: &str) -> (r: Vec<Vec<u8>>)
    ensures
        bytes::views(r@) == encoded(seq!["diff"@, "--cached"@, "--name-only"@, "-z"@, "--no-renames"@, base@, "--"@]),
{
    let words: [&str; 7] = ["diff", "--cached", "--name-only", "-z", "--no-renames", base, "--"];
    proof {
        assert(word_views(words@) =~= seq!["diff"@, "--cached"@, "--name-only"@, "-z"@, "--no-renames"@, base@, "--"@]);
    }
    line(words.as_slice())
}

/// Print the complete patch from a base to a commit.
pub fn diff_commit_patch(base: &str, commit: &str) -> (r: Vec<Vec<u8>>)
    ensures
        bytes::views(r@) == encoded(seq!["diff"@, "--binary"@, "--full-index"@, "--no-ext-diff"@, "--no-textconv"@, "--no-renames"@, "--no-color"@, base@, commit@, "--"@]),
{
    let words: [&str; 10] = ["diff", "--binary", "--full-index", "--no-ext-diff", "--no-textconv", "--no-renames", "--no-color", base, commit, "--"];
    proof {
        assert(word_views(words@) =~= seq!["diff"@, "--binary"@, "--full-index"@, "--no-ext-diff"@, "--no-textconv"@, "--no-renames"@, "--no-color"@, base@, commit@, "--"@]);
    }
    line(words.as_slice())
}

/// List the paths that differ between a base and a commit.
pub fn diff_commit_names(base: &str, commit: &str) -> (r: Vec<Vec<u8>>)
    ensures
        bytes::views(r@) == encoded(seq!["diff"@, "--name-only"@, "-z"@, "--no-renames"@, base@, commit@, "--"@]),
{
    let words: [&str; 7] = ["diff", "--name-only", "-z", "--no-renames", base, commit, "--"];
    proof {
        assert(word_views(words@) =~= seq!["diff"@, "--name-only"@, "-z"@, "--no-renames"@, base@, commit@, "--"@]);
    }
    line(words.as_slice())
}

/// Ask whether a path is a registered submodule.
pub fn submodule_status(path: &str) -> (r: Vec<Vec<u8>>)
    ensures
        bytes::views(r@) == encoded(seq!["submodule"@, "status"@, "--cached"@, "--"@, path@]),
{
    let words: [&str; 5] = ["submodule", "status", "--cached", "--", path];
    proof {
        assert(word_views(words@) =~= seq!["submodule"@, "status"@, "--cached"@, "--"@, path@]);
    }
    line(words.as_slice())
}

/// Apply a patch from standard input to the index, merging where needed.
pub fn apply_to_index_3way() -> (r: Vec<Vec<u8>>)
    ensures
        bytes::views(r@) == encoded(seq!["apply"@, "--cached"@, "--3way"@, "--whitespace=nowarn"@, "-"@]),
{
    let words: [&str; 5] = ["apply", "--cached", "--3way", "--whitespace=nowarn", "-"];
    proof {
        assert(word_views(words@) =~= seq!["apply"@, "--cached"@, "--3way"@, "--whitespace=nowarn"@, "-"@]);
    }
    line(words.as_slice())
}

/// Apply a patch from standard input to the index.
pub fn apply_to_index() -> (r: Vec<Vec<u8>>)
    ensures
        bytes::views(r@) == encoded(seq!["apply"@, "--cached"@, "--whitespace=nowarn"@, "-"@]),
{
    let words: [&str; 4] = ["apply", "--cached", "--whitespace=nowarn", "-"];
    proof {
        assert(word_views(words@) =~= seq!["apply"@, "--cached"@, "--whitespace=nowarn"@, "-"@]);
    }
    line(words.as_slice())
}

/// Write the index as a tree.
pub fn write_tree() -> (r: Vec<Vec<u8>>)
    ensures
        bytes::views(r@) == encoded(seq!["write-tree"@]),
{
    let words: [&str; 1] = ["write-tree"];
    proof {
        assert(word_views(words@) =~= seq!["write-tree"@]);
    }
    line(words.as_slice())
}

/// Commit a tree on top of one parent.
pub fn commit_tree(tree: &str, parent: &str) -> (r: Vec<Vec<u8>>)
    ensures
        bytes::views(r@) == encoded(seq!["commit-tree"@, tree@, "-p"@, parent@]),
{
    let words: [&str; 4] = ["commit-tree", tree, "-p", parent];
    proof {
        assert(word_views(words@) =~= seq!["commit-tree"@, tree@, "-p"@, parent@]);
    }
    line(words.as_slice())
}

/// Move the checked-out branch forward to a commit.
pub fn fast_forward(commit: &str) -> (r: Vec<Vec<u8>>)
    ensures
        bytes::views(r@) == encoded(seq!["merge"@, "--ff-only"@, "--no-edit"@, commit@]),
{
    let words: [&str; 4] = ["merge", "--ff-only", "--no-edit", commit];
    proof {
        assert(word_views(words@) =~= seq!["merge"@, "--ff-only"@, "--no-edit"@, commit@]);
    }
    line(words.as_slice())
}

/// Print the porcelain status, with or without changes inside submodules.
pub fn status(ignore_dirty_submodules: bool) -> (r: Vec<Vec<u8>>)
    ensures
        bytes::views(r@) == encoded(
            seq![
                "status"@,
                "--porcelain=v2"@,
                "-z"@,
                "--untracked-files=all"@,
                if ignore_dirty_submodules {
                    "--ignore-submodules=dirty"@
                } else {
                    "--ignore-submodules=none"@
                },
            ],
        ),
{
    let submodules = if ignore_dirty_submodules {
        "--ignore-submodules=dirty"
    } else {
        "--ignore-submodules=none"
    };
    let words: [&str; 5] = [
        "status",
        "--porcelain=v2",
        "-z",
        "--untracked-files=all",
        submodules,
    ];
    proof {
        assert(word_views(words@) =~= seq![
            "status"@,
            "--porcelain=v2"@,
            "-z"@,
            "--untracked-files=all"@,
            submodules@,
        ]);
    }
    line(words.as_slice())
}

/// A text of `n` zeros.
pub open spec fn zeros(n: nat) -> Seq<char> {
    Seq::new(n, |i: int| '0')
}

fn zero_text(n: usize) -> (r: String)
    ensures
        r@ == zeros(n as nat),
{
    let mut r = String::new();
    let mut i: usize = 0;
    while i < n
        invariant
            i <= n,
            r@ == zeros(i as nat),
        decreases n - i,
    {
        r.push('0');
        proof {
            assert(r@ =~= zeros((i + 1) as nat));
        }
        i += 1;
    }
    r
}

/// Create a ref that must not exist yet.
pub fn create_ref(reference: &str, commit: &str) -> (r: Vec<Vec<u8>>)
    ensures
        bytes::views(r@) == encoded(
            seq!["update-ref"@, reference@, commit@, zeros(validate::byte_len(commit@))],
        ),
{
    let zero = zero_text(commit.as_bytes().len());
    let words: [&str; 4] = ["update-ref", reference, commit, zero.as_str()];
    proof {
        assert(word_views(words@) =~= seq!["update-ref"@, reference@, commit@, zero@]);
    }
    line(words.as_slice())
}

/// Append a path to a command line.
fn with_path(line: Vec<Vec<u8>>, path: &NativePath) -> (r: Vec<Vec<u8>>)
    ensures
        bytes::views(r@) == bytes::views(line@).push(path@),
{
    let mut r = line;
    let ghost before = r@;
    let copy = bytes::copy_bytes(path.bytes.as_slice());
    let ghost v = copy@;
    r.push(copy);
    proof {
        assert(bytes::views(r@) =~= bytes::views(before).push(v));
    }
    r
}

/// Append a word to a command line.
fn with_word(line: Vec<Vec<u8>>, word: &str) -> (r: Vec<Vec<u8>>)
    ensures
        bytes::views(r@) == bytes::views(line@).push(encode_utf8(word@)),
{
    let mut r = line;
    let ghost before = r@;
    let copy = bytes::copy_bytes(word.as_bytes());
    let ghost v = copy@;
    r.push(copy);
    proof {
        assert(bytes::views(r@) =~= bytes::views(before).push(v));
    }
    r
}

/// Register a worktree on a new branch without checking anything out.
pub fn add_worktree(path: &NativePath, branch: &str, base: &str) -> (r: Vec<Vec<u8>>)
    ensures
        bytes::views(r@) == encoded(
            seq!["worktree"@, "add"@, "--no-checkout"@, "-b"@, branch@],
        ).push(path@).push(encode_utf8(base@)),
{
    let words: [&str; 5] = ["worktree", "add", "--no-checkout", "-b", branch];
    proof {
        assert(word_views(words@) =~= seq![
            "worktree"@,
            "add"@,
            "--no-checkout"@,
            "-b"@,
            branch@,
        ]);
    }
    with_word(with_path(line(words.as_slice()), path), base)
}

/// Remove a registered worktree.
pub fn remove_worktree(path: &NativePath, force: bool) -> (r: Vec<Vec<u8>>)
    ensures
        bytes::views(r@) == if force {
            encoded(seq!["worktree"@, "remove"@, "--force"@]).push(path@)
        } else {
            encoded(seq!["worktree"@, "remove"@]).push(path@)
        },
{
    if force {
        let words: [&str; 3] = ["worktree", "remove", "--force"];
        proof {
            assert(word_views(words@) =~= seq!["worktree"@, "remove"@, "--force"@]);
        }
        with_path(line(words.as_slice()), path)
    } else {
        let words: [&str; 2] = ["worktree", "remove"];
        proof {
            assert(word_views(words@) =~= seq!["worktree"@, "remove"@]);
        }
        with_path(line(words.as_slice()), path)
    }
}

/// The configuration value that points Git at a private hooks directory.
pub open spec fn hooks_config(directory: Seq<u8>) -> Seq<u8> {
    encode_utf8("core.hooksPath="@) + directory
}

/// The options that precede every command: no optional locks, no hooks from
/// the repository, no monitor, no signing, no external diff.
pub fn hardening(hooks_directory: &NativePath) -> (r: Vec<Vec<u8>>)
    ensures
        bytes::views(r@) == encoded(seq!["--no-optional-locks"@, "-c"@]).push(
            hooks_config(hooks_directory@),
        ).push(encode_utf8("-c"@)).push(encode_utf8("core.fsmonitor=false"@)).push(
            encode_utf8("-c"@),
        ).push(encode_utf8("commit.gpgSign=false"@)).push(encode_utf8("-c"@)).push(
            encode_utf8("diff.external="@),
        ),
{
    let words: [&str; 2] = ["--no-optional-locks", "-c"];
    proof {
        assert(word_views(words@) =~= seq!["--no-optional-locks"@, "-c"@]);
    }
    let mut config = bytes::copy_bytes("core.hooksPath=".as_bytes());
    bytes::push_bytes(&mut config, hooks_directory.bytes.as_slice());
    let start = with_path(line(words.as_slice()), &NativePath::from_bytes(config));
    let monitor = with_word(with_word(start, "-c"), "core.fsmonitor=false");
    let signing = with_word(with_word(monitor, "-c"), "commit.gpgSign=false");
    with_word(with_word(signing, "-c"), "diff.external=")
}

/// A variable of the environment with its value.
#[derive(Debug, PartialEq, Eq)]
pub struct Variable {
    /// Its name.
    pub key: String,
    /// Its value.
    pub value: Vec<u8>,
}

/// What variables of the environment hold.
pub open spec fn variables(rows: Seq<Variable>) -> Seq<(Seq<char>, Seq<u8>)> {
    rows.map_values(|v: Variable| (v.key@, v.value@))
}

/// The environment that records one identity as author and committer.
pub fn identity_env(name: &str, email: &str) -> (r: Vec<Variable>)
    ensures
        variables(r@) == seq![
            ("GIT_AUTHOR_NAME"@, encode_utf8(name@)),
            ("GIT_AUTHOR_EMAIL"@, encode_utf8(email@)),
            ("GIT_COMMITTER_NAME"@, encode_utf8(name@)),
            ("GIT_COMMITTER_EMAIL"@, encode_utf8(email@)),
        ],
{
    let mut r: Vec<Variable> = Vec::new();
    r.push(
        Variable {
            key: "GIT_AUTHOR_NAME".to_owned(),
            value: bytes::copy_bytes(name.as_bytes()),
        },
    );
    r.push(
        Variable {
            key: "GIT_AUTHOR_EMAIL".to_owned(),
            value: bytes::copy_bytes(email.as_bytes()),
        },
    );
    r.push(
        Variable {
            key: "GIT_COMMITTER_NAME".to_owned(),
            value: bytes::copy_bytes(name.as_bytes()),
        },
    );
    r.push(
        Variable {
            key: "GIT_COMMITTER_EMAIL".to_owned(),
            value: bytes::copy_bytes(email.as_bytes()),
        },
    );
    proof {
        assert(variables(r@) =~= seq![
            ("GIT_AUTHOR_NAME"@, encode_utf8(name@)),
            ("GIT_AUTHOR_EMAIL"@, encode_utf8(email@)),
            ("GIT_COMMITTER_NAME"@, encode_utf8(name@)),
            ("GIT_COMMITTER_EMAIL"@, encode_utf8(email@)),
        ]);
    }
    r
}

/// The environment that points Git at a private index.
pub fn index_env(index: &NativePath) -> (r: Variable)
    ensures
        r.key@ == "GIT_INDEX_FILE"@,
        r.value@ == index@,
{
    Variable {
        key: "GIT_INDEX_FILE".to_owned(),
        value: bytes::copy_bytes(index.bytes.as_slice()),
    }
}

/// The range of commits from a base to `HEAD`.
pub fn range_from(base: &str) -> (r: String)
    ensures
        r@ == base@ + "..HEAD"@,
{
    text::cat2(base, "..HEAD")
}

/// The full name of a branch.
pub fn branch_ref(branch: &str) -> (r: String)
    ensures
        r@ == "refs/heads/"@ + branch@,
{
    text::cat2("refs/heads/", branch)
}

} // verus!
