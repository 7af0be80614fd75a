//! Which commands Git is given.

use vstd::prelude::*;
use vstd::string::*;
use vstd::utf8::*;

use crate::commands::Variable;
use crate::paths::NativePath;
use crate::{bytes, commands, validate};

verus! {

/// Whether a command line is made of words.
pub open spec fn is_line(line: Seq<Vec<u8>>, words: Seq<Seq<char>>) -> bool {
    line.len() == words.len() && forall|i: int|
        0 <= i < line.len() ==> (#[trigger] line[i])@ == encode_utf8(words[i])
}

pub(crate) proof fn lemma_line(line: Seq<Vec<u8>>, words: Seq<Seq<char>>)
    requires
        bytes::views(line) == commands::encoded(words),
    ensures
        is_line(line, words),
{
    assert(bytes::views(line).len() == line.len());
    assert forall|i: int| 0 <= i < line.len() implies (#[trigger] line[i])@ == encode_utf8(
        words[i],
    ) by {
        assert(bytes::views(line)[i] == commands::encoded(words)[i]);
    }
}

/// What Git is asked is written as it must be to be answered exactly: in full,
/// NUL-separated, and without interpretation.
pub proof fn law_questions_are_asked_as_written(
    argument: &str,
    reference: &str,
    range: &str,
    commit: &str,
    path: &str,
    r_show_toplevel: Vec<Vec<u8>>,
    r_git_common_dir: Vec<Vec<u8>>,
    r_absolute_git_dir: Vec<Vec<u8>>,
    r_verify_commit: Vec<Vec<u8>>,
    r_for_each_ref: Vec<Vec<u8>>,
    r_worktree_list: Vec<Vec<u8>>,
    r_head_commit: Vec<Vec<u8>>,
    r_symbolic_head: Vec<Vec<u8>>,
    r_current_branch: Vec<Vec<u8>>,
    r_sparse_checkout_value: Vec<Vec<u8>>,
    r_tagged_index_entries: Vec<Vec<u8>>,
    r_ignored_untracked: Vec<Vec<u8>>,
    r_count_range: Vec<Vec<u8>>,
    r_commit_parents: Vec<Vec<u8>>,
    r_submodule_status: Vec<Vec<u8>>,
)
    requires
        call_ensures(commands::show_toplevel, (), r_show_toplevel),
        call_ensures(commands::git_common_dir, (), r_git_common_dir),
        call_ensures(commands::absolute_git_dir, (), r_absolute_git_dir),
        call_ensures(commands::verify_commit, (argument,), r_verify_commit),
        call_ensures(commands::for_each_ref, (reference,), r_for_each_ref),
        call_ensures(commands::worktree_list, (), r_worktree_list),
        call_ensures(commands::head_commit, (), r_head_commit),
        call_ensures(commands::symbolic_head, (), r_symbolic_head),
        call_ensures(commands::current_branch, (), r_current_branch),
        call_ensures(commands::sparse_checkout_value, (), r_sparse_checkout_value),
        call_ensures(commands::tagged_index_entries, (), r_tagged_index_entries),
        call_ensures(commands::ignored_untracked, (), r_ignored_untracked),
        call_ensures(commands::count_range, (range,), r_count_range),
        call_ensures(commands::commit_parents, (commit,), r_commit_parents),
        call_ensures(commands::submodule_status, (path,), r_submodule_status),
    ensures
        is_line(r_show_toplevel@, seq!["rev-parse"@, "--show-toplevel"@]),
        is_line(r_git_common_dir@, seq!["rev-parse"@, "--path-format=absolute"@, "--git-common-dir"@]),
        is_line(r_absolute_git_dir@, seq!["rev-parse"@, "--path-format=absolute"@, "--absolute-git-dir"@]),
        is_line(r_verify_commit@, seq!["rev-parse"@, "--verify"@, argument@]),
        is_line(r_for_each_ref@, seq!["for-each-ref"@, "--format=%(objectname)"@, "--"@, reference@]),
        is_line(r_worktree_list@, seq!["worktree"@, "list"@, "--porcelain"@, "-z"@]),
        is_line(r_head_commit@, seq!["rev-parse"@, "HEAD"@]),
        is_line(r_symbolic_head@, seq!["rev-parse"@, "--symbolic-full-name"@, "HEAD"@]),
        is_line(r_current_branch@, seq!["symbolic-ref"@, "--quiet"@, "--short"@, "HEAD"@]),
        is_line(r_sparse_checkout_value@, seq!["config"@, "--type=bool"@, "--default=false"@, "--get"@, "core.sparseCheckout"@]),
        is_line(r_tagged_index_entries@, seq!["ls-files"@, "-v"@, "-z"@]),
        is_line(r_ignored_untracked@, seq!["ls-files"@, "--others"@, "--ignored"@, "--exclude-standard"@, "--directory"@, "-z"@]),
        is_line(r_count_range@, seq!["rev-list"@, "--count"@, range@]),
        is_line(r_commit_parents@, seq!["rev-list"@, "--parents"@, "-n"@, "1"@, commit@]),
        is_line(r_submodule_status@, seq!["submodule"@, "status"@, "--cached"@, "--"@, path@]),
{
    lemma_line(r_show_toplevel@, seq!["rev-parse"@, "--show-toplevel"@]);
    lemma_line(r_git_common_dir@, seq!["rev-parse"@, "--path-format=absolute"@, "--git-common-dir"@]);
    lemma_line(r_absolute_git_dir@, seq!["rev-parse"@, "--path-format=absolute"@, "--absolute-git-dir"@]);
    lemma_line(r_verify_commit@, seq!["rev-parse"@, "--verify"@, argument@]);
    lemma_line(r_for_each_ref@, seq!["for-each-ref"@, "--format=%(objectname)"@, "--"@, reference@]);
    lemma_line(r_worktree_list@, seq!["worktree"@, "list"@, "--porcelain"@, "-z"@]);
    lemma_line(r_head_commit@, seq!["rev-parse"@, "HEAD"@]);
    lemma_line(r_symbolic_head@, seq!["rev-parse"@, "--symbolic-full-name"@, "HEAD"@]);
    lemma_line(r_current_branch@, seq!["symbolic-ref"@, "--quiet"@, "--short"@, "HEAD"@]);
    lemma_line(r_sparse_checkout_value@, seq!["config"@, "--type=bool"@, "--default=false"@, "--get"@, "core.sparseCheckout"@]);
    lemma_line(r_tagged_index_entries@, seq!["ls-files"@, "-v"@, "-z"@]);
    lemma_line(r_ignored_untracked@, seq!["ls-files"@, "--others"@, "--ignored"@, "--exclude-standard"@, "--directory"@, "-z"@]);
    lemma_line(r_count_range@, seq!["rev-list"@, "--count"@, range@]);
    lemma_line(r_commit_parents@, seq!["rev-list"@, "--parents"@, "-n"@, "1"@, commit@]);
    lemma_line(r_submodule_status@, seq!["submodule"@, "status"@, "--cached"@, "--"@, path@]);
}

/// Changes are compared whole: with binary content and full object names, without
/// renames, filters, or external tools, and between exactly what was named.
pub proof fn law_changes_are_compared_whole(
    base: &str,
    commit: &str,
    r_diff_index_raw: Vec<Vec<u8>>,
    r_diff_index_patch: Vec<Vec<u8>>,
    r_diff_index_names: Vec<Vec<u8>>,
    r_diff_commit_patch: Vec<Vec<u8>>,
    r_diff_commit_names: Vec<Vec<u8>>,
)
    requires
        call_ensures(commands::diff_index_raw, (base,), r_diff_index_raw),
        call_ensures(commands::diff_index_patch, (base,), r_diff_index_patch),
        call_ensures(commands::diff_index_names, (base,), r_diff_index_names),
        call_ensures(commands::diff_commit_patch, (base, commit), r_diff_commit_patch),
        call_ensures(commands::diff_commit_names, (base, commit), r_diff_commit_names),
    ensures
        is_line(r_diff_index_raw@, seq!["diff"@, "--cached"@, "--raw"@, "-z"@, "--no-renames"@, base@, "--"@]),
        is_line(r_diff_index_patch@, seq!["diff"@, "--cached"@, "--binary"@, "--full-index"@, "--no-ext-diff"@, "--no-textconv"@, "--no-renames"@, "--no-color"@, base@, "--"@]),
        is_line(r_diff_index_names@, seq!["diff"@, "--cached"@, "--name-only"@, "-z"@, "--no-renames"@, base@, "--"@]),
        is_line(r_diff_commit_patch@, seq!["diff"@, "--binary"@, "--full-index"@, "--no-ext-diff"@, "--no-textconv"@, "--no-renames"@, "--no-color"@, base@, commit@, "--"@]),
        is_line(r_diff_commit_names@, seq!["diff"@, "--name-only"@, "-z"@, "--no-renames"@, base@, commit@, "--"@]),
{
    lemma_line(r_diff_index_raw@, seq!["diff"@, "--cached"@, "--raw"@, "-z"@, "--no-renames"@, base@, "--"@]);
    lemma_line(r_diff_index_patch@, seq!["diff"@, "--cached"@, "--binary"@, "--full-index"@, "--no-ext-diff"@, "--no-textconv"@, "--no-renames"@, "--no-color"@, base@, "--"@]);
    lemma_line(r_diff_index_names@, seq!["diff"@, "--cached"@, "--name-only"@, "-z"@, "--no-renames"@, base@, "--"@]);
    lemma_line(r_diff_commit_patch@, seq!["diff"@, "--binary"@, "--full-index"@, "--no-ext-diff"@, "--no-textconv"@, "--no-renames"@, "--no-color"@, base@, commit@, "--"@]);
    lemma_line(r_diff_commit_names@, seq!["diff"@, "--name-only"@, "-z"@, "--no-renames"@, base@, commit@, "--"@]);
}

/// What is changed is exactly what was named: an index, a reference at an expected
/// commit, or a checkout.
pub proof fn law_changes_are_made_as_named(
    commit: &str,
    reference: &str,
    expected: &str,
    previous: &str,
    tree: &str,
    parent: &str,
    r_reset_hard: Vec<Vec<u8>>,
    r_disable_sparse_checkout: Vec<Vec<u8>>,
    r_reset_mixed: Vec<Vec<u8>>,
    r_delete_ref: Vec<Vec<u8>>,
    r_advance_ref: Vec<Vec<u8>>,
    r_worktree_prune: Vec<Vec<u8>>,
    r_read_tree: Vec<Vec<u8>>,
    r_add_everything: Vec<Vec<u8>>,
    r_apply_to_index_3way: Vec<Vec<u8>>,
    r_apply_to_index: Vec<Vec<u8>>,
    r_write_tree: Vec<Vec<u8>>,
    r_commit_tree: Vec<Vec<u8>>,
    r_fast_forward: Vec<Vec<u8>>,
)
    requires
        call_ensures(commands::reset_hard, (commit,), r_reset_hard),
        call_ensures(commands::disable_sparse_checkout, (), r_disable_sparse_checkout),
        call_ensures(commands::reset_mixed, (commit,), r_reset_mixed),
        call_ensures(commands::delete_ref, (reference, expected), r_delete_ref),
        call_ensures(commands::advance_ref, (reference, commit, previous), r_advance_ref),
        call_ensures(commands::worktree_prune, (), r_worktree_prune),
        call_ensures(commands::read_tree, (commit,), r_read_tree),
        call_ensures(commands::add_everything, (), r_add_everything),
        call_ensures(commands::apply_to_index_3way, (), r_apply_to_index_3way),
        call_ensures(commands::apply_to_index, (), r_apply_to_index),
        call_ensures(commands::write_tree, (), r_write_tree),
        call_ensures(commands::commit_tree, (tree, parent), r_commit_tree),
        call_ensures(commands::fast_forward, (commit,), r_fast_forward),
    ensures
        is_line(r_reset_hard@, seq!["reset"@, "--hard"@, commit@]),
        is_line(r_disable_sparse_checkout@, seq!["sparse-checkout"@, "disable"@]),
        is_line(r_reset_mixed@, seq!["reset"@, "--mixed"@, commit@]),
        is_line(r_delete_ref@, seq!["update-ref"@, "-d"@, reference@, expected@]),
        is_line(r_advance_ref@, seq!["update-ref"@, reference@, commit@, previous@]),
        is_line(r_worktree_prune@, seq!["worktree"@, "prune"@]),
        is_line(r_read_tree@, seq!["read-tree"@, commit@]),
        is_line(r_add_everything@, seq!["add"@, "-A"@, "--"@, "."@]),
        is_line(r_apply_to_index_3way@, seq!["apply"@, "--cached"@, "--3way"@, "--whitespace=nowarn"@, "-"@]),
        is_line(r_apply_to_index@, seq!["apply"@, "--cached"@, "--whitespace=nowarn"@, "-"@]),
        is_line(r_write_tree@, seq!["write-tree"@]),
        is_line(r_commit_tree@, seq!["commit-tree"@, tree@, "-p"@, parent@]),
        is_line(r_fast_forward@, seq!["merge"@, "--ff-only"@, "--no-edit"@, commit@]),
{
    lemma_line(r_reset_hard@, seq!["reset"@, "--hard"@, commit@]);
    lemma_line(r_disable_sparse_checkout@, seq!["sparse-checkout"@, "disable"@]);
    lemma_line(r_reset_mixed@, seq!["reset"@, "--mixed"@, commit@]);
    lemma_line(r_delete_ref@, seq!["update-ref"@, "-d"@, reference@, expected@]);
    lemma_line(r_advance_ref@, seq!["update-ref"@, reference@, commit@, previous@]);
    lemma_line(r_worktree_prune@, seq!["worktree"@, "prune"@]);
    lemma_line(r_read_tree@, seq!["read-tree"@, commit@]);
    lemma_line(r_add_everything@, seq!["add"@, "-A"@, "--"@, "."@]);
    lemma_line(r_apply_to_index_3way@, seq!["apply"@, "--cached"@, "--3way"@, "--whitespace=nowarn"@, "-"@]);
    lemma_line(r_apply_to_index@, seq!["apply"@, "--cached"@, "--whitespace=nowarn"@, "-"@]);
    lemma_line(r_write_tree@, seq!["write-tree"@]);
    lemma_line(r_commit_tree@, seq!["commit-tree"@, tree@, "-p"@, parent@]);
    lemma_line(r_fast_forward@, seq!["merge"@, "--ff-only"@, "--no-edit"@, commit@]);
}

/// A status is asked for in full, with every untracked file, and leaves out what
/// submodules hold only where that is asked.
pub proof fn law_statuses_leave_nothing_out(ignore: bool, r: Vec<Vec<u8>>)
    requires
        call_ensures(commands::status, (ignore,), r),
    ensures
        r@.len() == 5,
        r@[0]@ == encode_utf8("status"@),
        r@[1]@ == encode_utf8("--porcelain=v2"@),
        r@[2]@ == encode_utf8("-z"@),
        r@[3]@ == encode_utf8("--untracked-files=all"@),
        r@[4]@ == encode_utf8(
            if ignore {
                "--ignore-submodules=dirty"@
            } else {
                "--ignore-submodules=none"@
            },
        ),
{
    let words = seq![
        "status"@,
        "--porcelain=v2"@,
        "-z"@,
        "--untracked-files=all"@,
        if ignore {
            "--ignore-submodules=dirty"@
        } else {
            "--ignore-submodules=none"@
        },
    ];
    lemma_line(r@, words);
    assert(r@[0]@ == encode_utf8(words[0]) && r@[1]@ == encode_utf8(words[1]) && r@[2]@
        == encode_utf8(words[2]) && r@[3]@ == encode_utf8(words[3]) && r@[4]@ == encode_utf8(
        words[4],
    ));
}

/// A new worktree is made equal to its base, and first loses a sparse checkout
/// that it inherited.
pub proof fn law_new_worktrees_are_checked_out_whole(
    base: &str,
    sparse: bool,
    r: Vec<Vec<Vec<u8>>>,
)
    requires
        call_ensures(commands::finish_worktree_creation, (base, sparse), r),
    ensures
        r@.len() == (if sparse {
            2int
        } else {
            1
        }),
        sparse ==> is_line(r@[0]@, seq!["sparse-checkout"@, "disable"@]),
        is_line(r@.last()@, seq!["reset"@, "--hard"@, base@]),
{
    let all = commands::line_views(r@);
    assert(all.len() == r@.len());
    assert(all[0] == bytes::views(r@[0]@));
    assert(all.last() == bytes::views(r@.last()@));
    if sparse {
        lemma_line(r@[0]@, seq!["sparse-checkout"@, "disable"@]);
    }
    lemma_line(r@.last()@, seq!["reset"@, "--hard"@, base@]);
}

/// A reference is created only where there is none: its old value must be all
/// zeros, as many as the commit has bytes.
pub proof fn law_references_are_created_only_where_absent(
    reference: &str,
    commit: &str,
    r: Vec<Vec<u8>>,
)
    requires
        call_ensures(commands::create_ref, (reference, commit), r),
    ensures
        r@.len() == 4,
        r@[0]@ == encode_utf8("update-ref"@),
        r@[1]@ == encode_utf8(reference@),
        r@[2]@ == encode_utf8(commit@),
        exists|zeros: Seq<char>|
            zeros.len() == encode_utf8(commit@).len() && (forall|i: int|
                0 <= i < zeros.len() ==> #[trigger] zeros[i] == '0') && r@[3]@ == #[trigger] encode_utf8(
                zeros,
            ),
{
    let zeros = commands::zeros(validate::byte_len(commit@));
    let words = seq!["update-ref"@, reference@, commit@, zeros];
    lemma_line(r@, words);
    assert(r@[0]@ == encode_utf8(words[0]) && r@[1]@ == encode_utf8(words[1]) && r@[2]@
        == encode_utf8(words[2]) && r@[3]@ == encode_utf8(words[3]));
}

/// A worktree is added at its path on a new branch from its base, with nothing
/// checked out, and removed at its path.
pub proof fn law_worktrees_are_added_and_removed_by_path(
    path: NativePath,
    branch: &str,
    base: &str,
    force: bool,
    added: Vec<Vec<u8>>,
    removed: Vec<Vec<u8>>,
)
    requires
        call_ensures(commands::add_worktree, (&path, branch, base), added),
        call_ensures(commands::remove_worktree, (&path, force), removed),
    ensures
        added@.len() == 7,
        added@[5]@ == path.bytes@,
        added@[6]@ == encode_utf8(base@),
        is_line(added@.take(5), seq!["worktree"@, "add"@, "--no-checkout"@, "-b"@, branch@]),
        removed@.last()@ == path.bytes@,
        is_line(
            removed@.drop_last(),
            if force {
                seq!["worktree"@, "remove"@, "--force"@]
            } else {
                seq!["worktree"@, "remove"@]
            },
        ),
{
    let a = bytes::views(added@);
    assert(a.len() == added@.len());
    assert(a[5] == added@[5]@ && a[6] == added@[6]@);
    assert(bytes::views(added@.take(5)) =~= a.take(5));
    let words = seq!["worktree"@, "add"@, "--no-checkout"@, "-b"@, branch@];
    assert(a.take(5) =~= commands::encoded(words));
    lemma_line(added@.take(5), words);
    let b = bytes::views(removed@);
    assert(b.len() == removed@.len());
    assert(b.last() == removed@.last()@);
    assert(bytes::views(removed@.drop_last()) =~= b.drop_last());
    let wanted = if force {
        seq!["worktree"@, "remove"@, "--force"@]
    } else {
        seq!["worktree"@, "remove"@]
    };
    assert(b.drop_last() =~= commands::encoded(wanted));
    lemma_line(removed@.drop_last(), wanted);
}

/// Every command runs without optional locks, with hooks from a directory of
/// ours alone, and without a monitor, signing, or an external diff.
pub proof fn law_commands_run_hardened(hooks: NativePath, r: Vec<Vec<u8>>)
    requires
        call_ensures(commands::hardening, (&hooks,), r),
    ensures
        r@.len() == 9,
        r@[0]@ == encode_utf8("--no-optional-locks"@),
        r@[1]@ == encode_utf8("-c"@) && r@[3]@ == encode_utf8("-c"@),
        r@[5]@ == encode_utf8("-c"@) && r@[7]@ == encode_utf8("-c"@),
        r@[2]@ == encode_utf8("core.hooksPath="@) + hooks.bytes@,
        r@[4]@ == encode_utf8("core.fsmonitor=false"@),
        r@[6]@ == encode_utf8("commit.gpgSign=false"@),
        r@[8]@ == encode_utf8("diff.external="@),
{
    let a = bytes::views(r@);
    let start = commands::encoded(seq!["--no-optional-locks"@, "-c"@]);
    assert(start.len() == 2 && start[0] == encode_utf8("--no-optional-locks"@) && start[1]
        == encode_utf8("-c"@));
    assert(a.len() == r@.len());
    assert(a[0] == r@[0]@ && a[1] == r@[1]@ && a[2] == r@[2]@ && a[3] == r@[3]@ && a[4] == r@[4]@
        && a[5] == r@[5]@ && a[6] == r@[6]@ && a[7] == r@[7]@ && a[8] == r@[8]@);
}

/// A commit has one identity as its author and its committer.
pub proof fn law_commits_have_one_identity(
    name: &str,
    email: &str,
    r: Vec<Variable>,
    index: NativePath,
    at: Variable,
)
    requires
        call_ensures(commands::identity_env, (name, email), r),
        call_ensures(commands::index_env, (&index,), at),
    ensures
        r@.len() == 4,
        r@[0].key@ == "GIT_AUTHOR_NAME"@ && r@[0].value@ == encode_utf8(name@),
        r@[1].key@ == "GIT_AUTHOR_EMAIL"@ && r@[1].value@ == encode_utf8(email@),
        r@[2].key@ == "GIT_COMMITTER_NAME"@ && r@[2].value@ == encode_utf8(name@),
        r@[3].key@ == "GIT_COMMITTER_EMAIL"@ && r@[3].value@ == encode_utf8(email@),
        at.key@ == "GIT_INDEX_FILE"@ && at.value@ == index.bytes@,
{
    let a = commands::variables(r@);
    assert(a.len() == r@.len());
    assert(a[0] == (r@[0].key@, r@[0].value@) && a[1] == (r@[1].key@, r@[1].value@) && a[2] == (
        r@[2].key@,
        r@[2].value@,
    ) && a[3] == (r@[3].key@, r@[3].value@));
}

/// A range ends at `HEAD`, and a branch is named in full.
pub proof fn law_ranges_end_at_head(base: &str, range: String, branch: &str, full: String)
    requires
        call_ensures(commands::range_from, (base,), range),
        call_ensures(commands::branch_ref, (branch,), full),
    ensures
        range@ == base@ + "..HEAD"@,
        full@ == "refs/heads/"@ + branch@,
{
}

} // verus!
