//! What is read from Git's output.

use vstd::prelude::*;
use vstd::string::*;
use vstd::utf8::*;

use crate::error::Error;
use crate::git::{CapturedOutput, GitExit, WorktreeRecord, WorktreeView};
use crate::git_path::GitPath;
use crate::laws::evidence;
use crate::laws::ignoring;
use crate::laws::inputs;
use crate::laws::records;
use crate::laws::wording;
use crate::paths::NativePath;
use crate::{bytes, digest, git, git_path, laws, paths, record, text, validate};

verus! {

/// The pieces of output between its NUL bytes.
pub open spec fn cut(out: Seq<u8>) -> Seq<Seq<u8>>
    decreases out.len(),
{
    if out.len() == 0 {
        seq![Seq::<u8>::empty()]
    } else if out.last() == 0 {
        cut(out.drop_last()).push(Seq::<u8>::empty())
    } else {
        let before = cut(out.drop_last());
        before.drop_last().push(before.last().push(out.last()))
    }
}

/// The fields of output: its pieces that hold something.
pub open spec fn fields(out: Seq<u8>) -> Seq<Seq<u8>> {
    cut(out).filter(|f: Seq<u8>| f.len() > 0)
}

proof fn lemma_cut(out: Seq<u8>)
    ensures
        cut(out) == bytes::split_on(out, 0),
    decreases out.len(),
{
    if out.len() > 0 {
        lemma_cut(out.drop_last());
    }
}

pub(crate) proof fn lemma_fields(out: Seq<u8>)
    ensures
        fields(out) == git::fields_of(out),
{
    lemma_cut(out);
    let ours = |f: Seq<u8>| f.len() > 0;
    let theirs = |piece: Seq<u8>| piece.len() > 0;
    assert(ours =~= theirs);
}

/// Paths are read one for each field, and as they are written.
pub proof fn law_paths_are_read_field_by_field(out: &[u8], r: Vec<GitPath>)
    requires
        call_ensures(git::parse_nul_paths, (out,), r),
    ensures
        r@.len() == fields(out@).len(),
        forall|i: int|
            0 <= i < r@.len() ==> ignoring::stands_for(#[trigger] r@[i], fields(out@)[i]) && (r@[i]
                is Utf8 <==> valid_utf8(fields(out@)[i])),
{
    lemma_fields(out@);
    laws::lemma_views(r@);
    assert(record::views(r@).len() == r@.len());
    assert forall|i: int| 0 <= i < r@.len() implies ignoring::stands_for(
        #[trigger] r@[i],
        fields(out@)[i],
    ) && (r@[i] is Utf8 <==> valid_utf8(fields(out@)[i])) by {
        let raw = fields(out@)[i];
        assert(record::views(r@)[i] == git_path::encoding_of(raw));
        if valid_utf8(raw) {
            decode_utf8_encode_utf8(raw);
        }
    }
}

proof fn lemma_texts(row: Seq<String>)
    ensures
        git::texts(row).len() == row.len(),
        forall|i: int| 0 <= i < row.len() ==> #[trigger] git::texts(row)[i] == row[i]@,
        forall|i: int| 0 <= i < row.len() ==> git::texts(row)[i] == (#[trigger] row[i])@,
{
}

/// Texts are read one for each field, exactly where all of them are UTF-8.
pub proof fn law_texts_are_read_field_by_field(
    out: &[u8],
    r: std::result::Result<Vec<String>, Error>,
)
    requires
        call_ensures(git::parse_nul_strings, (out,), r),
    ensures
        r is Ok <==> forall|i: int|
            0 <= i < fields(out@).len() ==> valid_utf8(#[trigger] fields(out@)[i]),
        r matches Ok(row) ==> row@.len() == fields(out@).len() && forall|i: int|
            0 <= i < row@.len() ==> encode_utf8((#[trigger] row@[i])@) == fields(out@)[i],
{
    lemma_fields(out@);
    if let Ok(row) = r {
        lemma_texts(row@);
        assert forall|i: int| 0 <= i < row@.len() implies encode_utf8((#[trigger] row@[i])@)
            == fields(out@)[i] by {
            assert(git::texts(row@)[i] == decode_utf8(fields(out@)[i]));
            decode_utf8_encode_utf8(fields(out@)[i]);
        }
    }
}

/// The pieces of a text between white space.
pub open spec fn spaced(t: Seq<char>) -> Seq<Seq<char>>
    decreases t.len(),
{
    if t.len() == 0 {
        seq![Seq::<char>::empty()]
    } else if laws::is_space(t.last()) {
        spaced(t.drop_last()).push(Seq::<char>::empty())
    } else {
        let before = spaced(t.drop_last());
        before.drop_last().push(before.last().push(t.last()))
    }
}

/// The words of a text.
pub open spec fn words(t: Seq<char>) -> Seq<Seq<char>> {
    spaced(t).filter(|w: Seq<char>| w.len() > 0)
}

proof fn lemma_spaced(t: Seq<char>)
    ensures
        spaced(t) == git::space_pieces(t),
    decreases t.len(),
{
    if t.len() > 0 {
        lemma_spaced(t.drop_last());
    }
}

proof fn lemma_words(t: Seq<char>)
    ensures
        words(t) == git::words_of(t),
{
    lemma_spaced(t);
}

/// A text is read as its words.
pub proof fn law_words_stand_between_white_space(t: &str, r: Vec<String>)
    requires
        call_ensures(git::words, (t,), r),
    ensures
        r@.len() == words(t@).len(),
        forall|i: int| 0 <= i < r@.len() ==> (#[trigger] r@[i])@ == words(t@)[i],
{
    lemma_words(t@);
    lemma_texts(r@);
    assert forall|i: int| 0 <= i < r@.len() implies (#[trigger] r@[i])@ == words(t@)[i] by {
        assert(git::texts(r@)[i] == r@[i]@);
    }
}

/// A word of a header, or nothing.
pub open spec fn word(header: Seq<u8>, n: int) -> Seq<char> {
    let row = words(decode_utf8(header));
    if n < row.len() {
        row[n]
    } else {
        Seq::empty()
    }
}

/// Whether a record of a raw diff is about a submodule: its new mode is that of
/// a commit.
pub open spec fn is_link(f: Seq<Seq<u8>>, k: int) -> bool {
    word(f[2 * k], 1) == "160000"@
}

/// Whether a record of a raw diff can be read: a header that is text and no
/// rename, and a path, which must be text where it is a submodule's.
pub open spec fn is_record(f: Seq<Seq<u8>>, k: int) -> bool {
    &&& valid_utf8(f[2 * k])
    &&& {
        let status = word(f[2 * k], 4);
        status.len() == 0 || status[0] != 'R' && status[0] != 'C'
    }
    &&& is_link(f, k) ==> valid_utf8(f[2 * k + 1])
}

/// Whether positions are exactly those of the records about submodules, in
/// order.
pub open spec fn lists_links(at: Seq<int>, f: Seq<Seq<u8>>) -> bool {
    &&& forall|i: int, j: int| 0 <= i < j < at.len() ==> #[trigger] at[i] < #[trigger] at[j]
    &&& forall|i: int| 0 <= i < at.len() ==> 0 <= #[trigger] at[i] < f.len() / 2 && is_link(f, at[i])
    &&& forall|k: int| 0 <= k < f.len() / 2 && #[trigger] is_link(f, k) ==> at.contains(k)
}

pub(crate) proof fn lemma_links(f: Seq<Seq<u8>>) -> (at: Seq<int>)
    ensures
        git::gitlinks_of(f) is Ok <==> f.len() % 2 == 0 && forall|k: int|
            0 <= k < f.len() / 2 ==> #[trigger] is_record(f, k),
        lists_links(at, f),
        git::gitlinks_of(f) matches Ok(row) ==> row.len() == at.len() && forall|i: int|
            0 <= i < row.len() ==> #[trigger] row[i] == decode_utf8(f[2 * at[i] + 1]),
    decreases f.len(),
{
    if f.len() < 2 {
        if f.len() == 1 {
            assert(git::gitlinks_of(f) is Err);
        }
        Seq::empty()
    } else {
        let rest = f.skip(2);
        let later = lemma_links(rest);
        lemma_words(decode_utf8(f[0]));
        assert forall|k: int| 0 <= k < rest.len() / 2 implies is_record(rest, k) == #[trigger] is_record(
            f,
            k + 1,
        ) && is_link(rest, k) == #[trigger] is_link(f, k + 1) by {
            assert(rest[2 * k] == f[2 * (k + 1)]);
            assert(rest[2 * k + 1] == f[2 * (k + 1) + 1]);
        }
        let head: Seq<int> = if is_link(f, 0) {
            seq![0int]
        } else {
            Seq::empty()
        };
        let moved = Seq::new(later.len(), |i: int| later[i] + 1);
        let at = head + moved;
        assert(f[2 * 0int] == f[0] && f[2 * 0int + 1] == f[1]);
        assert forall|i: int| 0 <= i < at.len() implies 0 <= #[trigger] at[i] < f.len() / 2
            && is_link(f, at[i]) by {
            if i >= head.len() {
                let k = later[i - head.len()];
                assert(is_link(rest, k));
                assert(is_link(f, k + 1));
            }
        }
        assert forall|i: int, j: int| 0 <= i < j < at.len() implies #[trigger] at[i]
            < #[trigger] at[j] by {
            if i >= head.len() {
                assert(later[i - head.len()] < later[j - head.len()]);
            } else {
                assert(at[j] == later[j - head.len()] + 1);
            }
        }
        assert forall|k: int| 0 <= k < f.len() / 2 && #[trigger] is_link(f, k) implies at.contains(
            k,
        ) by {
            if k == 0 {
                assert(at[0] == 0);
            } else {
                assert(is_link(f, (k - 1) + 1));
                assert(is_link(rest, k - 1));
                assert(later.contains(k - 1));
                let i = later.index_of(k - 1);
                assert(at[head.len() + i] == k);
            }
        }
        assert(git::gitlinks_of(f) is Ok <==> is_record(f, 0) && git::gitlinks_of(rest) is Ok);
        if git::gitlinks_of(f) is Ok {
            assert forall|k: int| 0 <= k < f.len() / 2 implies #[trigger] is_record(f, k) by {
                if k > 0 {
                    assert(is_record(f, (k - 1) + 1) == is_record(rest, k - 1));
                }
            }
            let row = git::gitlinks_of(f)->Ok_0;
            let more = git::gitlinks_of(rest)->Ok_0;
            assert forall|i: int| 0 <= i < row.len() implies #[trigger] row[i] == decode_utf8(
                f[2 * at[i] + 1],
            ) by {
                if i >= head.len() {
                    let j = i - head.len();
                    assert(row[i] == more[j]);
                    assert(rest[2 * later[j] + 1] == f[2 * at[i] + 1]);
                }
            }
        }
        if f.len() % 2 == 0 && forall|k: int| 0 <= k < f.len() / 2 ==> #[trigger] is_record(f, k) {
            assert(is_record(f, 0));
            assert forall|k: int| 0 <= k < rest.len() / 2 implies #[trigger] is_record(rest, k) by {
                assert(is_record(f, k + 1));
            }
        }
        at
    }
}

/// A raw diff is read exactly where it is made of whole records without renames.
/// What is found are the paths of the records about submodules, in order.
pub proof fn law_submodules_are_read_from_whole_records(
    out: &[u8],
    r: std::result::Result<Vec<String>, Error>,
)
    requires
        call_ensures(git::parse_changed_gitlinks, (out,), r),
    ensures
        r is Ok <==> fields(out@).len() % 2 == 0 && forall|k: int|
            0 <= k < fields(out@).len() / 2 ==> #[trigger] is_record(fields(out@), k),
        r matches Ok(row) ==> exists|at: Seq<int>| #[trigger]
            lists_links(at, fields(out@)) && row@.len() == at.len() && forall|i: int|
                0 <= i < at.len() ==> encode_utf8((#[trigger] row@[i])@) == fields(
                    out@,
                )[2 * at[i] + 1],
{
    lemma_fields(out@);
    let f = fields(out@);
    let at = lemma_links(f);
    if let Ok(row) = r {
        lemma_texts(row@);
        assert forall|i: int| 0 <= i < at.len() implies encode_utf8((#[trigger] row@[i])@) == f[2
            * at[i] + 1] by {
            assert(git::texts(row@)[i] == decode_utf8(f[2 * at[i] + 1]));
            assert(is_link(f, at[i]));
            assert(is_record(f, at[i]));
            decode_utf8_encode_utf8(f[2 * at[i] + 1]);
        }
    }
}

/// Whether a text begins with another.
pub open spec fn begins(t: Seq<char>, with: Seq<char>) -> bool {
    with.len() <= t.len() && t.take(with.len() as int) == with
}

/// What the last of some fields that begins in a way says after that.
pub open spec fn last_of(
    value: Option<Seq<char>>,
    with: Seq<char>,
    f: Seq<Seq<char>>,
    from: int,
    to: int,
) -> bool {
    match value {
        None => forall|k: int| from <= k < to ==> !begins(#[trigger] f[k], with),
        Some(v) => exists|k: int| #[trigger] says_last(v, with, f, k, from, to),
    }
}

/// Whether a field is the last among some that begins in a way, and says `v`
/// after that.
pub open spec fn says_last(
    v: Seq<char>,
    with: Seq<char>,
    f: Seq<Seq<char>>,
    k: int,
    from: int,
    to: int,
) -> bool {
    from <= k < to && f[k] == with + v && forall|j: int|
        k < j < to ==> !begins(#[trigger] f[j], with)
}

/// Whether a worktree is what the fields from one on, up to another, say.
pub open spec fn is_worktree(
    path: Seq<u8>,
    head: Option<Seq<char>>,
    branch: Option<Seq<char>>,
    bare: bool,
    f: Seq<Seq<char>>,
    from: int,
    to: int,
) -> bool {
    &&& begins(f[from], "worktree "@)
    &&& path == encode_utf8(f[from].skip(9))
    &&& last_of(head, "HEAD "@, f, from + 1, to)
    &&& last_of(branch, "branch refs/heads/"@, f, from + 1, to)
    &&& bare <==> exists|k: int| from < k < to && #[trigger] f[k] == "bare"@
}

/// Whether positions are exactly those where a worktree begins, in order.
pub open spec fn lists_worktrees(at: Seq<int>, f: Seq<Seq<char>>) -> bool {
    &&& forall|i: int, j: int| 0 <= i < j < at.len() ==> #[trigger] at[i] < #[trigger] at[j]
    &&& forall|i: int|
        0 <= i < at.len() ==> 0 <= #[trigger] at[i] < f.len() && begins(f[at[i]], "worktree "@)
    &&& forall|k: int| 0 <= k < f.len() && begins(#[trigger] f[k], "worktree "@) ==> at.contains(k)
}

/// Where the fields of a worktree end.
pub open spec fn end_of(at: Seq<int>, i: int, f: Seq<Seq<char>>) -> int {
    if i + 1 < at.len() {
        at[i + 1]
    } else {
        f.len() as int
    }
}

pub open spec fn is_view(w: WorktreeView, f: Seq<Seq<char>>, from: int, to: int) -> bool {
    is_worktree(w.path, w.head, w.branch, w.bare, f, from, to)
}

proof fn lemma_shorter(w: WorktreeView, f: Seq<Seq<char>>, g: Seq<Seq<char>>, from: int, to: int)
    requires
        0 <= from < to <= f.len() <= g.len(),
        g.take(f.len() as int) == f,
        is_view(w, f, from, to),
    ensures
        is_view(w, g, from, to),
{
    assert forall|k: int| 0 <= k < f.len() implies f[k] == #[trigger] g[k] by {
        assert(g.take(f.len() as int)[k] == g[k]);
    }
    assert(f[from] == g[from]);
    if let Some(v) = w.head {
        let k = choose|k: int| #[trigger] says_last(v, "HEAD "@, f, k, from + 1, to);
        assert(f[k] == g[k]);
        assert(says_last(v, "HEAD "@, g, k, from + 1, to)) by {
            assert forall|j: int| k < j < to implies !begins(#[trigger] g[j], "HEAD "@) by {
                assert(f[j] == g[j]);
            }
        }
    } else {
        assert forall|k: int| from + 1 <= k < to implies !begins(#[trigger] g[k], "HEAD "@) by {
            assert(f[k] == g[k]);
        }
    }
    if let Some(v) = w.branch {
        let b = "branch refs/heads/"@;
        let k = choose|k: int| #[trigger] says_last(v, b, f, k, from + 1, to);
        assert(f[k] == g[k]);
        assert(says_last(v, b, g, k, from + 1, to)) by {
            assert forall|j: int| k < j < to implies !begins(#[trigger] g[j], b) by {
                assert(f[j] == g[j]);
            }
        }
    } else {
        assert forall|k: int| from + 1 <= k < to implies !begins(
            #[trigger] g[k],
            "branch refs/heads/"@,
        ) by {
            assert(f[k] == g[k]);
        }
    }
    if w.bare {
        let k = choose|k: int| from < k < to && #[trigger] f[k] == "bare"@;
        assert(g[k] == "bare"@);
    }
    if exists|k: int| from < k < to && #[trigger] g[k] == "bare"@ {
        let k = choose|k: int| from < k < to && #[trigger] g[k] == "bare"@;
        assert(f[k] == "bare"@);
    }
}

proof fn lemma_last_of(
    value: Option<Seq<char>>,
    next: Option<Seq<char>>,
    with: Seq<char>,
    f: Seq<Seq<char>>,
    from: int,
)
    requires
        0 <= from < f.len(),
        last_of(value, with, f, from, f.len() - 1),
        next == (if begins(f.last(), with) {
            Some(f.last().skip(with.len() as int))
        } else {
            value
        }),
    ensures
        last_of(next, with, f, from, f.len() as int),
{
    let n = f.len() as int;
    let field = f.last();
    if begins(field, with) {
        let v = field.skip(with.len() as int);
        assert(with + v =~= field);
        assert(next == Some(v));
        assert(says_last(next->0, with, f, n - 1, from, n));
        assert(exists|k: int| #[trigger] says_last(next->0, with, f, k, from, n));
        assert(last_of(next, with, f, from, n));
    } else if let Some(v) = value {
        let k = choose|k: int| #[trigger] says_last(v, with, f, k, from, n - 1);
        assert(says_last(v, with, f, k, from, n)) by {
            assert forall|j: int| k < j < n implies !begins(#[trigger] f[j], with) by {
                assert(j < n - 1 || f[j] == field);
            }
        }
        assert(last_of(next, with, f, from, n));
    } else {
        assert forall|k: int| from <= k < n implies !begins(#[trigger] f[k], with) by {
            assert(k < n - 1 || f[k] == field);
        }
        assert(next is None);
        assert(last_of(next, with, f, from, n));
    }
}

proof fn lemma_apart(t: Seq<char>)
    ensures
        "worktree "@.len() == 9,
        begins(t, "HEAD "@) ==> !begins(t, "branch refs/heads/"@) && t != "bare"@,
        begins(t, "branch refs/heads/"@) ==> t != "bare"@,
{
    reveal_strlit("worktree ");
    reveal_strlit("HEAD ");
    reveal_strlit("branch refs/heads/");
    reveal_strlit("bare");
    if begins(t, "HEAD "@) {
        assert(t.take(5)[0] == t[0]);
        if begins(t, "branch refs/heads/"@) {
            assert(t.take(18)[0] == t[0]);
        }
    }
}

proof fn lemma_extended(w: WorktreeView, f: Seq<Seq<char>>, from: int)
    requires
        0 <= from < f.len() - 1,
        is_view(w, f, from, f.len() - 1),
        !begins(f.last(), "worktree "@),
    ensures
        ({
            let field = f.last();
            let next = if text::has_prefix(field, "HEAD "@) {
                WorktreeView { head: Some(field.skip("HEAD "@.len() as int)), ..w }
            } else if text::has_prefix(field, "branch refs/heads/"@) {
                WorktreeView {
                    branch: Some(field.skip("branch refs/heads/"@.len() as int)),
                    ..w
                }
            } else if field == "bare"@ {
                WorktreeView { bare: true, ..w }
            } else {
                w
            };
            is_view(next, f, from, f.len() as int)
        }),
{
    let n = f.len() as int;
    let field = f.last();
    lemma_apart(field);
    let head = if begins(field, "HEAD "@) {
        Some(field.skip("HEAD "@.len() as int))
    } else {
        w.head
    };
    lemma_last_of(w.head, head, "HEAD "@, f, from + 1);
    let b = "branch refs/heads/"@;
    let branch = if begins(field, b) {
        Some(field.skip(b.len() as int))
    } else {
        w.branch
    };
    lemma_last_of(w.branch, branch, b, f, from + 1);
    assert(f[n - 1] == field);
    if w.bare {
        let k = choose|k: int| from < k < n - 1 && #[trigger] f[k] == "bare"@;
        assert(from < k < n && f[k] == "bare"@);
    }
}

proof fn lemma_worktrees(f: Seq<Seq<char>>) -> (at: Seq<int>)
    ensures
        lists_worktrees(at, f),
        ({
            let state = git::worktrees_state(f);
            let rows = git::all_worktrees(state);
            &&& rows.len() == at.len()
            &&& (state.current is None) <==> at.len() == 0
            &&& forall|i: int|
                0 <= i < at.len() ==> is_view(#[trigger] rows[i], f, at[i], end_of(at, i, f))
        }),
    decreases f.len(),
{
    if f.len() == 0 {
        Seq::empty()
    } else {
        let front = f.drop_last();
        let n = front.len() as int;
        let before = lemma_worktrees(front);
        let old_state = git::worktrees_state(front);
        let old_rows = git::all_worktrees(old_state);
        let state = git::worktrees_state(f);
        let rows = git::all_worktrees(state);
        assert(f.take(n) =~= front);
        let field = f.last();
        lemma_apart(field);
        assert forall|k: int| 0 <= k < n implies #[trigger] f[k] == front[k] by {}
        if begins(field, "worktree "@) {
            let at = before.push(n);
            assert(rows =~= old_rows.push(state.current->0));
            assert forall|i: int| 0 <= i < at.len() implies is_view(
                #[trigger] rows[i],
                f,
                at[i],
                end_of(at, i, f),
            ) by {
                if i < before.len() {
                    assert(rows[i] == old_rows[i]);
                    assert(end_of(before, i, front) == end_of(at, i, f));
                    if i + 1 < before.len() {
                        assert(before[i] < before[i + 1]);
                    }
                    lemma_shorter(rows[i], front, f, at[i], end_of(at, i, f));
                }
            }
            assert forall|k: int| 0 <= k < f.len() && begins(
                #[trigger] f[k],
                "worktree "@,
            ) implies at.contains(k) by {
                if k < n {
                    assert(begins(front[k], "worktree "@));
                    let i = before.index_of(k);
                    assert(at[i] == k);
                } else {
                    assert(at[before.len() as int] == k);
                }
            }
            assert forall|i: int| 0 <= i < at.len() implies 0 <= #[trigger] at[i] < f.len()
                && begins(f[at[i]], "worktree "@) by {
                if i < before.len() {
                    assert(front[before[i]] == f[at[i]]);
                }
            }
            assert(lists_worktrees(at, f));
            at
        } else {
            assert forall|i: int| 0 <= i < before.len() implies is_view(
                #[trigger] rows[i],
                f,
                before[i],
                end_of(before, i, f),
            ) by {
                let to = end_of(before, i, front);
                if i + 1 < before.len() {
                    assert(before[i] < before[i + 1]);
                }
                lemma_shorter(old_rows[i], front, f, before[i], to);
                if i + 1 == before.len() {
                    lemma_extended(old_rows[i], f, before[i]);
                }
            }
            assert forall|k: int| 0 <= k < f.len() && begins(
                #[trigger] f[k],
                "worktree "@,
            ) implies before.contains(k) by {
                if k < n {
                    assert(begins(front[k], "worktree "@));
                }
            }
            assert forall|i: int| 0 <= i < before.len() implies 0 <= #[trigger] before[i] < f.len()
                && begins(f[before[i]], "worktree "@) by {
                assert(front[before[i]] == f[before[i]]);
            }
            assert(lists_worktrees(before, f));
            before
        }
    }
}

/// Worktrees are read exactly where all fields are text: one for each field that
/// begins one, with what the fields up to the next say of it.
pub proof fn law_worktrees_are_read_as_listed(
    out: &[u8],
    r: std::result::Result<Vec<WorktreeRecord>, Error>,
)
    requires
        call_ensures(git::parse_worktrees, (out,), r),
    ensures
        r is Ok <==> forall|i: int|
            0 <= i < fields(out@).len() ==> valid_utf8(#[trigger] fields(out@)[i]),
        r matches Ok(rows) ==> exists|f: Seq<Seq<char>>, at: Seq<int>| #[trigger]
            lists_worktrees(at, f) && f.len() == fields(out@).len() && (forall|i: int|
                0 <= i < f.len() ==> encode_utf8(#[trigger] f[i]) == fields(out@)[i])
                && rows@.len() == at.len() && (forall|i: int|
                0 <= i < at.len() ==> is_worktree(
                    (#[trigger] rows@[i]).path.bytes@,
                    laws::opt(rows@[i].head),
                    laws::opt(rows@[i].branch),
                    rows@[i].bare,
                    f,
                    at[i],
                    end_of(at, i, f),
                )),
{
    lemma_fields(out@);
    if let Ok(rows) = r {
        let f = git::texts_of(fields(out@))->0;
        let at = lemma_worktrees(f);
        laws::lemma_views(rows@);
        assert forall|i: int| 0 <= i < f.len() implies encode_utf8(#[trigger] f[i]) == fields(
            out@,
        )[i] by {
            decode_utf8_encode_utf8(fields(out@)[i]);
        }
        assert forall|i: int| 0 <= i < at.len() implies is_worktree(
            (#[trigger] rows@[i]).path.bytes@,
            laws::opt(rows@[i].head),
            laws::opt(rows@[i].branch),
            rows@[i].bare,
            f,
            at[i],
            end_of(at, i, f),
        ) by {
            let row = git::all_worktrees(git::worktrees_state(f));
            assert(record::views(rows@)[i] == row[i]);
            assert(is_view(row[i], f, at[i], end_of(at, i, f)));
        }
        assert(lists_worktrees(at, f));
    }
}

/// Whether an entry of the index is hidden: its tag is `S` or a small letter.
pub open spec fn is_tagged(entry: Seq<u8>) -> bool {
    entry.len() > 0 && (entry[0] == 83 || 97 <= entry[0] <= 122)
}

/// An index hides an entry exactly where the tag of one says so.
pub proof fn law_hidden_entries_are_tagged(out: &[u8], r: bool)
    requires
        call_ensures(git::hidden_index_entries, (out,), r),
    ensures
        r <==> exists|i: int| 0 <= i < cut(out@).len() && is_tagged(#[trigger] cut(out@)[i]),
{
    lemma_cut(out@);
    let all = bytes::split_on(out@, 0);
    assert forall|i: int| 0 <= i < all.len() implies (is_tagged(#[trigger] all[i])
        <==> git::is_hidden_entry(all[i])) by {}
    if r {
        let i = choose|i: int| 0 <= i < all.len() && git::is_hidden_entry(#[trigger] all[i]);
        assert(is_tagged(cut(out@)[i]));
    }
    if exists|i: int| 0 <= i < cut(out@).len() && is_tagged(#[trigger] cut(out@)[i]) {
        let i = choose|i: int| 0 <= i < cut(out@).len() && is_tagged(#[trigger] cut(out@)[i]);
        assert(git::is_hidden_entry(all[i]));
    }
}

/// A text without a plus sign in front.
pub open spec fn unsigned(t: Seq<char>) -> Seq<char> {
    if t.len() > 0 && t[0] == '+' {
        t.skip(1)
    } else {
        t
    }
}

/// Whether a text is a number: digits that stand for it, with an optional plus
/// sign.
pub open spec fn is_number(t: Seq<char>, n: u64) -> bool {
    &&& unsigned(t).len() > 0
    &&& forall|i: int| 0 <= i < unsigned(t).len() ==> '0' <= #[trigger] unsigned(t)[i] <= '9'
    &&& wording::value(unsigned(t)) == n
}

/// Whether a text is written like an object ID, in either case.
pub open spec fn is_printed_object(t: Seq<char>) -> bool {
    (t.len() == 40 || t.len() == 64) && forall|i: int|
        0 <= i < t.len() ==> '0' <= #[trigger] t[i] <= '9' || 'a' <= t[i] <= 'f' || 'A' <= t[i]
            <= 'F'
}

proof fn lemma_printed(t: Seq<char>)
    ensures
        is_printed_object(t) <==> git::is_printed_object_id(t),
{
    if is_printed_object(t) {
        assert forall|i: int| 0 <= i < t.len() implies validate::is_hex_digit(#[trigger] t[i]) by {}
    }
    if git::is_printed_object_id(t) {
        assert forall|i: int| 0 <= i < t.len() implies '0' <= #[trigger] t[i] <= '9' || 'a' <= t[i]
            <= 'f' || 'A' <= t[i] <= 'F' by {
            assert(validate::is_hex_digit(t[i]));
        }
    }
}

/// What Git prints is read without the white space around it, and only where it
/// is what was asked for.
pub proof fn law_printed_values_are_read_where_they_fit(
    value: &str,
    t: Seq<char>,
    sparse: std::result::Result<bool, Error>,
    ahead: std::result::Result<u64, Error>,
    commit: std::result::Result<String, Error>,
    reference: std::result::Result<String, Error>,
    head: Option<String>,
)
    requires
        evidence::trims(value@, t),
        call_ensures(git::sparse_checkout, (value,), sparse),
        call_ensures(git::commits_ahead, (value,), ahead),
        call_ensures(git::resolved_commit, (value,), commit),
        call_ensures(git::head_ref, (value,), reference),
        call_ensures(git::ref_head, (value,), head),
    ensures
        sparse == Ok::<bool, Error>(true) <==> t == "true"@,
        sparse == Ok::<bool, Error>(false) <==> t == "false"@,
        ahead matches Ok(n) ==> is_number(t, n),
        (exists|n: u64| #[trigger] is_number(t, n)) ==> ahead is Ok,
        commit is Ok <==> is_printed_object(t),
        commit matches Ok(c) ==> c@ == t,
        reference is Ok <==> records::is_reference(t),
        reference matches Ok(h) ==> h@ == t,
        head is None <==> t.len() == 0,
        head matches Some(h) ==> h@ == t,
{
    evidence::lemma_trims(value@);
    evidence::lemma_trims_one(value@, t, text::trim(value@));
    reveal_strlit("true");
    reveal_strlit("false");
    assert("true"@.len() != "false"@.len());
    lemma_printed(t);
    records::lemma_reference(t);
    let body = unsigned(t);
    assert(body == text::unsigned_digits(t));
    if text::all_digits(body) {
        wording::lemma_value(body);
    }
    if exists|n: u64| #[trigger] is_number(t, n) {
        let n = choose|n: u64| #[trigger] is_number(t, n);
        assert forall|i: int| 0 <= i < body.len() implies '0' <= #[trigger] body[i] <= '9' by {}
        assert(text::all_digits(body));
        wording::lemma_value(body);
    }
}

/// A base is handed to Git only where it cannot be read as an option, and as a
/// commit.
pub proof fn law_bases_are_asked_for_as_commits(
    revision: &str,
    r: std::result::Result<String, Error>,
)
    requires
        call_ensures(git::commit_argument, (revision,), r),
    ensures
        r is Ok <==> inputs::is_revision(revision@),
        r matches Ok(a) ==> a@ == revision@ + "^{commit}"@,
{
    inputs::lemma_revision(revision@);
}

/// A commit's parents are read only from a record about that commit.
pub proof fn law_parents_are_those_of_the_commit(
    value: &str,
    commit: &str,
    r: std::result::Result<Vec<String>, Error>,
    row: Vec<String>,
    sole: bool,
)
    requires
        call_ensures(git::parents, (value, commit), r),
        call_ensures(git::sole_parent, (&row, commit), sole),
    ensures
        r is Ok <==> words(value@).len() > 0 && words(value@)[0] == commit@ && is_printed_object(
            commit@,
        ),
        r matches Ok(found) ==> found@.len() == words(value@).len() - 1 && forall|i: int|
            0 <= i < found@.len() ==> (#[trigger] found@[i])@ == words(value@)[i + 1],
        sole <==> row@.len() == 1 && row@[0]@ == commit@,
{
    lemma_words(value@);
    lemma_printed(commit@);
    lemma_texts(row@);
    if row@.len() == 1 && row@[0]@ == commit@ {
        assert(git::texts(row@) =~= seq![commit@]);
    }
    if sole {
        assert(git::texts(row@)[0] == commit@);
        assert(git::texts(row@).len() == 1);
    }
    if let Ok(found) = r {
        lemma_texts(found@);
        assert forall|i: int| 0 <= i < found@.len() implies (#[trigger] found@[i])@ == words(
            value@,
        )[i + 1] by {
            assert(git::texts(found@)[i] == words(value@).skip(1)[i]);
        }
    }
}

/// A reference or a branch is deleted only where it is still at the commit that
/// is expected, and a branch only where no worktree has it checked out. Where
/// there is none, there is nothing to delete.
pub proof fn law_only_expected_references_are_deleted(
    name: &str,
    current: Option<String>,
    expected: &str,
    worktrees: Vec<WorktreeRecord>,
    r: std::result::Result<bool, Error>,
    b: std::result::Result<bool, Error>,
    out: bool,
)
    requires
        call_ensures(git::delete_ref_if_matches, (name, &current, expected), r),
        call_ensures(git::delete_branch_if_matches, (name, &current, expected, &worktrees), b),
        call_ensures(git::is_checked_out, (&worktrees, name), out),
    ensures
        r == Ok::<bool, Error>(true) <==> laws::opt(current) == Some(expected@),
        r == Ok::<bool, Error>(false) <==> current is None,
        b == Ok::<bool, Error>(true) <==> laws::opt(current) == Some(expected@) && !out,
        b == Ok::<bool, Error>(false) <==> current is None,
        out <==> exists|i: int|
            0 <= i < worktrees@.len() && laws::opt((#[trigger] worktrees@[i]).branch) == Some(name@),
{
    assert forall|i: int| 0 <= i < worktrees@.len() implies laws::opt(
        (#[trigger] worktrees@[i]).branch,
    ) == text::opt_view(worktrees@[i].branch) by {}
    if out {
        let i = choose|i: int|
            0 <= i < worktrees@.len() && text::opt_view((#[trigger] worktrees@[i]).branch) == Some(
                name@,
            );
        assert(laws::opt(worktrees@[i].branch) == Some(name@));
    }
}

/// A worktree is clean where its status says nothing, and its submodules are
/// dirty where the status says something else without them.
pub proof fn law_clean_worktrees_have_no_status(
    status: &[u8],
    without: &[u8],
    clean: bool,
    dirty: bool,
)
    requires
        call_ensures(git::clean, (status,), clean),
        call_ensures(git::dirty_submodules, (status, without), dirty),
    ensures
        clean <==> status@.len() == 0,
        dirty <==> status@ != without@,
{
}

/// Output is captured up to its bound, and anything beyond is noticed.
pub proof fn law_output_is_captured_up_to_its_bound(
    c: CapturedOutput,
    stream: Seq<u8>,
    cap: u64,
    r: CapturedOutput,
)
    requires
        c.captures(stream, cap as nat),
        call_ensures(CapturedOutput::finish, (c, cap), r),
    ensures
        r.exceeded == (stream.len() > cap),
        r.bytes@.len() <= cap,
        stream.len() <= cap ==> r.bytes@ == stream,
        stream.len() > cap ==> r.bytes@.len() == cap && forall|i: int|
            0 <= i < cap ==> #[trigger] r.bytes@[i] == stream[i],
{
    assert(c.captures(stream, cap as nat));
    let n = if stream.len() <= cap {
        stream.len() as int
    } else {
        cap as int
    };
    assert(r.bytes@ =~= stream.take(n));
    assert(stream.len() <= cap ==> stream.take(n) =~= stream);
}

/// A command yields its output exactly where it succeeded, was fed, and kept to
/// the bound. A failure of the command itself is told first.
pub proof fn law_commands_yield_whole_output(
    command: String,
    exit: GitExit,
    fed: Option<Error>,
    cap: u64,
    r: std::result::Result<Vec<u8>, Error>,
    t: Seq<char>,
)
    requires
        call_ensures(git::finish_command, (command, exit, fed, cap), r),
        evidence::trims(digest::lossy_text_of(exit.stderr@), t),
    ensures
        r is Ok <==> exit.success && fed is None && !exit.stdout.exceeded,
        r matches Ok(found) ==> found@ == exit.stdout.bytes@,
        !exit.success ==> (r matches Err(e) && (e matches Error::Git {
            command: c,
            status,
            stderr,
        } && c@ == command@ && status == (match exit.code {
            Some(n) => n,
            None => -1i32,
        }) && stderr@ == t)),
        exit.success && fed is None && exit.stdout.exceeded ==> (r matches Err(e) && (
        e matches Error::GitOutputTooLarge { command: c, cap: n } && c@ == command@ && n == cap)),
{
    evidence::lemma_trims(digest::lossy_text_of(exit.stderr@));
    evidence::lemma_trims_one(
        digest::lossy_text_of(exit.stderr@),
        t,
        text::trim(digest::lossy_text_of(exit.stderr@)),
    );
}

/// Output that must be text is read exactly where it is UTF-8. A path is in no
/// repository exactly where Git itself failed to find one.
pub proof fn law_output_text_is_read_exactly(
    out: Vec<u8>,
    r: std::result::Result<String, Error>,
    path: NativePath,
    e: Error,
    told: Error,
)
    requires
        call_ensures(git::output_text, (out,), r),
        call_ensures(git::repository_error, (&path, e), told),
    ensures
        r is Ok <==> valid_utf8(out@),
        r matches Ok(t) ==> encode_utf8(t@) == out@,
        e is Git ==> (told matches Error::NotRepository(p) && p.bytes@ == path.bytes@),
        !(e is Git) ==> !(told is NotRepository) || e is NotRepository,
{
    if valid_utf8(out@) {
        decode_utf8_encode_utf8(out@);
    }
}

/// A variable is Git's own where it begins with `GIT_`, in any case.
pub proof fn law_git_variables_begin_with_its_name(key: &[u8], r: bool)
    requires
        call_ensures(git::git_variable, (key,), r),
    ensures
        r <==> key@.len() >= 4 && (key@[0] == 71 || key@[0] == 103) && (key@[1] == 73 || key@[1]
            == 105) && (key@[2] == 84 || key@[2] == 116) && key@[3] == 95,
{
}

/// A command line shows the executable and each argument after a space.
pub proof fn law_command_lines_show_every_argument(
    executable: NativePath,
    arguments: Vec<Vec<u8>>,
    r: String,
    last: Vec<u8>,
    longer: Vec<Vec<u8>>,
    all: String,
)
    requires
        call_ensures(git::render_command, (&executable, &arguments), r),
        call_ensures(git::render_command, (&executable, &longer), all),
        longer@ == arguments@.push(last),
    ensures
        arguments@.len() == 0 ==> r@ == digest::lossy_text_of(executable.bytes@),
        all@ == r@ + seq![' '] + digest::lossy_text_of(last@),
{
    assert(bytes::views(arguments@).len() == arguments@.len());
    assert(bytes::views(longer@).drop_last() =~= bytes::views(arguments@));
    assert(bytes::views(longer@).last() == last@);
}

} // verus!
