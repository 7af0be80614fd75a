//! The Git command lines this crate relies on, and what their output means.

use vstd::prelude::*;
use vstd::string::*;
use vstd::utf8::*;

use crate::error::{Error, ErrorView};
use crate::git_path::{GitPath, GitPathView};
use crate::paths::NativePath;
use crate::record::Record;
use crate::{bytes, digest, git_path, paths, record, text, validate};

verus! {

/// Bound on ordinary command output in bytes.
pub const SMALL_OUTPUT_CAP: u64 = 1048576;

/// Bound on captured standard error in bytes.
pub const STDERR_CAP: u64 = 65536;

/// Bound on patch output in bytes.
pub const PATCH_OUTPUT_CAP: u64 = 67108864;

/// Where a repository lives.
#[derive(Debug, PartialEq, Eq)]
pub struct Repository {
    /// Top-level directory of the worktree.
    pub worktree: NativePath,
    /// Git directory that all worktrees of the repository share.
    pub common_dir: NativePath,
    /// Git directory of this worktree.
    pub git_dir: NativePath,
}

/// What a [`Repository`] holds.
pub struct RepositoryView {
    pub worktree: Seq<u8>,
    pub common_dir: Seq<u8>,
    pub git_dir: Seq<u8>,
}

impl View for Repository {
    type V = RepositoryView;

    open spec fn view(&self) -> RepositoryView {
        RepositoryView {
            worktree: self.worktree@,
            common_dir: self.common_dir@,
            git_dir: self.git_dir@,
        }
    }
}

/// One worktree that Git has registered.
#[derive(Debug, PartialEq, Eq)]
pub struct WorktreeRecord {
    /// Its path.
    pub path: NativePath,
    /// The branch checked out in it, if any.
    pub branch: Option<String>,
    /// Its `HEAD`, if known.
    pub head: Option<String>,
    /// Whether it is bare.
    pub bare: bool,
}

/// What a [`WorktreeRecord`] holds.
pub struct WorktreeView {
    pub path: Seq<u8>,
    pub branch: Option<Seq<char>>,
    pub head: Option<Seq<char>>,
    pub bare: bool,
}

impl View for WorktreeRecord {
    type V = WorktreeView;

    open spec fn view(&self) -> WorktreeView {
        WorktreeView {
            path: self.path@,
            branch: text::opt_view(self.branch),
            head: text::opt_view(self.head),
            bare: self.bare,
        }
    }
}

/// A complete change: the patch and the paths it touches.
#[derive(Debug, PartialEq, Eq)]
pub struct Snapshot {
    /// The patch bytes.
    pub patch: Vec<u8>,
    /// The changed paths, in Git's order.
    pub changed_paths: Vec<GitPath>,
}

/// What a [`Snapshot`] holds.
pub struct SnapshotView {
    pub patch: Seq<u8>,
    pub changed_paths: Seq<GitPathView>,
}

impl View for Snapshot {
    type V = SnapshotView;

    open spec fn view(&self) -> SnapshotView {
        SnapshotView {
            patch: self.patch@,
            changed_paths: record::views(self.changed_paths@),
        }
    }
}

impl Record for Snapshot {
    fn same(&self, other: &Self) -> (r: bool) {
        bytes::same_bytes(self.patch.as_slice(), other.patch.as_slice()) && record::same_rows(
            &self.changed_paths,
            &other.changed_paths,
        )
    }

    fn copy(&self) -> (r: Self) {
        Snapshot {
            patch: bytes::copy_bytes(self.patch.as_slice()),
            changed_paths: record::copy_rows(&self.changed_paths),
        }
    }
}

/// The pieces of a text between white space.
pub open spec fn space_pieces(t: Seq<char>) -> Seq<Seq<char>>
    decreases t.len(),
{
    if t.len() == 0 {
        seq![Seq::<char>::empty()]
    } else {
        let before = space_pieces(t.drop_last());
        if text::is_whitespace(t.last()) {
            before.push(Seq::<char>::empty())
        } else {
            before.drop_last().push(before.last().push(t.last()))
        }
    }
}

/// The words of a text: what stands between white space.
pub open spec fn words_of(t: Seq<char>) -> Seq<Seq<char>> {
    space_pieces(t).filter(|w: Seq<char>| w.len() > 0)
}

/// What each text of a row holds.
pub open spec fn texts(rows: Seq<String>) -> Seq<Seq<char>> {
    rows.map_values(|row: String| row@)
}

/// The words of a text; see [`words_of`].
pub fn words(t: &str) -> (r: Vec<String>)
    ensures
        texts(r@) == words_of(t@),
{
    let chars = text::text_chars(t);
    let mut done: Vec<String> = Vec::new();
    let mut current = String::new();
    let keep = Ghost(|w: Seq<char>| w.len() > 0);
    let ghost mut finished: Seq<Seq<char>> = Seq::empty();
    let mut i: usize = 0;
    proof {
        reveal(Seq::filter);
        assert(finished.push(current@) =~= space_pieces(t@.take(0)));
        assert(texts(done@) =~= finished.filter(keep@));
    }
    while i < chars.len()
        invariant
            chars@ == t@,
            i <= chars.len(),
            keep@ == (|w: Seq<char>| w.len() > 0),
            finished.push(current@) == space_pieces(t@.take(i as int)),
            texts(done@) == finished.filter(keep@),
        decreases chars.len() - i,
    {
        let c = chars[i];
        let ghost prefix = t@.take(i + 1);
        let ghost so_far = finished.push(current@);
        proof {
            assert(prefix.drop_last() =~= t@.take(i as int));
            assert(prefix.last() == c);
            assert(so_far.last() == current@);
            assert(so_far.drop_last() =~= finished);
        }
        if text::whitespace(c) {
            let ghost piece = current@;
            let ghost done_before = done@;
            let ghost finished_before = finished;
            proof {
                finished = finished.push(piece);
                lemma_filter_push(finished_before, piece);
            }
            if !current.as_str().is_empty() {
                done.push(current);
                proof {
                    assert(texts(done@) =~= texts(done_before).push(piece));
                }
            }
            current = String::new();
        } else {
            current.push(c);
        }
        i += 1;
    }
    proof {
        assert(t@.take(t@.len() as int) =~= t@);
        lemma_filter_push(finished, current@);
    }
    if !current.as_str().is_empty() {
        let ghost piece = current@;
        let ghost done_before = done@;
        done.push(current);
        proof {
            assert(texts(done@) =~= texts(done_before).push(piece));
        }
    }
    done
}

proof fn lemma_filter_push(rows: Seq<Seq<char>>, piece: Seq<char>)
    ensures
        rows.push(piece).filter(|w: Seq<char>| w.len() > 0) == if piece.len() > 0 {
            rows.filter(|w: Seq<char>| w.len() > 0).push(piece)
        } else {
            rows.filter(|w: Seq<char>| w.len() > 0)
        },
{
    reveal(Seq::filter);
    assert(rows.push(piece).drop_last() =~= rows);
    assert(rows.push(piece).last() == piece);
}

/// The texts that byte strings encode, where all of them are valid UTF-8.
pub open spec fn texts_of(fields: Seq<Seq<u8>>) -> Option<Seq<Seq<char>>> {
    if forall|i: int| 0 <= i < fields.len() ==> valid_utf8(#[trigger] fields[i]) {
        Some(fields.map_values(|f: Seq<u8>| decode_utf8(f)))
    } else {
        None
    }
}

/// The NUL-separated fields of command output that hold something.
pub open spec fn fields_of(output: Seq<u8>) -> Seq<Seq<u8>> {
    bytes::nonempty_pieces(bytes::split_on(output, 0))
}

/// Read NUL-separated paths, each in its one encoding.
pub fn parse_nul_paths(output: &[u8]) -> (r: Vec<GitPath>)
    ensures
        record::views(r@) == fields_of(output@).map_values(|f: Seq<u8>| git_path::encoding_of(f)),
{
    let fields = bytes::nul_fields(output);
    let ghost all = bytes::views(fields@);
    let ghost wanted = all.map_values(|f: Seq<u8>| git_path::encoding_of(f));
    let mut r: Vec<GitPath> = Vec::new();
    let mut i: usize = 0;
    proof {
        assert(record::views(r@) =~= wanted.take(0));
    }
    while i < fields.len()
        invariant
            i <= fields.len(),
            all == bytes::views(fields@),
            wanted == all.map_values(|f: Seq<u8>| git_path::encoding_of(f)),
            record::views(r@) == wanted.take(i as int),
        decreases fields.len() - i,
    {
        let ghost before = r@;
        let p = GitPath::from_raw(bytes::copy_bytes(fields[i].as_slice()));
        let ghost v = p@;
        r.push(p);
        proof {
            assert(all[i as int] == fields@[i as int]@);
            assert(record::views(r@) =~= record::views(before).push(v));
            assert(wanted.take(i + 1) =~= wanted.take(i as int).push(wanted[i as int]));
        }
        i += 1;
    }
    proof {
        assert(wanted.take(wanted.len() as int) =~= wanted);
    }
    r
}

/// Read NUL-separated text.
pub fn parse_nul_strings(output: &[u8]) -> (r: std::result::Result<Vec<String>, Error>)
    ensures
        match texts_of(fields_of(output@)) {
            Some(t) => r matches Ok(found) && texts(found@) == t,
            None => r matches Err(e) && e@ == ErrorView::InvalidInput(
                "Git path is not valid UTF-8"@,
            ),
        },
{
    let fields = bytes::nul_fields(output);
    let ghost all = bytes::views(fields@);
    let mut r: Vec<String> = Vec::new();
    let mut i: usize = 0;
    proof {
        assert(texts(r@) =~= all.take(0).map_values(|f: Seq<u8>| decode_utf8(f)));
    }
    while i < fields.len()
        invariant
            i <= fields.len(),
            all == bytes::views(fields@),
            all == fields_of(output@),
            forall|j: int| 0 <= j < i ==> valid_utf8(#[trigger] all[j]),
            texts(r@) == all.take(i as int).map_values(|f: Seq<u8>| decode_utf8(f)),
        decreases fields.len() - i,
    {
        proof {
            assert(all[i as int] == fields@[i as int]@);
        }
        match digest::utf8_text(bytes::copy_bytes(fields[i].as_slice())) {
            None => {
                return Err(Error::InvalidInput("Git path is not valid UTF-8".to_owned()));
            },
            Some(t) => {
                let ghost before = r@;
                let ghost v = t@;
                r.push(t);
                proof {
                    encode_utf8_decode_utf8(v);
                    assert(texts(r@) =~= texts(before).push(v));
                    assert(all.take(i + 1).map_values(|f: Seq<u8>| decode_utf8(f)) =~= all.take(
                        i as int,
                    ).map_values(|f: Seq<u8>| decode_utf8(f)).push(v));
                }
            },
        }
        i += 1;
    }
    proof {
        assert(all.take(all.len() as int) =~= all);
    }
    Ok(r)
}

/// The `n`th word, or nothing.
pub open spec fn nth_word(words: Seq<Seq<char>>, n: int) -> Seq<char> {
    if 0 <= n < words.len() {
        words[n]
    } else {
        Seq::empty()
    }
}

/// The submodule paths that a raw diff changes: each record is a header, then
/// a path, and a header's second word is the new mode and its fifth the
/// status.
pub open spec fn gitlinks_of(fields: Seq<Seq<u8>>) -> std::result::Result<
    Seq<Seq<char>>,
    ErrorView,
>
    decreases fields.len(),
{
    if fields.len() == 0 {
        Ok(Seq::empty())
    } else if !valid_utf8(fields[0]) {
        Err(ErrorView::InvalidInput("Git returned invalid raw diff metadata"@))
    } else if fields.len() == 1 {
        Err(ErrorView::InvalidInput("Git returned an incomplete raw diff record"@))
    } else {
        let header = words_of(decode_utf8(fields[0]));
        let status = nth_word(header, 4);
        let gitlink = nth_word(header, 1) == "160000"@;
        if status.len() > 0 && (status[0] == 'R' || status[0] == 'C') {
            Err(ErrorView::UnsafeState("Git returned rename metadata despite --no-renames"@))
        } else if gitlink && !valid_utf8(fields[1]) {
            Err(ErrorView::InvalidInput("Git path is not valid UTF-8"@))
        } else {
            match gitlinks_of(fields.skip(2)) {
                Err(e) => Err(e),
                Ok(rest) => if gitlink {
                    Ok(seq![decode_utf8(fields[1])] + rest)
                } else {
                    Ok(rest)
                },
            }
        }
    }
}

/// What is read so far, with what the rest of a raw diff adds.
pub open spec fn with_rest(
    found: Seq<Seq<char>>,
    rest: std::result::Result<Seq<Seq<char>>, ErrorView>,
) -> std::result::Result<Seq<Seq<char>>, ErrorView> {
    match rest {
        Ok(more) => Ok(found + more),
        Err(e) => Err(e),
    }
}

fn word_or_empty(words: &Vec<String>, n: usize) -> (r: String)
    ensures
        r@ == nth_word(texts(words@), n as int),
{
    if n < words.len() {
        words[n].clone()
    } else {
        String::new()
    }
}

/// Read a raw diff for the submodule paths it changes; see [`gitlinks_of`].
pub fn parse_changed_gitlinks(output: &[u8]) -> (r: std::result::Result<Vec<String>, Error>)
    ensures
        match gitlinks_of(fields_of(output@)) {
            Ok(paths) => r matches Ok(found) && texts(found@) == paths,
            Err(e) => r matches Err(found) && found@ == e,
        },
{
    let fields = bytes::nul_fields(output);
    let ghost all = bytes::views(fields@);
    let mut paths: Vec<String> = Vec::new();
    let mut i: usize = 0;
    proof {
        assert(all.skip(0) =~= all);
        assert(texts(paths@) =~= Seq::<Seq<char>>::empty());
        match gitlinks_of(all) {
            Ok(more) => {
                assert(Seq::<Seq<char>>::empty() + more =~= more);
            },
            Err(_) => {},
        }
    }
    while i < fields.len()
        invariant
            i <= fields.len(),
            all == bytes::views(fields@),
            all.len() == fields.len(),
            all == fields_of(output@),
            gitlinks_of(all) == with_rest(texts(paths@), gitlinks_of(all.skip(i as int))),
        decreases fields.len() - i,
    {
        let ghost rest = all.skip(i as int);
        proof {
            assert(rest[0] == fields@[i as int]@);
        }
        let header = match digest::utf8_text(bytes::copy_bytes(fields[i].as_slice())) {
            None => {
                return Err(
                    Error::InvalidInput("Git returned invalid raw diff metadata".to_owned()),
                );
            },
            Some(t) => t,
        };
        proof {
            encode_utf8_decode_utf8(header@);
        }
        let metadata = words(header.as_str());
        let new_mode = word_or_empty(&metadata, 1);
        let status = word_or_empty(&metadata, 4);
        if i + 1 >= fields.len() {
            return Err(
                Error::InvalidInput("Git returned an incomplete raw diff record".to_owned()),
            );
        }
        proof {
            assert(rest[1] == fields@[i + 1]@);
            assert(rest.skip(2) =~= all.skip(i + 2));
        }
        let status_chars = text::text_chars(status.as_str());
        if status_chars.len() > 0 && (status_chars[0] == 'R' || status_chars[0] == 'C') {
            return Err(
                Error::UnsafeState(
                    "Git returned rename metadata despite --no-renames".to_owned(),
                ),
            );
        }
        if text::same_text(new_mode.as_str(), "160000") {
            match digest::utf8_text(bytes::copy_bytes(fields[i + 1].as_slice())) {
                None => {
                    return Err(Error::InvalidInput("Git path is not valid UTF-8".to_owned()));
                },
                Some(t) => {
                    let ghost before = paths@;
                    let ghost v = t@;
                    paths.push(t);
                    proof {
                        encode_utf8_decode_utf8(v);
                        assert(texts(paths@) =~= texts(before).push(v));
                        match gitlinks_of(rest.skip(2)) {
                            Ok(more) => {
                                assert(texts(before) + (seq![v] + more) =~= texts(before).push(v)
                                    + more);
                            },
                            Err(_) => {},
                        }
                    }
                },
            }
        }
        i += 2;
    }
    proof {
        assert(all.skip(i as int) =~= Seq::<Seq<u8>>::empty());
        assert(texts(paths@) + Seq::<Seq<char>>::empty() =~= texts(paths@));
    }
    Ok(paths)
}

/// Reading worktree records: those finished, and the one being read.
pub struct WorktreesView {
    pub done: Seq<WorktreeView>,
    pub current: Option<WorktreeView>,
}

/// What one field adds to the records read so far.
pub open spec fn worktree_step(state: WorktreesView, field: Seq<char>) -> WorktreesView {
    if text::has_prefix(field, "worktree "@) {
        WorktreesView {
            done: all_worktrees(state),
            current: Some(
                WorktreeView {
                    path: encode_utf8(field.skip("worktree "@.len() as int)),
                    branch: None,
                    head: None,
                    bare: false,
                },
            ),
        }
    } else {
        match state.current {
            None => state,
            Some(c) => WorktreesView {
                done: state.done,
                current: Some(
                    if text::has_prefix(field, "HEAD "@) {
                        WorktreeView { head: Some(field.skip("HEAD "@.len() as int)), ..c }
                    } else if text::has_prefix(field, "branch refs/heads/"@) {
                        WorktreeView {
                            branch: Some(field.skip("branch refs/heads/"@.len() as int)),
                            ..c
                        }
                    } else if field == "bare"@ {
                        WorktreeView { bare: true, ..c }
                    } else {
                        c
                    },
                ),
            },
        }
    }
}

/// Every record read, the one being read last.
pub open spec fn all_worktrees(state: WorktreesView) -> Seq<WorktreeView> {
    match state.current {
        Some(c) => state.done.push(c),
        None => state.done,
    }
}

/// What all fields add up to.
pub open spec fn worktrees_state(fields: Seq<Seq<char>>) -> WorktreesView
    decreases fields.len(),
{
    if fields.len() == 0 {
        WorktreesView { done: Seq::empty(), current: None }
    } else {
        worktree_step(worktrees_state(fields.drop_last()), fields.last())
    }
}

fn push_record(records: &mut Vec<WorktreeRecord>, current: Option<WorktreeRecord>)
    ensures
        record::views(final(records)@) == all_worktrees(
            (WorktreesView {
                done: record::views(old(records)@),
                current: record::opt_view(current),
            }),
        ),
{
    let ghost before = records@;
    match current {
        Some(c) => {
            let ghost v = c@;
            records.push(c);
            proof {
                assert(record::views(records@) =~= record::views(before).push(v));
            }
        },
        None => {},
    }
}

/// Read the registered worktrees from `worktree list --porcelain -z`.
pub fn parse_worktrees(output: &[u8]) -> (r: std::result::Result<Vec<WorktreeRecord>, Error>)
    ensures
        match texts_of(fields_of(output@)) {
            Some(fields) => r matches Ok(found) && record::views(found@) == all_worktrees(
                worktrees_state(fields),
            ),
            None => r matches Err(e) && e@ == ErrorView::InvalidInput(
                "Git path is not valid UTF-8"@,
            ),
        },
{
    let fields = match parse_nul_strings(output) {
        Err(e) => {
            return Err(e);
        },
        Ok(f) => f,
    };
    let ghost all = texts(fields@);
    let mut records: Vec<WorktreeRecord> = Vec::new();
    let mut current: Option<WorktreeRecord> = None;
    let mut i: usize = 0;
    proof {
        assert(all.take(0) =~= Seq::<Seq<char>>::empty());
        assert(record::views(records@) =~= Seq::<WorktreeView>::empty());
    }
    while i < fields.len()
        invariant
            i <= fields.len(),
            all == texts(fields@),
            worktrees_state(all.take(i as int)) == (WorktreesView {
                done: record::views(records@),
                current: record::opt_view(current),
            }),
        decreases fields.len() - i,
    {
        let field = fields[i].as_str();
        proof {
            assert(all.take(i + 1).drop_last() =~= all.take(i as int));
            assert(all.take(i + 1).last() == field@);
        }
        match text::strip_prefix(field, "worktree ") {
            Some(value) => {
                push_record(&mut records, current);
                current = Some(
                    WorktreeRecord {
                        path: NativePath::new(value.as_str()),
                        branch: None,
                        head: None,
                        bare: false,
                    },
                );
            },
            None => {
                match current {
                    None => {
                        current = None;
                    },
                    Some(mut c) => {
                        match text::strip_prefix(field, "HEAD ") {
                            Some(value) => {
                                c.head = Some(value);
                            },
                            None => match text::strip_prefix(field, "branch refs/heads/") {
                                Some(value) => {
                                    c.branch = Some(value);
                                },
                                None => {
                                    if text::same_text(field, "bare") {
                                        c.bare = true;
                                    }
                                },
                            },
                        }
                        current = Some(c);
                    },
                }
            },
        }
        i += 1;
    }
    proof {
        assert(all.take(all.len() as int) =~= all);
    }
    push_record(&mut records, current);
    Ok(records)
}

/// Whether an index entry is hidden from status: its tag marks it as skipped
/// or assumed unchanged.
pub open spec fn is_hidden_entry(entry: Seq<u8>) -> bool {
    entry.len() > 0 && (entry[0] == 83 || 97 <= entry[0] <= 122)
}

/// Whether some entry of a row is hidden.
pub open spec fn any_hidden(entries: Seq<Seq<u8>>) -> bool {
    exists|i: int| 0 <= i < entries.len() && is_hidden_entry(#[trigger] entries[i])
}

/// Whether `ls-files -v -z` lists a hidden index entry.
pub fn hidden_index_entries(output: &[u8]) -> (r: bool)
    ensures
        r == any_hidden(bytes::split_on(output@, 0)),
        r == (exists|i: int|
            0 <= i < bytes::split_on(output@, 0).len() && is_hidden_entry(
                #[trigger] bytes::split_on(output@, 0)[i],
            )),
{
    let entries = bytes::split_bytes(output, 0);
    let ghost all = bytes::views(entries@);
    let mut i: usize = 0;
    while i < entries.len()
        invariant
            i <= entries.len(),
            all == bytes::views(entries@),
            all.len() == entries.len(),
            all == bytes::split_on(output@, 0),
            forall|j: int| 0 <= j < i ==> !is_hidden_entry(#[trigger] all[j]),
        decreases entries.len() - i,
    {
        proof {
            assert(all[i as int] == entries@[i as int]@);
        }
        if entries[i].len() > 0 && (entries[i][0] == 83 || (97 <= entries[i][0] && entries[i][0]
            <= 122)) {
            assert(is_hidden_entry(all[i as int]));
            return true;
        }
        i += 1;
    }
    false
}

/// What `core.sparseCheckout` says.
pub fn sparse_checkout(value: &str) -> (r: std::result::Result<bool, Error>)
    ensures
        if text::trim(value@) == "true"@ {
            r == Ok::<bool, Error>(true)
        } else if text::trim(value@) == "false"@ {
            r == Ok::<bool, Error>(false)
        } else {
            r matches Err(e) && e@ == ErrorView::InvalidInput(
                "Git returned invalid core.sparseCheckout value: "@ + digest::quoted_text_of(
                    text::trim(value@),
                ),
            )
        },
{
    let trimmed = text::trimmed(value);
    proof {
        reveal_strlit("true");
        reveal_strlit("false");
        assert("true"@.len() != "false"@.len());
    }
    if text::same_text(trimmed.as_str(), "true") {
        Ok(true)
    } else if text::same_text(trimmed.as_str(), "false") {
        Ok(false)
    } else {
        Err(
            Error::InvalidInput(
                text::cat2(
                    "Git returned invalid core.sparseCheckout value: ",
                    digest::quoted_text(trimmed.as_str()).as_str(),
                ),
            ),
        )
    }
}

/// Whether a worktree is clean, by what `status` printed of it.
pub fn clean(status: &[u8]) -> (r: bool)
    ensures
        r == (status@.len() == 0),
{
    status.len() == 0
}

/// Whether submodules hold uncommitted content: `status` prints something else
/// once it is told to ignore that.
pub fn dirty_submodules(status: &[u8], without_dirty: &[u8]) -> (r: bool)
    ensures
        r == (status@ != without_dirty@),
{
    !bytes::same_bytes(status, without_dirty)
}

/// The commit count that `rev-list --count` printed.
pub fn commits_ahead(value: &str) -> (r: std::result::Result<u64, Error>)
    ensures
        match text::parsed_u64(text::trim(value@)) {
            Some(n) => r == Ok::<u64, Error>(n),
            None => r matches Err(e) && e@ == ErrorView::InvalidInput(
                "Git returned invalid commit count: "@ + digest::quoted_text_of(value@),
            ),
        },
{
    match text::parse_u64(text::trimmed(value).as_str()) {
        Some(n) => Ok(n),
        None => Err(
            Error::InvalidInput(
                text::cat2(
                    "Git returned invalid commit count: ",
                    digest::quoted_text(value).as_str(),
                ),
            ),
        ),
    }
}

/// Whether a text is an object ID as Git may print it, in either case.
pub open spec fn is_printed_object_id(value: Seq<char>) -> bool {
    &&& value.len() == 40 || value.len() == 64
    &&& forall|i: int| 0 <= i < value.len() ==> validate::is_hex_digit(#[trigger] value[i])
}

/// Test for [`is_printed_object_id`].
pub fn printed_object_id(value: &str) -> (r: bool)
    ensures
        r == is_printed_object_id(value@),
{
    let chars = text::text_chars(value);
    if chars.len() != 40 && chars.len() != 64 {
        return false;
    }
    let mut i: usize = 0;
    while i < chars.len()
        invariant
            chars@ == value@,
            i <= chars.len(),
            forall|j: int| 0 <= j < i ==> validate::is_hex_digit(#[trigger] value@[j]),
        decreases chars.len() - i,
    {
        let c = chars[i];
        if !(('0' <= c && c <= '9') || ('a' <= c && c <= 'f') || ('A' <= c && c <= 'F')) {
            assert(!validate::is_hex_digit(value@[i as int]));
            return false;
        }
        i += 1;
    }
    true
}

/// What `rev-list --parents -n 1` says of a commit: its parents, where the
/// record is about that commit.
pub open spec fn parents_of(value: Seq<char>, commit: Seq<char>) -> std::result::Result<
    Seq<Seq<char>>,
    ErrorView,
> {
    let fields = words_of(value);
    if fields.len() == 0 {
        Err(ErrorView::InvalidInput("Git returned an empty commit parent record"@))
    } else if fields[0] != commit || !is_printed_object_id(fields[0]) {
        Err(
            ErrorView::InvalidInput(
                "Git resolved unexpected commit "@ + fields[0] + " while inspecting "@ + commit,
            ),
        )
    } else {
        Ok(fields.skip(1))
    }
}

/// Read a commit's parents; see [`parents_of`].
pub fn parents(value: &str, commit: &str) -> (r: std::result::Result<Vec<String>, Error>)
    ensures
        match parents_of(value@, commit@) {
            Ok(p) => r matches Ok(found) && texts(found@) == p,
            Err(e) => r matches Err(found) && found@ == e,
        },
{
    let fields = words(value);
    let ghost all = texts(fields@);
    proof {
        assert(all.len() == fields.len());
    }
    if fields.len() == 0 {
        return Err(Error::InvalidInput("Git returned an empty commit parent record".to_owned()));
    }
    proof {
        assert(all[0] == fields@[0]@);
    }
    if !text::same_text(fields[0].as_str(), commit) || !printed_object_id(fields[0].as_str()) {
        return Err(
            Error::InvalidInput(
                text::cat4(
                    "Git resolved unexpected commit ",
                    fields[0].as_str(),
                    " while inspecting ",
                    commit,
                ),
            ),
        );
    }
    let mut rest: Vec<String> = Vec::new();
    let mut i: usize = 1;
    proof {
        assert(texts(rest@) =~= all.subrange(1, 1));
    }
    while i < fields.len()
        invariant
            1 <= i <= fields.len(),
            all == texts(fields@),
            texts(rest@) == all.subrange(1, i as int),
        decreases fields.len() - i,
    {
        let ghost before = rest@;
        rest.push(fields[i].clone());
        proof {
            assert(texts(rest@) =~= texts(before).push(fields@[i as int]@));
            assert(all.subrange(1, i + 1) =~= all.subrange(1, i as int).push(all[i as int]));
        }
        i += 1;
    }
    proof {
        assert(all.subrange(1, all.len() as int) =~= all.skip(1));
    }
    Ok(rest)
}

/// Whether a commit's parents are exactly one given commit.
pub fn sole_parent(parents: &Vec<String>, commit: &str) -> (r: bool)
    ensures
        r == (texts(parents@) == seq![commit@]),
{
    if parents.len() != 1 {
        proof {
            assert(texts(parents@).len() != 1);
        }
        return false;
    }
    let same = text::same_text(parents[0].as_str(), commit);
    proof {
        assert(texts(parents@)[0] == parents@[0]@);
        if same {
            assert(texts(parents@) =~= seq![commit@]);
        }
    }
    same
}

/// The object a ref points at, where `for-each-ref` printed one.
pub fn ref_head(value: &str) -> (r: Option<String>)
    ensures
        if text::trim(value@).len() == 0 {
            r is None
        } else {
            r matches Some(h) && h@ == text::trim(value@)
        },
{
    let trimmed = text::trimmed(value);
    if trimmed.as_str().is_empty() {
        None
    } else {
        Some(trimmed)
    }
}

/// The symbolic `HEAD` reference that Git printed, where it is usable.
pub fn head_ref(value: &str) -> (r: std::result::Result<String, Error>)
    ensures
        if validate::is_head_ref(text::trim(value@)) {
            r matches Ok(h) && h@ == text::trim(value@)
        } else {
            r matches Err(e) && e@ == ErrorView::InvalidInput(
                "Git returned an invalid HEAD reference"@,
            )
        },
{
    let reference = text::trimmed(value);
    if validate::valid_head_ref(reference.as_str()) {
        Ok(reference)
    } else {
        Err(Error::InvalidInput("Git returned an invalid HEAD reference".to_owned()))
    }
}

/// The revision argument for a base, where the base may be handed to Git.
///
/// Anything that could read as an option is refused before Git is invoked.
pub fn commit_argument(revision: &str) -> (r: std::result::Result<String, Error>)
    ensures
        if validate::is_revision(revision@) {
            r matches Ok(a) && a@ == revision@ + "^{commit}"@
        } else {
            r matches Err(e) && e@ == ErrorView::InvalidInput("invalid base revision"@)
        },
{
    if validate::valid_revision(revision) {
        Ok(text::cat2(revision, "^{commit}"))
    } else {
        Err(Error::InvalidInput("invalid base revision".to_owned()))
    }
}

/// The commit that `rev-parse --verify` printed, where it is one.
pub fn resolved_commit(value: &str) -> (r: std::result::Result<String, Error>)
    ensures
        if is_printed_object_id(text::trim(value@)) {
            r matches Ok(c) && c@ == text::trim(value@)
        } else {
            r matches Err(e) && e@ == ErrorView::InvalidInput(
                "Git returned a malformed base commit ID"@,
            )
        },
{
    let commit = text::trimmed(value);
    if printed_object_id(commit.as_str()) {
        Ok(commit)
    } else {
        Err(Error::InvalidInput("Git returned a malformed base commit ID".to_owned()))
    }
}

/// Whether a ref may be deleted: `Ok(true)` where it points at the expected
/// commit, `Ok(false)` where there is none, an error where it points elsewhere.
pub fn delete_ref_if_matches(reference: &str, current: &Option<String>, expected: &str) -> (r:
    std::result::Result<bool, Error>)
    ensures
        match text::opt_view(*current) {
            None => r == Ok::<bool, Error>(false),
            Some(c) => if c == expected@ {
                r == Ok::<bool, Error>(true)
            } else {
                r matches Err(e) && e@ == ErrorView::UnsafeState(
                    "refusing to delete ref "@ + reference@ + ": expected "@ + expected@
                        + ", found "@ + c,
                )
            },
        },
{
    match current {
        None => Ok(false),
        Some(c) => if text::same_text(c.as_str(), expected) {
            Ok(true)
        } else {
            Err(
                Error::UnsafeState(
                    text::cat6(
                        "refusing to delete ref ",
                        reference,
                        ": expected ",
                        expected,
                        ", found ",
                        c.as_str(),
                    ),
                ),
            )
        },
    }
}

/// Whether some worktree has a branch checked out.
pub open spec fn checked_out(records: Seq<WorktreeRecord>, branch: Seq<char>) -> bool {
    exists|i: int|
        0 <= i < records.len() && text::opt_view((#[trigger] records[i]).branch) == Some(branch)
}

/// Test for [`checked_out`].
pub fn is_checked_out(records: &Vec<WorktreeRecord>, branch: &str) -> (r: bool)
    ensures
        r == checked_out(records@, branch@),
{
    let mut i: usize = 0;
    while i < records.len()
        invariant
            i <= records.len(),
            forall|j: int|
                0 <= j < i ==> text::opt_view((#[trigger] records@[j]).branch) != Some(branch@),
        decreases records.len() - i,
    {
        match &records[i].branch {
            Some(b) => {
                if text::same_text(b.as_str(), branch) {
                    assert(text::opt_view(records@[i as int].branch) == Some(branch@));
                    return true;
                }
            },
            None => {},
        }
        i += 1;
    }
    false
}

/// Whether a branch may be deleted: `Ok(true)` where it points at the expected
/// commit and no worktree has it checked out, `Ok(false)` where there is none.
pub fn delete_branch_if_matches(
    branch: &str,
    current: &Option<String>,
    expected: &str,
    records: &Vec<WorktreeRecord>,
) -> (r: std::result::Result<bool, Error>)
    ensures
        match text::opt_view(*current) {
            None => r == Ok::<bool, Error>(false),
            Some(c) => if c != expected@ {
                r matches Err(e) && e@ == ErrorView::UnsafeState(
                    "refusing to delete branch "@ + branch@ + ": expected "@ + expected@
                        + ", found "@ + c,
                )
            } else if checked_out(records@, branch@) {
                r matches Err(e) && e@ == ErrorView::UnsafeState(
                    "refusing to delete checked-out branch "@ + branch@,
                )
            } else {
                r == Ok::<bool, Error>(true)
            },
        },
{
    match current {
        None => Ok(false),
        Some(c) => {
            if !text::same_text(c.as_str(), expected) {
                return Err(
                    Error::UnsafeState(
                        text::cat6(
                            "refusing to delete branch ",
                            branch,
                            ": expected ",
                            expected,
                            ", found ",
                            c.as_str(),
                        ),
                    ),
                );
            }
            if is_checked_out(records, branch) {
                return Err(
                    Error::UnsafeState(
                        text::cat2("refusing to delete checked-out branch ", branch),
                    ),
                );
            }
            Ok(true)
        },
    }
}

/// Output captured under a bound.
#[derive(Debug, PartialEq, Eq)]
pub struct CapturedOutput {
    /// What was kept.
    pub bytes: Vec<u8>,
    /// Whether there was more than the bound allows.
    pub exceeded: bool,
}

impl CapturedOutput {
    /// Whether this is what is kept of a stream while it is still being read:
    /// one byte past the bound at most.
    pub open spec fn captures(self, stream: Seq<u8>, cap: nat) -> bool {
        &&& self.bytes@ == stream.take(
            if stream.len() <= cap + 1 {
                stream.len() as int
            } else {
                cap as int + 1
            },
        )
        &&& self.exceeded == (stream.len() > cap)
    }

    /// Nothing captured yet.
    pub fn new() -> (r: CapturedOutput)
        ensures
            forall|cap: nat| #[trigger] r.captures(Seq::empty(), cap),
    {
        let r = CapturedOutput { bytes: Vec::new(), exceeded: false };
        proof {
            assert forall|cap: nat| #[trigger] r.captures(Seq::empty(), cap) by {
                assert(r.bytes@ =~= Seq::<u8>::empty().take(0));
            }
        }
        r
    }

    /// Take in the next piece of a stream.
    pub fn push(&mut self, chunk: &[u8], cap: u64)
        requires
            cap < u64::MAX,
        ensures
            forall|stream: Seq<u8>| #[trigger]
                old(self).captures(stream, cap as nat) ==> final(self).captures(
                    stream + chunk@,
                    cap as nat,
                ),
    {
        let ghost before = *self;
        let limit: u64 = cap.saturating_add(1);
        let kept: u64 = self.bytes.len() as u64;
        let remaining: u64 = limit.saturating_sub(kept);
        let count: u64 = chunk.len() as u64;
        let retained: u64 = if count < remaining {
            count
        } else {
            remaining
        };
        let piece = vstd::slice::slice_subrange(chunk, 0, retained as usize);
        bytes::push_bytes(&mut self.bytes, piece);
        if count > retained || self.bytes.len() as u64 > cap {
            self.exceeded = true;
        }
        proof {
            assert forall|stream: Seq<u8>| #[trigger]
                before.captures(stream, cap as nat) implies self.captures(
                stream + chunk@,
                cap as nat,
            ) by {
                let all = stream + chunk@;
                if stream.len() <= cap + 1 {
                    assert(before.bytes@ =~= stream);
                }
                assert(self.bytes@ =~= all.take(
                    if all.len() <= cap + 1 {
                        all.len() as int
                    } else {
                        cap + 1
                    },
                ));
            }
        }
    }

    /// What is kept of a whole stream: at most `cap` bytes, and whether there
    /// was more.
    pub fn finish(self, cap: u64) -> (r: CapturedOutput)
        ensures
            r.exceeded == self.exceeded,
            r.bytes@ == self.bytes@.take(
                if self.bytes@.len() <= cap {
                    self.bytes@.len() as int
                } else {
                    cap as int
                },
            ),
            forall|stream: Seq<u8>| #[trigger]
                self.captures(stream, cap as nat) ==> r.bytes@ == stream.take(
                    if stream.len() <= cap {
                        stream.len() as int
                    } else {
                        cap as int
                    },
                ),
    {
        let ghost before = self;
        let mut r = self;
        if r.bytes.len() as u64 > cap {
            r.bytes.truncate(cap as usize);
        }
        proof {
            assert(before.bytes@.take(before.bytes@.len() as int) =~= before.bytes@);
            assert forall|stream: Seq<u8>| #[trigger]
                before.captures(stream, cap as nat) implies r.bytes@ == stream.take(
                if stream.len() <= cap {
                    stream.len() as int
                } else {
                    cap as int
                },
            ) by {
                assert(r.bytes@ =~= stream.take(
                    if stream.len() <= cap {
                        stream.len() as int
                    } else {
                        cap as int
                    },
                ));
            }
        }
        r
    }
}

/// How a Git subprocess ended.
#[derive(Debug, PartialEq, Eq)]
pub struct GitExit {
    /// Whether it reported success.
    pub success: bool,
    /// Its exit status, where it has one.
    pub code: Option<i32>,
    /// Its standard output, bounded.
    pub stdout: CapturedOutput,
    /// Its standard error, bounded.
    pub stderr: Vec<u8>,
}

/// What a finished Git subprocess yields.
pub open spec fn git_outcome(
    command: Seq<char>,
    exit: GitExit,
    input_failure: Option<Error>,
    cap: u64,
) -> std::result::Result<Seq<u8>, ErrorView> {
    if !exit.success {
        Err(
            ErrorView::Git {
                command,
                status: match exit.code {
                    Some(c) => c,
                    None => -1i32,
                },
                stderr: text::trim(digest::lossy_text_of(exit.stderr@)),
            },
        )
    } else if input_failure is Some {
        Err(input_failure->0@)
    } else if exit.stdout.exceeded {
        Err(ErrorView::GitOutputTooLarge { command, cap })
    } else {
        Ok(exit.stdout.bytes@)
    }
}

/// Decide what a finished Git subprocess yields: its failure first, then a
/// failure to feed it, then too much output.
pub fn finish_command(
    command: String,
    exit: GitExit,
    input_failure: Option<Error>,
    cap: u64,
) -> (r: std::result::Result<Vec<u8>, Error>)
    ensures
        match git_outcome(command@, exit, input_failure, cap) {
            Ok(out) => r matches Ok(found) && found@ == out,
            Err(e) => r matches Err(found) && found@ == e,
        },
{
    if !exit.success {
        return Err(
            Error::Git {
                command,
                status: match exit.code {
                    Some(c) => c,
                    None => -1,
                },
                stderr: text::trimmed(digest::lossy_text(exit.stderr.as_slice()).as_str()),
            },
        );
    }
    match input_failure {
        Some(e) => {
            return Err(e);
        },
        None => {},
    }
    if exit.stdout.exceeded {
        return Err(Error::GitOutputTooLarge { command, cap });
    }
    Ok(exit.stdout.bytes)
}

/// Output that must be text.
pub fn output_text(output: Vec<u8>) -> (r: std::result::Result<String, Error>)
    ensures
        if valid_utf8(output@) {
            r matches Ok(t) && t@ == decode_utf8(output@)
        } else {
            r matches Err(e) && e@ == ErrorView::InvalidInput("Git returned non-UTF-8 text"@)
        },
{
    match digest::utf8_text(output) {
        Some(t) => {
            proof {
                encode_utf8_decode_utf8(t@);
            }
            Ok(t)
        },
        None => Err(Error::InvalidInput("Git returned non-UTF-8 text".to_owned())),
    }
}

/// The error for a path whose repository could not be found: a failed Git
/// command means that there is none.
pub fn repository_error(path: &NativePath, e: Error) -> (r: Error)
    ensures
        r@ == match e@ {
            ErrorView::Git { .. } => ErrorView::NotRepository(path@),
            other => other,
        },
{
    match e {
        Error::Git { .. } => Error::NotRepository(path.clone()),
        other => other,
    }
}

/// Whether a variable of the environment belongs to Git and is kept from the
/// commands this crate runs.
pub open spec fn is_git_variable(key: Seq<u8>) -> bool {
    &&& key.len() >= 4
    &&& key[0] == 71 || key[0] == 103
    &&& key[1] == 73 || key[1] == 105
    &&& key[2] == 84 || key[2] == 116
    &&& key[3] == 95
}

/// Test for [`is_git_variable`].
pub fn git_variable(key: &[u8]) -> (r: bool)
    ensures
        r == is_git_variable(key@),
{
    key.len() >= 4 && (key[0] == 71 || key[0] == 103) && (key[1] == 73 || key[1] == 105) && (key[2]
        == 84 || key[2] == 116) && key[3] == 95
}

/// A command line as messages show it.
pub open spec fn rendered_command(executable: Seq<u8>, arguments: Seq<Seq<u8>>) -> Seq<char>
    decreases arguments.len(),
{
    if arguments.len() == 0 {
        paths::display_of(executable)
    } else {
        rendered_command(executable, arguments.drop_last()) + seq![' '] + paths::display_of(
            arguments.last(),
        )
    }
}

/// Show a command line: the executable and its arguments, separated by spaces.
pub fn render_command(executable: &NativePath, arguments: &Vec<Vec<u8>>) -> (r: String)
    ensures
        r@ == rendered_command(executable@, bytes::views(arguments@)),
{
    let mut rendered = executable.display();
    let ghost all = bytes::views(arguments@);
    let mut i: usize = 0;
    proof {
        assert(all.take(0) =~= Seq::<Seq<u8>>::empty());
    }
    while i < arguments.len()
        invariant
            i <= arguments.len(),
            all == bytes::views(arguments@),
            rendered@ == rendered_command(executable@, all.take(i as int)),
        decreases arguments.len() - i,
    {
        let ghost before = rendered@;
        rendered.push(' ');
        proof {
            assert(rendered@ =~= before + seq![' ']);
            assert(all.take(i + 1).drop_last() =~= all.take(i as int));
            assert(all.take(i + 1).last() == arguments@[i as int]@);
        }
        rendered.append(digest::lossy_text(arguments[i].as_slice()).as_str());
        i += 1;
    }
    proof {
        assert(all.take(all.len() as int) =~= all);
    }
    rendered
}

} // verus!
