//! Sequences of Git commands that together produce one result.
//!
//! A run says which command comes next and what to make of its outcome; the
//! commands themselves are executed elsewhere, all with one private index.

use vstd::prelude::*;
use vstd::string::*;
use vstd::utf8::*;

use crate::error::{Error, ErrorView};
use crate::git::{Snapshot, PATCH_OUTPUT_CAP, SMALL_OUTPUT_CAP};
use crate::{bytes, commands, git, git_path, text};

verus! {

/// One Git command: its arguments, what it reads, and how much it may print.
#[derive(Debug, PartialEq, Eq)]
pub struct GitCall {
    /// The arguments after the executable.
    pub arguments: Vec<Vec<u8>>,
    /// What is written to its standard input, if anything.
    pub input: Option<Vec<u8>>,
    /// Bound on its output in bytes.
    pub cap: u64,
}

/// What a [`GitCall`] holds.
pub struct CallView {
    pub arguments: Seq<Seq<u8>>,
    pub input: Option<Seq<u8>>,
    pub cap: u64,
}

impl View for GitCall {
    type V = CallView;

    open spec fn view(&self) -> CallView {
        CallView {
            arguments: bytes::views(self.arguments@),
            input: match self.input {
                Some(b) => Some(b@),
                None => None,
            },
            cap: self.cap,
        }
    }
}

/// A command that reads nothing.
pub open spec fn plain_call(words: Seq<Seq<char>>, cap: u64) -> CallView {
    CallView { arguments: commands::encoded(words), input: None, cap }
}

/// A command that reads some bytes.
pub open spec fn fed_call(words: Seq<Seq<char>>, input: Seq<u8>, cap: u64) -> CallView {
    CallView { arguments: commands::encoded(words), input: Some(input), cap }
}

fn plain(arguments: Vec<Vec<u8>>, cap: u64) -> (r: GitCall)
    ensures
        r@ == (CallView { arguments: bytes::views(arguments@), input: None, cap }),
{
    GitCall { arguments, input: None, cap }
}

fn fed(arguments: Vec<Vec<u8>>, input: &[u8], cap: u64) -> (r: GitCall)
    ensures
        r@ == (CallView { arguments: bytes::views(arguments@), input: Some(input@), cap }),
{
    GitCall { arguments, input: Some(bytes::copy_bytes(input)), cap }
}

/// What a snapshot is taken of.
#[derive(Debug, PartialEq, Eq)]
pub enum SnapshotSource {
    /// Everything in the worktree that is not ignored.
    Worktree,
    /// A patch applied to the base.
    Applied(Vec<u8>),
    /// A commit.
    Commit(String),
}

/// How far a snapshot has come.
#[derive(Debug, Clone, Copy, PartialEq, Eq, Structural)]
pub enum SnapshotStage {
    /// The private index is to be filled from the base.
    Index,
    /// The change is to be put into the index.
    Fill,
    /// The change is to be searched for embedded repositories.
    Inspect,
    /// An embedded repository is to be checked.
    Embedded,
    /// The patch is to be printed.
    Patch,
    /// The changed paths are to be listed.
    Paths,
}

/// A snapshot being taken: the complete change from a base.
#[derive(Debug, PartialEq, Eq)]
pub struct SnapshotRun {
    /// The commit the change starts from.
    pub base: String,
    /// What the change leads to.
    pub source: SnapshotSource,
    /// How far it has come.
    pub stage: SnapshotStage,
    /// Embedded repositories that the change touches.
    pub embedded: Vec<String>,
    /// How many of them were checked.
    pub checked: usize,
    /// The patch, once printed.
    pub patch: Vec<u8>,
}

/// What comes after a command of a snapshot.
#[derive(Debug, PartialEq, Eq)]
pub enum SnapshotStep {
    /// The run continues.
    Next(SnapshotRun),
    /// The snapshot is complete.
    Finished(Snapshot),
}

impl SnapshotRun {
    /// Whether there is an embedded repository left wherever one is to be
    /// checked.
    pub open spec fn well_formed(self) -> bool {
        self.stage is Embedded ==> self.checked < self.embedded@.len()
    }

    /// The first state of a run.
    pub open spec fn is_start(self, base: Seq<char>, source: SnapshotSource) -> bool {
        &&& self.base@ == base
        &&& self.source == source
        &&& self.stage == if source is Commit {
            SnapshotStage::Patch
        } else {
            SnapshotStage::Index
        }
        &&& self.embedded@.len() == 0
        &&& self.checked == 0
        &&& self.patch@.len() == 0
    }

    /// Begin a snapshot. A commit needs no index: its patch can be printed at
    /// once.
    pub fn start(base: &str, source: SnapshotSource) -> (r: SnapshotRun)
        ensures
            r.is_start(base@, source),
            r.well_formed(),
    {
        let stage = match &source {
            SnapshotSource::Commit(_) => SnapshotStage::Patch,
            _ => SnapshotStage::Index,
        };
        SnapshotRun {
            base: base.to_owned(),
            source,
            stage,
            embedded: Vec::new(),
            checked: 0,
            patch: Vec::new(),
        }
    }

    /// The command that comes next.
    pub open spec fn call_of(self) -> CallView {
        let base = self.base@;
        match self.stage {
            SnapshotStage::Index => plain_call(seq!["read-tree"@, base], SMALL_OUTPUT_CAP),
            SnapshotStage::Fill => match self.source {
                SnapshotSource::Applied(patch) => fed_call(
                    seq!["apply"@, "--cached"@, "--whitespace=nowarn"@, "-"@],
                    patch@,
                    SMALL_OUTPUT_CAP,
                ),
                _ => plain_call(seq!["add"@, "-A"@, "--"@, "."@], SMALL_OUTPUT_CAP),
            },
            SnapshotStage::Inspect => plain_call(
                seq!["diff"@, "--cached"@, "--raw"@, "-z"@, "--no-renames"@, base, "--"@],
                PATCH_OUTPUT_CAP,
            ),
            SnapshotStage::Embedded => plain_call(
                seq![
                    "submodule"@,
                    "status"@,
                    "--cached"@,
                    "--"@,
                    self.embedded@[self.checked as int]@,
                ],
                SMALL_OUTPUT_CAP,
            ),
            SnapshotStage::Patch => match self.source {
                SnapshotSource::Commit(commit) => plain_call(
                    seq![
                        "diff"@,
                        "--binary"@,
                        "--full-index"@,
                        "--no-ext-diff"@,
                        "--no-textconv"@,
                        "--no-renames"@,
                        "--no-color"@,
                        base,
                        commit@,
                        "--"@,
                    ],
                    PATCH_OUTPUT_CAP,
                ),
                _ => plain_call(
                    seq![
                        "diff"@,
                        "--cached"@,
                        "--binary"@,
                        "--full-index"@,
                        "--no-ext-diff"@,
                        "--no-textconv"@,
                        "--no-renames"@,
                        "--no-color"@,
                        base,
                        "--"@,
                    ],
                    PATCH_OUTPUT_CAP,
                ),
            },
            SnapshotStage::Paths => match self.source {
                SnapshotSource::Commit(commit) => plain_call(
                    seq![
                        "diff"@,
                        "--name-only"@,
                        "-z"@,
                        "--no-renames"@,
                        base,
                        commit@,
                        "--"@,
                    ],
                    SMALL_OUTPUT_CAP,
                ),
                _ => plain_call(
                    seq![
                        "diff"@,
                        "--cached"@,
                        "--name-only"@,
                        "-z"@,
                        "--no-renames"@,
                        base,
                        "--"@,
                    ],
                    SMALL_OUTPUT_CAP,
                ),
            },
        }
    }

    /// The command that comes next; see [`SnapshotRun::call_of`].
    pub fn call(&self) -> (r: GitCall)
        requires
            self.well_formed(),
        ensures
            r@ == self.call_of(),
    {
        let base = self.base.as_str();
        match self.stage {
            SnapshotStage::Index => plain(commands::read_tree(base), SMALL_OUTPUT_CAP),
            SnapshotStage::Fill => match &self.source {
                SnapshotSource::Applied(patch) => fed(
                    commands::apply_to_index(),
                    patch.as_slice(),
                    SMALL_OUTPUT_CAP,
                ),
                _ => plain(commands::add_everything(), SMALL_OUTPUT_CAP),
            },
            SnapshotStage::Inspect => plain(commands::diff_index_raw(base), PATCH_OUTPUT_CAP),
            SnapshotStage::Embedded => plain(
                commands::submodule_status(self.embedded[self.checked].as_str()),
                SMALL_OUTPUT_CAP,
            ),
            SnapshotStage::Patch => match &self.source {
                SnapshotSource::Commit(commit) => plain(
                    commands::diff_commit_patch(base, commit.as_str()),
                    PATCH_OUTPUT_CAP,
                ),
                _ => plain(commands::diff_index_patch(base), PATCH_OUTPUT_CAP),
            },
            SnapshotStage::Paths => match &self.source {
                SnapshotSource::Commit(commit) => plain(
                    commands::diff_commit_names(base, commit.as_str()),
                    SMALL_OUTPUT_CAP,
                ),
                _ => plain(commands::diff_index_names(base), SMALL_OUTPUT_CAP),
            },
        }
    }

    /// What becomes of the run, given what its command printed.
    pub open spec fn continues(self, output: Seq<u8>, r: std::result::Result<SnapshotStep, Error>) -> bool {
        match self.stage {
            SnapshotStage::Index => r == Ok::<SnapshotStep, Error>(
                SnapshotStep::Next(SnapshotRun { stage: SnapshotStage::Fill, ..self }),
            ),
            SnapshotStage::Fill => r == Ok::<SnapshotStep, Error>(
                SnapshotStep::Next(
                    SnapshotRun {
                        stage: if self.source is Worktree {
                            SnapshotStage::Inspect
                        } else {
                            SnapshotStage::Patch
                        },
                        ..self
                    },
                ),
            ),
            SnapshotStage::Inspect => match git::gitlinks_of(git::fields_of(output)) {
                Err(e) => r matches Err(found) && found@ == e,
                Ok(found) => r matches Ok(SnapshotStep::Next(next)) && git::texts(next.embedded@)
                    == found && next == (SnapshotRun {
                    embedded: next.embedded,
                    checked: 0,
                    stage: if found.len() == 0 {
                        SnapshotStage::Patch
                    } else {
                        SnapshotStage::Embedded
                    },
                    ..self
                }),
            },
            SnapshotStage::Embedded => r == Ok::<SnapshotStep, Error>(
                SnapshotStep::Next(
                    SnapshotRun {
                        checked: (self.checked + 1) as usize,
                        stage: if self.checked + 1 >= self.embedded@.len() {
                            SnapshotStage::Patch
                        } else {
                            SnapshotStage::Embedded
                        },
                        ..self
                    },
                ),
            ),
            SnapshotStage::Patch => r matches Ok(SnapshotStep::Next(next)) && next.patch@ == output
                && next == (SnapshotRun {
                patch: next.patch,
                stage: SnapshotStage::Paths,
                ..self
            }),
            SnapshotStage::Paths => r matches Ok(SnapshotStep::Finished(snapshot))
                && snapshot.patch == self.patch && snapshot@.changed_paths == git::fields_of(
                output,
            ).map_values(|f: Seq<u8>| git_path::encoding_of(f)),
        }
    }

    /// Take in the outcome of the command that came next. A repository that is
    /// embedded but not registered cannot be represented safely, so failing to
    /// find it registered refuses the snapshot.
    pub fn advance(self, outcome: std::result::Result<Vec<u8>, Error>) -> (r: std::result::Result<
        SnapshotStep,
        Error,
    >)
        requires
            self.well_formed(),
        ensures
            r matches Ok(SnapshotStep::Next(next)) ==> next.well_formed(),
            match outcome {
                Ok(output) => self.continues(output@, r),
                Err(e) => if self.stage is Embedded {
                    r matches Err(found) && found@ == ErrorView::InvalidInput(
                        "unregistered embedded Git repository cannot be represented safely: "@
                            + self.embedded@[self.checked as int]@,
                    )
                } else {
                    r matches Err(found) && found@ == e@
                },
            },
    {
        let output = match outcome {
            Err(e) => {
                if self.stage == SnapshotStage::Embedded {
                    return Err(
                        Error::InvalidInput(
                            text::cat2(
                                "unregistered embedded Git repository cannot be represented safely: ",
                                self.embedded[self.checked].as_str(),
                            ),
                        ),
                    );
                }
                return Err(e);
            },
            Ok(output) => output,
        };
        let mut run = self;
        match run.stage {
            SnapshotStage::Index => {
                run.stage = SnapshotStage::Fill;
            },
            SnapshotStage::Fill => {
                run.stage = match &run.source {
                    SnapshotSource::Worktree => SnapshotStage::Inspect,
                    _ => SnapshotStage::Patch,
                };
            },
            SnapshotStage::Inspect => {
                match git::parse_changed_gitlinks(output.as_slice()) {
                    Err(e) => {
                        return Err(e);
                    },
                    Ok(found) => {
                        proof {
                            assert(git::texts(found@).len() == found@.len());
                        }
                        run.stage = if found.len() == 0 {
                            SnapshotStage::Patch
                        } else {
                            SnapshotStage::Embedded
                        };
                        run.embedded = found;
                        run.checked = 0;
                    },
                }
            },
            SnapshotStage::Embedded => {
                let all = run.embedded.len();
                run.checked = run.checked + 1;
                if run.checked >= all {
                    run.stage = SnapshotStage::Patch;
                }
            },
            SnapshotStage::Patch => {
                run.patch = output;
                run.stage = SnapshotStage::Paths;
            },
            SnapshotStage::Paths => {
                return Ok(
                    SnapshotStep::Finished(
                        Snapshot {
                            patch: run.patch,
                            changed_paths: git::parse_nul_paths(output.as_slice()),
                        },
                    ),
                );
            },
        }
        Ok(SnapshotStep::Next(run))
    }
}

/// How far a commit has come.
#[derive(Debug, PartialEq, Eq)]
pub enum CommitStage {
    /// The private index is to be filled from the base.
    Index,
    /// The patch is to be applied to the index.
    Apply,
    /// The index is to be written as a tree.
    Tree,
    /// The tree is to be committed.
    Commit(String),
}

/// A patch being committed on top of one parent.
#[derive(Debug, PartialEq, Eq)]
pub struct CommitRun {
    /// The parent.
    pub base: String,
    /// The patch.
    pub patch: Vec<u8>,
    /// The commit message.
    pub message: String,
    /// How far it has come.
    pub stage: CommitStage,
}

/// What comes after a command of a commit.
#[derive(Debug, PartialEq, Eq)]
pub enum CommitStep {
    /// The run continues.
    Next(CommitRun),
    /// The commit exists.
    Finished(String),
}

impl CommitRun {
    /// Begin a commit.
    pub fn start(base: &str, patch: &[u8], message: &str) -> (r: CommitRun)
        ensures
            r.base@ == base@,
            r.patch@ == patch@,
            r.message@ == message@,
            r.stage is Index,
    {
        CommitRun {
            base: base.to_owned(),
            patch: bytes::copy_bytes(patch),
            message: message.to_owned(),
            stage: CommitStage::Index,
        }
    }

    /// The command that comes next.
    pub open spec fn call_of(self) -> CallView {
        match self.stage {
            CommitStage::Index => plain_call(seq!["read-tree"@, self.base@], SMALL_OUTPUT_CAP),
            CommitStage::Apply => fed_call(
                seq!["apply"@, "--cached"@, "--3way"@, "--whitespace=nowarn"@, "-"@],
                self.patch@,
                SMALL_OUTPUT_CAP,
            ),
            CommitStage::Tree => plain_call(seq!["write-tree"@], SMALL_OUTPUT_CAP),
            CommitStage::Commit(tree) => fed_call(
                seq!["commit-tree"@, tree@, "-p"@, self.base@],
                encode_utf8(self.message@),
                SMALL_OUTPUT_CAP,
            ),
        }
    }

    /// The command that comes next; see [`CommitRun::call_of`].
    pub fn call(&self) -> (r: GitCall)
        ensures
            r@ == self.call_of(),
    {
        match &self.stage {
            CommitStage::Index => plain(commands::read_tree(self.base.as_str()), SMALL_OUTPUT_CAP),
            CommitStage::Apply => fed(
                commands::apply_to_index_3way(),
                self.patch.as_slice(),
                SMALL_OUTPUT_CAP,
            ),
            CommitStage::Tree => plain(commands::write_tree(), SMALL_OUTPUT_CAP),
            CommitStage::Commit(tree) => fed(
                commands::commit_tree(tree.as_str(), self.base.as_str()),
                self.message.as_str().as_bytes(),
                SMALL_OUTPUT_CAP,
            ),
        }
    }

    /// What becomes of the run, given what its command printed.
    pub open spec fn continues(self, output: Seq<u8>, r: std::result::Result<CommitStep, Error>) -> bool {
        let unreadable = ErrorView::InvalidInput("Git returned non-UTF-8 text"@);
        match self.stage {
            CommitStage::Index => r == Ok::<CommitStep, Error>(
                CommitStep::Next(CommitRun { stage: CommitStage::Apply, ..self }),
            ),
            CommitStage::Apply => r == Ok::<CommitStep, Error>(
                CommitStep::Next(CommitRun { stage: CommitStage::Tree, ..self }),
            ),
            CommitStage::Tree => if valid_utf8(output) {
                r matches Ok(CommitStep::Next(next)) && next == (CommitRun {
                    stage: next.stage,
                    ..self
                }) && (next.stage matches CommitStage::Commit(tree) && tree@ == text::trim(
                    decode_utf8(output),
                ))
            } else {
                r matches Err(found) && found@ == unreadable
            },
            CommitStage::Commit(_) => if valid_utf8(output) {
                r matches Ok(CommitStep::Finished(commit)) && commit@ == text::trim(
                    decode_utf8(output),
                )
            } else {
                r matches Err(found) && found@ == unreadable
            },
        }
    }

    /// Take in the outcome of the command that came next.
    pub fn advance(self, outcome: std::result::Result<Vec<u8>, Error>) -> (r: std::result::Result<
        CommitStep,
        Error,
    >)
        ensures
            match outcome {
                Ok(output) => self.continues(output@, r),
                Err(e) => r matches Err(found) && found@ == e@,
            },
    {
        let output = match outcome {
            Err(e) => {
                return Err(e);
            },
            Ok(output) => output,
        };
        let mut run = self;
        match &run.stage {
            CommitStage::Index => {
                run.stage = CommitStage::Apply;
                Ok(CommitStep::Next(run))
            },
            CommitStage::Apply => {
                run.stage = CommitStage::Tree;
                Ok(CommitStep::Next(run))
            },
            CommitStage::Tree => match git::output_text(output) {
                Err(e) => Err(e),
                Ok(t) => {
                    run.stage = CommitStage::Commit(text::trimmed(t.as_str()));
                    Ok(CommitStep::Next(run))
                },
            },
            CommitStage::Commit(_) => match git::output_text(output) {
                Err(e) => Err(e),
                Ok(t) => Ok(CommitStep::Finished(text::trimmed(t.as_str()))),
            },
        }
    }
}

} // verus!
