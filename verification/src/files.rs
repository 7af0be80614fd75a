//! What is decided about a path from what is found there.
//!
//! Managed state never follows a symbolic link and never overwrites what it
//! did not write. The file system is asked elsewhere; each answer is judged
//! here.

use vstd::prelude::*;
use vstd::string::*;

use crate::error::{Error, ErrorView, IoFault};
use crate::idempotency::IDEMPOTENCY_RECORD_CAP;
use crate::order::Ordered;
use crate::paths::NativePath;
use crate::{bytes, error, order, paths, text};

verus! {

/// What a path names, without following a symbolic link.
#[derive(Debug, Clone, Copy, PartialEq, Eq, Structural)]
pub enum EntryKind {
    /// A symbolic link.
    Symlink,
    /// A directory.
    Directory,
    /// A regular file.
    File,
    /// Anything else.
    Special,
}

/// Whether an error says that nothing exists at a path.
pub open spec fn is_missing(e: ErrorView) -> bool {
    e matches ErrorView::Io { fault: IoFault::NotFound, .. }
}

/// Test for [`is_missing`].
pub fn missing(e: &Error) -> (r: bool)
    ensures
        r == is_missing(e@),
{
    match e {
        Error::Io { fault, .. } => *fault == IoFault::NotFound,
        _ => false,
    }
}

/// Whether an error says that something already exists at a path.
pub open spec fn is_taken(e: ErrorView) -> bool {
    e matches ErrorView::Io { fault: IoFault::AlreadyExists, .. }
}

/// Test for [`is_taken`].
pub fn taken(e: &Error) -> (r: bool)
    ensures
        r == is_taken(e@),
{
    match e {
        Error::Io { fault, .. } => *fault == IoFault::AlreadyExists,
        _ => false,
    }
}

/// Whether anything exists at a path, given what was found there.
pub fn entry_exists(found: std::result::Result<EntryKind, Error>) -> (r: std::result::Result<
    bool,
    Error,
>)
    ensures
        match found {
            Ok(_) => r == Ok::<bool, Error>(true),
            Err(e) => if is_missing(e@) {
                r == Ok::<bool, Error>(false)
            } else {
                r == Err::<bool, Error>(e)
            },
        },
{
    match found {
        Ok(_) => Ok(true),
        Err(e) => if missing(&e) {
            Ok(false)
        } else {
            Err(e)
        },
    }
}

/// What requiring a directory at a path says.
pub open spec fn directory_check(path: Seq<u8>, found: std::result::Result<EntryKind, Error>) -> std::result::Result<
    (),
    ErrorView,
> {
    match found {
        Err(e) => Err(e@),
        Ok(EntryKind::Directory) => Ok(()),
        Ok(_) => Err(
            ErrorView::UnsafeState(
                "expected an existing non-symlink directory: "@ + paths::display_of(path),
            ),
        ),
    }
}

/// Refuse anything but an existing directory that is no symbolic link.
pub fn validate_existing_directory(
    path: &NativePath,
    found: std::result::Result<EntryKind, Error>,
) -> (r: std::result::Result<(), Error>)
    ensures
        error::outcome(r) == directory_check(path@, found),
{
    match found {
        Err(e) => Err(e),
        Ok(kind) => if kind == EntryKind::Directory {
            Ok(())
        } else {
            Err(
                Error::UnsafeState(
                    text::cat2(
                        "expected an existing non-symlink directory: ",
                        path.display().as_str(),
                    ),
                ),
            )
        },
    }
}

/// Require an existing state directory: where it is absent there is no
/// reservation to find, and where it has the wrong shape that is a hazard.
pub fn require_initialized_directory(
    path: &NativePath,
    found: std::result::Result<EntryKind, Error>,
) -> (r: std::result::Result<(), Error>)
    ensures
        error::outcome(r) == match directory_check(path@, found) {
            Ok(_) => Ok(()),
            Err(e) => if is_missing(e) {
                Err(ErrorView::IdempotencyNotFound)
            } else {
                Err(e)
            },
        },
{
    match validate_existing_directory(path, found) {
        Ok(_) => Ok(()),
        Err(e) => if missing(&e) {
            Err(Error::IdempotencyNotFound)
        } else {
            Err(e)
        },
    }
}

/// Decide on a directory that is to be used or created: whether it has to be
/// created first.
pub fn directory_to_create(path: &NativePath, found: std::result::Result<EntryKind, Error>) -> (r:
    std::result::Result<bool, Error>)
    ensures
        match found {
            Ok(EntryKind::Directory) => r == Ok::<bool, Error>(false),
            Ok(_) => r matches Err(e) && e@ == ErrorView::UnsafeState(
                "expected a non-symlink directory: "@ + paths::display_of(path@),
            ),
            Err(e) => if is_missing(e@) {
                r == Ok::<bool, Error>(true)
            } else {
                r == Err::<bool, Error>(e)
            },
        },
{
    match found {
        Ok(kind) => if kind == EntryKind::Directory {
            Ok(false)
        } else {
            Err(
                Error::UnsafeState(
                    text::cat2("expected a non-symlink directory: ", path.display().as_str()),
                ),
            )
        },
        Err(e) => if missing(&e) {
            Ok(true)
        } else {
            Err(e)
        },
    }
}

/// Refuse a directory that is not one right after it was created.
pub fn check_created_directory(path: &NativePath, found: std::result::Result<EntryKind, Error>) -> (r:
    std::result::Result<(), Error>)
    ensures
        error::outcome(r) == match found {
            Ok(EntryKind::Directory) => Ok(()),
            Ok(_) => Err(
                ErrorView::UnsafeState(
                    "directory changed during creation: "@ + paths::display_of(path@),
                ),
            ),
            Err(e) => Err(e@),
        },
{
    match found {
        Ok(kind) => if kind == EntryKind::Directory {
            Ok(())
        } else {
            Err(
                Error::UnsafeState(
                    text::cat2("directory changed during creation: ", path.display().as_str()),
                ),
            )
        },
        Err(e) => Err(e),
    }
}

/// Refuse anything but a regular file where something is present.
pub fn reject_symlink_or_non_file_if_present(
    path: &NativePath,
    found: std::result::Result<EntryKind, Error>,
) -> (r: std::result::Result<(), Error>)
    ensures
        error::outcome(r) == match found {
            Ok(EntryKind::File) => Ok(()),
            Ok(_) => Err(
                ErrorView::UnsafeState(
                    "expected a regular non-symlink file: "@ + paths::display_of(path@),
                ),
            ),
            Err(e) => if is_missing(e@) {
                Ok(())
            } else {
                Err(e@)
            },
        },
{
    match found {
        Ok(kind) => if kind == EntryKind::File {
            Ok(())
        } else {
            Err(
                Error::UnsafeState(
                    text::cat2("expected a regular non-symlink file: ", path.display().as_str()),
                ),
            )
        },
        Err(e) => if missing(&e) {
            Ok(())
        } else {
            Err(e)
        },
    }
}

/// What was found of a directory that must still be empty.
#[derive(Debug, PartialEq, Eq)]
pub struct EmptyProbe {
    /// What the path names.
    pub found: Result<EntryKind, Error>,
    /// Whether it has an entry.
    pub has_entry: Result<bool, Error>,
    /// Whether others than its owner may use it.
    pub shared: Result<bool, Error>,
}

/// What requiring an empty, owner-private directory says.
pub open spec fn empty_check(path: Seq<u8>, probe: EmptyProbe) -> std::result::Result<
    (),
    ErrorView,
> {
    if directory_check(path, probe.found) is Err {
        directory_check(path, probe.found)
    } else {
        match probe.has_entry {
            Err(e) => Err(e@),
            Ok(true) => Err(
                ErrorView::UnsafeState(
                    "reserved capsule directory is not empty: "@ + paths::display_of(path),
                ),
            ),
            Ok(false) => match probe.shared {
                Err(e) => Err(e@),
                Ok(true) => Err(
                    ErrorView::UnsafeState(
                        "reserved capsule directory is not owner-private: "@ + paths::display_of(
                            path,
                        ),
                    ),
                ),
                Ok(false) => Ok(()),
            },
        }
    }
}

/// Refuse a reserved directory that is not empty or not private.
pub fn validate_empty_private_directory(path: &NativePath, probe: EmptyProbe) -> (r:
    std::result::Result<(), Error>)
    ensures
        error::outcome(r) == empty_check(path@, probe),
{
    match validate_existing_directory(path, probe.found) {
        Err(e) => {
            return Err(e);
        },
        Ok(_) => {},
    }
    match probe.has_entry {
        Err(e) => {
            return Err(e);
        },
        Ok(has_entry) => {
            if has_entry {
                return Err(
                    Error::UnsafeState(
                        text::cat2(
                            "reserved capsule directory is not empty: ",
                            path.display().as_str(),
                        ),
                    ),
                );
            }
        },
    }
    match probe.shared {
        Err(e) => Err(e),
        Ok(shared) => if shared {
            Err(
                Error::UnsafeState(
                    text::cat2(
                        "reserved capsule directory is not owner-private: ",
                        path.display().as_str(),
                    ),
                ),
            )
        } else {
            Ok(())
        },
    }
}

/// Accept a reserved identity whose directory does not exist yet, or is still
/// empty.
pub fn validate_unmaterialized(path: &NativePath, present: std::result::Result<bool, Error>, probe:
    EmptyProbe) -> (r: std::result::Result<(), Error>)
    ensures
        error::outcome(r) == match present {
            Err(e) => Err(e@),
            Ok(false) => Ok(()),
            Ok(true) => empty_check(path@, probe),
        },
{
    match present {
        Err(e) => Err(e),
        Ok(b) => if b {
            validate_empty_private_directory(path, probe)
        } else {
            Ok(())
        },
    }
}

/// Decide on the directory of a new capsule, given how creating it went: a
/// reserved identity may resume an empty one, any other identity never reuses
/// what exists.
pub fn check_prepared(
    path: &NativePath,
    created: std::result::Result<(), Error>,
    resume_empty: bool,
    probe: EmptyProbe,
) -> (r: std::result::Result<(), Error>)
    ensures
        error::outcome(r) == match created {
            Ok(_) => Ok(()),
            Err(e) => if !is_taken(e@) {
                Err(e@)
            } else if resume_empty {
                empty_check(path@, probe)
            } else {
                Err(
                    ErrorView::UnsafeState(
                        "refusing to reuse existing capsule state: "@ + paths::display_of(path@),
                    ),
                )
            },
        },
{
    match created {
        Ok(_) => Ok(()),
        Err(e) => if !taken(&e) {
            Err(e)
        } else if resume_empty {
            validate_empty_private_directory(path, probe)
        } else {
            Err(
                Error::UnsafeState(
                    text::cat2(
                        "refusing to reuse existing capsule state: ",
                        path.display().as_str(),
                    ),
                ),
            )
        },
    }
}

/// Refuse a document that would not fit its storage bound.
pub fn check_json_size(path: &NativePath, size: u64, cap: u64) -> (r: std::result::Result<
    (),
    Error,
>)
    ensures
        error::outcome(r) == if size > cap {
            Err(
                ErrorView::InvalidInput(
                    "state JSON exceeds the "@ + text::decimal(cap as nat) + "-byte limit: "@
                        + paths::display_of(path@),
                ),
            )
        } else {
            Ok(())
        },
{
    if size > cap {
        Err(
            Error::InvalidInput(
                text::cat4(
                    "state JSON exceeds the ",
                    text::decimal_text(cap).as_str(),
                    "-byte limit: ",
                    path.display().as_str(),
                ),
            ),
        )
    } else {
        Ok(())
    }
}

/// Refuse a reservation that would not fit its storage bound.
pub fn check_reservation_size(size: u64) -> (r: std::result::Result<(), Error>)
    ensures
        error::outcome(r) == if size > IDEMPOTENCY_RECORD_CAP {
            Err(
                ErrorView::InvalidInput(
                    "idempotency reservation exceeds the "@ + text::decimal(
                        IDEMPOTENCY_RECORD_CAP as nat,
                    ) + "-byte bound"@,
                ),
            )
        } else {
            Ok(())
        },
{
    if size > IDEMPOTENCY_RECORD_CAP {
        Err(
            Error::InvalidInput(
                text::cat3(
                    "idempotency reservation exceeds the ",
                    text::decimal_text(IDEMPOTENCY_RECORD_CAP).as_str(),
                    "-byte bound",
                ),
            ),
        )
    } else {
        Ok(())
    }
}

/// The error for a state file that could not be put in place: an existing one
/// is never overwritten.
pub fn noclobber_error(path: &NativePath, e: Error) -> (r: Error)
    ensures
        r@ == if is_taken(e@) {
            ErrorView::UnsafeState(
                "refusing to overwrite existing state file: "@ + paths::display_of(path@),
            )
        } else {
            e@
        },
{
    if taken(&e) {
        Error::UnsafeState(
            text::cat2("refusing to overwrite existing state file: ", path.display().as_str()),
        )
    } else {
        e
    }
}

/// Refuse an export to a destination where something exists already.
pub fn check_export_destination(path: &NativePath, present: std::result::Result<bool, Error>) -> (r:
    std::result::Result<(), Error>)
    ensures
        error::outcome(r) == match present {
            Err(e) => Err(e@),
            Ok(true) => Err(
                ErrorView::InvalidInput(
                    "export destination already exists: "@ + paths::display_of(path@),
                ),
            ),
            Ok(false) => Ok(()),
        },
{
    match present {
        Err(e) => Err(e),
        Ok(b) => if b {
            Err(
                Error::InvalidInput(
                    text::cat2("export destination already exists: ", path.display().as_str()),
                ),
            )
        } else {
            Ok(())
        },
    }
}

/// The error for an export directory that could not be created.
pub fn destination_error(path: &NativePath, e: Error) -> (r: Error)
    ensures
        r@ == if is_taken(e@) {
            ErrorView::InvalidInput("destination already exists: "@ + paths::display_of(path@))
        } else {
            e@
        },
{
    if taken(&e) {
        Error::InvalidInput(
            text::cat2("destination already exists: ", path.display().as_str()),
        )
    } else {
        e
    }
}

/// What requiring a regular file of one exact length says.
pub open spec fn exact_file_check(
    path: Seq<u8>,
    description: Seq<char>,
    regular: bool,
    size: u64,
    expected: u64,
) -> std::result::Result<(), ErrorView> {
    if regular && size == expected {
        Ok(())
    } else {
        Err(
            ErrorView::InvalidInput(
                description + " must be a regular non-link file containing exactly "@
                    + text::decimal(expected as nat) + " raw bytes: "@ + paths::display_of(path),
            ),
        )
    }
}

/// Refuse a file that is not regular or not exactly as long as raw key
/// material has to be.
pub fn check_exact_file(
    path: &NativePath,
    description: &str,
    regular: bool,
    size: u64,
    expected: u64,
) -> (r: std::result::Result<(), Error>)
    ensures
        error::outcome(r) == exact_file_check(path@, description@, regular, size, expected),
{
    if regular && size == expected {
        Ok(())
    } else {
        Err(
            Error::InvalidInput(
                text::cat5(
                    description,
                    " must be a regular non-link file containing exactly ",
                    text::decimal_text(expected).as_str(),
                    " raw bytes: ",
                    path.display().as_str(),
                ),
            ),
        )
    }
}

/// What becomes of a JSON document that the caller named, read under a bound.
pub open spec fn json_input_check(path: Seq<u8>, regular: bool, size: u64, read: u64, cap: u64) -> std::result::Result<
    (),
    ErrorView,
> {
    if !regular || size > cap {
        Err(
            ErrorView::InvalidInput(
                "JSON input must be a regular non-link file no larger than "@ + text::decimal(
                    cap as nat,
                ) + " bytes: "@ + paths::display_of(path),
            ),
        )
    } else if read > cap {
        Err(
            ErrorView::InvalidInput(
                "JSON input exceeds "@ + text::decimal(cap as nat) + " bytes: "@
                    + paths::display_of(path),
            ),
        )
    } else {
        Ok(())
    }
}

/// Accept a JSON document that the caller named only if its file is regular and
/// neither the recorded size nor what was read passes `cap`.
pub fn check_json_input(path: &NativePath, regular: bool, size: u64, read: u64, cap: u64) -> (r:
    std::result::Result<(), Error>)
    ensures
        error::outcome(r) == json_input_check(path@, regular, size, read, cap),
{
    if !regular || size > cap {
        return Err(
            Error::InvalidInput(
                text::cat4(
                    "JSON input must be a regular non-link file no larger than ",
                    text::decimal_text(cap).as_str(),
                    " bytes: ",
                    path.display().as_str(),
                ),
            ),
        );
    }
    if read > cap {
        return Err(
            Error::InvalidInput(
                text::cat4(
                    "JSON input exceeds ",
                    text::decimal_text(cap).as_str(),
                    " bytes: ",
                    path.display().as_str(),
                ),
            ),
        );
    }
    Ok(())
}

/// The error for a document of the caller's that does not decode.
pub fn json_input_error(path: &NativePath, detail: &str) -> (r: Error)
    ensures
        r@ == ErrorView::InvalidInput(
            "invalid JSON input at "@ + paths::display_of(path@) + ": "@ + detail@,
        ),
{
    Error::InvalidInput(
        text::cat4("invalid JSON input at ", path.display().as_str(), ": ", detail),
    )
}

/// The error for a file of the caller's that could not be put in place: an
/// existing file is never overwritten.
pub fn overwrite_error(path: &NativePath, what: &str, e: Error) -> (r: Error)
    ensures
        r@ == if is_taken(e@) {
            ErrorView::InvalidInput(
                "refusing to overwrite "@ + what@ + " file: "@ + paths::display_of(path@),
            )
        } else {
            e@
        },
{
    if taken(&e) {
        Error::InvalidInput(
            text::cat4("refusing to overwrite ", what, " file: ", path.display().as_str()),
        )
    } else {
        e
    }
}

/// Refuse to lock anything but a regular file.
pub fn check_lock_file(path: &NativePath, regular: bool) -> (r: std::result::Result<(), Error>)
    ensures
        error::outcome(r) == if regular {
            Ok(())
        } else {
            Err(ErrorView::UnsafeState("lock is not a regular file: "@ + paths::display_of(path@)))
        },
{
    if regular {
        Ok(())
    } else {
        Err(
            Error::UnsafeState(
                text::cat2("lock is not a regular file: ", path.display().as_str()),
            ),
        )
    }
}

/// The name of one file.
#[derive(Debug, PartialEq, Eq)]
pub struct FileName {
    /// Its bytes.
    pub bytes: Vec<u8>,
}

impl Ordered for FileName {
    open spec fn precedes(self, other: Self) -> bool {
        bytes::bytes_before(self.bytes@, other.bytes@)
    }

    fn before(&self, other: &Self) -> (r: bool) {
        bytes::before(self.bytes.as_slice(), other.bytes.as_slice())
    }
}

/// The files of a row other than the completion marker.
pub open spec fn unmarked(names: Seq<FileName>, marker: Seq<u8>) -> Seq<FileName> {
    names.filter(|n: FileName| n.bytes@ != marker)
}

/// The order in which staged files are moved into place, without the
/// completion marker: by name. The marker is moved after all of them, so that
/// its presence means that nothing is missing.
pub fn publication_order(names: Vec<FileName>, marker: &[u8]) -> (r: Vec<FileName>)
    ensures
        r@ == unmarked(order::sorted(names@), marker@),
{
    let rows = order::sort(names);
    let ghost all = rows@;
    let keep = Ghost(|n: FileName| n.bytes@ != marker@);
    let mut todo = rows;
    let mut r: Vec<FileName> = Vec::new();
    proof {
        reveal(Seq::filter);
        assert(all.skip(all.len() as int) =~= Seq::<FileName>::empty());
        assert(all.take(all.len() as int) =~= all);
        lemma_filter_rest(all, all.len() as int, keep@);
        assert(r@.reverse() =~= all.skip(all.len() as int).filter(keep@));
    }
    while todo.len() > 0
        invariant
            todo@.len() <= all.len(),
            todo@ == all.take(todo@.len() as int),
            keep@ == (|n: FileName| n.bytes@ != marker@),
            r@.reverse() == all.skip(todo@.len() as int).filter(keep@),
        decreases todo.len(),
    {
        let ghost n = todo@.len() as int;
        let ghost before = r@;
        let name = match todo.pop() {
            Some(name) => name,
            None => {
                return r;
            },
        };
        proof {
            assert(name == all[n - 1]);
            assert(todo@ =~= all.take(n - 1));
            lemma_filter_front(all.skip(n - 1), keep@);
            assert(all.skip(n - 1)[0] == name);
            assert(all.skip(n - 1).skip(1) =~= all.skip(n));
        }
        if !bytes::same_bytes(name.bytes.as_slice(), marker) {
            r.push(name);
            proof {
                assert(r@.reverse() =~= seq![name] + before.reverse());
            }
        }
    }
    proof {
        assert(all.skip(0) =~= all);
    }
    reversed(r)
}

fn reversed(rows: Vec<FileName>) -> (r: Vec<FileName>)
    ensures
        r@ == rows@.reverse(),
{
    let ghost all = rows@;
    let mut todo = rows;
    let mut r: Vec<FileName> = Vec::new();
    proof {
        assert(r@ =~= all.skip(all.len() as int).reverse());
    }
    while todo.len() > 0
        invariant
            todo@.len() <= all.len(),
            todo@ == all.take(todo@.len() as int),
            r@ == all.skip(todo@.len() as int).reverse(),
        decreases todo.len(),
    {
        let ghost n = todo@.len() as int;
        let name = match todo.pop() {
            Some(name) => name,
            None => {
                return r;
            },
        };
        let ghost before = r@;
        r.push(name);
        proof {
            assert(todo@ =~= all.take(n - 1));
            assert(r@ =~= all.skip(n - 1).reverse());
        }
    }
    proof {
        assert(all.skip(0) =~= all);
    }
    r
}

proof fn lemma_filter_front(rows: Seq<FileName>, keep: spec_fn(FileName) -> bool)
    requires
        rows.len() > 0,
    ensures
        rows.filter(keep) == if keep(rows[0]) {
            seq![rows[0]] + rows.skip(1).filter(keep)
        } else {
            rows.skip(1).filter(keep)
        },
{
    Seq::filter_distributes_over_add(seq![rows[0]], rows.skip(1), keep);
    assert(seq![rows[0]] + rows.skip(1) =~= rows);
    reveal(Seq::filter);
    let one = seq![rows[0]];
    assert(one.drop_last() =~= Seq::<FileName>::empty());
    assert(one.last() == rows[0]);
    assert(Seq::<FileName>::empty().filter(keep) =~= Seq::<FileName>::empty());
    assert(one.filter(keep) =~= if keep(rows[0]) {
        seq![rows[0]]
    } else {
        Seq::<FileName>::empty()
    });
    assert(rows.filter(keep) =~= if keep(rows[0]) {
        seq![rows[0]] + rows.skip(1).filter(keep)
    } else {
        rows.skip(1).filter(keep)
    });
}

proof fn lemma_filter_rest(rows: Seq<FileName>, n: int, keep: spec_fn(FileName) -> bool)
    requires
        n == rows.len(),
    ensures
        rows.skip(n).filter(keep) == Seq::<FileName>::empty(),
{
    reveal(Seq::filter);
    assert(rows.skip(n) =~= Seq::<FileName>::empty());
}

/// Everything that was found of a directory that may be a worktree nothing has
/// been checked out into.
#[derive(Debug, PartialEq, Eq)]
pub struct ShapeProbe {
    /// What the directory's path names.
    pub found: Result<EntryKind, Error>,
    /// The names of its entries.
    pub entries: Result<Vec<FileName>, Error>,
    /// What its Git link file names.
    pub git_entry: Result<EntryKind, Error>,
}

/// Whether a directory is a worktree nothing has been checked out into: it
/// holds nothing but a regular Git link file.
pub open spec fn unchecked_shape_of(probe: ShapeProbe) -> std::result::Result<bool, ErrorView> {
    match probe.found {
        Err(e) => Err(e@),
        Ok(EntryKind::Directory) => match probe.entries {
            Err(e) => Err(e@),
            Ok(entries) => if entries@.len() != 1 || entries@[0].bytes@ != vstd::utf8::encode_utf8(
                ".git"@,
            ) {
                Ok(false)
            } else {
                match probe.git_entry {
                    Err(e) => Err(e@),
                    Ok(kind) => Ok(kind is File),
                }
            },
        },
        Ok(_) => Ok(false),
    }
}

/// Test for [`unchecked_shape_of`].
pub fn is_unchecked_worktree_shape(probe: ShapeProbe) -> (r: std::result::Result<bool, Error>)
    ensures
        match unchecked_shape_of(probe) {
            Ok(b) => r == Ok::<bool, Error>(b),
            Err(e) => r matches Err(found) && found@ == e,
        },
{
    match probe.found {
        Err(e) => {
            return Err(e);
        },
        Ok(kind) => {
            if kind != EntryKind::Directory {
                return Ok(false);
            }
        },
    }
    match probe.entries {
        Err(e) => {
            return Err(e);
        },
        Ok(entries) => {
            if entries.len() != 1 || !bytes::same_bytes(
                entries[0].bytes.as_slice(),
                ".git".as_bytes(),
            ) {
                return Ok(false);
            }
        },
    }
    match probe.git_entry {
        Err(e) => Err(e),
        Ok(kind) => Ok(kind == EntryKind::File),
    }
}

} // verus!
