//! What files and directories are accepted.

use vstd::prelude::*;
use vstd::string::*;
use vstd::utf8::*;

use crate::error::{Error, IoFault};
use crate::files::{EmptyProbe, EntryKind, FileName, ShapeProbe};
use crate::laws::ignoring;
use crate::paths::NativePath;
use crate::{files, laws, order};

verus! {

/// Whether an error says that nothing is there.
pub open spec fn is_missing(e: Error) -> bool {
    e matches Error::Io { fault, .. } && fault is NotFound
}

/// Whether an error says that something is there already.
pub open spec fn is_taken(e: Error) -> bool {
    e matches Error::Io { fault, .. } && fault is AlreadyExists
}

/// Whether a directory was found, is empty, and is its owner's alone.
pub open spec fn is_empty(p: EmptyProbe) -> bool {
    &&& p.found == Ok::<EntryKind, Error>(EntryKind::Directory)
    &&& p.has_entry == Ok::<bool, Error>(false)
    &&& p.shared == Ok::<bool, Error>(false)
}

/// Something exists exactly where it was found, and does not exactly where the
/// error says so. No other error is taken for absence.
pub proof fn law_absence_is_told_from_failure(
    e: Error,
    gone: bool,
    there: bool,
    found: std::result::Result<EntryKind, Error>,
    r: std::result::Result<bool, Error>,
)
    requires
        call_ensures(files::missing, (&e,), gone),
        call_ensures(files::taken, (&e,), there),
        call_ensures(files::entry_exists, (found,), r),
    ensures
        gone <==> is_missing(e),
        there <==> is_taken(e),
        r == Ok::<bool, Error>(true) <==> found is Ok,
        r == Ok::<bool, Error>(false) <==> (found matches Err(e) && is_missing(e)),
{
}

/// Directories are used only where they are directories themselves, and created
/// only where nothing is there.
pub proof fn law_directories_are_no_links(
    path: NativePath,
    found: std::result::Result<EntryKind, Error>,
    existing: std::result::Result<(), Error>,
    initialized: std::result::Result<(), Error>,
    create: std::result::Result<bool, Error>,
    created: std::result::Result<(), Error>,
)
    requires
        call_ensures(files::validate_existing_directory, (&path, found), existing),
        call_ensures(files::require_initialized_directory, (&path, found), initialized),
        call_ensures(files::directory_to_create, (&path, found), create),
        call_ensures(files::check_created_directory, (&path, found), created),
    ensures
        existing is Ok <==> found == Ok::<EntryKind, Error>(EntryKind::Directory),
        created is Ok <==> existing is Ok,
        initialized is Ok <==> existing is Ok,
        (initialized matches Err(e) && e is IdempotencyNotFound) <== (found matches Err(e)
            && is_missing(e)),
        create == Ok::<bool, Error>(false) <==> existing is Ok,
        create == Ok::<bool, Error>(true) <==> (found matches Err(e) && is_missing(e)),
        found is Ok && existing is Err ==> (existing matches Err(e) && e is UnsafeState) && (
        initialized matches Err(e) && e is UnsafeState) && (create matches Err(e) && e
            is UnsafeState) && (created matches Err(e) && e is UnsafeState),
{
}

/// Files are read and locked only where they are regular files themselves.
pub proof fn law_files_are_no_links(
    path: NativePath,
    found: std::result::Result<EntryKind, Error>,
    r: std::result::Result<(), Error>,
    regular: bool,
    lock: std::result::Result<(), Error>,
)
    requires
        call_ensures(files::reject_symlink_or_non_file_if_present, (&path, found), r),
        call_ensures(files::check_lock_file, (&path, regular), lock),
    ensures
        r is Ok <==> found == Ok::<EntryKind, Error>(EntryKind::File) || (found matches Err(e)
            && is_missing(e)),
        lock is Ok <==> regular,
        lock matches Err(e) ==> e is UnsafeState,
{
}

/// The directory of a new capsule is new. Only a reserved identity may take up
/// one that exists, and only where it is empty and private.
pub proof fn law_new_capsules_never_take_over_state(
    path: NativePath,
    p: EmptyProbe,
    empty: std::result::Result<(), Error>,
    present: std::result::Result<bool, Error>,
    waiting: std::result::Result<(), Error>,
    made: std::result::Result<(), Error>,
    resume: bool,
    r: std::result::Result<(), Error>,
)
    requires
        call_ensures(files::validate_empty_private_directory, (&path, p), empty),
        call_ensures(files::validate_unmaterialized, (&path, present, p), waiting),
        call_ensures(files::check_prepared, (&path, made, resume, p), r),
    ensures
        empty is Ok <==> is_empty(p),
        waiting is Ok <==> (present matches Ok(there) && (there ==> is_empty(p))),
        r is Ok <==> made is Ok || (made matches Err(e) && is_taken(e)) && resume && is_empty(p),
{
}

/// Documents are kept within their bounds, inclusively.
pub proof fn law_documents_keep_to_their_bounds(
    path: NativePath,
    size: u64,
    cap: u64,
    json: std::result::Result<(), Error>,
    reservation: std::result::Result<(), Error>,
    regular: bool,
    read: u64,
    input: std::result::Result<(), Error>,
    what: &str,
    exact: std::result::Result<(), Error>,
)
    requires
        call_ensures(files::check_json_size, (&path, size, cap), json),
        call_ensures(files::check_reservation_size, (size,), reservation),
        call_ensures(files::check_json_input, (&path, regular, size, read, cap), input),
        call_ensures(files::check_exact_file, (&path, what, regular, size, cap), exact),
    ensures
        json is Ok <==> size <= cap,
        reservation is Ok <==> size <= 262144,
        input is Ok <==> regular && size <= cap && read <= cap,
        exact is Ok <==> regular && size == cap,
        json matches Err(e) ==> e is InvalidInput,
        reservation matches Err(e) ==> e is InvalidInput,
        input matches Err(e) ==> e is InvalidInput,
        exact matches Err(e) ==> e is InvalidInput,
{
}

/// What exists is never overwritten, and any other failure is told as it is.
pub proof fn law_nothing_is_overwritten(
    path: NativePath,
    what: &str,
    e: Error,
    state: Error,
    destination: Error,
    file: Error,
    present: std::result::Result<bool, Error>,
    r: std::result::Result<(), Error>,
)
    requires
        call_ensures(files::noclobber_error, (&path, e), state),
        call_ensures(files::destination_error, (&path, e), destination),
        call_ensures(files::overwrite_error, (&path, what, e), file),
        call_ensures(files::check_export_destination, (&path, present), r),
    ensures
        is_taken(e) ==> state is UnsafeState && destination is InvalidInput && file is InvalidInput,
        !is_taken(e) && e is Io ==> {
            &&& state is Io && state->Io_fault == e->Io_fault && state->Io_detail@ == e->Io_detail@
            &&& destination is Io && destination->Io_fault == e->Io_fault
            &&& file is Io && file->Io_fault == e->Io_fault
        },
        r is Ok <==> present == Ok::<bool, Error>(false),
{
}

/// Files are put in place by name and each once, but for the one that marks
/// completion: it is not among them, and so can go last.
pub proof fn law_the_marker_is_put_in_place_last(
    names: Vec<FileName>,
    marker: &[u8],
    r: Vec<FileName>,
)
    requires
        call_ensures(files::publication_order, (names, marker), r),
    ensures
        exists|row: Seq<FileName>| #[trigger]
            ignoring::is_in_name_order(row, names@) && r@ == row.filter(
                |n: FileName| n.bytes@ != marker@,
            ),
        forall|i: int| 0 <= i < r@.len() ==> (#[trigger] r@[i]).bytes@ != marker@,
        forall|i: int|
            0 <= i < names@.len() && (#[trigger] names@[i]).bytes@ != marker@ ==> r@.contains(
                names@[i],
            ),
{
    broadcast use vstd::seq_lib::group_to_multiset_ensures;

    ignoring::lemma_name_order(names@);
    let row = order::sorted(names@);
    let keep = |n: FileName| n.bytes@ != marker@;
    assert(ignoring::is_in_name_order(row, names@));
    assert(r@ == row.filter(keep));
    assert forall|i: int| 0 <= i < r@.len() implies (#[trigger] r@[i]).bytes@ != marker@ by {
        row.lemma_filter_pred(keep, i);
        assert(keep(r@[i]));
    }
    assert forall|i: int| 0 <= i < names@.len() && (#[trigger] names@[i]).bytes@
        != marker@ implies r@.contains(names@[i]) by {
        assert(names@.contains(names@[i]));
        assert(names@.to_multiset().count(names@[i]) > 0);
        assert(row.to_multiset().count(names@[i]) > 0);
        assert(row.contains(names@[i]));
        let k = row.index_of(names@[i]);
        row.lemma_filter_contains(keep, k);
    }
}

/// A worktree counts as not checked out exactly where it is a directory that
/// holds nothing but a regular Git link file.
pub proof fn law_unchecked_worktrees_hold_only_their_link(
    p: ShapeProbe,
    r: std::result::Result<bool, Error>,
)
    requires
        call_ensures(files::is_unchecked_worktree_shape, (p,), r),
    ensures
        r == Ok::<bool, Error>(true) <==> {
            &&& p.found == Ok::<EntryKind, Error>(EntryKind::Directory)
            &&& p.entries matches Ok(row) && row@.len() == 1 && row@[0].bytes@ == encode_utf8(
                ".git"@,
            )
            &&& p.git_entry == Ok::<EntryKind, Error>(EntryKind::File)
        },
        p.found is Err ==> r is Err,
{
}

} // verus!
