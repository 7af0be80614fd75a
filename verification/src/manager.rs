//! The manager of one state directory: opening, reading records, and the
//! checks that every operation shares.

use vstd::prelude::*;
use vstd::string::*;
use vstd::utf8::*;

use crate::error::{Error, ErrorView, IoFault};
use crate::model::{Capsule, CapsuleState};
use crate::paths::NativePath;
use crate::store::StateStore;
use crate::{digest, error, model, paths, store, text, validate};

verus! {

/// Entry point for every capsule operation.
///
/// A manager decides; what it needs to know of the file system and of Git
/// comes in as values, and what is to be written or run goes out as values.
#[derive(Debug, PartialEq, Eq)]
pub struct CapsuleManager {
    /// The durable state this manager is responsible for.
    pub store: StateStore,
}

/// An error while reading the record of `id`, where a missing file means that
/// there is no such capsule.
pub open spec fn not_found_view(id: Seq<char>, e: ErrorView) -> ErrorView {
    match e {
        ErrorView::Io { fault: IoFault::NotFound, .. } => ErrorView::NotFound(id),
        other => other,
    }
}

/// Map a missing file to a missing capsule; see [`not_found_view`].
pub fn not_found(id: &str, e: Error) -> (r: Error)
    ensures
        r@ == not_found_view(id@, e@),
{
    match e {
        Error::Io { path, fault, detail } => if fault == IoFault::NotFound {
            Error::NotFound(id.to_owned())
        } else {
            Error::Io { path, fault, detail }
        },
        other => other,
    }
}

/// What showing a capsule says, given what decoding its manifest gave.
pub open spec fn show_check(
    root: Seq<u8>,
    id: Seq<char>,
    stored: std::result::Result<Capsule, Error>,
) -> std::result::Result<(), ErrorView> {
    match store::read_check(root, id, stored) {
        Ok(_) => Ok(()),
        Err(e) => Err(not_found_view(id, e)),
    }
}

/// The error for an operation that the capsule's state does not allow.
pub open spec fn state_error(capsule: Capsule, expected: Seq<char>) -> ErrorView {
    ErrorView::InvalidState {
        id: capsule.id@,
        state: model::state_name_of(capsule.state),
        expected,
    }
}

/// The error for an operation that the capsule's state does not allow.
pub fn invalid_state(capsule: &Capsule, expected: &str) -> (r: Error)
    ensures
        r@ == state_error(*capsule, expected@),
{
    Error::InvalidState {
        id: capsule.id.clone(),
        state: model::state_name(capsule.state).to_owned(),
        expected: expected.to_owned(),
    }
}

/// What requiring a state says.
pub open spec fn state_check(
    capsule: Capsule,
    wanted: CapsuleState,
    expected: Seq<char>,
) -> std::result::Result<(), ErrorView> {
    if capsule.state == wanted {
        Ok(())
    } else {
        Err(state_error(capsule, expected))
    }
}

/// Refuse a capsule that is not in the wanted state.
pub fn require_state(capsule: &Capsule, wanted: CapsuleState, expected: &str) -> (r:
    std::result::Result<(), Error>)
    ensures
        error::outcome(r) == state_check(*capsule, wanted, expected@),
{
    if capsule.state == wanted {
        Ok(())
    } else {
        Err(invalid_state(capsule, expected))
    }
}

/// The ref that protects a checkpoint commit until its branch has moved.
pub open spec fn checkpoint_ref_of(id: Seq<char>) -> Seq<char> {
    "refs/change-capsule/"@ + id + "/checkpoint"@
}

/// The ref that protects an integration commit until its target has moved.
pub open spec fn integration_ref_of(id: Seq<char>) -> Seq<char> {
    "refs/change-capsule/"@ + id + "/integration"@
}

/// The ref that protects a checkpoint commit until its branch has moved.
pub fn checkpoint_ref(capsule: &Capsule) -> (r: String)
    ensures
        r@ == checkpoint_ref_of(capsule.id@),
{
    text::cat3("refs/change-capsule/", capsule.id.as_str(), "/checkpoint")
}

/// The ref that protects an integration commit until its target has moved.
pub fn integration_ref(capsule: &Capsule) -> (r: String)
    ensures
        r@ == integration_ref_of(capsule.id@),
{
    text::cat3("refs/change-capsule/", capsule.id.as_str(), "/integration")
}

impl CapsuleManager {
    /// A manager on the default state directory, given what the environment
    /// says; see [`store::default_state_root`].
    pub fn open_default(
        capsule_home: Option<NativePath>,
        xdg_state_home: Option<NativePath>,
        home: Option<NativePath>,
    ) -> (r: std::result::Result<CapsuleManager, Error>)
        ensures
            match store::default_root_of(
                store::set_value(capsule_home),
                store::set_value(xdg_state_home),
                store::set_value(home),
            ) {
                Ok(p) => r matches Ok(m) && m.store.root@ == p,
                Err(e) => r matches Err(found) && found@ == e,
            },
    {
        match store::default_state_root(capsule_home, xdg_state_home, home) {
            Ok(root) => Ok(CapsuleManager::open(root)),
            Err(e) => Err(e),
        }
    }

    /// A manager on an explicit state directory.
    pub fn open(state_root: NativePath) -> (r: CapsuleManager)
        ensures
            r.store.root == state_root,
    {
        CapsuleManager { store: StateStore::new(state_root) }
    }

    /// Directory holding this manager's durable state.
    pub fn state_root(&self) -> (r: &NativePath)
        ensures
            *r == self.store.root,
    {
        &self.store.root
    }

    /// One capsule manifest as it was decoded, revalidating its identity
    /// fields.
    pub fn show(&self, id: &str, stored: std::result::Result<Capsule, Error>) -> (r:
        std::result::Result<Capsule, Error>)
        ensures
            match show_check(self.store.root@, id@, stored) {
                Ok(_) => r == stored,
                Err(e) => r matches Err(found) && found@ == e,
            },
    {
        match self.store.read_capsule(id, stored) {
            Ok(c) => Ok(c),
            Err(e) => Err(not_found(id, e)),
        }
    }

    /// Filesystem directory a capsule's attempt works in.
    pub fn workspace_path(&self, id: &str, stored: std::result::Result<Capsule, Error>) -> (r:
        std::result::Result<NativePath, Error>)
        ensures
            match show_check(self.store.root@, id@, stored) {
                Ok(_) => r matches Ok(p) && stored matches Ok(c) && p == c.workspace_path,
                Err(e) => r matches Err(found) && found@ == e,
            },
    {
        match self.show(id, stored) {
            Ok(c) => Ok(c.workspace_path),
            Err(e) => Err(e),
        }
    }
}

/// Every capsule that a manager shows has journals that agree with its state,
/// so recovery never meets a manifest whose journals contradict it.
pub proof fn law_shown_capsules_have_consistent_journals(
    root: Seq<u8>,
    id: Seq<char>,
    stored: std::result::Result<Capsule, Error>,
)
    requires
        show_check(root, id, stored) is Ok,
    ensures
        stored matches Ok(c) && store::journals_consistent(c) && c.id@ == id
            && validate::is_capsule_id(id) && c.schema_version == model::SCHEMA_VERSION
            && store::all_coherent(c.evidence@),
{
}

/// Where a plain name goes below a directory: behind a separator, unless the
/// directory ends with one or is empty.
proof fn lemma_below(base: Seq<u8>, name: Seq<char>)
    requires
        name.len() > 0,
        is_ascii_chars(name),
        name[0] != '/',
    ensures
        encode_utf8(name).len() == name.len(),
        store::below(base, name) == (if base.len() > 0 && base.last() != paths::SEPARATOR {
            base.push(paths::SEPARATOR)
        } else {
            base
        }) + encode_utf8(name),
{
    is_ascii_chars_encode_utf8(name);
    assert(encode_utf8(name)[0] == name[0] as u8);
}

/// Different names below the same directory are different places.
proof fn lemma_below_apart(base: Seq<u8>, a: Seq<char>, b: Seq<char>)
    requires
        a.len() > 0,
        b.len() > 0,
        is_ascii_chars(a),
        is_ascii_chars(b),
        a[0] != '/',
        b[0] != '/',
        a != b,
    ensures
        store::below(base, a) != store::below(base, b),
{
    lemma_below(base, a);
    lemma_below(base, b);
    let front = if base.len() > 0 && base.last() != paths::SEPARATOR {
        base.push(paths::SEPARATOR)
    } else {
        base
    };
    if store::below(base, a) == store::below(base, b) {
        assert((front + encode_utf8(a)).skip(front.len() as int) =~= encode_utf8(a));
        assert((front + encode_utf8(b)).skip(front.len() as int) =~= encode_utf8(b));
        digest::lemma_encode_utf8_injective(a, b);
    }
}

/// Attempts never share a place: different capsules have different records,
/// workspaces, branches, and protecting refs, whatever they start from.
pub proof fn law_capsules_do_not_share_places(
    root: Seq<u8>,
    a: Seq<char>,
    b: Seq<char>,
    project_a: Seq<char>,
    project_b: Seq<char>,
)
    requires
        validate::is_capsule_id(a),
        validate::is_capsule_id(b),
        a != b,
        validate::project_key_check(project_a) is Ok,
        validate::project_key_check(project_b) is Ok,
    ensures
        store::capsule_dir_of(root, a) != store::capsule_dir_of(root, b),
        store::workspace_path_of(root, project_a, a) != store::workspace_path_of(
            root,
            project_b,
            b,
        ),
        store::branch_of(a) != store::branch_of(b),
        checkpoint_ref_of(a) != checkpoint_ref_of(b),
        integration_ref_of(a) != integration_ref_of(b),
{
    reveal_strlit("cap-");
    assert(a.take(4)[0] == 'c' && b.take(4)[0] == 'c');
    assert(validate::is_id_char(a[0]) && validate::is_id_char(b[0]));
    assert(is_ascii_chars(a)) by {
        assert forall|i: int| 0 <= i < a.len() implies '\0' <= #[trigger] a[i] <= '\u{7f}' by {
            assert(validate::is_id_char(a[i]));
        }
    }
    assert(is_ascii_chars(b)) by {
        assert forall|i: int| 0 <= i < b.len() implies '\0' <= #[trigger] b[i] <= '\u{7f}' by {
            assert(validate::is_id_char(b[i]));
        }
    }
    lemma_below_apart(store::below(root, "capsules"@), a, b);
    lemma_workspaces_apart(store::below(root, "workspaces"@), a, b, project_a, project_b);
    if store::branch_of(a) == store::branch_of(b) {
        let prefix = "capsule/"@;
        assert((prefix + a.skip(4)).skip(prefix.len() as int) =~= a.skip(4));
        assert((prefix + b.skip(4)).skip(prefix.len() as int) =~= b.skip(4));
        assert(a =~= a.take(4) + a.skip(4));
        assert(b =~= b.take(4) + b.skip(4));
    }
    lemma_between_apart("refs/change-capsule/"@, a, b, "/checkpoint"@);
    lemma_between_apart("refs/change-capsule/"@, a, b, "/integration"@);
}

/// Different texts between the same two texts.
proof fn lemma_between_apart(front: Seq<char>, a: Seq<char>, b: Seq<char>, back: Seq<char>)
    requires
        a != b,
    ensures
        front + a + back != front + b + back,
{
    if front + a + back == front + b + back {
        assert((front + a + back).len() == (front + b + back).len());
        assert((front + a + back).subrange(front.len() as int, (front.len() + a.len()) as int)
            =~= a);
        assert((front + b + back).subrange(front.len() as int, (front.len() + b.len()) as int)
            =~= b);
    }
}

/// Different names below directories whose names are equally long.
proof fn lemma_workspaces_apart(
    base: Seq<u8>,
    a: Seq<char>,
    b: Seq<char>,
    project_a: Seq<char>,
    project_b: Seq<char>,
)
    requires
        a.len() > 0,
        b.len() > 0,
        is_ascii_chars(a),
        is_ascii_chars(b),
        a[0] != '/',
        b[0] != '/',
        a != b,
        validate::project_key_check(project_a) is Ok,
        validate::project_key_check(project_b) is Ok,
    ensures
        store::below(store::below(base, project_a), a) != store::below(
            store::below(base, project_b),
            b,
        ),
{
    lemma_project_directory(base, project_a);
    lemma_project_directory(base, project_b);
    let left = store::below(base, project_a);
    let right = store::below(base, project_b);
    lemma_below(left, a);
    lemma_below(right, b);
    let front = left.push(paths::SEPARATOR);
    let back = right.push(paths::SEPARATOR);
    if store::below(left, a) == store::below(right, b) {
        assert((front + encode_utf8(a)).skip(front.len() as int) =~= encode_utf8(a));
        assert((back + encode_utf8(b)).skip(back.len() as int) =~= encode_utf8(b));
        digest::lemma_encode_utf8_injective(a, b);
    }
}

/// The directory of a project does not end with a separator, and its name is
/// as long as any other.
proof fn lemma_project_directory(base: Seq<u8>, project: Seq<char>)
    requires
        validate::project_key_check(project) is Ok,
    ensures
        store::below(base, project).len() == 24 + (if base.len() > 0 && base.last()
            != paths::SEPARATOR {
            base.len() + 1
        } else {
            base.len()
        }),
        store::below(base, project).last() != paths::SEPARATOR,
{
    assert(is_ascii_chars(project)) by {
        assert forall|i: int| 0 <= i < project.len() implies '\0' <= #[trigger] project[i]
            <= '\u{7f}' by {
            assert(validate::is_hex_digit(project[i]));
        }
    }
    assert(validate::is_hex_digit(project[0]));
    assert(validate::is_hex_digit(project[23]));
    lemma_below(base, project);
    is_ascii_chars_encode_utf8(project);
    assert(encode_utf8(project)[23] == project[23] as u8);
    assert(encode_utf8(project).last() == encode_utf8(project)[23]);
}

} // verus!
