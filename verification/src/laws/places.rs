//! Which path a path is, and where things are kept.

use vstd::prelude::*;
use vstd::string::*;
use vstd::utf8::*;

use crate::error::Error;
use crate::manager::CapsuleManager;
use crate::paths::NativePath;
use crate::store::StateStore;
use crate::{bytes, digest, laws, paths, store, validate};

verus! {

/// The pieces of a path between its slashes.
pub open spec fn pieces(p: Seq<u8>) -> Seq<Seq<u8>>
    decreases p.len(),
{
    if p.len() == 0 {
        seq![Seq::<u8>::empty()]
    } else if p.last() == 47 {
        pieces(p.drop_last()).push(Seq::<u8>::empty())
    } else {
        let before = pieces(p.drop_last());
        before.drop_last().push(before.last().push(p.last()))
    }
}

/// The names that a path leads through: its pieces that are neither empty nor a
/// dot.
pub open spec fn names(p: Seq<u8>) -> Seq<Seq<u8>> {
    pieces(p).filter(|piece: Seq<u8>| piece.len() > 0 && piece != seq![46u8])
}

/// Whether a path begins at the root.
pub open spec fn is_rooted(p: Seq<u8>) -> bool {
    p.len() > 0 && p[0] == 47
}

/// Whether two paths are the same: they begin the same way and lead through the
/// same names.
pub open spec fn same_place(a: Seq<u8>, b: Seq<u8>) -> bool {
    &&& is_rooted(a) == is_rooted(b)
    &&& !is_rooted(a) ==> (pieces(a)[0] == seq![46u8]) == (pieces(b)[0] == seq![46u8])
    &&& names(a) == names(b)
}

/// A path extended by a name.
pub open spec fn child(p: Seq<u8>, name: Seq<u8>) -> Seq<u8> {
    if is_rooted(name) {
        name
    } else if p.len() > 0 && p.last() != 47 {
        p + seq![47u8] + name
    } else {
        p + name
    }
}

/// A path extended by a name that is given as text.
pub open spec fn inside(p: Seq<u8>, name: Seq<char>) -> Seq<u8> {
    child(p, encode_utf8(name))
}

/// Where a capsule's workspace is.
pub open spec fn workspace(root: Seq<u8>, project: Seq<char>, id: Seq<char>) -> Seq<u8> {
    inside(inside(inside(root, "workspaces"@), project), id)
}

/// Where a capsule's record is.
pub open spec fn home(root: Seq<u8>, id: Seq<char>) -> Seq<u8> {
    inside(inside(root, "capsules"@), id)
}

/// Whether a text is written like the key of a project that was stored.
pub open spec fn is_stored_key(t: Seq<char>) -> bool {
    t.len() == 24 && forall|i: int|
        0 <= i < t.len() ==> '0' <= #[trigger] t[i] <= '9' || 'a' <= t[i] <= 'f' || 'A' <= t[i]
            <= 'F'
}

pub(crate) proof fn lemma_pieces(p: Seq<u8>)
    ensures
        pieces(p) == bytes::split_on(p, 47),
        pieces(p).len() > 0,
    decreases p.len(),
{
    if p.len() > 0 {
        lemma_pieces(p.drop_last());
    }
}

pub(crate) proof fn lemma_names(p: Seq<u8>)
    ensures
        paths::components(p) == paths::leading_component(p) + names(p),
{
    lemma_pieces(p);
    let ours = |piece: Seq<u8>| piece.len() > 0 && piece != seq![46u8];
    let theirs = |piece: Seq<u8>| paths::is_proper_component(piece);
    assert(ours =~= theirs);
}

proof fn lemma_names_are_proper(p: Seq<u8>, i: int)
    requires
        0 <= i < names(p).len(),
    ensures
        names(p)[i].len() > 0,
        names(p)[i] != seq![46u8],
        !names(p)[i].contains(47),
{
    let keep = |piece: Seq<u8>| piece.len() > 0 && piece != seq![46u8];
    pieces(p).lemma_filter_pred(keep, i);
    assert(names(p).contains(names(p)[i]));
    pieces(p).lemma_filter_contains_rev(keep, names(p)[i]);
    assert(keep(names(p)[i]));
    assert(pieces(p).contains(names(p)[i]));
    let j = pieces(p).index_of(names(p)[i]);
    lemma_piece(p, j);
}

proof fn lemma_piece(p: Seq<u8>, i: int)
    requires
        0 <= i < pieces(p).len(),
    ensures
        !pieces(p)[i].contains(47),
    decreases p.len(),
{
    lemma_pieces(p);
    if p.len() > 0 {
        let before = pieces(p.drop_last());
        lemma_pieces(p.drop_last());
        if p.last() == 47 {
            if i < before.len() {
                lemma_piece(p.drop_last(), i);
            }
        } else if i < before.len() - 1 {
            lemma_piece(p.drop_last(), i);
        } else {
            lemma_piece(p.drop_last(), before.len() - 1);
            let piece = before.last().push(p.last());
            assert(pieces(p)[i] == piece);
            if piece.contains(47) {
                let j = piece.index_of(47);
                assert(piece[j] == 47);
                assert(before.last()[j] == 47);
            }
        }
    }
}

pub(crate) proof fn lemma_same_place(a: Seq<u8>, b: Seq<u8>)
    ensures
        same_place(a, b) <==> paths::same(a, b),
{
    lemma_names(a);
    lemma_names(b);
    lemma_pieces(a);
    lemma_pieces(b);
    let la = paths::leading_component(a);
    let lb = paths::leading_component(b);
    let ca = la + names(a);
    let cb = lb + names(b);
    if ca == cb {
        if la.len() == lb.len() {
            assert(ca.skip(la.len() as int) =~= names(a));
            assert(cb.skip(lb.len() as int) =~= names(b));
            if la.len() == 1 {
                assert(ca[0] == la[0] && cb[0] == lb[0]);
                assert(seq![47u8][0] == 47 && seq![46u8][0] == 46);
            }
        } else if la.len() > 0 {
            assert(ca[0] == la[0] && cb[0] == names(b)[0]);
            lemma_names_are_proper(b, 0);
            assert(seq![47u8][0] == 47);
            assert(seq![47u8].contains(47));
            assert(false);
        } else {
            assert(cb[0] == lb[0] && ca[0] == names(a)[0]);
            lemma_names_are_proper(a, 0);
            assert(seq![47u8][0] == 47);
            assert(seq![47u8].contains(47));
            assert(false);
        }
    }
}

pub(crate) proof fn lemma_child(p: Seq<u8>, name: Seq<u8>)
    ensures
        child(p, name) == paths::join_of(p, name),
{
    assert(p + seq![47u8] =~= p.push(47));
}

pub(crate) proof fn lemma_inside(p: Seq<u8>, name: Seq<char>)
    ensures
        inside(p, name) == store::below(p, name),
{
    lemma_child(p, encode_utf8(name));
}

pub(crate) proof fn lemma_homes(root: Seq<u8>, project: Seq<char>, id: Seq<char>)
    ensures
        workspace(root, project, id) == store::workspace_path_of(root, project, id),
        home(root, id) == store::capsule_dir_of(root, id),
{
    lemma_inside(root, "workspaces"@);
    lemma_inside(inside(root, "workspaces"@), project);
    lemma_inside(inside(inside(root, "workspaces"@), project), id);
    lemma_inside(root, "capsules"@);
    lemma_inside(inside(root, "capsules"@), id);
}

pub(crate) proof fn lemma_stored_key(t: Seq<char>)
    ensures
        is_stored_key(t) <==> validate::project_key_check(t) is Ok,
{
    if is_stored_key(t) {
        assert forall|i: int| 0 <= i < t.len() implies validate::is_hex_digit(#[trigger] t[i]) by {}
    }
    if validate::project_key_check(t) is Ok {
        assert forall|i: int| 0 <= i < t.len() implies '0' <= #[trigger] t[i] <= '9' || 'a' <= t[i]
            <= 'f' || 'A' <= t[i] <= 'F' by {
            assert(validate::is_hex_digit(t[i]));
        }
    }
}

/// Two paths are the same exactly where they begin the same way and lead
/// through the same names: slashes and dots in between make no difference.
pub proof fn law_same_paths_lead_through_the_same_names(a: NativePath, b: NativePath, r: bool)
    requires
        call_ensures(NativePath::same_path, (&a, &b), r),
    ensures
        r <==> same_place(a.bytes@, b.bytes@),
{
    lemma_same_place(a.bytes@, b.bytes@);
}

/// A path extended by a name is the path, one slash, and the name; a name that
/// begins at the root stands for itself.
pub proof fn law_names_are_put_behind_one_slash(
    p: NativePath,
    name: &str,
    q: NativePath,
    joined: NativePath,
    joined_path: NativePath,
)
    requires
        call_ensures(NativePath::join, (&p, name), joined),
        call_ensures(NativePath::join_path, (&p, &q), joined_path),
    ensures
        joined.bytes@ == inside(p.bytes@, name@),
        joined_path.bytes@ == child(p.bytes@, q.bytes@),
{
    lemma_inside(p.bytes@, name@);
    lemma_child(p.bytes@, q.bytes@);
}

/// Records, workspaces, reservations, and locks each have one place below the
/// state root, and only a usable name has one.
pub proof fn law_state_has_one_place_for_each_thing(
    s: StateStore,
    project: &str,
    id: &str,
    key_digest: &str,
    record: std::result::Result<NativePath, Error>,
    space: std::result::Result<NativePath, Error>,
    reservation: std::result::Result<NativePath, Error>,
    lock: std::result::Result<NativePath, Error>,
)
    requires
        call_ensures(StateStore::capsule_dir, (&s, id), record),
        call_ensures(StateStore::workspace_path, (&s, project, id), space),
        call_ensures(StateStore::idempotency_record_path, (&s, key_digest), reservation),
        call_ensures(StateStore::project_lock_path, (&s, project), lock),
    ensures
        record is Ok <==> laws::is_id(id@),
        record matches Ok(p) ==> p.bytes@ == home(s.root.bytes@, id@),
        space is Ok <==> laws::is_id(id@) && is_stored_key(project@),
        space matches Ok(p) ==> p.bytes@ == workspace(s.root.bytes@, project@, id@),
        reservation is Ok <==> laws::is_digest(key_digest@),
        reservation matches Ok(p) ==> p.bytes@ == inside(
            inside(s.root.bytes@, "idempotency"@),
            key_digest@ + ".json"@,
        ),
        lock is Ok <==> is_stored_key(project@),
        lock matches Ok(p) ==> p.bytes@ == inside(
            inside(s.root.bytes@, "locks"@),
            "project-"@ + project@ + ".lock"@,
        ),
{
    let root = s.root.bytes@;
    laws::lemma_shapes(id@);
    laws::lemma_shapes(key_digest@);
    lemma_stored_key(project@);
    lemma_homes(root, project@, id@);
    lemma_inside(root, "idempotency"@);
    lemma_inside(inside(root, "idempotency"@), key_digest@ + ".json"@);
    lemma_inside(root, "locks"@);
    lemma_inside(inside(root, "locks"@), "project-"@ + project@ + ".lock"@);
}

/// State is kept where it was asked to be, or else where the environment says:
/// the first value that is set and not empty decides.
pub proof fn law_state_is_kept_where_the_environment_says(
    capsule_home: Option<NativePath>,
    state_home: Option<NativePath>,
    home: Option<NativePath>,
    r: std::result::Result<NativePath, Error>,
)
    requires
        call_ensures(store::default_state_root, (capsule_home, state_home, home), r),
    ensures
        ({
            let first = capsule_home matches Some(p) && p.bytes@.len() > 0;
            let second = state_home matches Some(p) && p.bytes@.len() > 0;
            let third = home matches Some(p) && p.bytes@.len() > 0;
            &&& r is Ok <==> first || second || third
            &&& r matches Err(e) ==> e is InvalidInput
            &&& first ==> r->Ok_0.bytes@ == capsule_home->0.bytes@
            &&& !first && second ==> r->Ok_0.bytes@ == inside(
                state_home->0.bytes@,
                "change-capsule"@,
            )
            &&& !first && !second && third ==> r->Ok_0.bytes@ == inside(
                inside(inside(home->0.bytes@, ".local"@), "state"@),
                "change-capsule"@,
            )
        }),
{
    if let Some(p) = state_home {
        lemma_inside(p.bytes@, "change-capsule"@);
    }
    if let Some(p) = home {
        let a = inside(p.bytes@, ".local"@);
        lemma_inside(p.bytes@, ".local"@);
        lemma_inside(a, "state"@);
        lemma_inside(inside(a, "state"@), "change-capsule"@);
    }
}

/// Each kind of state has a directory of its own below the root.
pub proof fn law_state_is_divided_by_kind(
    s: StateStore,
    capsules: NativePath,
    workspaces: NativePath,
    reservations: NativePath,
    locks: NativePath,
)
    requires
        call_ensures(StateStore::capsules_dir, (&s,), capsules),
        call_ensures(StateStore::workspaces_dir, (&s,), workspaces),
        call_ensures(StateStore::idempotency_dir, (&s,), reservations),
        call_ensures(StateStore::locks_dir, (&s,), locks),
    ensures
        capsules.bytes@ == inside(s.root.bytes@, "capsules"@),
        workspaces.bytes@ == inside(s.root.bytes@, "workspaces"@),
        reservations.bytes@ == inside(s.root.bytes@, "idempotency"@),
        locks.bytes@ == inside(s.root.bytes@, "locks"@),
{
    lemma_inside(s.root.bytes@, "capsules"@);
    lemma_inside(s.root.bytes@, "workspaces"@);
    lemma_inside(s.root.bytes@, "idempotency"@);
    lemma_inside(s.root.bytes@, "locks"@);
}

/// A capsule's branch is named after its identifier.
pub proof fn law_branches_are_named_after_their_capsule(id: &str, r: String)
    requires
        id@.len() >= 4,
        call_ensures(store::branch_name, (id,), r),
    ensures
        r@ == "capsule/"@ + id@.skip(4),
{
}

/// A path is shown as text whatever it holds, and is text exactly where it is
/// UTF-8.
pub proof fn law_paths_are_shown_as_text(
    p: NativePath,
    shown: String,
    t: Option<String>,
    rooted: bool,
    name: &str,
    made: NativePath,
)
    requires
        call_ensures(NativePath::display, (&p,), shown),
        call_ensures(NativePath::to_text, (&p,), t),
        call_ensures(NativePath::is_absolute, (&p,), rooted),
        call_ensures(NativePath::new, (name,), made),
    ensures
        shown@ == digest::lossy_text_of(p.bytes@),
        t is Some <==> valid_utf8(p.bytes@),
        t matches Some(t) ==> encode_utf8(t@) == p.bytes@,
        rooted <==> is_rooted(p.bytes@),
        made.bytes@ == encode_utf8(name@),
{
}

/// A drive path in the extended-length form loses its prefix, and every other
/// path stays as it is.
pub proof fn law_only_drive_paths_lose_their_prefix(p: NativePath, r: NativePath)
    requires
        call_ensures(paths::simplify, (p,), r),
    ensures
        ({
            let b = p.bytes@;
            let drive = valid_utf8(b) && b.len() >= 6 && b[0] == 92 && b[1] == 92 && b[2] == 63
                && b[3] == 92 && (65 <= b[4] <= 90 || 97 <= b[4] <= 122) && b[5] == 58 && (b.len()
                == 6 || b[6] == 92);
            &&& drive ==> r.bytes@ == b.skip(4)
            &&& !drive ==> r.bytes@ == b
        }),
{
}

/// A manager works on the state it was opened on.
pub proof fn law_managers_work_on_their_state(
    root: NativePath,
    m: CapsuleManager,
    at: &NativePath,
)
    requires
        call_ensures(CapsuleManager::open, (root,), m),
        call_ensures(CapsuleManager::state_root, (&m,), at),
    ensures
        m.store.root == root,
        *at == root,
{
}

} // verus!
