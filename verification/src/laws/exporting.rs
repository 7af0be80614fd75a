//! What is handed out of a sealed result.

use vstd::prelude::*;
use vstd::string::*;
use vstd::utf8::*;

use crate::artifacts::{
    ArtifactReader, ArtifactSnapshot, ExportPlan, Publication, PublishedArtifact, SinkCall,
    StoredResult,
};
use crate::error::Error;
use crate::laws::places;
use crate::laws::records;
use crate::laws::sealing;
use crate::laws::verifying;
use crate::manager::CapsuleManager;
use crate::model::{ArtifactBundle, ArtifactDescriptor, ArtifactKind, Capsule};
use crate::paths::NativePath;
use crate::store::StateStore;
use crate::{artifacts, laws, paths, record, store};

verus! {

/// Whether a byte of a path stands for itself in a URI: letters, digits, and
/// `/`, `:`, `-`, `.`, `_`, `~`.
pub open spec fn is_plain(b: u8) -> bool {
    97 <= b <= 122 || 65 <= b <= 90 || 48 <= b <= 57 || b == 47 || b == 58 || b == 45 || b == 46
        || b == 95 || b == 126
}

/// A value below sixteen as an uppercase hexadecimal digit.
pub open spec fn upper(n: int) -> char {
    if n < 10 {
        ('0' as u32 + n) as char
    } else {
        ('A' as u32 + n - 10) as char
    }
}

/// A path as it is written in a URI: every byte that does not stand for itself
/// behind a percent sign.
pub open spec fn percent(p: Seq<u8>) -> Seq<char>
    decreases p.len(),
{
    if p.len() == 0 {
        Seq::empty()
    } else if is_plain(p.last()) {
        percent(p.drop_last()).push(p.last() as char)
    } else {
        percent(p.drop_last()) + seq!['%', upper(p.last() as int / 16), upper(p.last() as int % 16)]
    }
}

/// The absolute form of a path.
pub open spec fn absolute(p: Seq<u8>, current: std::result::Result<NativePath, Error>) -> Seq<u8> {
    if places::is_rooted(p) {
        p
    } else {
        places::child(current->Ok_0.bytes@, p)
    }
}

/// Whether a path can be written as a URI.
pub open spec fn has_uri(p: Seq<u8>, current: std::result::Result<NativePath, Error>) -> bool {
    (places::is_rooted(p) || current is Ok) && valid_utf8(absolute(p, current))
}

/// The URI of a path.
pub open spec fn uri(p: Seq<u8>, current: std::result::Result<NativePath, Error>) -> Seq<char> {
    "file://"@ + percent(absolute(p, current))
}

proof fn lemma_percent(p: Seq<u8>)
    ensures
        percent(p) == artifacts::uri_path(p),
    decreases p.len(),
{
    if p.len() > 0 {
        lemma_percent(p.drop_last());
        let b = p.last();
        assert(percent(p) =~= artifacts::uri_path(p.drop_last()) + artifacts::uri_byte(b));
    }
}

pub(crate) proof fn lemma_uri(p: Seq<u8>, current: std::result::Result<NativePath, Error>)
    ensures
        has_uri(p, current) <==> artifacts::uri_of(p, current) is Ok,
        has_uri(p, current) ==> artifacts::uri_of(p, current)->Ok_0 == uri(p, current),
{
    if let Ok(d) = current {
        places::lemma_child(d.bytes@, p);
    }
    lemma_percent(absolute(p, current));
}

/// A file's URI is its absolute path, with every byte that does not stand for
/// itself written in hexadecimal behind a percent sign.
pub proof fn law_files_have_one_uri(
    p: NativePath,
    current: std::result::Result<NativePath, Error>,
    r: std::result::Result<String, Error>,
)
    requires
        call_ensures(artifacts::file_uri, (&p, &current), r),
    ensures
        r is Ok <==> has_uri(p.bytes@, current),
        r matches Ok(t) ==> t@ == uri(p.bytes@, current),
{
    lemma_uri(p.bytes@, current);
}

/// Where an artifact of a capsule is kept.
pub open spec fn place_of(root: Seq<u8>, id: Seq<char>, name: Seq<char>) -> Seq<u8> {
    places::inside(places::home(root, id), name)
}

proof fn lemma_place_of(root: Seq<u8>, id: Seq<char>, name: Seq<char>)
    ensures
        place_of(root, id, name) == artifacts::artifact_path(root, id, name),
{
    places::lemma_homes(root, id, id);
    places::lemma_inside(places::home(root, id), name);
}

/// Whether a bundle describes a capsule's two artifacts exactly: their names,
/// media types, and places, and the digest and length of their bytes.
pub open spec fn describes_both(
    b: ArtifactBundle,
    id: Seq<char>,
    result_uri: Seq<char>,
    patch_uri: Seq<char>,
    content: Seq<u8>,
    patch: Seq<u8>,
) -> bool {
    &&& b.schema_version == 1
    &&& b.capsule_id@ == id
    &&& b.artifacts@.len() == 2
    &&& b.artifacts@[0].kind is ResultManifest
    &&& b.artifacts@[0].media_type@ == "application/json"@
    &&& b.artifacts@[0].uri@ == result_uri
    &&& verifying::describes(b.artifacts@[0], "result.json"@, content)
    &&& b.artifacts@[1].kind is ResultPatch
    &&& b.artifacts@[1].media_type@ == "application/vnd.git.patch"@
    &&& b.artifacts@[1].uri@ == patch_uri
    &&& verifying::describes(b.artifacts@[1], "result.patch"@, patch)
}

proof fn lemma_describes_both(
    b: ArtifactBundle,
    id: Seq<char>,
    result_uri: Seq<char>,
    patch_uri: Seq<char>,
    content: Vec<u8>,
    patch: Vec<u8>,
)
    requires
        b@ == artifacts::bundle_of(id, result_uri, patch_uri, content@, patch@),
    ensures
        describes_both(b, id, result_uri, patch_uri, content@, patch@),
{
    assert(content.len() <= usize::MAX && patch.len() <= usize::MAX);
    laws::lemma_views(b.artifacts@);
    assert(b@.artifacts[0] == b.artifacts@[0]@);
    assert(b@.artifacts[1] == b.artifacts@[1]@);
}

/// A capsule's artifacts are described exactly where they are the ones that
/// were sealed, as the bytes that were read.
pub proof fn law_artifacts_are_described_as_read(
    m: CapsuleManager,
    id: &str,
    manifest: std::result::Result<Capsule, Error>,
    stored: std::result::Result<StoredResult, Error>,
    patch: std::result::Result<Vec<u8>, Error>,
    current: std::result::Result<NativePath, Error>,
    snapshot: std::result::Result<ArtifactSnapshot, Error>,
    bundle: std::result::Result<ArtifactBundle, Error>,
)
    requires
        call_ensures(
            CapsuleManager::artifact_snapshot,
            (&m, id, manifest, stored, patch, &current),
            snapshot,
        ),
        call_ensures(CapsuleManager::artifacts, (&m, id, manifest, stored, patch, &current), bundle),
    ensures
        snapshot is Ok <==> {
            &&& records::is_found(m.store.root.bytes@, id@, manifest)
            &&& sealing::is_intact(manifest->Ok_0, stored, patch)
            &&& has_uri(place_of(m.store.root.bytes@, id@, "result.json"@), current)
            &&& has_uri(place_of(m.store.root.bytes@, id@, "result.patch"@), current)
        },
        bundle is Ok <==> snapshot is Ok,
        snapshot matches Ok(s) ==> s.content@ == stored->Ok_0.content@ && s.patch@ == patch->Ok_0@
            && describes_both(
            s.bundle,
            id@,
            uri(place_of(m.store.root.bytes@, id@, "result.json"@), current),
            uri(place_of(m.store.root.bytes@, id@, "result.patch"@), current),
            s.content@,
            s.patch@,
        ),
        bundle matches Ok(b) ==> describes_both(
            b,
            id@,
            uri(place_of(m.store.root.bytes@, id@, "result.json"@), current),
            uri(place_of(m.store.root.bytes@, id@, "result.patch"@), current),
            stored->Ok_0.content@,
            patch->Ok_0@,
        ),
{
    let root = m.store.root.bytes@;
    records::lemma_found(root, id@, manifest);
    if let Ok(c) = manifest {
        sealing::lemma_intact(c, stored, patch);
    }
    let a = place_of(root, id@, "result.json"@);
    let b = place_of(root, id@, "result.patch"@);
    lemma_place_of(root, id@, "result.json"@);
    lemma_place_of(root, id@, "result.patch"@);
    lemma_uri(a, current);
    lemma_uri(b, current);
    if let Ok(s) = snapshot {
        lemma_describes_both(s.bundle, id@, uri(a, current), uri(b, current), s.content, s.patch);
    }
    if let Ok(found) = bundle {
        lemma_describes_both(
            found,
            id@,
            uri(a, current),
            uri(b, current),
            stored->Ok_0.content,
            patch->Ok_0,
        );
    }
}

/// An artifact is opened on the bytes of its kind.
pub proof fn law_artifacts_are_opened_by_kind(
    m: CapsuleManager,
    snapshot: ArtifactSnapshot,
    kind: ArtifactKind,
    r: std::result::Result<ArtifactReader, Error>,
)
    requires
        call_ensures(CapsuleManager::open_artifact, (&m, Ok(snapshot), kind), r),
    ensures
        r matches Ok(reader) && reader@ == (if kind is ResultManifest {
            snapshot.content@
        } else {
            snapshot.patch@
        }),
{
}

/// The parts that a path is made of, with its beginning.
pub open spec fn parts(p: Seq<u8>) -> Seq<Seq<u8>> {
    (if places::is_rooted(p) {
        seq![seq![47u8]]
    } else if places::pieces(p)[0] == seq![46u8] {
        seq![seq![46u8]]
    } else {
        Seq::empty()
    }) + places::names(p)
}

/// Whether a path is another or lies below it.
pub open spec fn is_below(p: Seq<u8>, base: Seq<u8>) -> bool {
    parts(base).len() <= parts(p).len() && forall|i: int|
        0 <= i < parts(base).len() ==> parts(p)[i] == #[trigger] parts(base)[i]
}

pub(crate) proof fn lemma_below(p: Seq<u8>, base: Seq<u8>)
    ensures
        is_below(p, base) <==> paths::is_within(p, base),
{
    places::lemma_names(p);
    places::lemma_names(base);
    places::lemma_pieces(p);
    places::lemma_pieces(base);
    assert(parts(p) == paths::components(p));
    assert(parts(base) == paths::components(base));
    let n = parts(base).len() as int;
    if paths::is_within(p, base) {
        assert forall|i: int| 0 <= i < n implies parts(p)[i] == #[trigger] parts(base)[i] by {
            assert(parts(p).take(n)[i] == parts(p)[i]);
        }
    }
    if is_below(p, base) {
        assert(parts(p).take(n) =~= parts(base));
    }
}

/// An export goes to a new directory outside managed state, and nowhere else.
/// What is written is what was sealed; only the places in the bundle become the
/// names of the files beside it.
pub proof fn law_exports_are_what_was_sealed(
    m: CapsuleManager,
    snapshot: std::result::Result<ArtifactSnapshot, Error>,
    requested: NativePath,
    normalized: std::result::Result<Option<NativePath>, Error>,
    r: std::result::Result<ExportPlan, Error>,
)
    requires
        call_ensures(
            CapsuleManager::export_artifacts,
            (&m, snapshot, &requested, normalized),
            r,
        ),
    ensures
        r is Ok <==> snapshot is Ok && (normalized matches Ok(Some(p)) && !is_below(
            p.bytes@,
            m.store.root.bytes@,
        )),
        r matches Ok(plan) ==> {
            let s = snapshot->Ok_0;
            let b = plan.report.bundle;
            &&& plan.report.output_directory == normalized->Ok_0->0
            &&& plan.content@ == s.content@
            &&& plan.patch@ == s.patch@
            &&& b.schema_version == s.bundle.schema_version
            &&& b.capsule_id@ == s.bundle.capsule_id@
            &&& b.artifacts@.len() == s.bundle.artifacts@.len()
            &&& forall|i: int|
                0 <= i < b.artifacts@.len() ==> is_relative(
                    #[trigger] b.artifacts@[i],
                    s.bundle.artifacts@[i],
                )
        },
{
    if let Ok(Some(p)) = normalized {
        lemma_below(p.bytes@, m.store.root.bytes@);
    }
    if let Ok(plan) = r {
        let s = snapshot->Ok_0;
        let b = plan.report.bundle;
        laws::lemma_views(s.bundle.artifacts@);
        laws::lemma_views(b.artifacts@);
        assert(b@.artifacts.len() == s.bundle@.artifacts.len());
        assert forall|i: int| 0 <= i < b.artifacts@.len() implies is_relative(
            #[trigger] b.artifacts@[i],
            s.bundle.artifacts@[i],
        ) by {
            assert(b@.artifacts[i] == b.artifacts@[i]@);
            assert(s.bundle@.artifacts[i] == s.bundle.artifacts@[i]@);
        }
    }
}

/// Whether a descriptor is another, named by its file alone.
pub open spec fn is_relative(a: ArtifactDescriptor, d: ArtifactDescriptor) -> bool {
    &&& a.kind == d.kind
    &&& a.name@ == d.name@
    &&& a.media_type@ == d.media_type@
    &&& a.uri@ == d.name@
    &&& a.content_address@ == d.content_address@
    &&& a.sha256@ == d.sha256@
    &&& a.bytes == d.bytes
}

/// Whether a descriptor is another.
pub open spec fn is_same(a: ArtifactDescriptor, d: ArtifactDescriptor) -> bool {
    &&& a.kind == d.kind
    &&& a.name@ == d.name@
    &&& a.media_type@ == d.media_type@
    &&& a.uri@ == d.uri@
    &&& a.content_address@ == d.content_address@
    &&& a.sha256@ == d.sha256@
    &&& a.bytes == d.bytes
}

proof fn lemma_repeated(s: ArtifactBundle)
    ensures
        artifacts::first_repeated(s@.artifacts) is None <==> forall|i: int, j: int|
            0 <= i < j < s.artifacts@.len() ==> (#[trigger] s.artifacts@[i]).kind != (
            #[trigger] s.artifacts@[j]).kind,
{
    laws::lemma_views(s.artifacts@);
    let all = s@.artifacts;
    lemma_distinct_kinds(all);
    if forall|i: int, j: int|
        0 <= i < j < all.len() ==> (#[trigger] all[i]).kind != (#[trigger] all[j]).kind {
        assert forall|i: int, j: int| 0 <= i < j < s.artifacts@.len() implies (
        #[trigger] s.artifacts@[i]).kind != (#[trigger] s.artifacts@[j]).kind by {
            assert(all[i].kind != all[j].kind);
        }
    }
    if forall|i: int, j: int|
        0 <= i < j < s.artifacts@.len() ==> (#[trigger] s.artifacts@[i]).kind != (
        #[trigger] s.artifacts@[j]).kind {
        assert forall|i: int, j: int| 0 <= i < j < all.len() implies (#[trigger] all[i]).kind != (
        #[trigger] all[j]).kind by {
            assert(s.artifacts@[i].kind != s.artifacts@[j].kind);
        }
    }
}

proof fn lemma_distinct_kinds(all: Seq<crate::model::DescriptorView>)
    ensures
        artifacts::first_repeated(all) is None <==> forall|i: int, j: int|
            0 <= i < j < all.len() ==> (#[trigger] all[i]).kind != (#[trigger] all[j]).kind,
    decreases all.len(),
{
    if all.len() > 0 {
        let front = all.drop_last();
        lemma_distinct_kinds(front);
        if artifacts::first_repeated(all) is None {
            assert forall|i: int, j: int| 0 <= i < j < all.len() implies (#[trigger] all[i]).kind
                != (#[trigger] all[j]).kind by {
                if j < front.len() {
                    assert(front[i] == all[i] && front[j] == all[j]);
                } else {
                    assert(all[j] == all.last());
                }
            }
        }
        if forall|i: int, j: int|
            0 <= i < j < all.len() ==> (#[trigger] all[i]).kind != (#[trigger] all[j]).kind {
            assert forall|i: int, j: int| 0 <= i < j < front.len() implies (
            #[trigger] front[i]).kind != (#[trigger] front[j]).kind by {
                assert(front[i] == all[i] && front[j] == all[j]);
            }
            assert forall|i: int| 0 <= i < all.len() - 1 implies (#[trigger] all[i]).kind
                != all.last().kind by {
                assert(all[all.len() - 1] == all.last());
            }
        }
    }
}

/// A sink is to be handed each descriptor once, with the bytes of its kind, and
/// nothing where a kind is described twice.
pub proof fn law_publications_pair_descriptors_with_their_bytes(
    s: ArtifactSnapshot,
    r: std::result::Result<Vec<Publication>, Error>,
)
    requires
        call_ensures(artifacts::publications, (s,), r),
    ensures
        r is Ok <==> forall|i: int, j: int|
            0 <= i < j < s.bundle.artifacts@.len() ==> (#[trigger] s.bundle.artifacts@[i]).kind != (
            #[trigger] s.bundle.artifacts@[j]).kind,
        r matches Ok(rows) ==> rows@.len() == s.bundle.artifacts@.len() && forall|i: int|
            0 <= i < rows@.len() ==> is_same(
                (#[trigger] rows@[i]).descriptor,
                s.bundle.artifacts@[i],
            ) && rows@[i].source@ == (if s.bundle.artifacts@[i].kind is ResultManifest {
                s.content@
            } else {
                s.patch@
            }),
{
    lemma_repeated(s.bundle);
    laws::lemma_views(s.bundle.artifacts@);
    if let Ok(rows) = r {
        assert forall|i: int| 0 <= i < rows@.len() implies is_same(
            (#[trigger] rows@[i]).descriptor,
            s.bundle.artifacts@[i],
        ) && rows@[i].source@ == (if s.bundle.artifacts@[i].kind is ResultManifest {
            s.content@
        } else {
            s.patch@
        }) by {
            assert(s.bundle@.artifacts[i] == s.bundle.artifacts@[i]@);
        }
    }
}

/// What publishing promises of a sink's log: where it succeeds, each artifact
/// was handed over once, with the bytes of its kind, and is reported under the
/// URI that the sink gave it. Where it fails, the sink refused the last artifact
/// it was handed, with that error, and took all before it.
pub proof fn law_published_artifacts_are_what_the_sink_took(
    s: ArtifactSnapshot,
    before: Seq<SinkCall>,
    after: Seq<SinkCall>,
    r: std::result::Result<Vec<PublishedArtifact>, Error>,
)
    requires
        artifacts::published_as(r, before, after, artifacts::handover(s)),
    ensures
        before.len() <= after.len() <= before.len() + s.bundle.artifacts@.len(),
        after.take(before.len() as int) == before,
        forall|i: int|
            0 <= i < after.len() - before.len() ==> {
                &&& (#[trigger] after[before.len() + i]).descriptor == s.bundle.artifacts@[i]@
                &&& after[before.len() + i].content == (if s.bundle.artifacts@[i].kind
                    is ResultManifest {
                    s.content@
                } else {
                    s.patch@
                })
            },
        r matches Ok(published) ==> {
            &&& after.len() == before.len() + s.bundle.artifacts@.len()
            &&& published@.len() == s.bundle.artifacts@.len()
            &&& forall|i: int|
                0 <= i < published@.len() ==> is_same(
                    (#[trigger] published@[i]).descriptor,
                    s.bundle.artifacts@[i],
                ) && (after[before.len() + i].answer matches Ok(uri) && uri == published@[i].uri@)
        },
        r matches Err(e) ==> {
            &&& after.len() > before.len()
            &&& after.last().answer matches Err(found) && found == e@
            &&& forall|i: int|
                before.len() <= i < after.len() - 1 ==> (#[trigger] after[i]).answer is Ok
        },
{
    let what = artifacts::handover(s);
    laws::lemma_views(s.bundle.artifacts@);
    assert(what.len() == s.bundle.artifacts@.len());
    assert forall|i: int| 0 <= i < what.len() implies (#[trigger] what[i]).0
        == s.bundle.artifacts@[i]@ && what[i].1 == (if s.bundle.artifacts@[i].kind is ResultManifest {
        s.content@
    } else {
        s.patch@
    }) by {
        assert(s.bundle@.artifacts[i] == s.bundle.artifacts@[i]@);
    }
    let n = (after.len() - before.len()) as int;
    assert forall|i: int| 0 <= i < after.len() - before.len() implies {
        &&& (#[trigger] after[before.len() + i]).descriptor == s.bundle.artifacts@[i]@
        &&& after[before.len() + i].content == (if s.bundle.artifacts@[i].kind is ResultManifest {
            s.content@
        } else {
            s.patch@
        })
    } by {
        assert(what[i].0 == s.bundle.artifacts@[i]@);
    }
    if let Ok(published) = r {
        assert forall|i: int| 0 <= i < published@.len() implies is_same(
            (#[trigger] published@[i]).descriptor,
            s.bundle.artifacts@[i],
        ) by {
            assert(published@[i].descriptor@ == what[i].0);
        }
    }
    if let Err(e) = r {
        assert forall|i: int| before.len() <= i < after.len() - 1 implies (#[trigger] after[i]).answer
            is Ok by {
            assert(after[before.len() + (i - before.len())] == after[i]);
        }
    }
}

/// A destination is admitted exactly where it names a new directory outside
/// managed state.
pub proof fn law_destinations_are_outside_managed_state(
    s: StateStore,
    requested: NativePath,
    normalized: Option<NativePath>,
    r: std::result::Result<NativePath, Error>,
)
    requires
        call_ensures(StateStore::external_destination, (&s, &requested, normalized), r),
    ensures
        r is Ok <==> (normalized matches Some(p) && !is_below(p.bytes@, s.root.bytes@)),
        r matches Ok(p) ==> Some(p) == normalized,
{
    if let Some(p) = normalized {
        lemma_below(p.bytes@, s.root.bytes@);
    }
}

/// A path lies within another exactly where it begins with its parts, and stays
/// below where it is relative to exactly where it never steps to a parent.
pub proof fn law_paths_are_within_by_their_parts(
    p: NativePath,
    base: NativePath,
    within: bool,
    confined: bool,
)
    requires
        call_ensures(NativePath::is_within, (&p, &base), within),
        call_ensures(NativePath::is_confined, (&p,), confined),
    ensures
        within <==> is_below(p.bytes@, base.bytes@),
        confined <==> !places::is_rooted(p.bytes@) && !parts(p.bytes@).contains(seq![46u8, 46u8]),
{
    lemma_below(p.bytes@, base.bytes@);
    places::lemma_names(p.bytes@);
    places::lemma_pieces(p.bytes@);
    assert(parts(p.bytes@) == paths::components(p.bytes@));
}

} // verus!
