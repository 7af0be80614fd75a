//! Sealed-artifact discovery, streaming, publication, and export.
//!
//! Artifacts are handed out as bounded in-memory snapshots that were validated
//! first, so a later change on disk cannot alter bytes already paired with a
//! descriptor. Transport is the caller's concern.

use vstd::prelude::*;
use vstd::string::*;
use vstd::utf8::*;

use crate::error::{Error, ErrorView, IoFault};
use crate::manager::CapsuleManager;
use crate::model::{
    ArtifactBundle, ArtifactDescriptor, ArtifactKind, BundleView, Capsule, CapsuleResult,
    DescriptorView, ExportReport, ResultRef, ResultView, BUNDLE_SCHEMA_VERSION, SCHEMA_VERSION,
};
use crate::paths::NativePath;
use crate::{bytes, digest, manager, paths, record, store, text, validate, verify};

verus! {

/// A bounded reader over one validated artifact snapshot.
#[derive(Debug)]
pub struct ArtifactReader {
    content: Vec<u8>,
    position: usize,
}

impl View for ArtifactReader {
    type V = Seq<u8>;

    /// The bytes still to be read.
    closed spec fn view(&self) -> Seq<u8> {
        if self.position <= self.content@.len() {
            self.content@.skip(self.position as int)
        } else {
            Seq::empty()
        }
    }
}

impl ArtifactReader {
    /// A reader over `content`, at its start.
    pub fn new(content: Vec<u8>) -> (r: ArtifactReader)
        ensures
            r@ == content@,
    {
        let reader = ArtifactReader { content, position: 0 };
        proof {
            assert(reader@ =~= content@);
        }
        reader
    }

    /// Read up to `limit` bytes: as many as are left and no more.
    pub fn read(&mut self, limit: usize) -> (r: Vec<u8>)
        ensures
            r@ == old(self)@.take(
                if limit <= old(self)@.len() {
                    limit as int
                } else {
                    old(self)@.len() as int
                },
            ),
            final(self)@ == old(self)@.skip(r@.len() as int),
    {
        let ghost before = self@;
        if self.position >= self.content.len() {
            let r: Vec<u8> = Vec::new();
            proof {
                assert(before =~= Seq::<u8>::empty());
                assert(r@ =~= before.take(0));
                assert(before.skip(0) =~= before);
            }
            return r;
        }
        let left = self.content.len() - self.position;
        let n = if limit <= left {
            limit
        } else {
            left
        };
        let r = bytes::copy_bytes(
            vstd::slice::slice_subrange(
                self.content.as_slice(),
                self.position,
                self.position + n,
            ),
        );
        self.position = self.position + n;
        proof {
            assert(r@ =~= before.take(n as int));
            assert(self@ =~= before.skip(n as int));
        }
        r
    }
}

/// One call of a sink: what it was handed, and what it answered.
pub struct SinkCall {
    /// The descriptor it was handed.
    pub descriptor: DescriptorView,
    /// The bytes that the reader it was handed yields.
    pub content: Seq<u8>,
    /// The URI it assigned, or why it refused.
    pub answer: std::result::Result<Seq<char>, ErrorView>,
}

/// What a sink answered.
pub open spec fn answer_of(r: std::result::Result<String, Error>) -> std::result::Result<
    Seq<char>,
    ErrorView,
> {
    match r {
        Ok(uri) => Ok(uri@),
        Err(e) => Err(e@),
    }
}

/// Runtime-neutral destination for sealed artifacts.
///
/// Implementations may write to a local directory, object storage, or a
/// content-addressed store, and return the durable URI they assigned. They are
/// caller code: nothing is promised of what they store or answer. A sink only
/// accounts for the calls made of it.
pub trait ArtifactSink {
    /// The calls made so far, oldest first. It exists for contracts alone. What
    /// is proved of a publication covers implementations that are verified and
    /// have a `log` of their own: one that keeps this empty default cannot meet
    /// the contract of [`ArtifactSink::put`]. An implementation that is not
    /// verified writes none, and nothing is proved of it.
    closed spec fn log(&self) -> Seq<SinkCall> {
        Seq::empty()
    }

    /// Store one artifact and return the durable URI assigned to it.
    fn put(&mut self, descriptor: &ArtifactDescriptor, source: &mut ArtifactReader) -> (r:
        std::result::Result<String, Error>)
        ensures
            final(self).log() == old(self).log().push(
                (SinkCall {
                    descriptor: descriptor@,
                    content: old(source)@,
                    answer: answer_of(r),
                }),
            ),
    ;
}

/// An artifact that a sink accepted, paired with the URI it was given.
#[derive(Debug, PartialEq, Eq)]
pub struct PublishedArtifact {
    /// Descriptor of the bytes that were published.
    pub descriptor: ArtifactDescriptor,
    /// Durable URI the sink assigned.
    pub uri: String,
}

/// Whether a byte stands for itself in a URI path.
pub open spec fn is_uri_byte(b: u8) -> bool {
    48 <= b <= 57 || 65 <= b <= 90 || 97 <= b <= 122 || b == 47 || b == 58 || b == 45 || b == 46
        || b == 95 || b == 126
}

/// The uppercase hexadecimal digit for a value below sixteen.
pub open spec fn upper_hex_digit(n: int) -> char {
    if n < 10 {
        (48 + n) as char
    } else {
        (55 + n) as char
    }
}

/// One byte of a URI path.
pub open spec fn uri_byte(b: u8) -> Seq<char> {
    if is_uri_byte(b) {
        seq![b as char]
    } else {
        seq!['%', upper_hex_digit(b as int / 16), upper_hex_digit(b as int % 16)]
    }
}

/// The bytes of a path as a URI path.
pub open spec fn uri_path(path: Seq<u8>) -> Seq<char>
    decreases path.len(),
{
    if path.len() == 0 {
        Seq::empty()
    } else {
        uri_path(path.drop_last()) + uri_byte(path.last())
    }
}

/// The `file://` URI of a path, which is first made absolute.
pub open spec fn uri_of(path: Seq<u8>, current_dir: std::result::Result<NativePath, Error>) -> std::result::Result<
    Seq<char>,
    ErrorView,
> {
    if paths::is_absolute(path) {
        absolute_uri_of(path)
    } else {
        match current_dir {
            Err(e) => Err(e@),
            Ok(d) => absolute_uri_of(paths::join_of(d@, path)),
        }
    }
}

/// The `file://` URI of an absolute path, where the path is valid UTF-8.
pub open spec fn absolute_uri_of(path: Seq<u8>) -> std::result::Result<Seq<char>, ErrorView> {
    if valid_utf8(path) {
        Ok("file://"@ + uri_path(path))
    } else {
        Err(ErrorView::NonUtf8Path(path))
    }
}

fn hex_char(n: u8) -> (r: char)
    requires
        n < 16,
    ensures
        r == upper_hex_digit(n as int),
{
    if n < 10 {
        (48 + n) as char
    } else {
        (55 + n) as char
    }
}

fn push_uri_byte(out: &mut String, b: u8)
    ensures
        final(out)@ == old(out)@ + uri_byte(b),
{
    let ghost before = out@;
    if (48 <= b && b <= 57) || (65 <= b && b <= 90) || (97 <= b && b <= 122) || b == 47 || b == 58
        || b == 45 || b == 46 || b == 95 || b == 126 {
        out.push(b as char);
    } else {
        out.push('%');
        out.push(hex_char(b / 16));
        out.push(hex_char(b % 16));
    }
    proof {
        assert(out@ =~= before + uri_byte(b));
    }
}

fn absolute_uri(path: &NativePath) -> (r: std::result::Result<String, Error>)
    ensures
        match absolute_uri_of(path@) {
            Ok(t) => r matches Ok(found) && found@ == t,
            Err(e) => r matches Err(found) && found@ == e,
        },
{
    if path.to_text().is_none() {
        return Err(Error::NonUtf8Path(path.clone()));
    }
    let mut out = "file://".to_owned();
    let mut i: usize = 0;
    proof {
        assert(out@ =~= "file://"@ + uri_path(path@.take(0)));
    }
    while i < path.bytes.len()
        invariant
            i <= path.bytes.len(),
            path@ == path.bytes@,
            out@ == "file://"@ + uri_path(path@.take(i as int)),
        decreases path.bytes.len() - i,
    {
        let ghost before = out@;
        push_uri_byte(&mut out, path.bytes[i]);
        proof {
            assert(path@.take(i + 1).drop_last() =~= path@.take(i as int));
            assert(out@ =~= "file://"@ + uri_path(path@.take(i + 1)));
        }
        i += 1;
    }
    proof {
        assert(path@.take(path@.len() as int) =~= path@);
    }
    Ok(out)
}

/// The percent-encoded `file://` URI of a path; see [`uri_of`].
pub fn file_uri(path: &NativePath, current_dir: &std::result::Result<NativePath, Error>) -> (r:
    std::result::Result<String, Error>)
    ensures
        match uri_of(path@, *current_dir) {
            Ok(t) => r matches Ok(found) && found@ == t,
            Err(e) => r matches Err(found) && found@ == e,
        },
{
    if path.is_absolute() {
        return absolute_uri(path);
    }
    match current_dir {
        Err(e) => Err(e.clone()),
        Ok(d) => absolute_uri(&d.join_path(path)),
    }
}

/// The descriptor of some bytes at a place.
pub open spec fn descriptor_of(
    kind: ArtifactKind,
    name: Seq<char>,
    media_type: Seq<char>,
    uri: Seq<char>,
    content: Seq<u8>,
) -> DescriptorView {
    DescriptorView {
        kind,
        name,
        media_type,
        uri,
        content_address: "sha256:"@ + digest::sha256_hex_of(content),
        sha256: digest::sha256_hex_of(content),
        bytes: content.len() as u64,
    }
}

fn artifact_descriptor(
    kind: ArtifactKind,
    name: &str,
    media_type: &str,
    path: &NativePath,
    content: &Vec<u8>,
    current_dir: &std::result::Result<NativePath, Error>,
) -> (r: std::result::Result<ArtifactDescriptor, Error>)
    ensures
        match uri_of(path@, *current_dir) {
            Ok(uri) => r matches Ok(d) && d@ == descriptor_of(
                kind,
                name@,
                media_type@,
                uri,
                content@,
            ),
            Err(e) => r matches Err(found) && found@ == e,
        },
{
    let uri = match file_uri(path, current_dir) {
        Err(e) => {
            return Err(e);
        },
        Ok(uri) => uri,
    };
    let sha256 = digest::sha256_hex(content.as_slice());
    Ok(
        ArtifactDescriptor {
            kind,
            name: name.to_owned(),
            media_type: media_type.to_owned(),
            uri,
            content_address: text::cat2("sha256:", sha256.as_str()),
            sha256,
            bytes: content.len() as u64,
        },
    )
}

/// An error while reading a sealed artifact: an artifact that is gone or no
/// longer decodes means that the result has drifted.
pub open spec fn artifact_error_view(id: Seq<char>, e: ErrorView) -> ErrorView {
    match e {
        ErrorView::Io { fault: IoFault::NotFound, .. } => ErrorView::ResultDrift(id),
        ErrorView::Json { .. } => ErrorView::ResultDrift(id),
        ErrorView::UnsafeState(_) => ErrorView::ResultDrift(id),
        ErrorView::SchemaVersion { .. } => ErrorView::ResultDrift(id),
        other => other,
    }
}

/// Map an error while reading a sealed artifact; see [`artifact_error_view`].
pub fn artifact_error(id: &str, e: Error) -> (r: Error)
    ensures
        r@ == artifact_error_view(id@, e@),
{
    match e {
        Error::Io { path, fault, detail } => if fault == IoFault::NotFound {
            Error::ResultDrift(id.to_owned())
        } else {
            Error::Io { path, fault, detail }
        },
        Error::Json { .. } | Error::UnsafeState(_) | Error::SchemaVersion { .. } =>
            Error::ResultDrift(id.to_owned()),
        other => other,
    }
}

/// A stored result as it was read.
#[derive(Debug, PartialEq, Eq)]
pub struct StoredResult {
    /// What `result.json` decodes to.
    pub result: CapsuleResult,
    /// The bytes of `result.json`.
    pub content: Vec<u8>,
    /// The compact encoding of the decoded result, which the seal covers.
    pub encoded: Vec<u8>,
}

/// Sealed artifacts, and whether they are still the ones the seal describes.
#[derive(Debug, PartialEq, Eq)]
pub struct SealedArtifacts {
    /// Whether the artifacts match the seal and the capsule.
    pub matches_seal: bool,
    /// The sealed result.
    pub result: CapsuleResult,
    /// The bytes of `result.json`.
    pub content: Vec<u8>,
    /// The bytes of `result.patch`.
    pub patch: Vec<u8>,
}

/// Whether a stored result and patch are those that a seal describes and that
/// the capsule's own record agrees with.
pub open spec fn seal_agrees(
    capsule: Capsule,
    reference: ResultRef,
    r: ResultView,
    encoded: Seq<u8>,
    patch: Seq<u8>,
) -> bool {
    &&& reference.kind == r.kind
    &&& reference.head_commit@ == r.head_commit
    &&& reference.patch_sha256@ == digest::sha256_hex_of(patch)
    &&& reference.patch_sha256@ == r.patch_sha256
    &&& reference.result_sha256@ == digest::sha256_hex_of(encoded)
    &&& reference.patch_bytes == patch.len()
    &&& reference.patch_bytes == r.patch_bytes
    &&& reference.changed_paths == r.changed_paths.len()
    &&& reference.sealed_at_unix == r.sealed_at_unix
    &&& r.schema_version == SCHEMA_VERSION
    &&& r.capsule_id == capsule.id@
    &&& r.label == text::opt_view(capsule.label)
    &&& r.links == capsule.links@
    &&& r.base_commit == capsule.base_commit@
    &&& r.checkpoints == record::views(capsule.checkpoints@)
    &&& r.evidence == record::views(capsule.evidence@)
    &&& r.created_at_unix == capsule.created_at_unix
}

/// Test for [`seal_agrees`].
pub fn seal_holds(
    capsule: &Capsule,
    reference: &ResultRef,
    result: &CapsuleResult,
    encoded: &[u8],
    patch: &[u8],
) -> (r: bool)
    ensures
        r == seal_agrees(*capsule, *reference, result@, encoded@, patch@),
{
    proof {
        assert(result@.changed_paths.len() == result.changed_paths@.len());
    }
    reference.kind == result.kind && text::same_text(
        reference.head_commit.as_str(),
        result.head_commit.as_str(),
    ) && text::same_text(
        reference.patch_sha256.as_str(),
        digest::sha256_hex(patch).as_str(),
    ) && text::same_text(reference.patch_sha256.as_str(), result.patch_sha256.as_str())
        && text::same_text(
        reference.result_sha256.as_str(),
        digest::sha256_hex(encoded).as_str(),
    ) && reference.patch_bytes == patch.len() as u64 && reference.patch_bytes == result.patch_bytes
        && reference.changed_paths == result.changed_paths.len() && reference.sealed_at_unix
        == result.sealed_at_unix && result.schema_version == SCHEMA_VERSION && text::same_text(
        result.capsule_id.as_str(),
        capsule.id.as_str(),
    ) && text::same_opt_text(&result.label, &capsule.label) && result.links.same(&capsule.links)
        && text::same_text(result.base_commit.as_str(), capsule.base_commit.as_str())
        && record::same_rows(&result.checkpoints, &capsule.checkpoints) && record::same_rows(
        &result.evidence,
        &capsule.evidence,
    ) && result.created_at_unix == capsule.created_at_unix
}

/// What reading a stored result says.
pub open spec fn stored_result_check(
    id: Seq<char>,
    stored: std::result::Result<StoredResult, Error>,
) -> std::result::Result<(), ErrorView> {
    if validate::id_check(id) is Err {
        validate::id_check(id)
    } else {
        match stored {
            Err(e) => Err(e@),
            Ok(s) => store::result_check(id, s.result),
        }
    }
}

/// What reading the sealed artifacts of a capsule says.
pub open spec fn sealed_check(
    capsule: Capsule,
    stored: std::result::Result<StoredResult, Error>,
    patch: std::result::Result<Vec<u8>, Error>,
) -> std::result::Result<(), ErrorView> {
    if capsule.result is None {
        Err(manager::state_error(capsule, "a sealed result"@))
    } else {
        match stored_result_check(capsule.id@, stored) {
            Err(e) => Err(artifact_error_view(capsule.id@, e)),
            Ok(_) => match patch {
                Err(e) => Err(artifact_error_view(capsule.id@, e@)),
                Ok(_) => Ok(()),
            },
        }
    }
}

/// Whether artifacts are those that were read, judged against the seal.
pub open spec fn is_sealed_read(
    sealed: SealedArtifacts,
    capsule: Capsule,
    stored: std::result::Result<StoredResult, Error>,
    patch: std::result::Result<Vec<u8>, Error>,
) -> bool {
    &&& stored is Ok
    &&& patch is Ok
    &&& sealed.result == stored->Ok_0.result
    &&& sealed.content == stored->Ok_0.content
    &&& sealed.patch == patch->Ok_0
    &&& sealed.matches_seal == seal_agrees(
        capsule,
        capsule.result->0,
        stored->Ok_0.result@,
        stored->Ok_0.encoded@,
        patch->Ok_0@,
    )
}

/// What requiring intact sealed artifacts of a capsule says.
pub open spec fn intact_check(
    capsule: Capsule,
    stored: std::result::Result<StoredResult, Error>,
    patch: std::result::Result<Vec<u8>, Error>,
) -> std::result::Result<(), ErrorView> {
    if sealed_check(capsule, stored, patch) is Err {
        sealed_check(capsule, stored, patch)
    } else if !seal_agrees(
        capsule,
        capsule.result->0,
        stored->Ok_0.result@,
        stored->Ok_0.encoded@,
        patch->Ok_0@,
    ) {
        Err(ErrorView::ResultDrift(capsule.id@))
    } else {
        Ok(())
    }
}

/// The sealed artifacts of a capsule and their bundle, as one validated
/// snapshot.
#[derive(Debug, PartialEq, Eq)]
pub struct ArtifactSnapshot {
    /// The bundle describing both artifacts.
    pub bundle: ArtifactBundle,
    /// The bytes of `result.json`.
    pub content: Vec<u8>,
    /// The bytes of `result.patch`.
    pub patch: Vec<u8>,
}

/// Where a capsule's artifact is stored.
pub open spec fn artifact_path(root: Seq<u8>, id: Seq<char>, name: Seq<char>) -> Seq<u8> {
    store::below(store::capsule_dir_of(root, id), name)
}

/// The bundle of a sealed result and patch.
pub open spec fn bundle_of(
    id: Seq<char>,
    result_uri: Seq<char>,
    patch_uri: Seq<char>,
    content: Seq<u8>,
    patch: Seq<u8>,
) -> BundleView {
    BundleView {
        schema_version: BUNDLE_SCHEMA_VERSION,
        capsule_id: id,
        artifacts: seq![
            descriptor_of(
                ArtifactKind::ResultManifest,
                "result.json"@,
                "application/json"@,
                result_uri,
                content,
            ),
            descriptor_of(
                ArtifactKind::ResultPatch,
                "result.patch"@,
                "application/vnd.git.patch"@,
                patch_uri,
                patch,
            ),
        ],
    }
}

/// What taking a snapshot of a capsule's sealed artifacts says.
pub open spec fn snapshot_check(
    root: Seq<u8>,
    id: Seq<char>,
    manifest: std::result::Result<Capsule, Error>,
    stored: std::result::Result<StoredResult, Error>,
    patch: std::result::Result<Vec<u8>, Error>,
    current_dir: std::result::Result<NativePath, Error>,
) -> std::result::Result<(), ErrorView> {
    if manager::show_check(root, id, manifest) is Err {
        manager::show_check(root, id, manifest)
    } else if intact_check(manifest->Ok_0, stored, patch) is Err {
        intact_check(manifest->Ok_0, stored, patch)
    } else {
        match uri_of(artifact_path(root, id, "result.json"@), current_dir) {
            Err(e) => Err(e),
            Ok(_) => match uri_of(artifact_path(root, id, "result.patch"@), current_dir) {
                Err(e) => Err(e),
                Ok(_) => Ok(()),
            },
        }
    }
}

/// Whether a snapshot holds what was read, described by its bundle.
pub open spec fn is_snapshot_of(
    snapshot: ArtifactSnapshot,
    root: Seq<u8>,
    id: Seq<char>,
    stored: std::result::Result<StoredResult, Error>,
    patch: std::result::Result<Vec<u8>, Error>,
    current_dir: std::result::Result<NativePath, Error>,
) -> bool {
    &&& snapshot.content == stored->Ok_0.content
    &&& snapshot.patch == patch->Ok_0
    &&& snapshot.bundle@ == bundle_of(
        id,
        uri_of(artifact_path(root, id, "result.json"@), current_dir)->Ok_0,
        uri_of(artifact_path(root, id, "result.patch"@), current_dir)->Ok_0,
        snapshot.content@,
        snapshot.patch@,
    )
}

/// A bundle whose descriptors name their artifacts relative to the bundle.
///
/// A receipt is meant to travel: the directory layout of the machine that made
/// it is meaningless to whoever verifies it later.
pub open spec fn exported_of(b: BundleView) -> BundleView {
    BundleView {
        artifacts: b.artifacts.map_values(
            |d: DescriptorView| DescriptorView { uri: d.name, ..d },
        ),
        ..b
    }
}

fn relative_descriptors(artifacts: &Vec<ArtifactDescriptor>) -> (r: Vec<ArtifactDescriptor>)
    ensures
        record::views(r@) == record::views(artifacts@).map_values(
            |d: DescriptorView| DescriptorView { uri: d.name, ..d },
        ),
{
    let ghost wanted = record::views(artifacts@).map_values(
        |d: DescriptorView| DescriptorView { uri: d.name, ..d },
    );
    let mut r: Vec<ArtifactDescriptor> = Vec::new();
    let mut i: usize = 0;
    proof {
        assert(record::views(r@) =~= wanted.take(0));
    }
    while i < artifacts.len()
        invariant
            i <= artifacts.len(),
            wanted == record::views(artifacts@).map_values(
                |d: DescriptorView| DescriptorView { uri: d.name, ..d },
            ),
            record::views(r@) == wanted.take(i as int),
        decreases artifacts.len() - i,
    {
        let ghost before = r@;
        let d = &artifacts[i];
        let entry = ArtifactDescriptor {
            kind: d.kind,
            name: d.name.clone(),
            media_type: d.media_type.clone(),
            uri: d.name.clone(),
            content_address: d.content_address.clone(),
            sha256: d.sha256.clone(),
            bytes: d.bytes,
        };
        let ghost held = entry@;
        r.push(entry);
        proof {
            assert(wanted[i as int] == held);
            assert(record::views(r@) =~= record::views(before).push(held));
            assert(wanted.take(i + 1) =~= wanted.take(i as int).push(wanted[i as int]));
        }
        i += 1;
    }
    proof {
        assert(wanted.take(wanted.len() as int) =~= wanted);
    }
    r
}

/// What is to be written for an export: the report's bundle as `bundle.json`,
/// and the two artifacts beside it.
#[derive(Debug, PartialEq, Eq)]
pub struct ExportPlan {
    /// The report for the finished export.
    pub report: ExportReport,
    /// The bytes of `result.json`.
    pub content: Vec<u8>,
    /// The bytes of `result.patch`.
    pub patch: Vec<u8>,
}

/// What planning an export says.
pub open spec fn export_check(
    root: Seq<u8>,
    snapshot: std::result::Result<ArtifactSnapshot, Error>,
    requested: Seq<u8>,
    normalized: std::result::Result<Option<NativePath>, Error>,
) -> std::result::Result<(), ErrorView> {
    match snapshot {
        Err(e) => Err(e@),
        Ok(_) => match normalized {
            Err(e) => Err(e@),
            Ok(None) => Err(
                ErrorView::InvalidInput(
                    "destination must name a new directory: "@ + paths::display_of(requested),
                ),
            ),
            Ok(Some(p)) => if paths::is_within(p@, root) {
                Err(
                    ErrorView::InvalidInput(
                        "destination must be outside managed state: "@ + paths::display_of(
                            requested,
                        ),
                    ),
                )
            } else {
                Ok(())
            },
        },
    }
}

/// One artifact on its way to a sink.
#[derive(Debug)]
pub struct Publication {
    /// Descriptor of the artifact.
    pub descriptor: ArtifactDescriptor,
    /// Its bytes.
    pub source: ArtifactReader,
}

/// Whether a row of publications pairs each descriptor of a bundle with the
/// bytes it describes, in the bundle's order.
pub open spec fn are_publications(
    rows: Seq<Publication>,
    bundle: BundleView,
    content: Seq<u8>,
    patch: Seq<u8>,
) -> bool {
    &&& rows.len() == bundle.artifacts.len()
    &&& forall|i: int|
        0 <= i < rows.len() ==> {
            &&& (#[trigger] rows[i]).descriptor@ == bundle.artifacts[i]
            &&& rows[i].source@ == match bundle.artifacts[i].kind {
                ArtifactKind::ResultManifest => content,
                ArtifactKind::ResultPatch => patch,
            }
        }
}

/// The first kind that occurs a second time in a bundle, if any.
pub open spec fn first_repeated(artifacts: Seq<DescriptorView>) -> Option<ArtifactKind>
    decreases artifacts.len(),
{
    if artifacts.len() == 0 {
        None
    } else {
        match first_repeated(artifacts.drop_last()) {
            Some(kind) => Some(kind),
            None => if exists|i: int|
                0 <= i < artifacts.len() - 1 && (#[trigger] artifacts[i]).kind
                    == artifacts.last().kind {
                Some(artifacts.last().kind)
            } else {
                None
            },
        }
    }
}

fn find_repeated(artifacts: &Vec<ArtifactDescriptor>) -> (r: Option<ArtifactKind>)
    ensures
        r == first_repeated(record::views(artifacts@)),
{
    let ghost all = record::views(artifacts@);
    let mut manifest = false;
    let mut patch = false;
    let mut found: Option<ArtifactKind> = None;
    let mut i: usize = 0;
    while i < artifacts.len()
        invariant
            i <= artifacts.len(),
            all == record::views(artifacts@),
            manifest == exists|j: int|
                0 <= j < i && (#[trigger] all[j]).kind == ArtifactKind::ResultManifest,
            patch == exists|j: int|
                0 <= j < i && (#[trigger] all[j]).kind == ArtifactKind::ResultPatch,
            found == first_repeated(all.take(i as int)),
        decreases artifacts.len() - i,
    {
        let kind = artifacts[i].kind;
        let ghost longer = all.take(i + 1);
        proof {
            assert(all[i as int] == artifacts@[i as int]@);
            assert(longer.drop_last() =~= all.take(i as int));
            assert(longer.last() == all[i as int]);
            assert forall|j: int| 0 <= j < i implies #[trigger] longer[j] == all[j] by {}
        }
        let seen = match kind {
            ArtifactKind::ResultManifest => manifest,
            ArtifactKind::ResultPatch => patch,
        };
        proof {
            let again = exists|j: int|
                0 <= j < longer.len() - 1 && (#[trigger] longer[j]).kind == longer.last().kind;
            if seen {
                let j = choose|j: int| 0 <= j < i && (#[trigger] all[j]).kind == kind;
                assert(longer[j].kind == longer.last().kind);
            }
            if again {
                let j = choose|j: int|
                    0 <= j < longer.len() - 1 && (#[trigger] longer[j]).kind == longer.last().kind;
                assert(all[j].kind == kind);
            }
            assert(again == seen);
        }
        if found.is_none() && seen {
            found = Some(kind);
        }
        match kind {
            ArtifactKind::ResultManifest => {
                manifest = true;
            },
            ArtifactKind::ResultPatch => {
                patch = true;
            },
        }
        i += 1;
    }
    proof {
        assert(all.take(all.len() as int) =~= all);
    }
    found
}

/// What a sink is to be handed for a snapshot, artifact by artifact.
pub fn publications(snapshot: ArtifactSnapshot) -> (r: std::result::Result<
    Vec<Publication>,
    Error,
>)
    ensures
        match first_repeated(snapshot.bundle@.artifacts) {
            None => r matches Ok(rows) && are_publications(
                rows@,
                snapshot.bundle@,
                snapshot.content@,
                snapshot.patch@,
            ),
            Some(kind) => r matches Err(e) && e@ == ErrorView::UnsafeState(
                "artifact bundle contains duplicate kind "@ + verify::kind_name_of(kind),
            ),
        },
{
    match find_repeated(&snapshot.bundle.artifacts) {
        Some(kind) => {
            return Err(
                Error::UnsafeState(
                    text::cat2(
                        "artifact bundle contains duplicate kind ",
                        verify::kind_name(kind),
                    ),
                ),
            );
        },
        None => {},
    }
    Ok(
        pair_with_bytes(
            &snapshot.bundle.artifacts,
            snapshot.content.as_slice(),
            snapshot.patch.as_slice(),
        ),
    )
}

fn copied(d: &ArtifactDescriptor) -> (r: ArtifactDescriptor)
    ensures
        r@ == d@,
{
    ArtifactDescriptor {
        kind: d.kind,
        name: d.name.clone(),
        media_type: d.media_type.clone(),
        uri: d.uri.clone(),
        content_address: d.content_address.clone(),
        sha256: d.sha256.clone(),
        bytes: d.bytes,
    }
}

fn pair_with_bytes(artifacts: &Vec<ArtifactDescriptor>, content: &[u8], patch: &[u8]) -> (r: Vec<
    Publication,
>)
    ensures
        r@.len() == artifacts@.len(),
        forall|i: int|
            0 <= i < r@.len() ==> {
                &&& (#[trigger] r@[i]).descriptor@ == record::views(artifacts@)[i]
                &&& r@[i].source@ == match record::views(artifacts@)[i].kind {
                    ArtifactKind::ResultManifest => content@,
                    ArtifactKind::ResultPatch => patch@,
                }
            },
{
    let mut r: Vec<Publication> = Vec::new();
    let mut i: usize = 0;
    while i < artifacts.len()
        invariant
            i <= artifacts.len(),
            r@.len() == i,
            forall|j: int|
                0 <= j < r@.len() ==> {
                    &&& (#[trigger] r@[j]).descriptor@ == record::views(artifacts@)[j]
                    &&& r@[j].source@ == match record::views(artifacts@)[j].kind {
                        ArtifactKind::ResultManifest => content@,
                        ArtifactKind::ResultPatch => patch@,
                    }
                },
        decreases artifacts.len() - i,
    {
        proof {
            assert(record::views(artifacts@)[i as int] == artifacts@[i as int]@);
        }
        let held = match artifacts[i].kind {
            ArtifactKind::ResultManifest => bytes::copy_bytes(content),
            ArtifactKind::ResultPatch => bytes::copy_bytes(patch),
        };
        r.push(
            Publication { descriptor: copied(&artifacts[i]), source: ArtifactReader::new(held) },
        );
        i += 1;
    }
    r
}

/// What a sink is handed for a snapshot: each descriptor of its bundle with the
/// bytes it describes, in the bundle's order.
pub open spec fn handover(s: ArtifactSnapshot) -> Seq<(DescriptorView, Seq<u8>)> {
    s.bundle@.artifacts.map_values(
        |d: DescriptorView|
            (
                d,
                match d.kind {
                    ArtifactKind::ResultManifest => s.content@,
                    ArtifactKind::ResultPatch => s.patch@,
                },
            ),
    )
}

/// What a row of publications hands over.
pub open spec fn handover_of(rows: Seq<Publication>) -> Seq<(DescriptorView, Seq<u8>)> {
    rows.map_values(|p: Publication| (p.descriptor@, p.source@))
}

/// Whether a sink's log grew by exactly `n` calls, which handed it the first
/// `n` of `what`, in order.
pub open spec fn handed(
    before: Seq<SinkCall>,
    after: Seq<SinkCall>,
    what: Seq<(DescriptorView, Seq<u8>)>,
    n: int,
) -> bool {
    &&& 0 <= n <= what.len()
    &&& after.len() == before.len() + n
    &&& after.take(before.len() as int) == before
    &&& forall|i: int|
        0 <= i < n ==> {
            &&& (#[trigger] after[before.len() + i]).descriptor == what[i].0
            &&& after[before.len() + i].content == what[i].1
        }
}

/// Whether a publication went as it must, given a sink's log before and after.
///
/// Where it succeeds, everything was handed over once and each descriptor is
/// paired with the URI that the sink assigned. Where it fails, it fails with
/// the sink's first refusal, and the sink was not called again after it.
pub open spec fn published_as(
    r: std::result::Result<Vec<PublishedArtifact>, Error>,
    before: Seq<SinkCall>,
    after: Seq<SinkCall>,
    what: Seq<(DescriptorView, Seq<u8>)>,
) -> bool {
    match r {
        Ok(published) => {
            &&& handed(before, after, what, what.len() as int)
            &&& published@.len() == what.len()
            &&& forall|i: int|
                0 <= i < published@.len() ==> {
                    &&& (#[trigger] published@[i]).descriptor@ == what[i].0
                    &&& after[before.len() + i].answer == Ok::<Seq<char>, ErrorView>(
                        published@[i].uri@,
                    )
                }
        },
        Err(e) => exists|n: int|
            {
                &&& 0 < n <= what.len()
                &&& #[trigger] handed(before, after, what, n)
                &&& after.last().answer == Err::<Seq<char>, ErrorView>(e@)
                &&& forall|i: int|
                    0 <= i < n - 1 ==> (#[trigger] after[before.len() + i]).answer is Ok
            },
    }
}

impl CapsuleManager {
    /// Judge the stored result and patch of a capsule against its seal.
    pub fn sealed_artifacts(
        &self,
        capsule: &Capsule,
        stored: std::result::Result<StoredResult, Error>,
        patch: std::result::Result<Vec<u8>, Error>,
    ) -> (r: std::result::Result<SealedArtifacts, Error>)
        ensures
            match sealed_check(*capsule, stored, patch) {
                Ok(_) => r matches Ok(sealed) && is_sealed_read(sealed, *capsule, stored, patch),
                Err(e) => r matches Err(found) && found@ == e,
            },
    {
        let reference = match &capsule.result {
            None => {
                return Err(manager::invalid_state(capsule, "a sealed result"));
            },
            Some(reference) => reference,
        };
        match validate::validate_id(capsule.id.as_str()) {
            Err(e) => {
                return Err(artifact_error(capsule.id.as_str(), e));
            },
            Ok(_) => {},
        }
        let held = match stored {
            Err(e) => {
                return Err(artifact_error(capsule.id.as_str(), e));
            },
            Ok(held) => held,
        };
        let result = match self.store.read_result_artifact(
            capsule.id.as_str(),
            Ok(held.result),
        ) {
            Err(e) => {
                return Err(artifact_error(capsule.id.as_str(), e));
            },
            Ok(result) => result,
        };
        let patch = match patch {
            Err(e) => {
                return Err(artifact_error(capsule.id.as_str(), e));
            },
            Ok(patch) => patch,
        };
        let matches_seal = seal_holds(
            capsule,
            reference,
            &result,
            held.encoded.as_slice(),
            patch.as_slice(),
        );
        Ok(SealedArtifacts { matches_seal, result, content: held.content, patch })
    }

    /// The sealed artifacts of a capsule, refused unless they match its seal.
    pub fn intact_artifacts(
        &self,
        capsule: &Capsule,
        stored: std::result::Result<StoredResult, Error>,
        patch: std::result::Result<Vec<u8>, Error>,
    ) -> (r: std::result::Result<SealedArtifacts, Error>)
        ensures
            match intact_check(*capsule, stored, patch) {
                Ok(_) => r matches Ok(sealed) && is_sealed_read(sealed, *capsule, stored, patch),
                Err(e) => r matches Err(found) && found@ == e,
            },
    {
        match self.sealed_artifacts(capsule, stored, patch) {
            Err(e) => Err(e),
            Ok(sealed) => if sealed.matches_seal {
                Ok(sealed)
            } else {
                Err(Error::ResultDrift(capsule.id.clone()))
            },
        }
    }

    /// Take one validated snapshot of a capsule's sealed artifacts.
    pub fn artifact_snapshot(
        &self,
        id: &str,
        manifest: std::result::Result<Capsule, Error>,
        stored: std::result::Result<StoredResult, Error>,
        patch: std::result::Result<Vec<u8>, Error>,
        current_dir: &std::result::Result<NativePath, Error>,
    ) -> (r: std::result::Result<ArtifactSnapshot, Error>)
        ensures
            match snapshot_check(self.store.root@, id@, manifest, stored, patch, *current_dir) {
                Ok(_) => r matches Ok(snapshot) && is_snapshot_of(
                    snapshot,
                    self.store.root@,
                    id@,
                    stored,
                    patch,
                    *current_dir,
                ),
                Err(e) => r matches Err(found) && found@ == e,
            },
    {
        let capsule = match self.show(id, manifest) {
            Err(e) => {
                return Err(e);
            },
            Ok(c) => c,
        };
        let sealed = match self.intact_artifacts(&capsule, stored, patch) {
            Err(e) => {
                return Err(e);
            },
            Ok(sealed) => sealed,
        };
        let directory = match self.store.capsule_dir(id) {
            Err(e) => {
                return Err(e);
            },
            Ok(d) => d,
        };
        let result_descriptor = match artifact_descriptor(
            ArtifactKind::ResultManifest,
            "result.json",
            "application/json",
            &directory.join("result.json"),
            &sealed.content,
            current_dir,
        ) {
            Err(e) => {
                return Err(e);
            },
            Ok(d) => d,
        };
        let patch_descriptor = match artifact_descriptor(
            ArtifactKind::ResultPatch,
            "result.patch",
            "application/vnd.git.patch",
            &directory.join("result.patch"),
            &sealed.patch,
            current_dir,
        ) {
            Err(e) => {
                return Err(e);
            },
            Ok(d) => d,
        };
        let mut artifacts: Vec<ArtifactDescriptor> = Vec::new();
        artifacts.push(result_descriptor);
        artifacts.push(patch_descriptor);
        proof {
            assert(record::views(artifacts@) =~= seq![result_descriptor@, patch_descriptor@]);
        }
        let bundle = ArtifactBundle {
            schema_version: BUNDLE_SCHEMA_VERSION,
            capsule_id: id.to_owned(),
            artifacts,
        };
        Ok(ArtifactSnapshot { bundle, content: sealed.content, patch: sealed.patch })
    }

    /// Describe the sealed artifacts of a closed capsule.
    ///
    /// The seal is revalidated first, so descriptors always match live bytes.
    pub fn artifacts(
        &self,
        id: &str,
        manifest: std::result::Result<Capsule, Error>,
        stored: std::result::Result<StoredResult, Error>,
        patch: std::result::Result<Vec<u8>, Error>,
        current_dir: &std::result::Result<NativePath, Error>,
    ) -> (r: std::result::Result<ArtifactBundle, Error>)
        ensures
            match snapshot_check(self.store.root@, id@, manifest, stored, patch, *current_dir) {
                Ok(_) => r matches Ok(bundle) && bundle@ == bundle_of(
                    id@,
                    uri_of(
                        artifact_path(self.store.root@, id@, "result.json"@),
                        *current_dir,
                    )->Ok_0,
                    uri_of(
                        artifact_path(self.store.root@, id@, "result.patch"@),
                        *current_dir,
                    )->Ok_0,
                    stored->Ok_0.content@,
                    patch->Ok_0@,
                ),
                Err(e) => r matches Err(found) && found@ == e,
            },
    {
        match self.artifact_snapshot(id, manifest, stored, patch, current_dir) {
            Err(e) => Err(e),
            Ok(snapshot) => Ok(snapshot.bundle),
        }
    }

    /// Open one sealed artifact as a bounded reader over a validated snapshot.
    pub fn open_artifact(
        &self,
        snapshot: std::result::Result<ArtifactSnapshot, Error>,
        kind: ArtifactKind,
    ) -> (r: std::result::Result<ArtifactReader, Error>)
        ensures
            match snapshot {
                Err(e) => r matches Err(found) && found@ == e@,
                Ok(s) => r matches Ok(reader) && reader@ == match kind {
                    ArtifactKind::ResultManifest => s.content@,
                    ArtifactKind::ResultPatch => s.patch@,
                },
            },
    {
        match snapshot {
            Err(e) => Err(e),
            Ok(s) => Ok(
                ArtifactReader::new(
                    match kind {
                        ArtifactKind::ResultManifest => s.content,
                        ArtifactKind::ResultPatch => s.patch,
                    },
                ),
            ),
        }
    }

    /// Stream every sealed artifact into a caller-provided sink, in the order
    /// of the bundle. What the sink is handed is what [`publications`] says.
    pub fn publish_artifacts<S: ArtifactSink>(
        &self,
        snapshot: std::result::Result<ArtifactSnapshot, Error>,
        sink: &mut S,
    ) -> (r: std::result::Result<Vec<PublishedArtifact>, Error>)
        ensures
            match snapshot {
                Err(e) => r matches Err(found) && found@ == e@ && *final(sink) == *old(sink),
                Ok(s) => match first_repeated(s.bundle@.artifacts) {
                    Some(kind) => r matches Err(e) && *final(sink) == *old(sink) && e@
                        == ErrorView::UnsafeState(
                        "artifact bundle contains duplicate kind "@ + verify::kind_name_of(kind),
                    ),
                    None => published_as(r, old(sink).log(), final(sink).log(), handover(s)),
                },
            },
    {
        let s = match snapshot {
            Err(e) => {
                return Err(e);
            },
            Ok(s) => s,
        };
        let ghost what = handover(s);
        let rows = match publications(s) {
            Err(e) => {
                return Err(e);
            },
            Ok(rows) => rows,
        };
        proof {
            assert(handover_of(rows@) =~= what);
        }
        publish_rows(rows, sink)
    }

    /// Plan the export of a snapshot to a new directory outside managed state.
    ///
    /// `normalized` is the canonical parent of the requested path joined with
    /// its name, or absent where it names no new directory.
    pub fn export_artifacts(
        &self,
        snapshot: std::result::Result<ArtifactSnapshot, Error>,
        requested: &NativePath,
        normalized: std::result::Result<Option<NativePath>, Error>,
    ) -> (r: std::result::Result<ExportPlan, Error>)
        ensures
            match export_check(self.store.root@, snapshot, requested@, normalized) {
                Err(e) => r matches Err(found) && found@ == e,
                Ok(_) => r matches Ok(plan) && plan.report.bundle@ == exported_of(
                    snapshot->Ok_0.bundle@,
                ) && plan.report.output_directory == normalized->Ok_0->0 && plan.content
                    == snapshot->Ok_0.content && plan.patch == snapshot->Ok_0.patch,
            },
    {
        let s = match snapshot {
            Err(e) => {
                return Err(e);
            },
            Ok(s) => s,
        };
        let normalized = match normalized {
            Err(e) => {
                return Err(e);
            },
            Ok(p) => p,
        };
        let output_directory = match self.store.external_destination(requested, normalized) {
            Err(e) => {
                return Err(e);
            },
            Ok(p) => p,
        };
        let artifacts = relative_descriptors(&s.bundle.artifacts);
        Ok(
            ExportPlan {
                report: ExportReport {
                    bundle: ArtifactBundle {
                        schema_version: s.bundle.schema_version,
                        capsule_id: s.bundle.capsule_id,
                        artifacts,
                    },
                    output_directory,
                },
                content: s.content,
                patch: s.patch,
            },
        )
    }
}

/// Take a sink's answer for one artifact: the artifact counts as published
/// under the URI that the sink assigned, or the sink's refusal ends everything.
pub fn accept_answer(
    published: Vec<PublishedArtifact>,
    descriptor: ArtifactDescriptor,
    answer: std::result::Result<String, Error>,
) -> (r: std::result::Result<Vec<PublishedArtifact>, Error>)
    ensures
        match answer {
            Ok(uri) => r matches Ok(more) && more@ == published@.push(
                (PublishedArtifact { descriptor, uri }),
            ),
            Err(e) => r == Err::<Vec<PublishedArtifact>, Error>(e),
        },
{
    match answer {
        Err(e) => Err(e),
        Ok(uri) => {
            let mut more = published;
            more.push(PublishedArtifact { descriptor, uri });
            Ok(more)
        },
    }
}

/// Hand each row to a sink, in order, until it refuses one.
fn publish_rows<S: ArtifactSink>(rows: Vec<Publication>, sink: &mut S) -> (r: std::result::Result<
    Vec<PublishedArtifact>,
    Error,
>)
    ensures
        published_as(r, old(sink).log(), final(sink).log(), handover_of(rows@)),
{
    let ghost what = handover_of(rows@);
    let ghost before = sink.log();
    let mut published: Vec<PublishedArtifact> = Vec::new();
    let mut todo = rows;
    let mut i: usize = 0;
    proof {
        assert(sink.log().take(before.len() as int) =~= before);
    }
    while i < todo.len()
        invariant
            i <= todo@.len(),
            todo@.len() == what.len(),
            before == old(sink).log(),
            what == handover_of(rows@),
            forall|j: int|
                i <= j < todo@.len() ==> (#[trigger] todo@[j]).descriptor@ == what[j].0
                    && todo@[j].source@ == what[j].1,
            handed(before, sink.log(), what, i as int),
            published@.len() == i,
            forall|j: int|
                0 <= j < i ==> {
                    &&& (#[trigger] published@[j]).descriptor@ == what[j].0
                    &&& sink.log()[before.len() + j].answer == Ok::<Seq<char>, ErrorView>(
                        published@[j].uri@,
                    )
                },
        decreases todo.len() - i,
    {
        let descriptor = copied(&todo[i].descriptor);
        let mut source = ArtifactReader::new(Vec::new());
        std::mem::swap(&mut source, &mut todo[i].source);
        let ghost earlier = sink.log();
        let ghost kept = published@;
        assert(source@ == what[i as int].1);
        let answer = sink.put(&descriptor, &mut source);
        let ghost later = sink.log();
        proof {
            assert(later.take(before.len() as int) =~= earlier.take(before.len() as int));
            assert forall|j: int| 0 <= j < i implies #[trigger] later[before.len() + j]
                == earlier[before.len() + j] by {}
            assert(handed(before, later, what, i + 1));
            assert forall|j: int| 0 <= j < i implies (#[trigger] later[before.len() + j]).answer
                is Ok by {
                assert(kept[j].descriptor@ == what[j].0);
            }
        }
        published = match accept_answer(published, descriptor, answer) {
            Err(e) => {
                return Err(e);
            },
            Ok(more) => more,
        };
        proof {
            assert forall|j: int| 0 <= j < i + 1 implies {
                &&& (#[trigger] published@[j]).descriptor@ == what[j].0
                &&& later[before.len() + j].answer == Ok::<Seq<char>, ErrorView>(
                    published@[j].uri@,
                )
            } by {
                if j < i {
                    assert(published@[j] == kept[j]);
                }
            }
        }
        i += 1;
    }
    Ok(published)
}

/// A snapshot's own bundle never repeats a kind, so publishing it hands every
/// artifact to the sink: `result.json` and then `result.patch`, each with
/// exactly the bytes that its descriptor describes.
pub proof fn law_snapshots_can_be_published(
    s: ArtifactSnapshot,
    id: Seq<char>,
    result_uri: Seq<char>,
    patch_uri: Seq<char>,
)
    requires
        s.bundle@ == bundle_of(id, result_uri, patch_uri, s.content@, s.patch@),
    ensures
        first_repeated(s.bundle@.artifacts) is None,
        handover(s).len() == 2,
        handover(s)[0].0.name == "result.json"@,
        handover(s)[0].1 == s.content@,
        handover(s)[1].0.name == "result.patch"@,
        handover(s)[1].1 == s.patch@,
        forall|i: int|
            0 <= i < 2 ==> verify::descriptor_check(
                (#[trigger] handover(s)[i]).0,
                handover(s)[i].1,
            ) is Ok,
{
    assert(s.content.len() <= usize::MAX && s.patch.len() <= usize::MAX);
    let all = s.bundle@.artifacts;
    reveal_with_fuel(first_repeated, 3);
    assert(all.drop_last().drop_last().len() == 0);
    assert(all.drop_last().last().kind == ArtifactKind::ResultManifest);
    assert(all.last().kind == ArtifactKind::ResultPatch);
    assert(all[0].kind == ArtifactKind::ResultManifest);
}

/// An exported bundle carries no trace of the machine: it is the same wherever
/// the sealed artifacts were stored.
pub proof fn law_exports_carry_no_trace_of_the_machine(
    id: Seq<char>,
    here: (Seq<char>, Seq<char>),
    there: (Seq<char>, Seq<char>),
    content: Seq<u8>,
    patch: Seq<u8>,
)
    ensures
        exported_of(bundle_of(id, here.0, here.1, content, patch)) == exported_of(
            bundle_of(id, there.0, there.1, content, patch),
        ),
{
    assert(exported_of(bundle_of(id, here.0, here.1, content, patch)).artifacts =~= exported_of(
        bundle_of(id, there.0, there.1, content, patch),
    ).artifacts);
}

} // verus!
