//! State-root-scoped reservations that bind an opaque key to one capsule.
//!
//! Every digest here covers a length-framed encoding, so that two materially
//! different requests never hash the same bytes.

use vstd::prelude::*;
use vstd::string::*;
use vstd::utf8::*;

use crate::error::{Error, ErrorView};
use crate::links::{LinkView, Links};
use crate::model::Capsule;
use crate::paths::NativePath;
use crate::{bytes, digest, error, links, paths, text, validate};

verus! {

/// Schema version of reservation records and lookup responses.
pub const IDEMPOTENCY_RECORD_SCHEMA_VERSION: u32 = 1;

/// Maximum idempotency-key length in UTF-8 bytes.
pub const IDEMPOTENCY_KEY_BYTES_LIMIT: usize = 256;

/// Largest reservation record in bytes.
pub const IDEMPOTENCY_RECORD_CAP: u64 = 262144;

/// Whether a reservation has a durable capsule manifest.
#[derive(Debug, Clone, Copy, PartialEq, Eq, Structural)]
pub enum IdempotencyStatus {
    /// The capsule identity is reserved but no manifest has been published.
    Reserved,
    /// A validated capsule manifest exists for the reserved identity.
    Materialized,
}

/// Direct lookup result for one idempotency key.
#[derive(Debug, PartialEq, Eq)]
pub struct IdempotencyLookup {
    /// Independent lookup/record schema version.
    pub schema_version: u32,
    /// Domain-separated SHA-256 of the caller-supplied key.
    pub idempotency_key_sha256: String,
    /// Capsule identity permanently reserved by the key.
    pub capsule_id: String,
    /// Whether the referenced capsule manifest exists.
    pub status: IdempotencyStatus,
    /// Validated current capsule manifest, once materialized.
    pub capsule: Option<Capsule>,
}

/// Administrative inspection of one indexed idempotency entry.
#[derive(Debug, PartialEq, Eq)]
pub struct IdempotencyRecordInspection {
    /// Indexed filename, never a raw idempotency key.
    pub filename: String,
    /// Declared record schema, when readable.
    pub schema_version: Option<u32>,
    /// Reserved capsule ID, when readable.
    pub capsule_id: Option<String>,
    /// Why the entry could not be validated.
    pub error: Option<String>,
}

/// A reservation: everything that defines one logical creation, and the
/// identity bound to it.
#[derive(Debug, PartialEq, Eq)]
pub struct IdempotencyRecord {
    /// Schema version of this record.
    pub schema_version: u32,
    /// Domain-separated SHA-256 of the caller-supplied key.
    pub idempotency_key_sha256: String,
    /// Digest of the creation request.
    pub request_sha256: String,
    /// Digest of the record as a whole.
    pub record_sha256: String,
    /// Reserved capsule identity.
    pub capsule_id: String,
    /// Worktree the request was made from.
    pub source_worktree: NativePath,
    /// Common directory of the request's repository.
    pub repository_common_dir: NativePath,
    /// Key that groups the repository's state.
    pub project_key: String,
    /// Base revision as the caller wrote it.
    pub base_selector: String,
    /// Commit that revision resolved to.
    pub base_commit: String,
    /// Requested label.
    pub label: Option<String>,
    /// Requested links.
    pub links: Links,
    /// When the reservation was made.
    pub reserved_at_unix: u64,
}

/// What defines one creation request.
pub struct RequestView {
    pub source_worktree: Seq<u8>,
    pub repository_common_dir: Seq<u8>,
    pub project_key: Seq<char>,
    pub base_selector: Seq<char>,
    pub base_commit: Seq<char>,
    pub label: Option<Seq<char>>,
    pub links: Seq<LinkView>,
}

/// The UTF-8 bytes of a text, preceded by their length.
pub open spec fn framed_text(value: Seq<char>) -> Seq<u8> {
    bytes::framed(encode_utf8(value))
}

/// A path's bytes, tagged with how they are encoded and preceded by their
/// length.
pub open spec fn framed_path(path: Seq<u8>) -> Seq<u8> {
    encode_utf8("unix-bytes\0"@) + bytes::framed(path)
}

/// A label: a mark for its presence, then the label itself.
pub open spec fn framed_label(label: Option<Seq<char>>) -> Seq<u8> {
    match label {
        Some(l) => seq![1u8] + framed_text(l),
        None => seq![0u8],
    }
}

/// Keys and values, each framed, one after the other.
pub open spec fn framed_links(links: Seq<LinkView>) -> Seq<u8>
    decreases links.len(),
{
    if links.len() == 0 {
        Seq::empty()
    } else {
        framed_text(links[0].0) + (framed_text(links[0].1) + framed_links(links.skip(1)))
    }
}

/// The bytes that the request digest covers.
pub open spec fn request_preimage(r: RequestView) -> Seq<u8> {
    encode_utf8("change-capsule creation request v1\0"@) + (framed_path(r.source_worktree) + (
    framed_path(r.repository_common_dir) + (framed_text(r.project_key) + (framed_text(
        r.base_selector,
    ) + (framed_text(r.base_commit) + (framed_label(r.label) + (bytes::be64(r.links.len() as u64)
        + framed_links(r.links))))))))
}

/// The digest of a creation request.
pub open spec fn request_digest(r: RequestView) -> Seq<char> {
    digest::sha256_hex_of(request_preimage(r))
}

/// Whether every length of a request fits the eight bytes that frame it.
pub open spec fn fits_frames(r: RequestView) -> bool {
    &&& r.source_worktree.len() <= u64::MAX
    &&& r.repository_common_dir.len() <= u64::MAX
    &&& validate::byte_len(r.project_key) <= u64::MAX
    &&& validate::byte_len(r.base_selector) <= u64::MAX
    &&& validate::byte_len(r.base_commit) <= u64::MAX
    &&& r.label matches Some(l) ==> validate::byte_len(l) <= u64::MAX
    &&& r.links.len() <= u64::MAX
    &&& forall|i: int|
        0 <= i < r.links.len() ==> validate::byte_len((#[trigger] r.links[i]).0) <= u64::MAX
            && validate::byte_len(r.links[i].1) <= u64::MAX
}

proof fn lemma_strip(prefix: Seq<u8>, s: Seq<u8>, t: Seq<u8>)
    requires
        prefix + s == prefix + t,
    ensures
        s == t,
{
    assert((prefix + s).skip(prefix.len() as int) == s);
    assert((prefix + t).skip(prefix.len() as int) == t);
}

proof fn lemma_framed_text_injective(a: Seq<char>, s: Seq<u8>, b: Seq<char>, t: Seq<u8>)
    requires
        framed_text(a) + s == framed_text(b) + t,
        validate::byte_len(a) <= u64::MAX,
        validate::byte_len(b) <= u64::MAX,
    ensures
        a == b,
        s == t,
{
    bytes::lemma_framed_injective(encode_utf8(a), s, encode_utf8(b), t);
    digest::lemma_encode_utf8_injective(a, b);
}

proof fn lemma_framed_path_injective(a: Seq<u8>, s: Seq<u8>, b: Seq<u8>, t: Seq<u8>)
    requires
        framed_path(a) + s == framed_path(b) + t,
        a.len() <= u64::MAX,
        b.len() <= u64::MAX,
    ensures
        a == b,
        s == t,
{
    let tag = encode_utf8("unix-bytes\0"@);
    assert(framed_path(a) + s == tag + (bytes::framed(a) + s));
    assert(framed_path(b) + t == tag + (bytes::framed(b) + t));
    lemma_strip(tag, bytes::framed(a) + s, bytes::framed(b) + t);
    bytes::lemma_framed_injective(a, s, b, t);
}

proof fn lemma_framed_label_injective(
    a: Option<Seq<char>>,
    s: Seq<u8>,
    b: Option<Seq<char>>,
    t: Seq<u8>,
)
    requires
        framed_label(a) + s == framed_label(b) + t,
        a matches Some(l) ==> validate::byte_len(l) <= u64::MAX,
        b matches Some(l) ==> validate::byte_len(l) <= u64::MAX,
    ensures
        a == b,
        s == t,
{
    assert((framed_label(a) + s)[0] == framed_label(a)[0]);
    assert((framed_label(b) + t)[0] == framed_label(b)[0]);
    match (a, b) {
        (Some(l), Some(r)) => {
            assert(framed_label(a) + s == seq![1u8] + (framed_text(l) + s));
            assert(framed_label(b) + t == seq![1u8] + (framed_text(r) + t));
            lemma_strip(seq![1u8], framed_text(l) + s, framed_text(r) + t);
            lemma_framed_text_injective(l, s, r, t);
        },
        (None, None) => {
            lemma_strip(seq![0u8], s, t);
        },
        _ => {},
    }
}

proof fn lemma_framed_links_injective(a: Seq<LinkView>, b: Seq<LinkView>)
    requires
        a.len() == b.len(),
        framed_links(a) == framed_links(b),
        forall|i: int|
            0 <= i < a.len() ==> validate::byte_len((#[trigger] a[i]).0) <= u64::MAX
                && validate::byte_len(a[i].1) <= u64::MAX,
        forall|i: int|
            0 <= i < b.len() ==> validate::byte_len((#[trigger] b[i]).0) <= u64::MAX
                && validate::byte_len(b[i].1) <= u64::MAX,
    ensures
        a == b,
    decreases a.len(),
{
    if a.len() == 0 {
        assert(a =~= b);
    } else {
        let ra = framed_links(a.skip(1));
        let rb = framed_links(b.skip(1));
        lemma_framed_text_injective(
            a[0].0,
            framed_text(a[0].1) + ra,
            b[0].0,
            framed_text(b[0].1) + rb,
        );
        lemma_framed_text_injective(a[0].1, ra, b[0].1, rb);
        assert forall|i: int| 0 <= i < a.skip(1).len() implies validate::byte_len(
            (#[trigger] a.skip(1)[i]).0,
        ) <= u64::MAX && validate::byte_len(a.skip(1)[i].1) <= u64::MAX by {
            assert(a.skip(1)[i] == a[i + 1]);
        }
        assert forall|i: int| 0 <= i < b.skip(1).len() implies validate::byte_len(
            (#[trigger] b.skip(1)[i]).0,
        ) <= u64::MAX && validate::byte_len(b.skip(1)[i].1) <= u64::MAX by {
            assert(b.skip(1)[i] == b[i + 1]);
        }
        lemma_framed_links_injective(a.skip(1), b.skip(1));
        assert(a =~= seq![a[0]] + a.skip(1));
        assert(b =~= seq![b[0]] + b.skip(1));
    }
}

/// Two creation requests hash the same bytes only if they are the same
/// request: no field can absorb its neighbour, an absent label differs from an
/// empty one, and every field is covered.
pub proof fn law_distinct_requests_hash_distinct_bytes(a: RequestView, b: RequestView)
    requires
        fits_frames(a),
        fits_frames(b),
        request_preimage(a) == request_preimage(b),
    ensures
        a == b,
{
    let domain = encode_utf8("change-capsule creation request v1\0"@);
    let a7 = bytes::be64(a.links.len() as u64) + framed_links(a.links);
    let b7 = bytes::be64(b.links.len() as u64) + framed_links(b.links);
    let a6 = framed_label(a.label) + a7;
    let b6 = framed_label(b.label) + b7;
    let a5 = framed_text(a.base_commit) + a6;
    let b5 = framed_text(b.base_commit) + b6;
    let a4 = framed_text(a.base_selector) + a5;
    let b4 = framed_text(b.base_selector) + b5;
    let a3 = framed_text(a.project_key) + a4;
    let b3 = framed_text(b.project_key) + b4;
    let a2 = framed_path(a.repository_common_dir) + a3;
    let b2 = framed_path(b.repository_common_dir) + b3;
    lemma_strip(domain, framed_path(a.source_worktree) + a2, framed_path(b.source_worktree) + b2);
    lemma_framed_path_injective(a.source_worktree, a2, b.source_worktree, b2);
    lemma_framed_path_injective(a.repository_common_dir, a3, b.repository_common_dir, b3);
    lemma_framed_text_injective(a.project_key, a4, b.project_key, b4);
    lemma_framed_text_injective(a.base_selector, a5, b.base_selector, b5);
    lemma_framed_text_injective(a.base_commit, a6, b.base_commit, b6);
    lemma_framed_label_injective(a.label, a7, b.label, b7);
    assert(a7.take(8) == bytes::be64(a.links.len() as u64));
    assert(b7.take(8) == bytes::be64(b.links.len() as u64));
    bytes::lemma_be64_injective(a.links.len() as u64, b.links.len() as u64);
    lemma_strip(
        bytes::be64(a.links.len() as u64),
        framed_links(a.links),
        framed_links(b.links),
    );
    lemma_framed_links_injective(a.links, b.links);
}

/// The order in which links were added does not change the digest of a
/// request: rows in key order that hold the same links digest alike.
pub proof fn law_link_order_does_not_change_the_digest(
    r: RequestView,
    forward: Seq<LinkView>,
    reverse: Seq<LinkView>,
)
    requires
        links::ascending(forward),
        links::ascending(reverse),
        links::same_links(forward, reverse),
    ensures
        request_digest(RequestView { links: forward, ..r }) == request_digest(
            RequestView { links: reverse, ..r },
        ),
{
    links::law_links_are_canonical(forward, reverse);
}

/// Appending one link to a row appends its frames.
proof fn lemma_framed_links_push(links: Seq<LinkView>, p: LinkView)
    ensures
        framed_links(links.push(p)) == framed_links(links) + (framed_text(p.0) + framed_text(p.1)),
    decreases links.len(),
{
    if links.len() == 0 {
        assert(links.push(p).skip(1) =~= Seq::<LinkView>::empty());
        assert(links.push(p)[0] == p);
        let none = Seq::<u8>::empty();
        assert(framed_links(links.push(p).skip(1)) == none);
        assert(framed_text(p.1) + none =~= framed_text(p.1));
        assert(none + (framed_text(p.0) + framed_text(p.1)) =~= framed_text(p.0) + framed_text(
            p.1,
        ));
    } else {
        assert(links.push(p).skip(1) =~= links.skip(1).push(p));
        assert(links.push(p)[0] == links[0]);
        lemma_framed_links_push(links.skip(1), p);
        let k = framed_text(links[0].0);
        let v = framed_text(links[0].1);
        let rest = framed_links(links.skip(1));
        let more = framed_text(p.0) + framed_text(p.1);
        bytes::lemma_assoc(v, rest, more);
        bytes::lemma_assoc(k, v + rest, more);
    }
}

fn push_text(out: &mut Vec<u8>, value: &str)
    ensures
        final(out)@ == old(out)@ + framed_text(value@),
{
    bytes::push_framed(out, value.as_bytes());
}

fn push_path(out: &mut Vec<u8>, path: &NativePath)
    ensures
        final(out)@ == old(out)@ + framed_path(path@),
{
    let ghost before = out@;
    bytes::push_bytes(out, "unix-bytes\0".as_bytes());
    bytes::push_framed(out, path.bytes.as_slice());
    proof {
        assert(out@ =~= before + framed_path(path@));
    }
}

fn push_label(out: &mut Vec<u8>, label: &Option<String>)
    ensures
        final(out)@ == old(out)@ + framed_label(text::opt_view(*label)),
{
    let ghost before = out@;
    match label {
        Some(l) => {
            out.push(1);
            push_text(out, l.as_str());
            proof {
                assert(out@ =~= before + framed_label(Some(l@)));
            }
        },
        None => {
            out.push(0);
            proof {
                assert(out@ =~= before + framed_label(None));
            }
        },
    }
}

fn push_links(out: &mut Vec<u8>, links: &Links)
    ensures
        final(out)@ == old(out)@ + framed_links(links@),
{
    let ghost before = out@;
    let mut i: usize = 0;
    proof {
        assert(links@.take(0) =~= Seq::<LinkView>::empty());
        assert(out@ =~= before + framed_links(links@.take(0)));
    }
    while i < links.len()
        invariant
            i <= links@.len(),
            out@ == before + framed_links(links@.take(i as int)),
        decreases links@.len() - i,
    {
        let ghost o = out@;
        push_text(out, links.key(i));
        push_text(out, links.value(i));
        proof {
            assert(links@.take(i + 1) =~= links@.take(i as int).push(links@[i as int]));
            lemma_framed_links_push(links@.take(i as int), links@[i as int]);
            assert(out@ =~= before + framed_links(links@.take(i + 1)));
        }
        i += 1;
    }
    proof {
        assert(links@.take(links@.len() as int) =~= links@);
    }
}

/// Digest everything that defines a creation request.
pub fn canonical_request_sha256(
    source_worktree: &NativePath,
    repository_common_dir: &NativePath,
    project_key: &str,
    base_selector: &str,
    base_commit: &str,
    label: &Option<String>,
    links: &Links,
) -> (r: String)
    ensures
        r@ == request_digest(
            (RequestView {
                source_worktree: source_worktree@,
                repository_common_dir: repository_common_dir@,
                project_key: project_key@,
                base_selector: base_selector@,
                base_commit: base_commit@,
                label: text::opt_view(*label),
                links: links@,
            }),
        ),
{
    let ghost view = RequestView {
        source_worktree: source_worktree@,
        repository_common_dir: repository_common_dir@,
        project_key: project_key@,
        base_selector: base_selector@,
        base_commit: base_commit@,
        label: text::opt_view(*label),
        links: links@,
    };
    let mut out: Vec<u8> = Vec::new();
    proof {
        let domain = encode_utf8("change-capsule creation request v1\0"@);
        assert(out@ + domain =~= domain);
    }
    bytes::push_bytes(&mut out, "change-capsule creation request v1\0".as_bytes());
    push_path(&mut out, source_worktree);
    push_path(&mut out, repository_common_dir);
    push_text(&mut out, project_key);
    push_text(&mut out, base_selector);
    push_text(&mut out, base_commit);
    push_label(&mut out, label);
    bytes::push_be64(&mut out, links.len() as u64);
    push_links(&mut out, links);
    proof {
        bytes::lemma_nest8(
            encode_utf8("change-capsule creation request v1\0"@),
            framed_path(view.source_worktree),
            framed_path(view.repository_common_dir),
            framed_text(view.project_key),
            framed_text(view.base_selector),
            framed_text(view.base_commit),
            framed_label(view.label),
            bytes::be64(view.links.len() as u64),
            framed_links(view.links),
        );
    }
    digest::sha256_hex(out.as_slice())
}

/// What a check of an idempotency key says.
pub open spec fn key_check(key: Seq<char>) -> std::result::Result<(), ErrorView> {
    if key.len() == 0 || validate::byte_len(key) > IDEMPOTENCY_KEY_BYTES_LIMIT || exists|i: int|
        0 <= i < key.len() && (text::is_control(#[trigger] key[i]) || text::is_whitespace(key[i])) {
        Err(
            ErrorView::InvalidInput(
                "idempotency key must contain 1-"@ + text::decimal(
                    IDEMPOTENCY_KEY_BYTES_LIMIT as nat,
                ) + " UTF-8 bytes without whitespace or control characters"@,
            ),
        )
    } else {
        Ok(())
    }
}

fn separator_free(key: &str) -> (r: bool)
    ensures
        r == !(exists|i: int|
            0 <= i < key@.len() && (text::is_control(#[trigger] key@[i]) || text::is_whitespace(
                key@[i],
            ))),
{
    let chars = text::text_chars(key);
    let mut i: usize = 0;
    while i < chars.len()
        invariant
            chars@ == key@,
            i <= chars.len(),
            forall|j: int|
                0 <= j < i ==> !(text::is_control(#[trigger] key@[j]) || text::is_whitespace(
                    key@[j],
                )),
        decreases chars.len() - i,
    {
        if text::control(chars[i]) || text::whitespace(chars[i]) {
            assert(text::is_control(key@[i as int]) || text::is_whitespace(key@[i as int]));
            return false;
        }
        i += 1;
    }
    true
}

/// Refuse a key that is empty, too long, or holds white space or control
/// characters.
pub fn validate_key(key: &str) -> (r: std::result::Result<(), Error>)
    ensures
        error::outcome(r) == key_check(key@),
{
    if key.is_empty() || key.as_bytes().len() > IDEMPOTENCY_KEY_BYTES_LIMIT || !separator_free(
        key,
    ) {
        return Err(
            Error::InvalidInput(
                text::cat3(
                    "idempotency key must contain 1-",
                    text::decimal_text(IDEMPOTENCY_KEY_BYTES_LIMIT as u64).as_str(),
                    " UTF-8 bytes without whitespace or control characters",
                ),
            ),
        );
    }
    Ok(())
}

/// The digest under which a key is indexed.
pub open spec fn key_digest(key: Seq<char>) -> Seq<char> {
    digest::sha256_hex_of(encode_utf8("change-capsule idempotency key v1\0"@) + framed_text(key))
}

/// Digest a usable key.
pub fn key_sha256(key: &str) -> (r: std::result::Result<String, Error>)
    ensures
        match key_check(key@) {
            Ok(_) => r matches Ok(d) && d@ == key_digest(key@),
            Err(e) => r matches Err(found) && found@ == e,
        },
{
    match validate_key(key) {
        Err(e) => {
            return Err(e);
        },
        Ok(_) => {},
    }
    let mut out: Vec<u8> = Vec::new();
    bytes::push_bytes(&mut out, "change-capsule idempotency key v1\0".as_bytes());
    push_text(&mut out, key);
    proof {
        assert(out@ =~= encode_utf8("change-capsule idempotency key v1\0"@) + framed_text(key@));
    }
    Ok(digest::sha256_hex(out.as_slice()))
}

impl IdempotencyRecord {
    /// The request a record was made for.
    pub open spec fn request(self) -> RequestView {
        RequestView {
            source_worktree: self.source_worktree@,
            repository_common_dir: self.repository_common_dir@,
            project_key: self.project_key@,
            base_selector: self.base_selector@,
            base_commit: self.base_commit@,
            label: text::opt_view(self.label),
            links: self.links@,
        }
    }

    /// The bytes that the record digest covers.
    pub open spec fn record_preimage(self) -> Seq<u8> {
        encode_utf8("change-capsule idempotency reservation v1\0"@) + (framed_text(
            self.idempotency_key_sha256@,
        ) + (framed_text(self.request_sha256@) + (framed_text(self.capsule_id@) + (framed_path(
            self.source_worktree@,
        ) + (framed_path(self.repository_common_dir@) + (framed_text(self.project_key@) + (
        framed_text(self.base_selector@) + (framed_text(self.base_commit@) + bytes::be64(
            self.reserved_at_unix,
        )))))))))
    }

    /// The digest a record must carry.
    pub open spec fn record_digest(self) -> Seq<char> {
        digest::sha256_hex_of(self.record_preimage())
    }

    /// Whether every field of a record is well-formed on its own.
    pub open spec fn well_shaped(self, expected_key_digest: Seq<char>) -> bool {
        &&& self.schema_version == IDEMPOTENCY_RECORD_SCHEMA_VERSION
        &&& self.idempotency_key_sha256@ == expected_key_digest
        &&& validate::is_sha256(self.idempotency_key_sha256@)
        &&& validate::is_sha256(self.request_sha256@)
        &&& validate::is_sha256(self.record_sha256@)
        &&& validate::is_capsule_id(self.capsule_id@)
        &&& validate::is_project_key(self.project_key@)
        &&& validate::is_object_id(self.base_commit@)
        &&& paths::is_absolute(self.source_worktree@)
        &&& paths::is_absolute(self.repository_common_dir@)
        &&& validate::is_revision(self.base_selector@)
        &&& is_label(text::opt_view(self.label))
        &&& are_links(self.links@)
    }

    /// What a check of a stored record says.
    pub open spec fn check(self, expected_key_digest: Seq<char>) -> std::result::Result<
        (),
        ErrorView,
    > {
        let malformed = ErrorView::UnsafeState(
            "idempotency reservation "@ + expected_key_digest
                + " is malformed or contradictory"@,
        );
        if !self.well_shaped(expected_key_digest) {
            Err(malformed)
        } else {
            match validate::project_key_of(self.repository_common_dir@) {
                Err(e) => Err(e),
                Ok(key) => if key != self.project_key@ || request_digest(self.request())
                    != self.request_sha256@ || self.record_digest() != self.record_sha256@ {
                    Err(malformed)
                } else {
                    Ok(())
                },
            }
        }
    }

    /// Digest the request this record was made for.
    pub fn canonical_request_sha256(&self) -> (r: String)
        ensures
            r@ == request_digest(self.request()),
    {
        canonical_request_sha256(
            &self.source_worktree,
            &self.repository_common_dir,
            self.project_key.as_str(),
            self.base_selector.as_str(),
            self.base_commit.as_str(),
            &self.label,
            &self.links,
        )
    }

    /// Digest the record as a whole.
    pub fn canonical_record_sha256(&self) -> (r: String)
        ensures
            r@ == self.record_digest(),
    {
        let mut out: Vec<u8> = Vec::new();
        proof {
            let domain = encode_utf8("change-capsule idempotency reservation v1\0"@);
            assert(out@ + domain =~= domain);
        }
        bytes::push_bytes(&mut out, "change-capsule idempotency reservation v1\0".as_bytes());
        push_text(&mut out, self.idempotency_key_sha256.as_str());
        push_text(&mut out, self.request_sha256.as_str());
        push_text(&mut out, self.capsule_id.as_str());
        push_path(&mut out, &self.source_worktree);
        push_path(&mut out, &self.repository_common_dir);
        push_text(&mut out, self.project_key.as_str());
        push_text(&mut out, self.base_selector.as_str());
        push_text(&mut out, self.base_commit.as_str());
        bytes::push_be64(&mut out, self.reserved_at_unix);
        proof {
            bytes::lemma_nest9(
                encode_utf8("change-capsule idempotency reservation v1\0"@),
                framed_text(self.idempotency_key_sha256@),
                framed_text(self.request_sha256@),
                framed_text(self.capsule_id@),
                framed_path(self.source_worktree@),
                framed_path(self.repository_common_dir@),
                framed_text(self.project_key@),
                framed_text(self.base_selector@),
                framed_text(self.base_commit@),
                bytes::be64(self.reserved_at_unix),
            );
        }
        digest::sha256_hex(out.as_slice())
    }

    /// The record with its two digests filled in.
    pub open spec fn is_sealed_from(self, draft: IdempotencyRecord) -> bool {
        &&& self == (IdempotencyRecord {
            request_sha256: self.request_sha256,
            record_sha256: self.record_sha256,
            ..draft
        })
        &&& self.request_sha256@ == request_digest(draft.request())
        &&& self.record_sha256@ == self.record_digest()
    }

    /// Fill the two derived digests of a reservation built from immutable
    /// inputs.
    pub fn sealed(self) -> (r: IdempotencyRecord)
        ensures
            r.is_sealed_from(self),
    {
        let mut record = self;
        record.request_sha256 = record.canonical_request_sha256();
        record.record_sha256 = record.canonical_record_sha256();
        record
    }

    /// Refuse a stored record that is malformed or contradicts itself.
    pub fn validate(&self, expected_key_digest: &str) -> (r: std::result::Result<(), Error>)
        ensures
            error::outcome(r) == self.check(expected_key_digest@),
    {
        let shaped = self.schema_version == IDEMPOTENCY_RECORD_SCHEMA_VERSION && text::same_text(
            self.idempotency_key_sha256.as_str(),
            expected_key_digest,
        ) && validate::valid_sha256(self.idempotency_key_sha256.as_str())
            && validate::valid_sha256(self.request_sha256.as_str()) && validate::valid_sha256(
            self.record_sha256.as_str(),
        ) && validate::valid_capsule_id(self.capsule_id.as_str()) && validate::valid_project_key(
            self.project_key.as_str(),
        ) && validate::valid_object_id(self.base_commit.as_str())
            && self.source_worktree.is_absolute() && self.repository_common_dir.is_absolute()
            && validate::valid_revision(self.base_selector.as_str()) && valid_label(&self.label)
            && valid_links(&self.links);
        if !shaped {
            return Err(malformed(expected_key_digest));
        }
        let key = match validate::project_key(&self.repository_common_dir) {
            Ok(key) => key,
            Err(e) => {
                return Err(e);
            },
        };
        if !text::same_text(key.as_str(), self.project_key.as_str()) || !text::same_text(
            self.canonical_request_sha256().as_str(),
            self.request_sha256.as_str(),
        ) || !text::same_text(
            self.canonical_record_sha256().as_str(),
            self.record_sha256.as_str(),
        ) {
            return Err(malformed(expected_key_digest));
        }
        Ok(())
    }
}

fn malformed(expected_key_digest: &str) -> (r: Error)
    ensures
        r@ == ErrorView::UnsafeState(
            "idempotency reservation "@ + expected_key_digest@
                + " is malformed or contradictory"@,
        ),
{
    Error::UnsafeState(
        text::cat3(
            "idempotency reservation ",
            expected_key_digest,
            " is malformed or contradictory",
        ),
    )
}

/// Whether an optional label is one that may be stored.
pub open spec fn is_label(label: Option<Seq<char>>) -> bool {
    label matches Some(l) ==> {
        &&& !text::is_blank(l)
        &&& validate::byte_len(l) <= validate::LABEL_BYTES_LIMIT
        &&& !text::has_control(l)
    }
}

/// Whether one link is one that may be stored.
pub open spec fn is_link(link: LinkView) -> bool {
    &&& validate::is_link_key(link.0)
    &&& !text::is_blank(link.1)
    &&& validate::byte_len(link.1) <= validate::LINK_VALUE_BYTES_LIMIT
    &&& !text::has_control(link.1)
}

/// Whether links are ones that may be stored.
pub open spec fn are_links(links: Seq<LinkView>) -> bool {
    &&& links.len() <= validate::LINKS_LIMIT
    &&& forall|i: int| 0 <= i < links.len() ==> is_link(#[trigger] links[i])
}

fn valid_label(label: &Option<String>) -> (r: bool)
    ensures
        r == is_label(text::opt_view(*label)),
{
    match label {
        Some(l) => !text::blank(l.as_str()) && l.as_str().as_bytes().len()
            <= validate::LABEL_BYTES_LIMIT && !text::any_control(l.as_str()),
        None => true,
    }
}

fn valid_links(links: &Links) -> (r: bool)
    ensures
        r == are_links(links@),
{
    if links.len() > validate::LINKS_LIMIT {
        return false;
    }
    let mut i: usize = 0;
    while i < links.len()
        invariant
            i <= links@.len(),
            forall|j: int| 0 <= j < i ==> is_link(#[trigger] links@[j]),
        decreases links@.len() - i,
    {
        let key = links.key(i);
        let value = links.value(i);
        if !validate::valid_link_key(key) || text::blank(value) || value.as_bytes().len()
            > validate::LINK_VALUE_BYTES_LIMIT || text::any_control(value) {
            assert(!is_link(links@[i as int]));
            return false;
        }
        i += 1;
    }
    true
}

/// Whether a file in the directory of reservations is named like one.
pub open spec fn is_reservation_name(name: Seq<char>) -> bool {
    name.len() >= 5 && name.skip(name.len() - 5) == ".json"@
}

/// The key digest that a reservation file is named by, where it is one.
pub fn reservation_digest(name: &str) -> (r: Option<String>)
    ensures
        match r {
            Some(d) => is_reservation_name(name@) && d@ == name@.take(name@.len() - 5),
            None => !is_reservation_name(name@),
        },
{
    let chars = text::text_chars(name);
    if chars.len() < 5 {
        return None;
    }
    let at: usize = chars.len() - 5;
    let suffix = text::text_of(vstd::slice::slice_subrange(chars.as_slice(), at, chars.len()));
    proof {
        assert(suffix@ =~= name@.skip(name@.len() - 5));
    }
    if !text::same_text(suffix.as_str(), ".json") {
        return None;
    }
    let digest = text::text_of(vstd::slice::slice_subrange(chars.as_slice(), 0, at));
    proof {
        assert(digest@ =~= name@.take(name@.len() - 5));
    }
    Some(digest)
}

/// One stored reservation, as it was read.
#[derive(Debug, PartialEq, Eq)]
pub struct ReservationEntry {
    /// The key digest that its file is named by.
    pub key_digest: String,
    /// What the file holds, if it is still there.
    pub record: Result<Option<IdempotencyRecord>, Error>,
    /// Whether the reserved identity has a manifest.
    pub has_manifest: Result<bool, Error>,
}

/// How many reserved identities have no manifest yet, or the first reservation
/// that cannot be read or is malformed.
pub open spec fn unmaterialized_of(entries: Seq<ReservationEntry>) -> std::result::Result<
    nat,
    ErrorView,
>
    decreases entries.len(),
{
    if entries.len() == 0 {
        Ok(0)
    } else {
        match unmaterialized_of(entries.drop_last()) {
            Err(e) => Err(e),
            Ok(n) => match entries.last().record {
                Err(e) => Err(e@),
                Ok(None) => Ok(n),
                Ok(Some(record)) => match record.check(entries.last().key_digest@) {
                    Err(e) => Err(e),
                    Ok(_) => match entries.last().has_manifest {
                        Err(e) => Err(e@),
                        Ok(true) => Ok(n),
                        Ok(false) => Ok(n + 1),
                    },
                },
            },
        }
    }
}

proof fn lemma_first_failure_stays(entries: Seq<ReservationEntry>, n: int)
    requires
        0 <= n <= entries.len(),
        unmaterialized_of(entries.take(n)) is Err,
    ensures
        unmaterialized_of(entries) == unmaterialized_of(entries.take(n)),
    decreases entries.len(),
{
    if n < entries.len() {
        assert(entries.drop_last().take(n) =~= entries.take(n));
        lemma_first_failure_stays(entries.drop_last(), n);
    } else {
        assert(entries.take(n) =~= entries);
    }
}

/// There are no more identities without a manifest than reservations.
pub(crate) proof fn lemma_unmaterialized_bounded(entries: Seq<ReservationEntry>)
    ensures
        unmaterialized_of(entries) matches Ok(n) ==> n <= entries.len(),
    decreases entries.len(),
{
    if entries.len() > 0 {
        lemma_unmaterialized_bounded(entries.drop_last());
    }
}

/// Count the reserved identities that have no manifest yet; see
/// [`unmaterialized_of`].
pub fn unmaterialized_reservations(entries: &Vec<ReservationEntry>) -> (r: std::result::Result<
    u64,
    Error,
>)
    ensures
        match unmaterialized_of(entries@) {
            Ok(n) => r matches Ok(count) && count == n,
            Err(e) => r matches Err(found) && found@ == e,
        },
{
    let mut count: u64 = 0;
    let mut i: usize = 0;
    while i < entries.len()
        invariant
            i <= entries@.len(),
            count <= i,
            unmaterialized_of(entries@.take(i as int)) == Ok::<nat, ErrorView>(count as nat),
        decreases entries.len() - i,
    {
        let ghost here = entries@.take(i + 1);
        proof {
            assert(here.drop_last() =~= entries@.take(i as int));
            assert(here.last() == entries@[i as int]);
            if unmaterialized_of(here) is Err {
                lemma_first_failure_stays(entries@, i + 1);
            }
        }
        match &entries[i].record {
            Err(e) => {
                return Err(e.clone());
            },
            Ok(None) => {},
            Ok(Some(record)) => {
                match record.validate(entries[i].key_digest.as_str()) {
                    Err(e) => {
                        return Err(e);
                    },
                    Ok(_) => {},
                }
                match &entries[i].has_manifest {
                    Err(e) => {
                        return Err(e.clone());
                    },
                    Ok(present) => {
                        if !*present {
                            count = count + 1;
                        }
                    },
                }
            },
        }
        i += 1;
    }
    proof {
        assert(entries@.take(entries@.len() as int) =~= entries@);
    }
    Ok(count)
}

/// A reservation that this build publishes is one that this build accepts: a
/// sealed draft whose inputs are well-formed passes the check that readers
/// apply, so a key is never bound to a record that cannot be read back.
pub proof fn law_sealed_reservation_validates(draft: IdempotencyRecord, sealed: IdempotencyRecord)
    requires
        sealed.is_sealed_from(draft),
        draft.schema_version == IDEMPOTENCY_RECORD_SCHEMA_VERSION,
        validate::is_sha256(draft.idempotency_key_sha256@),
        validate::is_capsule_id(draft.capsule_id@),
        validate::project_key_of(draft.repository_common_dir@) == Ok::<Seq<char>, ErrorView>(
            draft.project_key@,
        ),
        validate::is_object_id(draft.base_commit@),
        paths::is_absolute(draft.source_worktree@),
        paths::is_absolute(draft.repository_common_dir@),
        validate::is_revision(draft.base_selector@),
        is_label(text::opt_view(draft.label)),
        are_links(draft.links@),
    ensures
        sealed.check(draft.idempotency_key_sha256@) == Ok::<(), ErrorView>(()),
{
    validate::lemma_project_key_shape(draft.repository_common_dir@);
    digest::lemma_hex_of_is_lower(digest::sha256_of(request_preimage(draft.request()))@);
    digest::lemma_hex_of_is_lower(digest::sha256_of(sealed.record_preimage())@);
    assert(sealed.request() == draft.request());
}

/// A text of small letters, digits and the signs of a link key takes one byte
/// for each character.
proof fn lemma_plain_byte_len(t: Seq<char>)
    requires
        forall|i: int|
            0 <= i < t.len() ==> validate::is_id_char(#[trigger] t[i]) || validate::is_link_key_char(
                t[i],
            ),
    ensures
        validate::byte_len(t) == t.len(),
{
    assert forall|i: int| 0 <= i < t.len() implies '\0' <= #[trigger] t[i] <= '\u{7f}' by {
        assert(validate::is_id_char(t[i]) || validate::is_link_key_char(t[i]));
    }
    assert(is_ascii_chars(t));
    is_ascii_chars_encode_utf8(t);
}

/// Lowercase hexadecimal takes one byte for each digit.
proof fn lemma_hex_byte_len(t: Seq<char>)
    requires
        digest::all_lower_hex(t),
    ensures
        validate::byte_len(t) == t.len(),
{
    assert forall|i: int| 0 <= i < t.len() implies validate::is_id_char(#[trigger] t[i])
        || validate::is_link_key_char(t[i]) by {
        assert(digest::is_lower_hex(t[i]));
    }
    lemma_plain_byte_len(t);
}

/// A request made of storable parts has lengths that fit their frames.
pub(crate) proof fn lemma_storable_request_fits(
    worktree: NativePath,
    common_dir: NativePath,
    r: RequestView,
)
    requires
        r.source_worktree == worktree@,
        r.repository_common_dir == common_dir@,
        validate::is_project_key(r.project_key),
        validate::is_revision(r.base_selector),
        validate::is_object_id(r.base_commit),
        is_label(r.label),
        are_links(r.links),
    ensures
        fits_frames(r),
{
    assert(worktree.bytes.len() <= usize::MAX && common_dir.bytes.len() <= usize::MAX);
    lemma_hex_byte_len(r.project_key);
    lemma_hex_byte_len(r.base_commit);
    assert forall|i: int| 0 <= i < r.links.len() implies validate::byte_len(
        (#[trigger] r.links[i]).0,
    ) <= u64::MAX && validate::byte_len(r.links[i].1) <= u64::MAX by {
        assert(is_link(r.links[i]));
        lemma_plain_byte_len(r.links[i].0);
    }
}

/// Two records hash the same bytes only if they agree in everything that the
/// record digest covers.
proof fn lemma_record_preimage_injective(a: IdempotencyRecord, b: IdempotencyRecord)
    requires
        a.record_preimage() == b.record_preimage(),
        validate::is_sha256(a.idempotency_key_sha256@),
        validate::is_sha256(b.idempotency_key_sha256@),
        validate::is_sha256(a.request_sha256@),
        validate::is_sha256(b.request_sha256@),
        validate::is_capsule_id(a.capsule_id@),
        validate::is_capsule_id(b.capsule_id@),
        fits_frames(a.request()),
        fits_frames(b.request()),
    ensures
        a.idempotency_key_sha256@ == b.idempotency_key_sha256@,
        a.request_sha256@ == b.request_sha256@,
        a.capsule_id@ == b.capsule_id@,
        a.source_worktree@ == b.source_worktree@,
        a.repository_common_dir@ == b.repository_common_dir@,
        a.project_key@ == b.project_key@,
        a.base_selector@ == b.base_selector@,
        a.base_commit@ == b.base_commit@,
        a.reserved_at_unix == b.reserved_at_unix,
{
    lemma_hex_byte_len(a.idempotency_key_sha256@);
    lemma_hex_byte_len(b.idempotency_key_sha256@);
    lemma_hex_byte_len(a.request_sha256@);
    lemma_hex_byte_len(b.request_sha256@);
    lemma_plain_byte_len(a.capsule_id@);
    lemma_plain_byte_len(b.capsule_id@);
    let domain = encode_utf8("change-capsule idempotency reservation v1\0"@);
    let a8 = bytes::be64(a.reserved_at_unix);
    let b8 = bytes::be64(b.reserved_at_unix);
    let a7 = framed_text(a.base_commit@) + a8;
    let b7 = framed_text(b.base_commit@) + b8;
    let a6 = framed_text(a.base_selector@) + a7;
    let b6 = framed_text(b.base_selector@) + b7;
    let a5 = framed_text(a.project_key@) + a6;
    let b5 = framed_text(b.project_key@) + b6;
    let a4 = framed_path(a.repository_common_dir@) + a5;
    let b4 = framed_path(b.repository_common_dir@) + b5;
    let a3 = framed_path(a.source_worktree@) + a4;
    let b3 = framed_path(b.source_worktree@) + b4;
    let a2 = framed_text(a.capsule_id@) + a3;
    let b2 = framed_text(b.capsule_id@) + b3;
    let a1 = framed_text(a.request_sha256@) + a2;
    let b1 = framed_text(b.request_sha256@) + b2;
    lemma_strip(
        domain,
        framed_text(a.idempotency_key_sha256@) + a1,
        framed_text(b.idempotency_key_sha256@) + b1,
    );
    lemma_framed_text_injective(a.idempotency_key_sha256@, a1, b.idempotency_key_sha256@, b1);
    lemma_framed_text_injective(a.request_sha256@, a2, b.request_sha256@, b2);
    lemma_framed_text_injective(a.capsule_id@, a3, b.capsule_id@, b3);
    lemma_framed_path_injective(a.source_worktree@, a4, b.source_worktree@, b4);
    lemma_framed_path_injective(a.repository_common_dir@, a5, b.repository_common_dir@, b5);
    lemma_framed_text_injective(a.project_key@, a6, b.project_key@, b6);
    lemma_framed_text_injective(a.base_selector@, a7, b.base_selector@, b7);
    lemma_framed_text_injective(a.base_commit@, a8, b.base_commit@, b8);
    bytes::lemma_be64_injective(a.reserved_at_unix, b.reserved_at_unix);
}

/// A reservation that was edited is refused: a record that keeps the record
/// digest of a valid one and differs from it in any other field, and one that
/// differs from it in the record digest alone, do not pass the check. Records
/// for which SHA-256 gives one digest are left out.
pub proof fn law_edited_reservation_is_refused(
    valid: IdempotencyRecord,
    edited: IdempotencyRecord,
    expected_key_digest: Seq<char>,
)
    requires
        valid.check(expected_key_digest) is Ok,
        edited.record_digest() == valid.record_digest() ==> edited.record_preimage()
            == valid.record_preimage(),
        request_digest(edited.request()) == request_digest(valid.request()) ==> request_preimage(
            edited.request(),
        ) == request_preimage(valid.request()),
        ({
            let covered_alike = edited.schema_version == valid.schema_version
                && edited.idempotency_key_sha256@ == valid.idempotency_key_sha256@
                && edited.request_sha256@ == valid.request_sha256@ && edited.capsule_id@
                == valid.capsule_id@ && edited.request() == valid.request()
                && edited.reserved_at_unix == valid.reserved_at_unix;
            covered_alike != (edited.record_sha256@ == valid.record_sha256@)
        }),
    ensures
        edited.check(expected_key_digest) is Err,
{
    if edited.check(expected_key_digest) is Ok {
        lemma_storable_request_fits(
            valid.source_worktree,
            valid.repository_common_dir,
            valid.request(),
        );
        lemma_storable_request_fits(
            edited.source_worktree,
            edited.repository_common_dir,
            edited.request(),
        );
        if edited.record_sha256@ == valid.record_sha256@ {
            lemma_record_preimage_injective(edited, valid);
            law_distinct_requests_hash_distinct_bytes(edited.request(), valid.request());
        }
    }
}

/// A creation request that passes the input checks can be reserved: its label
/// and links are ones that may be stored.
pub proof fn law_accepted_request_can_be_reserved(label: Option<Seq<char>>, links: Seq<LinkView>)
    requires
        validate::create_check(label, links) is Ok,
    ensures
        is_label(label),
        are_links(links),
{
    if let Some(l) = label {
        lemma_bounded_text_is_plain(l, validate::LABEL_BYTES_LIMIT as nat, "label"@);
    }
    lemma_links_check_all(links);
}

proof fn lemma_bounded_text_is_plain(value: Seq<char>, cap: nat, label: Seq<char>)
    requires
        validate::bounded_text_check(value, cap, label, false) is Ok,
    ensures
        !text::is_blank(value),
        validate::byte_len(value) <= cap,
        !text::has_control(value),
{
    if text::has_control(value) {
        let i = choose|i: int| 0 <= i < value.len() && text::is_control(#[trigger] value[i]);
        assert(text::is_control(value[i]));
        assert(validate::has_forbidden_control(value, false));
    }
}

proof fn lemma_links_check_all(links: Seq<LinkView>)
    requires
        validate::links_check(links) is Ok,
    ensures
        forall|i: int| 0 <= i < links.len() ==> is_link(#[trigger] links[i]),
    decreases links.len(),
{
    if links.len() > 0 {
        lemma_links_check_all(links.drop_last());
        lemma_bounded_text_is_plain(
            links.last().1,
            validate::LINK_VALUE_BYTES_LIMIT as nat,
            "link value"@,
        );
        assert forall|i: int| 0 <= i < links.len() implies is_link(#[trigger] links[i]) by {
            if i < links.len() - 1 {
                assert(links.drop_last()[i] == links[i]);
            }
        }
    }
}

} // verus!
