//! Checks on identifiers, digests, and caller-supplied text.

use vstd::prelude::*;
use vstd::string::*;
use vstd::utf8::*;

use crate::error::{Error, ErrorView};
use crate::links::{LinkView, Links};
use crate::paths::NativePath;
use crate::{bytes, digest, error, text};

verus! {

/// Maximum capsule-label length in UTF-8 bytes.
pub const LABEL_BYTES_LIMIT: usize = 256;

/// Maximum number of opaque links on one capsule.
pub const LINKS_LIMIT: usize = 32;

/// Maximum link-key length in UTF-8 bytes.
pub const LINK_KEY_BYTES_LIMIT: usize = 64;

/// Maximum link-value length in UTF-8 bytes.
pub const LINK_VALUE_BYTES_LIMIT: usize = 4096;

/// Maximum length of a commit message in bytes.
pub const MESSAGE_CAP: usize = 16384;

/// Maximum length of an author name in bytes.
pub const AUTHOR_NAME_CAP: usize = 256;

/// Maximum length of an author email in bytes.
pub const AUTHOR_EMAIL_CAP: usize = 512;

/// Maximum length of a base revision in bytes.
pub const REVISION_CAP: usize = 512;

/// Maximum length of a symbolic `HEAD` reference in bytes.
pub const HEAD_REF_CAP: usize = 1024;

/// The length of a text in UTF-8 bytes.
pub open spec fn byte_len(value: Seq<char>) -> nat {
    encode_utf8(value).len()
}

/// Whether a text is a SHA-256 digest: 64 lowercase hexadecimal digits.
pub open spec fn is_sha256(value: Seq<char>) -> bool {
    value.len() == 64 && digest::all_lower_hex(value)
}

/// Whether a text is a Git object ID: 40 or 64 lowercase hexadecimal digits.
pub open spec fn is_object_id(value: Seq<char>) -> bool {
    (value.len() == 40 || value.len() == 64) && digest::all_lower_hex(value)
}

/// Whether a text is a project key: 24 lowercase hexadecimal digits.
pub open spec fn is_project_key(value: Seq<char>) -> bool {
    value.len() == 24 && digest::all_lower_hex(value)
}

/// Whether `c` may occur in a capsule ID.
pub open spec fn is_id_char(c: char) -> bool {
    'a' <= c <= 'z' || '0' <= c <= '9' || c == '-'
}

/// Whether every character of a text may occur in a capsule ID.
pub open spec fn all_id_chars(value: Seq<char>) -> bool {
    forall|i: int| 0 <= i < value.len() ==> is_id_char(#[trigger] value[i])
}

/// Whether a text is a capsule ID.
pub open spec fn is_capsule_id(value: Seq<char>) -> bool {
    &&& 8 <= value.len() <= 64
    &&& text::has_prefix(value, "cap-"@)
    &&& all_id_chars(value)
}

/// Whether `c` may occur in a link key.
pub open spec fn is_link_key_char(c: char) -> bool {
    'a' <= c <= 'z' || 'A' <= c <= 'Z' || '0' <= c <= '9' || c == '.' || c == '_' || c == '-'
}

/// Whether a text may be a link key.
pub open spec fn is_link_key(key: Seq<char>) -> bool {
    &&& 1 <= key.len() <= LINK_KEY_BYTES_LIMIT
    &&& forall|i: int| 0 <= i < key.len() ==> is_link_key_char(#[trigger] key[i])
}

/// Test for [`is_sha256`].
pub fn valid_sha256(value: &str) -> (r: bool)
    ensures
        r == is_sha256(value@),
{
    match digest::lower_hex_len(value) {
        Some(n) => n == 64,
        None => false,
    }
}

/// Test for [`is_object_id`].
pub fn valid_object_id(value: &str) -> (r: bool)
    ensures
        r == is_object_id(value@),
{
    match digest::lower_hex_len(value) {
        Some(n) => n == 40 || n == 64,
        None => false,
    }
}

/// Test for [`is_project_key`].
pub fn valid_project_key(value: &str) -> (r: bool)
    ensures
        r == is_project_key(value@),
{
    match digest::lower_hex_len(value) {
        Some(n) => n == 24,
        None => false,
    }
}

/// Test for [`is_capsule_id`].
pub fn valid_capsule_id(value: &str) -> (r: bool)
    ensures
        r == is_capsule_id(value@),
{
    let chars = text::text_chars(value);
    if chars.len() < 8 || chars.len() > 64 {
        return false;
    }
    if text::strip_prefix(value, "cap-").is_none() {
        return false;
    }
    let mut i: usize = 0;
    while i < chars.len()
        invariant
            chars@ == value@,
            i <= chars.len(),
            forall|j: int| 0 <= j < i ==> is_id_char(#[trigger] value@[j]),
        decreases chars.len() - i,
    {
        let c = chars[i];
        if !(('a' <= c && c <= 'z') || ('0' <= c && c <= '9') || c == '-') {
            assert(!is_id_char(value@[i as int]));
            return false;
        }
        i += 1;
    }
    true
}

/// Test for [`is_link_key`].
pub fn valid_link_key(key: &str) -> (r: bool)
    ensures
        r == is_link_key(key@),
{
    let chars = text::text_chars(key);
    if chars.len() < 1 || chars.len() > LINK_KEY_BYTES_LIMIT {
        return false;
    }
    let mut i: usize = 0;
    while i < chars.len()
        invariant
            chars@ == key@,
            i <= chars.len(),
            forall|j: int| 0 <= j < i ==> is_link_key_char(#[trigger] key@[j]),
        decreases chars.len() - i,
    {
        let c = chars[i];
        if !(('a' <= c && c <= 'z') || ('A' <= c && c <= 'Z') || ('0' <= c && c <= '9') || c == '.'
            || c == '_' || c == '-') {
            assert(!is_link_key_char(key@[i as int]));
            return false;
        }
        i += 1;
    }
    true
}

/// What a check of a capsule ID says.
pub open spec fn id_check(id: Seq<char>) -> std::result::Result<(), ErrorView> {
    if is_capsule_id(id) {
        Ok(())
    } else {
        Err(ErrorView::InvalidId(id))
    }
}

/// Refuse anything but a capsule ID.
pub fn validate_id(id: &str) -> (r: std::result::Result<(), Error>)
    ensures
        error::outcome(r) == id_check(id@),
{
    if valid_capsule_id(id) {
        Ok(())
    } else {
        Err(Error::InvalidId(id.to_owned()))
    }
}

/// Whether `c` is a hexadecimal digit of either case.
pub open spec fn is_hex_digit(c: char) -> bool {
    digest::is_lower_hex(c) || 'A' <= c <= 'F'
}

/// What a check of a stored project key says.
pub open spec fn project_key_check(key: Seq<char>) -> std::result::Result<(), ErrorView> {
    if key.len() == 24 && forall|i: int| 0 <= i < key.len() ==> is_hex_digit(#[trigger] key[i]) {
        Ok(())
    } else {
        Err(ErrorView::UnsafeState("invalid project key: "@ + key))
    }
}

/// Refuse anything that is not shaped like a project key.
pub fn validate_project_key(key: &str) -> (r: std::result::Result<(), Error>)
    ensures
        error::outcome(r) == project_key_check(key@),
{
    let chars = text::text_chars(key);
    if chars.len() != 24 {
        return Err(Error::UnsafeState(text::cat2("invalid project key: ", key)));
    }
    let mut i: usize = 0;
    while i < chars.len()
        invariant
            chars@ == key@,
            chars.len() == 24,
            i <= chars.len(),
            forall|j: int| 0 <= j < i ==> is_hex_digit(#[trigger] key@[j]),
        decreases chars.len() - i,
    {
        let c = chars[i];
        if !(('0' <= c && c <= '9') || ('a' <= c && c <= 'f') || ('A' <= c && c <= 'F')) {
            assert(!is_hex_digit(key@[i as int]));
            return Err(Error::UnsafeState(text::cat2("invalid project key: ", key)));
        }
        i += 1;
    }
    Ok(())
}

/// What a check of a stored digest says.
pub open spec fn sha256_check(value: Seq<char>, label: Seq<char>) -> std::result::Result<
    (),
    ErrorView,
> {
    if is_sha256(value) {
        Ok(())
    } else {
        Err(ErrorView::UnsafeState("invalid "@ + label))
    }
}

/// Refuse anything but a SHA-256 digest.
pub fn validate_sha256(value: &str, label: &str) -> (r: std::result::Result<(), Error>)
    ensures
        error::outcome(r) == sha256_check(value@, label@),
{
    if valid_sha256(value) {
        Ok(())
    } else {
        Err(Error::UnsafeState(text::cat2("invalid ", label)))
    }
}

/// The key that groups the state of one repository: the first twelve bytes of
/// the digest of its common directory, in hexadecimal.
pub open spec fn project_key_of(common_dir: Seq<u8>) -> std::result::Result<Seq<char>, ErrorView> {
    if valid_utf8(common_dir) {
        Ok(digest::hex_of(digest::sha256_of(common_dir)@.take(12)))
    } else {
        Err(ErrorView::NonUtf8Path(common_dir))
    }
}

/// Derive the key that groups the state of one repository.
pub fn project_key(common_dir: &NativePath) -> (r: std::result::Result<String, Error>)
    ensures
        match project_key_of(common_dir@) {
            Ok(key) => r matches Ok(found) && found@ == key,
            Err(e) => r matches Err(found) && found@ == e,
        },
{
    if common_dir.to_text().is_none() {
        return Err(Error::NonUtf8Path(common_dir.clone()));
    }
    let digest = digest::sha256(common_dir.bytes.as_slice());
    let head = vstd::slice::slice_subrange(digest.as_slice(), 0, 12);
    proof {
        assert(head@ == digest@.take(12));
    }
    Ok(digest::hex_text(head))
}

/// A derived project key is a project key.
pub proof fn lemma_project_key_shape(common_dir: Seq<u8>)
    ensures
        project_key_of(common_dir) matches Ok(key) ==> is_project_key(key),
{
    if valid_utf8(common_dir) {
        let head = digest::sha256_of(common_dir)@.take(12);
        assert(head.len() == 12);
        digest::lemma_hex_of_is_lower(head);
    }
}

/// Whether some character of a text is a control character that the text may
/// not hold; several lines and tabs are allowed where `multiline` says so.
pub open spec fn has_forbidden_control(value: Seq<char>, multiline: bool) -> bool {
    exists|i: int|
        0 <= i < value.len() && text::is_control(#[trigger] value[i]) && !(multiline && (value[i]
            == '\n' || value[i] == '\t'))
}

/// Test for [`has_forbidden_control`].
pub fn forbidden_control(value: &str, multiline: bool) -> (r: bool)
    ensures
        r == has_forbidden_control(value@, multiline),
{
    let chars = text::text_chars(value);
    let mut i: usize = 0;
    while i < chars.len()
        invariant
            chars@ == value@,
            i <= chars.len(),
            forall|j: int|
                0 <= j < i ==> !(text::is_control(#[trigger] value@[j]) && !(multiline && (
                value@[j] == '\n' || value@[j] == '\t'))),
        decreases chars.len() - i,
    {
        let c = chars[i];
        if text::control(c) && !(multiline && (c == '\n' || c == '\t')) {
            assert(text::is_control(value@[i as int]));
            return true;
        }
        i += 1;
    }
    false
}

/// What a check of bounded text says.
pub open spec fn bounded_text_check(
    value: Seq<char>,
    cap: nat,
    label: Seq<char>,
    multiline: bool,
) -> std::result::Result<(), ErrorView> {
    if text::is_blank(value) || byte_len(value) > cap || value.contains('\0') {
        Err(
            ErrorView::InvalidInput(
                label + " must contain 1-"@ + text::decimal(cap) + " bytes without NUL"@,
            ),
        )
    } else if has_forbidden_control(value, multiline) {
        Err(ErrorView::InvalidInput(label + " contains unsupported control characters"@))
    } else {
        Ok(())
    }
}

/// Refuse text that is blank, longer than `cap` bytes, or holds characters
/// that do not belong in it.
pub fn validate_bounded_text(value: &str, cap: usize, label: &str, multiline: bool) -> (r:
    std::result::Result<(), Error>)
    ensures
        error::outcome(r) == bounded_text_check(value@, cap as nat, label@, multiline),
{
    if text::blank(value) || value.as_bytes().len() > cap || text::contains_char(value, '\0') {
        return Err(
            Error::InvalidInput(
                text::cat4(
                    label,
                    " must contain 1-",
                    text::decimal_text(cap as u64).as_str(),
                    " bytes without NUL",
                ),
            ),
        );
    }
    if forbidden_control(value, multiline) {
        return Err(
            Error::InvalidInput(text::cat2(label, " contains unsupported control characters")),
        );
    }
    Ok(())
}

/// What a check of a commit message says.
pub open spec fn message_check(message: Seq<char>, label: Seq<char>) -> std::result::Result<
    (),
    ErrorView,
> {
    bounded_text_check(message, MESSAGE_CAP as nat, label, true)
}

/// Refuse a commit message that is blank, too long, or holds control
/// characters other than line breaks and tabs.
pub fn validate_message(message: &str, label: &str) -> (r: std::result::Result<(), Error>)
    ensures
        error::outcome(r) == message_check(message@, label@),
{
    validate_bounded_text(message, MESSAGE_CAP, label, true)
}

/// What a check of a commit identity says.
pub open spec fn author_check(name: Seq<char>, email: Seq<char>) -> std::result::Result<
    (),
    ErrorView,
> {
    match bounded_text_check(name, AUTHOR_NAME_CAP as nat, "author name"@, false) {
        Err(e) => Err(e),
        Ok(_) => match bounded_text_check(
            email,
            AUTHOR_EMAIL_CAP as nat,
            "author email"@,
            false,
        ) {
            Err(e) => Err(e),
            Ok(_) => if email.contains('@') {
                Ok(())
            } else {
                Err(ErrorView::InvalidInput("author email must contain '@'"@))
            },
        },
    }
}

/// Refuse a commit identity whose name or email is not usable.
pub fn validate_author(name: &str, email: &str) -> (r: std::result::Result<(), Error>)
    ensures
        error::outcome(r) == author_check(name@, email@),
{
    match validate_bounded_text(name, AUTHOR_NAME_CAP, "author name", false) {
        Err(e) => {
            return Err(e);
        },
        Ok(_) => {},
    }
    match validate_bounded_text(email, AUTHOR_EMAIL_CAP, "author email", false) {
        Err(e) => {
            return Err(e);
        },
        Ok(_) => {},
    }
    if !text::contains_char(email, '@') {
        return Err(Error::InvalidInput("author email must contain '@'".to_owned()));
    }
    Ok(())
}

/// What a check of one link says.
pub open spec fn link_check(link: LinkView) -> std::result::Result<(), ErrorView> {
    if !is_link_key(link.0) {
        Err(ErrorView::InvalidInput("invalid link key: "@ + digest::quoted_text_of(link.0)))
    } else {
        bounded_text_check(link.1, LINK_VALUE_BYTES_LIMIT as nat, "link value"@, false)
    }
}

/// What a check of links says: the first link at fault decides.
pub open spec fn links_check(links: Seq<LinkView>) -> std::result::Result<(), ErrorView>
    decreases links.len(),
{
    if links.len() == 0 {
        Ok(())
    } else {
        match links_check(links.drop_last()) {
            Err(e) => Err(e),
            Ok(_) => link_check(links.last()),
        }
    }
}

/// What a check of a creation request says.
pub open spec fn create_check(label: Option<Seq<char>>, links: Seq<LinkView>) -> std::result::Result<
    (),
    ErrorView,
> {
    let label_check = match label {
        Some(l) => bounded_text_check(l, LABEL_BYTES_LIMIT as nat, "label"@, false),
        None => Ok(()),
    };
    if label_check is Err {
        label_check
    } else if links.len() > LINKS_LIMIT {
        Err(
            ErrorView::InvalidInput(
                "at most "@ + text::decimal(LINKS_LIMIT as nat) + " links are allowed"@,
            ),
        )
    } else {
        links_check(links)
    }
}

/// Once a link is at fault, so is every row that begins with these.
proof fn lemma_links_check_prefix(links: Seq<LinkView>, n: int)
    requires
        0 <= n <= links.len(),
        links_check(links.take(n)) is Err,
    ensures
        links_check(links) == links_check(links.take(n)),
    decreases links.len(),
{
    if n == links.len() {
        assert(links.take(n) == links);
    } else {
        assert(links.drop_last().take(n) == links.take(n));
        lemma_links_check_prefix(links.drop_last(), n);
    }
}

/// Refuse links of which one is not usable.
pub fn validate_links(links: &Links) -> (r: std::result::Result<(), Error>)
    ensures
        error::outcome(r) == links_check(links@),
{
    let mut i: usize = 0;
    proof {
        assert(links@.take(0) == Seq::<LinkView>::empty());
    }
    while i < links.len()
        invariant
            i <= links@.len(),
            links_check(links@.take(i as int)) == Ok::<(), ErrorView>(()),
        decreases links@.len() - i,
    {
        proof {
            assert(links@.take(i + 1).drop_last() == links@.take(i as int));
            assert(links@.take(i + 1).last() == links@[i as int]);
        }
        if !valid_link_key(links.key(i)) {
            proof {
                lemma_links_check_prefix(links@, i + 1);
            }
            return Err(
                Error::InvalidInput(
                    text::cat2(
                        "invalid link key: ",
                        digest::quoted_text(links.key(i)).as_str(),
                    ),
                ),
            );
        }
        match validate_bounded_text(links.value(i), LINK_VALUE_BYTES_LIMIT, "link value", false) {
            Err(e) => {
                proof {
                    lemma_links_check_prefix(links@, i + 1);
                }
                return Err(e);
            },
            Ok(_) => {},
        }
        i += 1;
    }
    proof {
        assert(links@.take(links@.len() as int) == links@);
    }
    Ok(())
}

/// Refuse a label or links that are not usable.
pub fn validate_label_and_links(label: &Option<String>, links: &Links) -> (r: std::result::Result<
    (),
    Error,
>)
    ensures
        error::outcome(r) == create_check(text::opt_view(*label), links@),
{
    match label {
        Some(l) => {
            match validate_bounded_text(l.as_str(), LABEL_BYTES_LIMIT, "label", false) {
                Err(e) => {
                    return Err(e);
                },
                Ok(_) => {},
            }
        },
        None => {},
    }
    if links.len() > LINKS_LIMIT {
        return Err(
            Error::InvalidInput(
                text::cat3(
                    "at most ",
                    text::decimal_text(LINKS_LIMIT as u64).as_str(),
                    " links are allowed",
                ),
            ),
        );
    }
    validate_links(links)
}

/// Whether a base revision may be handed to Git.
pub open spec fn is_revision(revision: Seq<char>) -> bool {
    &&& revision.len() > 0
    &&& byte_len(revision) <= REVISION_CAP
    &&& revision[0] != '-'
    &&& !text::has_control(revision)
}

/// Test for [`is_revision`].
pub fn valid_revision(revision: &str) -> (r: bool)
    ensures
        r == is_revision(revision@),
{
    if revision.is_empty() || revision.as_bytes().len() > REVISION_CAP || text::any_control(
        revision,
    ) {
        return false;
    }
    let chars = text::text_chars(revision);
    chars[0] != '-'
}

/// Whether a symbolic `HEAD` reference is usable.
pub open spec fn is_head_ref(reference: Seq<char>) -> bool {
    &&& reference.len() > 0
    &&& byte_len(reference) <= HEAD_REF_CAP
    &&& !text::has_control(reference)
}

/// Test for [`is_head_ref`].
pub fn valid_head_ref(reference: &str) -> (r: bool)
    ensures
        r == is_head_ref(reference@),
{
    !reference.is_empty() && reference.as_bytes().len() <= HEAD_REF_CAP && !text::any_control(
        reference,
    )
}

/// `KEY=VALUE` cut at its first `=`.
pub open spec fn split_link(value: Seq<char>) -> Option<LinkView> {
    if value.contains('=') {
        let i = value.index_of_first('=')->0;
        Some((value.take(i), value.skip(i + 1)))
    } else {
        None
    }
}

/// Read one `KEY=VALUE` link argument.
pub fn parse_link(value: &str) -> (r: std::result::Result<(String, String), String>)
    ensures
        match split_link(value@) {
            Some(link) => r matches Ok(found) && found.0@ == link.0 && found.1@ == link.1,
            None => r matches Err(m) && m@ == "links must use KEY=VALUE"@,
        },
{
    let chars = text::text_chars(value);
    let mut i: usize = 0;
    while i < chars.len()
        invariant
            chars@ == value@,
            i <= chars.len(),
            forall|j: int| 0 <= j < i ==> value@[j] != '=',
        decreases chars.len() - i,
    {
        if chars[i] == '=' {
            proof {
                assert(value@[i as int] == '=');
                value@.index_of_first_ensures('=');
                let f = value@.index_of_first('=')->0;
                assert(f == i);
                assert(value@.subrange(0, i as int) == value@.take(i as int));
                assert(value@.subrange(i + 1, value@.len() as int) == value@.skip(i + 1));
            }
            let key = text::text_of(vstd::slice::slice_subrange(chars.as_slice(), 0, i));
            let rest = text::text_of(
                vstd::slice::slice_subrange(chars.as_slice(), i + 1, chars.len()),
            );
            return Ok((key, rest));
        }
        i += 1;
    }
    Err("links must use KEY=VALUE".to_owned())
}

} // verus!
