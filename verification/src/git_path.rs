//! Paths in result inventories, with exactly one encoding each.
//!
//! A path that is valid UTF-8 is kept as text. Any other path is kept as the
//! lowercase hexadecimal of its bytes, so that no path has two encodings.

use vstd::prelude::*;
use vstd::string::*;
use vstd::utf8::*;

use crate::error::Error;
use crate::paths::NativePath;
use crate::record::Record;
use crate::{bytes, digest, error, paths, text};

verus! {

/// A path as Git reported it.
#[derive(Debug, PartialEq, Eq)]
pub enum GitPath {
    /// A path that is valid UTF-8.
    Utf8(String),
    /// A path that is not.
    UnixBytes {
        /// Its bytes in lowercase hexadecimal.
        unix_bytes_hex: String,
    },
}

/// What a [`GitPath`] holds.
pub enum GitPathView {
    Utf8(Seq<char>),
    UnixBytes(Seq<char>),
}

impl View for GitPath {
    type V = GitPathView;

    open spec fn view(&self) -> GitPathView {
        match *self {
            GitPath::Utf8(t) => GitPathView::Utf8(t@),
            GitPath::UnixBytes { unix_bytes_hex } => GitPathView::UnixBytes(unix_bytes_hex@),
        }
    }
}

/// Whether an encoding is the one its path has.
pub open spec fn is_canonical(path: GitPathView) -> bool {
    match path {
        GitPathView::Utf8(_) => true,
        GitPathView::UnixBytes(h) => digest::all_lower_hex(h) && h.len() % 2 == 0 && !valid_utf8(
            digest::unhex(h),
        ),
    }
}

/// The bytes of the path that an encoding stands for.
pub open spec fn raw_of(path: GitPathView) -> Seq<u8> {
    match path {
        GitPathView::Utf8(t) => encode_utf8(t),
        GitPathView::UnixBytes(h) => digest::unhex(h),
    }
}

/// The encoding of a path.
pub open spec fn encoding_of(raw: Seq<u8>) -> GitPathView {
    if valid_utf8(raw) {
        GitPathView::Utf8(decode_utf8(raw))
    } else {
        GitPathView::UnixBytes(digest::hex_of(raw))
    }
}

/// The text that stands for an encoding in messages.
pub open spec fn label_of(path: GitPathView) -> Seq<char> {
    match path {
        GitPathView::Utf8(t) => t,
        GitPathView::UnixBytes(h) => h,
    }
}

/// No path has two encodings: a canonical encoding is the encoding of the
/// path it stands for, and the encoding of a path is canonical and stands for
/// exactly that path.
pub proof fn law_one_encoding_per_path(path: GitPathView, raw: Seq<u8>)
    ensures
        is_canonical(path) ==> encoding_of(raw_of(path)) == path,
        is_canonical(encoding_of(raw)),
        raw_of(encoding_of(raw)) == raw,
{
    match path {
        GitPathView::Utf8(t) => {
            encode_utf8_valid_utf8(t);
            encode_utf8_decode_utf8(t);
        },
        GitPathView::UnixBytes(h) => {
            if is_canonical(path) {
                digest::lemma_hex_of_unhex(h);
            }
        },
    }
    if valid_utf8(raw) {
        decode_utf8_encode_utf8(raw);
    } else {
        digest::lemma_hex_of_is_lower(raw);
        digest::lemma_unhex_of_hex(raw);
    }
}

impl GitPath {
    /// Whether this is the one encoding its path has.
    pub fn is_valid_encoding(&self) -> (r: bool)
        ensures
            r == is_canonical(self@),
    {
        match self {
            GitPath::Utf8(_) => true,
            GitPath::UnixBytes { unix_bytes_hex } => {
                match digest::unhex_text(unix_bytes_hex.as_str()) {
                    Some(raw) => digest::utf8_text(raw).is_none(),
                    None => false,
                }
            },
        }
    }

    /// The encoding of the path with these bytes.
    pub fn from_raw(raw: Vec<u8>) -> (r: GitPath)
        ensures
            r@ == encoding_of(raw@),
    {
        let ghost all = raw@;
        match digest::utf8_text(bytes::copy_bytes(raw.as_slice())) {
            Some(t) => {
                proof {
                    encode_utf8_decode_utf8(t@);
                }
                GitPath::Utf8(t)
            },
            None => GitPath::UnixBytes { unix_bytes_hex: digest::hex_text(raw.as_slice()) },
        }
    }

    /// The path this encoding stands for, where it is canonical.
    pub fn to_path(&self) -> (r: Option<NativePath>)
        ensures
            r is Some <==> is_canonical(self@),
            r matches Some(p) ==> p@ == raw_of(self@),
    {
        if !self.is_valid_encoding() {
            return None;
        }
        match self {
            GitPath::Utf8(t) => Some(NativePath::new(t.as_str())),
            GitPath::UnixBytes { unix_bytes_hex } => {
                match digest::unhex_text(unix_bytes_hex.as_str()) {
                    Some(raw) => Some(NativePath::from_bytes(raw)),
                    None => None,
                }
            },
        }
    }

    /// The text that stands for the path in messages.
    pub fn label(&self) -> (r: String)
        ensures
            r@ == label_of(self@),
    {
        match self {
            GitPath::Utf8(t) => t.clone(),
            GitPath::UnixBytes { unix_bytes_hex } => unix_bytes_hex.clone(),
        }
    }
}

impl Record for GitPath {
    fn same(&self, other: &Self) -> (r: bool) {
        match (self, other) {
            (GitPath::Utf8(l), GitPath::Utf8(r)) => text::same_text(l.as_str(), r.as_str()),
            (
                GitPath::UnixBytes { unix_bytes_hex: l },
                GitPath::UnixBytes { unix_bytes_hex: r },
            ) => text::same_text(l.as_str(), r.as_str()),
            _ => false,
        }
    }

    fn copy(&self) -> (r: Self) {
        match self {
            GitPath::Utf8(t) => GitPath::Utf8(t.clone()),
            GitPath::UnixBytes { unix_bytes_hex } => GitPath::UnixBytes {
                unix_bytes_hex: unix_bytes_hex.clone(),
            },
        }
    }
}

/// Whether every path of an inventory is in its one encoding.
pub open spec fn all_canonical(inventory: Seq<GitPath>) -> bool {
    forall|i: int| 0 <= i < inventory.len() ==> is_canonical((#[trigger] inventory[i])@)
}

/// Test for [`all_canonical`].
pub fn inventory_canonical(inventory: &Vec<GitPath>) -> (r: bool)
    ensures
        r == all_canonical(inventory@),
{
    let mut i: usize = 0;
    while i < inventory.len()
        invariant
            i <= inventory.len(),
            forall|j: int| 0 <= j < i ==> is_canonical((#[trigger] inventory@[j])@),
        decreases inventory.len() - i,
    {
        if !inventory[i].is_valid_encoding() {
            return false;
        }
        i += 1;
    }
    true
}

/// What becomes of an ignored path that is to be read relative to a workspace.
pub open spec fn ignored_relative_of(ignored: GitPathView) -> std::result::Result<
    Seq<u8>,
    error::ErrorView,
> {
    if !is_canonical(ignored) {
        Err(
            error::ErrorView::InvalidInput(
                "ignored path cannot be represented here: "@ + label_of(ignored),
            ),
        )
    } else if !paths::is_confined(raw_of(ignored)) {
        Err(
            error::ErrorView::UnsafeState(
                "Git returned an unsafe ignored path: "@ + label_of(ignored),
            ),
        )
    } else {
        Ok(raw_of(ignored))
    }
}

/// The relative path an ignored entry names, refusing one that would leave the
/// workspace.
pub fn safe_ignored_relative(ignored: &GitPath) -> (r: std::result::Result<NativePath, Error>)
    ensures
        match ignored_relative_of(ignored@) {
            Ok(p) => r matches Ok(path) && path@ == p,
            Err(e) => r matches Err(found) && found@ == e,
        },
{
    match ignored.to_path() {
        None => Err(
            Error::InvalidInput(
                text::cat2(
                    "ignored path cannot be represented here: ",
                    ignored.label().as_str(),
                ),
            ),
        ),
        Some(path) => {
            if path.is_confined() {
                Ok(path)
            } else {
                Err(
                    Error::UnsafeState(
                        text::cat2(
                            "Git returned an unsafe ignored path: ",
                            ignored.label().as_str(),
                        ),
                    ),
                )
            }
        },
    }
}

} // verus!
