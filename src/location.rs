use vstd::prelude::*;

use crate::text::{
    has_prefix, has_suffix, is_prefix, is_suffix, joined_text, lower_of, lowercase, same_text,
};

verus! {

/// Where a location is read from.
#[derive(PartialEq, Eq, Structural, Clone, Copy, Debug)]
pub enum LocationKind {
    /// An `http://` or `https://` URL, fetched over the network.
    Remote,
    /// Anything else, taken as a local path.
    Local,
}

pub open spec fn is_remote(location: Seq<char>) -> bool {
    is_prefix("http://"@, location) || is_prefix("https://"@, location)
}

/// Tells URLs from local paths.
pub fn location_kind(location: &str) -> (r: LocationKind)
    ensures
        r == (if is_remote(location@) {
            LocationKind::Remote
        } else {
            LocationKind::Local
        }),
{
    if has_prefix(location, "http://") || has_prefix(location, "https://") {
        LocationKind::Remote
    } else {
        LocationKind::Local
    }
}

pub open spec fn is_jpeg_name(path: Seq<char>) -> bool {
    is_suffix(".jpg"@, lower_of(path)) || is_suffix(".jpeg"@, lower_of(path))
}

/// Whether a file name already in lower case ends in `.jpg` or `.jpeg`.
pub fn is_jpeg_lower(lower: &str) -> (r: bool)
    ensures
        r == (is_suffix(".jpg"@, lower@) || is_suffix(".jpeg"@, lower@)),
{
    has_suffix(lower, ".jpg") || has_suffix(lower, ".jpeg")
}

/// Whether a file name ends in `.jpg` or `.jpeg`, in any case.
pub fn is_jpeg_path(path: &str) -> (r: bool)
    ensures
        r == is_jpeg_name(path@),
{
    let lower = lowercase(path);
    is_jpeg_lower(lower.as_str())
}

/// What to do with a local path.
#[derive(PartialEq, Eq, Structural, Clone, Copy, Debug)]
pub enum LocalAction {
    /// Open the file and decode it.
    Decode,
    /// List the directory and visit its entries in order.
    List,
    /// Nothing.
    Skip,
}

/// Decides on a local path from what its metadata says: a file, or a
/// symlink, named like a JPEG is decoded; a directory is listed; anything
/// else is skipped.
pub fn local_action(is_file: bool, is_symlink: bool, is_dir: bool, path: &str) -> (r: LocalAction)
    ensures
        r == (if is_file || is_symlink {
            if is_jpeg_name(path@) {
                LocalAction::Decode
            } else {
                LocalAction::Skip
            }
        } else if is_dir {
            LocalAction::List
        } else {
            LocalAction::Skip
        }),
{
    if is_file || is_symlink {
        if is_jpeg_path(path) {
            LocalAction::Decode
        } else {
            LocalAction::Skip
        }
    } else if is_dir {
        LocalAction::List
    } else {
        LocalAction::Skip
    }
}

/// A parsed media type, as a response's content type declares it: the top
/// level type and subtype in lower case, and the structured syntax suffix
/// after `+` if any. Parameters such as `charset` play no part.
pub struct MediaType {
    pub kind: String,
    pub subtype: String,
    pub suffix: Option<String>,
}

/// How a response body is to be read.
#[derive(PartialEq, Eq, Structural, Clone, Copy, Debug)]
pub enum BodyKind {
    /// A JPEG image, to decode.
    Jpeg,
    /// An XML feed, to search for enclosures.
    Feed,
    /// A content type that is neither.
    Unsupported,
    /// No content type was given.
    Untyped,
}

pub open spec fn is_exactly(m: MediaType, kind: Seq<char>, subtype: Seq<char>) -> bool {
    m.kind@ == kind && m.subtype@ == subtype
}

pub open spec fn body_kind_of(content_type: Option<MediaType>) -> BodyKind {
    match content_type {
        None => BodyKind::Untyped,
        Some(m) => if is_exactly(m, "image"@, "jpeg"@) {
            BodyKind::Jpeg
        } else if is_exactly(m, "text"@, "xml"@) {
            BodyKind::Feed
        } else if m.kind@ == "application"@ && m.suffix.is_some() && m.suffix.unwrap()@
            == "xml"@ {
            BodyKind::Feed
        } else {
            BodyKind::Unsupported
        },
    }
}

/// Decides how to read a body from its content type: `image/jpeg` is an
/// image, `text/xml` and any `application/*+xml` are feeds.
pub fn body_kind(content_type: Option<&MediaType>) -> (r: BodyKind)
    ensures
        r == body_kind_of(
            match content_type {
                Some(m) => Some(*m),
                None => None,
            },
        ),
{
    match content_type {
        None => BodyKind::Untyped,
        Some(m) => {
            if same_text(m.kind.as_str(), "image") && same_text(m.subtype.as_str(), "jpeg") {
                BodyKind::Jpeg
            } else if same_text(m.kind.as_str(), "text") && same_text(m.subtype.as_str(), "xml") {
                BodyKind::Feed
            } else if same_text(m.kind.as_str(), "application") && match &m.suffix {
                Some(suffix) => same_text(suffix.as_str(), "xml"),
                None => false,
            } {
                BodyKind::Feed
            } else {
                BodyKind::Unsupported
            }
        },
    }
}

/// The parts of a feed's own URL against which its relative links resolve.
pub struct BaseUri {
    pub scheme: Option<String>,
    pub authority: Option<String>,
}

/// The URL that a link in a feed stands for: an absolute `http(s)` link as
/// it is; otherwise the link after the feed's scheme and authority, with a
/// `/` between them unless the link starts with one. Nothing without a
/// scheme and an authority.
pub open spec fn joined(base: BaseUri, href: Seq<char>) -> Option<Seq<char>> {
    if is_remote(href) {
        Some(href)
    } else if base.scheme.is_some() && base.authority.is_some() {
        let head = base.scheme.unwrap()@ + "://"@ + base.authority.unwrap()@;
        if is_prefix("/"@, href) {
            Some(head + href)
        } else {
            Some(head + "/"@ + href)
        }
    } else {
        None
    }
}

/// Resolves a feed's link against the feed's own URL. Only the scheme and
/// authority are taken from the base: `..` and relative queries are not
/// resolved.
pub fn uri_join(base: &BaseUri, href: &str) -> (r: Option<String>)
    ensures
        match r {
            Some(u) => joined(*base, href@) == Some(u@),
            None => joined(*base, href@) is None,
        },
{
    if has_prefix(href, "http://") || has_prefix(href, "https://") {
        return Some(String::from_str(href));
    }
    match (&base.scheme, &base.authority) {
        (Some(scheme), Some(authority)) => {
            let head = joined_text(joined_text(scheme.as_str(), "://").as_str(), authority.as_str());
            if has_prefix(href, "/") {
                Some(joined_text(head.as_str(), href))
            } else {
                Some(joined_text(joined_text(head.as_str(), "/").as_str(), href))
            }
        },
        _ => None,
    }
}

} // verus!
