//! Content-type labels, derived from a file name's extension.

use vstd::prelude::*;

verus! {

/// The media type that the `mime_guess` table lists first for `extension`,
/// if it lists any.
pub uninterp spec fn known_media_type(extension: Seq<char>) -> Option<Seq<char>>;

/// The label of a generic binary stream.
pub open spec fn octet_stream() -> Seq<char> {
    "application/octet-stream"@
}

/// The content-type label of a file whose name has the given extension:
/// the media type known for the extension, and the binary-stream label when
/// the extension is absent or not known.
pub open spec fn content_type_of(extension: Option<Seq<char>>) -> Seq<char> {
    match extension {
        Some(ext) => match known_media_type(ext) {
            Some(label) => label,
            None => octet_stream(),
        },
        None => octet_stream(),
    }
}

/// `mime_guess::from_ext` followed by `MimeGuess::first`, with the media type
/// written out as text: the first entry of the table for `extension`.  The
/// lookup is a function of the extension alone.
#[verifier::external_body]
fn lookup_media_type(extension: &str) -> (found: Option<String>)
    ensures
        match found {
            Some(label) => known_media_type(extension@) == Some(label@),
            None => known_media_type(extension@) is None,
        },
{
    match mime_guess::from_ext(extension).first() {
        Some(media_type) => Some(media_type.to_string()),
        None => None,
    }
}

/// `mime::APPLICATION_OCTET_STREAM`, written out as text.
#[verifier::external_body]
fn octet_stream_label() -> (label: String)
    ensures
        label@ == octet_stream(),
{
    mime::APPLICATION_OCTET_STREAM.to_string()
}

/// Derives the content-type label for a file name extension.
pub fn content_type_for(extension: Option<&str>) -> (label: String)
    ensures
        label@ == content_type_of(
            match extension {
                Some(ext) => Some(ext@),
                None => None,
            },
        ),
{
    match extension {
        Some(ext) => match lookup_media_type(ext) {
            Some(label) => label,
            None => octet_stream_label(),
        },
        None => octet_stream_label(),
    }
}

} // verus!
