//! The path of the file that a URI names.

use crate::text::{concat, concat3};
use vstd::prelude::*;

verus! {

/// What a URI comes to.
#[derive(Debug)]
pub enum FileUri {
    /// The path of a file, as the bytes that the platform has for it: they need not be Unicode.
    Path(Vec<u8>),
    /// A URI that stands for no path.
    NoPath,
    /// No URI, and why.
    Refused(String),
}

/// Why `url::Url::parse` refuses a text; nothing where it does not.
pub uninterp spec fn uri_refusal(text: Seq<char>) -> Option<Seq<char>>;

/// What `url::Url::to_file_path` may give for a URI, on any of the platforms: the bytes of a path,
/// or nothing.
pub uninterp spec fn uri_paths(text: Seq<char>) -> Set<Option<Seq<u8>>>;

/// Reads a URI with `url::Url::parse` and, where that takes it, asks for its path with
/// `url::Url::to_file_path`. Whether the text is refused, and with what message, depends on the
/// text alone. Whether a URI stands for a path, and for which, depends on the platform as well:
/// it is one of the outcomes that the text has on any of them, and which of those is left open.
/// The path is handed on by its bytes, with `OsString::into_encoded_bytes`.
#[verifier::external_body]
fn read_uri(text: &str) -> (r: FileUri)
    ensures
        match r {
            FileUri::Refused(m) => uri_refusal(text@) == Some(m@),
            FileUri::NoPath => uri_refusal(text@) is None && uri_paths(text@).contains(None),
            FileUri::Path(p) => uri_refusal(text@) is None && uri_paths(text@).contains(Some(p@)),
        },
{
    match url::Url::parse(text) {
        Ok(uri) => match uri.to_file_path() {
            Ok(path) => FileUri::Path(path.into_os_string().into_encoded_bytes()),
            Err(_) => FileUri::NoPath,
        },
        Err(e) => FileUri::Refused(e.to_string()),
    }
}

/// The message for a text that is no URI.
pub open spec fn refusal_message(text: Seq<char>, why: Seq<char>) -> Seq<char> {
    "invalid URI '"@ + text + "': "@ + why
}

/// The message for a URI that stands for no path.
pub open spec fn no_path_message(text: Seq<char>) -> Seq<char> {
    "cannot convert URI to path: "@ + text
}

/// The path, or the message that is answered, by what a URI came to.
pub fn path_or_message(text: &str, uri: FileUri) -> (r: Result<Vec<u8>, String>)
    ensures
        match (uri, r) {
            (FileUri::Path(p), Ok(path)) => path@ == p@,
            (FileUri::NoPath, Err(m)) => m@ == no_path_message(text@),
            (FileUri::Refused(why), Err(m)) => m@ == refusal_message(text@, why@),
            _ => false,
        },
{
    match uri {
        FileUri::Path(p) => Ok(p),
        FileUri::NoPath => Err(concat("cannot convert URI to path: ", text)),
        FileUri::Refused(why) => {
            let shown = concat3("invalid URI '", text, "': ");
            Err(concat(shown.as_str(), why.as_str()))
        },
    }
}

/// The path of the file that a URI names, or the message that says why there is none: the path is
/// one that the URI has on some platform, and that it has none is said only where it has none on
/// some.
pub fn path_of_uri(text: &str) -> (r: Result<Vec<u8>, String>)
    ensures
        match (uri_refusal(text@), r) {
            (Some(why), Err(m)) => m@ == refusal_message(text@, why),
            (Some(_), Ok(_)) => false,
            (None, Err(m)) => m@ == no_path_message(text@) && uri_paths(text@).contains(None),
            (None, Ok(path)) => uri_paths(text@).contains(Some(path@)),
        },
{
    let uri = read_uri(text);
    path_or_message(text, uri)
}

} // verus!
