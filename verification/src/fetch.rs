//! The checks that a remote image goes through before and while it is downloaded.

use vstd::prelude::*;
use vstd::string::StringExecFns;
use crate::address::{public_url_target, spec_public_url_target};
use crate::text::{chars_of, skip_whitespace, starts_with, starts_with_at, trim_start};

verus! {

/// The most bytes that a remote image may have.
pub const MAX_DOWNLOAD_BYTES: u64 = 16777216u64;

/// Why a remote image is not fetched.
#[derive(Debug, Clone, Copy, PartialEq, Eq, Structural)]
pub enum FetchError {
    /// The source is not a valid URL.
    InvalidUrl,
    /// The source is not a public `https` address.
    NotPublic,
    /// The source answered with a status outside 200..=299.
    BadStatus,
    /// The source declared a content type that is not an image.
    NotAnImage,
    /// The source has more than `MAX_DOWNLOAD_BYTES` bytes.
    TooLarge,
}

/// The content-type header of a response, as far as the checks read it.
pub enum ContentTypeHeader {
    /// No content-type header was sent.
    Absent,
    /// The header holds something other than visible ASCII.
    NotText,
    /// The header's text.
    Text(String),
}

/// The scheme, host and port of a parsed URL.
pub struct UrlParts {
    pub scheme: String,
    pub host: Option<String>,
    pub port: Option<u16>,
}

/// The scheme, host (if any) and port (given, or the scheme's default) that
/// `url::Url::parse` finds in a text, or `None` when it refuses the text.
pub uninterp spec fn parsed_url(text: Seq<char>) -> Option<(Seq<char>, Option<Seq<char>>, Option<u16>)>;

/// The view of parsed URL parts.
pub open spec fn url_parts_view(p: UrlParts) -> (Seq<char>, Option<Seq<char>>, Option<u16>) {
    (p.scheme@, match p.host { Some(h) => Some(h@), None => None }, p.port)
}

/// Parses a URL with `url::Url::parse` and reads its scheme (`Url::scheme`), host
/// (`Url::host_str`) and port (`Url::port_or_known_default`). The parts are whatever
/// that crate finds: nothing is claimed of them beyond their being a function of the text.
#[verifier::external_body]
fn parse_url_parts(text: &str) -> (res: Option<UrlParts>)
    ensures
        match res {
            Some(p) => parsed_url(text@) == Some(url_parts_view(p)),
            None => parsed_url(text@) is None,
        },
{
    match url::Url::parse(text) {
        Ok(u) => Some(UrlParts {
            scheme: u.scheme().to_string(),
            host: match u.host_str() {
                Some(h) => Some(h.to_string()),
                None => None,
            },
            port: u.port_or_known_default(),
        }),
        Err(_) => None,
    }
}

/// The host and port to resolve for parsed URL parts, or why the URL is refused.
pub open spec fn spec_target_of_parts(parts: Option<(Seq<char>, Option<Seq<char>>, Option<u16>)>) -> Result<(Seq<char>, u16), FetchError> {
    match parts {
        None => Err(FetchError::InvalidUrl),
        Some((scheme, host, port)) => match spec_public_url_target(scheme, host, port) {
            Some(t) => Ok(t),
            None => Err(FetchError::NotPublic),
        },
    }
}

/// The host and port to resolve for parsed URL parts: refused as `InvalidUrl` when the
/// text did not parse and as `NotPublic` when it is not an `https` URL with a host.
pub fn target_of_parts(parts: Option<UrlParts>) -> (res: Result<(String, u16), FetchError>)
    ensures
        match res {
            Ok((h, p)) => spec_target_of_parts(
                match parts { Some(x) => Some(url_parts_view(x)), None => None },
            ) == Ok::<(Seq<char>, u16), FetchError>((h@, p)),
            Err(e) => spec_target_of_parts(
                match parts { Some(x) => Some(url_parts_view(x)), None => None },
            ) == Err::<(Seq<char>, u16), FetchError>(e),
        },
{
    match parts {
        None => Err(FetchError::InvalidUrl),
        Some(p) => {
            let host: Option<&str> = match &p.host {
                Some(h) => Some(h.as_str()),
                None => None,
            };
            match public_url_target(p.scheme.as_str(), host, p.port) {
                Some(t) => Ok(t),
                None => Err(FetchError::NotPublic),
            }
        },
    }
}

/// The host and port to resolve before fetching an image from `url`.
pub fn fetch_target(url: &str) -> (res: Result<(String, u16), FetchError>)
    ensures
        match res {
            Ok((h, p)) => spec_target_of_parts(parsed_url(url@)) == Ok::<(Seq<char>, u16), FetchError>((h@, p)),
            Err(e) => spec_target_of_parts(parsed_url(url@)) == Err::<(Seq<char>, u16), FetchError>(e),
        },
{
    target_of_parts(parse_url_parts(url))
}

} // verus!

verus! {

/// `image/`
pub open spec fn image_prefix() -> Seq<char> {
    seq!['i', 'm', 'a', 'g', 'e', '/']
}

/// Whether a content-type header lets the download go on: an absent header does, a
/// header whose text after leading white space starts with `image/` does.
pub open spec fn content_type_allows(header: ContentTypeHeader) -> bool {
    match header {
        ContentTypeHeader::Absent => true,
        ContentTypeHeader::NotText => false,
        ContentTypeHeader::Text(t) => starts_with(trim_start(t@), image_prefix()),
    }
}

/// What the checks of a response's head answer.
pub open spec fn spec_check_response(
    status_is_success: bool,
    content_type: ContentTypeHeader,
    content_length: Option<u64>,
) -> Result<(), FetchError> {
    if !status_is_success {
        Err(FetchError::BadStatus)
    } else if !content_type_allows(content_type) {
        Err(FetchError::NotAnImage)
    } else if content_length matches Some(n) && n > MAX_DOWNLOAD_BYTES {
        Err(FetchError::TooLarge)
    } else {
        Ok(())
    }
}

/// Checks a response's head, in this order: a success status, a content type that is
/// absent or an image type, a declared length (if any) of at most `MAX_DOWNLOAD_BYTES`.
pub fn check_response(
    status_is_success: bool,
    content_type: &ContentTypeHeader,
    content_length: Option<u64>,
) -> (res: Result<(), FetchError>)
    ensures
        res == spec_check_response(status_is_success, *content_type, content_length),
{
    if !status_is_success {
        return Err(FetchError::BadStatus);
    }
    let allowed = match content_type {
        ContentTypeHeader::Absent => true,
        ContentTypeHeader::NotText => false,
        ContentTypeHeader::Text(t) => {
            let v = chars_of(t.as_str());
            let start = skip_whitespace(&v, 0);
            let prefix: Vec<char> = vec!['i', 'm', 'a', 'g', 'e', '/'];
            assert(prefix@ =~= image_prefix());
            assert(v@.skip(0) =~= v@);
            starts_with_at(&v, start, &prefix)
        },
    };
    if !allowed {
        return Err(FetchError::NotAnImage);
    }
    match content_length {
        Some(n) => if n > MAX_DOWNLOAD_BYTES {
            return Err(FetchError::TooLarge);
        },
        None => {},
    }
    Ok(())
}

/// A response head passes the checks exactly when its status is a success, its content
/// type is absent or, after leading white space, starts with `image/`, and the length it
/// declares, if any, is at most `MAX_DOWNLOAD_BYTES`; a declared length above that bound
/// is refused whatever the status and the content type. A failed status is answered
/// first, then a content type that is not an image.
pub proof fn lemma_check_response_passes(
    status_is_success: bool,
    content_type: ContentTypeHeader,
    content_length: Option<u64>,
)
    ensures
        spec_check_response(status_is_success, content_type, content_length) is Ok <==> {
            &&& status_is_success
            &&& match content_type {
                ContentTypeHeader::Absent => true,
                ContentTypeHeader::NotText => false,
                ContentTypeHeader::Text(t) => starts_with(trim_start(t@), image_prefix()),
            }
            &&& forall|n: u64| content_length == Some(n) ==> n <= MAX_DOWNLOAD_BYTES
        },
        forall|n: u64|
            content_length == Some(n) && n > MAX_DOWNLOAD_BYTES ==> spec_check_response(
                status_is_success,
                content_type,
                content_length,
            ) is Err,
        !status_is_success ==> spec_check_response(status_is_success, content_type, content_length)
            == Err::<(), FetchError>(FetchError::BadStatus),
        status_is_success && (content_type matches ContentTypeHeader::NotText
            || (content_type matches ContentTypeHeader::Text(t) && !starts_with(trim_start(t@), image_prefix())))
            ==> spec_check_response(status_is_success, content_type, content_length)
            == Err::<(), FetchError>(FetchError::NotAnImage),
{
}

/// Checks the length of a downloaded body: at most `MAX_DOWNLOAD_BYTES`.
pub fn check_body_length(len: usize) -> (res: Result<(), FetchError>)
    ensures
        res is Ok <==> len <= MAX_DOWNLOAD_BYTES,
        res is Err ==> res == Err::<(), FetchError>(FetchError::TooLarge),
{
    if len as u64 > MAX_DOWNLOAD_BYTES {
        Err(FetchError::TooLarge)
    } else {
        Ok(())
    }
}

} // verus!
