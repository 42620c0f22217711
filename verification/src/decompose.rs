//! The generic URL decomposition that identifier parsing is layered on: a
//! raw string is decomposed into scheme, host, user-info, port and path
//! before any resource-specific validation runs.

use vstd::prelude::*;

verus! {

/// The pieces of a decomposed URI string. The host is empty when the string
/// carries no authority, and the user-info is empty when none is present.
pub struct UrlParts {
    pub scheme: String,
    pub host: String,
    pub user: String,
    pub port: Option<u16>,
    pub path: String,
}

impl View for UrlParts {
    type V = (Seq<char>, Seq<char>, Seq<char>, Option<u16>, Seq<char>);

    open spec fn view(&self) -> (Seq<char>, Seq<char>, Seq<char>, Option<u16>, Seq<char>) {
        (self.scheme@, self.host@, self.user@, self.port, self.path@)
    }
}

/// What the generic URL decomposition returns for a string: its scheme,
/// host, user-info, port and path, or `None` when the string is not a
/// well-formed absolute URI. The result depends on the characters of the
/// string alone.
pub uninterp spec fn url_parts_of(s: Seq<char>) -> Option<
    (Seq<char>, Seq<char>, Seq<char>, Option<u16>, Seq<char>),
>;

/// Relies on `url::Url::parse` and the accessors `scheme`, `host_str`,
/// `username`, `port` and `path` of the parsed value: together they
/// decompose an absolute URI string into plain pieces, and fail exactly on
/// strings that are not well-formed absolute URIs. The parser gives every
/// URL of a special scheme such as `http` a non-empty path starting with a
/// `/` slash; a non-special scheme's path may be empty even beside a host,
/// so nothing is claimed of it.
#[verifier::external_body]
pub(crate) fn url_decompose(raw: &str) -> (r: Option<UrlParts>)
    ensures
        (match r {
            Some(p) => url_parts_of(raw@) == Some(p@),
            None => url_parts_of(raw@) is None,
        }),
        (match r {
            Some(p) => p.scheme@ == "http"@ ==> p.path@.len() > 0 && p.path@[0] == '/',
            None => true,
        }),
{
    match url::Url::parse(raw) {
        Ok(u) => Some(UrlParts {
            scheme: u.scheme().to_string(),
            host: match u.host_str() {
                Some(h) => h.to_string(),
                None => String::new(),
            },
            user: u.username().to_string(),
            port: u.port(),
            path: u.path().to_string(),
        }),
        Err(_) => None,
    }
}

} // verus!
