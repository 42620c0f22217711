//! The identifier abstraction: parsing and validation of the two accepted
//! textual forms, canonicalization between them, segment extraction and
//! formatting.

use vstd::prelude::*;
use vstd::string::StrSliceExecFns;
use vstd::string::StringExecFns;

use crate::decompose::UrlParts;
use crate::decompose::url_decompose;
use crate::decompose::url_parts_of;
use crate::strutil::join_seq;
use crate::strutil::join_str;
use crate::strutil::lemma_join_as_replace;
use crate::strutil::lemma_join_holds_segment;
use crate::strutil::lemma_join_split;
use crate::strutil::lemma_split_segments_no_sep;
use crate::strutil::replace_char;
use crate::strutil::split_seq;
use crate::strutil::split_str;

verus! {

/// The textual form an identifier is in: the compact scheme-qualified form
/// with a `:`-separated path, or the web-addressable form with the fixed
/// authority and a `/`-separated path.
#[derive(Clone, Copy, Debug, PartialEq, Eq, Structural)]
pub enum Form {
    Compact,
    Web,
}

/// Why a string was rejected by [`Uri::parse`].
#[derive(Clone, Copy, Debug, PartialEq, Eq, Structural)]
pub enum ParseError {
    /// The generic URL decomposition could not parse the string at all.
    MalformedSyntax,
    /// The scheme/host pairing is not one of the two accepted ones, or the
    /// path is empty: no identifier may have an empty path.
    UnrecognizedForm,
    /// A user-info component is present.
    UnexpectedUserInfo,
    /// A port component is present.
    UnexpectedPort,
}

/// A validated music-catalog resource identifier, held as its form together
/// with the ordered path segments (typically resource type and opaque id).
/// Holding segments rather than a raw path makes canonicalization a pure
/// change of form and enforces the path invariants structurally.
#[derive(Clone, Debug, PartialEq, Eq)]
pub struct Uri {
    pub form: Form,
    pub segments: Vec<String>,
}

/// The mathematical value of an identifier: its form and its segments.
#[verifier::ext_equal]
pub struct UriView {
    pub form: Form,
    pub segments: Seq<Seq<char>>,
}

impl View for Uri {
    type V = UriView;

    open spec fn view(&self) -> UriView {
        UriView { form: self.form, segments: self.segments.deep_view() }
    }
}

/// The scheme of the compact form.
pub open spec fn compact_scheme() -> Seq<char> {
    "spotify"@
}

/// The scheme of the web form.
pub open spec fn web_scheme() -> Seq<char> {
    "http"@
}

/// The fixed authority of the web form.
pub open spec fn web_host() -> Seq<char> {
    "open.spotify.com"@
}

/// A path with its single leading separator skipped, as the web form
/// requires; the empty path is left as it is.
pub open spec fn skip_lead(path: Seq<char>) -> Seq<char> {
    if path.len() == 0 {
        path
    } else {
        path.skip(1)
    }
}

/// What validation decides for a decomposition: the scheme/host pairing
/// must be one of the two accepted ones, then no user-info and no port may
/// be present, in that order, and last the path must be non-empty, since an
/// identifier's invariant demands a non-empty path. The segments of an
/// accepted identifier are the path split at the form's separator, after
/// skipping the single leading separator in the web form.
pub open spec fn from_parts_spec(
    scheme: Seq<char>,
    host: Seq<char>,
    user: Seq<char>,
    port: Option<u16>,
    path: Seq<char>,
) -> Result<UriView, ParseError> {
    if !((scheme == compact_scheme() && host.len() == 0) || (scheme == web_scheme() && host
        == web_host())) {
        Err(ParseError::UnrecognizedForm)
    } else if user.len() > 0 {
        Err(ParseError::UnexpectedUserInfo)
    } else if port is Some {
        Err(ParseError::UnexpectedPort)
    } else if path.len() == 0 {
        Err(ParseError::UnrecognizedForm)
    } else if host.len() == 0 {
        Ok(UriView { form: Form::Compact, segments: split_seq(path, ':') })
    } else {
        Ok(UriView { form: Form::Web, segments: split_seq(skip_lead(path), '/') })
    }
}

/// What parsing decides for a raw string: a syntax failure of the generic
/// URL decomposition is reported as such, anything else goes through
/// validation of the decomposed pieces.
pub open spec fn parse_spec(s: Seq<char>) -> Result<UriView, ParseError> {
    match url_parts_of(s) {
        None => Err(ParseError::MalformedSyntax),
        Some(p) => from_parts_spec(p.0, p.1, p.2, p.3, p.4),
    }
}

/// The string an identifier renders to: scheme, separator and joined
/// segments of the identifier's form.
pub open spec fn format_spec(v: UriView) -> Seq<char> {
    match v.form {
        Form::Compact => compact_scheme() + seq![':'] + join_seq(v.segments, ':'),
        Form::Web => web_scheme() + seq![':', '/', '/'] + web_host() + seq!['/'] + join_seq(
            v.segments,
            '/',
        ),
    }
}

/// The path of an identifier in its current form: the `:`-joined segments
/// for the compact form, and the `/`-joined segments behind the single
/// leading separator for the web form.
pub open spec fn path_spec(v: UriView) -> Seq<char> {
    match v.form {
        Form::Compact => join_seq(v.segments, ':'),
        Form::Web => seq!['/'] + join_seq(v.segments, '/'),
    }
}

/// The string that decomposition pieces recombine to: scheme and path,
/// with the authority in between when one is present.
pub open spec fn recombine_spec(scheme: Seq<char>, host: Seq<char>, path: Seq<char>) -> Seq<
    char,
> {
    if host.len() == 0 {
        scheme + seq![':'] + path
    } else {
        scheme + seq![':', '/', '/'] + host + path
    }
}

/// Canonicalization to the compact form keeps the segments and sets the
/// form.
pub open spec fn to_compact_spec(v: UriView) -> UriView {
    UriView { form: Form::Compact, segments: v.segments }
}

/// Canonicalization to the web form keeps the segments and sets the form.
pub open spec fn to_web_spec(v: UriView) -> UriView {
    UriView { form: Form::Web, segments: v.segments }
}

/// A parse result seen at the level of identifier values.
pub open spec fn result_view(r: Result<Uri, ParseError>) -> Result<UriView, ParseError> {
    match r {
        Ok(u) => Ok(u@),
        Err(e) => Err(e),
    }
}

/// Whether two strings hold the same characters.
fn str_eq(a: &str, b: &str) -> (r: bool)
    ensures
        r == (a@ == b@),
{
    let sa = String::from_str(a);
    let sb = String::from_str(b);
    sa == sb
}

/// A copy of the segments, element by element.
fn clone_segments(v: &Vec<String>) -> (r: Vec<String>)
    ensures
        r.deep_view() == v.deep_view(),
{
    let mut r: Vec<String> = Vec::new();
    let mut i: usize = 0;
    proof {
        assert(r.deep_view() =~~= v.deep_view().take(0));
    }
    while i < v.len()
        invariant
            i <= v.len(),
            r.deep_view() == v.deep_view().take(i as int),
        decreases v.len() - i,
    {
        let s = v[i].clone();
        let ghost old_r = r;
        r.push(s);
        proof {
            assert(r.deep_view() =~~= old_r.deep_view() + seq![s@]);
            assert(r.deep_view() =~~= v.deep_view().take(i as int + 1));
        }
        i = i + 1;
    }
    proof {
        assert(v.deep_view().take(v.len() as int) =~~= v.deep_view());
    }
    r
}

impl Uri {
    /// Validates decomposed URI pieces and wraps them as an identifier,
    /// exactly as [`from_parts_spec`] decides.
    pub fn from_parts(parts: &UrlParts) -> (r: Result<Uri, ParseError>)
        ensures
            result_view(r) == from_parts_spec(parts@.0, parts@.1, parts@.2, parts@.3, parts@.4),
    {
        let host_empty = parts.host.as_str().is_empty();
        let compact_pair = host_empty && str_eq(parts.scheme.as_str(), "spotify");
        let web_pair = str_eq(parts.scheme.as_str(), "http") && str_eq(
            parts.host.as_str(),
            "open.spotify.com",
        );
        if !(compact_pair || web_pair) {
            Err(ParseError::UnrecognizedForm)
        } else if !parts.user.as_str().is_empty() {
            Err(ParseError::UnexpectedUserInfo)
        } else if parts.port.is_some() {
            Err(ParseError::UnexpectedPort)
        } else if parts.path.as_str().is_empty() {
            Err(ParseError::UnrecognizedForm)
        } else if host_empty {
            Ok(Uri { form: Form::Compact, segments: split_str(parts.path.as_str(), ':') })
        } else {
            let p = parts.path.as_str();
            let n = p.unicode_len();
            let rest = if n >= 1 {
                p.substring_char(1, n)
            } else {
                p
            };
            proof {
                assert(rest@ =~= skip_lead(parts.path@));
            }
            Ok(Uri { form: Form::Web, segments: split_str(rest, '/') })
        }
    }

    /// Parses an identifier in either accepted textual form, exactly as
    /// [`parse_spec`] decides. A successfully parsed identifier formats
    /// back to the string its decomposition recombines to, which is the
    /// parsed string itself whenever that string is canonical.
    pub fn parse(rawuri: &str) -> (r: Result<Uri, ParseError>)
        ensures
            result_view(r) == parse_spec(rawuri@),
            (match r {
                Ok(u) => url_parts_of(rawuri@) matches Some(p) && format_spec(u@)
                    == recombine_spec(p.0, p.1, p.4),
                Err(_) => true,
            }),
    {
        match url_decompose(rawuri) {
            None => Err(ParseError::MalformedSyntax),
            Some(parts) => {
                let r = Uri::from_parts(&parts);
                proof {
                    if r is Ok {
                        if parts@.1.len() > 0 {
                            assert(parts@.0 == web_scheme());
                            assert(parts.scheme@ == "http"@);
                        }
                        lemma_round_trip(
                            parts@.0,
                            parts@.1,
                            parts@.2,
                            parts@.3,
                            parts@.4,
                            r->Ok_0@,
                        );
                    }
                }
                r
            },
        }
    }

    /// Canonicalizes to the compact form: the segments are kept, only the
    /// form changes. An identifier already in compact form comes back as an
    /// equivalent copy.
    pub fn to_uri(&self) -> (r: Uri)
        ensures
            r@ == to_compact_spec(self@),
    {
        Uri { form: Form::Compact, segments: clone_segments(&self.segments) }
    }

    /// Canonicalizes to the web form: the segments are kept, only the form
    /// changes. An identifier already in web form comes back as an
    /// equivalent copy.
    pub fn to_url(&self) -> (r: Uri)
        ensures
            r@ == to_web_spec(self@),
    {
        Uri { form: Form::Web, segments: clone_segments(&self.segments) }
    }

    /// The ordered path segments, regardless of the identifier's form.
    pub fn components<'a>(&'a self) -> (r: Vec<&'a str>)
        ensures
            r.deep_view() == self@.segments,
    {
        let mut r: Vec<&str> = Vec::new();
        let mut i: usize = 0;
        proof {
            assert(r.deep_view() =~~= self.segments.deep_view().take(0));
        }
        while i < self.segments.len()
            invariant
                i <= self.segments.len(),
                r.deep_view() == self.segments.deep_view().take(i as int),
            decreases self.segments.len() - i,
        {
            let s = self.segments[i].as_str();
            let ghost old_r = r;
            r.push(s);
            proof {
                assert(r.deep_view() =~~= old_r.deep_view() + seq![s@]);
                assert(r.deep_view() =~~= self.segments.deep_view().take(i as int + 1));
            }
            i = i + 1;
        }
        proof {
            assert(self.segments.deep_view().take(self.segments.len() as int)
                =~~= self.segments.deep_view());
        }
        r
    }

    /// Renders the identifier in the canonical notation of its form:
    /// `spotify:` followed by the `:`-joined segments, or
    /// `http://open.spotify.com/` followed by the `/`-joined segments.
    pub fn format(&self) -> (r: String)
        ensures
            r@ == format_spec(self@),
    {
        match self.form {
            Form::Compact => {
                proof {
                    reveal_strlit(":");
                    assert(":"@ =~= seq![':']);
                }
                let mut r = String::from_str("spotify");
                r.append(":");
                let joined = join_str(&self.segments, ":");
                r.append(joined.as_str());
                proof {
                    assert(r@ =~= format_spec(self@));
                }
                r
            },
            Form::Web => {
                proof {
                    reveal_strlit("://");
                    reveal_strlit("/");
                    assert("://"@ =~= seq![':', '/', '/']);
                    assert("/"@ =~= seq!['/']);
                }
                let mut r = String::from_str("http");
                r.append("://");
                r.append("open.spotify.com");
                r.append("/");
                let joined = join_str(&self.segments, "/");
                r.append(joined.as_str());
                proof {
                    assert(r@ =~= format_spec(self@));
                }
                r
            },
        }
    }
}

impl core::str::FromStr for Uri {
    type Err = ParseError;

    fn from_str(s: &str) -> Result<Uri, ParseError> {
        Uri::parse(s)
    }
}

/// Round trip: decomposition pieces that validate successfully format back
/// to exactly the string the pieces recombine to. Together with the parse
/// contract this says that formatting undoes parsing on every accepted
/// string the decomposition does not rewrite.
pub proof fn lemma_round_trip(
    scheme: Seq<char>,
    host: Seq<char>,
    user: Seq<char>,
    port: Option<u16>,
    path: Seq<char>,
    v: UriView,
)
    requires
        host.len() > 0 ==> path.len() > 0 && path[0] == '/',
        from_parts_spec(scheme, host, user, port, path) == Ok::<UriView, ParseError>(v),
    ensures
        format_spec(v) == recombine_spec(scheme, host, path),
{
    reveal_strlit("open.spotify.com");
    if host.len() == 0 {
        assert(scheme == compact_scheme());
        lemma_join_split(path, ':');
        assert(format_spec(v) =~= recombine_spec(scheme, host, path));
    } else {
        assert(scheme == web_scheme() && host == web_host());
        lemma_join_split(path.skip(1), '/');
        assert(path =~= seq!['/'] + path.skip(1));
        assert(format_spec(v) =~= recombine_spec(scheme, host, path));
    }
}

/// Canonicalization to the compact form is idempotent: applying it twice
/// yields what applying it once yields.
pub proof fn lemma_to_compact_idempotent(v: UriView)
    ensures
        to_compact_spec(to_compact_spec(v)) == to_compact_spec(v),
{
}

/// Canonicalization to the web form is idempotent: applying it twice yields
/// what applying it once yields.
pub proof fn lemma_to_web_idempotent(v: UriView)
    ensures
        to_web_spec(to_web_spec(v)) == to_web_spec(v),
{
}

/// Cross-form equivalence: for one identifier, the compact form and the web
/// form expose the same segments.
pub proof fn lemma_cross_form_equivalence(v: UriView)
    ensures
        to_compact_spec(v).segments == to_web_spec(v).segments,
{
}

/// Converting to the web form rewrites the path: for an identifier none of
/// whose segments holds the compact separator — as holds for every
/// identifier whose segments were split out of a compact path — the web
/// form's path is the compact form's path with every `:` replaced by `/`.
pub proof fn lemma_to_web_rewrites_path(v: UriView)
    requires
        forall|i: int| 0 <= i < v.segments.len() ==> !(#[trigger] v.segments[i]).contains(':'),
    ensures
        join_seq(to_web_spec(v).segments, '/') == replace_char(
            join_seq(to_compact_spec(v).segments, ':'),
            ':',
            '/',
        ),
{
    lemma_join_as_replace(v.segments, ':', '/');
}

/// Converting to the compact form rewrites the path: for an identifier none
/// of whose segments holds the web separator — as holds for every
/// identifier whose segments were split out of a web path — the compact
/// form's path is the web form's path with every `/` replaced by `:`.
pub proof fn lemma_to_compact_rewrites_path(v: UriView)
    requires
        forall|i: int| 0 <= i < v.segments.len() ==> !(#[trigger] v.segments[i]).contains('/'),
    ensures
        join_seq(to_compact_spec(v).segments, ':') == replace_char(
            join_seq(to_web_spec(v).segments, '/'),
            '/',
            ':',
        ),
{
    lemma_join_as_replace(v.segments, '/', ':');
}

/// Every identifier that validation accepts satisfies the data-model
/// invariant: its form carries the matching accepted scheme/host pairing,
/// no user-info and no port are present, and both the decomposed path and
/// the identifier's own path are non-empty.
pub proof fn lemma_validated_invariant(
    scheme: Seq<char>,
    host: Seq<char>,
    user: Seq<char>,
    port: Option<u16>,
    path: Seq<char>,
    v: UriView,
)
    requires
        from_parts_spec(scheme, host, user, port, path) == Ok::<UriView, ParseError>(v),
    ensures
        user.len() == 0,
        port is None,
        v.form == Form::Compact ==> scheme == compact_scheme() && host.len() == 0,
        v.form == Form::Web ==> scheme == web_scheme() && host == web_host(),
        path.len() > 0,
        path_spec(v).len() > 0,
{
    reveal_strlit("open.spotify.com");
    if host.len() == 0 {
        lemma_join_split(path, ':');
    }
}

/// Canonicalization to the web form always yields a non-empty path: the
/// web form's path carries its single leading separator.
pub proof fn lemma_to_web_preserves_path_nonempty(v: UriView)
    ensures
        path_spec(to_web_spec(v)).len() > 0,
{
}

/// Canonicalization to the compact form yields a non-empty path for every
/// identifier one of whose segments is non-empty. The one identifier it
/// cannot hold of is the web form's bare `/` path, whose single segment is
/// empty.
pub proof fn lemma_to_compact_preserves_path_nonempty(v: UriView)
    requires
        exists|i: int| 0 <= i < v.segments.len() && (#[trigger] v.segments[i]).len() > 0,
    ensures
        path_spec(to_compact_spec(v)).len() > 0,
{
    let i = choose|i: int| 0 <= i < v.segments.len() && (#[trigger] v.segments[i]).len() > 0;
    lemma_join_holds_segment(v.segments, ':', i);
}

/// For an identifier validated out of a compact-form decomposition, the
/// web form's path is the compact path with every `:` replaced by `/`.
pub proof fn lemma_validated_compact_rewrites(
    scheme: Seq<char>,
    host: Seq<char>,
    user: Seq<char>,
    port: Option<u16>,
    path: Seq<char>,
    v: UriView,
)
    requires
        host.len() == 0,
        from_parts_spec(scheme, host, user, port, path) == Ok::<UriView, ParseError>(v),
    ensures
        join_seq(to_web_spec(v).segments, '/') == replace_char(path, ':', '/'),
{
    lemma_split_segments_no_sep(path, ':');
    lemma_to_web_rewrites_path(v);
    lemma_join_split(path, ':');
}

/// For an identifier validated out of a web-form decomposition, the compact
/// form's path is the web path, after its single leading separator, with
/// every `/` replaced by `:`.
pub proof fn lemma_validated_web_rewrites(
    scheme: Seq<char>,
    host: Seq<char>,
    user: Seq<char>,
    port: Option<u16>,
    path: Seq<char>,
    v: UriView,
)
    requires
        host.len() > 0,
        from_parts_spec(scheme, host, user, port, path) == Ok::<UriView, ParseError>(v),
    ensures
        join_seq(to_compact_spec(v).segments, ':') == replace_char(skip_lead(path), '/', ':'),
{
    lemma_split_segments_no_sep(skip_lead(path), '/');
    lemma_to_compact_rewrites_path(v);
    lemma_join_split(skip_lead(path), '/');
}

/// The two canonicalizations are mutual inverses on the reachable values:
/// converting to the web form and back yields the compact form directly,
/// and the other way round.
pub proof fn lemma_canonicalizations_inverse(v: UriView)
    ensures
        to_compact_spec(to_web_spec(v)) == to_compact_spec(v),
        to_web_spec(to_compact_spec(v)) == to_web_spec(v),
{
}

} // verus!
