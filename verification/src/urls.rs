//! URL handling. Parsing, joining and serialising are done by the `url`
//! crate; this module names what it returns and hands the parts that the
//! rest of the library reads over as plain strings.

use vstd::prelude::*;
use vstd::string::StringSliceAdditionalSpecFns;

verus! {

/// The longest URL or path, in bytes, that is handed to the URL rewriting
/// functions. It keeps every rewritten URL far below the four gigabytes that
/// the `url` crate can index.
pub const MAX_URL_BYTES: usize = 0x1000_0000;

/// The parts of an absolute URL that the library reads.
#[derive(Debug, Clone)]
pub struct ParsedUrl {
    /// The scheme, lower-cased, without the colon.
    pub scheme: String,
    /// The host as it is serialised, if the URL has one.
    pub host: Option<String>,
    /// The path; for a URL with a host it begins with `/`.
    pub path: String,
}

/// The mathematical value of a [`ParsedUrl`].
pub struct UrlParts {
    pub scheme: Seq<char>,
    pub host: Option<Seq<char>>,
    pub path: Seq<char>,
}

impl View for ParsedUrl {
    type V = UrlParts;

    open spec fn view(&self) -> UrlParts {
        UrlParts {
            scheme: self.scheme@,
            host: match self.host {
                Some(h) => Some(h@),
                None => None,
            },
            path: self.path@,
        }
    }
}

/// What `url::Url::parse` makes of `input`: the parts of the URL, or the
/// text of the parse error.
pub uninterp spec fn parse_outcome(input: Seq<char>) -> Result<UrlParts, Seq<char>>;

/// What is left of the URL `input` once its query and fragment are removed,
/// serialised; or the text of the parse error.
pub uninterp spec fn stripped_url(input: Seq<char>) -> Result<Seq<char>, Seq<char>>;

/// The URL `input` with its path replaced by `path`, serialised; or the text
/// of the parse error.
pub uninterp spec fn url_with_path(input: Seq<char>, path: Seq<char>) -> Result<
    Seq<char>,
    Seq<char>,
>;

/// The reference `href` resolved against the URL `base`, without its
/// fragment, serialised; `None` where either does not parse.
pub uninterp spec fn resolved_reference(base: Seq<char>, href: Seq<char>) -> Option<Seq<char>>;

/// `input` parses as an absolute URL.
pub open spec fn is_url(input: Seq<char>) -> bool {
    parse_outcome(input) is Ok
}

/// The host of the URL `input`, where it parses and has one.
pub open spec fn host_of(input: Seq<char>) -> Option<Seq<char>> {
    match parse_outcome(input) {
        Ok(parts) => parts.host,
        Err(_) => None,
    }
}

/// Parses `input` with `url::Url::parse` and copies out the scheme
/// (`Url::scheme`), the host (`Url::host_str`) and the path (`Url::path`).
///
/// The contract only names the outcome: it is `parse_outcome` of the input.
/// On failure the error's display text is returned.
#[verifier::external_body]
pub(crate) fn parse_parts(input: &str) -> (r: Result<ParsedUrl, String>)
    ensures
        match r {
            Ok(p) => parse_outcome(input@) == Ok::<UrlParts, Seq<char>>(p@),
            Err(e) => parse_outcome(input@) == Err::<UrlParts, Seq<char>>(e@),
        },
{
    match ::url::Url::parse(input) {
        Ok(u) => Ok(
            ParsedUrl {
                scheme: u.scheme().to_string(),
                host: u.host_str().map(String::from),
                path: u.path().to_string(),
            },
        ),
        Err(e) => Err(e.to_string()),
    }
}

/// Parses `input` with `url::Url::parse`, clears the query with
/// `Url::set_query(None)` and the fragment with `Url::set_fragment(None)`,
/// and serialises the rest.
///
/// The contract names the outcome `stripped_url`, and claims that it is an
/// error exactly when parsing `input` is one, with the same text: clearing a
/// component cannot fail.
#[verifier::external_body]
pub(crate) fn strip_query_and_fragment(input: &str) -> (r: Result<String, String>)
    ensures
        match r {
            Ok(s) => stripped_url(input@) == Ok::<Seq<char>, Seq<char>>(s@),
            Err(e) => stripped_url(input@) == Err::<Seq<char>, Seq<char>>(e@),
        },
        r is Ok <==> is_url(input@),
        r is Err ==> parse_outcome(input@) == Err::<UrlParts, Seq<char>>(r->Err_0@),
{
    match ::url::Url::parse(input) {
        Ok(mut u) => {
            u.set_query(None);
            u.set_fragment(None);
            Ok(u.to_string())
        },
        Err(e) => Err(e.to_string()),
    }
}

/// Parses `input` with `url::Url::parse`, replaces its path with
/// `Url::set_path(path)`, which percent-encodes what the path may not hold,
/// and serialises the result.
///
/// The contract names the outcome `url_with_path`, and claims that it is an
/// error exactly when parsing `input` is one, with the same text. Both
/// arguments are bounded so that the rewritten URL stays within the size
/// that `set_path` can index.
#[verifier::external_body]
pub(crate) fn replace_path(input: &str, path: &str) -> (r: Result<String, String>)
    requires
        input.spec_bytes().len() <= MAX_URL_BYTES,
        path.spec_bytes().len() <= MAX_URL_BYTES,
    ensures
        match r {
            Ok(s) => url_with_path(input@, path@) == Ok::<Seq<char>, Seq<char>>(s@),
            Err(e) => url_with_path(input@, path@) == Err::<Seq<char>, Seq<char>>(e@),
        },
        r is Ok <==> is_url(input@),
        r is Err ==> parse_outcome(input@) == Err::<UrlParts, Seq<char>>(r->Err_0@),
{
    match ::url::Url::parse(input) {
        Ok(mut u) => {
            u.set_path(path);
            Ok(u.to_string())
        },
        Err(e) => Err(e.to_string()),
    }
}

/// Parses `base` with `url::Url::parse`, resolves `href` against it with
/// `Url::join`, clears the fragment with `Url::set_fragment(None)` and
/// serialises the result.
///
/// The contract only names the outcome: it is `resolved_reference` of the
/// two strings.
#[verifier::external_body]
pub(crate) fn join_without_fragment(base: &str, href: &str) -> (r: Option<String>)
    ensures
        match r {
            Some(s) => resolved_reference(base@, href@) == Some(s@),
            None => resolved_reference(base@, href@) is None,
        },
{
    match ::url::Url::parse(base) {
        Ok(b) => match b.join(href) {
            Ok(mut u) => {
                u.set_fragment(None);
                Some(u.to_string())
            },
            Err(_) => None,
        },
        Err(_) => None,
    }
}

impl ParsedUrl {
    /// Parses an absolute URL.
    pub fn parse(input: &str) -> (r: Result<ParsedUrl, String>)
        ensures
            match r {
                Ok(p) => parse_outcome(input@) == Ok::<UrlParts, Seq<char>>(p@),
                Err(e) => parse_outcome(input@) == Err::<UrlParts, Seq<char>>(e@),
            },
    {
        parse_parts(input)
    }
}

} // verus!
