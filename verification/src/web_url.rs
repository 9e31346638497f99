//! The parts of a URL that the library reads, taken from the `url` crate.
use vstd::prelude::*;

use crate::text::{split_chars, split_on, views};

verus! {

/// The components of a parsed URL that the library's logic reads.
#[derive(Clone, Debug, PartialEq, Eq)]
pub struct ParsedUrl {
    /// The whole URL, as the `url` crate serialises it.
    pub serialization: String,
    pub scheme: String,
    pub host: Option<String>,
    /// The path, percent-encoded, as `Url::path` gives it.
    pub path: String,
    /// The query decoded into name/value pairs, in order (`Url::query_pairs`).
    pub query_pairs: Vec<(String, String)>,
}

pub struct ParsedUrlView {
    pub serialization: Seq<char>,
    pub scheme: Seq<char>,
    pub host: Option<Seq<char>>,
    pub path: Seq<char>,
    pub query_pairs: Seq<(Seq<char>, Seq<char>)>,
}

impl View for ParsedUrl {
    type V = ParsedUrlView;

    open spec fn view(&self) -> ParsedUrlView {
        ParsedUrlView {
            serialization: self.serialization@,
            scheme: self.scheme@,
            host: match self.host {
                Some(h) => Some(h@),
                None => None,
            },
            path: self.path@,
            query_pairs: self.query_pairs@.map_values(|p: (String, String)| (p.0@, p.1@)),
        }
    }
}

/// What `url::Url::parse` makes of `input`, read through its accessors, or the text of its
/// parse error.
pub uninterp spec fn url_parse(input: Seq<char>) -> Result<ParsedUrlView, Seq<char>>;

/// Calls `url::Url::parse` and reads the scheme, host, path, query pairs and serialisation of
/// the result, or the error's text (`ParseError`'s `Display`). The contract only ties the
/// result to `url_parse` of the input: the URL standard's parsing is not stated here.
#[verifier::external_body]
pub(crate) fn parse_url(input: &str) -> (r: Result<ParsedUrl, String>)
    ensures
        r matches Ok(u) ==> (url_parse(input@) matches Ok(v) && v == u@),
        r matches Err(e) ==> (url_parse(input@) matches Err(m) && m == e@),
{
    let url = url::Url::parse(input).map_err(|error| error.to_string())?;
    Ok(ParsedUrl {
        serialization: url.as_str().to_string(),
        scheme: url.scheme().to_string(),
        host: url.host_str().map(|host| host.to_string()),
        path: url.path().to_string(),
        query_pairs: url.query_pairs().map(|(k, v)| (k.into_owned(), v.into_owned())).collect(),
    })
}

/// What the `url` crate serialises after parsing `serialization` and setting its scheme to
/// `https` (`None` where parsing or `Url::set_scheme` fails).
pub uninterp spec fn url_https_scheme(serialization: Seq<char>) -> Option<Seq<char>>;

/// Parses `serialization` with `url::Url::parse`, calls `Url::set_scheme("https")` and
/// returns the new serialisation. The contract only names the result.
#[verifier::external_body]
pub(crate) fn url_with_https_scheme(serialization: &str) -> (r: Option<String>)
    ensures
        r matches Some(s) ==> url_https_scheme(serialization@) == Some(s@),
        r is None ==> url_https_scheme(serialization@) is None,
{
    let mut url = url::Url::parse(serialization).ok()?;
    url.set_scheme("https").ok()?;
    Some(url.as_str().to_string())
}

/// What the `url` crate serialises after parsing `serialization` and removing its fragment.
pub uninterp spec fn url_fragment_cleared(serialization: Seq<char>) -> Option<Seq<char>>;

/// Parses `serialization` with `url::Url::parse`, calls `Url::set_fragment(None)` and returns
/// the new serialisation. The contract only names the result.
#[verifier::external_body]
pub(crate) fn url_without_fragment(serialization: &str) -> (r: Option<String>)
    ensures
        r matches Some(s) ==> url_fragment_cleared(serialization@) == Some(s@),
        r is None ==> url_fragment_cleared(serialization@) is None,
{
    let mut url = url::Url::parse(serialization).ok()?;
    url.set_fragment(None);
    Some(url.as_str().to_string())
}

/// `Url::path_segments`: the path after its leading `/`, split at `/`; none for a path that
/// does not start with `/`.
pub open spec fn path_segments(path: Seq<char>) -> Option<Seq<Seq<char>>> {
    if path.len() > 0 && path[0] == '/' {
        Some(split_on(path.drop_first(), '/'))
    } else {
        None
    }
}

/// The segments of a URL path.
pub fn url_path_segments(path: &Vec<char>) -> (r: Option<Vec<Vec<char>>>)
    ensures
        r matches Some(v) ==> path_segments(path@) == Some(views(v@)),
        r is None ==> path_segments(path@) is None,
{
    if path.len() > 0 && path[0] == '/' {
        let rest = crate::text::slice_chars(path, 1, path.len());
        assert(rest@ =~= path@.drop_first());
        Some(split_chars(&rest, '/'))
    } else {
        None
    }
}

} // verus!
