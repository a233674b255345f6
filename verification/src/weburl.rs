//! What the library reads of URLs, computed by the `url` crate.
//!
//! A parsed URL is carried as its serialization; each operation parses that
//! serialization again, so every result here is a function of plain strings.

use vstd::prelude::*;

verus! {

/// The parts of a parsed URL that the library reads.
#[derive(Clone, Debug)]
pub struct ParsedUrl {
    /// `Url::as_str`: the URL's serialization.
    pub serialization: String,
    /// `Url::host_str`.
    pub host: Option<String>,
    /// `Url::path`.
    pub path: String,
}

/// The mathematical content of a `ParsedUrl`.
pub struct ParsedUrlView {
    pub serialization: Seq<char>,
    pub host: Option<Seq<char>>,
    pub path: Seq<char>,
}

/// The view of an optional string.
pub open spec fn opt_view(o: Option<String>) -> Option<Seq<char>> {
    match o {
        Some(s) => Some(s@),
        None => None,
    }
}

impl View for ParsedUrl {
    type V = ParsedUrlView;

    open spec fn view(&self) -> ParsedUrlView {
        ParsedUrlView { serialization: self.serialization@, host: opt_view(self.host), path: self.path@ }
    }
}

/// The views of a list of string pairs.
pub open spec fn pair_views(v: Seq<(String, String)>) -> Seq<(Seq<char>, Seq<char>)> {
    v.map_values(|p: (String, String)| (p.0@, p.1@))
}

/// What `url::Url::parse` makes of a string.
pub uninterp spec fn url_parse_result(input: Seq<char>) -> Result<ParsedUrlView, Seq<char>>;

/// The serialization of a URL after `Url::set_path`.
pub uninterp spec fn url_path_replaced(url: Seq<char>, path: Seq<char>) -> Result<Seq<char>, Seq<char>>;

/// The serialization of `Url::join`.
pub uninterp spec fn url_joined(base: Seq<char>, input: Seq<char>) -> Result<Seq<char>, Seq<char>>;

/// The serialization after appending pairs with `query_pairs_mut().extend_pairs`.
pub uninterp spec fn url_pairs_appended(
    url: Seq<char>,
    pairs: Seq<(Seq<char>, Seq<char>)>,
) -> Result<Seq<char>, Seq<char>>;

/// The decoded `Url::query_pairs` of a URL.
pub uninterp spec fn url_query_pairs(url: Seq<char>) -> Result<Seq<(Seq<char>, Seq<char>)>, Seq<char>>;

/// Calls `url::Url::parse` and reads `as_str`, `host_str` and `path` of the result.
/// Claims only that the outcome is `url_parse_result` of the input.
#[verifier::external_body]
pub(crate) fn parse_url(input: &str) -> (r: Result<ParsedUrl, String>)
    ensures
        match r {
            Ok(u) => url_parse_result(input@) == Ok::<ParsedUrlView, Seq<char>>(u@),
            Err(e) => url_parse_result(input@) == Err::<ParsedUrlView, Seq<char>>(e@),
        },
{
    match url::Url::parse(input) {
        Ok(u) => Ok(ParsedUrl {
            serialization: u.as_str().to_string(),
            host: u.host_str().map(|h| h.to_string()),
            path: u.path().to_string(),
        }),
        Err(e) => Err(e.to_string()),
    }
}

/// Parses `url` with `url::Url::parse` and calls `Url::set_path` on it.
/// Claims only that the outcome is `url_path_replaced` of the arguments.
#[verifier::external_body]
pub(crate) fn url_set_path(url: &str, path: &str) -> (r: Result<String, String>)
    ensures
        match r {
            Ok(s) => url_path_replaced(url@, path@) == Ok::<Seq<char>, Seq<char>>(s@),
            Err(e) => url_path_replaced(url@, path@) == Err::<Seq<char>, Seq<char>>(e@),
        },
{
    let mut u = url::Url::parse(url).map_err(|e| e.to_string())?;
    u.set_path(path);
    Ok(u.as_str().to_string())
}

/// Parses `base` with `url::Url::parse` and resolves `input` against it with `Url::join`.
/// Claims only that the outcome is `url_joined` of the arguments.
#[verifier::external_body]
pub(crate) fn url_join(base: &str, input: &str) -> (r: Result<String, String>)
    ensures
        match r {
            Ok(s) => url_joined(base@, input@) == Ok::<Seq<char>, Seq<char>>(s@),
            Err(e) => url_joined(base@, input@) == Err::<Seq<char>, Seq<char>>(e@),
        },
{
    let u = url::Url::parse(base).map_err(|e| e.to_string())?;
    let j = u.join(input).map_err(|e| e.to_string())?;
    Ok(j.as_str().to_string())
}

/// Parses `url` and appends the pairs, in order, with
/// `query_pairs_mut().extend_pairs` (form-urlencoded).
/// Claims only that the outcome is `url_pairs_appended` of the arguments.
#[verifier::external_body]
pub(crate) fn url_append_pairs(url: &str, pairs: &Vec<(String, String)>) -> (r: Result<String, String>)
    ensures
        match r {
            Ok(s) => url_pairs_appended(url@, pair_views(pairs@)) == Ok::<Seq<char>, Seq<char>>(s@),
            Err(e) => url_pairs_appended(url@, pair_views(pairs@)) == Err::<Seq<char>, Seq<char>>(e@),
        },
{
    let mut u = url::Url::parse(url).map_err(|e| e.to_string())?;
    u.query_pairs_mut().extend_pairs(pairs.iter().map(|(k, v)| (k.as_str(), v.as_str())));
    Ok(u.as_str().to_string())
}

/// Parses `url` and collects its decoded `Url::query_pairs`, in order.
/// Claims only that the outcome is `url_query_pairs` of the argument.
#[verifier::external_body]
pub(crate) fn query_pairs_of(url: &str) -> (r: Result<Vec<(String, String)>, String>)
    ensures
        match r {
            Ok(v) => url_query_pairs(url@) == Ok::<Seq<(Seq<char>, Seq<char>)>, Seq<char>>(pair_views(v@)),
            Err(e) => url_query_pairs(url@) == Err::<Seq<(Seq<char>, Seq<char>)>, Seq<char>>(e@),
        },
{
    let u = url::Url::parse(url).map_err(|e| e.to_string())?;
    Ok(u.query_pairs().map(|(k, v)| (k.into_owned(), v.into_owned())).collect())
}

} // verus!
