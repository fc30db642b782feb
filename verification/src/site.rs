use vstd::prelude::*;
use crate::article::Articles;
use crate::blog::Config;
use crate::error::JetError;

verus! {

/// The URL that `url::Url::parse` reads from a text, in the serialization
/// of the `url` crate; `None` where the text is not a URL.
pub uninterp spec fn spec_url_parse(text: Seq<char>) -> Option<Seq<char>>;

/// Calls `url::Url::parse` and returns the serialization of the URL.
/// Claimed: the result is the one named by `spec_url_parse`.
#[verifier::external_body]
fn url_parse(text: &str) -> (r: Option<String>)
    ensures
        match r {
            Some(u) => spec_url_parse(text@) == Some(u@),
            None => spec_url_parse(text@) is None,
        },
{
    match url::Url::parse(text) {
        Ok(u) => Some(u.into()),
        Err(_) => None,
    }
}

/// The URL that `url::Url::join` makes of the URL that `base` parses to and
/// of `input`, in its serialization; `None` where either call fails.
pub uninterp spec fn spec_url_join(base: Seq<char>, input: Seq<char>) -> Option<Seq<char>>;

/// Parses `base` with `url::Url::parse`, calls `join(input)` on it and
/// returns the serialization of the result.  Claimed: the result is the one
/// named by `spec_url_join`.
#[verifier::external_body]
pub(crate) fn url_join(base: &str, input: &str) -> (r: Option<String>)
    ensures
        match r {
            Some(u) => spec_url_join(base@, input@) == Some(u@),
            None => spec_url_join(base@, input@) is None,
        },
{
    match url::Url::parse(base) {
        Ok(b) => match b.join(input) {
            Ok(u) => Some(u.into()),
            Err(_) => None,
        },
        Err(_) => None,
    }
}

/// The path of the URL that `text` parses to, as `url::Url::path` gives
/// it; `None` where the text is not a URL.
pub uninterp spec fn spec_url_path(text: Seq<char>) -> Option<Seq<char>>;

/// Parses `text` with `url::Url::parse` and returns its `path()`.
/// Claimed: the result is the one named by `spec_url_path`.
#[verifier::external_body]
pub(crate) fn url_path(text: &str) -> (r: Option<String>)
    ensures
        match r {
            Some(p) => spec_url_path(text@) == Some(p@),
            None => spec_url_path(text@) is None,
        },
{
    match url::Url::parse(text) {
        Ok(u) => Some(u.path().to_string()),
        Err(_) => None,
    }
}

/// The settings of a site, with its base URL checked.
pub struct SiteConfig {
    pub title: String,
    /// The base URL as the `url` crate writes it.
    pub base_url: String,
    pub description: String,
}

/// A site: its settings and its articles.
pub struct Site {
    pub config: SiteConfig,
    pub articles: Articles,
}

impl Site {
    /// The site of a configuration and its articles.  Fails with
    /// `InvalidBaseURL` exactly when the base URL is not a URL.
    pub fn new(config: Config, articles: Articles) -> (r: Result<Site, JetError>)
        ensures
            r is Err <==> spec_url_parse(config.base_url@) is None,
            r matches Err(e) ==> e == JetError::InvalidBaseURL,
            r matches Ok(site) ==> {
                &&& site.config.title == config.title
                &&& spec_url_parse(config.base_url@) == Some(site.config.base_url@)
                &&& site.config.description == config.description
                &&& site.articles == articles
            },
    {
        let Config { title, base_url, description } = config;
        match url_parse(base_url.as_str()) {
            None => Err(JetError::InvalidBaseURL),
            Some(base_url) => Ok(Site { config: SiteConfig { title, base_url, description }, articles }),
        }
    }
}

} // verus!
