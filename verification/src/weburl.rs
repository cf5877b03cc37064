//! The parts of a URL that source validation reads, as the `url` crate
//! parses them.
use vstd::prelude::*;

verus! {

/// The components of a parsed URL, as text.
pub struct UrlParts {
    pub scheme: Seq<char>,
    pub host: Option<Seq<char>>,
    pub username: Seq<char>,
    pub password: Option<Seq<char>>,
    pub port: Option<u16>,
    pub path: Seq<char>,
    pub query: Option<Seq<char>>,
    pub fragment: Option<Seq<char>>,
    pub serialized: Seq<char>,
}

/// A parsed URL held as plain strings.
#[derive(Debug, PartialEq, Eq)]
pub struct ParsedUrl {
    pub scheme: String,
    pub host: Option<String>,
    pub username: String,
    pub password: Option<String>,
    pub port: Option<u16>,
    pub path: String,
    pub query: Option<String>,
    pub fragment: Option<String>,
    pub serialized: String,
}

pub open spec fn opt_str(o: Option<String>) -> Option<Seq<char>> {
    match o {
        Some(s) => Some(s@),
        None => None,
    }
}

impl View for ParsedUrl {
    type V = UrlParts;

    open spec fn view(&self) -> UrlParts {
        UrlParts {
            scheme: self.scheme@,
            host: opt_str(self.host),
            username: self.username@,
            password: opt_str(self.password),
            port: self.port,
            path: self.path@,
            query: opt_str(self.query),
            fragment: opt_str(self.fragment),
            serialized: self.serialized@,
        }
    }
}

/// What `url::Url::parse` makes of `input` (`None` when it refuses it).
pub uninterp spec fn url_parse(input: Seq<char>) -> Option<UrlParts>;

/// The serialization of `url::Url::parse(base)` after
/// `query_pairs_mut().append_pair(name, value)` for each pair in order
/// (`None` when `base` does not parse).
pub uninterp spec fn url_with_query(base: Seq<char>, pairs: Seq<(Seq<char>, Seq<char>)>) -> Option<Seq<char>>;

/// `url::Url::parse` and the accessors `scheme`, `host_str`, `username`,
/// `password`, `port`, `path`, `query`, `fragment` and `as_str` of its
/// result. The parse is a function of the input alone.
#[verifier::external_body]
pub(crate) fn parse_url(input: &str) -> (r: Option<ParsedUrl>)
    ensures
        match r {
            Some(u) => url_parse(input@) == Some(u@),
            None => url_parse(input@) is None,
        },
{
    let url = url::Url::parse(input).ok()?;
    Some(ParsedUrl {
        scheme: url.scheme().to_owned(),
        host: url.host_str().map(str::to_owned),
        username: url.username().to_owned(),
        password: url.password().map(str::to_owned),
        port: url.port(),
        path: url.path().to_owned(),
        query: url.query().map(str::to_owned),
        fragment: url.fragment().map(str::to_owned),
        serialized: url.as_str().to_owned(),
    })
}

pub open spec fn pairs_view(pairs: Seq<(String, String)>) -> Seq<(Seq<char>, Seq<char>)> {
    pairs.map_values(|p: (String, String)| (p.0@, p.1@))
}

/// `url::Url::parse(base)`, then `query_pairs_mut().append_pair` for each
/// pair in order, then the serialized URL.
#[verifier::external_body]
pub(crate) fn append_query_pairs(base: &str, pairs: &Vec<(String, String)>) -> (r: Option<String>)
    ensures
        match r {
            Some(s) => url_with_query(base@, pairs_view(pairs@)) == Some(s@),
            None => url_with_query(base@, pairs_view(pairs@)) is None,
        },
{
    let mut url = url::Url::parse(base).ok()?;
    {
        let mut serializer = url.query_pairs_mut();
        for (name, value) in pairs {
            serializer.append_pair(name, value);
        }
    }
    Some(url.as_str().to_owned())
}

} // verus!
