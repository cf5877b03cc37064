//! Browser hand-off routes and the closed check of a user-attested official
//! decklist URL; neither makes any network call.
use vstd::prelude::*;

use crate::domain::RepoError;
use crate::text::{
    char_count, contains_control, contains_seq, contains_str, copy_string, has_ctrl, is_blank,
    lower_all, str_eq, to_ascii_lowercase, trim_string, trimmed,
};
use crate::weburl::{append_query_pairs, pairs_view, parse_url, url_parse, url_with_query, UrlParts};

verus! {

pub const OFFICIAL_PLAYER_ROUTE: &'static str = "https://www.mtgo.com/decklists";

pub const MTGTOP8_PLAYER_ROUTE: &'static str = "https://www.mtgtop8.com/search";

pub const MAX_OFFICIAL_URL_CHARS: usize = 2048;

#[derive(Clone, Copy, Debug, PartialEq, Eq, Structural)]
pub enum BrowserRoute {
    OfficialMtgo,
    MtgTop8,
}

impl BrowserRoute {
    pub open spec fn base(self) -> Seq<char> {
        match self {
            BrowserRoute::OfficialMtgo => OFFICIAL_PLAYER_ROUTE@,
            BrowserRoute::MtgTop8 => MTGTOP8_PLAYER_ROUTE@,
        }
    }

    pub open spec fn spec_as_str(self) -> Seq<char> {
        match self {
            BrowserRoute::OfficialMtgo => "official_mtgo_browser"@,
            BrowserRoute::MtgTop8 => "mtg_top8_browser"@,
        }
    }

    /// The search page of the route for a nickname: the route's base URL
    /// with the trimmed nickname as its `player` query parameter.
    pub fn build(&self, nickname: &str) -> (r: Result<String, RepoError>)
        ensures
            trimmed(nickname@).len() == 0 || nickname@.len() > 128 || has_ctrl(nickname@) ==> r
                == Err::<String, RepoError>(RepoError::InvalidRequest),
            !(trimmed(nickname@).len() == 0 || nickname@.len() > 128 || has_ctrl(nickname@))
                ==> match url_with_query(self.base(), seq![("player"@, trimmed(nickname@))]) {
                Some(u) => r matches Ok(s) && s@ == u,
                None => r == Err::<String, RepoError>(RepoError::UnsafeSource),
            },
    {
        if is_blank(nickname) || char_count(nickname) > 128 || contains_control(nickname) {
            return Err(RepoError::InvalidRequest);
        }
        let base = match self {
            BrowserRoute::OfficialMtgo => OFFICIAL_PLAYER_ROUTE,
            BrowserRoute::MtgTop8 => MTGTOP8_PLAYER_ROUTE,
        };
        let mut pairs: Vec<(String, String)> = Vec::new();
        pairs.push((copy_string("player"), trim_string(nickname)));
        proof {
            assert(pairs_view(pairs@) =~= seq![("player"@, trimmed(nickname@))]);
        }
        match append_query_pairs(base, &pairs) {
            Some(url) => Ok(url),
            None => Err(RepoError::UnsafeSource),
        }
    }

    pub fn as_str(&self) -> (r: &'static str)
        ensures
            r@ == self.spec_as_str(),
    {
        match self {
            BrowserRoute::OfficialMtgo => "official_mtgo_browser",
            BrowserRoute::MtgTop8 => "mtg_top8_browser",
        }
    }
}

/// A path with some character other than `/`.
pub open spec fn path_has_segment(path: Seq<char>) -> bool {
    exists|i: int| 0 <= i < path.len() && path[i] != '/'
}

/// An official MTGO decklist page: https on mtgo.com or www.mtgo.com, no
/// port, credentials, query or fragment, and a path that names a deck.
pub open spec fn artifact_url_ok(p: UrlParts) -> bool {
    &&& p.scheme == "https"@
    &&& p.host matches Some(h) && (h == "mtgo.com"@ || h == "www.mtgo.com"@)
    &&& p.port is None
    &&& p.username.len() == 0
    &&& p.password is None
    &&& p.query is None
    &&& p.fragment is None
    &&& path_has_segment(p.path)
    &&& contains_seq(lower_all(p.path), "deck"@)
}

fn has_segment(path: &str) -> (r: bool)
    ensures
        r == path_has_segment(path@),
{
    let v = crate::text::chars_of(path);
    let mut i: usize = 0;
    while i < v.len()
        invariant
            v@ == path@,
            i <= v@.len(),
            forall|k: int| 0 <= k < i ==> path@[k] == '/',
        decreases v.len() - i,
    {
        if v[i] != '/' {
            return true;
        }
        i = i + 1;
    }
    false
}

/// Checks and canonicalizes a user-attested official decklist URL without
/// any DNS, HTTP or browser work; the canonical URL is the parser's
/// serialization.
pub fn validate_official_artifact_url(value: &str) -> (r: Result<String, RepoError>)
    ensures
        value@.len() > MAX_OFFICIAL_URL_CHARS || has_ctrl(value@) ==> r == Err::<String, RepoError>(
            RepoError::UnsafeSource,
        ),
        !(value@.len() > MAX_OFFICIAL_URL_CHARS || has_ctrl(value@)) ==> match url_parse(value@) {
            Some(p) => if artifact_url_ok(p) {
                r matches Ok(s) && s@ == p.serialized
            } else {
                r == Err::<String, RepoError>(RepoError::UnsafeSource)
            },
            None => r == Err::<String, RepoError>(RepoError::UnsafeSource),
        },
{
    if char_count(value) > MAX_OFFICIAL_URL_CHARS || contains_control(value) {
        return Err(RepoError::UnsafeSource);
    }
    let url = match parse_url(value) {
        Some(url) => url,
        None => {
            return Err(RepoError::UnsafeSource);
        },
    };
    let host_ok = match &url.host {
        Some(h) => str_eq(h.as_str(), "mtgo.com") || str_eq(h.as_str(), "www.mtgo.com"),
        None => false,
    };
    let lowered = to_ascii_lowercase(url.path.as_str());
    if !str_eq(url.scheme.as_str(), "https") || !host_ok || url.port.is_some()
        || !url.username.as_str().is_empty() || url.password.is_some() || url.query.is_some()
        || url.fragment.is_some() || !has_segment(url.path.as_str()) || !contains_str(
        lowered.as_str(),
        "deck",
    ) {
        return Err(RepoError::UnsafeSource);
    }
    Ok(url.serialized)
}

} // verus!
