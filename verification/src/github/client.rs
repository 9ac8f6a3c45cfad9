//! The client-side half of the pull-request REST call that this library can
//! stand behind: holding the credentials and reading owner and repository
//! off a remote URL. The HTTP transport lives outside the library.

use vstd::prelude::*;
use vstd::string::StrSliceExecFns;
use vstd::string::StringExecFns;

use crate::strutil::find_char_first;
use crate::strutil::find_sub_first;
use crate::strutil::first_index_of;
use crate::strutil::first_sub_index;
use crate::strutil::is_prefix;
use crate::strutil::lemma_first_index_of;
use crate::strutil::lemma_first_sub_index;
use crate::strutil::starts_with;
use crate::strutil::str_concat;
use crate::strutil::substring;
use crate::strutil::trim_end_char;
use crate::strutil::trim_end_char_spec;
use crate::strutil::trim_end_matches;
use crate::strutil::trim_end_spec;

use super::auth::GitHubAuth;
use super::types::GitHubError;

verus! {

/// Credentials and URL handling for the REST endpoint.
pub struct GitHubClient {
    auth: Option<GitHubAuth>,
}

/// Owner and repository of an SSH remote `git@host:owner/repo`: a host of
/// at least one character up to the first colon, an owner of at least one
/// character up to the next slash, and the rest, which must not be empty.
pub open spec fn ssh_capture(u: Seq<char>) -> Option<(Seq<char>, Seq<char>)> {
    if is_prefix(u, "git@"@) {
        let rest = u.skip("git@"@.len() as int);
        let c = first_index_of(rest, ':');
        if c >= 1 {
            let after = rest.skip(c + 1);
            let s = first_index_of(after, '/');
            if s >= 1 && s + 1 < after.len() {
                Some((after.take(s), after.skip(s + 1)))
            } else {
                None
            }
        } else {
            None
        }
    } else {
        None
    }
}

/// Owner and repository of an HTTPS remote `https://host/owner/repo`: a
/// host of at least one character up to the first slash, an owner of at
/// least one character up to the next slash, and the rest, which must not
/// be empty.
pub open spec fn https_capture(u: Seq<char>) -> Option<(Seq<char>, Seq<char>)> {
    if is_prefix(u, "https://"@) {
        let rest = u.skip("https://"@.len() as int);
        let h = first_index_of(rest, '/');
        if h >= 1 {
            let after = rest.skip(h + 1);
            let s = first_index_of(after, '/');
            if s >= 1 && s + 1 < after.len() {
                Some((after.take(s), after.skip(s + 1)))
            } else {
                None
            }
        } else {
            None
        }
    } else {
        None
    }
}

/// Owner and repository read after the first `github.com` in the URL,
/// however it is reached: a colon or slash, an owner of at least one
/// character up to the next slash, and a repository of at least one
/// character up to the following slash or the end.
pub open spec fn legacy_capture(u: Seq<char>) -> Option<(Seq<char>, Seq<char>)> {
    let g = first_sub_index(u, "github.com"@);
    if g >= 0 {
        let rest = u.skip(g + "github.com"@.len());
        if rest.len() >= 1 && (rest[0] == ':' || rest[0] == '/') {
            let rest2 = rest.skip(1);
            let s = first_index_of(rest2, '/');
            if s >= 1 {
                let after = rest2.skip(s + 1);
                let s2 = first_index_of(after, '/');
                let repo = if s2 == -1 {
                    after
                } else {
                    after.take(s2)
                };
                if repo.len() >= 1 {
                    Some((rest2.take(s), repo))
                } else {
                    None
                }
            } else {
                None
            }
        } else {
            None
        }
    } else {
        None
    }
}

/// What `GitHubClient::parse_github_url` reads off a URL: trailing slashes
/// and `.git` endings are removed, then the SSH shape, the HTTPS shape and
/// the bare `github.com` shape are tried in that order.
pub open spec fn client_parse_spec(url: Seq<char>) -> Option<(Seq<char>, Seq<char>)> {
    let u = trim_end_spec(trim_end_char_spec(url, '/'), ".git"@);
    if ssh_capture(u) is Some {
        ssh_capture(u)
    } else if https_capture(u) is Some {
        https_capture(u)
    } else if legacy_capture(u) is Some {
        legacy_capture(u)
    } else {
        None
    }
}

/// The address a pull request for `owner/repo` is opened at.
pub fn pulls_endpoint(owner: &str, repo: &str) -> (r: String)
    ensures
        r@ == "https://api.github.com/repos/"@ + owner@ + "/"@ + repo@ + "/pulls"@,
{
    let mut s = str_concat("https://api.github.com/repos/", owner);
    s.append("/");
    s.append(repo);
    s.append("/pulls");
    proof {
        assert(s@ =~= "https://api.github.com/repos/"@ + owner@ + "/"@ + repo@ + "/pulls"@);
    }
    s
}

/// The SSH shape, on the already-trimmed URL.
fn try_ssh(u: &str) -> (r: Option<(String, String)>)
    ensures
        match r {
            Some(o) => ssh_capture(u@) == Some((o.0@, o.1@)),
            None => ssh_capture(u@) is None,
        },
{
    let p = "git@";
    if !starts_with(u, p) {
        return None;
    }
    let rest = substring(u, p.unicode_len(), u.unicode_len());
    proof {
        assert(rest@ =~= u@.skip(p@.len() as int));
    }
    let c = match find_char_first(rest.as_str(), ':') {
        Some(c) => c,
        None => {
            return None;
        },
    };
    if c < 1 {
        return None;
    }
    proof {
        lemma_first_index_of(rest@, ':');
    }
    let after = substring(rest.as_str(), c + 1, rest.as_str().unicode_len());
    proof {
        assert(after@ =~= rest@.skip(c + 1));
    }
    let s = match find_char_first(after.as_str(), '/') {
        Some(s) => s,
        None => {
            return None;
        },
    };
    proof {
        lemma_first_index_of(after@, '/');
    }
    let alen = after.as_str().unicode_len();
    if s < 1 || s + 1 >= alen {
        return None;
    }
    let owner = substring(after.as_str(), 0, s);
    let repo = substring(after.as_str(), s + 1, alen);
    proof {
        assert(owner@ =~= after@.take(s as int));
        assert(repo@ =~= after@.skip(s + 1));
    }
    Some((owner, repo))
}

/// The HTTPS shape, on the already-trimmed URL.
fn try_https(u: &str) -> (r: Option<(String, String)>)
    ensures
        match r {
            Some(o) => https_capture(u@) == Some((o.0@, o.1@)),
            None => https_capture(u@) is None,
        },
{
    let p = "https://";
    if !starts_with(u, p) {
        return None;
    }
    let rest = substring(u, p.unicode_len(), u.unicode_len());
    proof {
        assert(rest@ =~= u@.skip(p@.len() as int));
    }
    let h = match find_char_first(rest.as_str(), '/') {
        Some(h) => h,
        None => {
            return None;
        },
    };
    if h < 1 {
        return None;
    }
    proof {
        lemma_first_index_of(rest@, '/');
    }
    let after = substring(rest.as_str(), h + 1, rest.as_str().unicode_len());
    proof {
        assert(after@ =~= rest@.skip(h + 1));
    }
    let s = match find_char_first(after.as_str(), '/') {
        Some(s) => s,
        None => {
            return None;
        },
    };
    proof {
        lemma_first_index_of(after@, '/');
    }
    let alen = after.as_str().unicode_len();
    if s < 1 || s + 1 >= alen {
        return None;
    }
    let owner = substring(after.as_str(), 0, s);
    let repo = substring(after.as_str(), s + 1, alen);
    proof {
        assert(owner@ =~= after@.take(s as int));
        assert(repo@ =~= after@.skip(s + 1));
    }
    Some((owner, repo))
}

/// The bare `github.com` shape, on the already-trimmed URL.
fn try_legacy(u: &str) -> (r: Option<(String, String)>)
    ensures
        match r {
            Some(o) => legacy_capture(u@) == Some((o.0@, o.1@)),
            None => legacy_capture(u@) is None,
        },
{
    let marker = "github.com";
    let g = match find_sub_first(u, marker) {
        Some(g) => g,
        None => {
            return None;
        },
    };
    let mlen = marker.unicode_len();
    let ulen = u.unicode_len();
    proof {
        lemma_first_sub_index(u@, marker@);
        assert(crate::strutil::occurs_at(u@, marker@, g as int));
        assert(g + marker@.len() <= u@.len());
    }
    let rest = substring(u, g + mlen, ulen);
    proof {
        assert(rest@ =~= u@.skip(g + marker@.len()));
    }
    let rlen = rest.as_str().unicode_len();
    if rlen < 1 {
        return None;
    }
    let first = rest.as_str().get_char(0);
    if !(first == ':' || first == '/') {
        return None;
    }
    let rest2 = substring(rest.as_str(), 1, rlen);
    proof {
        assert(rest2@ =~= rest@.skip(1));
    }
    let s = match find_char_first(rest2.as_str(), '/') {
        Some(s) => s,
        None => {
            return None;
        },
    };
    if s < 1 {
        return None;
    }
    proof {
        lemma_first_index_of(rest2@, '/');
    }
    let after = substring(rest2.as_str(), s + 1, rest2.as_str().unicode_len());
    proof {
        assert(after@ =~= rest2@.skip(s + 1));
    }
    let repo = match find_char_first(after.as_str(), '/') {
        Some(s2) => {
            proof {
                lemma_first_index_of(after@, '/');
            }
            let rp = substring(after.as_str(), 0, s2);
            proof {
                assert(rp@ =~= after@.take(s2 as int));
            }
            rp
        },
        None => after,
    };
    if repo.as_str().unicode_len() < 1 {
        return None;
    }
    let owner = substring(rest2.as_str(), 0, s);
    proof {
        assert(owner@ =~= rest2@.take(s as int));
    }
    Some((owner, repo))
}

impl GitHubClient {
    /// The token the client was built with.
    pub closed spec fn token_view(&self) -> Option<Seq<char>> {
        match self.auth {
            Some(a) => Some(a.token_spec()),
            None => None,
        }
    }

    /// A client holding the given token, if one was given.
    pub fn new(token: Option<String>) -> (r: Self)
        ensures
            r.token_view() == token.deep_view(),
    {
        let auth = match token {
            Some(t) => Some(GitHubAuth::new(t)),
            None => None,
        };
        GitHubClient { auth }
    }

    /// The credentials, for whoever performs the call.
    pub fn token(&self) -> (r: Option<&str>)
        ensures
            match r {
                Some(t) => self.token_view() == Some(t@),
                None => self.token_view() is None,
            },
    {
        match &self.auth {
            Some(a) => Some(a.token()),
            None => None,
        }
    }

    /// Reads owner and repository off a remote URL, as `client_parse_spec`
    /// describes; a URL of no recognized shape is reported back, trailing
    /// slashes and `.git` endings removed.
    pub fn parse_github_url(&self, url: &str) -> (r: Result<(String, String), GitHubError>)
        ensures
            match r {
                Ok(o) => client_parse_spec(url@) == Some((o.0@, o.1@)),
                Err(e) => client_parse_spec(url@) is None && (e matches GitHubError::ParseError(m)
                    && m@ == trim_end_spec(trim_end_char_spec(url@, '/'), ".git"@)),
            },
    {
        let no_slash = trim_end_char(url, '/');
        let trimmed = trim_end_matches(no_slash.as_str(), ".git");
        let u = trimmed.as_str();
        if let Some(o) = try_ssh(u) {
            return Ok(o);
        }
        if let Some(o) = try_https(u) {
            return Ok(o);
        }
        if let Some(o) = try_legacy(u) {
            return Ok(o);
        }
        Err(GitHubError::ParseError(trimmed))
    }
}

} // verus!
