//! The pull-request workflow's decisions: which branch name, commit message
//! and base branch a run uses, and how a remote URL yields the owner and
//! repository the REST call addresses.

use vstd::prelude::*;
use vstd::string::StrSliceExecFns;
use vstd::string::StringExecFns;

use crate::strutil::find_char;
use crate::strutil::first_index_of;
use crate::strutil::is_prefix;
use crate::strutil::lemma_first_index_of;
use crate::strutil::split_char;
use crate::strutil::split_spec;
use crate::strutil::starts_with;
use crate::strutil::str_concat;
use crate::strutil::substring;
use crate::strutil::trim_end_matches;
use crate::strutil::trim_end_spec;

use super::types::GitHubError;
use super::types::PrOptions;

verus! {

/// Owner and repository read off a remote URL, or nothing. Four shapes are
/// recognized, tried in this order on the URL with any `.git` endings
/// removed: an SSH remote on github.com (`git@github.com:owner/repo`,
/// exactly two segments); an HTTPS remote on github.com
/// (`https://github.com/owner/repo`, the first two segments); an SSH remote
/// on any host (`git@host:owner/repo`, exactly two segments); an HTTPS
/// remote on any host (`https://host/owner/repo`, the first two segments
/// after the host).
pub open spec fn parse_github_url_spec(url: Seq<char>) -> Option<(Seq<char>, Seq<char>)> {
    let u = trim_end_spec(url, ".git"@);
    if is_prefix(u, "git@github.com:"@) {
        let parts = split_spec(u.skip("git@github.com:"@.len() as int), '/');
        if parts.len() == 2 {
            Some((parts[0], parts[1]))
        } else {
            None
        }
    } else if is_prefix(u, "https://github.com/"@) {
        let parts = split_spec(u.skip("https://github.com/"@.len() as int), '/');
        if parts.len() >= 2 {
            Some((parts[0], parts[1]))
        } else {
            None
        }
    } else if is_prefix(u, "git@"@) && first_index_of(u, ':') >= 0 {
        let parts = split_spec(u.skip(first_index_of(u, ':') + 1), '/');
        if parts.len() == 2 {
            Some((parts[0], parts[1]))
        } else {
            None
        }
    } else if is_prefix(u, "https://"@) {
        let after = u.skip("https://"@.len() as int);
        let si = first_index_of(after, '/');
        if si >= 0 {
            let parts = split_spec(after.skip(si + 1), '/');
            if parts.len() >= 2 {
                Some((parts[0], parts[1]))
            } else {
                None
            }
        } else {
            None
        }
    } else {
        None
    }
}

/// Whether `s` holds a colon anywhere; agrees with `first_index_of`.
fn has_colon(s: &str) -> (r: bool)
    ensures
        r == (first_index_of(s@, ':') >= 0),
{
    proof {
        lemma_first_index_of(s@, ':');
    }
    match find_char(s, ':') {
        Some(ci) => {
            proof {
                let fi = first_index_of(s@, ':');
                if fi == -1 {
                    assert(s@[ci as int] != ':');
                }
            }
            true
        },
        None => {
            proof {
                let fi = first_index_of(s@, ':');
                if fi >= 0 {
                    assert(s@[fi] == ':');
                }
            }
            false
        },
    }
}

/// Reads owner and repository off a remote URL, as `parse_github_url_spec`
/// describes; a URL of no recognized shape is reported back, `.git` endings
/// removed.
pub fn parse_github_url(url: &str) -> (r: Result<(String, String), GitHubError>)
    ensures
        match r {
            Ok(o) => parse_github_url_spec(url@) == Some((o.0@, o.1@)),
            Err(e) => parse_github_url_spec(url@) is None && (e matches GitHubError::ParseError(m)
                && m@ == trim_end_spec(url@, ".git"@)),
        },
{
    let trimmed = trim_end_matches(url, ".git");
    let u = trimmed.as_str();
    let ulen = u.unicode_len();

    let ssh_github = "git@github.com:";
    let https_github = "https://github.com/";
    let ssh_any = "git@";
    let https_any = "https://";

    if starts_with(u, ssh_github) {
        let rest = substring(u, ssh_github.unicode_len(), ulen);
        proof {
            assert(rest@ =~= u@.skip(ssh_github@.len() as int));
        }
        let parts = split_char(rest.as_str(), '/');
        if parts.len() == 2 {
            Ok((parts[0].clone(), parts[1].clone()))
        } else {
            Err(GitHubError::ParseError(trimmed))
        }
    } else if starts_with(u, https_github) {
        let rest = substring(u, https_github.unicode_len(), ulen);
        proof {
            assert(rest@ =~= u@.skip(https_github@.len() as int));
        }
        let parts = split_char(rest.as_str(), '/');
        if parts.len() >= 2 {
            Ok((parts[0].clone(), parts[1].clone()))
        } else {
            Err(GitHubError::ParseError(trimmed))
        }
    } else if starts_with(u, ssh_any) && has_colon(u) {
        let ci = match find_char(u, ':') {
            Some(ci) => ci,
            None => {
                proof {
                    lemma_first_index_of(u@, ':');
                    let fi = first_index_of(u@, ':');
                    assert(u@[fi] == ':');
                    assert(false);
                }
                0
            },
        };
        proof {
            lemma_first_index_of(u@, ':');
            let fi = first_index_of(u@, ':');
            assert(fi == ci as int) by {
                if fi == -1 {
                    assert(u@[ci as int] != ':');
                } else if fi < ci {
                    assert(u@[fi] != ':');
                } else if fi > ci {
                    assert(u@[ci as int] != ':');
                }
            }
        }
        let rest = substring(u, ci + 1, ulen);
        proof {
            assert(rest@ =~= u@.skip(ci + 1));
        }
        let parts = split_char(rest.as_str(), '/');
        if parts.len() == 2 {
            Ok((parts[0].clone(), parts[1].clone()))
        } else {
            Err(GitHubError::ParseError(trimmed))
        }
    } else if starts_with(u, https_any) {
        let rest = substring(u, https_any.unicode_len(), ulen);
        proof {
            assert(rest@ =~= u@.skip(https_any@.len() as int));
        }
        match find_char(rest.as_str(), '/') {
            Some(si) => {
                proof {
                    lemma_first_index_of(rest@, '/');
                    let fi = first_index_of(rest@, '/');
                    assert(fi == si as int) by {
                        if fi == -1 {
                            assert(rest@[si as int] != '/');
                        } else if fi < si {
                            assert(rest@[fi] != '/');
                        } else if fi > si {
                            assert(rest@[si as int] != '/');
                        }
                    }
                }
                let path = substring(rest.as_str(), si + 1, rest.as_str().unicode_len());
                proof {
                    assert(path@ =~= rest@.skip(si + 1));
                }
                let parts = split_char(path.as_str(), '/');
                if parts.len() >= 2 {
                    Ok((parts[0].clone(), parts[1].clone()))
                } else {
                    Err(GitHubError::ParseError(trimmed))
                }
            },
            None => {
                proof {
                    lemma_first_index_of(rest@, '/');
                    let fi = first_index_of(rest@, '/');
                    if fi >= 0 {
                        assert(rest@[fi] == '/');
                    }
                }
                Err(GitHubError::ParseError(trimmed))
            },
        }
    } else {
        Err(GitHubError::ParseError(trimmed))
    }
}

/// How one repository's pull-request workflow proceeds, decided up front.
pub enum PrPlan {
    /// Nothing uncommitted: report that and stop; not a failure.
    NoChanges,
    /// Branch, stage, commit, and — when `push_and_create` — push and open
    /// the pull request.
    Proceed { branch_name: String, commit_message: String, push_and_create: bool },
}

/// Relies on uuid::Uuid::new_v4 and uuid's simple format: the value is
/// random, and its rendering is exactly 32 hexadecimal digits, lowercase.
/// uuid panics if the operating system's random source fails; that hangs
/// on the machine, not on any input.
#[verifier::external_body]
fn random_uuid_simple() -> (r: String)
    ensures
        r@.len() == 32,
        forall|i: int| 0 <= i < r@.len() ==> is_lower_hex_char(#[trigger] r@[i]),
{
    uuid::Uuid::new_v4().simple().to_string()
}

/// A lowercase hexadecimal digit.
pub open spec fn is_lower_hex_char(c: char) -> bool {
    (('0' as int) <= (c as int) && (c as int) <= ('9' as int)) || (('a' as int) <= (c as int) && (c
        as int) <= ('f' as int))
}

/// The decisions of the pull-request workflow for one repository, given
/// whether it has uncommitted changes: the branch name (the requested one,
/// or a fresh `automated-changes-` name with a six-character random
/// suffix), the commit message (the requested one, or the title), and
/// whether the branch is pushed and the pull request opened.
pub fn create_pull_request_plan(options: &PrOptions, has_changes: bool) -> (r: PrPlan)
    ensures
        !has_changes ==> r is NoChanges,
        has_changes ==> (r matches PrPlan::Proceed { branch_name, commit_message, push_and_create }
            && {
            &&& match options.branch_name {
                Some(b) => branch_name@ == b@,
                None => branch_name@.len() == "automated-changes-"@.len() + 6 && is_prefix(
                    branch_name@,
                    "automated-changes-"@,
                ),
            }
            &&& commit_message@ == match options.commit_msg {
                Some(m) => m@,
                None => options.title@,
            }
            &&& push_and_create == !options.create_only
        }),
{
    if !has_changes {
        return PrPlan::NoChanges;
    }
    let branch_name = match &options.branch_name {
        Some(b) => b.clone(),
        None => {
            let u = random_uuid_simple();
            let suffix = substring(u.as_str(), 0, 6);
            let name = str_concat("automated-changes-", suffix.as_str());
            proof {
                assert(name@.subrange(0, "automated-changes-"@.len() as int) =~= (
                "automated-changes-"@));
            }
            name
        },
    };
    let commit_message = match &options.commit_msg {
        Some(m) => m.clone(),
        None => options.title.clone(),
    };
    PrPlan::Proceed { branch_name, commit_message, push_and_create: !options.create_only }
}

/// The branch a pull request targets: the requested one, or `main`.
pub fn resolve_base_branch(options: &PrOptions) -> (r: String)
    ensures
        r@ == match options.base_branch {
            Some(b) => b@,
            None => "main"@,
        },
{
    match &options.base_branch {
        Some(b) => b.clone(),
        None => String::from_str("main"),
    }
}

} // verus!
