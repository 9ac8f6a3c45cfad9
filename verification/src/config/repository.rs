//! One repository declaration and its derived values: tag membership, URL
//! shape, validation, and resolution of the directory it is cloned into.

use vstd::prelude::*;
use vstd::string::StrSliceExecFns;
use vstd::string::StringExecFns;

use crate::strutil::is_prefix;
use crate::strutil::starts_with;
use crate::strutil::str_concat;
use crate::strutil::str_eq;

verus! {

/// A repository declaration from the catalog. `config_dir` is the directory
/// of the catalog file it was loaded from; it is not part of the
/// repository's identity and only serves to resolve relative paths.
pub struct Repository {
    pub name: String,
    pub url: String,
    pub tags: Vec<String>,
    pub path: Option<String>,
    pub branch: Option<String>,
    pub config_dir: Option<String>,
}

/// The mathematical value of a `Repository`: every field as a sequence of
/// characters.
#[verifier::ext_equal]
pub struct RepoView {
    pub name: Seq<char>,
    pub url: Seq<char>,
    pub tags: Seq<Seq<char>>,
    pub path: Option<Seq<char>>,
    pub branch: Option<Seq<char>>,
    pub config_dir: Option<Seq<char>>,
}

impl View for Repository {
    type V = RepoView;

    open spec fn view(&self) -> RepoView {
        RepoView {
            name: self.name@,
            url: self.url@,
            tags: self.tags.deep_view(),
            path: self.path.deep_view(),
            branch: self.branch.deep_view(),
            config_dir: self.config_dir.deep_view(),
        }
    }
}

impl DeepView for Repository {
    type V = RepoView;

    open spec fn deep_view(&self) -> RepoView {
        self.view()
    }
}

/// A URL of a recognized shape: an SSH remote or an HTTP(S) one.
pub open spec fn url_shape_ok(url: Seq<char>) -> bool {
    ||| is_prefix(url, "git@"@)
    ||| is_prefix(url, "https://"@)
    ||| is_prefix(url, "http://"@)
}

/// Why a single repository declaration is rejected.
#[derive(Debug)]
pub enum RepositoryError {
    EmptyName,
    EmptyUrl,
    InvalidUrl,
}

/// `true` exactly when `r` is a well-formed declaration.
pub open spec fn repo_valid(r: RepoView) -> bool {
    r.name.len() > 0 && r.url.len() > 0 && url_shape_ok(r.url)
}

/// What `Repository::validate` returns: the first reason to reject the
/// declaration, or nothing.
pub open spec fn repo_check_spec(r: RepoView) -> Result<(), RepositoryError> {
    if r.name.len() == 0 {
        Err(RepositoryError::EmptyName)
    } else if r.url.len() == 0 {
        Err(RepositoryError::EmptyUrl)
    } else if !url_shape_ok(r.url) {
        Err(RepositoryError::InvalidUrl)
    } else {
        Ok(())
    }
}

/// An absolute path, in the POSIX sense.
pub open spec fn path_is_absolute(p: Seq<char>) -> bool {
    p.len() > 0 && p[0] == '/'
}

/// `rel` resolved against the directory `base`, as path join renders it.
pub open spec fn join_path(base: Seq<char>, rel: Seq<char>) -> Seq<char> {
    if base.len() == 0 {
        rel
    } else {
        base + "/"@ + rel
    }
}

/// The directory a repository is cloned into. An explicit absolute path is
/// used as given; an explicit relative path is resolved against the catalog
/// directory; with no explicit path the default is `cloned_repos/<name>`
/// under the catalog directory. When the catalog directory is unknown, the
/// caller's `fallback` — the process working directory, which the library
/// cannot read itself — takes its place.
pub open spec fn target_dir_spec(r: RepoView, fallback: Seq<char>) -> Seq<char> {
    let base = match r.config_dir {
        Some(d) => d,
        None => fallback,
    };
    match r.path {
        Some(p) => if path_is_absolute(p) {
            p
        } else {
            join_path(base, p)
        },
        None => join_path(base, "cloned_repos/"@ + r.name),
    }
}

impl Repository {
    /// A repository with the given name and url and nothing else set.
    pub fn new(name: String, url: String) -> (r: Self)
        ensures
            r@ == (RepoView {
                name: name@,
                url: url@,
                tags: Seq::<Seq<char>>::empty(),
                path: None,
                branch: None,
                config_dir: None,
            }),
    {
        let r = Repository { name, url, tags: Vec::new(), path: None, branch: None, config_dir: None };
        proof {
            assert(r.tags.deep_view() =~= Seq::<Seq<char>>::empty());
        }
        r
    }

    /// Whether this repository carries the given tag.
    pub fn has_tag(&self, tag: &str) -> (r: bool)
        ensures
            r == self@.tags.contains(tag@),
    {
        let n = self.tags.len();
        let mut i: usize = 0;
        while i < n
            invariant
                n == self.tags.len(),
                i <= n,
                forall|j: int| 0 <= j < i ==> self@.tags[j] != tag@,
            decreases n - i,
        {
            if str_eq(self.tags[i].as_str(), tag) {
                assert(self@.tags[i as int] == tag@);
                return true;
            }
            i = i + 1;
        }
        false
    }

    /// Whether this repository carries at least one of the given tags.
    pub fn has_any_tag(&self, tags: &Vec<String>) -> (r: bool)
        ensures
            r == exists|i: int|
                0 <= i < tags.deep_view().len() && self@.tags.contains(tags.deep_view()[i]),
    {
        let n = tags.len();
        let mut i: usize = 0;
        while i < n
            invariant
                n == tags.len(),
                i <= n,
                forall|j: int| 0 <= j < i ==> !self@.tags.contains(tags.deep_view()[j]),
            decreases n - i,
        {
            if self.has_tag(tags[i].as_str()) {
                assert(self@.tags.contains(tags.deep_view()[i as int]));
                return true;
            }
            i = i + 1;
        }
        false
    }

    /// Whether the url has one of the recognized remote shapes.
    pub fn is_url_valid(&self) -> (r: bool)
        ensures
            r == url_shape_ok(self@.url),
    {
        starts_with(self.url.as_str(), "git@") || starts_with(self.url.as_str(), "https://")
            || starts_with(self.url.as_str(), "http://")
    }

    /// Rejects an empty name, an empty url, and a url of no recognized
    /// shape, in that order; accepts everything else.
    pub fn validate(&self) -> (r: Result<(), RepositoryError>)
        ensures
            r == repo_check_spec(self@),
            r is Ok <==> repo_valid(self@),
    {
        if self.name.as_str().unicode_len() == 0 {
            return Err(RepositoryError::EmptyName);
        }
        if self.url.as_str().unicode_len() == 0 {
            return Err(RepositoryError::EmptyUrl);
        }
        if !self.is_url_valid() {
            return Err(RepositoryError::InvalidUrl);
        }
        Ok(())
    }

    /// The directory this repository is cloned into; see `target_dir_spec`.
    /// `fallback_dir` is the process working directory, handed in by the
    /// caller; it matters only when no catalog directory is recorded.
    pub fn get_target_dir(&self, fallback_dir: &str) -> (r: String)
        ensures
            r@ == target_dir_spec(self@, fallback_dir@),
    {
        let base: &str = match &self.config_dir {
            Some(d) => d.as_str(),
            None => fallback_dir,
        };
        match &self.path {
            Some(p) => {
                let plen = p.as_str().unicode_len();
                if plen > 0 && p.as_str().get_char(0) == '/' {
                    p.clone()
                } else {
                    join_dir(base, p.as_str())
                }
            },
            None => {
                let rel = str_concat("cloned_repos/", self.name.as_str());
                join_dir(base, rel.as_str())
            },
        }
    }

    /// Whether the directory this repository resolves to exists on disk
    /// right now; nothing more is known of the answer.
    pub fn target_dir_exists(&self, fallback_dir: &str) -> bool {
        let dir = self.get_target_dir(fallback_dir);
        path_exists(dir.as_str())
    }

    /// Records the directory of the catalog file this repository came from.
    pub fn set_config_dir(&mut self, config_dir: Option<String>)
        ensures
            final(self)@ == (RepoView { config_dir: config_dir.deep_view(), ..old(self)@ }),
    {
        self.config_dir = config_dir;
    }

    /// Adds a tag unless the repository already carries it.
    pub fn add_tag(&mut self, tag: String)
        ensures
            old(self)@.tags.contains(tag@) ==> final(self)@ == old(self)@,
            !old(self)@.tags.contains(tag@) ==> final(self)@ == (RepoView {
                tags: old(self)@.tags.push(tag@),
                ..old(self)@
            }),
    {
        if !self.has_tag(tag.as_str()) {
            let ghost old_tags = self.tags.deep_view();
            self.tags.push(tag);
            proof {
                assert(self.tags.deep_view() =~= old_tags.push(tag@));
            }
        }
    }

    /// Removes every copy of the given tag.
    pub fn remove_tag(&mut self, tag: &str)
        ensures
            final(self)@ == (RepoView {
                tags: old(self)@.tags.filter(|t: Seq<char>| t != tag@),
                ..old(self)@
            }),
    {
        let n = self.tags.len();
        let mut kept: Vec<String> = Vec::new();
        proof {
            assert(self@.tags.subrange(0, 0).filter(|t: Seq<char>| t != tag@) =~~= kept.deep_view());
        }
        let mut i: usize = 0;
        while i < n
            invariant
                n == self.tags.len(),
                i <= n,
                kept.deep_view() =~~= self@.tags.subrange(0, i as int).filter(
                    |t: Seq<char>| t != tag@,
                ),
            decreases n - i,
        {
            let ghost prefix = self@.tags.subrange(0, i as int);
            proof {
                assert(self@.tags.subrange(0, i + 1) =~= prefix + seq![self@.tags[i as int]]);
                Seq::filter_distributes_over_add(
                    prefix,
                    seq![self@.tags[i as int]],
                    |t: Seq<char>| t != tag@,
                );
                reveal_with_fuel(Seq::<_>::filter, 2);
                assert(seq![self@.tags[i as int]].drop_last() =~~= Seq::<Seq<char>>::empty());
            }
            if !str_eq(self.tags[i].as_str(), tag) {
                let ghost old_kept = kept.deep_view();
                let t = self.tags[i].clone();
                kept.push(t);
                proof {
                    assert(kept.deep_view() =~~= old_kept.push(self@.tags[i as int]));
                }
            }
            i = i + 1;
        }
        proof {
            assert(self@.tags.subrange(0, n as int) =~= self@.tags);
        }
        self.tags = kept;
    }
}

impl Clone for Repository {
    /// A clone carries the same value.
    fn clone(&self) -> (r: Self)
        ensures
            r@ == self@,
    {
        let r = Repository {
            name: self.name.clone(),
            url: self.url.clone(),
            tags: clone_strings(&self.tags),
            path: clone_opt_string(&self.path),
            branch: clone_opt_string(&self.branch),
            config_dir: clone_opt_string(&self.config_dir),
        };
        proof {
            assert(r@ =~= self@);
        }
        r
    }
}

/// An element-for-element copy of a vector of strings.
pub fn clone_strings(v: &Vec<String>) -> (r: Vec<String>)
    ensures
        r.deep_view() == v.deep_view(),
{
    let n = v.len();
    let mut out: Vec<String> = Vec::new();
    let mut i: usize = 0;
    while i < n
        invariant
            n == v.len(),
            i <= n,
            out.deep_view() =~~= v.deep_view().subrange(0, i as int),
        decreases n - i,
    {
        let ghost old_out = out.deep_view();
        out.push(v[i].clone());
        proof {
            assert(out.deep_view() =~~= old_out.push(v@[i as int]@));
            assert(out.deep_view() =~~= v.deep_view().subrange(0, i + 1));
        }
        i = i + 1;
    }
    proof {
        assert(v.deep_view().subrange(0, n as int) =~= v.deep_view());
    }
    out
}

/// A copy of an optional string.
pub fn clone_opt_string(v: &Option<String>) -> (r: Option<String>)
    ensures
        r.deep_view() == v.deep_view(),
{
    match v {
        Some(s) => Some(s.clone()),
        None => None,
    }
}

/// Relies on std::path::Path::exists: whether the path names anything on
/// disk at this moment; the answer depends on the disk, so nothing is
/// promised of it.
#[verifier::external_body]
fn path_exists(p: &str) -> bool {
    std::path::Path::new(p).exists()
}

/// Resolves `rel` against the directory `base`; an empty base leaves `rel`
/// alone, as path join does.
pub fn join_dir(base: &str, rel: &str) -> (r: String)
    ensures
        r@ == join_path(base@, rel@),
{
    if base.unicode_len() == 0 {
        String::from_str(rel)
    } else {
        let with_sep = str_concat(base, "/");
        let r = with_sep.concat(rel);
        r
    }
}

} // verus!
