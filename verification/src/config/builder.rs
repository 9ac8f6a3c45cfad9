//! A step-by-step constructor for repository declarations.

use vstd::prelude::*;

use super::repository::RepoView;
use super::repository::Repository;

verus! {

/// Accumulates the fields of a repository declaration before `build`.
pub struct RepositoryBuilder {
    name: String,
    url: String,
    tags: Vec<String>,
    path: Option<String>,
    branch: Option<String>,
}

/// The value a builder would build right now.
pub closed spec fn built_view(b: RepositoryBuilder) -> RepoView {
    RepoView {
        name: b.name@,
        url: b.url@,
        tags: b.tags.deep_view(),
        path: b.path.deep_view(),
        branch: b.branch.deep_view(),
        config_dir: None,
    }
}

impl RepositoryBuilder {
    /// Starts a builder with the given name and url and nothing else set.
    pub fn new(name: String, url: String) -> (r: Self)
        ensures
            built_view(r) == (RepoView {
                name: name@,
                url: url@,
                tags: Seq::<Seq<char>>::empty(),
                path: None,
                branch: None,
                config_dir: None,
            }),
    {
        let r = RepositoryBuilder { name, url, tags: Vec::new(), path: None, branch: None };
        proof {
            assert(r.tags.deep_view() =~= Seq::<Seq<char>>::empty());
        }
        r
    }

    /// Replaces the builder's tags.
    pub fn with_tags(self, tags: Vec<String>) -> (r: Self)
        ensures
            built_view(r) == (RepoView { tags: tags.deep_view(), ..built_view(self) }),
    {
        RepositoryBuilder { tags, ..self }
    }

    /// Sets the explicit clone path.
    pub fn with_path(self, path: String) -> (r: Self)
        ensures
            built_view(r) == (RepoView { path: Some(path@), ..built_view(self) }),
    {
        RepositoryBuilder { path: Some(path), ..self }
    }

    /// Sets the branch to clone.
    pub fn with_branch(self, branch: String) -> (r: Self)
        ensures
            built_view(r) == (RepoView { branch: Some(branch@), ..built_view(self) }),
    {
        RepositoryBuilder { branch: Some(branch), ..self }
    }

    /// The finished repository declaration.
    pub fn build(self) -> (r: Repository)
        ensures
            r@ == built_view(self),
    {
        Repository {
            name: self.name,
            url: self.url,
            tags: self.tags,
            path: self.path,
            branch: self.branch,
            config_dir: None,
        }
    }
}

} // verus!
