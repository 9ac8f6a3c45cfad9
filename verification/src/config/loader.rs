//! The catalog itself: an ordered collection of repository declarations with
//! filtering by tag and by name, membership updates, and validation.

use vstd::prelude::*;

use crate::strutil::insert_sorted_unique;
use crate::strutil::sorted_unique;
use crate::strutil::str_eq;

use super::repository::RepoView;
use super::repository::Repository;
use super::repository::RepositoryError;
use super::repository::repo_check_spec;
use super::repository::repo_valid;
use super::validation::ConfigValidator;
use super::validation::ValidationIssue;
use super::validation::catalog_ok;

verus! {

/// The loaded set of repository declarations, in file order.
pub struct Config {
    pub repositories: Vec<Repository>,
}

/// Why `add_repository` rejects a repository.
#[derive(Debug)]
pub enum AddRepositoryError {
    /// The catalog already holds a repository of that name.
    DuplicateName,
    /// The declaration itself is rejected, with `Repository::validate`'s
    /// reason.
    Invalid(RepositoryError),
}

/// Some repository in `repos` is called `name`.
pub open spec fn contains_name(repos: Seq<RepoView>, name: Seq<char>) -> bool {
    exists|i: int| 0 <= i < repos.len() && #[trigger] repos[i].name == name
}

/// An element-for-element copy of a vector of repositories.
pub fn clone_repositories(v: &Vec<Repository>) -> (r: Vec<Repository>)
    ensures
        r.deep_view() == v.deep_view(),
{
    let n = v.len();
    let mut out: Vec<Repository> = Vec::new();
    let mut i: usize = 0;
    while i < n
        invariant
            n == v.len(),
            i <= n,
            out.deep_view() =~~= v.deep_view().subrange(0, i as int),
        decreases n - i,
    {
        let ghost old_out = out.deep_view();
        out.push(v[i].clone());
        proof {
            assert(out.deep_view() =~~= old_out.push(v@[i as int]@));
            assert(out.deep_view() =~~= v.deep_view().subrange(0, i + 1));
        }
        i = i + 1;
    }
    proof {
        assert(v.deep_view().subrange(0, n as int) =~= v.deep_view());
    }
    out
}

/// Whether one of `names` is exactly `name`.
fn name_listed(names: &Vec<String>, name: &str) -> (r: bool)
    ensures
        r == names.deep_view().contains(name@),
{
    let n = names.len();
    let mut i: usize = 0;
    while i < n
        invariant
            n == names.len(),
            i <= n,
            forall|j: int| 0 <= j < i ==> names.deep_view()[j] != name@,
        decreases n - i,
    {
        if str_eq(names[i].as_str(), name) {
            assert(names.deep_view()[i as int] == name@);
            return true;
        }
        i = i + 1;
    }
    false
}

impl Config {
    /// An empty catalog.
    pub fn new() -> (r: Self)
        ensures
            r.repositories.deep_view() == Seq::<RepoView>::empty(),
    {
        let r = Config { repositories: Vec::new() };
        proof {
            assert(r.repositories.deep_view() =~= Seq::<RepoView>::empty());
        }
        r
    }

    /// The repositories whose name is listed in `names`, in catalog order;
    /// an empty list selects the whole catalog. Unknown names select
    /// nothing.
    pub fn filter_by_names(&self, names: &Vec<String>) -> (r: Vec<Repository>)
        ensures
            names.deep_view().len() == 0 ==> r.deep_view() == self.repositories.deep_view(),
            names.deep_view().len() > 0 ==> r.deep_view() == self.repositories.deep_view().filter(
                |rv: RepoView| names.deep_view().contains(rv.name),
            ),
    {
        if names.len() == 0 {
            return clone_repositories(&self.repositories);
        }
        let ghost rv = self.repositories.deep_view();
        let ghost pred = |x: RepoView| names.deep_view().contains(x.name);
        let n = self.repositories.len();
        let mut out: Vec<Repository> = Vec::new();
        proof {
            assert(rv.subrange(0, 0).filter(pred) =~~= out.deep_view());
        }
        let mut i: usize = 0;
        while i < n
            invariant
                rv == self.repositories.deep_view(),
                pred == (|x: RepoView| names.deep_view().contains(x.name)),
                n == self.repositories.len(),
                i <= n,
                out.deep_view() =~~= rv.subrange(0, i as int).filter(pred),
            decreases n - i,
        {
            proof {
                assert(rv.subrange(0, i + 1) =~= rv.subrange(0, i as int) + seq![rv[i as int]]);
                Seq::filter_distributes_over_add(rv.subrange(0, i as int), seq![rv[i as int]], pred);
                reveal_with_fuel(Seq::<_>::filter, 2);
                assert(seq![rv[i as int]].drop_last() =~~= Seq::<RepoView>::empty());
            }
            if name_listed(names, self.repositories[i].name.as_str()) {
                let ghost old_out = out.deep_view();
                out.push(self.repositories[i].clone());
                proof {
                    assert(out.deep_view() =~~= old_out.push(rv[i as int]));
                }
            }
            i = i + 1;
        }
        proof {
            assert(rv.subrange(0, n as int) =~= rv);
        }
        out
    }

    /// The repositories carrying `tag`, in catalog order; no tag selects
    /// the whole catalog.
    pub fn filter_by_tag(&self, tag: Option<&str>) -> (r: Vec<Repository>)
        ensures
            match tag {
                None => r.deep_view() == self.repositories.deep_view(),
                Some(t) => r.deep_view() == self.repositories.deep_view().filter(
                    |rv: RepoView| rv.tags.contains(t@),
                ),
            },
    {
        let t = match tag {
            None => {
                return clone_repositories(&self.repositories);
            },
            Some(t) => t,
        };
        let ghost rv = self.repositories.deep_view();
        let ghost pred = |x: RepoView| x.tags.contains(t@);
        let n = self.repositories.len();
        let mut out: Vec<Repository> = Vec::new();
        proof {
            assert(rv.subrange(0, 0).filter(pred) =~~= out.deep_view());
        }
        let mut i: usize = 0;
        while i < n
            invariant
                rv == self.repositories.deep_view(),
                pred == (|x: RepoView| x.tags.contains(t@)),
                n == self.repositories.len(),
                i <= n,
                out.deep_view() =~~= rv.subrange(0, i as int).filter(pred),
            decreases n - i,
        {
            proof {
                assert(rv.subrange(0, i + 1) =~= rv.subrange(0, i as int) + seq![rv[i as int]]);
                Seq::filter_distributes_over_add(rv.subrange(0, i as int), seq![rv[i as int]], pred);
                reveal_with_fuel(Seq::<_>::filter, 2);
                assert(seq![rv[i as int]].drop_last() =~~= Seq::<RepoView>::empty());
            }
            if self.repositories[i].has_tag(t) {
                let ghost old_out = out.deep_view();
                out.push(self.repositories[i].clone());
                proof {
                    assert(out.deep_view() =~~= old_out.push(rv[i as int]));
                }
            }
            i = i + 1;
        }
        proof {
            assert(rv.subrange(0, n as int) =~= rv);
        }
        out
    }

    /// The repositories carrying at least one of `tags`, in catalog order;
    /// an empty list selects the whole catalog.
    pub fn filter_by_any_tag(&self, tags: &Vec<String>) -> (r: Vec<Repository>)
        ensures
            tags.deep_view().len() == 0 ==> r.deep_view() == self.repositories.deep_view(),
            tags.deep_view().len() > 0 ==> r.deep_view() == self.repositories.deep_view().filter(
                |rv: RepoView| exists|j: int|
                    0 <= j < tags.deep_view().len() && rv.tags.contains(
                        #[trigger] tags.deep_view()[j],
                    ),
            ),
    {
        if tags.len() == 0 {
            return clone_repositories(&self.repositories);
        }
        let ghost rv = self.repositories.deep_view();
        let ghost pred = |x: RepoView| exists|j: int|
            0 <= j < tags.deep_view().len() && x.tags.contains(#[trigger] tags.deep_view()[j]);
        let n = self.repositories.len();
        let mut out: Vec<Repository> = Vec::new();
        proof {
            assert(rv.subrange(0, 0).filter(pred) =~~= out.deep_view());
        }
        let mut i: usize = 0;
        while i < n
            invariant
                rv == self.repositories.deep_view(),
                pred == (|x: RepoView| exists|j: int|
                    0 <= j < tags.deep_view().len() && x.tags.contains(
                        #[trigger] tags.deep_view()[j],
                    )),
                n == self.repositories.len(),
                i <= n,
                out.deep_view() =~~= rv.subrange(0, i as int).filter(pred),
            decreases n - i,
        {
            proof {
                assert(rv.subrange(0, i + 1) =~= rv.subrange(0, i as int) + seq![rv[i as int]]);
                Seq::filter_distributes_over_add(rv.subrange(0, i as int), seq![rv[i as int]], pred);
                reveal_with_fuel(Seq::<_>::filter, 2);
                assert(seq![rv[i as int]].drop_last() =~~= Seq::<RepoView>::empty());
            }
            if self.repositories[i].has_any_tag(tags) {
                let ghost old_out = out.deep_view();
                out.push(self.repositories[i].clone());
                proof {
                    assert(out.deep_view() =~~= old_out.push(rv[i as int]));
                }
            }
            i = i + 1;
        }
        proof {
            assert(rv.subrange(0, n as int) =~= rv);
        }
        out
    }

    /// The repositories carrying every one of `tags`, in catalog order; an
    /// empty list selects the whole catalog.
    pub fn filter_by_all_tags(&self, tags: &Vec<String>) -> (r: Vec<Repository>)
        ensures
            tags.deep_view().len() == 0 ==> r.deep_view() == self.repositories.deep_view(),
            tags.deep_view().len() > 0 ==> r.deep_view() == self.repositories.deep_view().filter(
                |rv: RepoView| forall|j: int|
                    0 <= j < tags.deep_view().len() ==> rv.tags.contains(
                        #[trigger] tags.deep_view()[j],
                    ),
            ),
    {
        if tags.len() == 0 {
            return clone_repositories(&self.repositories);
        }
        let ghost rv = self.repositories.deep_view();
        let ghost pred = |x: RepoView| forall|j: int|
            0 <= j < tags.deep_view().len() ==> x.tags.contains(#[trigger] tags.deep_view()[j]);
        let n = self.repositories.len();
        let mut out: Vec<Repository> = Vec::new();
        proof {
            assert(rv.subrange(0, 0).filter(pred) =~~= out.deep_view());
        }
        let mut i: usize = 0;
        while i < n
            invariant
                rv == self.repositories.deep_view(),
                pred == (|x: RepoView| forall|j: int|
                    0 <= j < tags.deep_view().len() ==> x.tags.contains(
                        #[trigger] tags.deep_view()[j],
                    )),
                n == self.repositories.len(),
                i <= n,
                out.deep_view() =~~= rv.subrange(0, i as int).filter(pred),
            decreases n - i,
        {
            proof {
                assert(rv.subrange(0, i + 1) =~= rv.subrange(0, i as int) + seq![rv[i as int]]);
                Seq::filter_distributes_over_add(rv.subrange(0, i as int), seq![rv[i as int]], pred);
                reveal_with_fuel(Seq::<_>::filter, 2);
                assert(seq![rv[i as int]].drop_last() =~~= Seq::<RepoView>::empty());
            }
            if has_all_tags(&self.repositories[i], tags) {
                let ghost old_out = out.deep_view();
                out.push(self.repositories[i].clone());
                proof {
                    assert(out.deep_view() =~~= old_out.push(rv[i as int]));
                }
            }
            i = i + 1;
        }
        proof {
            assert(rv.subrange(0, n as int) =~= rv);
        }
        out
    }

    /// The first repository called `name`, if any.
    pub fn get_repository(&self, name: &str) -> (r: Option<&Repository>)
        ensures
            match r {
                Some(rep) => rep@.name == name@ && exists|i: int|
                    0 <= i < self.repositories.deep_view().len()
                        && #[trigger] self.repositories.deep_view()[i] == rep@ && forall|j: int|
                        0 <= j < i ==> self.repositories.deep_view()[j].name != name@,
                None => !contains_name(self.repositories.deep_view(), name@),
            },
    {
        let n = self.repositories.len();
        let mut i: usize = 0;
        while i < n
            invariant
                n == self.repositories.len(),
                i <= n,
                forall|j: int| 0 <= j < i ==> #[trigger] self.repositories.deep_view()[j].name
                    != name@,
            decreases n - i,
        {
            if str_eq(self.repositories[i].name.as_str(), name) {
                assert(self.repositories.deep_view()[i as int].name == name@);
                return Some(&self.repositories[i]);
            }
            i = i + 1;
        }
        None
    }

    /// The position of the first repository called `name`, if any; the
    /// caller indexes `repositories` with it to update the entry in place.
    pub fn get_repository_mut(&mut self, name: &str) -> (r: Option<usize>)
        ensures
            *final(self) == *old(self),
            match r {
                Some(i) => i < old(self).repositories.deep_view().len() && old(
                    self,
                ).repositories.deep_view()[i as int].name == name@,
                None => !contains_name(old(self).repositories.deep_view(), name@),
            },
    {
        let n = self.repositories.len();
        let mut i: usize = 0;
        while i < n
            invariant
                n == self.repositories.len(),
                i <= n,
                forall|j: int| 0 <= j < i ==> #[trigger] self.repositories.deep_view()[j].name
                    != name@,
            decreases n - i,
        {
            if str_eq(self.repositories[i].name.as_str(), name) {
                assert(self.repositories.deep_view()[i as int].name == name@);
                return Some(i);
            }
            i = i + 1;
        }
        None
    }

    /// Appends a repository unless its name is taken or its declaration is
    /// rejected.
    pub fn add_repository(&mut self, repo: Repository) -> (r: Result<(), AddRepositoryError>)
        ensures
            match r {
                Ok(()) => !contains_name(old(self).repositories.deep_view(), repo@.name)
                    && repo_valid(repo@) && final(self).repositories.deep_view() == old(
                    self,
                ).repositories.deep_view().push(repo@),
                Err(AddRepositoryError::DuplicateName) => contains_name(
                    old(self).repositories.deep_view(),
                    repo@.name,
                ) && *final(self) == *old(self),
                Err(AddRepositoryError::Invalid(e)) => !contains_name(
                    old(self).repositories.deep_view(),
                    repo@.name,
                ) && repo_check_spec(repo@) == Err::<(), RepositoryError>(e) && *final(self)
                    == *old(self),
            },
    {
        if self.get_repository(repo.name.as_str()).is_some() {
            return Err(AddRepositoryError::DuplicateName);
        }
        match repo.validate() {
            Err(e) => Err(AddRepositoryError::Invalid(e)),
            Ok(()) => {
                let ghost old_rv = self.repositories.deep_view();
                self.repositories.push(repo);
                proof {
                    assert(self.repositories.deep_view() =~~= old_rv.push(
                        self.repositories@[old_rv.len() as int]@,
                    ));
                }
                Ok(())
            },
        }
    }

    /// Drops every repository called `name`; reports whether any was
    /// dropped.
    pub fn remove_repository(&mut self, name: &str) -> (r: bool)
        ensures
            final(self).repositories.deep_view() == old(self).repositories.deep_view().filter(
                |rv: RepoView| rv.name != name@,
            ),
            r == contains_name(old(self).repositories.deep_view(), name@),
    {
        let ghost rv = self.repositories.deep_view();
        let ghost pred = |x: RepoView| x.name != name@;
        let n = self.repositories.len();
        let mut out: Vec<Repository> = Vec::new();
        let mut dropped: bool = false;
        proof {
            assert(rv.subrange(0, 0).filter(pred) =~~= out.deep_view());
        }
        let mut i: usize = 0;
        while i < n
            invariant
                rv == self.repositories.deep_view(),
                pred == (|x: RepoView| x.name != name@),
                n == self.repositories.len(),
                i <= n,
                out.deep_view() =~~= rv.subrange(0, i as int).filter(pred),
                dropped <==> exists|j: int| 0 <= j < i && #[trigger] rv[j].name == name@,
            decreases n - i,
        {
            proof {
                assert(rv.subrange(0, i + 1) =~= rv.subrange(0, i as int) + seq![rv[i as int]]);
                Seq::filter_distributes_over_add(rv.subrange(0, i as int), seq![rv[i as int]], pred);
                reveal_with_fuel(Seq::<_>::filter, 2);
                assert(seq![rv[i as int]].drop_last() =~~= Seq::<RepoView>::empty());
            }
            if str_eq(self.repositories[i].name.as_str(), name) {
                assert(rv[i as int].name == name@);
                dropped = true;
            } else {
                let ghost old_out = out.deep_view();
                out.push(self.repositories[i].clone());
                proof {
                    assert(out.deep_view() =~~= old_out.push(rv[i as int]));
                }
            }
            i = i + 1;
        }
        proof {
            assert(rv.subrange(0, n as int) =~= rv);
        }
        self.repositories = out;
        dropped
    }

    /// Every tag carried by some repository, each once, in lexicographic
    /// order.
    pub fn get_all_tags(&self) -> (r: Vec<String>)
        ensures
            sorted_unique(r.deep_view()),
            forall|x: Seq<char>|
                r.deep_view().contains(x) <==> tag_in_catalog(self.repositories.deep_view(), x),
    {
        let ghost rv = self.repositories.deep_view();
        let n = self.repositories.len();
        let mut out: Vec<String> = Vec::new();
        proof {
            assert(out.deep_view() =~~= Seq::<Seq<char>>::empty());
        }
        let mut i: usize = 0;
        while i < n
            invariant
                rv == self.repositories.deep_view(),
                n == self.repositories.len(),
                i <= n,
                sorted_unique(out.deep_view()),
                forall|x: Seq<char>|
                    out.deep_view().contains(x) <==> exists|j: int|
                        0 <= j < i && #[trigger] rv[j].tags.contains(x),
            decreases n - i,
        {
            let tags = &self.repositories[i].tags;
            let m = tags.len();
            let ghost tv = rv[i as int].tags;
            let mut k: usize = 0;
            while k < m
                invariant
                    rv == self.repositories.deep_view(),
                    n == self.repositories.len(),
                    i < n,
                    m == self.repositories@[i as int].tags.len(),
                    tv == rv[i as int].tags,
                    k <= m,
                    sorted_unique(out.deep_view()),
                    forall|x: Seq<char>|
                        out.deep_view().contains(x) <==> ((exists|j: int|
                            0 <= j < i && #[trigger] rv[j].tags.contains(x)) || exists|k2: int|
                            0 <= k2 < k && tv[k2] == x),
                decreases m - k,
            {
                let t = self.repositories[i].tags[k].clone();
                assert(t@ == tv[k as int]);
                insert_sorted_unique(&mut out, t);
                k = k + 1;
            }
            proof {
                assert forall|x: Seq<char>| out.deep_view().contains(x) implies exists|j: int|
                    0 <= j < i + 1 && #[trigger] rv[j].tags.contains(x) by {
                    if exists|k2: int| 0 <= k2 < m && tv[k2] == x {
                        assert(rv[i as int].tags.contains(x));
                    }
                }
                assert forall|x: Seq<char>|
                    (exists|j: int| 0 <= j < i + 1 && #[trigger] rv[j].tags.contains(x)) implies
                    out.deep_view().contains(x) by {
                    let j = choose|j: int| 0 <= j < i + 1 && #[trigger] rv[j].tags.contains(x);
                    if j == i {
                        let k2 = choose|k2: int| 0 <= k2 < tv.len() && tv[k2] == x;
                        assert(0 <= k2 < k && tv[k2] == x);
                    }
                }
            }
            i = i + 1;
        }
        out
    }

    /// Checks the whole catalog, as `ConfigValidator::validate_repositories`
    /// does.
    pub fn validate(&self) -> (r: Result<(), Vec<ValidationIssue>>)
        ensures
            r is Ok <==> catalog_ok(self.repositories.deep_view()),
    {
        ConfigValidator::validate_repositories(&self.repositories)
    }

    /// Filtering by one optional tag, under the name the first revisions
    /// used.
    pub fn filter_repositories_by_tag(&self, tag: Option<&str>) -> (r: Vec<Repository>)
        ensures
            match tag {
                None => r.deep_view() == self.repositories.deep_view(),
                Some(t) => r.deep_view() == self.repositories.deep_view().filter(
                    |rv: RepoView| rv.tags.contains(t@),
                ),
            },
    {
        self.filter_by_tag(tag)
    }

    /// The combined selection: an explicit name list is applied first and a
    /// tag filter then intersects it; either alone selects by itself, and
    /// neither selects the whole catalog. An empty name list, like an absent
    /// one, leaves the name filter out.
    pub fn filter_repositories(&self, tag: Option<&str>, repos: Option<&Vec<String>>) -> (r: Vec<
        Repository,
    >)
        ensures
            match (tag, repos) {
                (Some(t), Some(names)) => {
                    &&& names.deep_view().len() > 0 ==> r.deep_view()
                        == self.repositories.deep_view().filter(
                        |rv: RepoView| names.deep_view().contains(rv.name),
                    ).filter(|rv: RepoView| rv.tags.contains(t@))
                    &&& names.deep_view().len() == 0 ==> r.deep_view()
                        == self.repositories.deep_view().filter(
                        |rv: RepoView| rv.tags.contains(t@),
                    )
                },
                (None, Some(names)) => {
                    &&& names.deep_view().len() > 0 ==> r.deep_view()
                        == self.repositories.deep_view().filter(
                        |rv: RepoView| names.deep_view().contains(rv.name),
                    )
                    &&& names.deep_view().len() == 0 ==> r.deep_view()
                        == self.repositories.deep_view()
                },
                (Some(t), None) => r.deep_view() == self.repositories.deep_view().filter(
                    |rv: RepoView| rv.tags.contains(t@),
                ),
                (None, None) => r.deep_view() == self.repositories.deep_view(),
            },
    {
        match (tag, repos) {
            (Some(t), Some(names)) => {
                let by_names = Config { repositories: self.filter_by_names(names) };
                by_names.filter_by_tag(Some(t))
            },
            (None, Some(names)) => self.filter_by_names(names),
            (Some(t), None) => self.filter_by_tag(Some(t)),
            (None, None) => clone_repositories(&self.repositories),
        }
    }
}

/// Whether the repository carries every one of `tags`.
fn has_all_tags(repo: &Repository, tags: &Vec<String>) -> (r: bool)
    ensures
        r == forall|j: int|
            0 <= j < tags.deep_view().len() ==> repo@.tags.contains(#[trigger] tags.deep_view()[j]),
{
    let n = tags.len();
    let mut i: usize = 0;
    while i < n
        invariant
            n == tags.len(),
            i <= n,
            forall|j: int| 0 <= j < i ==> repo@.tags.contains(#[trigger] tags.deep_view()[j]),
        decreases n - i,
    {
        if !repo.has_tag(tags[i].as_str()) {
            assert(!repo@.tags.contains(tags.deep_view()[i as int]));
            return false;
        }
        i = i + 1;
    }
    true
}

impl Clone for Config {
    /// A clone carries the same catalog.
    fn clone(&self) -> (r: Self)
        ensures
            r.repositories.deep_view() == self.repositories.deep_view(),
    {
        Config { repositories: clone_repositories(&self.repositories) }
    }
}

/// Some repository in the catalog carries `x`.
pub open spec fn tag_in_catalog(repos: Seq<RepoView>, x: Seq<char>) -> bool {
    exists|i: int| 0 <= i < repos.len() && #[trigger] repos[i].tags.contains(x)
}

} // verus!
