//! Catalog-level validation: every declaration well formed and no two
//! repositories sharing a name.

use vstd::prelude::*;

use crate::strutil::is_blank;
use crate::strutil::is_space_char;
use crate::strutil::str_eq;

use super::repository::RepoView;
use super::repository::Repository;
use super::repository::RepositoryError;
use super::repository::repo_check_spec;
use super::repository::repo_valid;

verus! {

/// Catalog-level validation rules.
pub struct ConfigValidator;

/// One finding of `validate_repositories`.
#[derive(Debug)]
pub enum ValidationIssue {
    /// A name carried by an earlier repository in the catalog.
    DuplicateName(String),
    /// A repository rejected by `Repository::validate`, by name.
    InvalidRepository(String, RepositoryError),
}

/// A tag filter that cannot select anything.
#[derive(Debug)]
pub enum TagError {
    /// The filter holds nothing but whitespace.
    EmptyFilter,
    /// No repository in the catalog carries the tag.
    NotFound,
}

/// The repository at `i` repeats the name of an earlier one.
pub open spec fn dup_at(repos: Seq<RepoView>, i: int) -> bool {
    exists|j: int| 0 <= j < i && repos[j].name == repos[i].name
}

/// Some name occurs twice in the catalog.
pub open spec fn has_duplicate_names(repos: Seq<RepoView>) -> bool {
    exists|i: int| 0 <= i < repos.len() && dup_at(repos, i)
}

/// Every declaration is well formed.
pub open spec fn all_valid(repos: Seq<RepoView>) -> bool {
    forall|i: int| 0 <= i < repos.len() ==> repo_valid(#[trigger] repos[i])
}

/// What a loaded catalog must satisfy before any repository work begins.
pub open spec fn catalog_ok(repos: Seq<RepoView>) -> bool {
    !has_duplicate_names(repos) && all_valid(repos)
}

/// The finding is true of the catalog.
pub open spec fn issue_justified(repos: Seq<RepoView>, iss: ValidationIssue) -> bool {
    match iss {
        ValidationIssue::DuplicateName(n) => exists|i: int|
            0 <= i < repos.len() && #[trigger] dup_at(repos, i) && repos[i].name == n@,
        ValidationIssue::InvalidRepository(n, e) => exists|i: int|
            0 <= i < repos.len() && #[trigger] repos[i].name == n@ && repo_check_spec(repos[i])
                == Err::<(), RepositoryError>(e),
    }
}

/// The finding reports `name` as a duplicate.
pub open spec fn reports_duplicate(iss: ValidationIssue, name: Seq<char>) -> bool {
    iss matches ValidationIssue::DuplicateName(n) && n@ == name
}

/// The finding reports the repository called `name` as rejected, with the
/// reason `err`.
pub open spec fn reports_invalid(
    iss: ValidationIssue,
    name: Seq<char>,
    err: Result<(), RepositoryError>,
) -> bool {
    iss matches ValidationIssue::InvalidRepository(n, e) && n@ == name && Err::<(),
        RepositoryError,
    >(e) == err
}

impl ConfigValidator {
    /// One repository's own validation.
    pub fn validate_repository(repo: &Repository) -> (r: Result<(), RepositoryError>)
        ensures
            r == repo_check_spec(repo@),
            r is Ok <==> repo_valid(repo@),
    {
        repo.validate()
    }

    /// Checks the whole catalog: succeeds exactly when no name repeats and
    /// every declaration is well formed; otherwise reports one finding per
    /// repeated name and per rejected declaration.
    pub fn validate_repositories(repos: &Vec<Repository>) -> (r: Result<(), Vec<ValidationIssue>>)
        ensures
            r is Ok <==> catalog_ok(repos.deep_view()),
            match r {
                Ok(()) => true,
                Err(issues) => {
                    &&& issues@.len() >= 1
                    &&& forall|k: int|
                        0 <= k < issues@.len() ==> issue_justified(
                            repos.deep_view(),
                            #[trigger] issues@[k],
                        )
                    &&& forall|i: int|
                        0 <= i < repos.deep_view().len() && #[trigger] dup_at(repos.deep_view(), i)
                            ==> exists|k: int|
                            0 <= k < issues@.len() && reports_duplicate(
                                #[trigger] issues@[k],
                                repos.deep_view()[i].name,
                            )
                    &&& forall|i: int|
                        0 <= i < repos.deep_view().len() && !repo_valid(
                            #[trigger] repos.deep_view()[i],
                        ) ==> exists|k: int|
                            0 <= k < issues@.len() && reports_invalid(
                                #[trigger] issues@[k],
                                repos.deep_view()[i].name,
                                repo_check_spec(repos.deep_view()[i]),
                            )
                },
            },
    {
        let ghost rv = repos.deep_view();
        let n = repos.len();
        let mut issues: Vec<ValidationIssue> = Vec::new();

        let mut i: usize = 0;
        while i < n
            invariant
                rv == repos.deep_view(),
                n == repos.len(),
                i <= n,
                forall|k: int| 0 <= k < issues@.len() ==> issue_justified(rv, #[trigger] issues@[k]),
                forall|i2: int|
                    0 <= i2 < i && #[trigger] dup_at(rv, i2) ==> exists|k: int|
                        0 <= k < issues@.len() && reports_duplicate(
                            #[trigger] issues@[k],
                            rv[i2].name,
                        ),
            decreases n - i,
        {
            let mut seen: bool = false;
            let mut j: usize = 0;
            while j < i
                invariant
                    rv == repos.deep_view(),
                    n == repos.len(),
                    i < n,
                    j <= i,
                    seen <==> exists|j2: int|
                        0 <= j2 < j && #[trigger] rv[j2].name == rv[i as int].name,
                decreases i - j,
            {
                if str_eq(repos[j].name.as_str(), repos[i].name.as_str()) {
                    assert(rv[j as int].name == rv[i as int].name);
                    seen = true;
                }
                j = j + 1;
            }
            let ghost old_issues = issues@;
            if seen {
                let nm = repos[i].name.clone();
                issues.push(ValidationIssue::DuplicateName(nm));
            }
            proof {
                assert forall|k: int| 0 <= k < issues@.len() implies issue_justified(
                    rv,
                    #[trigger] issues@[k],
                ) by {
                    if k < old_issues.len() {
                        assert(issues@[k] == old_issues[k]);
                    } else {
                        assert(dup_at(rv, i as int));
                    }
                }
                assert forall|i2: int| 0 <= i2 < i + 1 && #[trigger] dup_at(rv, i2) implies exists|
                    k: int,
                |
                    0 <= k < issues@.len() && reports_duplicate(
                        #[trigger] issues@[k],
                        rv[i2].name,
                    ) by {
                    if i2 < i {
                        let k0 = choose|k: int|
                            0 <= k < old_issues.len() && reports_duplicate(
                                #[trigger] old_issues[k],
                                rv[i2].name,
                            );
                        assert(issues@[k0] == old_issues[k0]);
                    } else {
                        assert(seen);
                        assert(reports_duplicate(issues@[issues@.len() - 1], rv[i2].name));
                    }
                }
            }
            i = i + 1;
        }

        let ghost dup_issue_count = issues@.len();
        let mut i: usize = 0;
        while i < n
            invariant
                rv == repos.deep_view(),
                n == repos.len(),
                i <= n,
                issues@.len() >= dup_issue_count,
                forall|k: int| 0 <= k < issues@.len() ==> issue_justified(rv, #[trigger] issues@[k]),
                forall|i2: int|
                    0 <= i2 < rv.len() && #[trigger] dup_at(rv, i2) ==> exists|k: int|
                        0 <= k < issues@.len() && reports_duplicate(
                            #[trigger] issues@[k],
                            rv[i2].name,
                        ),
                forall|i2: int|
                    0 <= i2 < i && !repo_valid(#[trigger] rv[i2]) ==> exists|k: int|
                        0 <= k < issues@.len() && reports_invalid(
                            #[trigger] issues@[k],
                            rv[i2].name,
                            repo_check_spec(rv[i2]),
                        ),
                issues@.len() == dup_issue_count ==> forall|i2: int|
                    0 <= i2 < i ==> repo_valid(#[trigger] rv[i2]),
            decreases n - i,
        {
            let ghost old_issues = issues@;
            match repos[i].validate() {
                Ok(()) => {},
                Err(e) => {
                    let nm = repos[i].name.clone();
                    assert(rv[i as int].name == nm@);
                    issues.push(ValidationIssue::InvalidRepository(nm, e));
                },
            }
            proof {
                assert forall|k: int| 0 <= k < issues@.len() implies issue_justified(
                    rv,
                    #[trigger] issues@[k],
                ) by {
                    if k < old_issues.len() {
                        assert(issues@[k] == old_issues[k]);
                    }
                }
                assert forall|i2: int| 0 <= i2 < rv.len() && #[trigger] dup_at(rv, i2) implies
                    exists|k: int|
                    0 <= k < issues@.len() && reports_duplicate(
                        #[trigger] issues@[k],
                        rv[i2].name,
                    ) by {
                    let k0 = choose|k: int|
                        0 <= k < old_issues.len() && reports_duplicate(
                            #[trigger] old_issues[k],
                            rv[i2].name,
                        );
                    assert(issues@[k0] == old_issues[k0]);
                }
                assert forall|i2: int| 0 <= i2 < i + 1 && !repo_valid(#[trigger] rv[i2]) implies
                    exists|k: int|
                    0 <= k < issues@.len() && reports_invalid(
                        #[trigger] issues@[k],
                        rv[i2].name,
                        repo_check_spec(rv[i2]),
                    ) by {
                    if i2 < i {
                        let k0 = choose|k: int|
                            0 <= k < old_issues.len() && reports_invalid(
                                #[trigger] old_issues[k],
                                rv[i2].name,
                                repo_check_spec(rv[i2]),
                            );
                        assert(issues@[k0] == old_issues[k0]);
                    } else {
                        assert(reports_invalid(
                            issues@[issues@.len() - 1],
                            rv[i2].name,
                            repo_check_spec(rv[i2]),
                        ));
                    }
                }
            }
            i = i + 1;
        }

        if issues.len() == 0 {
            assert(!has_duplicate_names(rv));
            assert(all_valid(rv));
            Ok(())
        } else {
            proof {
                if catalog_ok(rv) {
                    assert(issue_justified(rv, issues@[0]));
                    assert(false);
                }
            }
            Err(issues)
        }
    }

    /// A usable tag filter holds at least one non-whitespace character.
    pub fn validate_tag_filter(filter: &str) -> (r: Result<(), TagError>)
        ensures
            r is Ok <==> exists|i: int| 0 <= i < filter@.len() && !is_space_char(filter@[i]),
            r is Err ==> r == Err::<(), TagError>(TagError::EmptyFilter),
    {
        if is_blank(filter) {
            Err(TagError::EmptyFilter)
        } else {
            Ok(())
        }
    }

    /// Succeeds exactly when some repository in the catalog carries `tag`.
    pub fn validate_tag_exists(repos: &Vec<Repository>, tag: &str) -> (r: Result<(), TagError>)
        ensures
            r is Ok <==> exists|i: int|
                0 <= i < repos.deep_view().len() && #[trigger] repos.deep_view()[i].tags.contains(
                    tag@,
                ),
            r is Err ==> r == Err::<(), TagError>(TagError::NotFound),
    {
        let n = repos.len();
        let mut i: usize = 0;
        while i < n
            invariant
                n == repos.len(),
                i <= n,
                forall|j: int|
                    0 <= j < i ==> !(#[trigger] repos.deep_view()[j].tags.contains(tag@)),
            decreases n - i,
        {
            if repos[i].has_tag(tag) {
                assert(repos.deep_view()[i as int].tags.contains(tag@));
                return Ok(());
            }
            i = i + 1;
        }
        Err(TagError::NotFound)
    }
}

} // verus!
