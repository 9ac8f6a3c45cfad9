//! The argument lists this system hands to the git executable. The
//! invocations themselves are plain shell calls outside the library; what
//! is verified here is which arguments a repository's declaration yields.

use vstd::prelude::*;
use vstd::string::StringExecFns;

use crate::config::repository::RepoView;
use crate::config::repository::Repository;
use crate::config::repository::target_dir_spec;

verus! {

/// The arguments of one `git clone`: the branch flag only when a branch is
/// declared, then the remote URL, then the directory to clone into
/// (`fallback_dir` standing in for an unknown catalog directory).
pub open spec fn clone_arguments_spec(r: RepoView, fallback: Seq<char>) -> Seq<Seq<char>> {
    seq!["clone"@] + (match r.branch {
        Some(b) => seq!["-b"@, b],
        None => Seq::<Seq<char>>::empty(),
    }) + seq![r.url, target_dir_spec(r, fallback)]
}

/// Assembles the `git clone` arguments for a repository.
pub fn clone_arguments(repo: &Repository, fallback_dir: &str) -> (r: Vec<String>)
    ensures
        r.deep_view() == clone_arguments_spec(repo@, fallback_dir@),
{
    let mut args: Vec<String> = Vec::new();
    args.push(String::from_str("clone"));
    match &repo.branch {
        Some(b) => {
            args.push(String::from_str("-b"));
            args.push(b.clone());
        },
        None => {},
    }
    args.push(repo.url.clone());
    args.push(repo.get_target_dir(fallback_dir));
    proof {
        assert(args.deep_view() =~~= clone_arguments_spec(repo@, fallback_dir@));
    }
    args
}

} // verus!
