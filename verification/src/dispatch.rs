//! The dispatcher's bookkeeping: per-repository outcomes land here, one by
//! one, and never touch each other. Whether repositories run one after
//! another or all at once, each name ends up in exactly one of the two
//! lists.

use vstd::prelude::*;

use crate::config::loader::Config;
use crate::config::repository::RepoView;
use crate::config::repository::Repository;

verus! {

/// The aggregate of one batch: which repositories succeeded and which
/// failed, in the order their outcomes were recorded.
pub struct BatchResult {
    pub succeeded: Vec<String>,
    pub failed: Vec<String>,
}

impl BatchResult {
    /// A batch with nothing recorded.
    pub fn new() -> (r: Self)
        ensures
            r.succeeded.deep_view() == Seq::<Seq<char>>::empty(),
            r.failed.deep_view() == Seq::<Seq<char>>::empty(),
    {
        let r = BatchResult { succeeded: Vec::new(), failed: Vec::new() };
        proof {
            assert(r.succeeded.deep_view() =~~= Seq::<Seq<char>>::empty());
            assert(r.failed.deep_view() =~~= Seq::<Seq<char>>::empty());
        }
        r
    }

    /// Records one repository's outcome: the name lands in exactly one of
    /// the two lists, and the other stays as it was.
    pub fn record(&mut self, name: String, ok: bool)
        ensures
            ok ==> final(self).succeeded.deep_view() == old(self).succeeded.deep_view().push(name@)
                && final(self).failed.deep_view() == old(self).failed.deep_view(),
            !ok ==> final(self).failed.deep_view() == old(self).failed.deep_view().push(name@)
                && final(self).succeeded.deep_view() == old(self).succeeded.deep_view(),
    {
        if ok {
            let ghost old_s = self.succeeded.deep_view();
            self.succeeded.push(name);
            proof {
                assert(self.succeeded.deep_view() =~~= old_s.push(
                    self.succeeded@[old_s.len() as int]@,
                ));
            }
        } else {
            let ghost old_f = self.failed.deep_view();
            self.failed.push(name);
            proof {
                assert(self.failed.deep_view() =~~= old_f.push(self.failed@[old_f.len() as int]@));
            }
        }
    }

    /// How many repositories succeeded.
    pub fn succeeded_count(&self) -> (r: usize)
        ensures
            r == self.succeeded.deep_view().len(),
    {
        self.succeeded.len()
    }

    /// How many repositories failed.
    pub fn failed_count(&self) -> (r: usize)
        ensures
            r == self.failed.deep_view().len(),
    {
        self.failed.len()
    }
}

/// What every command invocation shares: the loaded catalog, the
/// selection, and whether the repositories are worked on all at once.
pub struct CommandContext {
    pub config: Config,
    pub tag: Option<String>,
    pub repos: Option<Vec<String>>,
    pub parallel: bool,
}

impl CommandContext {
    /// The repositories this invocation works on, selected as
    /// `Config::filter_repositories` selects them.
    pub fn selected_repositories(&self) -> (r: Vec<Repository>)
        ensures
            match (self.tag, self.repos) {
                (Some(t), Some(names)) => {
                    &&& names.deep_view().len() > 0 ==> r.deep_view()
                        == self.config.repositories.deep_view().filter(
                        |rv: RepoView| names.deep_view().contains(rv.name),
                    ).filter(|rv: RepoView| rv.tags.contains(t@))
                    &&& names.deep_view().len() == 0 ==> r.deep_view()
                        == self.config.repositories.deep_view().filter(
                        |rv: RepoView| rv.tags.contains(t@),
                    )
                },
                (None, Some(names)) => {
                    &&& names.deep_view().len() > 0 ==> r.deep_view()
                        == self.config.repositories.deep_view().filter(
                        |rv: RepoView| names.deep_view().contains(rv.name),
                    )
                    &&& names.deep_view().len() == 0 ==> r.deep_view()
                        == self.config.repositories.deep_view()
                },
                (Some(t), None) => r.deep_view() == self.config.repositories.deep_view().filter(
                    |rv: RepoView| rv.tags.contains(t@),
                ),
                (None, None) => r.deep_view() == self.config.repositories.deep_view(),
            },
    {
        let tag: Option<&str> = match &self.tag {
            Some(t) => Some(t.as_str()),
            None => None,
        };
        let names: Option<&Vec<String>> = match &self.repos {
            Some(n) => Some(n),
            None => None,
        };
        self.config.filter_repositories(tag, names)
    }
}

} // verus!
