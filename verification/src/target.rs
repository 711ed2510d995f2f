//! Configured scrape targets: an account to list, or an explicit repository
//! list, with an ignore flag that removes a target from a cycle without
//! deleting its configuration.

use vstd::prelude::*;
use vstd::string::StringExecFns;

verus! {

/// Whether a target names a whole account or an explicit repository list.
#[derive(Debug, Clone, Copy, PartialEq, Eq, Structural)]
pub enum ScrapeTargetType {
    User,
    Repo,
}

/// One configured scrape target, immutable during a cycle.
#[derive(Debug)]
pub struct ScrapeTarget {
    pub username: String,
    pub repo_names: Option<Vec<String>>,
    pub target_type: ScrapeTargetType,
    /// ignore scrape target without removing it from the config file
    pub ignore: bool,
}

/// The configured repository names of a target; empty when none are set.
pub open spec fn spec_repo_names(t: ScrapeTarget) -> Seq<String> {
    match t.repo_names {
        Some(names) => names@,
        None => Seq::empty(),
    }
}

/// The web link of one configured repository of a target.
pub open spec fn repo_link(username: Seq<char>, repo_name: Seq<char>) -> Seq<char> {
    "https://github.com/"@ + username + "/"@ + repo_name
}

/// The targets of a configuration that take part in a cycle: the ones not
/// ignored, in configuration order.
pub open spec fn active_targets(targets: Seq<ScrapeTarget>) -> Seq<ScrapeTarget> {
    targets.filter(|t: ScrapeTarget| !t.ignore)
}

impl ScrapeTarget {
    /// A target that scrapes every repository of one account.
    pub fn user(username: String) -> (t: Self)
        ensures
            t.username == username,
            t.repo_names is None,
            t.target_type == ScrapeTargetType::User,
            !t.ignore,
    {
        Self { username, repo_names: None, target_type: ScrapeTargetType::User, ignore: false }
    }

    /// A target restricted to an explicit list of repositories of one account.
    pub fn repos(username: String, repo_names: Vec<String>) -> (t: Self)
        ensures
            t.username == username,
            t.repo_names == Some(repo_names),
            t.target_type == ScrapeTargetType::Repo,
            !t.ignore,
    {
        Self {
            username,
            repo_names: Some(repo_names),
            target_type: ScrapeTargetType::Repo,
            ignore: false,
        }
    }

    /// Marks the target as ignored; everything else is kept.
    pub fn ignore(self) -> (t: Self)
        ensures
            t.ignore,
            t.username == self.username,
            t.repo_names == self.repo_names,
            t.target_type == self.target_type,
    {
        Self { ignore: true, ..self }
    }

    /// The web links of the configured repositories, in configuration order;
    /// empty when the target has no repository list.
    pub fn target_links(&self) -> (links: Vec<String>)
        ensures
            links@.len() == spec_repo_names(*self).len(),
            forall|i: int|
                0 <= i < links@.len() ==> links@[i]@ == repo_link(
                    self.username@,
                    spec_repo_names(*self)[i]@,
                ),
    {
        let mut links: Vec<String> = Vec::new();
        match &self.repo_names {
            Some(names) => {
                let mut i: usize = 0;
                while i < names.len()
                    invariant
                        i <= names@.len(),
                        links@.len() == i,
                        forall|j: int|
                            0 <= j < i ==> links@[j]@ == repo_link(self.username@, names@[j]@),
                    decreases names@.len() - i,
                {
                    let mut link = String::from_str("https://github.com/");
                    link.append(self.username.as_str());
                    link.append("/");
                    link.append(names[i].as_str());
                    links.push(link);
                    i += 1;
                }
            },
            None => {},
        }
        links
    }
}

/// The targets that a cycle processes: ignored entries are dropped, the order
/// of the rest is preserved.
pub fn list_active_targets(targets: Vec<ScrapeTarget>) -> (active: Vec<ScrapeTarget>)
    ensures
        active@ == active_targets(targets@),
{
    let ghost t0 = targets@;
    let mut rest = targets;
    let mut active: Vec<ScrapeTarget> = Vec::new();
    let ghost mut j: int = 0;
    while rest.len() > 0
        invariant
            0 <= j <= t0.len(),
            rest@ == t0.skip(j),
            active@ == active_targets(t0.take(j)),
        decreases rest@.len(),
    {
        let t = rest.remove(0);
        proof {
            assert(t == t0[j]);
            assert(t0.skip(j).remove(0) =~= t0.skip(j + 1));
        }
        if !t.ignore {
            active.push(t);
        }
        proof {
            reveal(Seq::filter);
            assert(t0.take(j + 1).drop_last() == t0.take(j));
            assert(t0.take(j + 1).last() == t0[j]);
            j = j + 1;
        }
    }
    proof {
        assert(t0.take(t0.len() as int) == t0);
    }
    active
}

/// An ignored target never stands among the active targets of a cycle.
pub proof fn lemma_active_targets_not_ignored(targets: Seq<ScrapeTarget>)
    ensures
        forall|i: int|
            0 <= i < active_targets(targets).len() ==> !(#[trigger] active_targets(
                targets,
            )[i]).ignore,
{
    broadcast use vstd::seq_lib::group_filter_ensures;

    assert(active_targets(targets) == targets.filter(|t: ScrapeTarget| !t.ignore));
}

} // verus!
