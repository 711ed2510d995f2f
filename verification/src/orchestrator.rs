//! One scrape cycle as a step machine: it decides what to fetch next and
//! folds every answer into the cycle-wide collections, isolating per-item
//! failures. The driver performs the fetches and hands the answers back;
//! the machine never asks anything for an ignored target or an ineligible
//! repository.

use vstd::prelude::*;
use crate::cache::Cache;
use crate::contributors::{
    has_login, lemma_collection_tallies, lemma_counts_are_multiset_counts, merge_contributors,
    merged_count, merged_of,
    nonneg_counts, pending_count, pending_of, pull_in_window, scrape_contributor_collection,
    wf_contributors, ContributorCollection,
};
use crate::github::{
    clean_issues, clean_issues_of, sorted_desc, spec_eligible_topics, spec_repo_eligible,
    repo_is_eligible, sort_languages, str_eq, GithubError, Issue, PullRequest, Repository,
};
use crate::scraper::{
    eligible_issues_of, scrape_pull_request, scrape_repository_collection, spec_enriched_matches,
    PullRequestCollection, RepositoryCollection, ScrapError,
};
use crate::target::{
    active_targets, lemma_active_targets_not_ignored, list_active_targets, repo_link,
    spec_repo_names, ScrapeTarget, ScrapeTargetType,
};
use crate::window::{check_in_window, in_window};

verus! {

/// What the orchestrator asks its driver to do next.
#[derive(Debug)]
pub enum FetchRequest {
    /// List the repositories of this account, one page of the given size.
    Repositories { username: String, per_page: u8 },
    /// Fetch the issues and the language byte counts of this repository.
    RepositoryData { username: String, repo_name: String },
    /// List the pull requests of this repository.
    Pulls { username: String, repo_name: String },
    /// Fetch one pull request in full.
    PullDetail { username: String, repo_name: String, number: i64 },
    /// Serialize the collections and publish them into the cache.
    Publish,
    /// The cycle is over.
    Done,
}

/// Where the cycle stands.
#[derive(Debug, Clone, Copy, PartialEq, Eq, Structural)]
pub enum Phase {
    NeedRepositories,
    NeedRepositoryData,
    NeedPulls,
    NeedPullDetail,
    ReadyToPublish,
    Finished,
}

/// The state of one cycle: the active targets, the position inside them,
/// and the three collections grown so far.
#[derive(Debug)]
pub struct Orchestrator {
    /// The targets of this cycle; none of them is ignored.
    pub targets: Vec<ScrapeTarget>,
    /// Page size of the repository listing call.
    pub per_page: u8,
    /// Index of the target being processed.
    pub ti: usize,
    /// The kept repositories of the current target.
    pub repos: Vec<Repository>,
    /// Index of the repository being processed.
    pub ri: usize,
    /// Numbers of the windowed pulls of the current repository, still to be
    /// fetched in full.
    pub detail_numbers: Vec<i64>,
    /// Index into `detail_numbers`.
    pub di: usize,
    /// Where the cycle stands.
    pub phase: Phase,
    /// The repository records grown so far.
    pub repo_out: Vec<RepositoryCollection>,
    /// The contributor tallies grown so far.
    pub contrib_out: Vec<ContributorCollection>,
    /// The enriched pull-request records grown so far.
    pub pull_out: Vec<PullRequestCollection>,
}

/// Whether a fetched repository matches one of the target's configured
/// repository links.
pub open spec fn spec_link_match(t: ScrapeTarget, r: Repository) -> bool {
    exists|i: int|
        0 <= i < spec_repo_names(t).len() && r.html_url@ == repo_link(
            t.username@,
            (#[trigger] spec_repo_names(t)[i])@,
        )
}

/// The repositories of a listing that a target keeps: all of them for an
/// account-wide target; for a repository-list target the ones whose web link
/// stands among the configured links.
pub open spec fn spec_kept_repos(t: ScrapeTarget, fetched: Seq<Repository>) -> Seq<Repository> {
    if t.target_type == ScrapeTargetType::Repo {
        fetched.filter(|r: Repository| spec_link_match(t, r))
    } else {
        fetched
    }
}

/// The numbers of the pulls created inside the window, in listing order.
pub open spec fn windowed_numbers(pulls: Seq<PullRequest>) -> Seq<i64> {
    pulls.filter(|p: PullRequest| pull_in_window(p)).map_values(|p: PullRequest| p.number)
}

/// The part of the invariant that holds whatever the phase: positions stay
/// in range, targets are active, and the grown collections are well formed,
/// eligible and windowed.
pub open spec fn wf_collections(o: Orchestrator) -> bool {
    &&& forall|i: int| 0 <= i < o.targets@.len() ==> !(#[trigger] o.targets@[i]).ignore
    &&& o.ti <= o.targets@.len()
    &&& o.ri <= o.repos@.len()
    &&& o.di <= o.detail_numbers@.len()
    &&& wf_contributors(o.contrib_out@)
    &&& nonneg_counts(o.contrib_out@)
    &&& (forall|i: int|
        0 <= i < o.repo_out@.len() ==> spec_eligible_topics((#[trigger] o.repo_out@[i]).topics@))
    &&& (forall|i: int|
        0 <= i < o.pull_out@.len() ==> in_window((#[trigger] o.pull_out@[i]).created_at))
}

/// The machine's invariant: the collections are well formed, and work is
/// only pending on an eligible repository of an active target.
pub open spec fn wf_orchestrator(o: Orchestrator) -> bool {
    &&& wf_collections(o)
    &&& (o.phase == Phase::NeedRepositories ==> o.ti < o.targets@.len())
    &&& ((o.phase == Phase::NeedRepositoryData || o.phase == Phase::NeedPulls || o.phase
        == Phase::NeedPullDetail) ==> o.ti < o.targets@.len() && o.ri < o.repos@.len()
        && spec_repo_eligible(o.repos@[o.ri as int]))
    &&& (o.phase == Phase::NeedPullDetail ==> o.di < o.detail_numbers@.len())
}

impl Orchestrator {
    /// Begins a cycle over the given configuration: ignored targets are
    /// dropped, the rest are processed in configuration order, and the
    /// collections start empty.
    pub fn new(configured: Vec<ScrapeTarget>, per_page: u8) -> (o: Orchestrator)
        ensures
            wf_orchestrator(o),
            o.targets@ == active_targets(configured@),
            o.per_page == per_page,
            o.ti == 0,
            o.repo_out@.len() == 0,
            o.contrib_out@.len() == 0,
            o.pull_out@.len() == 0,
            o.phase == (if active_targets(configured@).len() == 0 {
                Phase::ReadyToPublish
            } else {
                Phase::NeedRepositories
            }),
    {
        proof {
            lemma_active_targets_not_ignored(configured@);
        }
        let targets = list_active_targets(configured);
        let phase = if targets.len() == 0 {
            Phase::ReadyToPublish
        } else {
            Phase::NeedRepositories
        };
        Orchestrator {
            targets,
            per_page,
            ti: 0,
            repos: Vec::new(),
            ri: 0,
            detail_numbers: Vec::new(),
            di: 0,
            phase,
            repo_out: Vec::new(),
            contrib_out: Vec::new(),
            pull_out: Vec::new(),
        }
    }

    /// What the driver is to do next. A listing is only ever asked for an
    /// active target, and per-repository work only for an eligible
    /// repository.
    pub fn next_request(&self) -> (r: FetchRequest)
        requires
            wf_orchestrator(*self),
        ensures
            self.phase == Phase::NeedRepositories ==> (r matches FetchRequest::Repositories {
                username,
                per_page,
            } && username@ == self.targets@[self.ti as int].username@ && per_page == self.per_page
                && !self.targets@[self.ti as int].ignore),
            self.phase == Phase::NeedRepositoryData ==> (r matches FetchRequest::RepositoryData {
                username,
                repo_name,
            } && username@ == self.targets@[self.ti as int].username@ && repo_name@
                == self.repos@[self.ri as int].name@ && spec_repo_eligible(
                self.repos@[self.ri as int],
            )),
            self.phase == Phase::NeedPulls ==> (r matches FetchRequest::Pulls {
                username,
                repo_name,
            } && username@ == self.targets@[self.ti as int].username@ && repo_name@
                == self.repos@[self.ri as int].name@ && spec_repo_eligible(
                self.repos@[self.ri as int],
            )),
            self.phase == Phase::NeedPullDetail ==> (r matches FetchRequest::PullDetail {
                username,
                repo_name,
                number,
            } && username@ == self.targets@[self.ti as int].username@ && repo_name@
                == self.repos@[self.ri as int].name@ && number == self.detail_numbers@[self.di
                as int] && spec_repo_eligible(self.repos@[self.ri as int])),
            self.phase == Phase::ReadyToPublish ==> r is Publish,
            self.phase == Phase::Finished ==> r is Done,
    {
        match self.phase {
            Phase::NeedRepositories => FetchRequest::Repositories {
                username: self.targets[self.ti].username.clone(),
                per_page: self.per_page,
            },
            Phase::NeedRepositoryData => FetchRequest::RepositoryData {
                username: self.targets[self.ti].username.clone(),
                repo_name: self.repos[self.ri].name.clone(),
            },
            Phase::NeedPulls => FetchRequest::Pulls {
                username: self.targets[self.ti].username.clone(),
                repo_name: self.repos[self.ri].name.clone(),
            },
            Phase::NeedPullDetail => FetchRequest::PullDetail {
                username: self.targets[self.ti].username.clone(),
                repo_name: self.repos[self.ri].name.clone(),
                number: self.detail_numbers[self.di],
            },
            Phase::ReadyToPublish => FetchRequest::Publish,
            Phase::Finished => FetchRequest::Done,
        }
    }

    /// Moves on to the next target, or to publication when none is left.
    fn next_target(&mut self)
        requires
            wf_collections(*old(self)),
            old(self).ti < old(self).targets@.len(),
        ensures
            wf_orchestrator(*final(self)),
            final(self).targets == old(self).targets,
            final(self).per_page == old(self).per_page,
            final(self).repos == old(self).repos,
            final(self).ri == old(self).ri,
            final(self).detail_numbers == old(self).detail_numbers,
            final(self).di == old(self).di,
            final(self).repo_out == old(self).repo_out,
            final(self).contrib_out == old(self).contrib_out,
            final(self).pull_out == old(self).pull_out,
            final(self).ti == old(self).ti + 1,
            final(self).phase == (if old(self).ti + 1 == old(self).targets@.len() {
                Phase::ReadyToPublish
            } else {
                Phase::NeedRepositories
            }),
    {
        let n = self.targets.len();
        self.ti += 1;
        self.phase = if self.ti == n {
            Phase::ReadyToPublish
        } else {
            Phase::NeedRepositories
        };
    }

    /// Positions the cycle at the next eligible repository of the current
    /// target, skipping ineligible ones silently; when none is left, moves
    /// on to the next target.
    fn position_repo(&mut self)
        requires
            wf_collections(*old(self)),
            old(self).ti < old(self).targets@.len(),
        ensures
            wf_orchestrator(*final(self)),
            final(self).targets == old(self).targets,
            final(self).per_page == old(self).per_page,
            final(self).repos == old(self).repos,
            final(self).detail_numbers == old(self).detail_numbers,
            final(self).di == old(self).di,
            final(self).repo_out == old(self).repo_out,
            final(self).contrib_out == old(self).contrib_out,
            final(self).pull_out == old(self).pull_out,
            final(self).phase == Phase::NeedRepositoryData || final(self).phase
                == Phase::NeedRepositories || final(self).phase == Phase::ReadyToPublish,
            final(self).phase == Phase::NeedRepositoryData ==> final(self).ti == old(self).ti
                && old(self).ri <= final(self).ri < final(self).repos@.len()
                && spec_repo_eligible(final(self).repos@[final(self).ri as int]) && (forall|j: int|
                old(self).ri <= j < final(self).ri ==> !spec_repo_eligible(
                    #[trigger] final(self).repos@[j],
                )),
            final(self).phase != Phase::NeedRepositoryData ==> final(self).ti == old(self).ti + 1
                && (forall|j: int|
                old(self).ri <= j < final(self).repos@.len() ==> !spec_repo_eligible(
                    #[trigger] final(self).repos@[j],
                )),
    {
        while self.ri < self.repos.len()
            invariant
                wf_collections(*self),
                self.targets == old(self).targets,
                self.per_page == old(self).per_page,
                self.repos == old(self).repos,
                self.detail_numbers == old(self).detail_numbers,
                self.di == old(self).di,
                self.repo_out == old(self).repo_out,
                self.contrib_out == old(self).contrib_out,
                self.pull_out == old(self).pull_out,
                self.ti == old(self).ti,
                self.phase == old(self).phase,
                self.ti < self.targets@.len(),
                old(self).ri <= self.ri <= self.repos@.len(),
                forall|j: int|
                    old(self).ri <= j < self.ri ==> !spec_repo_eligible(
                        #[trigger] self.repos@[j],
                    ),
            decreases self.repos@.len() - self.ri,
        {
            let eligible = repo_is_eligible(&self.repos[self.ri]);
            if eligible {
                self.phase = Phase::NeedRepositoryData;
                return ;
            }
            self.ri += 1;
        }
        self.next_target();
    }

    /// Moves on past the current repository to the next eligible one, or to
    /// the next target.
    fn skip_repo(&mut self)
        requires
            wf_collections(*old(self)),
            old(self).ti < old(self).targets@.len(),
            old(self).ri < old(self).repos@.len(),
        ensures
            wf_orchestrator(*final(self)),
            final(self).targets == old(self).targets,
            final(self).per_page == old(self).per_page,
            final(self).repos == old(self).repos,
            final(self).detail_numbers == old(self).detail_numbers,
            final(self).di == old(self).di,
            final(self).repo_out == old(self).repo_out,
            final(self).contrib_out == old(self).contrib_out,
            final(self).pull_out == old(self).pull_out,
            final(self).phase == Phase::NeedRepositoryData || final(self).phase
                == Phase::NeedRepositories || final(self).phase == Phase::ReadyToPublish,
            final(self).ti > old(self).ti || final(self).ri > old(self).ri,
    {
        let n = self.repos.len();
        self.ri += 1;
        self.position_repo();
    }
}

/// Whether some pull of the listing was created inside the window by this
/// login.
pub open spec fn spec_windowed_login(pulls: Seq<PullRequest>, login: Seq<char>) -> bool {
    exists|k: int|
        0 <= k < pulls.len() && pull_in_window(#[trigger] pulls[k]) && pulls[k].user.login@
            == login
}

/// Whether folding these pulls into the tallies keeps every counter inside
/// its type.
pub open spec fn tallies_fit(acc: Seq<ContributorCollection>, pulls: Seq<PullRequest>) -> bool {
    forall|login: Seq<char>|
        #![trigger merged_count(pulls, login)]
        merged_of(acc, login) + merged_count(pulls, login) <= i64::MAX && pending_of(acc, login)
            + pending_count(pulls, login) <= i64::MAX
}

proof fn lemma_windowed_numbers_step(pulls: Seq<PullRequest>, k: int)
    requires
        0 <= k < pulls.len(),
    ensures
        windowed_numbers(pulls.take(k + 1)) == (if pull_in_window(pulls[k]) {
            windowed_numbers(pulls.take(k)).push(pulls[k].number)
        } else {
            windowed_numbers(pulls.take(k))
        }),
{
    reveal(Seq::filter);
    assert(pulls.take(k + 1).drop_last() == pulls.take(k));
    assert(pulls.take(k + 1).last() == pulls[k]);
    if pull_in_window(pulls[k]) {
        assert(windowed_numbers(pulls.take(k + 1)) =~= windowed_numbers(pulls.take(k)).push(
            pulls[k].number,
        ));
    } else {
        assert(windowed_numbers(pulls.take(k + 1)) =~= windowed_numbers(pulls.take(k)));
    }
}

/// The repositories a target keeps out of a fetched listing.
fn keep_target_repos(target: &ScrapeTarget, fetched: Vec<Repository>) -> (kept: Vec<Repository>)
    ensures
        kept@ == spec_kept_repos(*target, fetched@),
{
    if target.target_type == ScrapeTargetType::Repo {
        let links = target.target_links();
        let ghost f0 = fetched@;
        let mut rest = fetched;
        let mut kept: Vec<Repository> = Vec::new();
        let ghost mut j: int = 0;
        while rest.len() > 0
            invariant
                0 <= j <= f0.len(),
                rest@ == f0.skip(j),
                kept@ == f0.take(j).filter(|r: Repository| spec_link_match(*target, r)),
                links@.len() == spec_repo_names(*target).len(),
                forall|i: int|
                    0 <= i < links@.len() ==> links@[i]@ == repo_link(
                        target.username@,
                        spec_repo_names(*target)[i]@,
                    ),
            decreases rest@.len(),
        {
            let repo = rest.remove(0);
            proof {
                assert(repo == f0[j]);
                assert(f0.skip(j).remove(0) =~= f0.skip(j + 1));
            }
            let mut matched = false;
            let mut l: usize = 0;
            while l < links.len() && !matched
                invariant
                    l <= links@.len(),
                    links@.len() == spec_repo_names(*target).len(),
                    forall|i: int|
                        0 <= i < links@.len() ==> links@[i]@ == repo_link(
                            target.username@,
                            spec_repo_names(*target)[i]@,
                        ),
                    !matched ==> forall|t: int| 0 <= t < l ==> (#[trigger] links@[t])@
                        != repo.html_url@,
                    matched ==> spec_link_match(*target, repo),
                decreases links@.len() - l + (if matched {
                    0int
                } else {
                    1int
                }),
            {
                if str_eq(links[l].as_str(), repo.html_url.as_str()) {
                    proof {
                        assert(repo.html_url@ == repo_link(
                            target.username@,
                            spec_repo_names(*target)[l as int]@,
                        ));
                    }
                    matched = true;
                } else {
                    l += 1;
                }
            }
            proof {
                if !matched {
                    if spec_link_match(*target, repo) {
                        let i = choose|i: int|
                            0 <= i < spec_repo_names(*target).len() && repo.html_url@ == repo_link(
                                target.username@,
                                (#[trigger] spec_repo_names(*target)[i])@,
                            );
                        assert(links@[i]@ == repo.html_url@);
                        assert(false);
                    }
                }
            }
            if matched {
                kept.push(repo);
            }
            proof {
                reveal(Seq::filter);
                assert(f0.take(j + 1).drop_last() == f0.take(j));
                assert(f0.take(j + 1).last() == f0[j]);
                j = j + 1;
            }
        }
        proof {
            assert(f0.take(f0.len() as int) == f0);
        }
        kept
    } else {
        fetched
    }
}

impl Orchestrator {
    /// Takes the answer of a repository listing. A failed listing abandons
    /// this target alone; the remaining targets are still attempted. A
    /// successful one keeps the target's repositories and positions the
    /// cycle at the first eligible one.
    pub fn give_repositories(&mut self, result: Result<Vec<Repository>, GithubError>)
        requires
            wf_orchestrator(*old(self)),
            old(self).phase == Phase::NeedRepositories,
        ensures
            wf_orchestrator(*final(self)),
            final(self).targets == old(self).targets,
            final(self).per_page == old(self).per_page,
            final(self).repo_out == old(self).repo_out,
            final(self).contrib_out == old(self).contrib_out,
            final(self).pull_out == old(self).pull_out,
            result is Err ==> final(self).ti == old(self).ti + 1 && (final(self).phase
                == Phase::NeedRepositories || final(self).phase == Phase::ReadyToPublish),
            result matches Ok(fetched) ==> ({
                let kept = spec_kept_repos(old(self).targets@[old(self).ti as int], fetched@);
                &&& final(self).repos@ == kept
                &&& (final(self).phase == Phase::NeedRepositoryData ==> final(self).ti == old(self).ti && final(self).ri < kept.len() && spec_repo_eligible(
                    kept[final(self).ri as int],
                ) && (forall|j: int|
                    0 <= j < final(self).ri ==> !spec_repo_eligible(#[trigger] kept[j])))
                &&& (final(self).phase != Phase::NeedRepositoryData ==> final(self).ti == old(self).ti + 1 && (forall|j: int| 0 <= j < kept.len() ==> !spec_repo_eligible(
                    #[trigger] kept[j],
                )) && (final(self).phase == Phase::NeedRepositories || final(self).phase
                    == Phase::ReadyToPublish))
            }),
    {
        match result {
            Err(_) => {
                self.next_target();
            },
            Ok(fetched) => {
                let kept = keep_target_repos(&self.targets[self.ti], fetched);
                self.repos = kept;
                self.ri = 0;
                self.position_repo();
            },
        }
    }

    /// Takes the issues and languages of the current repository. Both in
    /// hand, the repository record joins the collection, its issues cleaned
    /// of pull requests and restricted to labelled ones; any fetch failure
    /// produces no record, and either way the cycle moves on to this
    /// repository's pull requests.
    pub fn give_repo_data(
        &mut self,
        issues: Result<Vec<Issue>, GithubError>,
        languages: Result<Vec<(String, i64)>, GithubError>,
    )
        requires
            wf_orchestrator(*old(self)),
            old(self).phase == Phase::NeedRepositoryData,
        ensures
            wf_orchestrator(*final(self)),
            final(self).targets == old(self).targets,
            final(self).per_page == old(self).per_page,
            final(self).repos == old(self).repos,
            final(self).ti == old(self).ti,
            final(self).ri == old(self).ri,
            final(self).contrib_out == old(self).contrib_out,
            final(self).pull_out == old(self).pull_out,
            final(self).phase == Phase::NeedPulls,
            issues is Err || languages is Err ==> final(self).repo_out == old(self).repo_out,
            issues matches Ok(iss) ==> (languages matches Ok(langs) ==> ({
                let c = final(self).repo_out@.last();
                let repo = old(self).repos@[old(self).ri as int];
                &&& final(self).repo_out@.len() == old(self).repo_out@.len() + 1
                &&& final(self).repo_out@.drop_last() == old(self).repo_out@
                &&& c.full_name@ == repo.full_name@
                &&& c.html_url@ == repo.html_url@
                &&& c.description == repo.description
                &&& c.stars_count == repo.stargazers_count
                &&& c.forks_count == repo.forks_count
                &&& c.topics@ == repo.topics@
                &&& c.created_at == repo.created_at
                &&& c.updated_at == repo.updated_at
                &&& c.issues@ == eligible_issues_of(clean_issues_of(iss@))
                &&& (exists|arranged: Seq<(String, i64)>|
                    arranged.to_multiset() == langs@.to_multiset() && sorted_desc(arranged)
                        && c.languages@.len() == arranged.len() && (forall|i: int|
                        0 <= i < arranged.len() ==> c.languages@[i] == (#[trigger] arranged[i]).0))
            })),
    {
        match (issues, languages) {
            (Ok(iss), Ok(langs)) => {
                let cleaned = clean_issues(iss);
                let names = sort_languages(langs);
                let record = scrape_repository_collection(&self.repos[self.ri], cleaned, names);
                match record {
                    Ok(c) => {
                        self.repo_out.push(c);
                    },
                    Err(_) => {
                        proof {
                            assert(false);
                        }
                    },
                }
            },
            _ => {},
        }
        self.phase = Phase::NeedPulls;
    }

    /// Takes the pull-request listing of the current repository: the
    /// windowed pulls are folded into the cycle-wide tallies and their
    /// numbers queued for enrichment. A failed listing, or tallies that
    /// would no longer fit, skip this repository alone.
    pub fn give_pulls(&mut self, result: Result<Vec<PullRequest>, GithubError>)
        requires
            wf_orchestrator(*old(self)),
            old(self).phase == Phase::NeedPulls,
        ensures
            wf_orchestrator(*final(self)),
            final(self).targets == old(self).targets,
            final(self).per_page == old(self).per_page,
            final(self).repo_out == old(self).repo_out,
            final(self).pull_out == old(self).pull_out,
            result is Err ==> final(self).contrib_out == old(self).contrib_out,
            result matches Ok(pulls) ==> ((pulls@.len() <= i64::MAX && tallies_fit(
                old(self).contrib_out@,
                pulls@,
            )) ==> (forall|login: Seq<char>|
                #![trigger merged_of(final(self).contrib_out@, login)]
                merged_of(final(self).contrib_out@, login) == merged_of(
                    old(self).contrib_out@,
                    login,
                ) + merged_count(pulls@, login) && pending_of(final(self).contrib_out@, login)
                    == pending_of(old(self).contrib_out@, login) + pending_count(pulls@, login))),
            result matches Ok(pulls) ==> ((pulls@.len() <= i64::MAX && tallies_fit(
                old(self).contrib_out@,
                pulls@,
            )) ==> (forall|login: Seq<char>|
                #![trigger has_login(final(self).contrib_out@, login)]
                has_login(final(self).contrib_out@, login) <==> (has_login(
                    old(self).contrib_out@,
                    login,
                ) || spec_windowed_login(pulls@, login)))),
            result matches Ok(pulls) ==> ((pulls@.len() <= i64::MAX && tallies_fit(
                old(self).contrib_out@,
                pulls@,
            )) ==> final(self).detail_numbers@ == windowed_numbers(pulls@)),
            result matches Ok(pulls) ==> ((pulls@.len() <= i64::MAX && tallies_fit(
                old(self).contrib_out@,
                pulls@,
            ) && windowed_numbers(pulls@).len() > 0) ==> final(self).phase
                == Phase::NeedPullDetail && final(self).di == 0 && final(self).ti == old(self).ti
                && final(self).ri == old(self).ri),
            result matches Ok(pulls) ==> (!(pulls@.len() <= i64::MAX && tallies_fit(
                old(self).contrib_out@,
                pulls@,
            )) ==> final(self).contrib_out@ == old(self).contrib_out@),
            final(self).phase != Phase::NeedPullDetail ==> (final(self).ti > old(self).ti || final(self).ri > old(self).ri),
    {
        match result {
            Err(_) => {
                self.skip_repo();
            },
            Ok(pulls) => {
                let len_ok = (pulls.len() as u64) <= (i64::MAX as u64);
                if len_ok {
                    let contribs = scrape_contributor_collection(&pulls);
                    proof {
                        assert forall|login: Seq<char>|
                            #![trigger merged_count(pulls@, login)]
                            merged_of(contribs@, login) == merged_count(pulls@, login)
                                && pending_of(contribs@, login) == pending_count(
                                pulls@,
                                login,
                            ) by {
                            lemma_collection_tallies(pulls@, contribs@, login);
                        }
                        assert forall|login: Seq<char>|
                            #![trigger has_login(contribs@, login)]
                            has_login(contribs@, login) <==> spec_windowed_login(
                                pulls@,
                                login,
                            ) by {
                            if has_login(contribs@, login) {
                                let t = choose|t: int|
                                    0 <= t < contribs@.len() && (#[trigger] contribs@[t]).full_name@
                                        == login;
                                let q = choose|q: int|
                                    0 <= q < pulls@.len() && pull_in_window(#[trigger] pulls@[q])
                                        && pulls@[q].user.login@ == contribs@[t].full_name@
                                        && pulls@[q].user.html_url@ == contribs@[t].profile_url@;
                                assert(pull_in_window(pulls@[q]));
                            }
                            if spec_windowed_login(pulls@, login) {
                                let k = choose|k: int|
                                    0 <= k < pulls@.len() && pull_in_window(#[trigger] pulls@[k])
                                        && pulls@[k].user.login@ == login;
                                assert(has_login(contribs@, pulls@[k].user.login@));
                            }
                        }
                    }
                    proof {
                        assert forall|i: int| 0 <= i < contribs@.len() implies 0 <= (
                        #[trigger] contribs@[i]).merged_pulls && 0
                            <= contribs@[i].pending_pulls by {
                            lemma_counts_are_multiset_counts(pulls@, contribs@[i].full_name@);
                        }
                    }
                    let ghost acc0 = self.contrib_out@;
                    let merged_ok = merge_contributors(&mut self.contrib_out, contribs);
                    proof {
                        if merged_ok {
                            assert forall|login: Seq<char>|
                                #![trigger merged_count(pulls@, login)]
                                merged_of(acc0, login) + merged_count(pulls@, login) <= i64::MAX
                                    && pending_of(acc0, login) + pending_count(pulls@, login)
                                    <= i64::MAX by {
                                assert(merged_of(contribs@, login) == merged_count(pulls@, login));
                                assert(merged_of(acc0, login) + merged_of(contribs@, login)
                                    <= i64::MAX && pending_of(acc0, login) + pending_of(
                                    contribs@,
                                    login,
                                ) <= i64::MAX);
                            }
                            assert(tallies_fit(acc0, pulls@));
                            assert forall|login: Seq<char>|
                                #![trigger merged_of(self.contrib_out@, login)]
                                merged_of(self.contrib_out@, login) == merged_of(acc0, login)
                                    + merged_count(pulls@, login) && pending_of(
                                    self.contrib_out@,
                                    login,
                                ) == pending_of(acc0, login) + pending_count(pulls@, login) by {
                                assert(merged_of(contribs@, login) == merged_count(pulls@, login));
                            }
                            assert forall|login: Seq<char>|
                                #![trigger has_login(self.contrib_out@, login)]
                                has_login(self.contrib_out@, login) <==> (has_login(acc0, login)
                                    || spec_windowed_login(pulls@, login)) by {
                                assert(has_login(contribs@, login) <==> spec_windowed_login(
                                    pulls@,
                                    login,
                                ));
                            }
                        } else {
                            assert(!tallies_fit(acc0, pulls@)) by {
                                if tallies_fit(acc0, pulls@) {
                                    assert forall|login: Seq<char>|
                                        merged_of(acc0, login) + merged_of(
                                            #[trigger] contribs@,
                                            login,
                                        ) <= i64::MAX && pending_of(acc0, login) + pending_of(
                                            contribs@,
                                            login,
                                        ) <= i64::MAX by {
                                        assert(merged_of(contribs@, login) == merged_count(
                                            pulls@,
                                            login,
                                        ));
                                        assert(merged_of(acc0, login) + merged_count(
                                            pulls@,
                                            login,
                                        ) <= i64::MAX && pending_of(acc0, login) + pending_count(
                                            pulls@,
                                            login,
                                        ) <= i64::MAX);
                                    }
                                    assert(false);
                                }
                            }
                        }
                    }
                    if merged_ok {
                        let mut numbers: Vec<i64> = Vec::new();
                        let n = pulls.len();
                        let mut k: usize = 0;
                        proof {
                            assert(pulls@.take(0) =~= Seq::<PullRequest>::empty());
                            reveal(Seq::filter);
                            assert(windowed_numbers(pulls@.take(0)) =~= Seq::<i64>::empty());
                        }
                        while k < n
                            invariant
                                n == pulls@.len(),
                                k <= n,
                                numbers@ == windowed_numbers(pulls@.take(k as int)),
                            decreases n - k,
                        {
                            proof {
                                lemma_windowed_numbers_step(pulls@, k as int);
                            }
                            if check_in_window(pulls[k].created_at) {
                                numbers.push(pulls[k].number);
                            }
                            k += 1;
                        }
                        proof {
                            assert(pulls@.take(n as int) == pulls@);
                        }
                        self.detail_numbers = numbers;
                        self.di = 0;
                        if self.detail_numbers.len() > 0 {
                            self.phase = Phase::NeedPullDetail;
                        } else {
                            self.skip_repo();
                        }
                    } else {
                        self.skip_repo();
                    }
                } else {
                    self.skip_repo();
                }
            },
        }
    }

    /// Takes one fetched pull request: created inside the window, its
    /// normalized record joins the collection; otherwise, or on a failed
    /// fetch, nothing is added. The cycle then moves to the next queued
    /// number, or on past this repository.
    pub fn give_pull_detail(&mut self, result: Result<PullRequest, GithubError>)
        requires
            wf_orchestrator(*old(self)),
            old(self).phase == Phase::NeedPullDetail,
        ensures
            wf_orchestrator(*final(self)),
            final(self).targets == old(self).targets,
            final(self).per_page == old(self).per_page,
            final(self).repos == old(self).repos,
            final(self).repo_out == old(self).repo_out,
            final(self).contrib_out == old(self).contrib_out,
            result matches Ok(pr) ==> (in_window(pr.created_at) ==> (final(self).pull_out@.len()
                == old(self).pull_out@.len() + 1 && final(self).pull_out@.drop_last() == old(self).pull_out@ && spec_enriched_matches(pr, final(self).pull_out@.last()))),
            result is Err ==> final(self).pull_out == old(self).pull_out,
            result matches Ok(pr) ==> (!in_window(pr.created_at) ==> final(self).pull_out == old(self).pull_out),
            old(self).di + 1 < old(self).detail_numbers@.len() ==> final(self).phase
                == Phase::NeedPullDetail && final(self).di == old(self).di + 1 && final(self).ti
                == old(self).ti && final(self).ri == old(self).ri && final(self).detail_numbers
                == old(self).detail_numbers,
            old(self).di + 1 == old(self).detail_numbers@.len() ==> (final(self).ti > old(self).ti || final(self).ri > old(self).ri),
    {
        match result {
            Ok(pr) => {
                let rec = scrape_pull_request(pr);
                if check_in_window(rec.created_at) {
                    self.pull_out.push(rec);
                }
            },
            Err(_) => {},
        }
        let n = self.detail_numbers.len();
        self.di += 1;
        if self.di == n {
            self.skip_repo();
        }
    }

    /// Publishes the serialized collections into the cache, all keys
    /// together or none, and finishes the cycle. A serialization failure is
    /// the cycle-level error that triggers backoff; the cache then keeps its
    /// previous contents.
    pub fn publish_serialized(
        &mut self,
        cache: &mut Cache,
        repo_json: Result<String, String>,
        contributors_json: Result<String, String>,
        pull_request_json: Result<String, String>,
        now: i64,
    ) -> (r: Result<(), ScrapError>)
        requires
            wf_orchestrator(*old(self)),
            old(self).phase == Phase::ReadyToPublish,
        ensures
            wf_orchestrator(*final(self)),
            final(self).phase == Phase::Finished,
            final(self).repo_out == old(self).repo_out,
            final(self).contrib_out == old(self).contrib_out,
            final(self).pull_out == old(self).pull_out,
            r is Ok <==> (repo_json is Ok && contributors_json is Ok && pull_request_json is Ok),
            r is Ok ==> final(cache).spec_repo() == Some(repo_json->Ok_0@) && final(cache)
                .spec_contributors() == Some(contributors_json->Ok_0@) && final(cache)
                .spec_pull_request() == Some(pull_request_json->Ok_0@) && final(cache)
                .spec_last_scrape() == Some(now),
            r is Err ==> *final(cache) == *old(cache) && r->Err_0 is Serde,
    {
        self.phase = Phase::Finished;
        cache.publish(repo_json, contributors_json, pull_request_json, now)
    }
}

/// A repository without the eligibility topic yields no repository record:
/// every record a cycle has grown carries the topic, and the cycle went on
/// regardless of how many repositories were skipped.
pub proof fn lemma_records_are_eligible(o: Orchestrator, i: int)
    requires
        wf_orchestrator(o),
        0 <= i < o.repo_out@.len(),
    ensures
        spec_eligible_topics(o.repo_out@[i].topics@),
{
}

/// A pull request created outside the window yields no published record:
/// every record a cycle has grown was created inside it.
pub proof fn lemma_published_pulls_windowed(o: Orchestrator, i: int)
    requires
        wf_orchestrator(o),
        0 <= i < o.pull_out@.len(),
    ensures
        in_window(o.pull_out@[i].created_at),
{
}

} // verus!
