//! Per-contributor tallies: pull requests created inside the fixed window are
//! folded into merge/pending counters per login. The totals are sums over the
//! input and do not depend on the order in which pulls are processed.

use vstd::prelude::*;
use vstd::pervasive::VecAdditionalExecFns;
use vstd::multiset::Multiset;
use crate::github::PullRequest;
use crate::window::{check_in_window, check_merged_in_window, in_window, merged_in_window};

verus! {

/// One contributor's tallies for a cycle.
#[derive(Debug)]
pub struct ContributorCollection {
    pub full_name: String,
    pub profile_url: String,
    pub merged_pulls: i64,
    pub pending_pulls: i64,
}

/// Whether a pull request takes part in the tallies at all: it was created
/// inside the window.
pub open spec fn pull_in_window(p: PullRequest) -> bool {
    in_window(p.created_at)
}

/// A windowed pull of this login that counts as merged.
pub open spec fn counts_merged_for(p: PullRequest, login: Seq<char>) -> bool {
    pull_in_window(p) && p.user.login@ == login && merged_in_window(p.merged_at)
}

/// A windowed pull of this login that counts as pending. Exactly one of
/// merged and pending holds of every windowed pull.
pub open spec fn counts_pending_for(p: PullRequest, login: Seq<char>) -> bool {
    pull_in_window(p) && p.user.login@ == login && !merged_in_window(p.merged_at)
}

/// How many pulls of the sequence count as merged for this login.
pub open spec fn merged_count(pulls: Seq<PullRequest>, login: Seq<char>) -> int
    decreases pulls.len(),
{
    if pulls.len() == 0 {
        0
    } else {
        merged_count(pulls.drop_last(), login) + if counts_merged_for(pulls.last(), login) {
            1int
        } else {
            0int
        }
    }
}

/// How many pulls of the sequence count as pending for this login.
pub open spec fn pending_count(pulls: Seq<PullRequest>, login: Seq<char>) -> int
    decreases pulls.len(),
{
    if pulls.len() == 0 {
        0
    } else {
        pending_count(pulls.drop_last(), login) + if counts_pending_for(pulls.last(), login) {
            1int
        } else {
            0int
        }
    }
}

/// The merged predicate for one login, as a value, so that every filter over
/// it names one and the same function.
pub open spec fn relevant_merged(login: Seq<char>) -> spec_fn(PullRequest) -> bool {
    |q: PullRequest| counts_merged_for(q, login)
}

/// The pending predicate for one login, as a value.
pub open spec fn relevant_pending(login: Seq<char>) -> spec_fn(PullRequest) -> bool {
    |q: PullRequest| counts_pending_for(q, login)
}

/// Whether some record of the sequence carries this login.
pub open spec fn has_login(s: Seq<ContributorCollection>, login: Seq<char>) -> bool {
    exists|i: int| 0 <= i < s.len() && (#[trigger] s[i]).full_name@ == login
}

/// Whether some windowed pull of the sequence carries the record's login and
/// profile link: every record a cycle publishes has such a witness.
pub open spec fn record_witnessed(pulls: Seq<PullRequest>, r: ContributorCollection) -> bool {
    exists|q: int|
        0 <= q < pulls.len() && pull_in_window(#[trigger] pulls[q]) && pulls[q].user.login@
            == r.full_name@ && pulls[q].user.html_url@ == r.profile_url@
}

proof fn lemma_witness_extend(pulls: Seq<PullRequest>, j1: int, j2: int, r: ContributorCollection)
    requires
        0 <= j1 <= j2 <= pulls.len(),
        record_witnessed(pulls.take(j1), r),
    ensures
        record_witnessed(pulls.take(j2), r),
{
    let s = pulls.take(j1);
    let q = choose|q: int|
        0 <= q < s.len() && pull_in_window(#[trigger] s[q]) && s[q].user.login@ == r.full_name@
            && s[q].user.html_url@ == r.profile_url@;
    assert(pulls.take(j2)[q] == s[q]);
    assert(pull_in_window(pulls.take(j2)[q]));
}

proof fn lemma_witness_same_identity(
    s: Seq<PullRequest>,
    r1: ContributorCollection,
    r2: ContributorCollection,
)
    requires
        record_witnessed(s, r1),
        r1.full_name@ == r2.full_name@,
        r1.profile_url@ == r2.profile_url@,
    ensures
        record_witnessed(s, r2),
{
    let q = choose|q: int|
        0 <= q < s.len() && pull_in_window(#[trigger] s[q]) && s[q].user.login@ == r1.full_name@
            && s[q].user.html_url@ == r1.profile_url@;
    assert(pull_in_window(s[q]));
}

/// Well-formed contributor collections: one record per distinct login.
pub open spec fn wf_contributors(s: Seq<ContributorCollection>) -> bool {
    forall|i: int, j: int|
        0 <= i < j < s.len() ==> (#[trigger] s[i]).full_name@ != (#[trigger] s[j]).full_name@
}

proof fn lemma_multiset_filter_insert(
    m: Multiset<PullRequest>,
    p: PullRequest,
    f: spec_fn(PullRequest) -> bool,
)
    ensures
        m.insert(p).filter(f).len() == m.filter(f).len() + (if f(p) {
            1int
        } else {
            0int
        }),
{
    broadcast use vstd::multiset::group_multiset_axioms;
    broadcast use vstd::multiset::group_multiset_properties;

    if f(p) {
        assert(m.insert(p).filter(f) =~= m.filter(f).insert(p));
    } else {
        assert(m.insert(p).filter(f) =~= m.filter(f));
    }
}

/// The sequence counts equal the counts over the underlying multiset: the
/// tallies only depend on which pulls are present, with multiplicity.
pub proof fn lemma_counts_are_multiset_counts(pulls: Seq<PullRequest>, login: Seq<char>)
    ensures
        merged_count(pulls, login) == pulls.to_multiset().filter(relevant_merged(login)).len(),
        pending_count(pulls, login) == pulls.to_multiset().filter(relevant_pending(login)).len(),
    decreases pulls.len(),
{
    broadcast use vstd::seq_lib::group_to_multiset_ensures;

    if pulls.len() == 0 {
        assert(pulls.to_multiset() =~= Multiset::<PullRequest>::empty());
        assert(pulls.to_multiset().filter(relevant_merged(login)) =~= Multiset::<
            PullRequest,
        >::empty());
        assert(pulls.to_multiset().filter(relevant_pending(login)) =~= Multiset::<
            PullRequest,
        >::empty());
    } else {
        let rest = pulls.drop_last();
        let p = pulls.last();
        lemma_counts_are_multiset_counts(rest, login);
        assert(pulls == rest.push(p));
        assert(rest.push(p).to_multiset() =~= rest.to_multiset().insert(p));
        lemma_multiset_filter_insert(rest.to_multiset(), p, relevant_merged(login));
        lemma_multiset_filter_insert(rest.to_multiset(), p, relevant_pending(login));
        assert(relevant_merged(login)(p) == counts_merged_for(p, login));
        assert(relevant_pending(login)(p) == counts_pending_for(p, login));
    }
}

/// A login with no windowed pull in the sequence has zero tallies.
proof fn lemma_counts_zero_if_absent(s: Seq<PullRequest>, login: Seq<char>)
    requires
        forall|q: int|
            0 <= q < s.len() ==> !(pull_in_window(#[trigger] s[q]) && s[q].user.login@ == login),
    ensures
        merged_count(s, login) == 0,
        pending_count(s, login) == 0,
    decreases s.len(),
{
    if s.len() > 0 {
        assert forall|q: int| 0 <= q < s.drop_last().len() implies !(pull_in_window(
            #[trigger] s.drop_last()[q],
        ) && s.drop_last()[q].user.login@ == login) by {
            assert(s.drop_last()[q] == s[q]);
        }
        lemma_counts_zero_if_absent(s.drop_last(), login);
        assert(!counts_merged_for(s.last(), login));
        assert(!counts_pending_for(s.last(), login));
    }
}

/// A pull request created outside the window adds nothing to any login's
/// tallies.
pub proof fn lemma_out_of_window_pull_adds_nothing(
    pulls: Seq<PullRequest>,
    p: PullRequest,
    login: Seq<char>,
)
    requires
        !pull_in_window(p),
    ensures
        merged_count(pulls.push(p), login) == merged_count(pulls, login),
        pending_count(pulls.push(p), login) == pending_count(pulls, login),
{
    assert(pulls.push(p).drop_last() == pulls);
    assert(pulls.push(p).last() == p);
    assert(!counts_merged_for(p, login));
    assert(!counts_pending_for(p, login));
}

/// Contributor totals are order-independent: any two arrangements of the same
/// pulls give every login the same merged and pending tallies.
pub proof fn lemma_totals_order_independent(
    a: Seq<PullRequest>,
    b: Seq<PullRequest>,
    login: Seq<char>,
)
    requires
        a.to_multiset() == b.to_multiset(),
    ensures
        merged_count(a, login) == merged_count(b, login),
        pending_count(a, login) == pending_count(b, login),
{
    lemma_counts_are_multiset_counts(a, login);
    lemma_counts_are_multiset_counts(b, login);
}

/// The merged tally a collection carries for one login: the sum over its
/// records with that login (with one record per login, the record's counter).
pub open spec fn merged_of(s: Seq<ContributorCollection>, login: Seq<char>) -> int
    decreases s.len(),
{
    if s.len() == 0 {
        0
    } else {
        merged_of(s.drop_last(), login) + if s.last().full_name@ == login {
            s.last().merged_pulls as int
        } else {
            0int
        }
    }
}

/// The pending tally a collection carries for one login.
pub open spec fn pending_of(s: Seq<ContributorCollection>, login: Seq<char>) -> int
    decreases s.len(),
{
    if s.len() == 0 {
        0
    } else {
        pending_of(s.drop_last(), login) + if s.last().full_name@ == login {
            s.last().pending_pulls as int
        } else {
            0int
        }
    }
}

/// Every record's counters are nonnegative.
pub open spec fn nonneg_counts(s: Seq<ContributorCollection>) -> bool {
    forall|i: int|
        0 <= i < s.len() ==> 0 <= (#[trigger] s[i]).merged_pulls && 0 <= s[i].pending_pulls
}

/// A login without a record tallies zero.
pub proof fn lemma_tallies_absent(s: Seq<ContributorCollection>, login: Seq<char>)
    requires
        !has_login(s, login),
    ensures
        merged_of(s, login) == 0,
        pending_of(s, login) == 0,
    decreases s.len(),
{
    if s.len() > 0 {
        let rest = s.drop_last();
        assert(!has_login(rest, login)) by {
            if has_login(rest, login) {
                let i = choose|i: int|
                    0 <= i < rest.len() && (#[trigger] rest[i]).full_name@ == login;
                assert(s[i] == rest[i]);
                assert(has_login(s, login));
            }
        }
        lemma_tallies_absent(rest, login);
        assert(s[s.len() - 1].full_name@ != login);
    }
}

/// With one record per login, the tallies of a record's login are exactly its
/// counters.
pub proof fn lemma_wf_tallies_at(s: Seq<ContributorCollection>, i: int)
    requires
        wf_contributors(s),
        0 <= i < s.len(),
    ensures
        merged_of(s, s[i].full_name@) == s[i].merged_pulls,
        pending_of(s, s[i].full_name@) == s[i].pending_pulls,
    decreases s.len(),
{
    let login = s[i].full_name@;
    let rest = s.drop_last();
    assert forall|a: int, b: int| 0 <= a < b < rest.len() implies (#[trigger] rest[a]).full_name@
        != (#[trigger] rest[b]).full_name@ by {
        assert(rest[a] == s[a] && rest[b] == s[b]);
    }
    if i == s.len() - 1 {
        assert(!has_login(rest, login)) by {
            if has_login(rest, login) {
                let t = choose|t: int|
                    0 <= t < rest.len() && (#[trigger] rest[t]).full_name@ == login;
                assert(s[t] == rest[t]);
                assert(s[t].full_name@ == s[i].full_name@ && t < i);
                assert(false);
            }
        }
        lemma_tallies_absent(rest, login);
    } else {
        assert(rest[i] == s[i]);
        lemma_wf_tallies_at(rest, i);
        assert(s[s.len() - 1].full_name@ != login);
    }
}

/// Replacing one record by another of the same login shifts that login's
/// tallies by the counter difference and leaves every other login unchanged.
proof fn lemma_set_tallies(before: Seq<ContributorCollection>, after: Seq<ContributorCollection>, i: int)
    requires
        0 <= i < before.len(),
        after.len() == before.len(),
        forall|t: int| 0 <= t < before.len() && t != i ==> after[t] == before[t],
        after[i].full_name@ == before[i].full_name@,
    ensures
        forall|login: Seq<char>|
            #![trigger merged_of(after, login)]
            merged_of(after, login) == merged_of(before, login) + (if before[i].full_name@
                == login {
                after[i].merged_pulls - before[i].merged_pulls
            } else {
                0int
            }),
        forall|login: Seq<char>|
            #![trigger pending_of(after, login)]
            pending_of(after, login) == pending_of(before, login) + (if before[i].full_name@
                == login {
                after[i].pending_pulls - before[i].pending_pulls
            } else {
                0int
            }),
        forall|login: Seq<char>|
            #![trigger has_login(after, login)]
            has_login(after, login) <==> has_login(before, login),
    decreases before.len(),
{
    let ra = after.drop_last();
    let rb = before.drop_last();
    let n = before.len();
    if i == n - 1 {
        assert(ra =~= rb);
        assert forall|login: Seq<char>| #[trigger] merged_of(after, login) == merged_of(
            before,
            login,
        ) + (if before[i].full_name@ == login {
            after[i].merged_pulls - before[i].merged_pulls
        } else {
            0int
        }) by {
            assert(merged_of(after, login) == merged_of(ra, login) + (if after[n
                - 1].full_name@ == login {
                after[n - 1].merged_pulls as int
            } else {
                0int
            }));
            assert(merged_of(before, login) == merged_of(rb, login) + (if before[n
                - 1].full_name@ == login {
                before[n - 1].merged_pulls as int
            } else {
                0int
            }));
        }
        assert forall|login: Seq<char>| #[trigger] pending_of(after, login) == pending_of(
            before,
            login,
        ) + (if before[i].full_name@ == login {
            after[i].pending_pulls - before[i].pending_pulls
        } else {
            0int
        }) by {
            assert(pending_of(after, login) == pending_of(ra, login) + (if after[n
                - 1].full_name@ == login {
                after[n - 1].pending_pulls as int
            } else {
                0int
            }));
            assert(pending_of(before, login) == pending_of(rb, login) + (if before[n
                - 1].full_name@ == login {
                before[n - 1].pending_pulls as int
            } else {
                0int
            }));
        }
    } else {
        assert forall|t: int| 0 <= t < rb.len() && t != i implies ra[t] == rb[t] by {
            assert(ra[t] == after[t] && rb[t] == before[t]);
        }
        assert(ra[i] == after[i] && rb[i] == before[i]);
        lemma_set_tallies(rb, ra, i);
        assert(after[n - 1] == before[n - 1]);
        assert forall|login: Seq<char>| #[trigger] merged_of(after, login) == merged_of(
            before,
            login,
        ) + (if before[i].full_name@ == login {
            after[i].merged_pulls - before[i].merged_pulls
        } else {
            0int
        }) by {
            assert(merged_of(after, login) == merged_of(ra, login) + (if after[n
                - 1].full_name@ == login {
                after[n - 1].merged_pulls as int
            } else {
                0int
            }));
            assert(merged_of(before, login) == merged_of(rb, login) + (if before[n
                - 1].full_name@ == login {
                before[n - 1].merged_pulls as int
            } else {
                0int
            }));
            assert(merged_of(ra, login) == merged_of(rb, login) + (if rb[i].full_name@ == login {
                ra[i].merged_pulls - rb[i].merged_pulls
            } else {
                0int
            }));
        }
        assert forall|login: Seq<char>| #[trigger] pending_of(after, login) == pending_of(
            before,
            login,
        ) + (if before[i].full_name@ == login {
            after[i].pending_pulls - before[i].pending_pulls
        } else {
            0int
        }) by {
            assert(pending_of(after, login) == pending_of(ra, login) + (if after[n
                - 1].full_name@ == login {
                after[n - 1].pending_pulls as int
            } else {
                0int
            }));
            assert(pending_of(before, login) == pending_of(rb, login) + (if before[n
                - 1].full_name@ == login {
                before[n - 1].pending_pulls as int
            } else {
                0int
            }));
            assert(pending_of(ra, login) == pending_of(rb, login) + (if rb[i].full_name@ == login {
                ra[i].pending_pulls - rb[i].pending_pulls
            } else {
                0int
            }));
        }
    }
    assert forall|login: Seq<char>| #[trigger] has_login(after, login) implies has_login(
        before,
        login,
    ) by {
        let t = choose|t: int| 0 <= t < after.len() && (#[trigger] after[t]).full_name@ == login;
        assert(before[t].full_name@ == login);
    }
    assert forall|login: Seq<char>| has_login(before, login) implies #[trigger] has_login(
        after,
        login,
    ) by {
        let t = choose|t: int| 0 <= t < before.len() && (#[trigger] before[t]).full_name@ == login;
        assert(after[t].full_name@ == login);
    }
}

/// Merges one repository's tallies into the cycle-wide collection: per login
/// the counters add, and a login appears afterwards exactly when it appeared
/// in either input. The merge succeeds exactly when every summed counter
/// fits; on overflow nothing is changed.
pub fn merge_contributors(
    acc: &mut Vec<ContributorCollection>,
    add: Vec<ContributorCollection>,
) -> (ok: bool)
    requires
        wf_contributors(old(acc)@),
        nonneg_counts(old(acc)@),
        wf_contributors(add@),
        nonneg_counts(add@),
    ensures
        ok <==> (forall|login: Seq<char>|
            #![trigger merged_of(add@, login)]
            merged_of(old(acc)@, login) + merged_of(add@, login) <= i64::MAX && pending_of(
                old(acc)@,
                login,
            ) + pending_of(add@, login) <= i64::MAX),
        !ok ==> final(acc)@ == old(acc)@,
        wf_contributors(final(acc)@),
        nonneg_counts(final(acc)@),
        ok ==> forall|login: Seq<char>|
            #![trigger merged_of(final(acc)@, login)]
            merged_of(final(acc)@, login) == merged_of(old(acc)@, login) + merged_of(add@, login)
                && pending_of(final(acc)@, login) == pending_of(old(acc)@, login) + pending_of(
                add@,
                login,
            ),
        ok ==> forall|login: Seq<char>|
            #![trigger has_login(final(acc)@, login)]
            has_login(final(acc)@, login) <==> (has_login(old(acc)@, login) || has_login(
                add@,
                login,
            )),
{
    let ghost acc0 = acc@;
    let ghost add0 = add@;

    // First pass: check that every summed counter fits, changing nothing.
    let mut j: usize = 0;
    while j < add.len()
        invariant
            acc@ == acc0,
            add@ == add0,
            wf_contributors(acc0),
            nonneg_counts(acc0),
            wf_contributors(add0),
            nonneg_counts(add0),
            j <= add0.len(),
            forall|t: int|
                0 <= t < j ==> merged_of(acc0, (#[trigger] add0[t]).full_name@)
                    + add0[t].merged_pulls <= i64::MAX && pending_of(acc0, add0[t].full_name@)
                    + add0[t].pending_pulls <= i64::MAX,
        decreases add0.len() - j,
    {
        let entry = &add[j];
        let mut i: usize = 0;
        let mut found = false;
        while i < acc.len() && !found
            invariant
                acc@ == acc0,
                i <= acc0.len(),
                !found ==> forall|t: int|
                    0 <= t < i ==> (#[trigger] acc0[t]).full_name@ != entry.full_name@,
                found ==> i < acc0.len() && acc0[i as int].full_name@ == entry.full_name@,
            decreases acc0.len() - i + (if found {
                0int
            } else {
                1int
            }),
        {
            if acc[i].full_name == entry.full_name {
                found = true;
            } else {
                i += 1;
            }
        }
        if found {
            proof {
                lemma_wf_tallies_at(acc0, i as int);
            }
            let ok_m = acc[i].merged_pulls.checked_add(entry.merged_pulls).is_some();
            let ok_p = acc[i].pending_pulls.checked_add(entry.pending_pulls).is_some();
            if !ok_m || !ok_p {
                proof {
                    let bad = add0[j as int].full_name@;
                    lemma_wf_tallies_at(add0, j as int);
                    assert(merged_of(acc0, bad) + merged_of(add0, bad) > i64::MAX || pending_of(
                        acc0,
                        bad,
                    ) + pending_of(add0, bad) > i64::MAX);
                }
                return false;
            }
        } else {
            proof {
                let name = add0[j as int].full_name@;
                assert(!has_login(acc0, name)) by {
                    if has_login(acc0, name) {
                        let t = choose|t: int|
                            0 <= t < acc0.len() && (#[trigger] acc0[t]).full_name@ == name;
                        assert(false);
                    }
                }
                lemma_tallies_absent(acc0, name);
            }
        }
        j += 1;
    }

    proof {
        assert forall|login: Seq<char>|
            #![trigger merged_of(add0, login)]
            merged_of(acc0, login) + merged_of(add0, login) <= i64::MAX && pending_of(
                acc0,
                login,
            ) + pending_of(add0, login) <= i64::MAX by {
            if has_login(add0, login) {
                let t = choose|t: int|
                    0 <= t < add0.len() && (#[trigger] add0[t]).full_name@ == login;
                lemma_wf_tallies_at(add0, t);
            } else {
                lemma_tallies_absent(add0, login);
                if has_login(acc0, login) {
                    let t = choose|t: int|
                        0 <= t < acc0.len() && (#[trigger] acc0[t]).full_name@ == login;
                    lemma_wf_tallies_at(acc0, t);
                } else {
                    lemma_tallies_absent(acc0, login);
                }
            }
        }
    }

    // Second pass: apply; every sum is known to fit.
    let mut rest = add;
    let ghost mut m: int = 0;
    while rest.len() > 0
        invariant
            0 <= m <= add0.len(),
            rest@ == add0.skip(m),
            wf_contributors(acc@),
            nonneg_counts(acc@),
            wf_contributors(add0),
            nonneg_counts(add0),
            forall|login: Seq<char>|
                #![trigger merged_of(acc@, login)]
                merged_of(acc@, login) == merged_of(acc0, login) + merged_of(add0.take(m), login)
                    && pending_of(acc@, login) == pending_of(acc0, login) + pending_of(
                    add0.take(m),
                    login,
                ),
            forall|login: Seq<char>|
                #![trigger has_login(acc@, login)]
                has_login(acc@, login) <==> (has_login(acc0, login) || has_login(
                    add0.take(m),
                    login,
                )),
            forall|login: Seq<char>|
                #![trigger merged_of(add0, login)]
                merged_of(acc0, login) + merged_of(add0, login) <= i64::MAX && pending_of(
                    acc0,
                    login,
                ) + pending_of(add0, login) <= i64::MAX,
        decreases rest@.len(),
    {
        let entry = rest.remove(0);
        let ghost before = acc@;
        let ghost login = entry.full_name@;
        proof {
            assert(entry == add0[m]);
            assert(add0.skip(m).remove(0) =~= add0.skip(m + 1));
            assert(add0.take(m + 1).drop_last() == add0.take(m));
            assert(add0.take(m + 1).last() == add0[m]);
            assert(!has_login(add0.take(m), login)) by {
                if has_login(add0.take(m), login) {
                    let t = choose|t: int|
                        0 <= t < add0.take(m).len() && (#[trigger] add0.take(m)[t]).full_name@
                            == login;
                    assert(add0[t] == add0.take(m)[t]);
                    assert(false);
                }
            }
            lemma_tallies_absent(add0.take(m), login);
            lemma_wf_tallies_at(add0, m);
            // Unfold the prefix tallies one step for every login.
            assert forall|l: Seq<char>| #[trigger] merged_of(add0.take(m + 1), l) == merged_of(
                add0.take(m),
                l,
            ) + (if add0[m].full_name@ == l {
                add0[m].merged_pulls as int
            } else {
                0int
            }) by {}
            assert forall|l: Seq<char>| #[trigger] pending_of(add0.take(m + 1), l) == pending_of(
                add0.take(m),
                l,
            ) + (if add0[m].full_name@ == l {
                add0[m].pending_pulls as int
            } else {
                0int
            }) by {}
        }
        let mut i: usize = 0;
        let mut found = false;
        while i < acc.len() && !found
            invariant
                acc@ == before,
                i <= before.len(),
                !found ==> forall|t: int|
                    0 <= t < i ==> (#[trigger] before[t]).full_name@ != entry.full_name@,
                found ==> i < before.len() && before[i as int].full_name@ == entry.full_name@,
            decreases before.len() - i + (if found {
                0int
            } else {
                1int
            }),
        {
            if acc[i].full_name == entry.full_name {
                found = true;
            } else {
                i += 1;
            }
        }
        if found {
            proof {
                lemma_wf_tallies_at(before, i as int);
            }
            let rec = &acc[i];
            let updated = ContributorCollection {
                full_name: rec.full_name.clone(),
                profile_url: rec.profile_url.clone(),
                merged_pulls: rec.merged_pulls + entry.merged_pulls,
                pending_pulls: rec.pending_pulls + entry.pending_pulls,
            };
            acc.set(i, updated);
            proof {
                assert forall|t: int| 0 <= t < acc@.len() && t != i implies acc@[t]
                    == before[t] by {}
                assert(acc@[i as int].full_name@ == login);
                lemma_set_tallies(before, acc@, i as int);
                assert forall|a: int, b: int| 0 <= a < b < acc@.len() implies (
                #[trigger] acc@[a]).full_name@ != (#[trigger] acc@[b]).full_name@ by {
                    assert(acc@[a].full_name@ == before[a].full_name@);
                    assert(acc@[b].full_name@ == before[b].full_name@);
                }
            }
        } else {
            acc.push(entry);
            proof {
                assert(acc@.drop_last() =~= before);
                let last = acc@.len() - 1;
                assert(acc@[last].full_name@ == login);
                assert forall|t: int| 0 <= t < before.len() implies acc@[t] == before[t] by {}
                assert forall|a: int, b: int| 0 <= a < b < acc@.len() implies (
                #[trigger] acc@[a]).full_name@ != (#[trigger] acc@[b]).full_name@ by {
                    if b == last {
                        assert(before[a].full_name@ != login);
                    } else {
                        assert(acc@[a].full_name@ == before[a].full_name@);
                        assert(acc@[b].full_name@ == before[b].full_name@);
                    }
                }
                assert forall|l: Seq<char>| #[trigger] merged_of(acc@, l) == merged_of(before, l)
                    + (if login == l {
                    entry.merged_pulls as int
                } else {
                    0int
                }) by {}
                assert forall|l: Seq<char>| #[trigger] pending_of(acc@, l) == pending_of(before, l)
                    + (if login == l {
                    entry.pending_pulls as int
                } else {
                    0int
                }) by {}
                assert(!has_login(before, login)) by {
                    if has_login(before, login) {
                        let t = choose|t: int|
                            0 <= t < before.len() && (#[trigger] before[t]).full_name@ == login;
                        assert(false);
                    }
                }
                lemma_tallies_absent(before, login);
                assert forall|l: Seq<char>| #[trigger] has_login(acc@, l) implies (has_login(
                    before,
                    l,
                ) || login == l) by {
                    let t = choose|t: int|
                        0 <= t < acc@.len() && (#[trigger] acc@[t]).full_name@ == l;
                    if t < last {
                        assert(before[t].full_name@ == l);
                    }
                }
                assert forall|l: Seq<char>| has_login(before, l) implies #[trigger] has_login(
                    acc@,
                    l,
                ) by {
                    let t = choose|t: int|
                        0 <= t < before.len() && (#[trigger] before[t]).full_name@ == l;
                    assert(acc@[t].full_name@ == l);
                }
            }
        }
        proof {
            m = m + 1;
        }
    }
    proof {
        assert(add0.take(add0.len() as int) == add0);
    }
    true
}

/// The tallies of the records built from one repository's pulls are exactly
/// the windowed counts of those pulls, for every login.
pub proof fn lemma_collection_tallies(
    pulls: Seq<PullRequest>,
    records: Seq<ContributorCollection>,
    login: Seq<char>,
)
    requires
        wf_contributors(records),
        forall|i: int|
            0 <= i < records.len() ==> (#[trigger] records[i]).merged_pulls == merged_count(
                pulls,
                records[i].full_name@,
            ),
        forall|i: int|
            0 <= i < records.len() ==> (#[trigger] records[i]).pending_pulls == pending_count(
                pulls,
                records[i].full_name@,
            ),
        forall|k: int|
            0 <= k < pulls.len() && pull_in_window(#[trigger] pulls[k]) ==> has_login(
                records,
                pulls[k].user.login@,
            ),
    ensures
        merged_of(records, login) == merged_count(pulls, login),
        pending_of(records, login) == pending_count(pulls, login),
{
    if has_login(records, login) {
        let i = choose|i: int| 0 <= i < records.len() && (#[trigger] records[i]).full_name@ == login;
        lemma_wf_tallies_at(records, i);
    } else {
        lemma_tallies_absent(records, login);
        assert forall|q: int| 0 <= q < pulls.len() implies !(pull_in_window(#[trigger] pulls[q])
            && pulls[q].user.login@ == login) by {}
        lemma_counts_zero_if_absent(pulls, login);
    }
}

/// Folds a repository's pull requests into per-login tallies. Pulls created
/// outside the window are dropped; each windowed pull increments exactly one
/// of the two counters of its author's record. A record's profile link comes
/// from a windowed pull of that author.
pub fn scrape_contributor_collection(pulls: &Vec<PullRequest>) -> (contributors: Vec<
    ContributorCollection,
>)
    requires
        pulls@.len() <= i64::MAX,
    ensures
        wf_contributors(contributors@),
        forall|i: int|
            0 <= i < contributors@.len() ==> (#[trigger] contributors@[i]).merged_pulls
                == merged_count(pulls@, contributors@[i].full_name@),
        forall|i: int|
            0 <= i < contributors@.len() ==> (#[trigger] contributors@[i]).pending_pulls
                == pending_count(pulls@, contributors@[i].full_name@),
        forall|i: int|
            0 <= i < contributors@.len() ==> record_witnessed(
                pulls@,
                #[trigger] contributors@[i],
            ),
        forall|k: int|
            0 <= k < pulls@.len() && pull_in_window(#[trigger] pulls@[k]) ==> has_login(
                contributors@,
                pulls@[k].user.login@,
            ),
{
    let mut contributors: Vec<ContributorCollection> = Vec::new();
    let n = pulls.len();
    let mut k: usize = 0;
    while k < n
        invariant
            n == pulls@.len() <= i64::MAX,
            k <= n,
            wf_contributors(contributors@),
            forall|i: int|
                0 <= i < contributors@.len() ==> (#[trigger] contributors@[i]).merged_pulls
                    == merged_count(pulls@.take(k as int), contributors@[i].full_name@),
            forall|i: int|
                0 <= i < contributors@.len() ==> (#[trigger] contributors@[i]).pending_pulls
                    == pending_count(pulls@.take(k as int), contributors@[i].full_name@),
            forall|i: int|
                0 <= i < contributors@.len() ==> 0 <= (#[trigger] contributors@[i]).merged_pulls
                    && 0 <= contributors@[i].pending_pulls && contributors@[i].merged_pulls
                    + contributors@[i].pending_pulls <= k,
            forall|i: int|
                0 <= i < contributors@.len() ==> record_witnessed(
                    pulls@.take(k as int),
                    #[trigger] contributors@[i],
                ),
            forall|q: int|
                0 <= q < k && pull_in_window(#[trigger] pulls@[q]) ==> has_login(
                    contributors@,
                    pulls@[q].user.login@,
                ),
        decreases n - k,
    {
        let ghost prefix = pulls@.take(k as int);
        proof {
            assert(pulls@.take(k + 1).drop_last() == prefix);
            assert(pulls@.take(k + 1).last() == pulls@[k as int]);
            assert forall|l: Seq<char>| #[trigger] merged_count(pulls@.take(k + 1), l)
                == merged_count(prefix, l) + (if counts_merged_for(pulls@[k as int], l) {
                1int
            } else {
                0int
            }) by {}
            assert forall|l: Seq<char>| #[trigger] pending_count(pulls@.take(k + 1), l)
                == pending_count(prefix, l) + (if counts_pending_for(pulls@[k as int], l) {
                1int
            } else {
                0int
            }) by {}
        }
        let p = &pulls[k];
        if check_in_window(p.created_at) {
            let merged = check_merged_in_window(&p.merged_at);
            let mut i: usize = 0;
            let mut found = false;
            while i < contributors.len() && !found
                invariant
                    i <= contributors@.len(),
                    !found ==> forall|t: int|
                        0 <= t < i ==> (#[trigger] contributors@[t]).full_name@
                            != p.user.login@,
                    found ==> i < contributors@.len() && contributors@[i as int].full_name@
                        == p.user.login@,
                decreases contributors@.len() - i + (if found {
                    0int
                } else {
                    1int
                }),
            {
                if contributors[i].full_name == p.user.login {
                    found = true;
                } else {
                    i += 1;
                }
            }
            if found {
                let ghost before = contributors@;
                let rec = &contributors[i];
                let updated = ContributorCollection {
                    full_name: rec.full_name.clone(),
                    profile_url: rec.profile_url.clone(),
                    merged_pulls: if merged {
                        rec.merged_pulls + 1
                    } else {
                        rec.merged_pulls
                    },
                    pending_pulls: if !merged {
                        rec.pending_pulls + 1
                    } else {
                        rec.pending_pulls
                    },
                };
                contributors.set(i, updated);
                proof {
                    assert(contributors@[i as int].full_name == before[i as int].full_name);
                    assert(contributors@[i as int].profile_url == before[i as int].profile_url);
                    assert forall|t: int| 0 <= t < contributors@.len() && t != i implies
                        contributors@[t] == before[t] by {}
                    assert forall|a: int, b: int| 0 <= a < b < contributors@.len() implies (
                    #[trigger] contributors@[a]).full_name@ != (
                    #[trigger] contributors@[b]).full_name@ by {
                        assert(contributors@[a].full_name == before[a].full_name);
                        assert(contributors@[b].full_name == before[b].full_name);
                    }
                    assert(counts_merged_for(pulls@[k as int], before[i as int].full_name@)
                        == merged);
                    assert(counts_pending_for(pulls@[k as int], before[i as int].full_name@)
                        == !merged);
                    assert forall|t: int| 0 <= t < contributors@.len() implies (
                    #[trigger] contributors@[t]).merged_pulls == merged_count(
                        pulls@.take(k + 1),
                        contributors@[t].full_name@,
                    ) by {
                        if t != i {
                            assert(contributors@[t] == before[t]);
                            assert(before[t].full_name@ != before[i as int].full_name@);
                            assert(!counts_merged_for(pulls@[k as int], before[t].full_name@));
                        }
                    }
                    assert forall|t: int| 0 <= t < contributors@.len() implies (
                    #[trigger] contributors@[t]).pending_pulls == pending_count(
                        pulls@.take(k + 1),
                        contributors@[t].full_name@,
                    ) by {
                        if t != i {
                            assert(contributors@[t] == before[t]);
                            assert(!counts_pending_for(pulls@[k as int], before[t].full_name@));
                        }
                    }
                    assert forall|t: int| 0 <= t < contributors@.len() implies record_witnessed(
                        pulls@.take(k + 1),
                        #[trigger] contributors@[t],
                    ) by {
                        if t == i {
                            lemma_witness_same_identity(prefix, before[t], contributors@[t]);
                        } else {
                            assert(contributors@[t] == before[t]);
                        }
                        lemma_witness_extend(pulls@, k as int, k + 1, contributors@[t]);
                    }
                    assert forall|q: int|
                        0 <= q < k + 1 && pull_in_window(#[trigger] pulls@[q]) implies has_login(
                            contributors@,
                            pulls@[q].user.login@,
                        ) by {
                        if q < k {
                            let t = choose|t: int|
                                0 <= t < before.len() && (#[trigger] before[t]).full_name@
                                    == pulls@[q].user.login@;
                            assert(contributors@[t].full_name@ == pulls@[q].user.login@);
                        } else {
                            assert(contributors@[i as int].full_name@ == pulls@[q].user.login@);
                        }
                    }
                }
            } else {
                let ghost before = contributors@;
                let fresh = ContributorCollection {
                    full_name: p.user.login.clone(),
                    profile_url: p.user.html_url.clone(),
                    merged_pulls: if merged {
                        1
                    } else {
                        0
                    },
                    pending_pulls: if !merged {
                        1
                    } else {
                        0
                    },
                };
                contributors.push(fresh);
                proof {
                    let ghost last = contributors@.len() - 1;
                    assert(contributors@[last].full_name@ == pulls@[k as int].user.login@);
                    assert(contributors@[last].profile_url@ == pulls@[k as int].user.html_url@);
                    assert(pull_in_window(pulls@[k as int]));
                    assert forall|t: int| 0 <= t < before.len() implies contributors@[t]
                        == before[t] by {}
                    assert forall|a: int, b: int| 0 <= a < b < contributors@.len() implies (
                    #[trigger] contributors@[a]).full_name@ != (
                    #[trigger] contributors@[b]).full_name@ by {
                        if b == last {
                            assert(before[a].full_name@ != pulls@[k as int].user.login@);
                        }
                    }
                    assert(counts_merged_for(pulls@[k as int], fresh.full_name@) == merged);
                    assert(counts_pending_for(pulls@[k as int], fresh.full_name@) == !merged);
                    assert forall|q: int| 0 <= q < prefix.len() implies !(pull_in_window(
                        #[trigger] prefix[q],
                    ) && prefix[q].user.login@ == fresh.full_name@) by {
                        assert(prefix[q] == pulls@[q]);
                        if pull_in_window(pulls@[q]) && pulls@[q].user.login@
                            == fresh.full_name@ {
                            assert(has_login(before, pulls@[q].user.login@));
                            let t = choose|t: int|
                                0 <= t < before.len() && (#[trigger] before[t]).full_name@
                                    == pulls@[q].user.login@;
                            assert(false);
                        }
                    }
                    lemma_counts_zero_if_absent(prefix, fresh.full_name@);
                    assert forall|t: int| 0 <= t < contributors@.len() implies (
                    #[trigger] contributors@[t]).merged_pulls == merged_count(
                        pulls@.take(k + 1),
                        contributors@[t].full_name@,
                    ) by {
                        if t != last {
                            assert(contributors@[t] == before[t]);
                            assert(before[t].full_name@ != fresh.full_name@);
                            assert(!counts_merged_for(pulls@[k as int], before[t].full_name@));
                        }
                    }
                    assert forall|t: int| 0 <= t < contributors@.len() implies (
                    #[trigger] contributors@[t]).pending_pulls == pending_count(
                        pulls@.take(k + 1),
                        contributors@[t].full_name@,
                    ) by {
                        if t != last {
                            assert(contributors@[t] == before[t]);
                            assert(!counts_pending_for(pulls@[k as int], before[t].full_name@));
                        }
                    }
                    assert forall|t: int| 0 <= t < contributors@.len() implies record_witnessed(
                        pulls@.take(k + 1),
                        #[trigger] contributors@[t],
                    ) by {
                        if t != last {
                            assert(contributors@[t] == before[t]);
                            lemma_witness_extend(pulls@, k as int, k + 1, contributors@[t]);
                        } else {
                            assert(pulls@.take(k + 1)[k as int] == pulls@[k as int]);
                            assert(0 <= k < pulls@.take(k + 1).len() && pull_in_window(
                                pulls@.take(k + 1)[k as int],
                            ) && pulls@.take(k + 1)[k as int].user.login@
                                == contributors@[t].full_name@ && pulls@.take(
                                k + 1,
                            )[k as int].user.html_url@ == contributors@[t].profile_url@);
                        }
                    }
                    assert forall|q: int|
                        0 <= q < k + 1 && pull_in_window(#[trigger] pulls@[q]) implies has_login(
                            contributors@,
                            pulls@[q].user.login@,
                        ) by {
                        if q < k {
                            let t = choose|t: int|
                                0 <= t < before.len() && (#[trigger] before[t]).full_name@
                                    == pulls@[q].user.login@;
                            assert(contributors@[t].full_name@ == pulls@[q].user.login@);
                        } else {
                            assert(contributors@[last].full_name@ == pulls@[q].user.login@);
                        }
                    }
                }
            }
        } else {
            proof {
                assert(!pull_in_window(pulls@[k as int]));
                assert(wf_contributors(contributors@));
                assert forall|t: int| 0 <= t < contributors@.len() implies record_witnessed(
                    pulls@.take(k + 1),
                    #[trigger] contributors@[t],
                ) by {
                    lemma_witness_extend(pulls@, k as int, k + 1, contributors@[t]);
                }
                assert forall|i: int| 0 <= i < contributors@.len() implies (
                #[trigger] contributors@[i]).merged_pulls == merged_count(
                    pulls@.take(k + 1),
                    contributors@[i].full_name@,
                ) by {
                    assert(!counts_merged_for(pulls@[k as int], contributors@[i].full_name@));
                }
                assert forall|i: int| 0 <= i < contributors@.len() implies (
                #[trigger] contributors@[i]).pending_pulls == pending_count(
                    pulls@.take(k + 1),
                    contributors@[i].full_name@,
                ) by {
                    assert(!counts_pending_for(pulls@[k as int], contributors@[i].full_name@));
                }
            }
        }
        k += 1;
    }
    proof {
        assert(pulls@.take(n as int) == pulls@);
    }
    contributors
}

} // verus!
