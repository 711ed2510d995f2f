//! Data model of the remote code-hosting API, with the pure parts of the
//! client: response classification, issue cleaning, language ordering and
//! rate-limit header parsing. Times are Unix seconds; the network calls
//! themselves live outside the library and hand these values in.

use vstd::prelude::*;
use vstd::string::StringExecFns;
use vstd::string::StringSliceAdditionalSpecFns;
use vstd::multiset::Multiset;
use crate::numbers::{
    i64_to_string, parse_i64, spec_hex_digit, spec_i64_dec, spec_int_value, spec_parses_as_i64,
};

verus! {

/// Rate-limit state of one resource class, as the API reports it.
#[derive(Debug)]
pub struct Rate {
    pub limit: i64,
    pub remaining: i64,
    pub reset: i64,
    pub used: i64,
    pub resource: String,
}

/// Rate-limit state per resource class.
#[derive(Debug)]
pub struct Resources {
    pub core: Rate,
    pub graphql: Rate,
    pub integration_manifest: Rate,
    pub search: Rate,
}

/// Answer of the rate-limit endpoint.
#[derive(Debug)]
pub struct RateLimitResponse {
    resources: Resources,
    rate: Rate,
}

impl RateLimitResponse {
    /// The per-resource and overall rate state, as one value.
    pub fn new(resources: Resources, rate: Rate) -> (r: Self)
        ensures
            r.spec_resources() == resources,
            r.spec_rate() == rate,
    {
        RateLimitResponse { resources, rate }
    }

    pub closed spec fn spec_resources(&self) -> Resources {
        self.resources
    }

    pub closed spec fn spec_rate(&self) -> Rate {
        self.rate
    }

    pub fn rate(&self) -> (r: &Rate)
        ensures
            *r == self.spec_rate(),
    {
        &self.rate
    }

    pub fn resources(&self) -> (r: &Resources)
        ensures
            *r == self.spec_resources(),
    {
        &self.resources
    }
}

/// An account, as it appears on issues and pull requests.
#[derive(Debug)]
pub struct User {
    pub login: String,
    pub avatar_url: String,
    pub html_url: String,
}

/// A label attached to an issue.
#[derive(Debug)]
pub struct Label {
    pub name: String,
    pub color: String,
    pub description: String,
}

/// A repository as the listing endpoint reports it.
#[derive(Debug)]
pub struct Repository {
    pub name: String,
    pub full_name: String,
    pub html_url: String,
    pub description: Option<String>,
    pub language: Option<String>,
    pub stargazers_count: i64,
    pub forks_count: i64,
    pub forks: i64,
    pub topics: Vec<String>,
    pub created_at: i64,
    pub updated_at: i64,
}

/// An issue as the listing endpoint reports it. The listing conflates issues
/// and pull requests; a node identifier starting with the pull-request prefix
/// marks the latter.
#[derive(Debug)]
pub struct Issue {
    pub node_id: String,
    pub html_url: String,
    pub title: String,
    pub comments: i64,
    pub user: User,
    pub labels: Vec<Label>,
    pub created_at: i64,
    pub updated_at: i64,
}

/// A pull request as the API reports it; fields the API may omit are options.
#[derive(Debug)]
pub struct PullRequest {
    pub html_url: String,
    pub state: String,
    pub title: String,
    pub number: i64,
    pub locked: bool,
    pub user: User,
    pub merged_at: Option<i64>,
    pub closed_at: Option<i64>,
    pub created_at: i64,
    pub updated_at: i64,
    pub merged: Option<bool>,
    pub mergeable_state: Option<String>,
    pub draft: Option<bool>,
    pub requested_reviewers: Option<Vec<User>>,
    pub author_association: Option<String>,
    pub comments: Option<i64>,
    pub review_comments: Option<i64>,
    pub additions: Option<i64>,
    pub deletions: Option<i64>,
    pub changed_files: Option<i64>,
}

/// Body of an error answer of the API.
#[derive(Debug)]
pub struct GithubErrorResponse {
    pub message: String,
    pub documentation_url: String,
}

/// An error answer together with the rate state its headers carried.
#[derive(Debug)]
pub struct GithubErrorMetadata {
    pub response: GithubErrorResponse,
    pub rate: Rate,
}

/// Classified failure of one API call: a rate-limited answer with its quota
/// metadata, an unexpected status code, or a transport failure with its
/// message.
#[derive(Debug)]
pub enum GithubError {
    App(GithubErrorMetadata),
    StatusCode(u16),
    Request(String),
}

/// How the body of an API answer with this status code is to be read: a
/// success to parse, a rate-limited refusal carrying quota metadata, or an
/// unexpected status surfaced as is.
#[derive(Debug, Clone, Copy, PartialEq, Eq, Structural)]
pub enum StatusClass {
    Success,
    RateLimited,
    Unexpected,
}

/// The status classification: 200 is success, 403 carries the rate-limit
/// refusal body, everything else is unexpected.
pub open spec fn spec_classify_status(code: u16) -> StatusClass {
    if code == 200 {
        StatusClass::Success
    } else if code == 403 {
        StatusClass::RateLimited
    } else {
        StatusClass::Unexpected
    }
}

/// Classifies the status code of an API answer.
pub fn classify_status(code: u16) -> (c: StatusClass)
    ensures
        c == spec_classify_status(code),
{
    if code == 200 {
        StatusClass::Success
    } else if code == 403 {
        StatusClass::RateLimited
    } else {
        StatusClass::Unexpected
    }
}

/// Character-wise string comparison, so that code can hold a value against a
/// literal.
pub fn str_eq(a: &str, b: &str) -> (r: bool)
    ensures
        r == (a@ == b@),
{
    let la = a.unicode_len();
    let lb = b.unicode_len();
    if la != lb {
        return false;
    }
    let mut i: usize = 0;
    while i < la
        invariant
            i <= la,
            la == a@.len(),
            lb == b@.len(),
            la == lb,
            forall|t: int| 0 <= t < i ==> a@[t] == b@[t],
        decreases la - i,
    {
        if a.get_char(i) != b.get_char(i) {
            return false;
        }
        i += 1;
    }
    proof {
        assert(a@ =~= b@);
    }
    true
}

/// Whether a node identifier marks a pull request: it starts with `PR_`.
pub open spec fn spec_is_pull_node(id: Seq<char>) -> bool {
    id.len() >= 3 && id[0] == 'P' && id[1] == 'R' && id[2] == '_'
}

/// The issues of a listing that really are issues, in listing order: entries
/// whose node identifier marks a pull request are dropped.
pub open spec fn clean_issues_of(issues: Seq<Issue>) -> Seq<Issue> {
    issues.filter(|i: Issue| !spec_is_pull_node(i.node_id@))
}

/// Whether this issue's node identifier marks a pull request.
pub fn issue_is_pull(issue: &Issue) -> (r: bool)
    ensures
        r == spec_is_pull_node(issue.node_id@),
{
    let id = issue.node_id.as_str();
    id.unicode_len() >= 3 && id.get_char(0) == 'P' && id.get_char(1) == 'R' && id.get_char(2) == '_'
}

/// Drops every listed entry whose node identifier marks a pull request,
/// keeping the order of the rest.
pub fn clean_issues(issues: Vec<Issue>) -> (clean: Vec<Issue>)
    ensures
        clean@ == clean_issues_of(issues@),
{
    let ghost s0 = issues@;
    let mut rest = issues;
    let mut clean: Vec<Issue> = Vec::new();
    let ghost mut j: int = 0;
    while rest.len() > 0
        invariant
            0 <= j <= s0.len(),
            rest@ == s0.skip(j),
            clean@ == clean_issues_of(s0.take(j)),
        decreases rest@.len(),
    {
        let issue = rest.remove(0);
        proof {
            assert(issue == s0[j]);
            assert(s0.skip(j).remove(0) =~= s0.skip(j + 1));
        }
        let is_pull = issue_is_pull(&issue);
        if !is_pull {
            clean.push(issue);
        }
        proof {
            reveal(Seq::filter);
            assert(s0.take(j + 1).drop_last() == s0.take(j));
            assert(s0.take(j + 1).last() == s0[j]);
            j = j + 1;
        }
    }
    proof {
        assert(s0.take(s0.len() as int) == s0);
    }
    clean
}

/// Whether an issue carries the eligibility label.
pub open spec fn spec_has_eligible_label(issue: Issue) -> bool {
    exists|j: int|
        0 <= j < issue.labels@.len() && (#[trigger] issue.labels@[j]).name@ == "hacktoberfest"@
}

/// Whether this issue carries the eligibility label.
pub fn has_eligible_label(issue: &Issue) -> (r: bool)
    ensures
        r == spec_has_eligible_label(*issue),
{
    let marker = String::from_str("hacktoberfest");
    let mut j: usize = 0;
    while j < issue.labels.len()
        invariant
            j <= issue.labels@.len(),
            marker@ == "hacktoberfest"@,
            forall|k: int|
                0 <= k < j ==> (#[trigger] issue.labels@[k]).name@ != "hacktoberfest"@,
        decreases issue.labels@.len() - j,
    {
        if issue.labels[j].name == marker {
            return true;
        }
        j += 1;
    }
    false
}

/// Whether a topic list carries the eligibility topic.
pub open spec fn spec_eligible_topics(topics: Seq<String>) -> bool {
    exists|j: int| 0 <= j < topics.len() && (#[trigger] topics[j])@ == "hacktoberfest"@
}

/// Whether a repository carries the eligibility topic.
pub open spec fn spec_repo_eligible(repo: Repository) -> bool {
    spec_eligible_topics(repo.topics@)
}

/// Whether this repository carries the eligibility topic; a repository
/// without it is silently skipped, never an aborted cycle.
pub fn repo_is_eligible(repo: &Repository) -> (r: bool)
    ensures
        r == spec_repo_eligible(*repo),
{
    let marker = String::from_str("hacktoberfest");
    let mut j: usize = 0;
    while j < repo.topics.len()
        invariant
            j <= repo.topics@.len(),
            marker@ == "hacktoberfest"@,
            forall|k: int| 0 <= k < j ==> (#[trigger] repo.topics@[k])@ != "hacktoberfest"@,
        decreases repo.topics@.len() - j,
    {
        if repo.topics[j] == marker {
            return true;
        }
        j += 1;
    }
    false
}


/// The first value of the header list that carries this key, as the header
/// map of an answer hands keys out.
pub open spec fn spec_header_lookup(pairs: Seq<(String, String)>, key: Seq<char>) -> Option<
    Seq<char>,
>
    decreases pairs.len(),
{
    if pairs.len() == 0 {
        None
    } else if pairs.first().0@ == key {
        Some(pairs.first().1@)
    } else {
        spec_header_lookup(pairs.drop_first(), key)
    }
}

/// Finds the first header with this key.
fn header_value<'a>(pairs: &'a Vec<(String, String)>, key: &str) -> (r: Option<&'a String>)
    ensures
        match r {
            Some(v) => spec_header_lookup(pairs@, key@) == Some(v@),
            None => spec_header_lookup(pairs@, key@) is None,
        },
{
    let mut i: usize = 0;
    proof {
        assert(pairs@.skip(0) =~= pairs@);
    }
    while i < pairs.len()
        invariant
            i <= pairs@.len(),
            spec_header_lookup(pairs@.skip(i as int), key@) == spec_header_lookup(pairs@, key@),
        decreases pairs@.len() - i,
    {
        proof {
            assert(pairs@.skip(i as int).first() == pairs@[i as int]);
            assert(pairs@.skip(i as int).drop_first() =~= pairs@.skip(i + 1));
        }
        if str_eq(pairs[i].0.as_str(), key) {
            return Some(&pairs[i].1);
        }
        i += 1;
    }
    proof {
        assert(pairs@.skip(pairs@.len() as int) =~= Seq::<(String, String)>::empty());
    }
    None
}

/// The numeric field a rate-limit header contributes: the first value under
/// the key when it reads as a number, zero when it does not or the key is
/// absent.
pub open spec fn spec_rate_field(pairs: Seq<(String, String)>, key: Seq<char>) -> int {
    match spec_header_lookup(pairs, key) {
        Some(v) => if spec_parses_as_i64(v) {
            spec_int_value(v)
        } else {
            0
        },
        None => 0,
    }
}

impl Rate {
    /// Reads the rate state out of an answer's headers, handed over as
    /// key-value pairs in header order. Absent or unreadable values fall
    /// back to zero, the resource name to the empty string.
    pub fn from_header_pairs(pairs: &Vec<(String, String)>) -> (rate: Rate)
        ensures
            rate.limit == spec_rate_field(pairs@, "x-ratelimit-limit"@),
            rate.remaining == spec_rate_field(pairs@, "x-ratelimit-remaining"@),
            rate.reset == spec_rate_field(pairs@, "x-ratelimit-reset"@),
            rate.used == spec_rate_field(pairs@, "x-ratelimit-used"@),
            rate.resource@ == (match spec_header_lookup(pairs@, "x-ratelimit-resource"@) {
                Some(v) => v,
                None => Seq::<char>::empty(),
            }),
    {
        let limit = rate_field(pairs, "x-ratelimit-limit");
        let remaining = rate_field(pairs, "x-ratelimit-remaining");
        let reset = rate_field(pairs, "x-ratelimit-reset");
        let used = rate_field(pairs, "x-ratelimit-used");
        let resource = match header_value(pairs, "x-ratelimit-resource") {
            Some(v) => v.clone(),
            None => String::new(),
        };
        Rate { limit, remaining, reset, used, resource }
    }
}

/// Reads one numeric rate-limit header.
fn rate_field(pairs: &Vec<(String, String)>, key: &str) -> (v: i64)
    ensures
        v == spec_rate_field(pairs@, key@),
{
    match header_value(pairs, key) {
        Some(raw) => match parse_i64(raw.as_str()) {
            Some(v) => v,
            None => 0,
        },
        None => 0,
    }
}

/// A byte the URL encoding leaves as it stands: an ASCII letter or digit,
/// or one of `-`, `.`, `_`, `~`.
pub open spec fn spec_url_unreserved(b: u8) -> bool {
    (48 <= b && b <= 57) || (65 <= b && b <= 90) || (97 <= b && b <= 122) || b == 45 || b == 46
        || b == 95 || b == 126
}

/// The percent-encoding of a byte string: unreserved bytes stand as
/// themselves, every other byte becomes `%` and two upper-case hex digits.
pub open spec fn spec_url_encoded(data: Seq<u8>) -> Seq<char>
    decreases data.len(),
{
    if data.len() == 0 {
        Seq::empty()
    } else {
        (if spec_url_unreserved(data.first()) {
            seq![data.first() as char]
        } else {
            seq![
                '%',
                spec_hex_digit(data.first() as int / 16),
                spec_hex_digit(data.first() as int % 16),
            ]
        }) + spec_url_encoded(data.drop_first())
    }
}

/// Relies on urlencoding::encode: every byte of the UTF-8 form except ASCII
/// alphanumerics and `-`, `.`, `_`, `~` is percent-encoded with upper-case
/// hex digits.
#[verifier::external_body]
fn url_encode(s: &str) -> (r: String)
    ensures
        r@ == spec_url_encoded(s.spec_bytes()),
{
    urlencoding::encode(s).into_owned()
}

/// The address of the user repository listing, the user percent-encoded.
pub fn repository_list_url(user: &str) -> (url: String)
    ensures
        url@ == "https://api.github.com/users/"@ + spec_url_encoded(user.spec_bytes())
            + "/repos"@,
{
    let mut url = String::from_str("https://api.github.com/users/");
    url.append(url_encode(user).as_str());
    url.append("/repos");
    url
}

/// The common base of the per-repository endpoints, both parts
/// percent-encoded.
pub open spec fn spec_repo_api_base(user: &str, repo: &str) -> Seq<char> {
    "https://api.github.com/repos/"@ + spec_url_encoded(user.spec_bytes()) + "/"@
        + spec_url_encoded(repo.spec_bytes())
}

fn repo_api_base(user: &str, repo: &str) -> (url: String)
    ensures
        url@ == spec_repo_api_base(user, repo),
{
    let mut url = String::from_str("https://api.github.com/repos/");
    url.append(url_encode(user).as_str());
    url.append("/");
    url.append(url_encode(repo).as_str());
    url
}

/// The address of the issue listing of one repository.
pub fn issues_url(user: &str, repo: &str) -> (url: String)
    ensures
        url@ == spec_repo_api_base(user, repo) + "/issues"@,
{
    let mut url = repo_api_base(user, repo);
    url.append("/issues");
    url
}

/// The address of the language listing of one repository.
pub fn languages_url(user: &str, repo: &str) -> (url: String)
    ensures
        url@ == spec_repo_api_base(user, repo) + "/languages"@,
{
    let mut url = repo_api_base(user, repo);
    url.append("/languages");
    url
}

/// The address of the pull-request listing of one repository.
pub fn pulls_url(user: &str, repo: &str) -> (url: String)
    ensures
        url@ == spec_repo_api_base(user, repo) + "/pulls"@,
{
    let mut url = repo_api_base(user, repo);
    url.append("/pulls");
    url
}

/// The address of one pull request, its number in decimal.
pub fn pull_request_url(user: &str, repo: &str, number: i64) -> (url: String)
    ensures
        url@ == spec_repo_api_base(user, repo) + "/pulls/"@ + spec_i64_dec(number as int),
{
    let mut url = repo_api_base(user, repo);
    url.append("/pulls/");
    url.append(i64_to_string(number).as_str());
    url
}

/// Descending order by reported byte count.
pub open spec fn sorted_desc(s: Seq<(String, i64)>) -> bool {
    forall|i: int, j: int| 0 <= i < j < s.len() ==> (#[trigger] s[i]).1 >= (#[trigger] s[j]).1
}

/// Orders language/byte-count pairs by descending byte count. The result
/// holds the same pairs; the order of equal counts is not pinned down, as
/// the listing hands the pairs out of a map in no fixed order.
pub fn sort_language_pairs(pairs: Vec<(String, i64)>) -> (sorted: Vec<(String, i64)>)
    ensures
        sorted@.to_multiset() == pairs@.to_multiset(),
        sorted_desc(sorted@),
{
    broadcast use vstd::seq_lib::group_to_multiset_ensures;
    broadcast use vstd::multiset::group_multiset_axioms;
    broadcast use vstd::multiset::group_multiset_properties;

    let mut rest = pairs;
    let mut sorted: Vec<(String, i64)> = Vec::new();
    proof {
        assert(Seq::<(String, i64)>::empty().to_multiset() =~= Multiset::<(String, i64)>::empty());
        assert(sorted@.to_multiset().add(rest@.to_multiset()) =~= pairs@.to_multiset());
    }
    while rest.len() > 0
        invariant
            sorted@.to_multiset().add(rest@.to_multiset()) == pairs@.to_multiset(),
            sorted_desc(sorted@),
            forall|a: int, b: int|
                0 <= a < sorted@.len() && 0 <= b < rest@.len() ==> (#[trigger] sorted@[a]).1 >= (
                #[trigger] rest@[b]).1,
        decreases rest@.len(),
    {
        let mut m: usize = 0;
        let mut i: usize = 1;
        while i < rest.len()
            invariant
                m < i <= rest@.len() || (i <= rest@.len() && m == 0),
                m < rest@.len(),
                forall|t: int| 0 <= t < i ==> (#[trigger] rest@[t]).1 <= rest@[m as int].1,
            decreases rest@.len() - i,
        {
            if rest[i].1 > rest[m].1 {
                m = i;
            }
            i += 1;
        }
        let ghost rest0 = rest@;
        let x = rest.remove(m);
        proof {
            assert(x == rest0[m as int]);
            vstd::seq_lib::to_multiset_remove::<(String, i64)>(rest0, m as int);
            assert(rest0.contains(x)) by {
                assert(rest0[m as int] == x);
            }
            vstd::seq_lib::to_multiset_contains::<(String, i64)>(rest0, x);
            assert(rest0.to_multiset().count(x) > 0);
        }
        let ghost before = sorted@;
        sorted.push(x);
        proof {
            assert(sorted@ == before.push(x));
            vstd::seq_lib::to_multiset_build::<(String, i64)>(before, x);
            assert(sorted@.to_multiset() =~= before.to_multiset().insert(x));
            assert forall|v: (String, i64)|
                sorted@.to_multiset().add(rest@.to_multiset()).count(v) == before.to_multiset().add(
                    rest0.to_multiset(),
                ).count(v) by {
                assert(sorted@.to_multiset().count(v) == before.to_multiset().count(v) + (if v
                    == x {
                    1int
                } else {
                    0int
                }));
                assert(rest@.to_multiset().count(v) == rest0.to_multiset().count(v) - (if v == x {
                    1int
                } else {
                    0int
                }));
            }
            assert(sorted@.to_multiset().add(rest@.to_multiset()) =~= before.to_multiset().add(
                rest0.to_multiset(),
            ));
            assert forall|a: int, b: int|
                0 <= a < b < sorted@.len() implies (#[trigger] sorted@[a]).1 >= (
            #[trigger] sorted@[b]).1 by {
                if b == sorted@.len() - 1 {
                    assert(sorted@[a] == before[a]);
                    assert(sorted@[b] == x);
                } else {
                    assert(sorted@[a] == before[a] && sorted@[b] == before[b]);
                }
            }
            assert forall|a: int, b: int|
                0 <= a < sorted@.len() && 0 <= b < rest@.len() implies (#[trigger] sorted@[a]).1
                >= (#[trigger] rest@[b]).1 by {
                assert(rest@[b] == rest0.remove(m as int)[b]);
                if b < m {
                    assert(rest@[b] == rest0[b]);
                } else {
                    assert(rest@[b] == rest0[b + 1]);
                }
                if a < sorted@.len() - 1 {
                    assert(sorted@[a] == before[a]);
                } else {
                    assert(sorted@[a] == x);
                }
            }
        }
    }
    proof {
        assert(rest@.to_multiset() =~= Multiset::<(String, i64)>::empty());
        assert(sorted@.to_multiset().add(rest@.to_multiset()) =~= sorted@.to_multiset());
    }
    sorted
}

/// The language names of a listing, ordered by descending byte count: some
/// descending arrangement of the given pairs, first parts only.
pub fn sort_languages(pairs: Vec<(String, i64)>) -> (names: Vec<String>)
    ensures
        exists|arranged: Seq<(String, i64)>|
            arranged.to_multiset() == pairs@.to_multiset() && sorted_desc(arranged)
                && names@.len() == arranged.len() && (forall|i: int|
                0 <= i < arranged.len() ==> names@[i] == (#[trigger] arranged[i]).0),
{
    let ghost pairs0 = pairs@;
    let sorted = sort_language_pairs(pairs);
    let ghost arranged = sorted@;
    let mut rest = sorted;
    let mut names: Vec<String> = Vec::new();
    let ghost mut j: int = 0;
    while rest.len() > 0
        invariant
            0 <= j <= arranged.len(),
            rest@ == arranged.skip(j),
            names@.len() == j,
            forall|t: int| 0 <= t < j ==> names@[t] == (#[trigger] arranged[t]).0,
        decreases rest@.len(),
    {
        let x = rest.remove(0);
        proof {
            assert(x == arranged[j]);
            assert(arranged.skip(j).remove(0) =~= arranged.skip(j + 1));
        }
        names.push(x.0);
        proof {
            j = j + 1;
        }
    }
    proof {
        assert(arranged.to_multiset() == pairs0.to_multiset() && sorted_desc(arranged)
            && names@.len() == arranged.len() && (forall|i: int|
            0 <= i < arranged.len() ==> names@[i] == (#[trigger] arranged[i]).0));
    }
    names
}

} // verus!
