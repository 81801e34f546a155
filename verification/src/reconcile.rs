//! The reconciliation engine: which locally rendered issues still have no
//! counterpart on the remote tracker, and how local and remote issues are
//! matched.

use crate::types::{LocalIssue, LocalIssueV};
use vstd::prelude::*;

verus! {

/// A remote issue reduced to what matching reads: its title and the names
/// of its labels.
#[derive(Clone, Debug, PartialEq)]
pub struct GithubIssueHelper {
    pub title: String,
    pub labels: Vec<String>,
}

/// Ghost mirror of [`GithubIssueHelper`].
pub ghost struct GithubIssueHelperV {
    pub title: Seq<char>,
    pub labels: Seq<Seq<char>>,
}

impl DeepView for GithubIssueHelper {
    type V = GithubIssueHelperV;

    open spec fn deep_view(&self) -> GithubIssueHelperV {
        GithubIssueHelperV { title: self.title@, labels: self.labels.deep_view() }
    }
}

impl GithubIssueHelper {
    /// An owned copy with the same contents.
    pub fn cloned(&self) -> (r: Self)
        ensures
            r.deep_view() == self.deep_view(),
    {
        let labels = crate::permutation::clone_strings(&self.labels);
        proof {
            assert(labels.deep_view() =~= self.labels.deep_view());
        }
        GithubIssueHelper { title: self.title.clone(), labels }
    }
}

/// Whether a local issue counts as already present remotely: the titles
/// are equal, the remote issue has at least as many labels, and every
/// local label appears among the remote ones (the remote side may carry
/// extra labels, such as triage marks added by hand).
pub open spec fn spec_issue_match(l: LocalIssueV, g: GithubIssueHelperV) -> bool {
    l.title == g.title && l.labels.len() <= g.labels.len() && forall|i: int|
        0 <= i < l.labels.len() ==> g.labels.contains(#[trigger] l.labels[i])
}

/// Whether some remote issue matches the local one.
pub open spec fn spec_has_match(l: LocalIssueV, gs: Seq<GithubIssueHelperV>) -> bool {
    exists|i: int| 0 <= i < gs.len() && spec_issue_match(l, #[trigger] gs[i])
}

/// The local issues with no matching remote issue, in their input order.
pub open spec fn spec_without_matches(ls: Seq<LocalIssueV>, gs: Seq<GithubIssueHelperV>) -> Seq<
    LocalIssueV,
>
    decreases ls.len(),
{
    if ls.len() == 0 {
        Seq::empty()
    } else {
        let prev = spec_without_matches(ls.drop_last(), gs);
        if spec_has_match(ls.last(), gs) {
            prev
        } else {
            prev.push(ls.last())
        }
    }
}

/// Decides whether a local issue matches a remote issue: equal title, no
/// more labels than the remote issue, and every local label present
/// remotely.
pub fn is_local_issue_match_github_issue_helper(
    local_issue: &LocalIssue,
    github_issue: &GithubIssueHelper,
) -> (r: bool)
    ensures
        r == spec_issue_match(local_issue.deep_view(), github_issue.deep_view()),
{
    let ghost l_v = local_issue.deep_view();
    let ghost g_v = github_issue.deep_view();
    if !(local_issue.title == github_issue.title) {
        return false;
    }
    if local_issue.labels.len() > github_issue.labels.len() {
        proof {
            assert(l_v.labels.len() > g_v.labels.len());
        }
        return false;
    }
    let mut i: usize = 0;
    loop
        invariant
            0 <= i <= local_issue.labels@.len(),
            l_v == local_issue.deep_view(),
            g_v == github_issue.deep_view(),
            l_v.labels.len() == local_issue.labels@.len(),
            l_v.title == g_v.title,
            l_v.labels.len() <= g_v.labels.len(),
            forall|j: int| 0 <= j < i ==> g_v.labels.contains(#[trigger] l_v.labels[j]),
        decreases local_issue.labels@.len() - i,
    {
        if i == local_issue.labels.len() {
            proof {
                assert(spec_issue_match(l_v, g_v));
            }
            return true;
        }
        proof {
            assert(l_v.labels[i as int] == local_issue.labels@[i as int]@);
        }
        if !crate::selection::contains_string(&github_issue.labels, &local_issue.labels[i]) {
            proof {
                assert(!g_v.labels.contains(l_v.labels[i as int]));
                assert(!spec_issue_match(l_v, g_v));
            }
            return false;
        }
        i = i + 1;
    }
}

/// Whether any of the remote issues matches the local one.
fn has_any_match(local_issue: &LocalIssue, github_issues: &Vec<GithubIssueHelper>) -> (r: bool)
    ensures
        r == spec_has_match(local_issue.deep_view(), github_issues.deep_view()),
{
    let mut i: usize = 0;
    loop
        invariant
            0 <= i <= github_issues@.len(),
            forall|j: int|
                0 <= j < i ==> !spec_issue_match(
                    local_issue.deep_view(),
                    #[trigger] github_issues.deep_view()[j],
                ),
        decreases github_issues@.len() - i,
    {
        if i == github_issues.len() {
            proof {
                assert(!spec_has_match(local_issue.deep_view(), github_issues.deep_view()));
            }
            return false;
        }
        if is_local_issue_match_github_issue_helper(local_issue, &github_issues[i]) {
            proof {
                assert(github_issues.deep_view()[i as int] == github_issues@[i as int].deep_view());
                assert(spec_has_match(local_issue.deep_view(), github_issues.deep_view()));
            }
            return true;
        }
        i = i + 1;
    }
}

/// Returns the local issues that no remote issue matches — the work list
/// of issues a run still has to create — keeping the input order.
pub fn get_local_issues_without_matches_helper(
    local_issues: &Vec<LocalIssue>,
    github_issues: &Vec<GithubIssueHelper>,
) -> (r: Vec<LocalIssue>)
    ensures
        r.deep_view() == spec_without_matches(local_issues.deep_view(), github_issues.deep_view()),
{
    let ghost ls_v = local_issues.deep_view();
    let ghost gs_v = github_issues.deep_view();
    let mut out: Vec<LocalIssue> = Vec::new();
    let mut i: usize = 0;
    while i < local_issues.len()
        invariant
            0 <= i <= local_issues@.len(),
            ls_v == local_issues.deep_view(),
            gs_v == github_issues.deep_view(),
            ls_v.len() == local_issues@.len(),
            out.deep_view() =~= spec_without_matches(ls_v.take(i as int), gs_v),
        decreases local_issues@.len() - i,
    {
        let matched = has_any_match(&local_issues[i], github_issues);
        let ghost pre = out.deep_view();
        if !matched {
            out.push(local_issues[i].cloned());
        }
        proof {
            assert(ls_v[i as int] == local_issues@[i as int].deep_view());
            assert(ls_v.take(i as int + 1).drop_last() =~= ls_v.take(i as int));
            assert(ls_v.take(i as int + 1).last() == ls_v[i as int]);
            if !matched {
                assert(out.deep_view() =~= pre.push(ls_v[i as int]));
            }
            assert(out.deep_view() =~= spec_without_matches(ls_v.take(i as int + 1), gs_v));
        }
        i = i + 1;
    }
    proof {
        assert(ls_v.take(ls_v.len() as int) =~= ls_v);
    }
    out
}

/// Returns the local issues that no remote issue matches.  The remote
/// issues arrive already reduced to title and label names; callers that
/// talk to the tracker turn its records into that shape first.
pub fn get_local_issues_without_matches(
    local_issues: &Vec<LocalIssue>,
    github_issues: &Vec<GithubIssueHelper>,
) -> (r: Vec<LocalIssue>)
    ensures
        r.deep_view() == spec_without_matches(local_issues.deep_view(), github_issues.deep_view()),
{
    get_local_issues_without_matches_helper(local_issues, github_issues)
}

/// How a local issue relates to the remote state.
#[derive(Clone, Debug, Eq, PartialEq)]
pub enum IssueMatchType {
    /// No remote issue carries the local issue's labels.
    Missing,
    /// A remote issue carries the labels and agrees on title and body.
    Match,
    /// A remote issue carries the labels but differs somewhere.
    MatchedWithDiff,
}

/// A remote issue with the parts the classifier reads: title, label
/// names, and the body text if the tracker returned one.
#[derive(Clone, Debug, PartialEq)]
pub struct GithubIssueInfo {
    pub title: String,
    pub labels: Vec<String>,
    pub body: Option<String>,
}

/// Ghost mirror of [`GithubIssueInfo`].
pub ghost struct GithubIssueInfoV {
    pub title: Seq<char>,
    pub labels: Seq<Seq<char>>,
    pub body: Option<Seq<char>>,
}

impl DeepView for GithubIssueInfo {
    type V = GithubIssueInfoV;

    open spec fn deep_view(&self) -> GithubIssueInfoV {
        GithubIssueInfoV {
            title: self.title@,
            labels: self.labels.deep_view(),
            body: self.body.deep_view(),
        }
    }
}

impl GithubIssueInfo {
    /// An owned copy with the same contents.
    pub fn cloned(&self) -> (r: Self)
        ensures
            r.deep_view() == self.deep_view(),
    {
        let labels = crate::permutation::clone_strings(&self.labels);
        proof {
            assert(labels.deep_view() =~= self.labels.deep_view());
        }
        GithubIssueInfo {
            title: self.title.clone(),
            labels,
            body: crate::types::clone_opt_string(&self.body),
        }
    }
}

/// One classified local issue: the remote issue found for it, if any, and
/// how the two relate.
#[derive(Clone, Debug, PartialEq)]
pub struct GithubIssueMatches {
    pub local_issue: LocalIssue,
    pub github_issue: Option<GithubIssueInfo>,
    pub match_type: IssueMatchType,
}

/// Ghost mirror of [`GithubIssueMatches`].
pub ghost struct GithubIssueMatchesV {
    pub local_issue: LocalIssueV,
    pub github_issue: Option<GithubIssueInfoV>,
    pub match_type: IssueMatchType,
}

impl DeepView for GithubIssueMatches {
    type V = GithubIssueMatchesV;

    open spec fn deep_view(&self) -> GithubIssueMatchesV {
        GithubIssueMatchesV {
            local_issue: self.local_issue.deep_view(),
            github_issue: self.github_issue.deep_view(),
            match_type: self.match_type,
        }
    }
}

/// The looser matching the classifier uses: every local label appears
/// among the remote issue's labels; title and count play no part here.
pub open spec fn spec_labels_subset(l: LocalIssueV, g: GithubIssueInfoV) -> bool {
    forall|i: int| 0 <= i < l.labels.len() ==> g.labels.contains(#[trigger] l.labels[i])
}

/// Whether a local issue agrees with a remote issue on title and body; a
/// remote issue without a body counts as having an empty one.
pub open spec fn spec_identical(l: LocalIssueV, g: GithubIssueInfoV) -> bool {
    l.title == g.title && l.text_body == (match g.body {
        Option::Some(b) => b,
        Option::None => Seq::<char>::empty(),
    })
}

/// Whether `m` is the first remote issue that carries the local labels.
pub open spec fn spec_first_label_match(l: LocalIssueV, gs: Seq<GithubIssueInfoV>, m: int) -> bool {
    0 <= m < gs.len() && spec_labels_subset(l, gs[m]) && forall|j: int|
        0 <= j < m ==> !spec_labels_subset(l, #[trigger] gs[j])
}

/// What one classification entry must say about its local issue.
pub open spec fn spec_match_entry(
    e: GithubIssueMatchesV,
    l: LocalIssueV,
    gs: Seq<GithubIssueInfoV>,
) -> bool {
    &&& e.local_issue == l
    &&& match e.github_issue {
        Option::None => e.match_type == IssueMatchType::Missing && forall|j: int|
            0 <= j < gs.len() ==> !spec_labels_subset(l, #[trigger] gs[j]),
        Option::Some(g) => exists|m: int|
            spec_first_label_match(l, gs, m) && g == gs[m] && e.match_type == (
            if spec_identical(l, gs[m]) {
                IssueMatchType::Match
            } else {
                IssueMatchType::MatchedWithDiff
            }),
    }
}

/// Decides the classifier's label test: every local label appears among
/// the remote issue's labels.
pub fn is_local_issue_match_github_issue(
    local_issue: &LocalIssue,
    github_issue: &GithubIssueInfo,
) -> (r: bool)
    ensures
        r == spec_labels_subset(local_issue.deep_view(), github_issue.deep_view()),
{
    let ghost l_v = local_issue.deep_view();
    let ghost g_v = github_issue.deep_view();
    let mut i: usize = 0;
    loop
        invariant
            0 <= i <= local_issue.labels@.len(),
            l_v == local_issue.deep_view(),
            g_v == github_issue.deep_view(),
            l_v.labels.len() == local_issue.labels@.len(),
            forall|j: int| 0 <= j < i ==> g_v.labels.contains(#[trigger] l_v.labels[j]),
        decreases local_issue.labels@.len() - i,
    {
        if i == local_issue.labels.len() {
            proof {
                assert(spec_labels_subset(l_v, g_v));
            }
            return true;
        }
        proof {
            assert(l_v.labels[i as int] == local_issue.labels@[i as int]@);
        }
        if !crate::selection::contains_string(&github_issue.labels, &local_issue.labels[i]) {
            proof {
                assert(!spec_labels_subset(l_v, g_v));
            }
            return false;
        }
        i = i + 1;
    }
}

/// Decides whether a local issue agrees with a remote issue on title and
/// body text.
pub fn is_local_issue_identical_github_issue(
    local_issue: &LocalIssue,
    github_issue: &GithubIssueInfo,
) -> (r: bool)
    ensures
        r == spec_identical(local_issue.deep_view(), github_issue.deep_view()),
{
    let title_match: bool = local_issue.title == github_issue.title;
    let body_match: bool = match &github_issue.body {
        Option::Some(b) => local_issue.text_body == *b,
        Option::None => {
            let empty = local_issue.text_body.as_str().is_empty();
            proof {
                if empty {
                    assert(local_issue.text_body@ =~= Seq::<char>::empty());
                }
            }
            empty
        },
    };
    title_match && body_match
}

/// Classifies every local issue against the remote issues: the first
/// remote issue carrying its labels decides the entry, and agreement on
/// title and body decides between a full and a differing match.
pub fn get_local_issues_matches(
    local_issues: &Vec<LocalIssue>,
    github_issues: &Vec<GithubIssueInfo>,
) -> (r: Vec<GithubIssueMatches>)
    ensures
        r.deep_view().len() == local_issues.deep_view().len(),
        forall|k: int|
            0 <= k < r.deep_view().len() ==> spec_match_entry(
                #[trigger] r.deep_view()[k],
                local_issues.deep_view()[k],
                github_issues.deep_view(),
            ),
{
    let ghost ls_v = local_issues.deep_view();
    let ghost gs_v = github_issues.deep_view();
    let mut out: Vec<GithubIssueMatches> = Vec::new();
    let mut k: usize = 0;
    while k < local_issues.len()
        invariant
            0 <= k <= local_issues@.len(),
            ls_v == local_issues.deep_view(),
            gs_v == github_issues.deep_view(),
            ls_v.len() == local_issues@.len(),
            gs_v.len() == github_issues@.len(),
            out.deep_view().len() == k,
            forall|j: int|
                0 <= j < k ==> spec_match_entry(#[trigger] out.deep_view()[j], ls_v[j], gs_v),
        decreases local_issues@.len() - k,
    {
        let local_issue = &local_issues[k];
        let ghost l_v = ls_v[k as int];
        proof {
            assert(l_v == local_issues@[k as int].deep_view());
        }
        let mut m: usize = 0;
        let mut found: bool = false;
        loop
            invariant_except_break
                !found,
            invariant
                0 <= m <= github_issues@.len(),
                gs_v == github_issues.deep_view(),
                gs_v.len() == github_issues@.len(),
                l_v == local_issue.deep_view(),
                forall|j: int| 0 <= j < m ==> !spec_labels_subset(l_v, #[trigger] gs_v[j]),
            ensures
                found ==> spec_first_label_match(l_v, gs_v, m as int),
                !found ==> m == gs_v.len() && forall|j: int|
                    0 <= j < gs_v.len() ==> !spec_labels_subset(l_v, #[trigger] gs_v[j]),
            decreases github_issues@.len() - m,
        {
            if m == github_issues.len() {
                break;
            }
            if is_local_issue_match_github_issue(local_issue, &github_issues[m]) {
                found = true;
                proof {
                    assert(gs_v[m as int] == github_issues@[m as int].deep_view());
                }
                break;
            }
            m = m + 1;
        }
        let ghost pre = out.deep_view();
        if found {
            let github_issue = &github_issues[m];
            let identical = is_local_issue_identical_github_issue(local_issue, github_issue);
            let entry = GithubIssueMatches {
                local_issue: local_issue.cloned(),
                github_issue: Option::Some(github_issue.cloned()),
                match_type: if identical {
                    IssueMatchType::Match
                } else {
                    IssueMatchType::MatchedWithDiff
                },
            };
            out.push(entry);
            proof {
                assert(gs_v[m as int] == github_issues@[m as int].deep_view());
                assert(out.deep_view()[k as int].github_issue == Option::Some(gs_v[m as int]));
                assert(spec_match_entry(out.deep_view()[k as int], l_v, gs_v));
                assert forall|j: int| 0 <= j < k implies spec_match_entry(
                    #[trigger] out.deep_view()[j],
                    ls_v[j],
                    gs_v,
                ) by {
                    assert(out.deep_view()[j] == pre[j]);
                }
            }
        } else {
            let entry = GithubIssueMatches {
                local_issue: local_issue.cloned(),
                github_issue: Option::None,
                match_type: IssueMatchType::Missing,
            };
            out.push(entry);
            proof {
                assert(spec_match_entry(out.deep_view()[k as int], l_v, gs_v));
                assert forall|j: int| 0 <= j < k implies spec_match_entry(
                    #[trigger] out.deep_view()[j],
                    ls_v[j],
                    gs_v,
                ) by {
                    assert(out.deep_view()[j] == pre[j]);
                }
            }
        }
        k = k + 1;
    }
    out
}

/// The remote twin of a local issue: same title, same labels.
pub open spec fn spec_as_remote(l: LocalIssueV) -> GithubIssueHelperV {
    GithubIssueHelperV { title: l.title, labels: l.labels }
}

/// The remote twins of a list of local issues.
pub open spec fn spec_all_as_remote(ls: Seq<LocalIssueV>) -> Seq<GithubIssueHelperV> {
    ls.map_values(|l: LocalIssueV| spec_as_remote(l))
}

/// A local issue matches its own remote twin.
proof fn lemma_match_own_twin(l: LocalIssueV)
    ensures
        spec_issue_match(l, spec_as_remote(l)),
{
    assert forall|i: int| 0 <= i < l.labels.len() implies l.labels.contains(
        #[trigger] l.labels[i],
    ) by {
        assert(l.labels[i] == l.labels[i]);
    }
}

/// A local issue left unmatched appears in the unmatched list.
proof fn lemma_unmatched_member(ls: Seq<LocalIssueV>, gs: Seq<GithubIssueHelperV>, k: int)
    requires
        0 <= k < ls.len(),
        !spec_has_match(ls[k], gs),
    ensures
        spec_without_matches(ls, gs).contains(ls[k]),
    decreases ls.len(),
{
    let prev = spec_without_matches(ls.drop_last(), gs);
    if k == ls.len() - 1 {
        assert(spec_without_matches(ls, gs) == prev.push(ls.last()));
        assert(spec_without_matches(ls, gs)[prev.len() as int] == ls[k]);
    } else {
        lemma_unmatched_member(ls.drop_last(), gs, k);
        let m = choose|m: int| 0 <= m < prev.len() && prev[m] == ls.drop_last()[k];
        assert(spec_without_matches(ls, gs)[m] == ls[k]);
    }
}

/// With every local issue matched remotely, nothing is left unmatched.
proof fn lemma_all_matched_nothing_left(ls: Seq<LocalIssueV>, gs: Seq<GithubIssueHelperV>)
    requires
        forall|k: int| 0 <= k < ls.len() ==> spec_has_match(#[trigger] ls[k], gs),
    ensures
        spec_without_matches(ls, gs) == Seq::<LocalIssueV>::empty(),
    decreases ls.len(),
{
    if ls.len() > 0 {
        assert(forall|k: int|
            0 <= k < ls.drop_last().len() ==> spec_has_match(#[trigger] ls.drop_last()[k], gs));
        lemma_all_matched_nothing_left(ls.drop_last(), gs);
        assert(spec_has_match(ls.last(), gs));
    }
}

/// Reconciliation is idempotent: take the unmatched local issues of one
/// run, create each of them remotely with exactly its title and labels,
/// and a second run against the enlarged remote state finds nothing left
/// to create.
pub proof fn lemma_reconciliation_idempotent(ls: Seq<LocalIssueV>, gs: Seq<GithubIssueHelperV>)
    ensures
        spec_without_matches(ls, gs + spec_all_as_remote(spec_without_matches(ls, gs)))
            == Seq::<LocalIssueV>::empty(),
{
    let missing = spec_without_matches(ls, gs);
    let created = spec_all_as_remote(missing);
    let gs2 = gs + created;
    assert forall|k: int| 0 <= k < ls.len() implies spec_has_match(#[trigger] ls[k], gs2) by {
        if spec_has_match(ls[k], gs) {
            let i = choose|i: int| 0 <= i < gs.len() && spec_issue_match(ls[k], #[trigger] gs[i]);
            assert(gs2[i] == gs[i]);
            assert(spec_has_match(ls[k], gs2));
        } else {
            lemma_unmatched_member(ls, gs, k);
            let m = choose|m: int| 0 <= m < missing.len() && missing[m] == ls[k];
            lemma_match_own_twin(ls[k]);
            assert(gs2[gs.len() + m] == spec_as_remote(missing[m]));
            assert(spec_issue_match(ls[k], gs2[gs.len() + m]));
            assert(spec_has_match(ls[k], gs2));
        }
    }
    lemma_all_matched_nothing_left(ls, gs2);
}

} // verus!
