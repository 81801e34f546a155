//! Fingerprint-based reconciliation: a 64-bit fingerprint of an issue's
//! title and sorted labels, and the matching that compares fingerprints
//! instead of fields.

use crate::reconcile::{GithubIssueHelper, GithubIssueHelperV};
use crate::text::{sort_strings, spec_sort_seqs};
use crate::types::{LocalIssue, LocalIssueV};
use vstd::prelude::*;
use vstd::string::*;

verus! {

/// The multiplier of the fingerprint's mixing step.
pub open spec fn spec_fnv_prime() -> u64 {
    0x100000001b3
}

/// The fingerprint's starting value.
pub open spec fn spec_fnv_offset() -> u64 {
    0xcbf29ce484222325
}

/// Marks the border between hashed strings; no character has this value.
pub open spec fn spec_piece_border() -> u64 {
    0x110000
}

/// One mixing step: fold a value into the state and multiply, wrapping.
pub open spec fn spec_fnv_step(h: u64, x: u64) -> u64 {
    vstd::wrapping::u64_specs::wrapping_mul(h ^ x, spec_fnv_prime())
}

/// The state after folding in every character of a string.
pub open spec fn spec_fnv_chars(h: u64, s: Seq<char>) -> u64
    decreases s.len(),
{
    if s.len() == 0 {
        h
    } else {
        spec_fnv_chars(spec_fnv_step(h, s[0] as u64), s.drop_first())
    }
}

/// The state after folding in a border mark and then a whole string, for
/// each string in turn.
pub open spec fn spec_fnv_pieces(h: u64, pieces: Seq<Seq<char>>) -> u64
    decreases pieces.len(),
{
    if pieces.len() == 0 {
        h
    } else {
        spec_fnv_pieces(
            spec_fnv_chars(spec_fnv_step(h, spec_piece_border()), pieces[0]),
            pieces.drop_first(),
        )
    }
}

/// The fingerprint of an issue: its title, then its labels in sorted
/// order, so that the label order as given does not matter.
pub open spec fn spec_issue_fingerprint(title: Seq<char>, labels: Seq<Seq<char>>) -> u64 {
    spec_fnv_pieces(spec_fnv_chars(spec_fnv_offset(), title), spec_sort_seqs(labels))
}

/// Folds every character of a string into the fingerprint state.
fn fnv_chars(h: u64, s: &str) -> (r: u64)
    ensures
        r == spec_fnv_chars(h, s@),
{
    let len: usize = s.unicode_len();
    let mut state: u64 = h;
    let mut i: usize = 0;
    proof {
        assert(s@.skip(0) =~= s@);
    }
    while i < len
        invariant
            0 <= i <= len,
            len == s@.len(),
            spec_fnv_chars(h, s@) == spec_fnv_chars(state, s@.skip(i as int)),
        decreases len - i,
    {
        let c = s.get_char(i);
        proof {
            assert(s@.skip(i as int)[0] == s@[i as int]);
            assert(s@.skip(i as int).drop_first() =~= s@.skip(i as int + 1));
        }
        state = (state ^ (c as u64)).wrapping_mul(0x100000001b3u64);
        i = i + 1;
    }
    proof {
        assert(s@.skip(len as int) =~= Seq::<char>::empty());
    }
    state
}

/// The fingerprint of an issue title with its labels: the labels are
/// sorted first, so two label lists with the same entries in any order
/// give the same fingerprint.
pub fn get_issue_hash(title: String, labels: Vec<String>) -> (r: u64)
    ensures
        r == spec_issue_fingerprint(title@, labels.deep_view()),
{
    let sorted = sort_strings(&labels);
    let mut state: u64 = fnv_chars(0xcbf29ce484222325u64, title.as_str());
    let ghost sorted_v = sorted.deep_view();
    let mut i: usize = 0;
    proof {
        assert(sorted_v.skip(0) =~= sorted_v);
    }
    while i < sorted.len()
        invariant
            0 <= i <= sorted@.len(),
            sorted_v == sorted.deep_view(),
            sorted_v.len() == sorted@.len(),
            spec_fnv_pieces(spec_fnv_chars(spec_fnv_offset(), title@), sorted_v)
                == spec_fnv_pieces(state, sorted_v.skip(i as int)),
        decreases sorted@.len() - i,
    {
        proof {
            assert(sorted_v.skip(i as int)[0] == sorted_v[i as int]);
            assert(sorted_v[i as int] == sorted@[i as int]@);
            assert(sorted_v.skip(i as int).drop_first() =~= sorted_v.skip(i as int + 1));
        }
        let bordered = (state ^ 0x110000u64).wrapping_mul(0x100000001b3u64);
        state = fnv_chars(bordered, sorted[i].as_str());
        i = i + 1;
    }
    proof {
        assert(sorted_v.skip(sorted_v.len() as int) =~= Seq::<Seq<char>>::empty());
    }
    state
}

/// The fingerprint of a local issue.
pub open spec fn spec_local_fingerprint(l: LocalIssueV) -> u64 {
    spec_issue_fingerprint(l.title, l.labels)
}

/// The fingerprint of a remote issue.
pub open spec fn spec_remote_fingerprint(g: GithubIssueHelperV) -> u64 {
    spec_issue_fingerprint(g.title, g.labels)
}

/// Whether some remote issue carries the same fingerprint.
pub open spec fn spec_fingerprint_match(l: LocalIssueV, gs: Seq<GithubIssueHelperV>) -> bool {
    exists|i: int|
        0 <= i < gs.len() && spec_local_fingerprint(l) == spec_remote_fingerprint(#[trigger] gs[i])
}

/// The local issues whose fingerprint no remote issue carries, in input
/// order.
pub open spec fn spec_without_fingerprint_matches(
    ls: Seq<LocalIssueV>,
    gs: Seq<GithubIssueHelperV>,
) -> Seq<LocalIssueV>
    decreases ls.len(),
{
    if ls.len() == 0 {
        Seq::empty()
    } else {
        let prev = spec_without_fingerprint_matches(ls.drop_last(), gs);
        if spec_fingerprint_match(ls.last(), gs) {
            prev
        } else {
            prev.push(ls.last())
        }
    }
}

/// Returns the local issues whose fingerprint matches no remote issue's
/// fingerprint: the issues this run still has to create, assuming equal
/// fingerprints mean equal title and labels.
pub fn get_local_issues_without_matches_helper(
    local_issues: Vec<LocalIssue>,
    github_issues: &Vec<GithubIssueHelper>,
) -> (r: Vec<LocalIssue>)
    ensures
        r.deep_view() == spec_without_fingerprint_matches(
            local_issues.deep_view(),
            github_issues.deep_view(),
        ),
{
    let ghost ls_v = local_issues.deep_view();
    let ghost gs_v = github_issues.deep_view();
    let mut hashes: Vec<u64> = Vec::new();
    let mut g: usize = 0;
    while g < github_issues.len()
        invariant
            0 <= g <= github_issues@.len(),
            gs_v == github_issues.deep_view(),
            gs_v.len() == github_issues@.len(),
            hashes@.len() == g,
            forall|j: int|
                0 <= j < g ==> hashes@[j] == spec_remote_fingerprint(#[trigger] gs_v[j]),
        decreases github_issues@.len() - g,
    {
        let issue = &github_issues[g];
        let labels = crate::permutation::clone_strings(&issue.labels);
        proof {
            assert(labels.deep_view() =~= issue.labels.deep_view());
            assert(gs_v[g as int] == github_issues@[g as int].deep_view());
        }
        let h = get_issue_hash(issue.title.clone(), labels);
        hashes.push(h);
        g = g + 1;
    }
    let mut out: Vec<LocalIssue> = Vec::new();
    let mut i: usize = 0;
    while i < local_issues.len()
        invariant
            0 <= i <= local_issues@.len(),
            ls_v == local_issues.deep_view(),
            gs_v == github_issues.deep_view(),
            ls_v.len() == local_issues@.len(),
            hashes@.len() == gs_v.len(),
            forall|j: int|
                0 <= j < gs_v.len() ==> hashes@[j] == spec_remote_fingerprint(#[trigger] gs_v[j]),
            out.deep_view() =~= spec_without_fingerprint_matches(ls_v.take(i as int), gs_v),
        decreases local_issues@.len() - i,
    {
        let issue = &local_issues[i];
        let labels = crate::permutation::clone_strings(&issue.labels);
        proof {
            assert(labels.deep_view() =~= issue.labels.deep_view());
            assert(ls_v[i as int] == local_issues@[i as int].deep_view());
        }
        let h = get_issue_hash(issue.title.clone(), labels);
        proof {
            assert(h == spec_local_fingerprint(ls_v[i as int]));
        }
        let mut matched: bool = false;
        let mut j: usize = 0;
        loop
            invariant_except_break
                !matched,
            invariant
                0 <= j <= hashes@.len(),
                hashes@.len() == gs_v.len(),
                h == spec_local_fingerprint(ls_v[i as int]),
                forall|m: int|
                    0 <= m < gs_v.len() ==> hashes@[m] == spec_remote_fingerprint(
                        #[trigger] gs_v[m],
                    ),
                forall|m: int| 0 <= m < j ==> h != hashes@[m],
            ensures
                matched == spec_fingerprint_match(ls_v[i as int], gs_v),
            decreases hashes@.len() - j,
        {
            if j == hashes.len() {
                proof {
                    assert(!spec_fingerprint_match(ls_v[i as int], gs_v));
                }
                break;
            }
            if h == hashes[j] {
                matched = true;
                proof {
                    assert(hashes@[j as int] == spec_remote_fingerprint(gs_v[j as int]));
                    assert(spec_fingerprint_match(ls_v[i as int], gs_v));
                }
                break;
            }
            j = j + 1;
        }
        let ghost pre = out.deep_view();
        if !matched {
            out.push(issue.cloned());
        }
        proof {
            assert(ls_v.take(i as int + 1).drop_last() =~= ls_v.take(i as int));
            assert(ls_v.take(i as int + 1).last() == ls_v[i as int]);
            if !matched {
                assert(out.deep_view() =~= pre.push(ls_v[i as int]));
            }
        }
        i = i + 1;
    }
    proof {
        assert(ls_v.take(ls_v.len() as int) =~= ls_v);
    }
    out
}

} // verus!
