//! Label assembly for rendered issues: the label set of a test case and
//! the issue record it becomes once a body text is supplied.

use crate::permutation::{clone_strings, Permutation};
use crate::text::{spec_sort_seqs, sort_strings};
use crate::types::{LocalIssue, RequirementV, TestCase, TestCaseV};
use vstd::prelude::*;
use vstd::string::*;

verus! {

/// A dimension label: the dimension's name, a colon and a space, and the
/// chosen value.
pub open spec fn spec_label_pair(name: Seq<char>, value: Seq<char>) -> Seq<char> {
    name + ": "@ + value
}

/// The formatted labels of a permutation, one per dimension.
pub open spec fn spec_perm_label_strings(p: Seq<(Seq<char>, Seq<char>)>) -> Seq<Seq<char>> {
    p.map_values(|e: (Seq<char>, Seq<char>)| spec_label_pair(e.0, e.1))
}

/// Turns a permutation into one label per dimension, sorted
/// lexicographically by the formatted label text.
pub fn permutation_to_labels(permutations: &Permutation) -> (r: Vec<String>)
    ensures
        r.deep_view() == spec_sort_seqs(spec_perm_label_strings(permutations.deep_view())),
{
    let ghost p_v = permutations.deep_view();
    let entries = permutations.entries();
    let mut formatted: Vec<String> = Vec::new();
    let mut i: usize = 0;
    while i < entries.len()
        invariant
            0 <= i <= entries@.len(),
            entries.deep_view() == p_v,
            p_v.len() == entries@.len(),
            formatted.deep_view() =~= spec_perm_label_strings(p_v).take(i as int),
        decreases entries@.len() - i,
    {
        let mut label = entries[i].0.clone();
        label.append(": ");
        label.append(entries[i].1.as_str());
        proof {
            assert(p_v[i as int] == (entries@[i as int].0@, entries@[i as int].1@));
            assert(label@ == spec_label_pair(p_v[i as int].0, p_v[i as int].1));
        }
        let ghost pre = formatted.deep_view();
        formatted.push(label);
        proof {
            assert(formatted.deep_view() =~= pre.push(label@));
            assert(spec_perm_label_strings(p_v).take(i as int + 1) =~= spec_perm_label_strings(
                p_v,
            ).take(i as int).push(spec_perm_label_strings(p_v)[i as int]));
        }
        i = i + 1;
    }
    proof {
        assert(spec_perm_label_strings(p_v).take(p_v.len() as int) =~= spec_perm_label_strings(
            p_v,
        ));
        assert(formatted.deep_view() =~= spec_perm_label_strings(p_v));
    }
    sort_strings(&formatted)
}

/// The workspace-version label.
pub fn project_version_to_label(workspace_version: &String) -> (r: String)
    ensures
        r@ == "version: "@ + workspace_version@,
{
    let mut label = String::from_str("version: ");
    label.append(workspace_version.as_str());
    label
}

/// The labels of an optional label list; absent means none.
pub open spec fn spec_opt_labels(o: Option<Seq<Seq<char>>>) -> Seq<Seq<char>> {
    match o {
        Option::Some(ls) => ls,
        Option::None => Seq::empty(),
    }
}

/// The requirement label: the requirement's shortname, or its name where
/// no shortname is set.
pub open spec fn spec_requirement_label(r: RequirementV) -> Seq<char> {
    "requirement: "@ + (match r.shortname {
        Option::Some(s) => s,
        Option::None => r.name,
    })
}

/// Every label of a test case, in rendering order: the builder's labels,
/// the requirement's labels, the requirement label, the sorted dimension
/// labels, and the workspace-version label.  Repeats are kept.
pub open spec fn spec_labels(tc: TestCaseV, workspace_version: Seq<char>) -> Seq<Seq<char>> {
    spec_opt_labels(tc.builder_used.labels) + spec_opt_labels(tc.requirement.labels) + seq![
        spec_requirement_label(tc.requirement),
    ] + spec_sort_seqs(spec_perm_label_strings(tc.selected_permutation)) + seq![
        "version: "@ + workspace_version,
    ]
}

/// Assembles the full label set of a test case, as `spec_labels` says.
pub fn get_labels(test_case: &TestCase, workspace_version: &String) -> (r: Vec<String>)
    ensures
        r.deep_view() == spec_labels(test_case.deep_view(), workspace_version@),
{
    let ghost tc_v = test_case.deep_view();
    let mut labels: Vec<String> = Vec::new();
    match &test_case.builder_used.labels {
        Option::Some(ls) => {
            let mut copy = clone_strings(ls);
            labels.append(&mut copy);
            proof {
                assert(labels.deep_view() =~= spec_opt_labels(tc_v.builder_used.labels));
            }
        },
        Option::None => {
            proof {
                assert(labels.deep_view() =~= spec_opt_labels(tc_v.builder_used.labels));
            }
        },
    }
    let ghost after_builder = labels.deep_view();
    match &test_case.requirement.labels {
        Option::Some(ls) => {
            let mut copy = clone_strings(ls);
            labels.append(&mut copy);
            proof {
                assert(labels.deep_view() =~= after_builder + spec_opt_labels(
                    tc_v.requirement.labels,
                ));
            }
        },
        Option::None => {
            proof {
                assert(labels.deep_view() =~= after_builder + spec_opt_labels(
                    tc_v.requirement.labels,
                ));
            }
        },
    }
    let ghost after_req = labels.deep_view();
    let mut req_label = String::from_str("requirement: ");
    match &test_case.requirement.shortname {
        Option::Some(s) => {
            req_label.append(s.as_str());
        },
        Option::None => {
            req_label.append(test_case.requirement.name.as_str());
        },
    }
    proof {
        assert(req_label@ == spec_requirement_label(tc_v.requirement));
    }
    labels.push(req_label);
    let ghost after_label = labels.deep_view();
    let mut perm_labels = permutation_to_labels(&test_case.selected_permutation);
    let ghost perm_labels_v = perm_labels.deep_view();
    labels.append(&mut perm_labels);
    proof {
        assert(labels.deep_view() =~= after_label + perm_labels_v);
    }
    labels.push(project_version_to_label(workspace_version));
    proof {
        assert(labels.deep_view() =~= spec_labels(tc_v, workspace_version@));
    }
    labels
}

/// Builds the issue record of a test case from its rendered body text:
/// the requirement's name becomes the title, the assembled labels come
/// along, and the body is carried through unchanged.
pub fn test_case_to_markdown(
    test_case: TestCase,
    workspace_version: &String,
    text_body: String,
) -> (r: LocalIssue)
    ensures
        r.deep_view().labels == spec_labels(test_case.deep_view(), workspace_version@),
        r.deep_view().title == test_case.deep_view().requirement.name,
        r.deep_view().text_body == text_body@,
{
    let labels = get_labels(&test_case, workspace_version);
    LocalIssue { labels, title: test_case.requirement.name, text_body }
}

} // verus!
