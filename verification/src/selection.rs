//! The requirement selector: filters and Include/Exclude pipelines.

use crate::text::{contains_substring, is_substring, lower_of, lowercase};
use crate::types::{Filter, FilterV, Requirement, RequirementV, SetSteps, SetStepsV, TestCasesBuilder};
use vstd::prelude::*;

verus! {

/// The labels of a requirement; a requirement without a label list has
/// none.
pub open spec fn spec_labels_of(r: RequirementV) -> Seq<Seq<char>> {
    match r.labels {
        Option::Some(ls) => ls,
        Option::None => Seq::empty(),
    }
}

/// Whether the label constraint of a filter holds: absent, or every
/// required label is among the requirement's labels.
pub open spec fn spec_all_labels_present(ls: Seq<Seq<char>>, r: RequirementV) -> bool {
    forall|i: int| 0 <= i < ls.len() ==> spec_labels_of(r).contains(#[trigger] ls[i])
}

pub open spec fn spec_labels_ok(f: FilterV, r: RequirementV) -> bool {
    match f.all_labels {
        Option::None => true,
        Option::Some(ls) => spec_all_labels_present(ls, r),
    }
}

/// Whether the name constraint of a filter holds: absent, or at least one
/// listed name is a case-insensitive substring of the requirement's name.
pub open spec fn spec_some_name_occurs(ns: Seq<Seq<char>>, r: RequirementV) -> bool {
    exists|i: int| 0 <= i < ns.len() && is_substring(lower_of(#[trigger] ns[i]), lower_of(r.name))
}

pub open spec fn spec_names_ok(f: FilterV, r: RequirementV) -> bool {
    match f.any_names {
        Option::None => true,
        Option::Some(ns) => spec_some_name_occurs(ns, r),
    }
}

/// Whether a filter matches a requirement: both constraints hold, the
/// whole inverted when the filter negates.
pub open spec fn spec_filter_matches(f: FilterV, r: RequirementV) -> bool {
    f.negate != (spec_labels_ok(f, r) && spec_names_ok(f, r))
}

/// Whether some selected requirement already carries this name.
pub open spec fn spec_contains_name(acc: Seq<RequirementV>, name: Seq<char>) -> bool {
    exists|i: int| 0 <= i < acc.len() && (#[trigger] acc[i]).name == name
}

/// The accumulator after an Include step: every requirement of the full
/// list that matches the filter is appended, in list order, unless a
/// requirement of that name is already present.
pub open spec fn spec_include(acc: Seq<RequirementV>, reqs: Seq<RequirementV>, f: FilterV) -> Seq<
    RequirementV,
>
    decreases reqs.len(),
{
    if reqs.len() == 0 {
        acc
    } else {
        let prev = spec_include(acc, reqs.drop_last(), f);
        if spec_filter_matches(f, reqs.last()) && !spec_contains_name(prev, reqs.last().name) {
            prev.push(reqs.last())
        } else {
            prev
        }
    }
}

/// The accumulator after an Exclude step: every selected requirement that
/// matches the filter is removed, the rest keep their order.
pub open spec fn spec_exclude(acc: Seq<RequirementV>, f: FilterV) -> Seq<RequirementV>
    decreases acc.len(),
{
    if acc.len() == 0 {
        acc
    } else {
        let prev = spec_exclude(acc.drop_last(), f);
        if spec_filter_matches(f, acc.last()) {
            prev
        } else {
            prev.push(acc.last())
        }
    }
}

/// One pipeline step applied to the accumulator.
pub open spec fn spec_apply_step(
    acc: Seq<RequirementV>,
    reqs: Seq<RequirementV>,
    step: SetStepsV,
) -> Seq<RequirementV> {
    match step {
        SetStepsV::Include(f) => spec_include(acc, reqs, f),
        SetStepsV::Exclude(f) => spec_exclude(acc, f),
    }
}

/// The selection a pipeline leaves, as a left fold over its steps that
/// starts from an empty accumulator.
pub open spec fn spec_select(reqs: Seq<RequirementV>, steps: Seq<SetStepsV>) -> Seq<RequirementV>
    decreases steps.len(),
{
    if steps.len() == 0 {
        Seq::empty()
    } else {
        spec_apply_step(spec_select(reqs, steps.drop_last()), reqs, steps.last())
    }
}

/// An Include step with an unconstrained, unnegated filter appends every
/// requirement of the full list that is not yet selected by name, in list
/// order; on an empty selection and pairwise distinct names it yields the
/// whole list.
proof fn lemma_include_unconstrained(reqs: Seq<RequirementV>, all: FilterV)
    requires
        all.all_labels is None,
        all.any_names is None,
        !all.negate,
        forall|i: int, j: int|
            0 <= i < j < reqs.len() ==> (#[trigger] reqs[i]).name != (#[trigger] reqs[j]).name,
    ensures
        spec_include(Seq::empty(), reqs, all) == reqs,
    decreases reqs.len(),
{
    if reqs.len() > 0 {
        assert(forall|i: int, j: int|
            0 <= i < j < reqs.drop_last().len() ==> (#[trigger] reqs.drop_last()[i]).name != (
            #[trigger] reqs.drop_last()[j]).name);
        lemma_include_unconstrained(reqs.drop_last(), all);
        let prev = spec_include(Seq::empty(), reqs.drop_last(), all);
        assert(spec_filter_matches(all, reqs.last()));
        assert(!spec_contains_name(prev, reqs.last().name)) by {
            if spec_contains_name(prev, reqs.last().name) {
                let i = choose|i: int|
                    0 <= i < prev.len() && (#[trigger] prev[i]).name == reqs.last().name;
                assert(reqs[i].name == reqs[reqs.len() - 1].name);
            }
        }
        assert(prev.push(reqs.last()) =~= reqs);
    }
}

/// A later Include step scans the full requirement list, not the current
/// selection: whatever an Exclude step removed, a following Include with
/// an unconstrained, unnegated filter re-adds, so the pipeline
/// `[Exclude(f), Include(all)]` selects every requirement in list order.
/// Requirement names are taken as unique within a run, as the data model
/// holds.
pub proof fn lemma_exclude_then_include_all_restores(
    reqs: Seq<RequirementV>,
    f: FilterV,
    all: FilterV,
)
    requires
        all.all_labels is None,
        all.any_names is None,
        !all.negate,
        forall|i: int, j: int|
            0 <= i < j < reqs.len() ==> (#[trigger] reqs[i]).name != (#[trigger] reqs[j]).name,
    ensures
        spec_select(reqs, seq![SetStepsV::Exclude(f), SetStepsV::Include(all)]) == reqs,
{
    let steps = seq![SetStepsV::Exclude(f), SetStepsV::Include(all)];
    let first = steps.drop_last();
    assert(first.drop_last() =~= Seq::<SetStepsV>::empty());
    assert(spec_select(reqs, first.drop_last()) == Seq::<RequirementV>::empty());
    assert(first.last() == SetStepsV::Exclude(f));
    assert(spec_exclude(Seq::empty(), f) == Seq::<RequirementV>::empty());
    assert(spec_select(reqs, first) == Seq::<RequirementV>::empty());
    assert(steps.last() == SetStepsV::Include(all));
    lemma_include_unconstrained(reqs, all);
}

/// Whether a list of strings holds one whose characters equal `x`.
pub fn contains_string(v: &Vec<String>, x: &String) -> (r: bool)
    ensures
        r == v.deep_view().contains(x@),
{
    let mut i: usize = 0;
    loop
        invariant
            0 <= i <= v@.len(),
            forall|j: int| 0 <= j < i ==> v.deep_view()[j] != x@,
        ensures
            forall|j: int| 0 <= j < v@.len() ==> v.deep_view()[j] != x@,
        decreases v@.len() - i,
    {
        if i == v.len() {
            break;
        }
        if v[i] == *x {
            proof {
                assert(v.deep_view()[i as int] == x@);
            }
            return true;
        }
        i = i + 1;
    }
    proof {
        assert(!v.deep_view().contains(x@));
    }
    false
}

/// Decides whether a filter matches a requirement.
///
/// The labels pass when every label the filter demands is on the
/// requirement; the names pass when some listed name occurs in the
/// requirement's name, comparing lowercase forms; a negated filter
/// inverts the combined outcome.
pub fn filter_matches_requirement(filter: &Filter, requirement: &Requirement) -> (r: bool)
    ensures
        r == spec_filter_matches(filter.deep_view(), requirement.deep_view()),
{
    let ghost f_v = filter.deep_view();
    let ghost r_v = requirement.deep_view();
    let label_matches: bool = match &filter.all_labels {
        Option::Some(labels) => {
            let mut ok: bool = true;
            let mut i: usize = 0;
            loop
                invariant_except_break
                    ok,
                invariant
                    0 <= i <= labels@.len(),
                    f_v.all_labels == Option::Some(labels.deep_view()),
                    r_v == requirement.deep_view(),
                    labels.deep_view().len() == labels@.len(),
                    forall|j: int|
                        0 <= j < i ==> spec_labels_of(r_v).contains(#[trigger] labels.deep_view()[j]),
                ensures
                    ok == spec_labels_ok(f_v, r_v),
                decreases labels@.len() - i,
            {
                if i == labels.len() {
                    proof {
                        assert(spec_all_labels_present(labels.deep_view(), r_v));
                        assert(spec_labels_ok(f_v, r_v));
                    }
                    break;
                }
                proof {
                    assert(labels.deep_view()[i as int] == labels@[i as int]@);
                }
                let present: bool = match &requirement.labels {
                    Option::Some(rl) => {
                        proof {
                            assert(rl.deep_view() == spec_labels_of(r_v));
                        }
                        contains_string(rl, &labels[i])
                    },
                    Option::None => false,
                };
                proof {
                    assert(present == spec_labels_of(r_v).contains(labels.deep_view()[i as int]));
                }
                if !present {
                    ok = false;
                    proof {
                        assert(!spec_all_labels_present(labels.deep_view(), r_v));
                        assert(!spec_labels_ok(f_v, r_v));
                    }
                    break;
                }
                i = i + 1;
            }
            ok
        },
        Option::None => true,
    };
    let name_matches: bool = match &filter.any_names {
        Option::Some(names) => {
            let lowered_name = lowercase(requirement.name.as_str());
            let mut found: bool = false;
            let mut i: usize = 0;
            loop
                invariant_except_break
                    !found,
                invariant
                    0 <= i <= names@.len(),
                    f_v.any_names == Option::Some(names.deep_view()),
                    r_v == requirement.deep_view(),
                    lowered_name@ == lower_of(r_v.name),
                    names.deep_view().len() == names@.len(),
                    forall|j: int|
                        0 <= j < i ==> !is_substring(
                            lower_of(#[trigger] names.deep_view()[j]),
                            lower_of(r_v.name),
                        ),
                ensures
                    found == spec_names_ok(f_v, r_v),
                decreases names@.len() - i,
            {
                if i == names.len() {
                    proof {
                        assert(!spec_some_name_occurs(names.deep_view(), r_v));
                        assert(!spec_names_ok(f_v, r_v));
                    }
                    break;
                }
                proof {
                    assert(names.deep_view()[i as int] == names@[i as int]@);
                }
                let lowered_probe = lowercase(names[i].as_str());
                if contains_substring(lowered_name.as_str(), lowered_probe.as_str()) {
                    found = true;
                    proof {
                        assert(is_substring(
                            lower_of(names.deep_view()[i as int]),
                            lower_of(r_v.name),
                        ));
                        assert(spec_some_name_occurs(names.deep_view(), r_v));
                        assert(spec_names_ok(f_v, r_v));
                    }
                    break;
                }
                i = i + 1;
            }
            found
        },
        Option::None => true,
    };
    filter.negate != (label_matches && name_matches)
}

/// Whether a selected requirement with this name is already present.
fn contains_requirement_name(acc: &Vec<Requirement>, name: &String) -> (r: bool)
    ensures
        r == spec_contains_name(acc.deep_view(), name@),
{
    let mut i: usize = 0;
    loop
        invariant
            0 <= i <= acc@.len(),
            forall|j: int| 0 <= j < i ==> (#[trigger] acc.deep_view()[j]).name != name@,
        ensures
            forall|j: int| 0 <= j < acc@.len() ==> (#[trigger] acc.deep_view()[j]).name != name@,
        decreases acc@.len() - i,
    {
        if i == acc.len() {
            break;
        }
        if acc[i].name == *name {
            proof {
                assert(acc.deep_view()[i as int].name == name@);
            }
            return true;
        }
        i = i + 1;
    }
    false
}

/// Runs a builder's selection pipeline over the requirements and returns
/// the requirements that survive, as `spec_select` describes: an Include
/// step scans the full list and appends what matches and is not yet
/// present, an Exclude step removes what matches.
pub fn get_selected_requirements(
    requirements: &Vec<Requirement>,
    test_cases_builder: &TestCasesBuilder,
) -> (r: Vec<Requirement>)
    ensures
        r.deep_view() == spec_select(
            requirements.deep_view(),
            test_cases_builder.deep_view().set,
        ),
{
    let ghost reqs_v = requirements.deep_view();
    let ghost steps_v = test_cases_builder.deep_view().set;
    let mut selected: Vec<Requirement> = Vec::new();
    let mut s: usize = 0;
    while s < test_cases_builder.set.len()
        invariant
            0 <= s <= test_cases_builder.set@.len(),
            reqs_v == requirements.deep_view(),
            steps_v == test_cases_builder.deep_view().set,
            steps_v.len() == test_cases_builder.set@.len(),
            selected.deep_view() =~= spec_select(reqs_v, steps_v.take(s as int)),
        decreases test_cases_builder.set@.len() - s,
    {
        let ghost acc0 = selected.deep_view();
        proof {
            assert(steps_v.take(s as int + 1).drop_last() =~= steps_v.take(s as int));
            assert(steps_v.take(s as int + 1).last() == steps_v[s as int]);
        }
        match &test_cases_builder.set[s] {
            SetSteps::Include(filter) => {
                let ghost f_v = filter.deep_view();
                let mut i: usize = 0;
                while i < requirements.len()
                    invariant
                        0 <= i <= requirements@.len(),
                        reqs_v == requirements.deep_view(),
                        reqs_v.len() == requirements@.len(),
                        f_v == filter.deep_view(),
                        selected.deep_view() =~= spec_include(acc0, reqs_v.take(i as int), f_v),
                    decreases requirements@.len() - i,
                {
                    proof {
                        assert(reqs_v.take(i as int + 1).drop_last() =~= reqs_v.take(i as int));
                        assert(reqs_v.take(i as int + 1).last() == reqs_v[i as int]);
                    }
                    if filter_matches_requirement(filter, &requirements[i])
                        && !contains_requirement_name(&selected, &requirements[i].name) {
                        let ghost pre = selected.deep_view();
                        selected.push(requirements[i].cloned());
                        proof {
                            assert(selected.deep_view() =~= pre.push(reqs_v[i as int]));
                        }
                    }
                    i = i + 1;
                }
                proof {
                    assert(reqs_v.take(reqs_v.len() as int) =~= reqs_v);
                }
            },
            SetSteps::Exclude(filter) => {
                let ghost f_v = filter.deep_view();
                let mut kept: Vec<Requirement> = Vec::new();
                let mut i: usize = 0;
                while i < selected.len()
                    invariant
                        0 <= i <= selected@.len(),
                        acc0 == selected.deep_view(),
                        acc0.len() == selected@.len(),
                        f_v == filter.deep_view(),
                        kept.deep_view() =~= spec_exclude(acc0.take(i as int), f_v),
                    decreases selected@.len() - i,
                {
                    let keep = !filter_matches_requirement(filter, &selected[i]);
                    let ghost pre = kept.deep_view();
                    if keep {
                        kept.push(selected[i].cloned());
                    }
                    proof {
                        assert(acc0[i as int] == selected@[i as int].deep_view());
                        assert(acc0.take(i as int + 1).drop_last() =~= acc0.take(i as int));
                        assert(acc0.take(i as int + 1).last() == acc0[i as int]);
                        if keep {
                            assert(kept.deep_view() =~= pre.push(acc0[i as int]));
                        }
                        assert(kept.deep_view() =~= spec_exclude(acc0.take(i as int + 1), f_v));
                    }
                    i = i + 1;
                }
                proof {
                    assert(acc0.take(acc0.len() as int) =~= acc0);
                }
                selected = kept;
            },
        }
        s = s + 1;
    }
    proof {
        assert(steps_v.take(steps_v.len() as int) =~= steps_v);
    }
    selected
}

} // verus!
