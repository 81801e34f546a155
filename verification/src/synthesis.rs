//! The test-case synthesizer: crossing selected requirements with the
//! expanded permutations of each builder.

use crate::permutation::{get_cartesian_product, keys_strictly_sorted, spec_expand};
use crate::selection::{get_selected_requirements, spec_select};
use crate::types::{
    Requirement, RequirementV, RequirementsFile, RequirementsFileV, TestCase, TestCaseV,
    TestCasesBuilder, TestCasesBuilderFile, TestCasesBuilderFileV, TestCasesBuilderV,
};
use vstd::prelude::*;

verus! {

/// The test case a requirement, a builder and one permutation make.
pub open spec fn spec_case(
    req: RequirementV,
    b: TestCasesBuilderV,
    perm: Seq<(Seq<char>, Seq<char>)>,
) -> TestCaseV {
    TestCaseV { requirement: req, builder_used: b, selected_permutation: perm }
}

/// One test case per permutation for a fixed requirement, in permutation
/// order.
pub open spec fn spec_cases_for_requirement(
    req: RequirementV,
    b: TestCasesBuilderV,
    perms: Seq<Seq<(Seq<char>, Seq<char>)>>,
) -> Seq<TestCaseV> {
    perms.map_values(|perm: Seq<(Seq<char>, Seq<char>)>| spec_case(req, b, perm))
}

/// The cross product of a selection with the permutations, requirement by
/// requirement: the requirement is the outer loop, the permutation the
/// inner one.
pub open spec fn spec_cross(
    sel: Seq<RequirementV>,
    b: TestCasesBuilderV,
    perms: Seq<Seq<(Seq<char>, Seq<char>)>>,
) -> Seq<TestCaseV>
    decreases sel.len(),
{
    if sel.len() == 0 {
        Seq::empty()
    } else {
        spec_cross(sel.drop_last(), b, perms) + spec_cases_for_requirement(sel.last(), b, perms)
    }
}

/// The cross product holds selected-times-permutations test cases.
pub proof fn lemma_cross_count(
    sel: Seq<RequirementV>,
    b: TestCasesBuilderV,
    perms: Seq<Seq<(Seq<char>, Seq<char>)>>,
)
    ensures
        spec_cross(sel, b, perms).len() == sel.len() * perms.len(),
    decreases sel.len(),
{
    if sel.len() > 0 {
        lemma_cross_count(sel.drop_last(), b, perms);
        assert(sel.len() * perms.len() == (sel.len() - 1) * perms.len() + perms.len())
            by (nonlinear_arith);
    }
}

/// The test cases one builder yields from the requirement list: its
/// pipeline's selection, crossed with its expanded permutations.
pub open spec fn spec_builder_cases(b: TestCasesBuilderV, reqs: Seq<RequirementV>) -> Seq<
    TestCaseV,
> {
    spec_cross(spec_select(reqs, b.set), b, spec_expand(b.permutations, 0))
}

/// Builds the test cases of one builder, as `spec_builder_cases`
/// describes: every requirement its pipeline selects, combined with every
/// permutation of its dimension map, requirement-major.
pub fn make_test_cases_helper(
    test_cases_builder: &TestCasesBuilder,
    requirements: &Vec<Requirement>,
) -> (r: Vec<TestCase>)
    requires
        test_cases_builder.permutations.wf(),
    ensures
        r.deep_view() == spec_builder_cases(
            test_cases_builder.deep_view(),
            requirements.deep_view(),
        ),
{
    let ghost b_v = test_cases_builder.deep_view();
    let ghost reqs_v = requirements.deep_view();
    let permutations = get_cartesian_product(&test_cases_builder.permutations);
    let selected = get_selected_requirements(requirements, test_cases_builder);
    let ghost perms_v = permutations.deep_view();
    let ghost sel_v = selected.deep_view();

    let mut out: Vec<TestCase> = Vec::new();
    let mut i: usize = 0;
    while i < selected.len()
        invariant
            0 <= i <= selected@.len(),
            b_v == test_cases_builder.deep_view(),
            perms_v == permutations.deep_view(),
            sel_v == selected.deep_view(),
            sel_v.len() == selected@.len(),
            perms_v.len() == permutations@.len(),
            out.deep_view() =~= spec_cross(sel_v.take(i as int), b_v, perms_v),
        decreases selected@.len() - i,
    {
        let mut p: usize = 0;
        while p < permutations.len()
            invariant
                0 <= p <= permutations@.len(),
                0 <= i < selected@.len(),
                b_v == test_cases_builder.deep_view(),
                perms_v == permutations.deep_view(),
                sel_v == selected.deep_view(),
                sel_v.len() == selected@.len(),
                perms_v.len() == permutations@.len(),
                out.deep_view() =~= spec_cross(sel_v.take(i as int), b_v, perms_v)
                    + spec_cases_for_requirement(sel_v[i as int], b_v, perms_v).take(p as int),
            decreases permutations@.len() - p,
        {
            let ghost pre = out.deep_view();
            out.push(
                TestCase {
                    requirement: selected[i].cloned(),
                    builder_used: test_cases_builder.cloned(),
                    selected_permutation: permutations[p].cloned(),
                },
            );
            proof {
                assert(out.deep_view() =~= pre.push(
                    spec_case(sel_v[i as int], b_v, perms_v[p as int]),
                ));
                assert(spec_cases_for_requirement(sel_v[i as int], b_v, perms_v).take(p as int + 1)
                    =~= spec_cases_for_requirement(sel_v[i as int], b_v, perms_v).take(
                    p as int,
                ).push(spec_case(sel_v[i as int], b_v, perms_v[p as int])));
            }
            p = p + 1;
        }
        proof {
            assert(spec_cases_for_requirement(sel_v[i as int], b_v, perms_v).take(
                perms_v.len() as int,
            ) =~= spec_cases_for_requirement(sel_v[i as int], b_v, perms_v));
            assert(sel_v.take(i as int + 1).drop_last() =~= sel_v.take(i as int));
            assert(sel_v.take(i as int + 1).last() == sel_v[i as int]);
        }
        i = i + 1;
    }
    proof {
        assert(sel_v.take(sel_v.len() as int) =~= sel_v);
    }
    out
}

/// The test cases of a list of builders, concatenated in builder order.
pub open spec fn spec_all_cases(builders: Seq<TestCasesBuilderV>, reqs: Seq<RequirementV>) -> Seq<
    TestCaseV,
>
    decreases builders.len(),
{
    if builders.len() == 0 {
        Seq::empty()
    } else {
        spec_all_cases(builders.drop_last(), reqs) + spec_builder_cases(builders.last(), reqs)
    }
}

/// Builds every builder's test cases against the requirement list and
/// concatenates them in builder order.
pub fn make_test_cases(
    test_cases_builder: &Vec<TestCasesBuilder>,
    requirements: &Vec<Requirement>,
) -> (r: Vec<TestCase>)
    requires
        forall|i: int|
            0 <= i < test_cases_builder.deep_view().len() ==> keys_strictly_sorted(
                (#[trigger] test_cases_builder.deep_view()[i]).permutations,
            ),
    ensures
        r.deep_view() == spec_all_cases(test_cases_builder.deep_view(), requirements.deep_view()),
{
    let ghost builders_v = test_cases_builder.deep_view();
    let ghost reqs_v = requirements.deep_view();
    let mut out: Vec<TestCase> = Vec::new();
    let mut i: usize = 0;
    while i < test_cases_builder.len()
        invariant
            0 <= i <= test_cases_builder@.len(),
            builders_v == test_cases_builder.deep_view(),
            builders_v.len() == test_cases_builder@.len(),
            reqs_v == requirements.deep_view(),
            forall|j: int|
                0 <= j < builders_v.len() ==> keys_strictly_sorted(
                    (#[trigger] builders_v[j]).permutations,
                ),
            out.deep_view() =~= spec_all_cases(builders_v.take(i as int), reqs_v),
        decreases test_cases_builder@.len() - i,
    {
        let ghost pre = out.deep_view();
        proof {
            assert(test_cases_builder@[i as int].deep_view() == builders_v[i as int]);
        }
        let mut cases = make_test_cases_helper(&test_cases_builder[i], requirements);
        let ghost cases_v = cases.deep_view();
        out.append(&mut cases);
        proof {
            assert(out.deep_view() =~= pre + cases_v);
            assert(builders_v.take(i as int + 1).drop_last() =~= builders_v.take(i as int));
            assert(builders_v.take(i as int + 1).last() == builders_v[i as int]);
        }
        i = i + 1;
    }
    proof {
        assert(builders_v.take(builders_v.len() as int) =~= builders_v);
    }
    out
}

/// The requirements of a list of requirement documents, concatenated in
/// document order.
pub open spec fn spec_file_requirements(files: Seq<RequirementsFileV>) -> Seq<RequirementV>
    decreases files.len(),
{
    if files.len() == 0 {
        Seq::empty()
    } else {
        spec_file_requirements(files.drop_last()) + files.last().requirements
    }
}

/// Gathers the requirements of the loaded documents into one list, in
/// document order.
pub fn get_requirements_from_files(files: &Vec<RequirementsFile>) -> (r: Vec<Requirement>)
    ensures
        r.deep_view() == spec_file_requirements(files.deep_view()),
{
    let ghost files_v = files.deep_view();
    let mut out: Vec<Requirement> = Vec::new();
    let mut i: usize = 0;
    while i < files.len()
        invariant
            0 <= i <= files@.len(),
            files_v == files.deep_view(),
            files_v.len() == files@.len(),
            out.deep_view() =~= spec_file_requirements(files_v.take(i as int)),
        decreases files@.len() - i,
    {
        let ghost pre = out.deep_view();
        let reqs = &files[i].requirements;
        let mut j: usize = 0;
        while j < reqs.len()
            invariant
                0 <= j <= reqs@.len(),
                reqs.deep_view() == files_v[i as int].requirements,
                0 <= i < files_v.len(),
                out.deep_view() =~= pre + reqs.deep_view().subrange(0, j as int),
            decreases reqs@.len() - j,
        {
            let ghost mid = out.deep_view();
            out.push(reqs[j].cloned());
            proof {
                assert(out.deep_view() =~= mid.push(reqs.deep_view()[j as int]));
            }
            j = j + 1;
        }
        proof {
            assert(reqs.deep_view().subrange(0, reqs.deep_view().len() as int)
                =~= reqs.deep_view());
            assert(files_v.take(i as int + 1).drop_last() =~= files_v.take(i as int));
            assert(files_v.take(i as int + 1).last() == files_v[i as int]);
        }
        i = i + 1;
    }
    proof {
        assert(files_v.take(files_v.len() as int) =~= files_v);
    }
    out
}

/// The builders of a list of builder documents, concatenated in document
/// order.
pub open spec fn spec_file_builders(files: Seq<TestCasesBuilderFileV>) -> Seq<TestCasesBuilderV>
    decreases files.len(),
{
    if files.len() == 0 {
        Seq::empty()
    } else {
        spec_file_builders(files.drop_last()) + files.last().test_cases_builders
    }
}

/// Gathers the builders of the loaded documents into one list, in
/// document order.
pub fn get_test_cases_builders_from_files(files: &Vec<TestCasesBuilderFile>) -> (r: Vec<
    TestCasesBuilder,
>)
    ensures
        r.deep_view() == spec_file_builders(files.deep_view()),
{
    let ghost files_v = files.deep_view();
    let mut out: Vec<TestCasesBuilder> = Vec::new();
    let mut i: usize = 0;
    while i < files.len()
        invariant
            0 <= i <= files@.len(),
            files_v == files.deep_view(),
            files_v.len() == files@.len(),
            out.deep_view() =~= spec_file_builders(files_v.take(i as int)),
        decreases files@.len() - i,
    {
        let ghost pre = out.deep_view();
        let builders = &files[i].test_cases_builders;
        let mut j: usize = 0;
        while j < builders.len()
            invariant
                0 <= j <= builders@.len(),
                builders.deep_view() == files_v[i as int].test_cases_builders,
                0 <= i < files_v.len(),
                files_v.len() == files@.len(),
                out.deep_view() =~= pre + builders.deep_view().subrange(0, j as int),
            decreases builders@.len() - j,
        {
            let ghost mid = out.deep_view();
            out.push(builders[j].cloned());
            proof {
                assert(out.deep_view() =~= mid.push(builders.deep_view()[j as int]));
            }
            j = j + 1;
        }
        proof {
            assert(builders.deep_view().subrange(0, builders.deep_view().len() as int)
                =~= builders.deep_view());
            assert(files_v.take(i as int + 1).drop_last() =~= files_v.take(i as int));
            assert(files_v.take(i as int + 1).last() == files_v[i as int]);
        }
        i = i + 1;
    }
    proof {
        assert(files_v.take(files_v.len() as int) =~= files_v);
    }
    out
}

/// Combines loaded requirement and builder documents into the full list
/// of test cases: every builder's selection crossed with its permutations,
/// in builder order.
pub fn get_test_cases(
    requirements_files: &Vec<RequirementsFile>,
    test_cases_builder_files: &Vec<TestCasesBuilderFile>,
) -> (r: Vec<TestCase>)
    requires
        forall|i: int, j: int|
            0 <= i < test_cases_builder_files.deep_view().len() && 0 <= j < (
            #[trigger] test_cases_builder_files.deep_view()[i]).test_cases_builders.len()
                ==> keys_strictly_sorted(
                (#[trigger] test_cases_builder_files.deep_view()[i].test_cases_builders[j]).permutations,
            ),
    ensures
        r.deep_view() == spec_all_cases(
            spec_file_builders(test_cases_builder_files.deep_view()),
            spec_file_requirements(requirements_files.deep_view()),
        ),
{
    let requirements = get_requirements_from_files(requirements_files);
    let builders = get_test_cases_builders_from_files(test_cases_builder_files);
    proof {
        let files_v = test_cases_builder_files.deep_view();
        assert forall|k: int| 0 <= k < builders.deep_view().len() implies keys_strictly_sorted(
            (#[trigger] builders.deep_view()[k]).permutations,
        ) by {
            lemma_file_builders_members(files_v, k);
        }
    }
    make_test_cases(&builders, &requirements)
}

/// Every entry of the gathered builder list comes from one of the
/// documents.
proof fn lemma_file_builders_members(files: Seq<TestCasesBuilderFileV>, k: int)
    requires
        0 <= k < spec_file_builders(files).len(),
    ensures
        exists|i: int, j: int|
            #![trigger files[i].test_cases_builders[j]]
            0 <= i < files.len() && 0 <= j < files[i].test_cases_builders.len()
                && spec_file_builders(files)[k] == files[i].test_cases_builders[j],
    decreases files.len(),
{
    let prev = spec_file_builders(files.drop_last());
    if k < prev.len() {
        lemma_file_builders_members(files.drop_last(), k);
        let (i, j) = choose|i: int, j: int|
            #![trigger files.drop_last()[i].test_cases_builders[j]]
            0 <= i < files.drop_last().len() && 0 <= j
                < files.drop_last()[i].test_cases_builders.len() && prev[k]
                == files.drop_last()[i].test_cases_builders[j];
        assert(files[i] == files.drop_last()[i]);
        assert(spec_file_builders(files)[k] == files[i].test_cases_builders[j]);
    } else {
        let i = files.len() - 1;
        let j = k - prev.len();
        assert(spec_file_builders(files)[k] == files[i].test_cases_builders[j]);
    }
}

} // verus!
