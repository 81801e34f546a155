//! The catalog's data types: requirements with their steps, filter chains,
//! test-case builders, and the records derived from them.
//!
//! Each executable type has a ghost mirror (suffix `V`) reached through
//! `deep_view`; every contract in the crate speaks of those mirrors.

use crate::permutation::{Permutation, Permutations, spec_assoc_insert};
use vstd::prelude::*;
use vstd::string::*;

verus! {

/// A named hyperlink.
#[derive(Clone, Debug, PartialEq)]
pub struct Link {
    pub name: String,
    pub url: String,
}

/// Ghost mirror of [`Link`].
pub ghost struct LinkV {
    pub name: Seq<char>,
    pub url: Seq<char>,
}

impl DeepView for Link {
    type V = LinkV;

    open spec fn deep_view(&self) -> LinkV {
        LinkV { name: self.name@, url: self.url@ }
    }
}

impl Link {
    /// An owned copy with the same contents.
    pub fn cloned(&self) -> (r: Self)
        ensures
            r.deep_view() == self.deep_view(),
    {
        Link { name: self.name.clone(), url: self.url.clone() }
    }
}

/// Text typed into or read from a numbered terminal.
#[derive(Clone, Debug, PartialEq)]
pub struct Terminal {
    pub number: u8,
    pub text: String,
}

/// Ghost mirror of [`Terminal`].
pub ghost struct TerminalV {
    pub number: u8,
    pub text: Seq<char>,
}

impl DeepView for Terminal {
    type V = TerminalV;

    open spec fn deep_view(&self) -> TerminalV {
        TerminalV { number: self.number, text: self.text@ }
    }
}

impl Terminal {
    /// An owned copy with the same contents.
    pub fn cloned(&self) -> (r: Self)
        ensures
            r.deep_view() == self.deep_view(),
    {
        Terminal { number: self.number, text: self.text.clone() }
    }
}

/// One thing the tester does within a step.
#[derive(Clone, Debug, PartialEq)]
pub enum Action {
    StdIn(Terminal),
    Image(String),
    Describe(String),
    Url(Link),
}

/// Ghost mirror of [`Action`].
pub ghost enum ActionV {
    StdIn(TerminalV),
    Image(Seq<char>),
    Describe(Seq<char>),
    Url(LinkV),
}

impl DeepView for Action {
    type V = ActionV;

    open spec fn deep_view(&self) -> ActionV {
        match self {
            Action::StdIn(t) => ActionV::StdIn(t.deep_view()),
            Action::Image(s) => ActionV::Image(s@),
            Action::Describe(s) => ActionV::Describe(s@),
            Action::Url(l) => ActionV::Url(l.deep_view()),
        }
    }
}

impl Action {
    /// An owned copy with the same contents.
    pub fn cloned(&self) -> (r: Self)
        ensures
            r.deep_view() == self.deep_view(),
    {
        match self {
            Action::StdIn(t) => Action::StdIn(t.cloned()),
            Action::Image(s) => Action::Image(s.clone()),
            Action::Describe(s) => Action::Describe(s.clone()),
            Action::Url(l) => Action::Url(l.cloned()),
        }
    }
}

/// One observation the tester checks within a step.
#[derive(Clone, Debug, PartialEq)]
pub enum Expect {
    StdOut(Terminal),
    StdErr(Terminal),
    Image(String),
    Describe(String),
    Url(Link),
}

/// Ghost mirror of [`Expect`].
pub ghost enum ExpectV {
    StdOut(TerminalV),
    StdErr(TerminalV),
    Image(Seq<char>),
    Describe(Seq<char>),
    Url(LinkV),
}

impl DeepView for Expect {
    type V = ExpectV;

    open spec fn deep_view(&self) -> ExpectV {
        match self {
            Expect::StdOut(t) => ExpectV::StdOut(t.deep_view()),
            Expect::StdErr(t) => ExpectV::StdErr(t.deep_view()),
            Expect::Image(s) => ExpectV::Image(s@),
            Expect::Describe(s) => ExpectV::Describe(s@),
            Expect::Url(l) => ExpectV::Url(l.deep_view()),
        }
    }
}

impl Expect {
    /// An owned copy with the same contents.
    pub fn cloned(&self) -> (r: Self)
        ensures
            r.deep_view() == self.deep_view(),
    {
        match self {
            Expect::StdOut(t) => Expect::StdOut(t.cloned()),
            Expect::StdErr(t) => Expect::StdErr(t.cloned()),
            Expect::Image(s) => Expect::Image(s.clone()),
            Expect::Describe(s) => Expect::Describe(s.clone()),
            Expect::Url(l) => Expect::Url(l.cloned()),
        }
    }
}

/// One step of a manual test: what to do and what to expect.
#[derive(Clone, Debug, PartialEq)]
pub struct Step {
    pub name: Option<String>,
    pub description: Option<String>,
    pub action: Vec<Action>,
    pub expect: Vec<Expect>,
}

/// Ghost mirror of [`Step`].
pub ghost struct StepV {
    pub name: Option<Seq<char>>,
    pub description: Option<Seq<char>>,
    pub action: Seq<ActionV>,
    pub expect: Seq<ExpectV>,
}

impl DeepView for Step {
    type V = StepV;

    open spec fn deep_view(&self) -> StepV {
        StepV {
            name: self.name.deep_view(),
            description: self.description.deep_view(),
            action: self.action.deep_view(),
            expect: self.expect.deep_view(),
        }
    }
}

/// An owned copy of an optional string.
pub fn clone_opt_string(v: &Option<String>) -> (r: Option<String>)
    ensures
        r.deep_view() == v.deep_view(),
{
    match v {
        Option::Some(s) => Option::Some(s.clone()),
        Option::None => Option::None,
    }
}

/// An owned copy of an optional list of strings.
pub fn clone_opt_strings(v: &Option<Vec<String>>) -> (r: Option<Vec<String>>)
    ensures
        r.deep_view() == v.deep_view(),
{
    match v {
        Option::Some(s) => Option::Some(crate::permutation::clone_strings(s)),
        Option::None => Option::None,
    }
}

impl Step {
    /// An owned copy with the same contents.
    pub fn cloned(&self) -> (r: Self)
        ensures
            r.deep_view() == self.deep_view(),
    {
        let mut action: Vec<Action> = Vec::new();
        let mut i: usize = 0;
        while i < self.action.len()
            invariant
                0 <= i <= self.action@.len(),
                action@.len() == i,
                action.deep_view() =~= self.action.deep_view().subrange(0, i as int),
            decreases self.action@.len() - i,
        {
            action.push(self.action[i].cloned());
            i = i + 1;
        }
        let mut expect: Vec<Expect> = Vec::new();
        let mut j: usize = 0;
        while j < self.expect.len()
            invariant
                0 <= j <= self.expect@.len(),
                expect@.len() == j,
                expect.deep_view() =~= self.expect.deep_view().subrange(0, j as int),
            decreases self.expect@.len() - j,
        {
            expect.push(self.expect[j].cloned());
            j = j + 1;
        }
        proof {
            assert(action.deep_view() =~= self.action.deep_view());
            assert(expect.deep_view() =~= self.expect.deep_view());
        }
        Step {
            name: clone_opt_string(&self.name),
            description: clone_opt_string(&self.description),
            action,
            expect,
        }
    }
}

/// A named manual-test procedure: steps, expected outcomes, labels, links.
#[derive(Clone, Debug, PartialEq)]
pub struct Requirement {
    pub name: String,
    pub shortname: Option<String>,
    pub description: String,
    pub steps: Vec<Step>,
    pub labels: Option<Vec<String>>,
    pub links: Option<Vec<Link>>,
}

/// Ghost mirror of [`Requirement`].
pub ghost struct RequirementV {
    pub name: Seq<char>,
    pub shortname: Option<Seq<char>>,
    pub description: Seq<char>,
    pub steps: Seq<StepV>,
    pub labels: Option<Seq<Seq<char>>>,
    pub links: Option<Seq<LinkV>>,
}

impl DeepView for Requirement {
    type V = RequirementV;

    open spec fn deep_view(&self) -> RequirementV {
        RequirementV {
            name: self.name@,
            shortname: self.shortname.deep_view(),
            description: self.description@,
            steps: self.steps.deep_view(),
            labels: self.labels.deep_view(),
            links: self.links.deep_view(),
        }
    }
}

impl Requirement {
    /// An owned copy with the same contents.
    pub fn cloned(&self) -> (r: Self)
        ensures
            r.deep_view() == self.deep_view(),
    {
        let mut steps: Vec<Step> = Vec::new();
        let mut i: usize = 0;
        while i < self.steps.len()
            invariant
                0 <= i <= self.steps@.len(),
                steps@.len() == i,
                steps.deep_view() =~= self.steps.deep_view().subrange(0, i as int),
            decreases self.steps@.len() - i,
        {
            steps.push(self.steps[i].cloned());
            i = i + 1;
        }
        let links: Option<Vec<Link>> = match &self.links {
            Option::Some(ls) => {
                let mut out: Vec<Link> = Vec::new();
                let mut j: usize = 0;
                while j < ls.len()
                    invariant
                        0 <= j <= ls@.len(),
                        out@.len() == j,
                        out.deep_view() =~= ls.deep_view().subrange(0, j as int),
                    decreases ls@.len() - j,
                {
                    out.push(ls[j].cloned());
                    j = j + 1;
                }
                proof {
                    assert(out.deep_view() =~= ls.deep_view());
                }
                Option::Some(out)
            },
            Option::None => Option::None,
        };
        proof {
            assert(steps.deep_view() =~= self.steps.deep_view());
        }
        Requirement {
            name: self.name.clone(),
            shortname: clone_opt_string(&self.shortname),
            description: self.description.clone(),
            steps,
            labels: clone_opt_strings(&self.labels),
            links,
        }
    }
}

/// The demonstration step of the demonstration requirement.
pub open spec fn spec_default_step() -> StepV {
    StepV {
        name: Option::Some("step name"@),
        description: Option::Some("step description"@),
        action: seq![
            ActionV::Describe("action"@),
            ActionV::StdIn(TerminalV { number: 1, text: "echo 'hi'"@ }),
            ActionV::Url(LinkV { name: "Google"@, url: "www.google.com"@ }),
            ActionV::Image("https://placekitten.com/200/300"@),
        ],
        expect: seq![
            ExpectV::Describe("expect"@),
            ExpectV::StdOut(TerminalV { number: 1, text: "hi"@ }),
            ExpectV::StdErr(TerminalV { number: 1, text: "error"@ }),
            ExpectV::Url(LinkV { name: "Google"@, url: "www.google.com"@ }),
            ExpectV::Image("https://placekitten.com/200/300"@),
        ],
    }
}

/// The demonstration requirement a fresh workspace starts from.
pub open spec fn spec_default_requirement() -> RequirementV {
    RequirementV {
        name: "name"@,
        shortname: Option::Some("shortname"@),
        description: "description"@,
        steps: seq![spec_default_step()],
        labels: Option::Some(seq!["label"@]),
        links: Option::Some(seq![LinkV { name: "Google"@, url: "www.google.com"@ }]),
    }
}

impl Requirement {
    /// A demonstration requirement with one fully filled step.
    pub fn default() -> (r: Self)
        ensures
            r.deep_view() == spec_default_requirement(),
    {
        let mut action: Vec<Action> = Vec::new();
        action.push(Action::Describe(String::from_str("action")));
        action.push(
            Action::StdIn(Terminal { number: 1, text: String::from_str("echo 'hi'") }),
        );
        action.push(
            Action::Url(
                Link {
                    name: String::from_str("Google"),
                    url: String::from_str("www.google.com"),
                },
            ),
        );
        action.push(Action::Image(String::from_str("https://placekitten.com/200/300")));
        let mut expect: Vec<Expect> = Vec::new();
        expect.push(Expect::Describe(String::from_str("expect")));
        expect.push(Expect::StdOut(Terminal { number: 1, text: String::from_str("hi") }));
        expect.push(Expect::StdErr(Terminal { number: 1, text: String::from_str("error") }));
        expect.push(
            Expect::Url(
                Link {
                    name: String::from_str("Google"),
                    url: String::from_str("www.google.com"),
                },
            ),
        );
        expect.push(Expect::Image(String::from_str("https://placekitten.com/200/300")));
        let step = Step {
            name: Option::Some(String::from_str("step name")),
            description: Option::Some(String::from_str("step description")),
            action,
            expect,
        };
        proof {
            assert(step.deep_view().action =~= spec_default_step().action);
            assert(step.deep_view().expect =~= spec_default_step().expect);
        }
        let mut steps: Vec<Step> = Vec::new();
        steps.push(step);
        let mut labels: Vec<String> = Vec::new();
        labels.push(String::from_str("label"));
        let mut links: Vec<Link> = Vec::new();
        links.push(
            Link { name: String::from_str("Google"), url: String::from_str("www.google.com") },
        );
        let r = Requirement {
            name: String::from_str("name"),
            shortname: Option::Some(String::from_str("shortname")),
            description: String::from_str("description"),
            steps,
            labels: Option::Some(labels),
            links: Option::Some(links),
        };
        proof {
            assert(r.deep_view().steps =~= spec_default_requirement().steps);
            assert(r.deep_view().labels->Some_0 =~= spec_default_requirement().labels->Some_0);
            assert(r.deep_view().links->Some_0 =~= spec_default_requirement().links->Some_0);
        }
        r
    }
}

/// A set of requirements as loaded from one document.
#[derive(Clone, Debug, PartialEq)]
pub struct RequirementsFile {
    pub requirements: Vec<Requirement>,
}

/// Ghost mirror of [`RequirementsFile`].
pub ghost struct RequirementsFileV {
    pub requirements: Seq<RequirementV>,
}

impl DeepView for RequirementsFile {
    type V = RequirementsFileV;

    open spec fn deep_view(&self) -> RequirementsFileV {
        RequirementsFileV { requirements: self.requirements.deep_view() }
    }
}

impl RequirementsFile {
    /// A document holding the demonstration requirement.
    pub fn default() -> (r: Self)
        ensures
            r.deep_view().requirements == seq![spec_default_requirement()],
    {
        let mut requirements: Vec<Requirement> = Vec::new();
        requirements.push(Requirement::default());
        let r = RequirementsFile { requirements };
        proof {
            assert(r.deep_view().requirements =~= seq![spec_default_requirement()]);
        }
        r
    }
}

/// A predicate over requirements: labels that must all be present, names
/// of which one must occur case-insensitively, and an optional negation.
#[derive(Clone, Debug, PartialEq)]
pub struct Filter {
    pub all_labels: Option<Vec<String>>,
    pub any_names: Option<Vec<String>>,
    pub negate: bool,
}

/// Ghost mirror of [`Filter`].
pub ghost struct FilterV {
    pub all_labels: Option<Seq<Seq<char>>>,
    pub any_names: Option<Seq<Seq<char>>>,
    pub negate: bool,
}

impl DeepView for Filter {
    type V = FilterV;

    open spec fn deep_view(&self) -> FilterV {
        FilterV {
            all_labels: self.all_labels.deep_view(),
            any_names: self.any_names.deep_view(),
            negate: self.negate,
        }
    }
}

impl Filter {
    /// An owned copy with the same contents.
    pub fn cloned(&self) -> (r: Self)
        ensures
            r.deep_view() == self.deep_view(),
    {
        Filter {
            all_labels: clone_opt_strings(&self.all_labels),
            any_names: clone_opt_strings(&self.any_names),
            negate: self.negate,
        }
    }
}

/// One step of a selection pipeline: widen by a filter, or narrow by one.
#[derive(Clone, Debug, PartialEq)]
pub enum SetSteps {
    /// Adds every requirement of the full list that matches the filter.
    Include(Filter),
    /// Removes every already selected requirement that matches the filter.
    Exclude(Filter),
}

/// Ghost mirror of [`SetSteps`].
pub ghost enum SetStepsV {
    Include(FilterV),
    Exclude(FilterV),
}

impl DeepView for SetSteps {
    type V = SetStepsV;

    open spec fn deep_view(&self) -> SetStepsV {
        match self {
            SetSteps::Include(f) => SetStepsV::Include(f.deep_view()),
            SetSteps::Exclude(f) => SetStepsV::Exclude(f.deep_view()),
        }
    }
}

impl SetSteps {
    /// An owned copy with the same contents.
    pub fn cloned(&self) -> (r: Self)
        ensures
            r.deep_view() == self.deep_view(),
    {
        match self {
            SetSteps::Include(f) => SetSteps::Include(f.cloned()),
            SetSteps::Exclude(f) => SetSteps::Exclude(f.cloned()),
        }
    }
}

/// A recipe for test cases: a selection pipeline over the requirements and
/// a dimension map whose product is crossed with the selection.
#[derive(Clone, Debug, PartialEq)]
pub struct TestCasesBuilder {
    pub name: String,
    pub description: String,
    pub set: Vec<SetSteps>,
    pub labels: Option<Vec<String>>,
    pub permutations: Permutations,
    pub minimum_permutations_to_render: u32,
}

/// Ghost mirror of [`TestCasesBuilder`].
pub ghost struct TestCasesBuilderV {
    pub name: Seq<char>,
    pub description: Seq<char>,
    pub set: Seq<SetStepsV>,
    pub labels: Option<Seq<Seq<char>>>,
    pub permutations: Seq<(Seq<char>, Seq<Seq<char>>)>,
    pub minimum_permutations_to_render: u32,
}

impl DeepView for TestCasesBuilder {
    type V = TestCasesBuilderV;

    open spec fn deep_view(&self) -> TestCasesBuilderV {
        TestCasesBuilderV {
            name: self.name@,
            description: self.description@,
            set: self.set.deep_view(),
            labels: self.labels.deep_view(),
            permutations: self.permutations.deep_view(),
            minimum_permutations_to_render: self.minimum_permutations_to_render,
        }
    }
}

impl TestCasesBuilder {
    /// An owned copy with the same contents.
    pub fn cloned(&self) -> (r: Self)
        ensures
            r.deep_view() == self.deep_view(),
            r.permutations.wf() == self.permutations.wf(),
    {
        let mut set: Vec<SetSteps> = Vec::new();
        let mut i: usize = 0;
        while i < self.set.len()
            invariant
                0 <= i <= self.set@.len(),
                set@.len() == i,
                set.deep_view() =~= self.set.deep_view().subrange(0, i as int),
            decreases self.set@.len() - i,
        {
            set.push(self.set[i].cloned());
            i = i + 1;
        }
        proof {
            assert(set.deep_view() =~= self.set.deep_view());
        }
        TestCasesBuilder {
            name: self.name.clone(),
            description: self.description.clone(),
            set,
            labels: clone_opt_strings(&self.labels),
            permutations: self.permutations.cloned(),
            minimum_permutations_to_render: self.minimum_permutations_to_render,
        }
    }
}

/// The dimension map of the demonstration builder.
pub open spec fn spec_default_permutations() -> Seq<(Seq<char>, Seq<Seq<char>>)> {
    seq![
        ("Operating System"@, seq!["Ubuntu 22.04"@, "Windows 11"@, "MacOS 12.0"@]),
        ("RMW"@, seq!["CycloneDDS"@, "FastRTPS"@]),
    ]
}

/// The demonstration builder a fresh workspace starts from.
pub open spec fn spec_default_test_cases_builder() -> TestCasesBuilderV {
    TestCasesBuilderV {
        name: "Demo test cases"@,
        description: "description"@,
        set: seq![
            SetStepsV::Include(
                FilterV {
                    all_labels: Option::Some(seq!["label"@]),
                    any_names: Option::Some(seq!["name"@]),
                    negate: false,
                },
            ),
            SetStepsV::Exclude(
                FilterV {
                    all_labels: Option::None,
                    any_names: Option::Some(seq!["Demo"@]),
                    negate: false,
                },
            ),
        ],
        labels: Option::Some(seq!["Demo"@]),
        permutations: spec_default_permutations(),
        minimum_permutations_to_render: 0,
    }
}

impl TestCasesBuilder {
    /// A demonstration builder over two dimensions with a two-step
    /// selection pipeline.
    pub fn default() -> (r: Self)
        ensures
            r.deep_view() == spec_default_test_cases_builder(),
            r.permutations.wf(),
    {
        let mut permutations = Permutations::new();
        let mut os_values: Vec<String> = Vec::new();
        os_values.push(String::from_str("Ubuntu 22.04"));
        os_values.push(String::from_str("Windows 11"));
        os_values.push(String::from_str("MacOS 12.0"));
        proof {
            assert(os_values.deep_view() =~= seq!["Ubuntu 22.04"@, "Windows 11"@, "MacOS 12.0"@]);
        }
        permutations.insert(String::from_str("Operating System"), os_values);
        let mut rmw_values: Vec<String> = Vec::new();
        rmw_values.push(String::from_str("CycloneDDS"));
        rmw_values.push(String::from_str("FastRTPS"));
        proof {
            assert(rmw_values.deep_view() =~= seq!["CycloneDDS"@, "FastRTPS"@]);
        }
        permutations.insert(String::from_str("RMW"), rmw_values);
        proof {
            reveal_strlit("Operating System");
            reveal_strlit("RMW");
            assert(spec_assoc_insert(
                Seq::<(Seq<char>, Seq<Seq<char>>)>::empty(),
                "Operating System"@,
                seq!["Ubuntu 22.04"@, "Windows 11"@, "MacOS 12.0"@],
            ) =~= seq![("Operating System"@, seq!["Ubuntu 22.04"@, "Windows 11"@, "MacOS 12.0"@])]);
            assert("RMW"@[0] == 'R' && "Operating System"@[0] == 'O');
            assert(!crate::text::lex_lt("RMW"@, "Operating System"@)) by {
                assert(('R' as u32) >= ('O' as u32));
            }
            assert("RMW"@ != "Operating System"@);
            let s1 = seq![("Operating System"@, seq!["Ubuntu 22.04"@, "Windows 11"@, "MacOS 12.0"@])];
            assert(s1.drop_first() =~= Seq::<(Seq<char>, Seq<Seq<char>>)>::empty());
            assert(spec_assoc_insert(
                s1.drop_first(),
                "RMW"@,
                seq!["CycloneDDS"@, "FastRTPS"@],
            ) =~= seq![("RMW"@, seq!["CycloneDDS"@, "FastRTPS"@])]);
            assert(spec_assoc_insert(s1, "RMW"@, seq!["CycloneDDS"@, "FastRTPS"@])
                =~= spec_default_permutations());
            assert(permutations.deep_view() =~= spec_default_permutations());
        }
        let mut set: Vec<SetSteps> = Vec::new();
        let mut include_labels: Vec<String> = Vec::new();
        include_labels.push(String::from_str("label"));
        let mut include_names: Vec<String> = Vec::new();
        include_names.push(String::from_str("name"));
        set.push(
            SetSteps::Include(
                Filter {
                    all_labels: Option::Some(include_labels),
                    any_names: Option::Some(include_names),
                    negate: false,
                },
            ),
        );
        let mut exclude_names: Vec<String> = Vec::new();
        exclude_names.push(String::from_str("Demo"));
        set.push(
            SetSteps::Exclude(
                Filter {
                    all_labels: Option::None,
                    any_names: Option::Some(exclude_names),
                    negate: false,
                },
            ),
        );
        let mut labels: Vec<String> = Vec::new();
        labels.push(String::from_str("Demo"));
        let r = TestCasesBuilder {
            name: String::from_str("Demo test cases"),
            description: String::from_str("description"),
            set,
            labels: Option::Some(labels),
            permutations,
            minimum_permutations_to_render: 0,
        };
        proof {
            assert(r.deep_view().set[0]->Include_0.all_labels->Some_0 =~= seq!["label"@]);
            assert(r.deep_view().set[0]->Include_0.any_names->Some_0 =~= seq!["name"@]);
            assert(r.deep_view().set[1]->Exclude_0.any_names->Some_0 =~= seq!["Demo"@]);
            assert(r.deep_view().set =~= spec_default_test_cases_builder().set);
            assert(r.deep_view().labels->Some_0 =~= seq!["Demo"@]);
        }
        r
    }
}

/// A set of builders as loaded from one document.
#[derive(Clone, Debug, PartialEq)]
pub struct TestCasesBuilderFile {
    pub test_cases_builders: Vec<TestCasesBuilder>,
}

/// Ghost mirror of [`TestCasesBuilderFile`].
pub ghost struct TestCasesBuilderFileV {
    pub test_cases_builders: Seq<TestCasesBuilderV>,
}

impl DeepView for TestCasesBuilderFile {
    type V = TestCasesBuilderFileV;

    open spec fn deep_view(&self) -> TestCasesBuilderFileV {
        TestCasesBuilderFileV { test_cases_builders: self.test_cases_builders.deep_view() }
    }
}

impl TestCasesBuilderFile {
    /// A document holding the demonstration builder.
    pub fn default() -> (r: Self)
        ensures
            r.deep_view().test_cases_builders == seq![spec_default_test_cases_builder()],
    {
        let mut test_cases_builders: Vec<TestCasesBuilder> = Vec::new();
        test_cases_builders.push(TestCasesBuilder::default());
        let r = TestCasesBuilderFile { test_cases_builders };
        proof {
            assert(r.deep_view().test_cases_builders =~= seq![spec_default_test_cases_builder()]);
        }
        r
    }
}

/// One selected requirement under one chosen permutation of a builder.
#[derive(Clone, Debug, PartialEq)]
pub struct TestCase {
    pub requirement: Requirement,
    pub builder_used: TestCasesBuilder,
    pub selected_permutation: Permutation,
}

/// Ghost mirror of [`TestCase`].
pub ghost struct TestCaseV {
    pub requirement: RequirementV,
    pub builder_used: TestCasesBuilderV,
    pub selected_permutation: Seq<(Seq<char>, Seq<char>)>,
}

impl DeepView for TestCase {
    type V = TestCaseV;

    open spec fn deep_view(&self) -> TestCaseV {
        TestCaseV {
            requirement: self.requirement.deep_view(),
            builder_used: self.builder_used.deep_view(),
            selected_permutation: self.selected_permutation.deep_view(),
        }
    }
}

/// A label of the remote tracker: name, colour, optional description.
#[derive(Clone, Debug, PartialEq)]
pub struct GithubLabel {
    pub name: String,
    pub color: String,
    pub description: Option<String>,
}

/// Ghost mirror of [`GithubLabel`].
pub ghost struct GithubLabelV {
    pub name: Seq<char>,
    pub color: Seq<char>,
    pub description: Option<Seq<char>>,
}

impl DeepView for GithubLabel {
    type V = GithubLabelV;

    open spec fn deep_view(&self) -> GithubLabelV {
        GithubLabelV {
            name: self.name@,
            color: self.color@,
            description: self.description.deep_view(),
        }
    }
}

/// A rendered issue as it would be created on the remote tracker.
#[derive(Clone, Debug, PartialEq)]
pub struct LocalIssue {
    pub labels: Vec<String>,
    pub title: String,
    pub text_body: String,
}

/// Ghost mirror of [`LocalIssue`].
pub ghost struct LocalIssueV {
    pub labels: Seq<Seq<char>>,
    pub title: Seq<char>,
    pub text_body: Seq<char>,
}

impl DeepView for LocalIssue {
    type V = LocalIssueV;

    open spec fn deep_view(&self) -> LocalIssueV {
        LocalIssueV { labels: self.labels.deep_view(), title: self.title@, text_body: self.text_body@ }
    }
}

impl LocalIssue {
    /// An owned copy with the same contents.
    pub fn cloned(&self) -> (r: Self)
        ensures
            r.deep_view() == self.deep_view(),
    {
        let labels = crate::permutation::clone_strings(&self.labels);
        proof {
            assert(labels.deep_view() =~= self.labels.deep_view());
        }
        LocalIssue {
            labels,
            title: self.title.clone(),
            text_body: self.text_body.clone(),
        }
    }
}

} // verus!
