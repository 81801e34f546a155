//! Migration of first-generation requirement documents to the current
//! shape: checks become steps, and their fields become tagged actions and
//! expectations.

use crate::types::{
    Action, ActionV, Expect, ExpectV, Link, LinkV, Requirement, RequirementV, RequirementsFile,
    RequirementsFileV, Step, StepV, Terminal, TerminalV, clone_opt_string, clone_opt_strings,
};
use convert_case::Case;
use convert_case::Casing;
use vstd::prelude::*;
use vstd::string::*;

verus! {

/// What `Debug` formatting of a string returns; the result depends on the
/// characters alone.
pub uninterp spec fn debug_of(s: Seq<char>) -> Seq<char>;

/// What convert_case's snake-case conversion returns; the result depends
/// on the characters alone.
pub uninterp spec fn snake_of(s: Seq<char>) -> Seq<char>;

/// Relies on the Debug formatting of str: the quoted, escaped form of the
/// text, a function of the characters alone.
#[verifier::external_body]
fn debug_repr(s: &str) -> (r: String)
    ensures
        r@ == debug_of(s@),
{
    format!("{:?}", s)
}

/// Relies on convert_case's Casing::to_case with the snake-case target:
/// the snake_case form of the text, a function of the characters alone.
#[verifier::external_body]
fn to_snake_case(s: &str) -> (r: String)
    ensures
        r@ == snake_of(s@),
{
    s.to_case(Case::Snake)
}

/// A first-generation requirements document.
#[derive(Clone, Debug, PartialEq)]
pub struct RequirementsFileV1 {
    pub requirements: Vec<RequirementV1>,
}

/// Ghost mirror of [`RequirementsFileV1`].
pub ghost struct RequirementsFileV1V {
    pub requirements: Seq<RequirementV1V>,
}

impl DeepView for RequirementsFileV1 {
    type V = RequirementsFileV1V;

    open spec fn deep_view(&self) -> RequirementsFileV1V {
        RequirementsFileV1V { requirements: self.requirements.deep_view() }
    }
}

/// A first-generation requirement: named checks instead of steps.
#[derive(Clone, Debug, PartialEq)]
pub struct RequirementV1 {
    pub name: String,
    pub description: Option<String>,
    pub labels: Option<Vec<String>>,
    pub links: Option<Vec<Link>>,
    pub checks: Vec<CheckV1>,
}

/// Ghost mirror of [`RequirementV1`].
pub ghost struct RequirementV1V {
    pub name: Seq<char>,
    pub description: Option<Seq<char>>,
    pub labels: Option<Seq<Seq<char>>>,
    pub links: Option<Seq<LinkV>>,
    pub checks: Seq<CheckV1V>,
}

impl DeepView for RequirementV1 {
    type V = RequirementV1V;

    open spec fn deep_view(&self) -> RequirementV1V {
        RequirementV1V {
            name: self.name@,
            description: self.description.deep_view(),
            labels: self.labels.deep_view(),
            links: self.links.deep_view(),
            checks: self.checks.deep_view(),
        }
    }
}

/// A first-generation check: what to try and what to expect.
#[derive(Clone, Debug, PartialEq)]
pub struct CheckV1 {
    pub name: String,
    pub description: Option<String>,
    pub try_steps: Option<Vec<StepV1>>,
    pub expect: Option<Vec<StepV1>>,
}

/// Ghost mirror of [`CheckV1`].
pub ghost struct CheckV1V {
    pub name: Seq<char>,
    pub description: Option<Seq<char>>,
    pub try_steps: Option<Seq<StepV1V>>,
    pub expect: Option<Seq<StepV1V>>,
}

impl DeepView for CheckV1 {
    type V = CheckV1V;

    open spec fn deep_view(&self) -> CheckV1V {
        CheckV1V {
            name: self.name@,
            description: self.description.deep_view(),
            try_steps: self.try_steps.deep_view(),
            expect: self.expect.deep_view(),
        }
    }
}

/// One first-generation field bundle: a note, an image, terminal text.
#[allow(non_snake_case)]
#[derive(Clone, Debug, PartialEq)]
pub struct StepV1 {
    pub note: Option<String>,
    pub imageUrl: Option<String>,
    pub stdin: Option<String>,
    pub stdout: Option<String>,
    pub stderr: Option<String>,
    pub terminal: Option<u8>,
}

/// Ghost mirror of [`StepV1`].
#[allow(non_snake_case)]
pub ghost struct StepV1V {
    pub note: Option<Seq<char>>,
    pub imageUrl: Option<Seq<char>>,
    pub stdin: Option<Seq<char>>,
    pub stdout: Option<Seq<char>>,
    pub stderr: Option<Seq<char>>,
    pub terminal: Option<u8>,
}

impl DeepView for StepV1 {
    type V = StepV1V;

    open spec fn deep_view(&self) -> StepV1V {
        StepV1V {
            note: self.note.deep_view(),
            imageUrl: self.imageUrl.deep_view(),
            stdin: self.stdin.deep_view(),
            stdout: self.stdout.deep_view(),
            stderr: self.stderr.deep_view(),
            terminal: self.terminal,
        }
    }
}

/// Why a document could not be migrated.
#[derive(Clone, Debug, Eq, PartialEq)]
pub enum MigrateError {
    /// A check's field bundle yields not one action.
    NoActions,
    /// A check's field bundle yields not one expectation.
    NoExpects,
}

impl MigrateError {
    /// A short account of the error.
    pub fn message(&self) -> (r: String)
        ensures
            self is NoActions ==> r@ == "There should be at least one action"@,
            self is NoExpects ==> r@ == "There should be at least one expect"@,
    {
        match self {
            MigrateError::NoActions => String::from_str("There should be at least one action"),
            MigrateError::NoExpects => String::from_str("There should be at least one expect"),
        }
    }
}

/// The terminal number of a field bundle; an unnumbered one means the
/// first terminal.
pub open spec fn spec_terminal_of(t: Option<u8>) -> u8 {
    match t {
        Option::Some(n) => n,
        Option::None => 1,
    }
}

/// The actions one field bundle yields: its note, its input with the
/// terminal number, its image, and its outputs retold as descriptions.
pub open spec fn spec_try_actions(s: StepV1V) -> Seq<ActionV> {
    (match s.note {
        Option::Some(n) => seq![ActionV::Describe(n)],
        Option::None => Seq::empty(),
    }) + (match s.stdin {
        Option::Some(t) => seq![
            ActionV::StdIn(TerminalV { number: spec_terminal_of(s.terminal), text: t }),
        ],
        Option::None => Seq::empty(),
    }) + (match s.imageUrl {
        Option::Some(u) => seq![ActionV::Image(u)],
        Option::None => Seq::empty(),
    }) + (match s.stdout {
        Option::Some(o) => seq![ActionV::Describe("Stdout: "@ + debug_of(o))],
        Option::None => Seq::empty(),
    }) + (match s.stderr {
        Option::Some(e) => seq![ActionV::Describe("Stderr: "@ + debug_of(e))],
        Option::None => Seq::empty(),
    })
}

/// The expectations one field bundle yields: its note, its outputs with
/// the terminal number, its image, and its input retold as a description.
pub open spec fn spec_expect_expects(s: StepV1V) -> Seq<ExpectV> {
    (match s.note {
        Option::Some(n) => seq![ExpectV::Describe(n)],
        Option::None => Seq::empty(),
    }) + (match s.stdout {
        Option::Some(o) => seq![
            ExpectV::StdOut(TerminalV { number: spec_terminal_of(s.terminal), text: o }),
        ],
        Option::None => Seq::empty(),
    }) + (match s.stderr {
        Option::Some(e) => seq![
            ExpectV::StdErr(TerminalV { number: spec_terminal_of(s.terminal), text: e }),
        ],
        Option::None => Seq::empty(),
    }) + (match s.imageUrl {
        Option::Some(u) => seq![ExpectV::Image(u)],
        Option::None => Seq::empty(),
    }) + (match s.stdin {
        Option::Some(t) => seq![ExpectV::Describe("Stdin: "@ + debug_of(t))],
        Option::None => Seq::empty(),
    })
}

/// Turns one field bundle into actions; a bundle that yields none is
/// refused.
pub fn try_v1_to_actions_v2(try_v1: &StepV1) -> (r: Result<Vec<Action>, MigrateError>)
    ensures
        match r {
            Result::Ok(v) => v.deep_view() == spec_try_actions(try_v1.deep_view())
                && spec_try_actions(try_v1.deep_view()).len() > 0,
            Result::Err(e) => spec_try_actions(try_v1.deep_view()).len() == 0 && e
                == MigrateError::NoActions,
        },
{
    let ghost s_v = try_v1.deep_view();
    let mut actions: Vec<Action> = Vec::new();
    match &try_v1.note {
        Option::Some(note) => {
            actions.push(Action::Describe(note.clone()));
        },
        Option::None => {},
    }
    match &try_v1.stdin {
        Option::Some(stdin) => {
            let number: u8 = match try_v1.terminal {
                Option::Some(n) => n,
                Option::None => 1,
            };
            actions.push(Action::StdIn(Terminal { number, text: stdin.clone() }));
        },
        Option::None => {},
    }
    match &try_v1.imageUrl {
        Option::Some(url) => {
            actions.push(Action::Image(url.clone()));
        },
        Option::None => {},
    }
    match &try_v1.stdout {
        Option::Some(stdout) => {
            let mut text = String::from_str("Stdout: ");
            text.append(debug_repr(stdout.as_str()).as_str());
            actions.push(Action::Describe(text));
        },
        Option::None => {},
    }
    match &try_v1.stderr {
        Option::Some(stderr) => {
            let mut text = String::from_str("Stderr: ");
            text.append(debug_repr(stderr.as_str()).as_str());
            actions.push(Action::Describe(text));
        },
        Option::None => {},
    }
    proof {
        assert(actions.deep_view() =~= spec_try_actions(s_v));
    }
    if actions.len() == 0 {
        return Result::Err(MigrateError::NoActions);
    }
    Result::Ok(actions)
}

/// Turns one field bundle into expectations; a bundle that yields none is
/// refused.
pub fn expect_v1_to_expects_v2(expect_v1: &StepV1) -> (r: Result<Vec<Expect>, MigrateError>)
    ensures
        match r {
            Result::Ok(v) => v.deep_view() == spec_expect_expects(expect_v1.deep_view())
                && spec_expect_expects(expect_v1.deep_view()).len() > 0,
            Result::Err(e) => spec_expect_expects(expect_v1.deep_view()).len() == 0 && e
                == MigrateError::NoExpects,
        },
{
    let ghost s_v = expect_v1.deep_view();
    let mut expects: Vec<Expect> = Vec::new();
    match &expect_v1.note {
        Option::Some(note) => {
            expects.push(Expect::Describe(note.clone()));
        },
        Option::None => {},
    }
    match &expect_v1.stdout {
        Option::Some(stdout) => {
            let number: u8 = match expect_v1.terminal {
                Option::Some(n) => n,
                Option::None => 1,
            };
            expects.push(Expect::StdOut(Terminal { number, text: stdout.clone() }));
        },
        Option::None => {},
    }
    match &expect_v1.stderr {
        Option::Some(stderr) => {
            let number: u8 = match expect_v1.terminal {
                Option::Some(n) => n,
                Option::None => 1,
            };
            expects.push(Expect::StdErr(Terminal { number, text: stderr.clone() }));
        },
        Option::None => {},
    }
    match &expect_v1.imageUrl {
        Option::Some(url) => {
            expects.push(Expect::Image(url.clone()));
        },
        Option::None => {},
    }
    match &expect_v1.stdin {
        Option::Some(stdin) => {
            let mut text = String::from_str("Stdin: ");
            text.append(debug_repr(stdin.as_str()).as_str());
            expects.push(Expect::Describe(text));
        },
        Option::None => {},
    }
    proof {
        assert(expects.deep_view() =~= spec_expect_expects(s_v));
    }
    if expects.len() == 0 {
        return Result::Err(MigrateError::NoExpects);
    }
    Result::Ok(expects)
}

/// The field bundles of an optional list; absent means none.
pub open spec fn spec_opt_steps(o: Option<Seq<StepV1V>>) -> Seq<StepV1V> {
    match o {
        Option::Some(ss) => ss,
        Option::None => Seq::empty(),
    }
}

/// The actions of a list of field bundles, concatenated in order.
pub open spec fn spec_all_actions(ss: Seq<StepV1V>) -> Seq<ActionV>
    decreases ss.len(),
{
    if ss.len() == 0 {
        Seq::empty()
    } else {
        spec_all_actions(ss.drop_last()) + spec_try_actions(ss.last())
    }
}

/// The expectations of a list of field bundles, concatenated in order.
pub open spec fn spec_all_expects(ss: Seq<StepV1V>) -> Seq<ExpectV>
    decreases ss.len(),
{
    if ss.len() == 0 {
        Seq::empty()
    } else {
        spec_all_expects(ss.drop_last()) + spec_expect_expects(ss.last())
    }
}

/// Whether every bundle of the list yields at least one action.
pub open spec fn spec_tries_ok(ss: Seq<StepV1V>) -> bool {
    forall|i: int| 0 <= i < ss.len() ==> spec_try_actions(#[trigger] ss[i]).len() > 0
}

/// Whether every bundle of the list yields at least one expectation.
pub open spec fn spec_expects_ok(ss: Seq<StepV1V>) -> bool {
    forall|i: int| 0 <= i < ss.len() ==> spec_expect_expects(#[trigger] ss[i]).len() > 0
}

/// The step a check becomes: its name and description carried over, its
/// bundles' actions and expectations concatenated.
pub open spec fn spec_check_step(c: CheckV1V) -> StepV {
    StepV {
        name: Option::Some(c.name),
        description: c.description,
        action: spec_all_actions(spec_opt_steps(c.try_steps)),
        expect: spec_all_expects(spec_opt_steps(c.expect)),
    }
}

/// Whether a check migrates without error.
pub open spec fn spec_check_ok(c: CheckV1V) -> bool {
    spec_tries_ok(spec_opt_steps(c.try_steps)) && spec_expects_ok(spec_opt_steps(c.expect))
}

/// Turns one check into a step; the first bundle that yields nothing
/// stops the migration, actions before expectations.
pub fn check_v1_to_step_v2(check: &CheckV1) -> (r: Result<Step, MigrateError>)
    ensures
        match r {
            Result::Ok(step) => spec_check_ok(check.deep_view()) && step.deep_view()
                == spec_check_step(check.deep_view()),
            Result::Err(e) => !spec_check_ok(check.deep_view()) && (e == (
            if spec_tries_ok(spec_opt_steps(check.deep_view().try_steps)) {
                MigrateError::NoExpects
            } else {
                MigrateError::NoActions
            })),
        },
{
    let ghost c_v = check.deep_view();
    let ghost tries_v = spec_opt_steps(c_v.try_steps);
    let ghost expects_v = spec_opt_steps(c_v.expect);
    let mut action: Vec<Action> = Vec::new();
    match &check.try_steps {
        Option::Some(steps) => {
            let mut i: usize = 0;
            while i < steps.len()
                invariant
                    0 <= i <= steps@.len(),
                    c_v == check.deep_view(),
                    tries_v == spec_opt_steps(c_v.try_steps),
                    tries_v == steps.deep_view(),
                    tries_v.len() == steps@.len(),
                    spec_tries_ok(tries_v.take(i as int)),
                    action.deep_view() =~= spec_all_actions(tries_v.take(i as int)),
                decreases steps@.len() - i,
            {
                proof {
                    assert(tries_v[i as int] == steps@[i as int].deep_view());
                    assert(tries_v.take(i as int + 1).drop_last() =~= tries_v.take(i as int));
                    assert(tries_v.take(i as int + 1).last() == tries_v[i as int]);
                }
                match try_v1_to_actions_v2(&steps[i]) {
                    Result::Ok(mut acts) => {
                        let ghost pre = action.deep_view();
                        let ghost acts_v = acts.deep_view();
                        action.append(&mut acts);
                        proof {
                            assert(action.deep_view() =~= pre + acts_v);
                            assert forall|j: int| 0 <= j < i + 1 implies spec_try_actions(
                                #[trigger] tries_v.take(i as int + 1)[j],
                            ).len() > 0 by {
                                if j < i {
                                    assert(spec_try_actions(tries_v.take(i as int)[j]).len() > 0);
                                }
                            }
                        }
                        i = i + 1;
                    },
                    Result::Err(e) => {
                        proof {
                            assert(spec_try_actions(tries_v[i as int]).len() == 0);
                            assert(!spec_tries_ok(tries_v));
                        }
                        return Result::Err(e);
                    },
                }
            }
            proof {
                assert(tries_v.take(tries_v.len() as int) =~= tries_v);
            }
        },
        Option::None => {
            proof {
                assert(tries_v =~= Seq::<StepV1V>::empty());
                assert(action.deep_view() =~= spec_all_actions(tries_v));
            }
        },
    }
    let mut expect: Vec<Expect> = Vec::new();
    match &check.expect {
        Option::Some(steps) => {
            let mut i: usize = 0;
            while i < steps.len()
                invariant
                    0 <= i <= steps@.len(),
                    c_v == check.deep_view(),
                    expects_v == spec_opt_steps(c_v.expect),
                    expects_v == steps.deep_view(),
                    expects_v.len() == steps@.len(),
                    spec_tries_ok(tries_v),
                    action.deep_view() == spec_all_actions(tries_v),
                    tries_v == spec_opt_steps(c_v.try_steps),
                    spec_expects_ok(expects_v.take(i as int)),
                    expect.deep_view() =~= spec_all_expects(expects_v.take(i as int)),
                decreases steps@.len() - i,
            {
                proof {
                    assert(expects_v[i as int] == steps@[i as int].deep_view());
                    assert(expects_v.take(i as int + 1).drop_last() =~= expects_v.take(i as int));
                    assert(expects_v.take(i as int + 1).last() == expects_v[i as int]);
                }
                match expect_v1_to_expects_v2(&steps[i]) {
                    Result::Ok(mut exps) => {
                        let ghost pre = expect.deep_view();
                        let ghost exps_v = exps.deep_view();
                        expect.append(&mut exps);
                        proof {
                            assert(expect.deep_view() =~= pre + exps_v);
                            assert forall|j: int| 0 <= j < i + 1 implies spec_expect_expects(
                                #[trigger] expects_v.take(i as int + 1)[j],
                            ).len() > 0 by {
                                if j < i {
                                    assert(spec_expect_expects(expects_v.take(i as int)[j]).len()
                                        > 0);
                                }
                            }
                        }
                        i = i + 1;
                    },
                    Result::Err(e) => {
                        proof {
                            assert(spec_expect_expects(expects_v[i as int]).len() == 0);
                            assert(!spec_expects_ok(expects_v));
                        }
                        return Result::Err(e);
                    },
                }
            }
            proof {
                assert(expects_v.take(expects_v.len() as int) =~= expects_v);
            }
        },
        Option::None => {
            proof {
                assert(expects_v =~= Seq::<StepV1V>::empty());
                assert(expect.deep_view() =~= spec_all_expects(expects_v));
            }
        },
    }
    Result::Ok(
        Step {
            name: Option::Some(check.name.clone()),
            description: clone_opt_string(&check.description),
            action,
            expect,
        },
    )
}

/// The requirement a first-generation requirement becomes: the snake_case
/// form of its name as shortname, an absent description as empty text,
/// and one step per check.
pub open spec fn spec_convert_requirement(r: RequirementV1V) -> RequirementV {
    RequirementV {
        name: r.name,
        shortname: Option::Some(snake_of(r.name)),
        description: match r.description {
            Option::Some(d) => d,
            Option::None => Seq::empty(),
        },
        steps: r.checks.map_values(|c: CheckV1V| spec_check_step(c)),
        labels: r.labels,
        links: r.links,
    }
}

/// Whether every check of the requirement migrates without error.
pub open spec fn spec_requirement_ok(r: RequirementV1V) -> bool {
    forall|i: int| 0 <= i < r.checks.len() ==> spec_check_ok(#[trigger] r.checks[i])
}

/// Turns one first-generation requirement into a requirement; the first
/// failing check stops the migration.
pub fn convert_v1_to_v2(req_v1: &RequirementV1) -> (r: Result<Requirement, MigrateError>)
    ensures
        match r {
            Result::Ok(req) => spec_requirement_ok(req_v1.deep_view()) && req.deep_view()
                == spec_convert_requirement(req_v1.deep_view()),
            Result::Err(_) => !spec_requirement_ok(req_v1.deep_view()),
        },
{
    let ghost r_v = req_v1.deep_view();
    let mut steps: Vec<Step> = Vec::new();
    let mut i: usize = 0;
    while i < req_v1.checks.len()
        invariant
            0 <= i <= req_v1.checks@.len(),
            r_v == req_v1.deep_view(),
            r_v.checks.len() == req_v1.checks@.len(),
            forall|j: int| 0 <= j < i ==> spec_check_ok(#[trigger] r_v.checks[j]),
            steps.deep_view() =~= r_v.checks.map_values(|c: CheckV1V| spec_check_step(c)).take(
                i as int,
            ),
        decreases req_v1.checks@.len() - i,
    {
        proof {
            assert(r_v.checks[i as int] == req_v1.checks@[i as int].deep_view());
        }
        match check_v1_to_step_v2(&req_v1.checks[i]) {
            Result::Ok(step) => {
                let ghost pre = steps.deep_view();
                steps.push(step);
                proof {
                    let mapped = r_v.checks.map_values(|c: CheckV1V| spec_check_step(c));
                    assert(steps.deep_view() =~= pre.push(spec_check_step(r_v.checks[i as int])));
                    assert(mapped.take(i as int + 1) =~= mapped.take(i as int).push(
                        mapped[i as int],
                    ));
                }
                i = i + 1;
            },
            Result::Err(e) => {
                proof {
                    assert(!spec_check_ok(r_v.checks[i as int]));
                }
                return Result::Err(e);
            },
        }
    }
    let shortname = to_snake_case(req_v1.name.as_str());
    let description: String = match &req_v1.description {
        Option::Some(d) => d.clone(),
        Option::None => String::new(),
    };
    let links: Option<Vec<Link>> = match &req_v1.links {
        Option::Some(ls) => {
            let mut out: Vec<Link> = Vec::new();
            let mut j: usize = 0;
            while j < ls.len()
                invariant
                    0 <= j <= ls@.len(),
                    out@.len() == j,
                    out.deep_view() =~= ls.deep_view().subrange(0, j as int),
                decreases ls@.len() - j,
            {
                out.push(ls[j].cloned());
                j = j + 1;
            }
            proof {
                assert(out.deep_view() =~= ls.deep_view());
            }
            Option::Some(out)
        },
        Option::None => Option::None,
    };
    proof {
        let mapped = r_v.checks.map_values(|c: CheckV1V| spec_check_step(c));
        assert(mapped.take(r_v.checks.len() as int) =~= mapped);
    }
    Result::Ok(
        Requirement {
            name: req_v1.name.clone(),
            shortname: Option::Some(shortname),
            description,
            steps,
            labels: clone_opt_strings(&req_v1.labels),
            links,
        },
    )
}

/// The position of the last occurrence of a character, or -1 if there is
/// none.
pub open spec fn last_index_of(s: Seq<char>, c: char) -> int
    decreases s.len(),
{
    if s.len() == 0 {
        -1
    } else if s.last() == c {
        s.len() - 1
    } else {
        last_index_of(s.drop_last(), c)
    }
}

/// The last occurrence sits where the last matching character sits.
proof fn lemma_last_index_at(s: Seq<char>, c: char, k: int)
    requires
        0 <= k < s.len(),
        s[k] == c,
        forall|j: int| k < j < s.len() ==> s[j] != c,
    ensures
        last_index_of(s, c) == k,
    decreases s.len(),
{
    if k == s.len() - 1 {
    } else {
        assert(s.last() != c);
        assert(forall|j: int| k < j < s.drop_last().len() ==> s.drop_last()[j] != c);
        lemma_last_index_at(s.drop_last(), c, k);
    }
}

/// Without a matching character there is no last occurrence.
proof fn lemma_last_index_none(s: Seq<char>, c: char)
    requires
        forall|j: int| 0 <= j < s.len() ==> s[j] != c,
    ensures
        last_index_of(s, c) == -1,
    decreases s.len(),
{
    if s.len() > 0 {
        assert(forall|j: int| 0 <= j < s.drop_last().len() ==> s.drop_last()[j] != c);
        lemma_last_index_none(s.drop_last(), c);
    }
}

/// Finds the position of the last occurrence of a character.
fn rfind_char(s: &str, c: char) -> (r: Option<usize>)
    ensures
        match r {
            Option::Some(k) => k < s@.len() && last_index_of(s@, c) == k,
            Option::None => last_index_of(s@, c) == -1,
        },
{
    let len: usize = s.unicode_len();
    let mut i: usize = len;
    loop
        invariant
            0 <= i <= len,
            len == s@.len(),
            forall|j: int| i <= j < len ==> s@[j] != c,
        decreases i,
    {
        if i == 0 {
            proof {
                lemma_last_index_none(s@, c);
            }
            return Option::None;
        }
        if s.get_char(i - 1) == c {
            proof {
                lemma_last_index_at(s@, c, i - 1);
            }
            return Option::Some(i - 1);
        }
        i = i - 1;
    }
}

/// The migrated twin of a file name: a version mark appended to the stem,
/// the extension kept.  The stem reaches to the last dot of the name
/// behind the last slash; a name without a dot, or with only a leading
/// one, has the mark appended whole, and a trailing dot is dropped.
pub open spec fn spec_append_v2(path: Seq<char>) -> Seq<char> {
    let name_start = last_index_of(path, '/') + 1;
    let name = path.skip(name_start);
    let dot = last_index_of(name, '.');
    if dot <= 0 {
        path + "_v2"@
    } else if dot == name.len() - 1 {
        path.take(name_start + dot) + "_v2"@
    } else {
        path.take(name_start + dot) + "_v2"@ + path.skip(name_start + dot)
    }
}

/// Appends the version mark to a file name, as `spec_append_v2` says.
pub fn append_v2_to_filename(path: &str) -> (r: String)
    ensures
        r@ == spec_append_v2(path@),
{
    let len: usize = path.unicode_len();
    let name_start: usize = match rfind_char(path, '/') {
        Option::Some(k) => k + 1,
        Option::None => 0,
    };
    let name = path.substring_char(name_start, len);
    proof {
        assert(name@ =~= path@.skip(name_start as int));
    }
    let dot = rfind_char(name, '.');
    match dot {
        Option::Some(d) if d > 0 => {
            let cut: usize = name_start + d;
            let mut out = String::from_str(path.substring_char(0, cut));
            out.append("_v2");
            if d < name.unicode_len() - 1 {
                out.append(path.substring_char(cut, len));
                proof {
                    assert(path@.subrange(0, cut as int) =~= path@.take(cut as int));
                    assert(path@.subrange(cut as int, len as int) =~= path@.skip(cut as int));
                }
            } else {
                proof {
                    assert(path@.subrange(0, cut as int) =~= path@.take(cut as int));
                }
            }
            out
        },
        _ => {
            let mut out = String::from_str(path);
            out.append("_v2");
            out
        },
    }
}

/// Whether every requirement of the document migrates without error.
pub open spec fn spec_file_ok(f: RequirementsFileV1V) -> bool {
    forall|i: int| 0 <= i < f.requirements.len() ==> spec_requirement_ok(#[trigger] f.requirements[i])
}

/// The document a first-generation document becomes.
pub open spec fn spec_convert_file(f: RequirementsFileV1V) -> RequirementsFileV {
    RequirementsFileV {
        requirements: f.requirements.map_values(|r: RequirementV1V| spec_convert_requirement(r)),
    }
}

/// Migrates a whole first-generation document; the first failing check of
/// any requirement stops the migration.
pub fn convert_requirements_file_v1_to_v2(file_v1: &RequirementsFileV1) -> (r: Result<
    RequirementsFile,
    MigrateError,
>)
    ensures
        match r {
            Result::Ok(f) => spec_file_ok(file_v1.deep_view()) && f.deep_view()
                == spec_convert_file(file_v1.deep_view()),
            Result::Err(_) => !spec_file_ok(file_v1.deep_view()),
        },
{
    let ghost f_v = file_v1.deep_view();
    let mut requirements: Vec<Requirement> = Vec::new();
    let mut i: usize = 0;
    while i < file_v1.requirements.len()
        invariant
            0 <= i <= file_v1.requirements@.len(),
            f_v == file_v1.deep_view(),
            f_v.requirements.len() == file_v1.requirements@.len(),
            forall|j: int| 0 <= j < i ==> spec_requirement_ok(#[trigger] f_v.requirements[j]),
            requirements.deep_view() =~= f_v.requirements.map_values(
                |r2: RequirementV1V| spec_convert_requirement(r2),
            ).take(i as int),
        decreases file_v1.requirements@.len() - i,
    {
        proof {
            assert(f_v.requirements[i as int] == file_v1.requirements@[i as int].deep_view());
        }
        match convert_v1_to_v2(&file_v1.requirements[i]) {
            Result::Ok(req) => {
                let ghost pre = requirements.deep_view();
                requirements.push(req);
                proof {
                    let mapped = f_v.requirements.map_values(
                        |r2: RequirementV1V| spec_convert_requirement(r2),
                    );
                    assert(requirements.deep_view() =~= pre.push(
                        spec_convert_requirement(f_v.requirements[i as int]),
                    ));
                    assert(mapped.take(i as int + 1) =~= mapped.take(i as int).push(
                        mapped[i as int],
                    ));
                }
                i = i + 1;
            },
            Result::Err(e) => {
                proof {
                    assert(!spec_requirement_ok(f_v.requirements[i as int]));
                }
                return Result::Err(e);
            },
        }
    }
    proof {
        let mapped = f_v.requirements.map_values(
            |r2: RequirementV1V| spec_convert_requirement(r2),
        );
        assert(mapped.take(f_v.requirements.len() as int) =~= mapped);
        assert(requirements.deep_view() =~= mapped);
    }
    Result::Ok(RequirementsFile { requirements })
}

} // verus!
