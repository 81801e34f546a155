use yatm_v2::config::Config;
use yatm_v2::labels::{get_labels, permutation_to_labels, project_version_to_label, test_case_to_markdown};
use yatm_v2::permutation::{get_cartesian_product, Permutation, Permutations};
use yatm_v2::reconcile::{
    get_local_issues_without_matches, get_local_issues_matches, GithubIssueHelper,
    GithubIssueInfo, IssueMatchType,
};
use yatm_v2::remote::{classify_create_error, PageFetch, RetryDecision};
use yatm_v2::selection::get_selected_requirements;
use yatm_v2::synthesis::{get_test_cases, make_test_cases_helper};
use yatm_v2::toc::{prepend_markdown_table_of_contents, slugify};
use yatm_v2::types::{
    Filter, LocalIssue, Requirement, RequirementsFile, SetSteps, TestCase, TestCasesBuilder,
    TestCasesBuilderFile,
};

fn plain_requirement(name: &str, labels: Vec<String>) -> Requirement {
    Requirement {
        name: name.to_string(),
        shortname: None,
        description: "description".to_string(),
        labels: Some(labels),
        links: None,
        steps: vec![],
    }
}

fn builder(set: Vec<SetSteps>, permutations: Permutations) -> TestCasesBuilder {
    TestCasesBuilder {
        name: "builder".to_string(),
        description: "builder description".to_string(),
        set,
        labels: None,
        permutations,
        minimum_permutations_to_render: 0,
    }
}

fn pairs_of(p: &Permutation) -> Vec<(String, String)> {
    p.entries().clone()
}

#[test]
fn cartesian_product_is_complete_and_ordered() {
    let mut dims = Permutations::new();
    dims.insert(
        "B".to_string(),
        vec!["b1".to_string(), "b2".to_string(), "b3".to_string()],
    );
    dims.insert("A".to_string(), vec!["a1".to_string(), "a2".to_string()]);
    let result = get_cartesian_product(&dims);
    assert_eq!(result.len(), 6);
    let listed: Vec<Vec<(String, String)>> = result.iter().map(pairs_of).collect();
    let expected: Vec<Vec<(String, String)>> = vec![
        vec![("A".to_string(), "a1".to_string()), ("B".to_string(), "b1".to_string())],
        vec![("A".to_string(), "a1".to_string()), ("B".to_string(), "b2".to_string())],
        vec![("A".to_string(), "a1".to_string()), ("B".to_string(), "b3".to_string())],
        vec![("A".to_string(), "a2".to_string()), ("B".to_string(), "b1".to_string())],
        vec![("A".to_string(), "a2".to_string()), ("B".to_string(), "b2".to_string())],
        vec![("A".to_string(), "a2".to_string()), ("B".to_string(), "b3".to_string())],
    ];
    assert_eq!(listed, expected);
}

#[test]
fn empty_dimension_collapses_the_product() {
    let mut dims = Permutations::new();
    dims.insert("A".to_string(), vec!["a1".to_string()]);
    dims.insert("B".to_string(), vec![]);
    let result = get_cartesian_product(&dims);
    assert_eq!(result.len(), 0);
}

#[test]
fn zero_dimensions_give_one_empty_permutation() {
    let dims = Permutations::new();
    let result = get_cartesian_product(&dims);
    assert_eq!(result.len(), 1);
    assert_eq!(result[0].entries().len(), 0);
}

#[test]
fn include_rescans_the_full_requirement_list() {
    let requirements = vec![
        plain_requirement("name1", vec![]),
        plain_requirement("name2", vec![]),
    ];
    let b = builder(
        vec![
            SetSteps::Exclude(Filter {
                all_labels: None,
                any_names: Some(vec!["name1".to_string()]),
                negate: false,
            }),
            SetSteps::Include(Filter {
                all_labels: None,
                any_names: None,
                negate: false,
            }),
        ],
        Permutations::new(),
    );
    let result = get_selected_requirements(&requirements, &b);
    assert_eq!(result.len(), 2);
    assert_eq!(result[0].name, "name1");
    assert_eq!(result[1].name, "name2");
}

#[test]
fn synthesis_yields_requirement_major_cross_product() {
    let requirements = vec![
        plain_requirement("name1", vec!["core".to_string()]),
        plain_requirement("name2", vec!["core".to_string()]),
    ];
    let mut dims = Permutations::new();
    dims.insert(
        "key1".to_string(),
        vec!["v1".to_string(), "v2".to_string()],
    );
    dims.insert(
        "key2".to_string(),
        vec!["w1".to_string(), "w2".to_string()],
    );
    let b = builder(
        vec![SetSteps::Include(Filter {
            all_labels: Some(vec!["core".to_string()]),
            any_names: None,
            negate: false,
        })],
        dims,
    );
    let result = make_test_cases_helper(&b, &requirements);
    assert_eq!(result.len(), 8);
    for (i, case) in result.iter().enumerate() {
        let expected_name = if i < 4 { "name1" } else { "name2" };
        assert_eq!(case.requirement.name, expected_name);
    }
}

#[test]
fn reconciliation_is_idempotent_after_creation() {
    let local = vec![
        LocalIssue {
            labels: vec!["a".to_string()],
            title: "t1".to_string(),
            text_body: "b1".to_string(),
        },
        LocalIssue {
            labels: vec!["b".to_string()],
            title: "t2".to_string(),
            text_body: "b2".to_string(),
        },
    ];
    let mut remote = vec![GithubIssueHelper {
        labels: vec!["a".to_string()],
        title: "t1".to_string(),
    }];
    let missing = get_local_issues_without_matches(&local, &remote);
    assert_eq!(missing.len(), 1);
    for issue in &missing {
        remote.push(GithubIssueHelper {
            labels: issue.labels.clone(),
            title: issue.title.clone(),
        });
    }
    let second = get_local_issues_without_matches(&local, &remote);
    assert_eq!(second.len(), 0);
}

#[test]
fn matching_tolerates_extra_remote_labels_only() {
    let remote = vec![GithubIssueHelper {
        labels: vec!["a".to_string(), "triage".to_string()],
        title: "t".to_string(),
    }];
    let covered = vec![LocalIssue {
        labels: vec!["a".to_string()],
        title: "t".to_string(),
        text_body: "body".to_string(),
    }];
    assert_eq!(get_local_issues_without_matches(&covered, &remote).len(), 0);
    let wanting = vec![LocalIssue {
        labels: vec!["a".to_string(), "b".to_string()],
        title: "t".to_string(),
        text_body: "body".to_string(),
    }];
    let unmatched = get_local_issues_without_matches(&wanting, &remote);
    assert_eq!(unmatched.len(), 1);
    assert_eq!(unmatched[0].title, "t");
}

#[test]
fn boot_and_shutdown_cross_two_operating_systems() {
    let requirements = vec![
        plain_requirement("Boot test", vec!["core".to_string()]),
        plain_requirement("Shutdown test", vec!["core".to_string()]),
    ];
    let mut dims = Permutations::new();
    dims.insert(
        "OS".to_string(),
        vec!["Linux".to_string(), "Windows".to_string()],
    );
    let b = builder(
        vec![SetSteps::Include(Filter {
            all_labels: Some(vec!["core".to_string()]),
            any_names: None,
            negate: false,
        })],
        dims,
    );
    let result = make_test_cases_helper(&b, &requirements);
    assert_eq!(result.len(), 4);
    let summary: Vec<(String, String)> = result
        .iter()
        .map(|c| {
            (
                c.requirement.name.clone(),
                c.selected_permutation.entries()[0].1.clone(),
            )
        })
        .collect();
    assert_eq!(
        summary,
        vec![
            ("Boot test".to_string(), "Linux".to_string()),
            ("Boot test".to_string(), "Windows".to_string()),
            ("Shutdown test".to_string(), "Linux".to_string()),
            ("Shutdown test".to_string(), "Windows".to_string()),
        ]
    );
}

#[test]
fn labels_are_assembled_in_rendering_order() {
    let mut dims = Permutations::new();
    dims.insert("OS".to_string(), vec!["Linux".to_string()]);
    let b = TestCasesBuilder {
        name: "builder".to_string(),
        description: "d".to_string(),
        set: vec![],
        labels: Some(vec!["builder-label".to_string()]),
        permutations: dims,
        minimum_permutations_to_render: 0,
    };
    let mut perm = Permutation::new();
    perm.insert("OS".to_string(), "Linux".to_string());
    let case = TestCase {
        requirement: Requirement {
            name: "Boot test".to_string(),
            shortname: Some("boot".to_string()),
            description: "d".to_string(),
            labels: Some(vec!["core".to_string()]),
            links: None,
            steps: vec![],
        },
        builder_used: b,
        selected_permutation: perm,
    };
    let labels = get_labels(&case, &"1.2.3".to_string());
    assert_eq!(
        labels,
        vec![
            "builder-label".to_string(),
            "core".to_string(),
            "requirement: boot".to_string(),
            "OS: Linux".to_string(),
            "version: 1.2.3".to_string(),
        ]
    );
}

#[test]
fn permutation_labels_sort_by_formatted_text() {
    let mut perm = Permutation::new();
    perm.insert("a b".to_string(), "c".to_string());
    perm.insert("a".to_string(), "z".to_string());
    let labels = permutation_to_labels(&perm);
    assert_eq!(labels, vec!["a b: c".to_string(), "a: z".to_string()]);
}

#[test]
fn version_label_has_fixed_prefix() {
    assert_eq!(
        project_version_to_label(&"0.0.1".to_string()),
        "version: 0.0.1"
    );
}

#[test]
fn test_case_to_markdown_keeps_title_and_body() {
    let case = TestCase {
        requirement: plain_requirement("Boot test", vec![]),
        builder_used: builder(vec![], Permutations::new()),
        selected_permutation: Permutation::new(),
    };
    let issue = test_case_to_markdown(case, &"7".to_string(), "the body".to_string());
    assert_eq!(issue.title, "Boot test");
    assert_eq!(issue.text_body, "the body");
    assert!(issue.labels.contains(&"version: 7".to_string()));
    assert!(issue.labels.contains(&"requirement: Boot test".to_string()));
}

#[test]
fn slugify_lowers_dashes_and_filters() {
    assert_eq!(slugify("My Heading"), "my-heading");
    assert_eq!(slugify("C++ & Rust!"), "c--rust");
}

#[test]
fn prepend_returns_document_unchanged_without_headings() {
    let content = "no headings here".to_string();
    assert_eq!(prepend_markdown_table_of_contents(&content, None), content);
}

#[test]
fn prepend_sets_toc_before_document() {
    let content = "# Title\nbody".to_string();
    assert_eq!(
        prepend_markdown_table_of_contents(&content, None),
        "- [Title](#title)\n\n\n# Title\nbody"
    );
}

#[test]
fn classifier_finds_first_labelled_match() {
    let locals = vec![LocalIssue {
        labels: vec!["a".to_string()],
        title: "t".to_string(),
        text_body: "body".to_string(),
    }];
    let remotes = vec![
        GithubIssueInfo {
            title: "other".to_string(),
            labels: vec!["b".to_string()],
            body: None,
        },
        GithubIssueInfo {
            title: "t".to_string(),
            labels: vec!["a".to_string()],
            body: Some("body".to_string()),
        },
    ];
    let matches = get_local_issues_matches(&locals, &remotes);
    assert_eq!(matches.len(), 1);
    assert_eq!(matches[0].match_type, IssueMatchType::Match);
    assert_eq!(matches[0].github_issue.as_ref().unwrap().title, "t");

    let unmatched = get_local_issues_matches(
        &locals,
        &vec![GithubIssueInfo {
            title: "x".to_string(),
            labels: vec!["z".to_string()],
            body: None,
        }],
    );
    assert_eq!(unmatched[0].match_type, IssueMatchType::Missing);
    assert!(unmatched[0].github_issue.is_none());
}

#[test]
fn classifier_reports_differing_match() {
    let locals = vec![LocalIssue {
        labels: vec!["a".to_string()],
        title: "t".to_string(),
        text_body: "body".to_string(),
    }];
    let remotes = vec![GithubIssueInfo {
        title: "t".to_string(),
        labels: vec!["a".to_string()],
        body: Some("different body".to_string()),
    }];
    let matches = get_local_issues_matches(&locals, &remotes);
    assert_eq!(matches[0].match_type, IssueMatchType::MatchedWithDiff);
}

#[test]
fn only_the_secondary_rate_limit_is_retried() {
    assert_eq!(
        classify_create_error("You have exceeded a secondary rate limit. Please wait."),
        RetryDecision::RetryAfter(60)
    );
    assert_eq!(classify_create_error("Bad credentials"), RetryDecision::Abort);
}

#[test]
fn page_fetch_collects_until_an_empty_page() {
    let mut fetch = PageFetch::new();
    assert_eq!(fetch.next_page, 1);
    let done = fetch.absorb_page(vec![GithubIssueHelper {
        title: "t".to_string(),
        labels: vec![],
    }]);
    assert!(!done);
    assert_eq!(fetch.next_page, 2);
    assert_eq!(fetch.collected.len(), 1);
    let done = fetch.absorb_page(vec![]);
    assert!(done);
    assert_eq!(fetch.next_page, 2);
    assert_eq!(fetch.collected.len(), 1);
}

#[test]
fn get_test_cases_combines_loaded_documents() {
    let requirements_files = vec![RequirementsFile {
        requirements: vec![
            plain_requirement("name1", vec!["core".to_string()]),
            plain_requirement("name2", vec![]),
        ],
    }];
    let mut dims = Permutations::new();
    dims.insert("OS".to_string(), vec!["Linux".to_string()]);
    let builder_files = vec![TestCasesBuilderFile {
        test_cases_builders: vec![builder(
            vec![SetSteps::Include(Filter {
                all_labels: Some(vec!["core".to_string()]),
                any_names: None,
                negate: false,
            })],
            dims,
        )],
    }];
    let cases = get_test_cases(&requirements_files, &builder_files);
    assert_eq!(cases.len(), 1);
    assert_eq!(cases[0].requirement.name, "name1");
}

#[test]
fn default_values_name_the_demonstration_items() {
    let requirement = Requirement::default();
    assert_eq!(requirement.name, "name");
    assert_eq!(requirement.shortname, Some("shortname".to_string()));
    assert_eq!(requirement.steps.len(), 1);
    let requirements_file = RequirementsFile::default();
    assert_eq!(requirements_file.requirements.len(), 1);
    let b = TestCasesBuilder::default();
    assert_eq!(b.name, "Demo test cases");
    assert_eq!(b.permutations.entries().len(), 2);
    assert_eq!(b.permutations.entries()[0].0, "Operating System");
    assert_eq!(b.permutations.entries()[1].0, "RMW");
    let builder_file = TestCasesBuilderFile::default();
    assert_eq!(builder_file.test_cases_builders.len(), 1);
    let config = Config::default();
    assert_eq!(config.repo_owner, "repo_owner");
    assert_eq!(config.workspace_version, "0.0.1");
    assert_eq!(config.labels.len(), 7);
    assert_eq!(config.requirements_dirs, vec!["requirements".to_string()]);
}
