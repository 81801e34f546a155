use yatm_v2::permutation::{get_cartesian_product, Permutation, Permutations};
use yatm_v2::selection::get_selected_requirements;
use yatm_v2::synthesis::make_test_cases_helper;
use yatm_v2::types::{Filter, Requirement, SetSteps, TestCase, TestCasesBuilder};

fn plain_requirement(name: &str, labels: Vec<String>) -> Requirement {
    Requirement {
        name: name.to_string(),
        shortname: None,
        description: "description".to_string(),
        labels: Some(labels),
        links: None,
        steps: vec![],
    }
}

fn builder(set: Vec<SetSteps>, labels: Option<Vec<String>>, permutations: Permutations) -> TestCasesBuilder {
    TestCasesBuilder {
        name: "Test test case".to_string(),
        description: "My description".to_string(),
        set,
        labels,
        permutations,
        minimum_permutations_to_render: 0,
    }
}

fn single_permutation(pairs: &[(&str, &str)]) -> Permutation {
    let mut p = Permutation::new();
    for (k, v) in pairs {
        p.insert(k.to_string(), v.to_string());
    }
    p
}

fn is_match_test_cases(actual: &Vec<TestCase>, expected: &Vec<TestCase>) -> bool {
    if actual.len() != expected.len() {
        return false;
    }
    for (a, e) in actual.iter().zip(expected.iter()) {
        if a.requirement.name != e.requirement.name {
            return false;
        }
        if a.builder_used.name != e.builder_used.name {
            return false;
        }
        if a.selected_permutation != e.selected_permutation {
            return false;
        }
    }
    true
}

fn is_match_requirements(actual: &Vec<Requirement>, expected: &Vec<Requirement>) -> bool {
    if actual.len() != expected.len() {
        return false;
    }
    for (a, e) in actual.iter().zip(expected.iter()) {
        if a.name != e.name {
            return false;
        }
    }
    true
}

#[test]
fn make_test_cases_two_matches() {
    let requirements = vec![
        plain_requirement("name1", vec!["label1".to_string()]),
        plain_requirement("name2", vec!["label2".to_string()]),
    ];
    let mut permutations = Permutations::new();
    permutations.insert(
        "key1".to_string(),
        vec!["value1".to_string(), "value2".to_string()],
    );
    let test_cases_builder = builder(
        vec![SetSteps::Include(Filter {
            all_labels: None,
            any_names: Some(vec!["name1".to_string(), "name2".to_string()]),
            negate: false,
        })],
        Some(vec!["label1".to_string(), "label2".to_string()]),
        permutations,
    );
    let result = make_test_cases_helper(&test_cases_builder, &requirements);
    let expected = vec![
        TestCase {
            requirement: requirements[0].clone(),
            builder_used: test_cases_builder.clone(),
            selected_permutation: single_permutation(&[("key1", "value1")]),
        },
        TestCase {
            requirement: requirements[0].clone(),
            builder_used: test_cases_builder.clone(),
            selected_permutation: single_permutation(&[("key1", "value2")]),
        },
        TestCase {
            requirement: requirements[1].clone(),
            builder_used: test_cases_builder.clone(),
            selected_permutation: single_permutation(&[("key1", "value1")]),
        },
        TestCase {
            requirement: requirements[1].clone(),
            builder_used: test_cases_builder.clone(),
            selected_permutation: single_permutation(&[("key1", "value2")]),
        },
    ];
    assert!(is_match_test_cases(&result, &expected));
}

#[test]
fn test_make_test_cases_one_match() {
    let requirements = vec![
        plain_requirement("name1", vec!["label1".to_string()]),
        plain_requirement("name2", vec!["label2".to_string()]),
    ];
    let mut permutations = Permutations::new();
    permutations.insert(
        "key1".to_string(),
        vec!["value1".to_string(), "value2".to_string()],
    );
    permutations.insert(
        "key2".to_string(),
        vec!["value3".to_string(), "value4".to_string()],
    );
    let test_cases_builder = builder(
        vec![
            SetSteps::Include(Filter {
                all_labels: None,
                any_names: Some(vec!["name1".to_string(), "name2".to_string()]),
                negate: false,
            }),
            SetSteps::Exclude(Filter {
                all_labels: Some(vec!["label2".to_string()]),
                any_names: None,
                negate: false,
            }),
        ],
        Some(vec!["label1".to_string(), "label2".to_string()]),
        permutations,
    );
    let result = make_test_cases_helper(&test_cases_builder, &requirements);
    let expected = vec![
        TestCase {
            requirement: requirements[0].clone(),
            builder_used: test_cases_builder.clone(),
            selected_permutation: single_permutation(&[("key1", "value1"), ("key2", "value3")]),
        },
        TestCase {
            requirement: requirements[0].clone(),
            builder_used: test_cases_builder.clone(),
            selected_permutation: single_permutation(&[("key1", "value1"), ("key2", "value4")]),
        },
        TestCase {
            requirement: requirements[0].clone(),
            builder_used: test_cases_builder.clone(),
            selected_permutation: single_permutation(&[("key1", "value2"), ("key2", "value3")]),
        },
        TestCase {
            requirement: requirements[0].clone(),
            builder_used: test_cases_builder.clone(),
            selected_permutation: single_permutation(&[("key1", "value2"), ("key2", "value4")]),
        },
    ];
    assert!(is_match_test_cases(&result, &expected));
}

#[test]
fn test_make_test_cases_no_match() {
    let requirements = vec![
        plain_requirement("name1", vec!["label1".to_string()]),
        plain_requirement("name2", vec!["label2".to_string()]),
    ];
    let test_cases_builder = builder(
        vec![SetSteps::Include(Filter {
            all_labels: Some(vec!["label-none".to_string()]),
            any_names: None,
            negate: false,
        })],
        Some(vec!["label3".to_string()]),
        Permutations::new(),
    );
    let result = make_test_cases_helper(&test_cases_builder, &requirements);
    let expected: Vec<TestCase> = vec![];
    assert!(is_match_test_cases(&result, &expected));
}

#[test]
fn test_get_cartesian_product() {
    let mut data = Permutations::new();
    data.insert("a".to_string(), vec!["1".to_string(), "2".to_string()]);
    data.insert("b".to_string(), vec!["3".to_string(), "4".to_string()]);

    let result = get_cartesian_product(&data);

    let expected: Vec<Permutation> = vec![
        single_permutation(&[("a", "1"), ("b", "3")]),
        single_permutation(&[("a", "1"), ("b", "4")]),
        single_permutation(&[("a", "2"), ("b", "3")]),
        single_permutation(&[("a", "2"), ("b", "4")]),
    ];

    assert_eq!(result, expected);
}

#[test]
fn test_get_cartesian_product_empty() {
    let data = Permutations::new();
    let result = get_cartesian_product(&data);
    let expected: Vec<Permutation> = vec![Permutation::new()];
    assert_eq!(result, expected);
}

#[test]
fn test_get_cartesian_product_single() {
    let mut data = Permutations::new();
    data.insert("a".to_string(), vec!["1".to_string(), "2".to_string()]);
    let result = get_cartesian_product(&data);
    let expected: Vec<Permutation> = vec![
        single_permutation(&[("a", "1")]),
        single_permutation(&[("a", "2")]),
    ];
    assert_eq!(result, expected);
}

#[test]
fn test_get_cartesian_product_single_empty() {
    let mut data = Permutations::new();
    data.insert("a".to_string(), vec![]);
    let result = get_cartesian_product(&data);
    let expected: Vec<Permutation> = vec![];
    assert_eq!(result, expected);
}

#[test]
fn include_no_match() {
    let requirements = vec![
        plain_requirement("name1", vec!["label1".to_string()]),
        plain_requirement("name2", vec!["label2".to_string()]),
    ];
    let test_cases_builder = builder(
        vec![SetSteps::Include(Filter {
            all_labels: Some(vec!["label-none".to_string()]),
            any_names: None,
            negate: false,
        })],
        Some(vec!["label3".to_string()]),
        Permutations::new(),
    );
    let result = get_selected_requirements(&requirements, &test_cases_builder);
    let expected: Vec<Requirement> = vec![];
    assert!(is_match_requirements(&result, &expected));
}

#[test]
fn include_one_step() {
    let requirements = vec![
        plain_requirement("name1", vec!["label1".to_string()]),
        plain_requirement("name2", vec!["label2".to_string()]),
    ];
    let test_cases_builder = builder(
        vec![SetSteps::Include(Filter {
            all_labels: Some(vec!["label1".to_string()]),
            any_names: None,
            negate: false,
        })],
        Some(vec!["label1".to_string(), "label2".to_string()]),
        Permutations::new(),
    );
    let result = get_selected_requirements(&requirements, &test_cases_builder);
    let expected = vec![requirements[0].clone()];
    assert!(is_match_requirements(&result, &expected));
}

#[test]
fn include_two_steps() {
    let requirements = vec![
        plain_requirement("name1", vec!["label1".to_string()]),
        plain_requirement("name2", vec!["label2".to_string()]),
    ];
    let test_cases_builder = builder(
        vec![
            SetSteps::Include(Filter {
                all_labels: Some(vec!["label1".to_string()]),
                any_names: None,
                negate: false,
            }),
            SetSteps::Include(Filter {
                all_labels: None,
                any_names: Some(vec!["name2".to_string()]),
                negate: false,
            }),
        ],
        Some(vec!["label1".to_string(), "label2".to_string()]),
        Permutations::new(),
    );
    let result = get_selected_requirements(&requirements, &test_cases_builder);
    let expected = requirements.clone();
    assert!(is_match_requirements(&result, &expected));
}

#[test]
fn exclude_one_step() {
    let requirements = vec![
        plain_requirement("name1", vec!["label1".to_string()]),
        plain_requirement("name2", vec!["label2".to_string()]),
    ];
    let test_cases_builder = builder(
        vec![
            SetSteps::Include(Filter {
                all_labels: None,
                any_names: Some(vec!["name1".to_string(), "name2".to_string()]),
                negate: false,
            }),
            SetSteps::Exclude(Filter {
                all_labels: None,
                any_names: Some(vec!["name2".to_string()]),
                negate: false,
            }),
        ],
        Some(vec!["label1".to_string(), "label2".to_string()]),
        Permutations::new(),
    );
    let result = get_selected_requirements(&requirements, &test_cases_builder);
    let expected = vec![requirements[0].clone()];
    assert!(is_match_requirements(&result, &expected));
}

#[test]
fn exclude_two_steps() {
    let requirements = vec![
        plain_requirement("name1", vec!["label1".to_string()]),
        plain_requirement("name2", vec!["label2".to_string()]),
    ];
    let test_cases_builder = builder(
        vec![
            SetSteps::Include(Filter {
                all_labels: None,
                any_names: Some(vec!["name1".to_string(), "name2".to_string()]),
                negate: false,
            }),
            SetSteps::Exclude(Filter {
                all_labels: None,
                any_names: Some(vec!["name2".to_string()]),
                negate: false,
            }),
            SetSteps::Exclude(Filter {
                all_labels: Some(vec!["label1".to_string()]),
                any_names: None,
                negate: false,
            }),
        ],
        Some(vec!["label1".to_string(), "label2".to_string()]),
        Permutations::new(),
    );
    let result = get_selected_requirements(&requirements, &test_cases_builder);
    let expected = vec![];
    assert!(is_match_requirements(&result, &expected));
}
