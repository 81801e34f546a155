use yatm_v2::selection::filter_matches_requirement;
use yatm_v2::types::{Filter, Requirement};

fn plain_requirement(name: &str, labels: Vec<String>) -> Requirement {
    Requirement {
        name: name.to_string(),
        shortname: None,
        description: "description".to_string(),
        labels: Some(labels),
        links: None,
        steps: vec![],
    }
}

#[test]
fn label() {
    let filter = Filter {
        all_labels: Some(vec!["label1".to_string()]),
        any_names: None,
        negate: false,
    };
    let requirement = plain_requirement("name1", vec!["label1".to_string(), "label2".to_string()]);
    assert_eq!(filter_matches_requirement(&filter, &requirement), true);
}

#[test]
fn label_negate() {
    let filter = Filter {
        all_labels: Some(vec!["label1".to_string()]),
        any_names: None,
        negate: true,
    };
    let requirement = plain_requirement("name1", vec!["label1".to_string(), "label2".to_string()]);
    assert_eq!(filter_matches_requirement(&filter, &requirement), false);
}

#[test]
fn name() {
    let filter = Filter {
        all_labels: None,
        any_names: Some(vec!["name1".to_string()]),
        negate: false,
    };
    let requirement = plain_requirement("name1", vec!["label1".to_string(), "label2".to_string()]);
    assert_eq!(filter_matches_requirement(&filter, &requirement), true);
}

#[test]
fn name_partial_case_insensitive() {
    let filter = Filter {
        all_labels: None,
        any_names: Some(vec!["Me1".to_string()]),
        negate: false,
    };
    let requirement =
        plain_requirement("name1-1", vec!["label1".to_string(), "label2".to_string()]);
    assert_eq!(filter_matches_requirement(&filter, &requirement), true);
}

#[test]
fn name_negate() {
    let filter = Filter {
        all_labels: None,
        any_names: Some(vec!["name1".to_string()]),
        negate: true,
    };
    let requirement = plain_requirement("name1", vec!["label1".to_string(), "label2".to_string()]);
    assert_eq!(filter_matches_requirement(&filter, &requirement), false);
}

#[test]
fn name_and_label() {
    let filter = Filter {
        all_labels: Some(vec!["label1".to_string()]),
        any_names: Some(vec!["name1".to_string()]),
        negate: false,
    };
    let requirement = plain_requirement("name1", vec!["label1".to_string(), "label2".to_string()]);
    assert_eq!(filter_matches_requirement(&filter, &requirement), true);
}

#[test]
fn name_and_label_negate() {
    let filter = Filter {
        all_labels: Some(vec!["label1".to_string()]),
        any_names: Some(vec!["name1".to_string()]),
        negate: true,
    };
    let requirement = plain_requirement("name1", vec!["label1".to_string(), "label2".to_string()]);
    assert_eq!(filter_matches_requirement(&filter, &requirement), false);
}

#[test]
fn labels_with_extra_requirement_labels() {
    let filter = Filter {
        all_labels: Some(vec!["label1".to_string(), "label2".to_string()]),
        any_names: None,
        negate: false,
    };
    let requirement = plain_requirement(
        "name1",
        vec![
            "label1".to_string(),
            "label2".to_string(),
            "label3".to_string(),
        ],
    );
    assert_eq!(filter_matches_requirement(&filter, &requirement), true);
}

#[test]
fn labels_with_extra_requirement_labels_negate() {
    let filter = Filter {
        all_labels: Some(vec!["label1".to_string(), "label2".to_string()]),
        any_names: None,
        negate: true,
    };
    let requirement = plain_requirement(
        "name1",
        vec![
            "label1".to_string(),
            "label2".to_string(),
            "label3".to_string(),
        ],
    );
    assert_eq!(filter_matches_requirement(&filter, &requirement), false);
}

#[test]
fn not_all_filter_labels_match() {
    let filter = Filter {
        all_labels: Some(vec!["label1".to_string(), "label3".to_string()]),
        any_names: None,
        negate: false,
    };
    let requirement = plain_requirement("name1", vec!["label1".to_string(), "label2".to_string()]);
    assert_eq!(filter_matches_requirement(&filter, &requirement), false);
}

#[test]
fn not_all_labels_match_negate() {
    let filter = Filter {
        all_labels: Some(vec!["label1".to_string(), "label3".to_string()]),
        any_names: None,
        negate: true,
    };
    let requirement = plain_requirement("name1", vec!["label1".to_string(), "label2".to_string()]);
    assert_eq!(filter_matches_requirement(&filter, &requirement), true);
}

#[test]
fn one_name_of_many() {
    let filter = Filter {
        all_labels: None,
        any_names: Some(vec!["name1".to_string(), "name3".to_string()]),
        negate: false,
    };
    let requirement = plain_requirement("name3", vec!["label1".to_string(), "label2".to_string()]);
    assert_eq!(filter_matches_requirement(&filter, &requirement), true);
}

#[test]
fn one_name_of_many_negate() {
    let filter = Filter {
        all_labels: None,
        any_names: Some(vec!["name1".to_string(), "name3".to_string()]),
        negate: true,
    };
    let requirement = plain_requirement("name3", vec!["label1".to_string(), "label2".to_string()]);
    assert_eq!(filter_matches_requirement(&filter, &requirement), false);
}

#[test]
fn requirement_without_labels_fails_label_constraint() {
    let filter = Filter {
        all_labels: Some(vec!["label1".to_string()]),
        any_names: None,
        negate: false,
    };
    let requirement = Requirement {
        name: "name1".to_string(),
        shortname: None,
        description: "description".to_string(),
        labels: None,
        links: None,
        steps: vec![],
    };
    assert_eq!(filter_matches_requirement(&filter, &requirement), false);
}

#[test]
fn empty_label_constraint_is_vacuously_true() {
    let filter = Filter {
        all_labels: Some(vec![]),
        any_names: None,
        negate: false,
    };
    let requirement = Requirement {
        name: "name1".to_string(),
        shortname: None,
        description: "description".to_string(),
        labels: None,
        links: None,
        steps: vec![],
    };
    assert_eq!(filter_matches_requirement(&filter, &requirement), true);
}
