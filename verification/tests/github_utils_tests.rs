use yatm_v2::github_utils::{get_issue_hash, get_local_issues_without_matches_helper};
use yatm_v2::reconcile::GithubIssueHelper;
use yatm_v2::types::LocalIssue;

#[test]
fn github_utils_no_matches() {
    let local_issues = vec![
        LocalIssue {
            labels: vec!["label1".to_string()],
            title: "title".to_string(),
            text_body: "text".to_string(),
        },
        LocalIssue {
            labels: vec!["label2".to_string()],
            title: "title2".to_string(),
            text_body: "text2".to_string(),
        },
    ];
    let github_issues = vec![GithubIssueHelper {
        labels: vec![],
        title: "title3".to_string(),
    }];
    let result = get_local_issues_without_matches_helper(local_issues, &github_issues);
    assert_eq!(result.len(), 2, "All local issues should be returned");
}

#[test]
fn github_utils_one_match() {
    let local_issues = vec![
        LocalIssue {
            labels: vec!["label1".to_string(), "label2".to_string()],
            title: "title".to_string(),
            text_body: "text".to_string(),
        },
        LocalIssue {
            labels: vec!["label2".to_string()],
            title: "title2".to_string(),
            text_body: "text2".to_string(),
        },
    ];
    let github_issues = vec![GithubIssueHelper {
        labels: vec!["label1".to_string(), "label2".to_string()],
        title: "title".to_string(),
    }];
    let result = get_local_issues_without_matches_helper(local_issues, &github_issues);
    assert_eq!(result.len(), 1, "One local issue should be returned");
    assert_eq!(
        result[0].title, "title2",
        "The second local issue should be returned"
    );
}

#[test]
fn all_matches() {
    let local_issues = vec![
        LocalIssue {
            labels: vec!["label1".to_string(), "label2".to_string()],
            title: "title".to_string(),
            text_body: "text".to_string(),
        },
        LocalIssue {
            labels: vec!["label2".to_string()],
            title: "title2".to_string(),
            text_body: "text2".to_string(),
        },
    ];
    let github_issues = vec![
        GithubIssueHelper {
            labels: vec!["label1".to_string(), "label2".to_string()],
            title: "title".to_string(),
        },
        GithubIssueHelper {
            labels: vec!["label2".to_string()],
            title: "title2".to_string(),
        },
    ];
    let result = get_local_issues_without_matches_helper(local_issues, &github_issues);
    assert_eq!(result.len(), 0, "No local issues should be returned");
}

#[test]
fn different_order_labels_should_still_match() {
    let hash1 = get_issue_hash(
        "title".to_string(),
        vec!["label1".to_string(), "label2".to_string()],
    );
    let hash2 = get_issue_hash(
        "title".to_string(),
        vec!["label2".to_string(), "label1".to_string()],
    );
    assert_eq!(hash1, hash2, "Hashes should be equal");
}

#[test]
fn different_shouldnt_match() {
    let hash1 = get_issue_hash(
        "title".to_string(),
        vec!["label1".to_string(), "label2".to_string()],
    );
    let hash2 = get_issue_hash(
        "title".to_string(),
        vec!["label2".to_string(), "label3".to_string()],
    );
    let hash3 = get_issue_hash(
        "title - new".to_string(),
        vec!["label1".to_string(), "label2".to_string()],
    );
    let hash4 = get_issue_hash(
        "TITLE".to_string(),
        vec!["label1".to_string(), "label2".to_string()],
    );

    assert_ne!(hash1, hash2, "Labels don't match");
    assert_ne!(hash1, hash3, "Title text doesn't match");
    assert_ne!(hash1, hash4, "Title casing doesn't match");
}
