use yatm_v2::reconcile::{
    get_local_issues_without_matches_helper, is_local_issue_match_github_issue_helper,
    GithubIssueHelper,
};
use yatm_v2::types::LocalIssue;

#[test]
fn get_local_issues_without_matches_matches() {
    let local_issues = vec![
        LocalIssue {
            labels: vec!["label1".to_string()],
            title: "title".to_string(),
            text_body: "text_body".to_string(),
        },
        LocalIssue {
            labels: vec!["label2".to_string()],
            title: "title2".to_string(),
            text_body: "text_body2".to_string(),
        },
    ];
    let github_issues: Vec<_> = vec![
        GithubIssueHelper {
            labels: vec!["label3".to_string()],
            title: "title3".to_string(),
        },
        GithubIssueHelper {
            labels: vec!["label4".to_string()],
            title: "title4".to_string(),
        },
    ];
    let result = get_local_issues_without_matches_helper(&local_issues, &github_issues);
    assert_eq!(result.len(), 2);
}

#[test]
fn get_local_issues_without_matches_no_matches() {
    let local_issues = vec![
        LocalIssue {
            labels: vec!["label1".to_string()],
            title: "title".to_string(),
            text_body: "text_body".to_string(),
        },
        LocalIssue {
            labels: vec!["label2".to_string()],
            title: "title2".to_string(),
            text_body: "text_body2".to_string(),
        },
    ];
    let github_issues: Vec<_> = vec![
        GithubIssueHelper {
            labels: vec!["label1".to_string()],
            title: "title".to_string(),
        },
        GithubIssueHelper {
            labels: vec!["label2".to_string()],
            title: "title2".to_string(),
        },
    ];
    let result = get_local_issues_without_matches_helper(&local_issues, &github_issues);
    assert_eq!(result.len(), 0);
}

#[test]
fn get_local_issues_without_matches_one_match() {
    let local_issues = vec![
        LocalIssue {
            labels: vec!["label1".to_string()],
            title: "title".to_string(),
            text_body: "text_body".to_string(),
        },
        LocalIssue {
            labels: vec!["label2".to_string()],
            title: "title2".to_string(),
            text_body: "text_body2".to_string(),
        },
    ];
    let github_issues: Vec<_> = vec![
        GithubIssueHelper {
            labels: vec!["label1".to_string()],
            title: "title".to_string(),
        },
        GithubIssueHelper {
            labels: vec!["label3".to_string()],
            title: "title3".to_string(),
        },
    ];
    let result = get_local_issues_without_matches_helper(&local_issues, &github_issues);
    assert_eq!(result.len(), 1);
    assert_eq!(result[0].title, "title2");
}

#[test]
fn get_local_issues_without_matches_is_match() {
    let local_issue = LocalIssue {
        labels: vec!["label1".to_string()],
        title: "title".to_string(),
        text_body: "text_body".to_string(),
    };
    let github_issue = GithubIssueHelper {
        labels: vec!["label1".to_string()],
        title: "title".to_string(),
    };
    assert!(is_local_issue_match_github_issue_helper(
        &local_issue,
        &github_issue
    ));
}

#[test]
fn get_local_issues_without_matches_is_match_with_github_issue_having_more_labels() {
    let local_issue = LocalIssue {
        labels: vec!["label1".to_string()],
        title: "title".to_string(),
        text_body: "text_body".to_string(),
    };
    let github_issue = GithubIssueHelper {
        labels: vec!["label1".to_string(), "label2".to_string()],
        title: "title".to_string(),
    };
    assert!(is_local_issue_match_github_issue_helper(
        &local_issue,
        &github_issue
    ));
}

#[test]
fn get_local_issues_without_matches_is_not_match_label() {
    let local_issue = LocalIssue {
        labels: vec!["label1".to_string()],
        title: "title".to_string(),
        text_body: "text_body".to_string(),
    };
    let github_issue = GithubIssueHelper {
        labels: vec!["label2".to_string()],
        title: "title".to_string(),
    };
    assert!(!is_local_issue_match_github_issue_helper(
        &local_issue,
        &github_issue
    ));
}

#[test]
fn get_local_issues_without_matches_is_not_match_title() {
    let local_issue = LocalIssue {
        labels: vec!["label1".to_string()],
        title: "title".to_string(),
        text_body: "text_body".to_string(),
    };
    let github_issue = GithubIssueHelper {
        labels: vec!["label1".to_string()],
        title: "title2".to_string(),
    };
    assert!(!is_local_issue_match_github_issue_helper(
        &local_issue,
        &github_issue
    ));
}

#[test]
fn get_local_issues_without_matches_is_not_match_label_and_title() {
    let local_issue = LocalIssue {
        labels: vec!["label1".to_string()],
        title: "title".to_string(),
        text_body: "text_body".to_string(),
    };
    let github_issue = GithubIssueHelper {
        labels: vec!["label2".to_string()],
        title: "title2".to_string(),
    };
    assert!(!is_local_issue_match_github_issue_helper(
        &local_issue,
        &github_issue
    ));
}

#[test]
fn get_local_issues_without_matches_is_not_match_missing_label() {
    let local_issue = LocalIssue {
        labels: vec!["label1".to_string(), "label2".to_string()],
        title: "title".to_string(),
        text_body: "text_body".to_string(),
    };
    let github_issue = GithubIssueHelper {
        labels: vec!["label2".to_string()],
        title: "title".to_string(),
    };
    assert!(!is_local_issue_match_github_issue_helper(
        &local_issue,
        &github_issue
    ));
}
