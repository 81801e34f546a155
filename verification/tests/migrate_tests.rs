use yatm_v2::migrate::{append_v2_to_filename, expect_v1_to_expects_v2, try_v1_to_actions_v2, StepV1};
use yatm_v2::types::{Action as ActionV2, Expect as ExpectV2, Terminal as TerminalV2};

#[test]
fn test_try_v1_to_actions_v2() {
    let try_v1 = StepV1 {
        stdin: Some("echo hello".to_string()),
        note: Some("This is a note".to_string()),
        terminal: Some(2),
        imageUrl: Some("http://example.com".to_string()),
        stderr: None,
        stdout: None,
    };
    let actions = try_v1_to_actions_v2(&try_v1).expect("Converts to actions");

    assert_eq!(actions.len(), 3);
    for action in actions {
        match action {
            ActionV2::StdIn(TerminalV2 { number, text }) => {
                assert_eq!(number, 2);
                assert_eq!(text, "echo hello");
            }
            ActionV2::Describe(note) => {
                assert_eq!(note, "This is a note");
            }
            ActionV2::Image(image_url) => {
                assert_eq!(image_url, "http://example.com");
            }
            ActionV2::Url(_) => panic!("No corresponding v1 field"),
        }
    }
}

#[test]
fn stdout_and_stderr_convert_to_describe() {
    let try_v1 = StepV1 {
        stdin: None,
        note: None,
        terminal: None,
        imageUrl: None,
        stderr: Some("error".to_string()),
        stdout: Some("hello".to_string()),
    };
    let actions = try_v1_to_actions_v2(&try_v1).expect("Converts to actions");

    assert_eq!(actions.len(), 2);
    for action in actions {
        match action {
            ActionV2::Describe(note) => {
                assert!(note.contains("hello") || note.contains("error"));
            }
            _ => panic!("No corresponding v1 field"),
        }
    }
}

#[test]
fn fail_if_no_actions() {
    let try_v1 = StepV1 {
        stdin: None,
        note: None,
        terminal: None,
        imageUrl: None,
        stderr: None,
        stdout: None,
    };
    let result = try_v1_to_actions_v2(&try_v1);
    assert!(result.is_err());
}

#[test]
fn test_expect_v1_to_expects_v2() {
    let expect_v1 = StepV1 {
        note: Some("This is a note".to_string()),
        imageUrl: Some("http://example.com".to_string()),
        stdin: None,
        stdout: Some("hello".to_string()),
        stderr: Some("".to_string()),
        terminal: Some(2),
    };
    let expects = expect_v1_to_expects_v2(&expect_v1).expect("Converts to expects");

    assert_eq!(expects.len(), 4);
    for expect in expects {
        match expect {
            ExpectV2::StdOut(TerminalV2 { number, text }) => {
                assert_eq!(number, 2);
                assert_eq!(text, "hello");
            }
            ExpectV2::Describe(note) => {
                assert_eq!(note, "This is a note");
            }
            ExpectV2::Image(url) => {
                assert_eq!(url, "http://example.com");
            }
            ExpectV2::StdErr(TerminalV2 { number, text }) => {
                assert_eq!(number, 2);
                assert_eq!(text, "");
            }
            ExpectV2::Url(_) => panic!("No corresponding v1 field"),
        }
    }
}

#[test]
fn stdin_convert_to_describe() {
    let expect_v1 = StepV1 {
        note: None,
        imageUrl: None,
        stdin: Some("echo hello".to_string()),
        stdout: None,
        stderr: None,
        terminal: None,
    };
    let expects = expect_v1_to_expects_v2(&expect_v1).expect("Converts to expects");

    assert_eq!(expects.len(), 1);
    for expect in expects {
        match expect {
            ExpectV2::Describe(note) => {
                assert!(note.contains("hello"));
            }
            _ => panic!("No corresponding v1 field"),
        }
    }
}

#[test]
fn fail_if_no_expects() {
    let expect_v1 = StepV1 {
        stdout: None,
        stdin: None,
        note: None,
        terminal: None,
        imageUrl: None,
        stderr: None,
    };
    let result = expect_v1_to_expects_v2(&expect_v1);
    assert!(result.is_err());
}

#[test]
fn debug_quotes_in_describe_notes() {
    let try_v1 = StepV1 {
        stdin: None,
        note: None,
        terminal: None,
        imageUrl: None,
        stderr: None,
        stdout: Some("hello".to_string()),
    };
    let actions = try_v1_to_actions_v2(&try_v1).expect("Converts to actions");
    assert_eq!(actions.len(), 1);
    match &actions[0] {
        ActionV2::Describe(note) => {
            assert_eq!(note, "Stdout: \"hello\"");
        }
        _ => panic!("No corresponding v1 field"),
    }
}

#[test]
fn converted_requirement_gets_snake_case_shortname() {
    let req = yatm_v2::migrate::RequirementV1 {
        name: "My Requirement Name".to_string(),
        description: None,
        labels: None,
        links: None,
        checks: vec![yatm_v2::migrate::CheckV1 {
            name: "check".to_string(),
            description: None,
            try_steps: Some(vec![StepV1 {
                note: Some("a note".to_string()),
                imageUrl: None,
                stdin: None,
                stdout: None,
                stderr: None,
                terminal: None,
            }]),
            expect: None,
        }],
    };
    let converted = yatm_v2::migrate::convert_v1_to_v2(&req).expect("Converts to v2");
    assert_eq!(converted.name, "My Requirement Name");
    assert_eq!(converted.shortname, Some("my_requirement_name".to_string()));
    assert_eq!(converted.description, "");
    assert_eq!(converted.steps.len(), 1);
}

#[test]
fn append_v2_keeps_directory_and_extension() {
    assert_eq!(append_v2_to_filename("a/b/requirements.yaml"), "a/b/requirements_v2.yaml");
    assert_eq!(append_v2_to_filename("requirements.yaml"), "requirements_v2.yaml");
    assert_eq!(append_v2_to_filename("no_extension"), "no_extension_v2");
    assert_eq!(append_v2_to_filename(".hidden"), ".hidden_v2");
    assert_eq!(append_v2_to_filename("trailing."), "trailing_v2");
}
