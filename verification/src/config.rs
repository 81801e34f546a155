//! The workspace configuration: repository coordinates, document
//! directories, and the label palette created on the tracker.

use crate::types::{GithubLabel, GithubLabelV};
use vstd::prelude::*;
use vstd::string::*;

verus! {

/// A workspace configuration.
#[derive(Clone, Debug, PartialEq)]
pub struct Config {
    /// The owner of the repository.
    pub repo_owner: String,
    /// The name of the repository.
    pub repo_name: String,
    /// The version of the workspace.
    pub workspace_version: String,
    /// The version of the tool the workspace was made for.
    pub yatm_v2_version: String,
    /// The directories searched for requirement documents.
    pub requirements_dirs: Vec<String>,
    /// The directories searched for builder documents.
    pub test_cases_builders_dirs: Vec<String>,
    /// The directory new requirement documents are put in.
    pub new_requirements_dir: String,
    /// The directory new builder documents are put in.
    pub new_test_cases_builder_dir: String,
    /// The directory generated files are put in.
    pub generated_files_dir: String,
    /// The labels to create in the repository.
    pub labels: Vec<GithubLabel>,
}

/// Ghost mirror of [`Config`].
pub ghost struct ConfigV {
    pub repo_owner: Seq<char>,
    pub repo_name: Seq<char>,
    pub workspace_version: Seq<char>,
    pub yatm_v2_version: Seq<char>,
    pub requirements_dirs: Seq<Seq<char>>,
    pub test_cases_builders_dirs: Seq<Seq<char>>,
    pub new_requirements_dir: Seq<char>,
    pub new_test_cases_builder_dir: Seq<char>,
    pub generated_files_dir: Seq<char>,
    pub labels: Seq<GithubLabelV>,
}

impl DeepView for Config {
    type V = ConfigV;

    open spec fn deep_view(&self) -> ConfigV {
        ConfigV {
            repo_owner: self.repo_owner@,
            repo_name: self.repo_name@,
            workspace_version: self.workspace_version@,
            yatm_v2_version: self.yatm_v2_version@,
            requirements_dirs: self.requirements_dirs.deep_view(),
            test_cases_builders_dirs: self.test_cases_builders_dirs.deep_view(),
            new_requirements_dir: self.new_requirements_dir@,
            new_test_cases_builder_dir: self.new_test_cases_builder_dir@,
            generated_files_dir: self.generated_files_dir@,
            labels: self.labels.deep_view(),
        }
    }
}

/// The label palette of a fresh workspace.
pub open spec fn spec_default_labels() -> Seq<GithubLabelV> {
    seq![
        GithubLabelV {
            name: "needs attention: bug"@,
            color: "f0440a"@,
            description: Option::Some("A bug has been found and needs to be confirmed"@),
        },
        GithubLabelV {
            name: "needs attention: bad instructions"@,
            color: "f0440a"@,
            description: Option::Some(
                "The issue instructions don't appear to be correct or complete"@,
            ),
        },
        GithubLabelV {
            name: "confirmed: bug"@,
            color: "dcacf2"@,
            description: Option::Some("A bug was confirmed"@),
        },
        GithubLabelV {
            name: "confirmed: bad instructions"@,
            color: "dcacf2"@,
            description: Option::Some(
                "The issue instructions have been confirmed to be incorrect or incomplete"@,
            ),
        },
        GithubLabelV {
            name: "confirmed: works as expected"@,
            color: "cef2ac"@,
            description: Option::Some("Works as expected"@),
        },
        GithubLabelV {
            name: "who: community tested"@,
            color: "b1e8fd"@,
            description: Option::Some("A community member has tested this"@),
        },
        GithubLabelV {
            name: "who: core team tested"@,
            color: "55d0db"@,
            description: Option::Some("A core team member has tested this"@),
        },
    ]
}

/// The configuration of a fresh workspace.
pub open spec fn spec_default_config() -> ConfigV {
    ConfigV {
        repo_owner: "repo_owner"@,
        repo_name: "repo_name"@,
        workspace_version: "0.0.1"@,
        yatm_v2_version: "0.1.0"@,
        requirements_dirs: seq!["requirements"@],
        test_cases_builders_dirs: seq!["test_cases_builders"@],
        new_requirements_dir: "requirements"@,
        new_test_cases_builder_dir: "test_cases_builders"@,
        generated_files_dir: "generated_files"@,
        labels: spec_default_labels(),
    }
}

impl Config {
    /// The configuration a fresh workspace starts from.
    pub fn default() -> (r: Self)
        ensures
            r.deep_view() == spec_default_config(),
    {
        let mut requirements_dirs: Vec<String> = Vec::new();
        requirements_dirs.push(String::from_str("requirements"));
        let mut test_cases_builders_dirs: Vec<String> = Vec::new();
        test_cases_builders_dirs.push(String::from_str("test_cases_builders"));
        let mut labels: Vec<GithubLabel> = Vec::new();
        labels.push(
            GithubLabel {
                name: String::from_str("needs attention: bug"),
                color: String::from_str("f0440a"),
                description: Option::Some(
                    String::from_str("A bug has been found and needs to be confirmed"),
                ),
            },
        );
        labels.push(
            GithubLabel {
                name: String::from_str("needs attention: bad instructions"),
                color: String::from_str("f0440a"),
                description: Option::Some(
                    String::from_str(
                        "The issue instructions don't appear to be correct or complete",
                    ),
                ),
            },
        );
        labels.push(
            GithubLabel {
                name: String::from_str("confirmed: bug"),
                color: String::from_str("dcacf2"),
                description: Option::Some(String::from_str("A bug was confirmed")),
            },
        );
        labels.push(
            GithubLabel {
                name: String::from_str("confirmed: bad instructions"),
                color: String::from_str("dcacf2"),
                description: Option::Some(
                    String::from_str(
                        "The issue instructions have been confirmed to be incorrect or incomplete",
                    ),
                ),
            },
        );
        labels.push(
            GithubLabel {
                name: String::from_str("confirmed: works as expected"),
                color: String::from_str("cef2ac"),
                description: Option::Some(String::from_str("Works as expected")),
            },
        );
        labels.push(
            GithubLabel {
                name: String::from_str("who: community tested"),
                color: String::from_str("b1e8fd"),
                description: Option::Some(String::from_str("A community member has tested this")),
            },
        );
        labels.push(
            GithubLabel {
                name: String::from_str("who: core team tested"),
                color: String::from_str("55d0db"),
                description: Option::Some(String::from_str("A core team member has tested this")),
            },
        );
        let r = Config {
            repo_owner: String::from_str("repo_owner"),
            repo_name: String::from_str("repo_name"),
            workspace_version: String::from_str("0.0.1"),
            yatm_v2_version: String::from_str("0.1.0"),
            requirements_dirs,
            test_cases_builders_dirs,
            new_requirements_dir: String::from_str("requirements"),
            new_test_cases_builder_dir: String::from_str("test_cases_builders"),
            generated_files_dir: String::from_str("generated_files"),
            labels,
        };
        proof {
            assert(r.deep_view().requirements_dirs =~= seq!["requirements"@]);
            assert(r.deep_view().test_cases_builders_dirs =~= seq!["test_cases_builders"@]);
            assert(r.deep_view().labels =~= spec_default_labels());
        }
        r
    }
}

} // verus!
