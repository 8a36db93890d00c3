use ci_tools::labels::{process_pull_request, rule_applies_to, standard_label_rules};

fn files(names: &[&str]) -> Vec<String> {
    names.iter().map(|s| s.to_string()).collect()
}

#[test]
fn standard_rules_are_built_in_order() {
    let rules = standard_label_rules().unwrap();
    let labels: Vec<&str> = rules.iter().map(|r| r.label.as_str()).collect();
    assert_eq!(labels, vec!["type: chore", "type: fix", "type: feature", "type: docs"]);
    assert_eq!(rules[0].branch, files(&["/chore/.+", "/refactor/.+", "/maintenance/.+"]));
    assert_eq!(rules[1].files, None);
    let sources: Vec<&str> = rules[2].title.iter().map(|p| p.source()).collect();
    assert_eq!(sources, vec!["feat", "feature", "enhancement", "new"]);
}

#[test]
fn title_picks_the_first_matching_rule() {
    let rules = standard_label_rules().unwrap();
    assert_eq!(process_pull_request("main", "fix crash", &vec![], &rules), Some("type: fix".to_string()));
    assert_eq!(process_pull_request("main", "refactor and fix", &vec![], &rules), Some("type: chore".to_string()));
    assert_eq!(process_pull_request("main", "add new docs", &vec![], &rules), Some("type: feature".to_string()));
    assert_eq!(process_pull_request("main", "update documentation", &vec![], &rules), Some("type: docs".to_string()));
}

#[test]
fn branch_texts_are_literal() {
    let rules = standard_label_rules().unwrap();
    assert_eq!(process_pull_request("users/x/hotfix/.+", "Update", &vec![], &rules), Some("type: fix".to_string()));
    assert_eq!(process_pull_request("hotfix/login", "Update", &vec![], &rules), None);
}

#[test]
fn file_texts_are_literal() {
    let rules = standard_label_rules().unwrap();
    assert_eq!(process_pull_request("main", "Update", &files(&["README.md"]), &rules), None);
    assert_eq!(
        process_pull_request("main", "Update", &files(&["src/a.rs", "ci/*.yml"]), &rules),
        Some("type: chore".to_string())
    );
    assert_eq!(process_pull_request("main", "Update", &files(&["x/*.wiki"]), &rules), Some("type: docs".to_string()));
}

#[test]
fn no_rule_applies() {
    let rules = standard_label_rules().unwrap();
    assert_eq!(process_pull_request("main", "Update", &files(&["src/lib.rs"]), &rules), None);
    assert_eq!(process_pull_request("main", "fix", &vec![], &vec![]), None);
}

#[test]
fn single_rule_applies() {
    let rules = standard_label_rules().unwrap();
    assert!(rule_applies_to(&rules[3], "main", "docs", &vec![]));
    assert!(!rule_applies_to(&rules[3], "main", "Update", &vec![]));
}
