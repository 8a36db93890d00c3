use ci_tools::pr_title::{suggest_pr_title, suggestion_for, SUGGESTED_PR_TITLE};

#[test]
fn valid_titles_get_no_suggestion() {
    assert_eq!(suggest_pr_title("feat: add a parser"), Ok(None));
    assert_eq!(suggest_pr_title("fix(core): handle empty input"), Ok(None));
    assert_eq!(suggest_pr_title("Docs: x"), Ok(None));
}

#[test]
fn invalid_titles_get_the_suggestion() {
    let expected = Ok(Some(SUGGESTED_PR_TITLE.to_string()));
    assert_eq!(suggest_pr_title("Add a parser"), expected);
    assert_eq!(suggest_pr_title("fix:no space"), expected);
    assert_eq!(suggest_pr_title("feat1: digits"), expected);
    assert_eq!(suggest_pr_title("feat(): empty scope"), expected);
    assert_eq!(suggest_pr_title("feat: "), expected);
    assert_eq!(suggest_pr_title(""), expected);
}

#[test]
fn suggestion_follows_validity() {
    assert_eq!(suggestion_for(true), None);
    assert_eq!(suggestion_for(false), Some("Your suggested PR title here".to_string()));
}
