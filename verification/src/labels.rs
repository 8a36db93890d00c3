//! Choosing a label for a pull request from an ordered list of rules.

use vstd::prelude::*;
use crate::pattern::{Pattern, PatternError, regex_captures, regex_compiles};
use crate::text::{contains_text, spec_contains};

verus! {

/// One labelling rule: the label, texts looked for in the base branch name,
/// patterns searched for in the title, and optionally texts looked for in
/// the names of the changed files.
#[derive(Debug)]
pub struct LabelRule {
    pub label: String,
    pub branch: Vec<String>,
    pub title: Vec<Pattern>,
    pub files: Option<Vec<String>>,
}

/// A `LabelRule` with texts as character sequences and patterns as their
/// source text.
pub struct LabelRuleView {
    pub label: Seq<char>,
    pub branch: Seq<Seq<char>>,
    pub title: Seq<Seq<char>>,
    pub files: Option<Seq<Seq<char>>>,
}

impl View for LabelRule {
    type V = LabelRuleView;

    open spec fn view(&self) -> LabelRuleView {
        LabelRuleView {
            label: self.label@,
            branch: self.branch.deep_view(),
            title: pattern_sources(self.title@),
            files: self.files.deep_view(),
        }
    }
}

/// The source texts of a list of patterns.
pub open spec fn pattern_sources(patterns: Seq<Pattern>) -> Seq<Seq<char>> {
    patterns.map_values(|p: Pattern| p@)
}

/// The views of a list of rules.
pub open spec fn rules_view(rules: Seq<LabelRule>) -> Seq<LabelRuleView> {
    rules.map_values(|r: LabelRule| r@)
}

/// Some branch text of `r` occurs in the branch name.
pub open spec fn branch_matches(r: LabelRuleView, branch_name: Seq<char>) -> bool {
    exists|i: int| 0 <= i < r.branch.len() && #[trigger] spec_contains(branch_name, r.branch[i])
}

/// Some title pattern of `r` matches somewhere in the title.
pub open spec fn title_matches(r: LabelRuleView, title: Seq<char>) -> bool {
    exists|i: int| 0 <= i < r.title.len() && #[trigger] regex_captures(r.title[i], title) is Some
}

/// `r` has file texts and one of them occurs in the name of a changed file.
pub open spec fn files_match(r: LabelRuleView, files_changed: Seq<Seq<char>>) -> bool {
    match r.files {
        Some(patterns) => exists|f: int, p: int|
            0 <= f < files_changed.len() && 0 <= p < patterns.len() && #[trigger] spec_contains(
                files_changed[f],
                patterns[p],
            ),
        None => false,
    }
}

/// Whether rule `r` applies to a pull request.
pub open spec fn rule_applies(
    r: LabelRuleView,
    branch_name: Seq<char>,
    title: Seq<char>,
    files_changed: Seq<Seq<char>>,
) -> bool {
    branch_matches(r, branch_name) || title_matches(r, title) || files_match(r, files_changed)
}

/// The label of the first rule that applies, if any.
pub open spec fn spec_choose_label(
    rules: Seq<LabelRuleView>,
    branch_name: Seq<char>,
    title: Seq<char>,
    files_changed: Seq<Seq<char>>,
) -> Option<Seq<char>>
    decreases rules.len(),
{
    if rules.len() == 0 {
        None
    } else {
        match spec_choose_label(rules.drop_last(), branch_name, title, files_changed) {
            Some(l) => Some(l),
            None => if rule_applies(rules.last(), branch_name, title, files_changed) {
                Some(rules.last().label)
            } else {
                None
            },
        }
    }
}

/// Whether some text of `needles` occurs in `haystack`.
fn any_contained(haystack: &str, needles: &Vec<String>) -> (r: bool)
    ensures
        r == exists|i: int|
            0 <= i < needles.len() && #[trigger] spec_contains(haystack@, needles.deep_view()[i]),
{
    let mut i: usize = 0;
    while i < needles.len()
        invariant
            i <= needles.len(),
            forall|j: int|
                0 <= j < i ==> !#[trigger] spec_contains(haystack@, needles.deep_view()[j]),
        decreases needles.len() - i,
    {
        if contains_text(haystack, needles[i].as_str()) {
            assert(spec_contains(haystack@, needles.deep_view()[i as int]));
            return true;
        }
        i = i + 1;
    }
    false
}

/// Whether some pattern of `patterns` matches somewhere in `text`.
fn any_pattern_matches(text: &str, patterns: &Vec<Pattern>) -> (r: bool)
    ensures
        r == exists|i: int|
            0 <= i < patterns.len() && #[trigger] regex_captures(
                pattern_sources(patterns@)[i],
                text@,
            ) is Some,
{
    let ghost sources = pattern_sources(patterns@);
    let mut i: usize = 0;
    while i < patterns.len()
        invariant
            i <= patterns.len(),
            sources == pattern_sources(patterns@),
            forall|j: int| 0 <= j < i ==> !(#[trigger] regex_captures(sources[j], text@) is Some),
        decreases patterns.len() - i,
    {
        if patterns[i].is_match(text) {
            assert(regex_captures(sources[i as int], text@) is Some);
            return true;
        }
        i = i + 1;
    }
    false
}

/// Whether a text of `patterns` occurs in the name of some changed file.
fn any_file_contains(files_changed: &Vec<String>, patterns: &Vec<String>) -> (r: bool)
    ensures
        r == exists|f: int, p: int|
            0 <= f < files_changed.len() && 0 <= p < patterns.len() && #[trigger] spec_contains(
                files_changed.deep_view()[f],
                patterns.deep_view()[p],
            ),
{
    let mut f: usize = 0;
    while f < files_changed.len()
        invariant
            f <= files_changed.len(),
            forall|g: int, p: int|
                0 <= g < f && 0 <= p < patterns.len() ==> !#[trigger] spec_contains(
                    files_changed.deep_view()[g],
                    patterns.deep_view()[p],
                ),
        decreases files_changed.len() - f,
    {
        assert(files_changed.deep_view()[f as int] == files_changed@[f as int]@);
        let hit = any_contained(files_changed[f].as_str(), patterns);
        if hit {
            proof {
                let p = choose|p: int|
                    0 <= p < patterns.len() && #[trigger] spec_contains(
                        files_changed@[f as int]@,
                        patterns.deep_view()[p],
                    );
                assert(spec_contains(files_changed.deep_view()[f as int], patterns.deep_view()[p]));
            }
            return true;
        }
        f = f + 1;
    }
    false
}

/// Whether `rule` applies to a pull request.
pub fn rule_applies_to(
    rule: &LabelRule,
    branch_name: &str,
    title: &str,
    files_changed: &Vec<String>,
) -> (r: bool)
    ensures
        r == rule_applies(rule@, branch_name@, title@, files_changed.deep_view()),
{
    let ghost rv = rule@;
    assert(rv.branch == rule.branch.deep_view());
    assert(rv.title == pattern_sources(rule.title@));
    assert(rv.files == rule.files.deep_view());
    if any_contained(branch_name, &rule.branch) {
        proof {
            let i = choose|i: int|
                0 <= i < rule.branch.len() && #[trigger] spec_contains(
                    branch_name@,
                    rule.branch.deep_view()[i],
                );
            assert(spec_contains(branch_name@, rv.branch[i]));
        }
        return true;
    }
    if any_pattern_matches(title, &rule.title) {
        return true;
    }
    assert(!branch_matches(rv, branch_name@));
    assert(!title_matches(rv, title@));
    match &rule.files {
        Some(patterns) => {
            let hit = any_file_contains(files_changed, patterns);
            assert(rv.files == Some(patterns.deep_view()));
            assert(hit == files_match(rv, files_changed.deep_view()));
            hit
        },
        None => false,
    }
}

/// The label that the first applicable rule gives a pull request with
/// this base branch, title and changed files; `None` when no rule applies.
pub fn process_pull_request(
    branch_name: &str,
    title: &str,
    files_changed: &Vec<String>,
    label_rules: &Vec<LabelRule>,
) -> (label: Option<String>)
    ensures
        label.deep_view() == spec_choose_label(
            rules_view(label_rules@),
            branch_name@,
            title@,
            files_changed.deep_view(),
        ),
{
    let ghost rv = rules_view(label_rules@);
    let mut i: usize = 0;
    while i < label_rules.len()
        invariant
            i <= label_rules.len(),
            rv == rules_view(label_rules@),
            spec_choose_label(rv.subrange(0, i as int), branch_name@, title@, files_changed.deep_view())
                is None,
        decreases label_rules.len() - i,
    {
        let applies = rule_applies_to(&label_rules[i], branch_name, title, files_changed);
        proof {
            assert(rv.subrange(0, i + 1).drop_last() =~= rv.subrange(0, i as int));
            assert(rv[i as int] == label_rules@[i as int]@);
        }
        if applies {
            proof {
                lemma_choose_label_prefix(rv, branch_name@, title@, files_changed.deep_view(), i + 1);
            }
            return Some(label_rules[i].label.clone());
        }
        i = i + 1;
    }
    assert(rv.subrange(0, label_rules.len() as int) =~= rv);
    None
}

/// Once a prefix of the rules gives a label, the whole list gives it.
pub proof fn lemma_choose_label_prefix(
    rules: Seq<LabelRuleView>,
    branch_name: Seq<char>,
    title: Seq<char>,
    files_changed: Seq<Seq<char>>,
    k: int,
)
    requires
        0 <= k <= rules.len(),
        spec_choose_label(rules.subrange(0, k), branch_name, title, files_changed) is Some,
    ensures
        spec_choose_label(rules, branch_name, title, files_changed) == spec_choose_label(
            rules.subrange(0, k),
            branch_name,
            title,
            files_changed,
        ),
    decreases rules.len() - k,
{
    if k < rules.len() {
        assert(rules.subrange(0, k + 1).drop_last() =~= rules.subrange(0, k));
        lemma_choose_label_prefix(rules, branch_name, title, files_changed, k + 1);
    } else {
        assert(rules.subrange(0, k) =~= rules);
    }
}

/// The label of the first rule that applies is the one chosen, and no label
/// is chosen exactly when no rule applies.
pub proof fn lemma_first_applicable_rule_wins(
    rules: Seq<LabelRuleView>,
    branch_name: Seq<char>,
    title: Seq<char>,
    files_changed: Seq<Seq<char>>,
)
    ensures
        spec_choose_label(rules, branch_name, title, files_changed) is None <==> forall|i: int|
            0 <= i < rules.len() ==> !#[trigger] rule_applies(
                rules[i],
                branch_name,
                title,
                files_changed,
            ),
        forall|i: int|
            0 <= i < rules.len() && #[trigger] rule_applies(rules[i], branch_name, title, files_changed)
                && (forall|j: int|
                0 <= j < i ==> !#[trigger] rule_applies(rules[j], branch_name, title, files_changed))
                ==> spec_choose_label(rules, branch_name, title, files_changed) == Some(
                rules[i].label,
            ),
    decreases rules.len(),
{
    if rules.len() > 0 {
        let init = rules.drop_last();
        lemma_first_applicable_rule_wins(init, branch_name, title, files_changed);
        assert forall|i: int| 0 <= i < init.len() implies init[i] == rules[i] by {}
        if spec_choose_label(init, branch_name, title, files_changed) is None {
            assert forall|i: int|
                0 <= i < init.len() implies !#[trigger] rule_applies(
                    rules[i],
                    branch_name,
                    title,
                    files_changed,
                ) by {
                assert(init[i] == rules[i]);
            }
        } else {
            let k = choose|k: int|
                0 <= k < init.len() && #[trigger] rule_applies(
                    init[k],
                    branch_name,
                    title,
                    files_changed,
                );
            assert(init[k] == rules[k]);
        }
    }
}

/// The title patterns of the standard rules, which `regex::Regex::new`
/// must accept for the rules to be built.
pub open spec fn standard_title_patterns() -> Seq<Seq<char>> {
    seq![
        "chore"@,
        "refactor"@,
        "fix"@,
        "hotfix"@,
        "bugfix"@,
        "patch"@,
        "feat"@,
        "feature"@,
        "enhancement"@,
        "new"@,
        "doc"@,
        "docs"@,
    ]
}

/// The standard rules: chores, fixes, features and documentation, tried
/// in that order.
pub open spec fn standard_rules() -> Seq<LabelRuleView> {
    seq![
        LabelRuleView {
            label: "type: chore"@,
            branch: seq!["/chore/.+"@, "/refactor/.+"@, "/maintenance/.+"@],
            title: seq!["chore"@, "refactor"@],
            files: Some(
                seq!["*.yml"@, "*.conf"@, "*.sbt"@, "*.json"@, "*.xml"@, "Dockerfile"@],
            ),
        },
        LabelRuleView {
            label: "type: fix"@,
            branch: seq!["/fix/.+"@, "/hotfix/.+"@, "/bugfix/.+"@, "/patch/.+"@],
            title: seq!["fix"@, "hotfix"@, "bugfix"@, "patch"@],
            files: None,
        },
        LabelRuleView {
            label: "type: feature"@,
            branch: seq!["/feat/.+"@, "/feature/.+"@, "/enhancement/.+"@, "/new/.+"@],
            title: seq!["feat"@, "feature"@, "enhancement"@, "new"@],
            files: None,
        },
        LabelRuleView {
            label: "type: docs"@,
            branch: seq!["/doc/.+"@, "/docs/.+"@],
            title: seq!["doc"@, "docs"@],
            files: Some(seq!["*.md"@, "*.txt"@, "*.rst"@, "*.wiki"@, "*.html"@]),
        },
    ]
}

/// Copies texts into owned strings.
fn owned_strings(items: &[&str]) -> (v: Vec<String>)
    ensures
        v.deep_view() == items@.map_values(|s: &str| s@),
{
    let mut v: Vec<String> = Vec::new();
    let mut i: usize = 0;
    while i < items.len()
        invariant
            i <= items.len(),
            v@.len() == i,
            forall|j: int| 0 <= j < i ==> #[trigger] v@[j]@ == items@[j]@,
        decreases items.len() - i,
    {
        v.push(String::from_str(items[i]));
        i = i + 1;
    }
    assert(v.deep_view() =~= items@.map_values(|s: &str| s@));
    v
}

/// Compiles patterns in order; fails with the first one refused.
fn compile_all(items: &[&str]) -> (res: Result<Vec<Pattern>, PatternError>)
    ensures
        res is Ok <==> forall|i: int| 0 <= i < items.len() ==> regex_compiles(#[trigger] items@[i]@),
        res matches Ok(v) ==> pattern_sources(v@) == items@.map_values(|s: &str| s@),
        res matches Err(e) ==> !regex_compiles(e.pattern@) && exists|j: int|
            0 <= j < items.len() && #[trigger] items@[j]@ == e.pattern@,
{
    let mut v: Vec<Pattern> = Vec::new();
    let mut i: usize = 0;
    while i < items.len()
        invariant
            i <= items.len(),
            forall|j: int| 0 <= j < i ==> regex_compiles(#[trigger] items@[j]@),
            v@.len() == i,
            forall|j: int| 0 <= j < i ==> #[trigger] v@[j]@ == items@[j]@,
        decreases items.len() - i,
    {
        let p = Pattern::new(items[i]);
        match p {
            Ok(p) => {
                v.push(p);
            },
            Err(e) => {
                assert(items@[i as int]@ == e.pattern@);
                return Err(e);
            },
        }
        i = i + 1;
    }
    assert(pattern_sources(v@) =~= items@.map_values(|s: &str| s@));
    Ok(v)
}

/// `standard_title_patterns` holds `p` and the `regex` crate refuses it.
proof fn lemma_refused_standard_title(p: Seq<char>, k: int)
    requires
        0 <= k < standard_title_patterns().len(),
        standard_title_patterns()[k] == p,
        !regex_compiles(p),
    ensures
        standard_title_patterns().contains(p),
        !(forall|i: int|
            0 <= i < standard_title_patterns().len() ==> regex_compiles(
                #[trigger] standard_title_patterns()[i],
            )),
{
}

/// Builds the standard rules; fails when the `regex` crate refuses one of
/// their title patterns.
pub fn standard_label_rules() -> (res: Result<Vec<LabelRule>, PatternError>)
    ensures
        res is Ok <==> forall|i: int|
            0 <= i < standard_title_patterns().len() ==> regex_compiles(
                #[trigger] standard_title_patterns()[i],
            ),
        res matches Ok(rules) ==> rules_view(rules@) == standard_rules(),
        res matches Err(e) ==> !regex_compiles(e.pattern@) && standard_title_patterns().contains(
            e.pattern@,
        ),
{
    let ghost titles = standard_title_patterns();
    let chore_titles: [&str; 2] = ["chore", "refactor"];
    let fix_titles: [&str; 4] = ["fix", "hotfix", "bugfix", "patch"];
    let feature_titles: [&str; 4] = ["feat", "feature", "enhancement", "new"];
    let docs_titles: [&str; 2] = ["doc", "docs"];
    assert(chore_titles@ == seq!["chore", "refactor"]);
    assert(fix_titles@ == seq!["fix", "hotfix", "bugfix", "patch"]);
    assert(feature_titles@ == seq!["feat", "feature", "enhancement", "new"]);
    assert(docs_titles@ == seq!["doc", "docs"]);
    let chore_title = match compile_all(&chore_titles) {
        Ok(v) => v,
        Err(e) => {
            proof {
                let j = choose|j: int| 0 <= j < 2 && #[trigger] chore_titles@[j]@ == e.pattern@;
                lemma_refused_standard_title(e.pattern@, j);
            }
            return Err(e);
        },
    };
    let fix_title = match compile_all(&fix_titles) {
        Ok(v) => v,
        Err(e) => {
            proof {
                let j = choose|j: int| 0 <= j < 4 && #[trigger] fix_titles@[j]@ == e.pattern@;
                lemma_refused_standard_title(e.pattern@, j + 2);
            }
            return Err(e);
        },
    };
    let feature_title = match compile_all(&feature_titles) {
        Ok(v) => v,
        Err(e) => {
            proof {
                let j = choose|j: int| 0 <= j < 4 && #[trigger] feature_titles@[j]@ == e.pattern@;
                lemma_refused_standard_title(e.pattern@, j + 6);
            }
            return Err(e);
        },
    };
    let docs_title = match compile_all(&docs_titles) {
        Ok(v) => v,
        Err(e) => {
            proof {
                let j = choose|j: int| 0 <= j < 2 && #[trigger] docs_titles@[j]@ == e.pattern@;
                lemma_refused_standard_title(e.pattern@, j + 10);
            }
            return Err(e);
        },
    };
    assert forall|i: int| 0 <= i < titles.len() implies regex_compiles(#[trigger] titles[i]) by {
        if i < 2 {
            assert(chore_titles@[i]@ == titles[i]);
        } else if i < 6 {
            assert(fix_titles@[i - 2]@ == titles[i]);
        } else if i < 10 {
            assert(feature_titles@[i - 6]@ == titles[i]);
        } else {
            assert(docs_titles@[i - 10]@ == titles[i]);
        }
    }
    let chore_branch: [&str; 3] = ["/chore/.+", "/refactor/.+", "/maintenance/.+"];
    let chore_files: [&str; 6] = ["*.yml", "*.conf", "*.sbt", "*.json", "*.xml", "Dockerfile"];
    let fix_branch: [&str; 4] = ["/fix/.+", "/hotfix/.+", "/bugfix/.+", "/patch/.+"];
    let feature_branch: [&str; 4] = ["/feat/.+", "/feature/.+", "/enhancement/.+", "/new/.+"];
    let docs_branch: [&str; 2] = ["/doc/.+", "/docs/.+"];
    let docs_files: [&str; 5] = ["*.md", "*.txt", "*.rst", "*.wiki", "*.html"];
    let chore = LabelRule {
        label: String::from_str("type: chore"),
        branch: owned_strings(&chore_branch),
        title: chore_title,
        files: Some(owned_strings(&chore_files)),
    };
    let fix = LabelRule {
        label: String::from_str("type: fix"),
        branch: owned_strings(&fix_branch),
        title: fix_title,
        files: None,
    };
    let feature = LabelRule {
        label: String::from_str("type: feature"),
        branch: owned_strings(&feature_branch),
        title: feature_title,
        files: None,
    };
    let docs = LabelRule {
        label: String::from_str("type: docs"),
        branch: owned_strings(&docs_branch),
        title: docs_title,
        files: Some(owned_strings(&docs_files)),
    };
    let ghost expected = standard_rules();
    assert(chore_branch@ == seq!["/chore/.+", "/refactor/.+", "/maintenance/.+"]);
    assert(chore_files@ == seq!["*.yml", "*.conf", "*.sbt", "*.json", "*.xml", "Dockerfile"]);
    assert(fix_branch@ == seq!["/fix/.+", "/hotfix/.+", "/bugfix/.+", "/patch/.+"]);
    assert(feature_branch@ == seq!["/feat/.+", "/feature/.+", "/enhancement/.+", "/new/.+"]);
    assert(docs_branch@ == seq!["/doc/.+", "/docs/.+"]);
    assert(docs_files@ == seq!["*.md", "*.txt", "*.rst", "*.wiki", "*.html"]);
    assert(chore.branch.deep_view() =~= expected[0].branch);
    assert(chore.title@.map_values(|p: Pattern| p@) =~= expected[0].title);
    assert(chore.files.deep_view().unwrap() =~= expected[0].files.unwrap());
    assert(chore@ == expected[0]);
    assert(fix.branch.deep_view() =~= expected[1].branch);
    assert(fix.title@.map_values(|p: Pattern| p@) =~= expected[1].title);
    assert(fix@ == expected[1]);
    assert(feature.branch.deep_view() =~= expected[2].branch);
    assert(feature.title@.map_values(|p: Pattern| p@) =~= expected[2].title);
    assert(feature@ == expected[2]);
    assert(docs.branch.deep_view() =~= expected[3].branch);
    assert(docs.title@.map_values(|p: Pattern| p@) =~= expected[3].title);
    assert(docs.files.deep_view().unwrap() =~= expected[3].files.unwrap());
    assert(docs@ == expected[3]);
    let rules = vec![chore, fix, feature, docs];
    assert(rules_view(rules@) =~= expected);
    Ok(rules)
}

/// A rule applies to a pull request whenever one of its branch texts occurs
/// in the base branch name, whichever text of the rule that is.
pub proof fn lemma_branch_text_applies(
    r: LabelRuleView,
    branch_name: Seq<char>,
    title: Seq<char>,
    files_changed: Seq<Seq<char>>,
    i: int,
)
    requires
        0 <= i < r.branch.len(),
        spec_contains(branch_name, r.branch[i]),
    ensures
        rule_applies(r, branch_name, title, files_changed),
{
}

/// A rule applies to a pull request whenever one of its title patterns
/// matches somewhere in the title, whichever pattern of the rule that is.
pub proof fn lemma_title_pattern_applies(
    r: LabelRuleView,
    branch_name: Seq<char>,
    title: Seq<char>,
    files_changed: Seq<Seq<char>>,
    i: int,
)
    requires
        0 <= i < r.title.len(),
        regex_captures(r.title[i], title) is Some,
    ensures
        rule_applies(r, branch_name, title, files_changed),
{
}

/// A rule with file texts applies to a pull request whenever any changed
/// file, at any position of the list, has any of the rule's file texts in
/// its name.
pub proof fn lemma_file_text_applies(
    r: LabelRuleView,
    branch_name: Seq<char>,
    title: Seq<char>,
    files_changed: Seq<Seq<char>>,
    patterns: Seq<Seq<char>>,
    f: int,
    p: int,
)
    requires
        r.files == Some(patterns),
        0 <= f < files_changed.len(),
        0 <= p < patterns.len(),
        spec_contains(files_changed[f], patterns[p]),
    ensures
        rule_applies(r, branch_name, title, files_changed),
{
    assert(r.files.unwrap() == patterns);
    assert(spec_contains(files_changed[f], r.files.unwrap()[p]));
    assert(files_match(r, files_changed));
}

/// A rule applies only for one of those three reasons: a branch text in the
/// branch name, a title pattern matching the title, or a file text in the
/// name of a changed file.
pub proof fn lemma_rule_applies_only_by_a_text(
    r: LabelRuleView,
    branch_name: Seq<char>,
    title: Seq<char>,
    files_changed: Seq<Seq<char>>,
)
    requires
        rule_applies(r, branch_name, title, files_changed),
    ensures
        (exists|i: int| 0 <= i < r.branch.len() && #[trigger] spec_contains(branch_name, r.branch[i]))
            || (exists|i: int|
            0 <= i < r.title.len() && #[trigger] regex_captures(r.title[i], title) is Some) || (
        exists|f: int, p: int|
            0 <= f < files_changed.len() && r.files is Some && 0 <= p < r.files.unwrap().len()
                && #[trigger] spec_contains(files_changed[f], r.files.unwrap()[p])),
{
}

/// Whether a rule applies does not depend on the order of the changed
/// files: it is the same for any reordering.
pub proof fn lemma_file_order_irrelevant(
    r: LabelRuleView,
    branch_name: Seq<char>,
    title: Seq<char>,
    files_changed: Seq<Seq<char>>,
    reordered: Seq<Seq<char>>,
)
    requires
        files_changed.to_multiset() == reordered.to_multiset(),
    ensures
        rule_applies(r, branch_name, title, files_changed) == rule_applies(
            r,
            branch_name,
            title,
            reordered,
        ),
{
    if rule_applies(r, branch_name, title, files_changed) != rule_applies(
        r,
        branch_name,
        title,
        reordered,
    ) {
        if let Some(patterns) = r.files {
            if files_match(r, files_changed) {
                let (f, p) = choose|f: int, p: int|
                    0 <= f < files_changed.len() && 0 <= p < patterns.len() && #[trigger] spec_contains(
                        files_changed[f],
                        patterns[p],
                    );
                vstd::seq_lib::to_multiset_contains(files_changed, files_changed[f]);
                vstd::seq_lib::to_multiset_contains(reordered, files_changed[f]);
                assert(files_changed.contains(files_changed[f]));
                let g = choose|g: int| 0 <= g < reordered.len() && #[trigger] reordered[g] == files_changed[f];
                assert(spec_contains(reordered[g], patterns[p]));
            }
            if files_match(r, reordered) {
                let (f, p) = choose|f: int, p: int|
                    0 <= f < reordered.len() && 0 <= p < patterns.len() && #[trigger] spec_contains(
                        reordered[f],
                        patterns[p],
                    );
                vstd::seq_lib::to_multiset_contains(files_changed, reordered[f]);
                vstd::seq_lib::to_multiset_contains(reordered, reordered[f]);
                assert(reordered.contains(reordered[f]));
                let g = choose|g: int| 0 <= g < files_changed.len() && #[trigger] files_changed[g] == reordered[f];
                assert(spec_contains(files_changed[g], patterns[p]));
            }
        }
    }
}

} // verus!
