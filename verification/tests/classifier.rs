use semantic_rs::commit_analyzer::{analyze, analyze_commits, Commit, CommitType};

fn commit(message: &str) -> Commit {
    Commit { id: "0000000".to_string(), message: message.to_string() }
}

#[test]
fn feat_header_is_minor() {
    assert_eq!(analyze("feat: add a parser"), CommitType::Minor);
}

#[test]
fn fix_header_is_patch() {
    assert_eq!(analyze("fix: stop the crash"), CommitType::Patch);
}

#[test]
fn chore_header_is_unknown() {
    assert_eq!(analyze("chore: tidy the build"), CommitType::Unknown);
}

#[test]
fn scoped_headers_classify_by_type() {
    assert_eq!(analyze("feat(parser): add lookahead"), CommitType::Minor);
    assert_eq!(analyze("fix(io): close the file"), CommitType::Patch);
}

#[test]
fn header_bang_is_major() {
    assert_eq!(analyze("feat!: drop the old api"), CommitType::Major);
    assert_eq!(analyze("fix(io)!: change the signature"), CommitType::Major);
}

#[test]
fn breaking_change_footer_is_major() {
    let msg = "feat: add a flag\n\nBREAKING CHANGE: the default changed";
    assert_eq!(analyze(msg), CommitType::Major);
    let msg2 = "chore: nothing\n\nBREAKING CHANGE: everything";
    assert_eq!(analyze(msg2), CommitType::Major);
}

#[test]
fn type_is_case_insensitive() {
    assert_eq!(analyze("FEAT: shout"), CommitType::Minor);
    assert_eq!(analyze("Fix: quiet"), CommitType::Patch);
}

#[test]
fn unmatched_input_is_unknown() {
    assert_eq!(analyze("just some words"), CommitType::Unknown);
    assert_eq!(analyze(""), CommitType::Unknown);
    assert_eq!(analyze("featherweight: not a feat"), CommitType::Unknown);
}

#[test]
fn only_the_header_decides_the_type() {
    assert_eq!(analyze("chore: tidy\nfeat: hidden in the body"), CommitType::Unknown);
}

#[test]
fn aggregate_takes_the_maximum_severity() {
    let commits = vec![commit("chore: tidy"), commit("fix: a"), commit("feat: b")];
    assert_eq!(analyze_commits(&commits), CommitType::Minor);
}

#[test]
fn single_major_outweighs_everything() {
    let commits = vec![
        commit("fix: a"),
        commit("feat: b"),
        commit("feat!: breaking"),
        commit("chore: tidy"),
        commit("fix: c"),
    ];
    assert_eq!(analyze_commits(&commits), CommitType::Major);
}

#[test]
fn aggregate_of_nothing_is_unknown() {
    let commits: Vec<Commit> = Vec::new();
    assert_eq!(analyze_commits(&commits), CommitType::Unknown);
    let chores = vec![commit("chore: a"), commit("docs: b")];
    assert_eq!(analyze_commits(&chores), CommitType::Unknown);
}
