use semantic_rs::changelog::{compose, has_content, parse_section_counts, render};
use semantic_rs::commit_analyzer::Commit;
use semantic_rs::version::Version;

fn commit(message: &str) -> Commit {
    Commit { id: "0000000".to_string(), message: message.to_string() }
}

#[test]
fn compose_groups_by_category_in_order() {
    let commits = vec![
        commit("feat: first feature"),
        commit("fix: first fix"),
        commit("chore: tidy"),
        commit("feat!: breaking change"),
        commit("feat: second feature\n\nwith a body"),
    ];
    let log = compose(&commits);
    assert_eq!(log.breaking, vec!["feat!: breaking change".to_string()]);
    assert_eq!(
        log.features,
        vec!["feat: first feature".to_string(), "feat: second feature".to_string()]
    );
    assert_eq!(log.fixes, vec!["fix: first fix".to_string()]);
    assert!(has_content(&log));
}

#[test]
fn all_unknown_commits_signal_no_content() {
    let commits = vec![commit("chore: tidy"), commit("docs: explain")];
    let log = compose(&commits);
    assert!(!has_content(&log));
    assert!(log.breaking.is_empty());
    assert!(log.features.is_empty());
    assert!(log.fixes.is_empty());
}

#[test]
fn empty_input_is_a_valid_degenerate_case() {
    let log = compose(&Vec::new());
    assert!(!has_content(&log));
}

#[test]
fn render_writes_only_nonempty_sections() {
    let commits = vec![commit("feat: shiny"), commit("fix: dull")];
    let log = compose(&commits);
    let text = render(&log, &Version { major: 1, minor: 1, patch: 0 });
    assert_eq!(
        text,
        "## v1.1.0\n### Features\n- feat: shiny\n### Fixes\n- fix: dull\n"
    );
}

#[test]
fn render_then_parse_recovers_the_counts() {
    let commits = vec![
        commit("feat: one"),
        commit("feat: two"),
        commit("fix: three"),
        commit("feat!: four"),
        commit("chore: five"),
    ];
    let log = compose(&commits);
    let text = render(&log, &Version { major: 2, minor: 0, patch: 0 });
    let (breaking, features, fixes) = parse_section_counts(&text);
    assert_eq!((breaking, features, fixes), (1, 2, 1));
}

#[test]
fn parse_counts_of_plain_text_are_zero() {
    assert_eq!(parse_section_counts(""), (0, 0, 0));
    assert_eq!(parse_section_counts("## v1.0.0\nnothing here\n"), (0, 0, 0));
    assert_eq!(parse_section_counts("- a stray bullet\n"), (0, 0, 0));
}
