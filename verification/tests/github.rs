use semantic_rs::github::user_repo_from_url;

#[test]
fn user_and_repo_come_from_the_path() {
    let r = user_repo_from_url("https://github.com/badboy/test-project");
    assert_eq!(r, Ok(("badboy".to_string(), "test-project".to_string())));
}

#[test]
fn trailing_git_suffix_is_stripped() {
    let r = user_repo_from_url("https://github.com/badboy/test-project.git");
    assert_eq!(r, Ok(("badboy".to_string(), "test-project".to_string())));
}

#[test]
fn git_in_the_middle_is_rejected() {
    let r = user_repo_from_url("https://github.com/badboy/test.gitfoo");
    assert_eq!(r, Err("URL does not point to a git repository".to_string()));
}

#[test]
fn inner_git_with_real_suffix_still_strips_once() {
    let r = user_repo_from_url("https://github.com/badboy/a.git.git");
    assert_eq!(r, Ok(("badboy".to_string(), "a.git".to_string())));
}

#[test]
fn short_paths_are_rejected() {
    let r = user_repo_from_url("https://github.com");
    assert_eq!(r, Err("URL should contain user and repository".to_string()));
}

#[test]
fn unparsable_urls_are_rejected() {
    let r = user_repo_from_url("not a url at all");
    assert_eq!(r, Err("Remote URL can't be parsed".to_string()));
}
