use cem::app::GithubUrls;

#[test]
fn github_urls() {
    let urls = GithubUrls::new("https://github.com/example/cem".to_string());
    assert_eq!(urls.license(), "https://github.com/example/cem/blob/main/LICENSE");
    assert_eq!(urls.issues(), "https://github.com/example/cem/issues");
    assert_eq!(urls.documentation(), "https://github.com/example/cem/blob/main/doc");
    assert_eq!(urls.release_notes(), "https://github.com/example/cem/releases");
    assert_eq!(urls.commit("abc123"), "https://github.com/example/cem/commit/abc123");
    assert_eq!(urls.branch("main"), "https://github.com/example/cem/tree/main");
}
