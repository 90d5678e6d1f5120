use cyberplug::git::origin_url;

#[test]
fn origin_url_is_trimmed_output() {
    assert_eq!(
        origin_url(true, "https://github.com/a/b.git\n"),
        Some("https://github.com/a/b.git".to_string())
    );
}

#[test]
fn origin_url_never_made_up() {
    assert_eq!(origin_url(false, "https://github.com/a/b.git\n"), None);
    assert_eq!(origin_url(true, "  \n"), None);
    assert_eq!(origin_url(true, ""), None);
}
