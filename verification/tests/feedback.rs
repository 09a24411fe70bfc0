use worktree_tool::feedback::{app_version, issue_body, percent_encode, platform_label, report_bug_url};

fn default_body() -> String {
    issue_body("linux", "x86_64")
}

#[test]
fn percent_encoding_keeps_unreserved_and_encodes_the_rest() {
    assert_eq!(percent_encode("abcXYZ09-_.~"), "abcXYZ09-_.~");
    assert_eq!(percent_encode("a b"), "a%20b");
    assert_eq!(percent_encode("a/b?d&e=f"), "a%2Fb%3Fd%26e%3Df");
    assert_eq!(percent_encode("héllo"), "h%C3%A9llo");
    assert_eq!(percent_encode(""), "");
}

#[test]
fn report_url_targets_repo_new_issue_with_prefill() {
    let url = report_bug_url(&default_body());
    assert!(url.starts_with("https://github.com/gregnazario/worktree-ui/issues/new?"));
    assert!(url.contains("title=Bug%3A%20"));
    assert!(url.contains(&percent_encode(&format!(
        "worktree-tool {} on",
        app_version()
    ))));
    // round-trip: encoded body must not contain raw characters that
    // would break the query string
    assert!(!url.contains(' ') && !url.contains('\n'));
}

#[test]
fn issue_body_carries_version_and_platform_only() {
    let body = default_body();
    assert!(body.contains(app_version()));
    assert!(body.contains(platform_label("linux")));
    assert!(body.contains("x86_64"));
    assert!(body.contains("### What happened"));
}

#[test]
fn platform_labels_name_each_os() {
    assert_eq!(platform_label("macos"), "macOS");
    assert_eq!(platform_label("windows"), "Windows");
    assert_eq!(platform_label("freebsd"), "FreeBSD");
    assert_eq!(platform_label("linux"), "Linux");
    assert_eq!(platform_label("netbsd"), "Linux");
}

#[test]
fn issue_body_exact_text() {
    assert_eq!(
        issue_body("macos", "aarch64"),
        "### What happened\n\n\n### Steps to reproduce\n\n1. \n2. \n\n### Expected\n\n\n---\nworktree-tool 0.1.0 on macOS (aarch64)"
    );
}

#[test]
fn encoded_output_is_query_safe() {
    let e = percent_encode("a b\n&=?#%ü\u{1F600}");
    assert!(e
        .chars()
        .all(|c| c.is_ascii_alphanumeric() || "-_.~%".contains(c)));
    assert_eq!(e, "a%20b%0A%26%3D%3F%23%25%C3%BC%F0%9F%98%80");
}

#[test]
fn report_url_encodes_the_body() {
    assert_eq!(
        report_bug_url("x y"),
        "https://github.com/gregnazario/worktree-ui/issues/new?title=Bug%3A%20&body=x%20y"
    );
}
