use worktree_tool::engine::remotes::{
    add, fetch, list, pull, push, push_force_with_lease, remove, upstream_remote_args,
};

#[test]
fn lists_remotes_with_fetch_and_push_urls() {
    let out = "origin\thttps://x/a.git (fetch)\norigin\tssh://x/a.git (push)\nup\thttps://y/b.git (fetch)\nup\thttps://y/b.git (push)\njunk\n\tnoname (fetch)\n";
    let r = list(out);
    assert_eq!(r.len(), 2);
    assert_eq!(r[0].name, "origin");
    assert_eq!(r[0].fetch_url, "https://x/a.git");
    assert_eq!(r[0].push_url, "ssh://x/a.git");
    assert_eq!(r[1].name, "up");
    assert_eq!(r[1].push_url, "https://y/b.git");
}

#[test]
fn push_url_defaults_to_fetch_url() {
    let r = list("o\thttps://z (fetch)\n");
    assert_eq!(r[0].push_url, "https://z");
}

#[test]
fn push_goes_to_the_upstream_remote() {
    assert_eq!(
        push("feat", false, Some("upstream\n")).unwrap(),
        vec!["push", "-q", "upstream", "feat"]
    );
    assert_eq!(
        push("feat", true, None).unwrap(),
        vec!["push", "-q", "--set-upstream", "origin", "feat"]
    );
    assert_eq!(
        push("feat", false, Some("  ")).unwrap(),
        vec!["push", "-q", "origin", "feat"]
    );
    assert_eq!(
        push_force_with_lease("feat", Some("fork")).unwrap(),
        vec!["push", "-q", "--force-with-lease", "fork", "feat"]
    );
    assert_eq!(push("-f", false, None).unwrap_err().message, "invalid branch name: \"-f\"");
    assert!(upstream_remote_args("-x").is_err());
    assert_eq!(upstream_remote_args("m").unwrap()[3], "refs/heads/m");
}

#[test]
fn remote_names_and_urls_are_validated() {
    assert_eq!(add("o", "u").unwrap(), vec!["remote", "add", "o", "u"]);
    assert_eq!(add("a/b", "u").unwrap_err().message, "invalid remote name: \"a/b\"");
    assert_eq!(add("o", "").unwrap_err().message, "invalid remote url: \"\"");
    assert!(add("o", "u\nx").is_err());
    assert!(remove("-o").is_err());
    assert_eq!(remove("o").unwrap(), vec!["remote", "remove", "o"]);
    assert_eq!(fetch(), vec!["fetch", "--all", "--prune", "-q"]);
    assert_eq!(pull(), vec!["pull", "--ff-only", "-q"]);
}
