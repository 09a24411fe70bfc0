use worktree_tool::engine::history::{
    assign_lanes, checkout, commit_diff, commit_files, log, open_worktree_at, parse_commit_files,
    parse_log, GraphCell,
};
use worktree_tool::engine::working_copy::{parse_status_z, WorkingCopy};
use worktree_tool::views::history::age_label;

#[test]
fn age_label_buckets() {
    let now = 1_700_000_000;
    assert_eq!(age_label(now, now), "now");
    assert_eq!(age_label(now - 300, now), "5m");
    assert_eq!(age_label(now - 7_200, now), "2h");
    assert_eq!(age_label(now - 3 * 86_400, now), "3d");
    assert_eq!(age_label(now - 14 * 86_400, now), "2w");
    assert_eq!(age_label(now - 400 * 86_400, now), "1y");
}

#[test]
fn age_label_future_is_now() {
    assert_eq!(age_label(100, 50), "now");
}

fn rec(hash: &str, parents: &str, subject: &str) -> String {
    format!("\u{0}{hash}\u{1}{}\u{1}{parents}\u{1}Ann\u{1}1700000000\u{1}\u{1}{subject}\n", &hash[..3])
}

#[test]
fn parse_log_reads_records() {
    let text = format!("{}{}", rec("aaa111", "bbb222", "second  "), rec("bbb222", "", "first"));
    let commits = parse_log(text.as_bytes());
    assert_eq!(commits.len(), 2);
    assert_eq!(commits[0].hash, "aaa111");
    assert_eq!(commits[0].short, "aaa");
    assert_eq!(commits[0].parents, vec!["bbb222".to_string()]);
    assert_eq!(commits[0].timestamp, 1_700_000_000);
    assert_eq!(commits[0].subject, "second");
    assert!(commits[1].parents.is_empty());
}

#[test]
fn lanes_for_a_merge() {
    // m merges b into a; both descend from r.
    let text = format!(
        "{}{}{}{}",
        rec("mmm000", "aaa000 bbb000", "merge"),
        rec("aaa000", "rrr000", "a"),
        rec("bbb000", "rrr000", "b"),
        rec("rrr000", "", "root")
    );
    let mut commits = parse_log(text.as_bytes());
    let rows = assign_lanes(&mut commits);
    assert_eq!(rows.len(), 4);
    let lanes: Vec<usize> = commits.iter().map(|c| c.lane).collect();
    assert_eq!(lanes, vec![0, 0, 1, 0]);
    assert_eq!(rows[0].cells, vec![GraphCell::Commit, GraphCell::Wire]);
    assert_eq!(rows[2].cells, vec![GraphCell::Wire, GraphCell::Commit]);
    for (r, c) in rows.iter().zip(commits.iter()) {
        assert_eq!(r.lane, c.lane);
        assert_eq!(r.cells.iter().filter(|x| **x == GraphCell::Commit).count(), 1);
    }
}

#[test]
fn commit_files_parse_renames() {
    let out = b"M\0a.txt\0R100\0old.txt\0new.txt\0A\0n.txt\0";
    let files = parse_commit_files(out);
    assert_eq!(files.len(), 3);
    assert_eq!(files[1].letter, 'R');
    assert_eq!(files[1].path, "new.txt");
    assert_eq!(files[1].orig_path.as_deref(), Some("old.txt"));
    assert_eq!(files[2].letter, 'A');
}

#[test]
fn argv_shapes() {
    assert_eq!(log(500, 500)[4], "--skip=500");
    assert_eq!(log(0, 7)[5], "--max-count=7");
    assert_eq!(commit_files("abc", Some("p1")).last().unwrap(), "abc");
    assert_eq!(commit_files("abc", Some("")).len(), 9);
    assert_eq!(commit_diff("abc", "a b").last().unwrap(), ":(literal)a b");
}

#[test]
fn checkout_refuses_a_dirty_working_copy() {
    let dirty: WorkingCopy = parse_status_z("# branch.head main\u{0}1 .M N... 100644 100644 100644 a b f.txt\u{0}");
    let e = checkout(&dirty, "abc").unwrap_err();
    assert!(e.message.starts_with("the working copy has changes"));
    let clean = parse_status_z("# branch.head main\u{0}");
    assert_eq!(checkout(&clean, "abc").unwrap(), vec!["checkout", "-q", "abc"]);
}

#[test]
fn new_worktree_paths_count_up() {
    let (p, args) = open_worktree_at("/src/repo", "deadbeef", "dead", 0).unwrap();
    assert_eq!(p, "/src/repo-dead");
    assert_eq!(args, vec!["worktree", "add", "-q", "--detach", "/src/repo-dead", "deadbeef"]);
    let (p, _) = open_worktree_at("/src/repo", "deadbeef", "dead", 1).unwrap();
    assert_eq!(p, "/src/repo-dead-2");
    assert!(open_worktree_at("/", "deadbeef", "dead", 0).is_err());
}
