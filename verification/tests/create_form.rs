use worktree_tool::create_form::CreateForm;
use worktree_tool::model::default_worktree_path;

fn type_keys(form: &mut CreateForm, text: &str, root: Option<&str>) {
    for c in text.chars() {
        let s = c.to_string();
        form.branch_key(&s, Some(&s), false, false, root);
    }
}

fn type_dest(form: &mut CreateForm, text: &str) {
    for c in text.chars() {
        let s = c.to_string();
        form.dest_key(&s, Some(&s), false, false);
    }
}

#[test]
fn create_dialog_destination_tracks_full_branch_name() {
    let root = "/tmp/work/fixture";
    let mut form = CreateForm::new("main");
    type_keys(&mut form, "feat", Some(root));
    assert_eq!(form.branch_field().value(), "feat");
    let expected = default_worktree_path(root, "feat");
    assert_eq!(form.dest_field().value(), expected);
    assert_eq!(expected, "/tmp/work/fixture-worktrees/feat");
    assert!(!form.dest_edited(), "programmatic dest updates must not count as user edits");
}

#[test]
fn create_form_opens_with_the_default_base() {
    let form = CreateForm::new("main");
    assert_eq!(form.base_field().value(), "main");
    assert_eq!(form.branch_field().value(), "");
    assert_eq!(form.dest_field().value(), "");
    assert!(form.new_branch());
    assert!(!form.dest_edited());
}

#[test]
fn destination_follows_the_trimmed_name_with_slashes_flattened() {
    let mut form = CreateForm::new("main");
    type_keys(&mut form, " feature/x", Some("/r/repo"));
    assert_eq!(form.dest_field().value(), "/r/repo-worktrees/feature-x");
}

#[test]
fn destination_waits_for_a_name_and_a_repository() {
    let mut form = CreateForm::new("main");
    type_keys(&mut form, "  ", Some("/r/repo"));
    assert_eq!(form.dest_field().value(), "");
    type_keys(&mut form, "x", None);
    assert_eq!(form.dest_field().value(), "");
    assert!(!form.dest_edited());
}

#[test]
fn an_edited_destination_stops_following_the_branch() {
    let mut form = CreateForm::new("main");
    type_keys(&mut form, "a", Some("/r/repo"));
    assert_eq!(form.dest_field().value(), "/r/repo-worktrees/a");
    form.dest_key("end", None, false, false);
    assert!(!form.dest_edited(), "moving the cursor is no edit");
    type_dest(&mut form, "2");
    assert!(form.dest_edited());
    type_keys(&mut form, "b", Some("/r/repo"));
    assert_eq!(form.branch_field().value(), "ab");
    assert_eq!(form.dest_field().value(), "/r/repo-worktrees/a2");
}

#[test]
fn backspacing_the_destination_back_to_the_derived_path_is_still_an_edit() {
    let mut form = CreateForm::new("main");
    type_keys(&mut form, "a", Some("/r/repo"));
    form.dest_key("end", None, false, false);
    type_dest(&mut form, "z");
    form.dest_key("backspace", None, false, false);
    assert_eq!(form.dest_field().value(), "/r/repo-worktrees/a");
    assert!(form.dest_edited());
}

#[test]
fn a_cursor_inside_a_new_character_goes_to_the_start() {
    let mut form = CreateForm::new("main");
    // The destination's cursor sits after "/r/é" (5 bytes); in the next
    // derived path a two-byte character spans bytes 4 and 5.
    type_keys(&mut form, "x", Some("/r/é"));
    form.dest_key("home", None, false, false);
    for _ in 0..4 {
        form.dest_key("right", None, false, false);
    }
    assert!(!form.dest_edited());
    type_keys(&mut form, "y", Some("/aéé"));
    assert_eq!(form.dest_field().value(), "/aéé-worktrees/xy");
    assert_eq!(form.dest_field().display(true).0, "|/aéé-worktrees/xy");
}

#[test]
fn the_confirm_reads_the_three_fields() {
    let mut form = CreateForm::new("main");
    type_keys(&mut form, "feat", Some("/r/repo"));
    let q = form.request("main").unwrap().unwrap();
    assert_eq!(q.path, "/r/repo-worktrees/feat");
    assert_eq!(q.branch.as_deref(), Some("feat"));
    assert_eq!(q.base, "main");
    form.toggle_new_branch();
    let q = form.request("main").unwrap().unwrap();
    assert_eq!(q.branch, None);
    assert_eq!(q.base, "feat");
}

#[test]
fn create_dialog_labels_follow_the_mode() {
    let mut form = CreateForm::new("main");
    let branches = vec!["feat".to_string(), "main".to_string()];
    let l = form.labels("main", &branches);
    assert_eq!(l.mode, "Branch (new)");
    assert_eq!(l.hint, "base: main");
    assert!(!l.can_confirm);
    assert_eq!(l.toggle, "Creating a new branch \u{2014} switch to existing branch");
    type_keys(&mut form, "x", Some("/r/repo"));
    for k in ["end", "backspace", "backspace", "backspace", "backspace"] {
        form.base_key(k, None, false, false);
    }
    for c in ["d", "e", "v"] {
        form.base_key(c, Some(c), false, false);
    }
    let l = form.labels("main", &branches);
    assert_eq!(l.hint, "base: dev");
    assert!(l.can_confirm);
    form.toggle_new_branch();
    let l = form.labels("main", &branches);
    assert_eq!(l.mode, "Branch (existing)");
    assert_eq!(l.hint, "available: feat, main");
    assert_eq!(l.toggle, "Using an existing branch \u{2014} switch to new branch");
}

#[test]
fn create_form_fields_show_their_placeholders() {
    let form = CreateForm::new("");
    assert_eq!(form.branch_field().display(false), ("feature/\u{2026}".to_string(), true));
    assert_eq!(form.dest_field().display(false), ("worktree destination".to_string(), true));
    assert_eq!(form.base_field().display(false), ("base".to_string(), true));
}
