use worktree_tool::text_input::{AreaKey, TextArea, TextField};

fn typed(f: &mut TextField, s: &str) {
    for c in s.chars() {
        f.key(&c.to_string(), None, false, false);
    }
}

#[test]
fn field_types_edits_and_moves() {
    let mut f = TextField::new("Search… (branch or path)");
    assert_eq!(f.display(true), ("Search… (branch or path)".to_string(), true));
    typed(&mut f, "feat");
    assert_eq!(f.value(), "feat");
    f.key("left", None, false, false);
    f.key("left", None, false, false);
    f.key("space", None, false, false);
    assert_eq!(f.value(), "fe at");
    assert_eq!(f.display(true).0, "fe |at");
    assert_eq!(f.display(false), ("fe at".to_string(), false));
    f.key("backspace", None, false, false);
    f.key("delete", None, false, false);
    assert_eq!(f.value(), "fet");
    f.key("home", None, false, false);
    f.key("x", Some("X"), false, false);
    assert_eq!(f.value(), "Xfet");
    // chords belong to the surrounding view
    f.key("a", None, true, false);
    f.key("end", None, false, false);
    f.key("enter", None, false, false);
    assert_eq!(f.display(true).0, "Xfet|");
}

#[test]
fn field_keeps_the_byte_offset_of_a_replaced_value() {
    let mut f = TextField::new("base");
    typed(&mut f, "éé");
    // the cursor sits after 4 bytes: it stays there in the new value
    f.set_value("abcdef");
    f.key("space", None, false, false);
    assert_eq!(f.value(), "abcd ef");
    f.set_value("");
    assert_eq!(f.value(), "");
    assert_eq!(f.display(true).1, true);
}

#[test]
fn area_edits_across_lines() {
    let mut a = TextArea::new();
    for c in "ab".chars() {
        a.key(&c.to_string(), None, false, false, false);
    }
    assert_eq!(a.key("enter", None, false, false, false), AreaKey::Consumed);
    for c in "cdef".chars() {
        a.key(&c.to_string(), None, false, false, false);
    }
    assert_eq!(a.value(), "ab\ncdef");
    assert_eq!(a.line_col(), (1, 4));
    a.key("up", None, false, false, false);
    assert_eq!(a.line_col(), (0, 2));
    a.key("down", None, false, false, false);
    assert_eq!(a.line_col(), (1, 2));
    a.key("home", None, false, false, false);
    assert_eq!(a.line_col(), (1, 0));
    a.key("backspace", None, false, false, false);
    assert_eq!(a.value(), "abcdef");
    assert_eq!(a.line_col(), (0, 2));
    a.key("end", None, false, false, false);
    assert_eq!(a.line_col(), (0, 6));
    a.key("tab", None, false, false, false);
    assert_eq!(a.value(), "abcdef\t");
    a.key("left", None, false, false, false);
    a.key("delete", None, false, false, false);
    assert_eq!(a.value(), "abcdef");
    // confirm and cancel chords bubble; paste asks for the clipboard
    assert_eq!(a.key("enter", None, false, true, false), AreaKey::Bubble);
    assert_eq!(a.key("escape", None, false, false, false), AreaKey::Bubble);
    assert_eq!(a.key("v", None, true, false, false), AreaKey::Paste);
    a.paste("x\r\ny");
    assert_eq!(a.value(), "abcdefx\ny");
    assert_eq!(a.line_col(), (1, 1));
}

#[test]
fn area_window_follows_the_cursor() {
    let mut a = TextArea::new();
    let text: Vec<String> = (0..20).map(|i| format!("l{i}")).collect();
    a.set_value(&text.join("\n"));
    assert_eq!(a.line_col(), (0, 0));
    let rows = a.visible_rows(true);
    assert_eq!(rows.len(), 12);
    assert_eq!(rows[0], "|l0");
    assert_eq!(rows[1], "l1");
    for _ in 0..15 {
        a.key("down", None, false, false, false);
    }
    let rows = a.visible_rows(false);
    assert_eq!(rows.len(), 12);
    assert_eq!(rows[0], "l4");
    assert_eq!(rows[11], "l15");
    a.set_value("one\n\nthree");
    let rows = a.visible_rows(false);
    assert_eq!(rows, vec!["one".to_string(), " ".to_string(), "three".to_string()]);
}

#[test]
fn area_value_replacement_snaps_to_a_character() {
    let mut a = TextArea::new();
    a.set_value("ab");
    a.key("right", None, false, false, false);
    // one byte in: inside the two-byte é, pulled back to its start
    a.set_value("éx");
    a.key("space", None, false, false, false);
    assert_eq!(a.value(), " éx");
}
