use worktree_tool::model::WorktreeStatus;
use worktree_tool::views::badges::{arrows, letter_tone, status_badge, status_tone, Tone};

#[test]
fn badges_name_the_status() {
    assert_eq!(status_badge(&WorktreeStatus::Pending), ("…".to_string(), Tone::Dim));
    assert_eq!(status_badge(&WorktreeStatus::Unavailable("gone".into())), ("unavailable".to_string(), Tone::Red));
    assert_eq!(status_badge(&WorktreeStatus::Clean { ahead: 0, behind: 0 }), ("clean".to_string(), Tone::Dim));
    assert_eq!(status_badge(&WorktreeStatus::Clean { ahead: 2, behind: 0 }), ("↑2 ".to_string(), Tone::Dim));
    assert_eq!(status_badge(&WorktreeStatus::Clean { ahead: 1, behind: 3 }), ("↑1 ↓3".to_string(), Tone::Dim));
    assert_eq!(
        status_badge(&WorktreeStatus::Dirty { staged: 1, unstaged: 2, untracked: 3, ahead: 4, behind: 0 }),
        ("● 1 staged · 2 modified · 3 untracked · ↑4".to_string(), Tone::Yellow)
    );
    assert_eq!(
        status_badge(&WorktreeStatus::Dirty { staged: 0, unstaged: 0, untracked: 5, ahead: 0, behind: 0 }),
        ("● 5 untracked".to_string(), Tone::Yellow)
    );
    assert_eq!(arrows(0, 7), "↓7");
}

#[test]
fn letters_take_their_tones() {
    assert_eq!(status_tone('A'), Tone::Green);
    assert_eq!(status_tone('R'), Tone::Yellow);
    assert_eq!(status_tone('U'), Tone::Red);
    assert_eq!(status_tone('?'), Tone::Dim);
    assert_eq!(letter_tone('D'), Tone::Red);
    assert_eq!(letter_tone('M'), Tone::Yellow);
}
