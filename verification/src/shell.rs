//! The app shell's decisions: how a key reaching the window, and one
//! pressed in the detail view, is routed (by section and by which
//! surface holds focus), when the detail
//! view may close, and what the create and remove dialogs ask for.

use crate::model::{WorktreeEntry, WorktreeStatus};
use crate::sections::Section;
use crate::text::{chars_of, eq_str, has_prefix, starts_with, trim, trim_vec};
use vstd::prelude::*;

verus! {

/// Which surface of the detail view holds keyboard focus.
#[derive(Clone, Copy, Debug, PartialEq, Eq, Structural)]
pub enum Focus {
    /// The file list (Working Copy) or the commit list (History).
    List,
    /// The diff pane (Working Copy) or the changed-files list (History).
    Detail,
    /// The detail view's container.
    Container,
    /// Something else (a dialog, the search field).
    Elsewhere,
}

/// What a key pressed in the Working Copy section does.
#[derive(Clone, Copy, Debug, PartialEq, Eq, Structural)]
pub enum WcCommand {
    CloseDetail,
    OpenTerminal,
    Refresh,
    FocusDiff,
    FocusFiles,
    SelectPrev,
    SelectNext,
    StageAll,
    ToggleStage,
    OpenDiscard,
    OpenCreate,
    Commit,
    HunkPrev,
    HunkNext,
    StageHunk,
    OpenHistory,
    /// A history action runs in this worktree: the key would mutate it,
    /// so it is refused with an explanation.
    RefuseHistoryBusy,
    Nothing,
}

/// The keys that stay live while a history action runs: they only move
/// around the view and run no git command.
pub open spec fn navigation_key(key: Seq<char>) -> bool {
    key == "up"@ || key == "down"@ || key == "tab"@ || key == "escape"@ || key == "n"@ || key
        == "1"@
}

/// Routing of a key in the Working Copy section.
pub open spec fn wc_command_of(key: Seq<char>, shift: bool, focus: Focus, history_busy: bool) -> WcCommand {
    if history_busy && key == "t"@ {
        WcCommand::OpenTerminal
    } else if history_busy && key == "2"@ {
        WcCommand::OpenHistory
    } else if history_busy && !navigation_key(key) {
        WcCommand::RefuseHistoryBusy
    } else if focus == Focus::Elsewhere {
        WcCommand::Nothing
    } else {
        let list = focus == Focus::List;
        let diff = focus == Focus::Detail;
        if key == "escape"@ {
            WcCommand::CloseDetail
        } else if key == "t"@ {
            WcCommand::OpenTerminal
        } else if key == "r"@ {
            WcCommand::Refresh
        } else if key == "tab"@ && list {
            WcCommand::FocusDiff
        } else if key == "tab"@ && diff {
            WcCommand::FocusFiles
        } else if key == "up"@ && list {
            WcCommand::SelectPrev
        } else if key == "down"@ && list {
            WcCommand::SelectNext
        } else if key == "s"@ && list && shift {
            WcCommand::StageAll
        } else if key == "s"@ && list {
            WcCommand::ToggleStage
        } else if key == "d"@ && list {
            WcCommand::OpenDiscard
        } else if key == "n"@ {
            WcCommand::OpenCreate
        } else if key == "c"@ && list {
            WcCommand::Commit
        } else if key == "up"@ && diff {
            WcCommand::HunkPrev
        } else if key == "down"@ && diff {
            WcCommand::HunkNext
        } else if key == "s"@ && diff && shift {
            WcCommand::StageAll
        } else if key == "s"@ && diff {
            WcCommand::StageHunk
        } else if key == "2"@ {
            WcCommand::OpenHistory
        } else {
            WcCommand::Nothing
        }
    }
}

/// Routes a key pressed in the Working Copy section (gpui reports a
/// capital as the lowercase key with shift). While a history action runs
/// in the same worktree only the terminal, the History section and
/// navigation stay live.
pub fn wc_command(key: &str, shift: bool, focus: Focus, history_busy: bool) -> (c: WcCommand)
    ensures
        c == wc_command_of(key@, shift, focus, history_busy),
{
    let k = chars_of(key);
    let is = |p: &str| -> (b: bool)
        ensures
            b == (k@ == p@),
        { eq_str(&k, p) };
    if history_busy && is("t") {
        return WcCommand::OpenTerminal;
    }
    if history_busy && is("2") {
        return WcCommand::OpenHistory;
    }
    if history_busy && !(is("up") || is("down") || is("tab") || is("escape") || is("n") || is(
        "1",
    )) {
        return WcCommand::RefuseHistoryBusy;
    }
    if focus == Focus::Elsewhere {
        return WcCommand::Nothing;
    }
    let list = focus == Focus::List;
    let diff = focus == Focus::Detail;
    if is("escape") {
        WcCommand::CloseDetail
    } else if is("t") {
        WcCommand::OpenTerminal
    } else if is("r") {
        WcCommand::Refresh
    } else if is("tab") && list {
        WcCommand::FocusDiff
    } else if is("tab") && diff {
        WcCommand::FocusFiles
    } else if is("up") && list {
        WcCommand::SelectPrev
    } else if is("down") && list {
        WcCommand::SelectNext
    } else if is("s") && list && shift {
        WcCommand::StageAll
    } else if is("s") && list {
        WcCommand::ToggleStage
    } else if is("d") && list {
        WcCommand::OpenDiscard
    } else if is("n") {
        WcCommand::OpenCreate
    } else if is("c") && list {
        WcCommand::Commit
    } else if is("up") && diff {
        WcCommand::HunkPrev
    } else if is("down") && diff {
        WcCommand::HunkNext
    } else if is("s") && diff && shift {
        WcCommand::StageAll
    } else if is("s") && diff {
        WcCommand::StageHunk
    } else if is("2") {
        WcCommand::OpenHistory
    } else {
        WcCommand::Nothing
    }
}

/// What a key pressed in the History section does.
#[derive(Clone, Copy, Debug, PartialEq, Eq, Structural)]
pub enum HistoryCommand {
    CloseDetail,
    ToWorkingCopy,
    OpenTerminal,
    /// Re-enters the section (a revalidation skipped while an action ran
    /// is retried).
    Reopen,
    Refresh,
    CommitPrev,
    CommitNext,
    FilePrev,
    FileNext,
    FocusFiles,
    FocusCommits,
    CopyHash,
    Checkout,
    OpenWorktree,
    LoadMore,
    Nothing,
}

/// Routing of a key in the History section.
pub open spec fn history_command_of(key: Seq<char>, shift: bool, focus: Focus, dialog_open: bool) -> HistoryCommand {
    if dialog_open || focus == Focus::Elsewhere {
        HistoryCommand::Nothing
    } else {
        let list = focus == Focus::List;
        let files = focus == Focus::Detail;
        if key == "escape"@ {
            HistoryCommand::CloseDetail
        } else if key == "1"@ {
            HistoryCommand::ToWorkingCopy
        } else if key == "t"@ {
            HistoryCommand::OpenTerminal
        } else if key == "2"@ {
            HistoryCommand::Reopen
        } else if key == "r"@ {
            HistoryCommand::Refresh
        } else if key == "up"@ && list {
            HistoryCommand::CommitPrev
        } else if key == "down"@ && list {
            HistoryCommand::CommitNext
        } else if key == "up"@ && files {
            HistoryCommand::FilePrev
        } else if key == "down"@ && files {
            HistoryCommand::FileNext
        } else if key == "tab"@ && list {
            HistoryCommand::FocusFiles
        } else if key == "tab"@ && files {
            HistoryCommand::FocusCommits
        } else if key == "y"@ {
            HistoryCommand::CopyHash
        } else if key == "x"@ {
            HistoryCommand::Checkout
        } else if key == "w"@ {
            HistoryCommand::OpenWorktree
        } else if key == "l"@ && shift {
            HistoryCommand::LoadMore
        } else {
            HistoryCommand::Nothing
        }
    }
}

/// Routes a key pressed in the History section; dialogs handle their own
/// keys. The action keys work from any surface of the section.
pub fn history_command(key: &str, shift: bool, focus: Focus, dialog_open: bool) -> (c: HistoryCommand)
    ensures
        c == history_command_of(key@, shift, focus, dialog_open),
{
    if dialog_open || focus == Focus::Elsewhere {
        return HistoryCommand::Nothing;
    }
    let k = chars_of(key);
    let is = |p: &str| -> (b: bool)
        ensures
            b == (k@ == p@),
        { eq_str(&k, p) };
    let list = focus == Focus::List;
    let files = focus == Focus::Detail;
    if is("escape") {
        HistoryCommand::CloseDetail
    } else if is("1") {
        HistoryCommand::ToWorkingCopy
    } else if is("t") {
        HistoryCommand::OpenTerminal
    } else if is("2") {
        HistoryCommand::Reopen
    } else if is("r") {
        HistoryCommand::Refresh
    } else if is("up") && list {
        HistoryCommand::CommitPrev
    } else if is("down") && list {
        HistoryCommand::CommitNext
    } else if is("up") && files {
        HistoryCommand::FilePrev
    } else if is("down") && files {
        HistoryCommand::FileNext
    } else if is("tab") && list {
        HistoryCommand::FocusFiles
    } else if is("tab") && files {
        HistoryCommand::FocusCommits
    } else if is("y") {
        HistoryCommand::CopyHash
    } else if is("x") {
        HistoryCommand::Checkout
    } else if is("w") {
        HistoryCommand::OpenWorktree
    } else if is("l") && shift {
        HistoryCommand::LoadMore
    } else {
        HistoryCommand::Nothing
    }
}

/// Where keyboard focus sits when a key reaches the window.
#[derive(Clone, Copy, Debug, PartialEq, Eq, Structural)]
pub struct RootFocus {
    pub dialog_open: bool,
    pub search_focused: bool,
    pub detail_open: bool,
    /// The home list itself holds focus (not some other text field).
    pub list_focused: bool,
}

/// What a key reaching the window does.
#[derive(Clone, Copy, Debug, PartialEq, Eq, Structural)]
pub enum RootCommand {
    /// The key belongs to a dialog or a text field, or does nothing.
    Ignore,
    /// esc in the search field: the field and the filter are cleared and
    /// focus goes back to the active surface.
    ClearSearch,
    /// enter in the search field: focus goes back, the filter stays.
    LeaveSearch,
    /// The detail view routes the key (`wc_command`, `history_command`).
    Detail,
    SelectPrev,
    SelectNext,
    OpenDetail,
    OpenTerminal,
    OpenRemove,
    FocusSearch,
    OpenCreate,
    Refresh,
}

/// Routing of a key at the window.
pub open spec fn root_command_of(key: Seq<char>, modified: bool, f: RootFocus) -> RootCommand {
    if f.dialog_open {
        RootCommand::Ignore
    } else if f.search_focused {
        if key == "escape"@ {
            RootCommand::ClearSearch
        } else if key == "enter"@ {
            RootCommand::LeaveSearch
        } else {
            RootCommand::Ignore
        }
    } else if modified {
        RootCommand::Ignore
    } else if f.detail_open {
        RootCommand::Detail
    } else if !f.list_focused {
        RootCommand::Ignore
    } else if key == "up"@ {
        RootCommand::SelectPrev
    } else if key == "down"@ {
        RootCommand::SelectNext
    } else if key == "enter"@ {
        RootCommand::OpenDetail
    } else if key == "t"@ {
        RootCommand::OpenTerminal
    } else if key == "backspace"@ || key == "delete"@ {
        RootCommand::OpenRemove
    } else if key == "/"@ {
        RootCommand::FocusSearch
    } else if key == "n"@ {
        RootCommand::OpenCreate
    } else if key == "r"@ {
        RootCommand::Refresh
    } else {
        RootCommand::Ignore
    }
}

/// Routes a key reaching the window: dialogs handle their own keys; in
/// the search field only esc and enter mean anything here; keys with
/// control, the platform modifier or alt are left alone; the detail view
/// routes its own; the home list acts only while it holds focus, so
/// typing in any other field (the empty state's path input, where "/" is
/// unavoidable) is never taken from it.
pub fn root_command(key: &str, control: bool, platform: bool, alt: bool, focus: RootFocus) -> (c:
    RootCommand)
    ensures
        c == root_command_of(key@, control || platform || alt, focus),
{
    let k = chars_of(key);
    let is = |p: &str| -> (b: bool)
        ensures
            b == (k@ == p@),
        { eq_str(&k, p) };
    if focus.dialog_open {
        RootCommand::Ignore
    } else if focus.search_focused {
        if is("escape") {
            RootCommand::ClearSearch
        } else if is("enter") {
            RootCommand::LeaveSearch
        } else {
            RootCommand::Ignore
        }
    } else if control || platform || alt {
        RootCommand::Ignore
    } else if focus.detail_open {
        RootCommand::Detail
    } else if !focus.list_focused {
        RootCommand::Ignore
    } else if is("up") {
        RootCommand::SelectPrev
    } else if is("down") {
        RootCommand::SelectNext
    } else if is("enter") {
        RootCommand::OpenDetail
    } else if is("t") {
        RootCommand::OpenTerminal
    } else if is("backspace") || is("delete") {
        RootCommand::OpenRemove
    } else if is("/") {
        RootCommand::FocusSearch
    } else if is("n") {
        RootCommand::OpenCreate
    } else if is("r") {
        RootCommand::Refresh
    } else {
        RootCommand::Ignore
    }
}

/// Routing of a key in the list-only window, which has no detail view:
/// enter opens the selection in a terminal, and the list takes keys
/// whatever holds focus outside the search field.
pub open spec fn list_window_command_of(key: Seq<char>, modified: bool, dialog_open: bool, search_focused: bool) -> RootCommand {
    if dialog_open {
        RootCommand::Ignore
    } else if search_focused {
        if key == "escape"@ {
            RootCommand::ClearSearch
        } else if key == "enter"@ {
            RootCommand::LeaveSearch
        } else {
            RootCommand::Ignore
        }
    } else if modified {
        RootCommand::Ignore
    } else if key == "up"@ {
        RootCommand::SelectPrev
    } else if key == "down"@ {
        RootCommand::SelectNext
    } else if key == "enter"@ {
        RootCommand::OpenTerminal
    } else if key == "backspace"@ || key == "delete"@ {
        RootCommand::OpenRemove
    } else if key == "/"@ {
        RootCommand::FocusSearch
    } else if key == "n"@ {
        RootCommand::OpenCreate
    } else if key == "r"@ {
        RootCommand::Refresh
    } else {
        RootCommand::Ignore
    }
}

/// Routes a key in the list-only window (see `list_window_command_of`).
pub fn list_window_command(
    key: &str,
    control: bool,
    platform: bool,
    alt: bool,
    dialog_open: bool,
    search_focused: bool,
) -> (c: RootCommand)
    ensures
        c == list_window_command_of(key@, control || platform || alt, dialog_open, search_focused),
{
    let k = chars_of(key);
    let is = |p: &str| -> (b: bool)
        ensures
            b == (k@ == p@),
        { eq_str(&k, p) };
    if dialog_open {
        RootCommand::Ignore
    } else if search_focused {
        if is("escape") {
            RootCommand::ClearSearch
        } else if is("enter") {
            RootCommand::LeaveSearch
        } else {
            RootCommand::Ignore
        }
    } else if control || platform || alt {
        RootCommand::Ignore
    } else if is("up") {
        RootCommand::SelectPrev
    } else if is("down") {
        RootCommand::SelectNext
    } else if is("enter") {
        RootCommand::OpenTerminal
    } else if is("backspace") || is("delete") {
        RootCommand::OpenRemove
    } else if is("/") {
        RootCommand::FocusSearch
    } else if is("n") {
        RootCommand::OpenCreate
    } else if is("r") {
        RootCommand::Refresh
    } else {
        RootCommand::Ignore
    }
}

/// The search field filters the home list: focusing it while the detail
/// view is open, a dialog is up, or no repository is loaded (where it is
/// not shown) would trap the keyboard.
pub fn search_focusable(dialog_open: bool, detail_open: bool, has_repo: bool) -> (b: bool)
    ensures
        b == (!dialog_open && !detail_open && has_repo),
{
    !dialog_open && !detail_open && has_repo
}

/// What pressing esc in the detail view comes to.
pub enum CloseStep {
    /// Back to the home list (which reloads).
    Close,
    /// A commit editor waits on the user: esc abandons the commit.
    AbandonCommit,
    /// An operation is finishing: the visible section says so (with
    /// `text`, or its own busy message when `None`), and the view stays.
    TellBusy { text: Option<String>, in_history: bool },
}

/// Decides esc in the detail view. A history action in flight would lose
/// its completion if the view closed; a running working-copy operation
/// would be orphaned, except a commit editor, which esc abandons.
/// `history_action` is the running history action's name when one runs
/// (`Some(None)` when it has none).
pub fn close_step(
    section: Section,
    history_action: Option<Option<&str>>,
    wc_mutating: bool,
    editor_active: bool,
) -> (s: CloseStep)
    ensures
        match history_action {
            Some(name) => s matches CloseStep::TellBusy { text: Some(t), in_history } && t@ == "Busy — "@
                + match name {
                Some(n) => n@,
                None => "history action"@,
            } + " is finishing in this worktree"@ && in_history == (section != Section::WorkingCopy),
            None => if wc_mutating {
                if editor_active {
                    s is AbandonCommit
                } else {
                    s matches CloseStep::TellBusy { text: None, in_history } && in_history == (
                    section == Section::History)
                }
            } else {
                s is Close
            },
        },
{
    match history_action {
        Some(name) => {
            let mut t = String::from_str("Busy — ");
            match name {
                Some(n) => t.append(n),
                None => t.append("history action"),
            }
            t.append(" is finishing in this worktree");
            CloseStep::TellBusy { text: Some(t), in_history: section != Section::WorkingCopy }
        },
        None => if wc_mutating {
            if editor_active {
                CloseStep::AbandonCommit
            } else {
                CloseStep::TellBusy { text: None, in_history: section == Section::History }
            }
        } else {
            CloseStep::Close
        },
    }
}

/// What the create dialog's confirm asks the home list to add.
pub struct CreateRequest {
    pub path: String,
    /// The new branch, or `None` to check out `base` itself.
    pub branch: Option<String>,
    pub base: String,
}

pub open spec fn dash_text() -> Seq<char> {
    "Names may not start with '-'"@
}

/// What the create dialog's confirm gives for the field texts.
pub open spec fn create_outcome(
    r: Result<Option<CreateRequest>, String>,
    branch: Seq<char>,
    base: Seq<char>,
    dest: Seq<char>,
    new_branch: bool,
    default_base: Seq<char>,
) -> bool {
    let b = trim(branch);
    let ba = trim(base);
    let d = trim(dest);
    if b.len() == 0 || d.len() == 0 {
        r == Ok::<Option<CreateRequest>, String>(None)
    } else if starts_with(b, "-"@) || starts_with(d, "-"@) || starts_with(ba, "-"@) {
        r matches Err(m) && m@ == dash_text()
    } else {
        r matches Ok(Some(q)) && q.path@ == d && if new_branch {
            (q.branch matches Some(n) && n@ == b) && q.base@ == (if ba.len() == 0 {
                default_base
            } else {
                ba
            })
        } else {
            q.branch is None && q.base@ == b
        }
    }
}

/// The create dialog's confirm: nothing happens until the branch and the
/// destination are filled in; a name starting with '-' is refused (on top
/// of the `--` separators of the argv); a new branch starts from the
/// base (the repository's default when left empty), while an existing
/// branch is checked out as it is.
pub fn create_request(
    branch: &str,
    base: &str,
    dest: &str,
    new_branch: bool,
    default_base: &str,
) -> (r: Result<Option<CreateRequest>, String>)
    ensures
        create_outcome(r, branch@, base@, dest@, new_branch, default_base@),
{
    let b = trim_vec(&chars_of(branch));
    let ba = trim_vec(&chars_of(base));
    let d = trim_vec(&chars_of(dest));
    if b.len() == 0 || d.len() == 0 {
        return Ok(None);
    }
    if has_prefix(&b, "-") || has_prefix(&d, "-") || has_prefix(&ba, "-") {
        return Err(String::from_str("Names may not start with '-'"));
    }
    let path = crate::text::string_from(&d);
    if new_branch {
        let base_arg = if ba.len() == 0 {
            String::from_str(default_base)
        } else {
            crate::text::string_from(&ba)
        };
        Ok(Some(CreateRequest { path, branch: Some(crate::text::string_from(&b)), base: base_arg }))
    } else {
        Ok(Some(CreateRequest { path, branch: None, base: crate::text::string_from(&b) }))
    }
}

/// What the remove dialog shows for a worktree.
pub struct RemoveDialog {
    pub path: String,
    /// The branch, else the head commit, else "?".
    pub branch_label: String,
    /// Only a worktree known to have uncommitted changes gets the warning
    /// (a pending or unavailable status is no such claim).
    pub dirty: bool,
    pub force: bool,
}

/// The remove dialog for the selected worktree.
pub fn remove_dialog_of(entry: &WorktreeEntry) -> (d: RemoveDialog)
    ensures
        d.path@ == entry.path@,
        d.branch_label@ == match (entry.branch, entry.head) {
            (Some(b), _) => b@,
            (None, Some(h)) => h@,
            (None, None) => "?"@,
        },
        d.dirty == (entry.status is Dirty),
        !d.force,
{
    let branch_label = match &entry.branch {
        Some(b) => b.clone(),
        None => match &entry.head {
            Some(h) => h.clone(),
            None => String::from_str("?"),
        },
    };
    let dirty = match entry.status {
        WorktreeStatus::Dirty { .. } => true,
        _ => false,
    };
    RemoveDialog { path: entry.path.clone(), branch_label, dirty, force: false }
}

/// How the sections of an open detail view keep each other current: the
/// section showing, whether the History section was opened, and whether
/// its log went stale (a commit made since it last loaded).
pub struct DetailSync {
    pub section: Section,
    pub history_open: bool,
    pub history_stale: bool,
}

/// What the stores must reload after a change in one of them.
#[derive(Clone, Copy, Debug, PartialEq, Eq, Structural)]
pub struct Reloads {
    /// The home worktree list.
    pub home: bool,
    /// The History section's log, now.
    pub history: bool,
    /// The Working Copy section's snapshot.
    pub working_copy: bool,
}

impl DetailSync {
    /// A drill-in starts on the Working Copy section.
    pub fn open_detail() -> (d: Self)
        ensures
            d.section == Section::WorkingCopy,
            !d.history_open,
            !d.history_stale,
    {
        DetailSync { section: Section::WorkingCopy, history_open: false, history_stale: false }
    }

    /// The Working Copy store changed. A mutation reloads the home list;
    /// a commit also makes the log stale: reloaded now when History is on
    /// screen and idle, else when it is next entered.
    pub fn working_copy_changed(&mut self, mutated: bool, history_changed: bool, history_busy: bool) -> (r:
        Reloads)
        ensures
            r.home == mutated,
            !r.working_copy,
            final(self).section == old(self).section,
            final(self).history_open == old(self).history_open,
            r.history == (mutated && history_changed && old(self).section == Section::History
                && old(self).history_open && !history_busy),
            final(self).history_stale == (old(self).history_stale || (mutated && history_changed
                && !r.history)),
            (*final(self), r) == working_copy_step(*old(self), mutated, history_changed, history_busy),
    {
        let mut r = Reloads { home: false, history: false, working_copy: false };
        if mutated {
            r.home = true;
            if history_changed {
                if self.section == Section::History && self.history_open {
                    if !history_busy {
                        r.history = true;
                    } else {
                        self.history_stale = true;
                    }
                } else {
                    self.history_stale = true;
                }
            }
        }
        r
    }

    /// The History store changed. An action that changed the worktree list
    /// reloads the home list; a checkout also rewrote this worktree's
    /// files (the Working Copy section reloads) and re-ran the log itself.
    pub fn history_changed(&mut self, mutated: bool, files_changed: bool) -> (r: Reloads)
        ensures
            r.home == mutated,
            r.working_copy == (mutated && files_changed),
            !r.history,
            final(self).section == old(self).section,
            final(self).history_open == old(self).history_open,
            final(self).history_stale == (old(self).history_stale && !(mutated && files_changed)),
    {
        let mut r = Reloads { home: false, history: false, working_copy: false };
        if mutated {
            r.home = true;
            if files_changed {
                r.working_copy = true;
                self.history_stale = false;
            }
        }
        r
    }

    /// The History section is entered. A fresh store loads the log itself;
    /// an existing one reloads when its log is stale, unless an action is
    /// in flight (the reload then stays pending). Returns whether the log
    /// reloads now.
    pub fn enter_history(&mut self, busy: bool) -> (reload: bool)
        ensures
            final(self).section == Section::History,
            final(self).history_open,
            reload == (old(self).history_open && old(self).history_stale && !busy),
            final(self).history_stale == (old(self).history_open && old(self).history_stale
                && busy),
            (*final(self), reload) == enter_step(*old(self), busy),
    {
        self.section = Section::History;
        if !self.history_open {
            self.history_open = true;
            self.history_stale = false;
            return false;
        }
        if self.history_stale && !busy {
            self.history_stale = false;
            return true;
        }
        false
    }

    /// Back to the Working Copy section.
    pub fn enter_working_copy(&mut self)
        ensures
            final(self).section == Section::WorkingCopy,
            final(self).history_open == old(self).history_open,
            final(self).history_stale == old(self).history_stale,
    {
        self.section = Section::WorkingCopy;
    }
}

/// A commit made in the Working Copy section never leaves the History
/// log silently out of date: it is reloaded at once, or marked stale and
/// reloaded on the next entry into the section with no action in flight.
pub proof fn commit_reaches_history(d: DetailSync, history_busy: bool, entry_busy: bool)
    ensures
        ({
            let (after, r) = working_copy_step(d, true, true, history_busy);
            &&& r.home
            &&& (r.history || after.history_stale)
            &&& (after.history_stale && after.history_open && !entry_busy) ==> enter_step(
                after,
                entry_busy,
            ).1
        }),
{
}

/// What `DetailSync::working_copy_changed` does, as a function.
pub open spec fn working_copy_step(d: DetailSync, mutated: bool, history_changed: bool, busy: bool) -> (
    DetailSync,
    Reloads,
) {
    let now = mutated && history_changed && d.section == Section::History && d.history_open && !busy;
    (
        DetailSync {
            history_stale: d.history_stale || (mutated && history_changed && !now),
            ..d
        },
        Reloads { home: mutated, history: now, working_copy: false },
    )
}

/// What `DetailSync::enter_history` does, as a function.
pub open spec fn enter_step(d: DetailSync, busy: bool) -> (DetailSync, bool) {
    (
        DetailSync {
            section: Section::History,
            history_open: true,
            history_stale: d.history_open && d.history_stale && busy,
        },
        d.history_open && d.history_stale && !busy,
    )
}

} // verus!
