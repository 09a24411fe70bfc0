//! The dialogs' state and what they show: the interactive-rebase todo
//! rows and their keys, the lines of the confirm dialogs, the settings
//! rows and the remotes list.

use crate::engine::remotes::RemoteInfo;
use crate::engine::rewrite::TodoAction;
use crate::shell::RemoveDialog;
use crate::terminal::{describe_launch, describe_of, InstalledTerminal};
use crate::text::{
    chars_of, decimal, eq_str, has_prefix, opt_text, starts_with, trim, trim_vec, u64_to_string,
};
use vstd::prelude::*;

verus! {

/// One todo row; its action changes in place through the dialog keys.
#[derive(Clone, Debug, PartialEq, Eq)]
pub struct RebaseEntry {
    pub oid: String,
    pub short: String,
    pub subject: String,
    pub action: TodoAction,
}

/// What a key did to the dialog.
#[derive(Clone, Copy, Debug, PartialEq, Eq, Structural)]
pub enum RebaseKey {
    /// The rows or the cursor changed (or nothing did).
    Stay,
    /// `escape`: the dialog closes without rebasing.
    Cancel,
    /// `enter`: the plan is confirmed.
    Confirm,
}

/// `d` toggles a row between pick and drop; `f` between pick and fixup
/// (a drop or fixup row goes back to pick).
pub open spec fn toggled(a: TodoAction, to: TodoAction) -> TodoAction {
    if a == TodoAction::Pick {
        to
    } else {
        TodoAction::Pick
    }
}

pub open spec fn actions(es: Seq<RebaseEntry>) -> Seq<TodoAction> {
    es.map_values(|e: RebaseEntry| e.action)
}

/// Applies a key: `up`/`down` move the cursor within the rows, `d`/`f`
/// toggle the selected row's action, `escape` cancels, `enter` confirms;
/// other keys do nothing.
pub fn rebase_key(entries: &mut Vec<RebaseEntry>, selected: &mut usize, key: &str) -> (r: RebaseKey)
    ensures
        final(entries)@.len() == old(entries)@.len(),
        forall|i: int|
            0 <= i < old(entries)@.len() ==> (#[trigger] final(entries)@[i]).oid == old(
                entries,
            )@[i].oid && final(entries)@[i].short == old(entries)@[i].short
                && final(entries)@[i].subject == old(entries)@[i].subject,
        !(key@ == "escape"@ || key@ == "enter"@ || key@ == "up"@ || key@ == "down"@ || key@
            == "d"@ || key@ == "f"@) ==> r == RebaseKey::Stay && *final(selected) == *old(
            selected,
        ) && actions(final(entries)@) == actions(old(entries)@),
        key@ == "escape"@ ==> r == RebaseKey::Cancel && *final(selected) == *old(selected)
            && actions(final(entries)@) == actions(old(entries)@),
        key@ == "enter"@ ==> r == RebaseKey::Confirm && *final(selected) == *old(selected)
            && actions(final(entries)@) == actions(old(entries)@),
        key@ == "up"@ ==> r == RebaseKey::Stay && *final(selected) == (if *old(selected) > 0 {
            (*old(selected) - 1) as usize
        } else {
            *old(selected)
        }) && actions(final(entries)@) == actions(old(entries)@),
        key@ == "down"@ ==> r == RebaseKey::Stay && *final(selected) == (if *old(selected) + 1
            < old(entries)@.len() {
            (*old(selected) + 1) as usize
        } else {
            *old(selected)
        }) && actions(final(entries)@) == actions(old(entries)@),
        key@ == "d"@ ==> r == RebaseKey::Stay && *final(selected) == *old(selected) && actions(
            final(entries)@,
        ) == (if *old(selected) < old(entries)@.len() {
            actions(old(entries)@).update(
                *old(selected) as int,
                toggled(old(entries)@[*old(selected) as int].action, TodoAction::Drop),
            )
        } else {
            actions(old(entries)@)
        }),
        key@ == "f"@ ==> r == RebaseKey::Stay && *final(selected) == *old(selected) && actions(
            final(entries)@,
        ) == (if *old(selected) < old(entries)@.len() {
            actions(old(entries)@).update(
                *old(selected) as int,
                toggled(old(entries)@[*old(selected) as int].action, TodoAction::Fixup),
            )
        } else {
            actions(old(entries)@)
        }),
{
    proof {
        reveal_strlit("escape");
        reveal_strlit("enter");
        reveal_strlit("up");
        reveal_strlit("down");
        reveal_strlit("d");
        reveal_strlit("f");
        assert("escape"@.len() == 6);
        assert("enter"@.len() == 5);
        assert("down"@.len() == 4);
        assert("up"@.len() == 2);
        assert("d"@.len() == 1 && "f"@.len() == 1);
        assert("d"@ != "f"@) by {
            assert("d"@[0] != "f"@[0]);
        }
    }
    let k = crate::text::chars_of(key);
    if crate::text::eq_str(&k, "escape") {
        return RebaseKey::Cancel;
    }
    if crate::text::eq_str(&k, "enter") {
        return RebaseKey::Confirm;
    }
    if crate::text::eq_str(&k, "up") {
        if *selected > 0 {
            *selected = *selected - 1;
        }
        return RebaseKey::Stay;
    }
    if crate::text::eq_str(&k, "down") {
        if *selected < entries.len() && *selected + 1 < entries.len() {
            *selected = *selected + 1;
        }
        return RebaseKey::Stay;
    }
    let to = if crate::text::eq_str(&k, "d") {
        TodoAction::Drop
    } else if crate::text::eq_str(&k, "f") {
        TodoAction::Fixup
    } else {
        return RebaseKey::Stay;
    };
    if *selected < entries.len() {
        let i = *selected;
        let ghost before = entries@;
        let current = entries[i].action;
        let next = match current {
            TodoAction::Pick => to,
            _ => TodoAction::Pick,
        };
        let e = RebaseEntry {
            oid: entries[i].oid.clone(),
            short: entries[i].short.clone(),
            subject: entries[i].subject.clone(),
            action: next,
        };
        entries.set(i, e);
        proof {
            assert(actions(entries@) =~= actions(before).update(i as int, toggled(current, to)));
        }
    }
    RebaseKey::Stay
}

pub open spec fn count_action(es: Seq<RebaseEntry>, a: TodoAction) -> nat
    decreases es.len(),
{
    if es.len() == 0 {
        0
    } else {
        count_action(es.drop_last(), a) + if es.last().action == a {
            1nat
        } else {
            0nat
        }
    }
}

/// The dialog's title summary: "N commits", then ", D dropped" and
/// ", F fixupped" when there are any.
pub open spec fn rebase_summary_of(es: Seq<RebaseEntry>) -> Seq<char> {
    let d = count_action(es, TodoAction::Drop);
    let f = count_action(es, TodoAction::Fixup);
    decimal(es.len()) + " commits"@ + (if d > 0 {
        ", "@ + decimal(d) + " dropped"@
    } else {
        seq![]
    }) + (if f > 0 {
        ", "@ + decimal(f) + " fixupped"@
    } else {
        seq![]
    })
}

fn count_of(entries: &Vec<RebaseEntry>, a: TodoAction) -> (n: usize)
    ensures
        n == count_action(entries@, a),
{
    let mut n: usize = 0;
    let mut i: usize = 0;
    proof {
        assert(entries@.take(0) =~= Seq::<RebaseEntry>::empty());
    }
    while i < entries.len()
        invariant
            i <= entries@.len(),
            n == count_action(entries@.take(i as int), a),
            n <= i,
        decreases entries@.len() - i,
    {
        proof {
            assert(entries@.take(i + 1).drop_last() =~= entries@.take(i as int));
            assert(entries@.take(i + 1).last() == entries@[i as int]);
        }
        if entries[i].action == a {
            n += 1;
        }
        i += 1;
    }
    proof {
        assert(entries@.take(entries@.len() as int) =~= entries@);
    }
    n
}

/// Builds `rebase_summary_of`.
pub fn rebase_summary(entries: &Vec<RebaseEntry>) -> (s: String)
    ensures
        s@ == rebase_summary_of(entries@),
{
    let d = count_of(entries, TodoAction::Drop);
    let f = count_of(entries, TodoAction::Fixup);
    let mut s = u64_to_string(entries.len() as u64);
    s.append(" commits");
    if d > 0 {
        s.append(", ");
        s.append(u64_to_string(d as u64).as_str());
        s.append(" dropped");
    }
    if f > 0 {
        s.append(", ");
        s.append(u64_to_string(f as u64).as_str());
        s.append(" fixupped");
    }
    s
}

/// What a key does in a dialog with a confirm and a cancel button.
#[derive(Clone, Copy, Debug, PartialEq, Eq, Structural)]
pub enum DialogKey {
    Cancel,
    Confirm,
    /// The key is left to the dialog's fields.
    Other,
}

/// esc cancels, enter confirms.
pub fn dialog_key(key: &str) -> (k: DialogKey)
    ensures
        k == (if key@ == "escape"@ {
            DialogKey::Cancel
        } else if key@ == "enter"@ {
            DialogKey::Confirm
        } else {
            DialogKey::Other
        }),
{
    let k = chars_of(key);
    if eq_str(&k, "escape") {
        DialogKey::Cancel
    } else if eq_str(&k, "enter") {
        DialogKey::Confirm
    } else {
        DialogKey::Other
    }
}

/// The settings dialog has nothing to confirm: esc and enter both close
/// it.
pub fn settings_closes(key: &str) -> (b: bool)
    ensures
        b == (key@ == "escape"@ || key@ == "enter"@),
{
    let k = chars_of(key);
    eq_str(&k, "escape") || eq_str(&k, "enter")
}

/// In the commit editor enter makes a new line: the commit is confirmed
/// with cmd/ctrl+enter; esc cancels.
pub fn commit_editor_key(key: &str, control: bool, platform: bool) -> (k: DialogKey)
    ensures
        k == (if key@ == "enter"@ && (control || platform) {
            DialogKey::Confirm
        } else if key@ == "escape"@ {
            DialogKey::Cancel
        } else {
            DialogKey::Other
        }),
{
    let k = chars_of(key);
    if eq_str(&k, "enter") && (control || platform) {
        DialogKey::Confirm
    } else if eq_str(&k, "escape") {
        DialogKey::Cancel
    } else {
        DialogKey::Other
    }
}

/// The commit editor's note under its title.
pub open spec fn commit_note_of(staged_summary: Seq<char>, comment: Seq<char>) -> Seq<char> {
    staged_summary + " \u{2014} lines starting with "@ + comment + " are removed from the message"@
}

/// The note under the commit editor's title; `comment` is the comment
/// character as the dialog quotes it.
pub fn commit_note(staged_summary: &str, comment: &str) -> (s: String)
    ensures
        s@ == commit_note_of(staged_summary@, comment@),
{
    let mut s = String::from_str(staged_summary);
    s.append(" \u{2014} lines starting with ");
    s.append(comment);
    s.append(" are removed from the message");
    s
}

/// The branch-name dialog (new branch or rename): it confirms a trimmed,
/// non-empty name that does not start with '-'; its button says
/// "Rename" when renaming.
pub fn branch_name_state(name: &str, renaming: bool) -> (r: (bool, String))
    ensures
        r.0 == (trim(name@).len() > 0 && !starts_with(trim(name@), "-"@)),
        r.1@ == (if renaming {
            "Rename"@
        } else {
            "Create"@
        }),
{
    let v = trim_vec(&chars_of(name));
    let ok = v.len() > 0 && !has_prefix(&v, "-");
    let label = if renaming {
        String::from_str("Rename")
    } else {
        String::from_str("Create")
    };
    (ok, label)
}

/// The remove dialog's lines.
pub struct RemoveLines {
    pub branch: String,
    pub path: String,
    pub warning: String,
    /// The force switch, shown for a dirty worktree only.
    pub force: Option<String>,
}

pub open spec fn force_line_of(force: bool) -> Seq<char> {
    "["@ + (if force {
        "x"@
    } else {
        " "@
    }) + "] Force removal (discards uncommitted changes)"@
}

pub fn remove_lines(d: &RemoveDialog) -> (l: RemoveLines)
    ensures
        l.branch@ == "Branch: "@ + d.branch_label@,
        l.path@ == "Path: "@ + d.path@,
        l.warning@ == (if d.dirty {
            "This worktree contains uncommitted changes."@
        } else {
            "This worktree is clean."@
        }),
        match l.force {
            Some(f) => d.dirty && f@ == force_line_of(d.force),
            None => !d.dirty,
        },
{
    let mut branch = String::from_str("Branch: ");
    branch.append(d.branch_label.as_str());
    let mut path = String::from_str("Path: ");
    path.append(d.path.as_str());
    let warning = if d.dirty {
        String::from_str("This worktree contains uncommitted changes.")
    } else {
        String::from_str("This worktree is clean.")
    };
    let force = if d.dirty {
        let mut f = String::from_str("[");
        f.append(if d.force {
            "x"
        } else {
            " "
        });
        f.append("] Force removal (discards uncommitted changes)");
        Some(f)
    } else {
        None
    };
    RemoveLines { branch, path, warning, force }
}

/// The discard dialog's lines: the path, that it cannot be undone, and
/// for an untracked file that the file itself goes.
pub fn discard_lines(path: &str, untracked: bool) -> (v: Vec<String>)
    ensures
        v@.len() == (if untracked {
            3int
        } else {
            2int
        }),
        v@[0]@ == "Path: "@ + path@,
        v@[1]@ == "This cannot be undone."@,
        untracked ==> v@[2]@ == "The file itself will be deleted."@,
{
    let mut first = String::from_str("Path: ");
    first.append(path);
    let mut v: Vec<String> = Vec::new();
    v.push(first);
    v.push(String::from_str("This cannot be undone."));
    if untracked {
        v.push(String::from_str("The file itself will be deleted."));
    }
    v
}

/// One installed terminal as the settings dialog lists it.
pub struct SettingsRow {
    pub id: String,
    pub name: String,
    /// How it is launched.
    pub detail: String,
    pub selected: bool,
}

/// The settings dialog's terminal choice and notes.
pub struct SettingsLines {
    /// The "Automatic" row is highlighted: nothing is chosen, or the
    /// chosen terminal is no longer installed (which behaves as
    /// automatic).
    pub auto_selected: bool,
    pub rows: Vec<SettingsRow>,
    pub config: String,
    pub saved: Option<String>,
}

pub open spec fn installed_id(ts: Seq<InstalledTerminal>, id: Seq<char>) -> bool {
    exists|i: int| 0 <= i < ts.len() && (#[trigger] ts[i]).id@ == id
}

pub open spec fn auto_selected_of(ts: Seq<InstalledTerminal>, selected: Option<Seq<char>>) -> bool {
    match selected {
        None => true,
        Some(s) => !installed_id(ts, s),
    }
}

fn some_id_is(ts: &Vec<InstalledTerminal>, id: &str) -> (b: bool)
    ensures
        b == installed_id(ts@, id@),
{
    let mut i: usize = 0;
    while i < ts.len()
        invariant
            i <= ts@.len(),
            forall|j: int| 0 <= j < i ==> (#[trigger] ts@[j]).id@ != id@,
        decreases ts@.len() - i,
    {
        let c = chars_of(ts[i].id.as_str());
        if eq_str(&c, id) {
            return true;
        }
        i += 1;
    }
    false
}

/// The settings dialog: the "Automatic" row, one row per installed
/// terminal in registry order (highlighted when it is the saved choice),
/// the config file, and where the last choice was saved (or why saving
/// failed), shown once there is such a note.
pub fn settings_lines(
    terminals: &Vec<InstalledTerminal>,
    selected: Option<&str>,
    config_path: &str,
    saved_to: Option<&str>,
) -> (l: SettingsLines)
    ensures
        l.auto_selected == auto_selected_of(terminals@, opt_text(selected)),
        l.rows@.len() == terminals@.len(),
        forall|i: int|
            0 <= i < terminals@.len() ==> {
                let r = #[trigger] l.rows@[i];
                let t = terminals@[i];
                &&& r.id@ == t.id@
                &&& r.name@ == t.name@
                &&& r.detail@ == describe_of(t.launch@)
                &&& r.selected == (!l.auto_selected && opt_text(selected) == Some(t.id@))
            },
        l.config@ == "Config file: "@ + config_path@,
        match opt_text(saved_to) {
            Some(n) => if n.len() > 0 {
                l.saved matches Some(s) && s@ == "Saved: "@ + n
            } else {
                l.saved is None
            },
            None => l.saved is None,
        },
{
    let auto = match selected {
        None => true,
        Some(s) => !some_id_is(terminals, s),
    };
    let mut rows: Vec<SettingsRow> = Vec::new();
    let mut i: usize = 0;
    while i < terminals.len()
        invariant
            i <= terminals@.len(),
            rows@.len() == i,
            auto == auto_selected_of(terminals@, opt_text(selected)),
            forall|j: int|
                0 <= j < i ==> {
                    let r = #[trigger] rows@[j];
                    let t = terminals@[j];
                    &&& r.id@ == t.id@
                    &&& r.name@ == t.name@
                    &&& r.detail@ == describe_of(t.launch@)
                    &&& r.selected == (!auto && opt_text(selected) == Some(t.id@))
                },
        decreases terminals@.len() - i,
    {
        let t = &terminals[i];
        let chosen = match selected {
            Some(s) => eq_str(&chars_of(t.id.as_str()), s),
            None => false,
        };
        rows.push(
            SettingsRow {
                id: t.id.clone(),
                name: t.name.clone(),
                detail: describe_launch(&t.launch),
                selected: !auto && chosen,
            },
        );
        i += 1;
    }
    let mut config = String::from_str("Config file: ");
    config.append(config_path);
    let saved = match saved_to {
        Some(n) => if n.unicode_len() > 0 {
            let mut s = String::from_str("Saved: ");
            s.append(n);
            Some(s)
        } else {
            None
        },
        None => None,
    };
    SettingsLines { auto_selected: auto, rows, config, saved }
}

/// The note a settings choice leaves: where it was saved, or why saving
/// failed.
pub fn saved_note(result: Result<String, String>) -> (s: String)
    ensures
        s@ == match result {
            Ok(path) => path@,
            Err(e) => "save failed: "@ + e@,
        },
{
    match result {
        Ok(path) => path,
        Err(e) => {
            let mut s = String::from_str("save failed: ");
            s.append(e.as_str());
            s
        },
    }
}

/// What a key does in the remotes dialog.
#[derive(Clone, Debug, PartialEq, Eq)]
pub enum RemotesKey {
    Close,
    /// The cursor moved, or nothing happened.
    Stay,
    /// `a`: the add-remote dialog opens.
    Add,
    /// `d` or delete: the remove dialog opens for the named remote.
    Remove(String),
}

/// Applies a key to the remotes list: esc closes, up/down move within
/// the rows, `a` adds, `d`/delete removes the selected remote (when
/// there is one).
pub fn remotes_key(entries: &Vec<RemoteInfo>, selected: &mut usize, key: &str) -> (r: RemotesKey)
    ensures
        key@ == "escape"@ ==> r == RemotesKey::Close && *final(selected) == *old(selected),
        key@ == "up"@ ==> r == RemotesKey::Stay && *final(selected) == (if *old(selected) > 0 {
            (*old(selected) - 1) as usize
        } else {
            *old(selected)
        }),
        key@ == "down"@ ==> r == RemotesKey::Stay && *final(selected) == (if *old(selected) + 1
            < entries@.len() {
            (*old(selected) + 1) as usize
        } else {
            *old(selected)
        }),
        key@ == "a"@ ==> r == RemotesKey::Add && *final(selected) == *old(selected),
        (key@ == "d"@ || key@ == "delete"@) ==> *final(selected) == *old(selected) && if *old(
            selected,
        ) < entries@.len() {
            r matches RemotesKey::Remove(n) && n@ == entries@[*old(selected) as int].name@
        } else {
            r == RemotesKey::Stay
        },
        !(key@ == "escape"@ || key@ == "up"@ || key@ == "down"@ || key@ == "a"@ || key@ == "d"@
            || key@ == "delete"@) ==> r == RemotesKey::Stay && *final(selected) == *old(selected),
{
    proof {
        reveal_strlit("escape");
        reveal_strlit("up");
        reveal_strlit("down");
        reveal_strlit("a");
        reveal_strlit("d");
        reveal_strlit("delete");
        assert("escape"@.len() == 6 && "delete"@.len() == 6);
        assert("escape"@ != "delete"@) by {
            assert("escape"@[0] != "delete"@[0]);
        }
        assert("down"@.len() == 4);
        assert("up"@.len() == 2);
        assert("a"@.len() == 1 && "d"@.len() == 1);
        assert("a"@ != "d"@) by {
            assert("a"@[0] != "d"@[0]);
        }
    }
    let k = chars_of(key);
    if eq_str(&k, "escape") {
        RemotesKey::Close
    } else if eq_str(&k, "up") {
        if *selected > 0 {
            *selected = *selected - 1;
        }
        RemotesKey::Stay
    } else if eq_str(&k, "down") {
        if *selected < entries.len() && *selected + 1 < entries.len() {
            *selected = *selected + 1;
        }
        RemotesKey::Stay
    } else if eq_str(&k, "a") {
        RemotesKey::Add
    } else if eq_str(&k, "d") || eq_str(&k, "delete") {
        if *selected < entries.len() {
            RemotesKey::Remove(entries[*selected].name.clone())
        } else {
            RemotesKey::Stay
        }
    } else {
        RemotesKey::Stay
    }
}

/// What the remotes dialog shows instead of its rows: why loading
/// failed, that it is loading, or that there are none.
pub fn remotes_notice(load_failed: Option<&str>, loading: bool, count: usize) -> (n: Option<String>)
    ensures
        match opt_text(load_failed) {
            Some(e) => n matches Some(s) && s@ == "Loading remotes failed: "@ + e,
            None => if loading {
                n matches Some(s) && s@ == "Loading\u{2026}"@
            } else if count == 0 {
                n matches Some(s) && s@ == "No remotes \u{2014} a adds one"@
            } else {
                n is None
            },
        },
{
    match load_failed {
        Some(e) => {
            let mut s = String::from_str("Loading remotes failed: ");
            s.append(e);
            Some(s)
        },
        None => if loading {
            Some(String::from_str("Loading\u{2026}"))
        } else if count == 0 {
            Some(String::from_str("No remotes \u{2014} a adds one"))
        } else {
            None
        },
    }
}

/// A remote's row: its name, and its fetch URL followed by the push URL
/// where the two differ.
pub fn remote_row(r: &RemoteInfo) -> (row: (String, String))
    ensures
        row.0@ == r.name@,
        row.1@ == r.fetch_url@ + (if r.push_url@ != r.fetch_url@ {
            "  (push: "@ + r.push_url@ + ")"@
        } else {
            seq![]
        }),
{
    let mut url = r.fetch_url.clone();
    let push = chars_of(r.push_url.as_str());
    if !eq_str(&push, r.fetch_url.as_str()) {
        url.append("  (push: ");
        url.append(r.push_url.as_str());
        url.append(")");
    }
    (r.name.clone(), url)
}

/// The add-remote dialog confirms once both the name and the URL are
/// filled in.
pub fn add_remote_ready(name: &str, url: &str) -> (b: bool)
    ensures
        b == (trim(name@).len() > 0 && trim(url@).len() > 0),
{
    trim_vec(&chars_of(name)).len() > 0 && trim_vec(&chars_of(url)).len() > 0
}

/// The remove-remote dialog's question.
pub fn remove_remote_title(name: &str) -> (s: String)
    ensures
        s@ == "Remove remote "@ + name@ + "?"@,
{
    let mut s = String::from_str("Remove remote ");
    s.append(name);
    s.append("?");
    s
}

/// A todo row's keyword, padded to one width.
pub fn todo_keyword(a: TodoAction) -> (s: &'static str)
    ensures
        s@ == match a {
            TodoAction::Pick => "pick "@,
            TodoAction::Drop => "drop "@,
            TodoAction::Fixup => "fixup"@,
        },
{
    match a {
        TodoAction::Pick => "pick ",
        TodoAction::Drop => "drop ",
        TodoAction::Fixup => "fixup",
    }
}

} // verus!
