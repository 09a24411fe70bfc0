//! The create dialog's form: branch, base and destination fields, the
//! new-branch switch, and the destination that follows the branch name
//! until the user edits it.

use crate::engine::{arg_views, join_strings};
use crate::model::{default_path, default_worktree_path};
use crate::shell::{create_outcome, create_request, CreateRequest};
use crate::text::{chars_of, eq_str, join, opt_text, string_from, trim, trim_vec};
use crate::text_input::{chars_within, field_key, on_boundary, EditorView, TextField};
use vstd::prelude::*;

verus! {

/// The destination derived from a branch name: the default worktree path
/// of the trimmed name, once there is a name and a repository.
pub open spec fn derived_dest(branch: Seq<char>, root: Option<Seq<char>>) -> Option<Seq<char>> {
    let b = trim(branch);
    if b.len() > 0 && root is Some {
        Some(default_path(root.unwrap(), b))
    } else {
        None
    }
}

/// The byte offset of the cursor.
pub open spec fn cursor_offset(f: EditorView) -> nat {
    crate::text_input::byte_len(f.text.take(f.at as int))
}

proof fn lemma_start_is_boundary(d: Seq<char>)
    ensures
        chars_within(d, 0) == 0,
        on_boundary(d, 0),
{
    assert(d.take(0) =~= Seq::<char>::empty());
    assert(crate::text_input::byte_len(Seq::<char>::empty()) == 0);
}

/// Where the destination's cursor lands when its text becomes `d`: it
/// keeps its byte offset (pulled back to the end) where that falls
/// between two characters of `d`, and goes to the start otherwise.
pub open spec fn cursor_after(dest: EditorView, d: Seq<char>) -> nat {
    let offset = cursor_offset(dest);
    if on_boundary(d, offset as int) {
        chars_within(d, offset as int)
    } else {
        0
    }
}

/// The form's state.
pub struct CreateView {
    pub branch: EditorView,
    pub base: EditorView,
    pub dest: EditorView,
    pub new_branch: bool,
    /// The user changed the destination; it no longer follows the branch.
    pub dest_edited: bool,
    /// The destination last filled in from the branch name.
    pub last_derived: Seq<char>,
}

/// While the destination is automatic, it shows exactly what was last
/// derived for it.
pub open spec fn form_ok(v: CreateView) -> bool {
    !v.dest_edited ==> v.dest.text == v.last_derived
}

/// The create dialog's form.
pub struct CreateForm {
    branch: TextField,
    base: TextField,
    dest: TextField,
    new_branch: bool,
    dest_edited: bool,
    last_derived: String,
}

impl View for CreateForm {
    type V = CreateView;

    closed spec fn view(&self) -> CreateView {
        CreateView {
            branch: self.branch@,
            base: self.base@,
            dest: self.dest@,
            new_branch: self.new_branch,
            dest_edited: self.dest_edited,
            last_derived: self.last_derived@,
        }
    }
}

impl CreateForm {
    /// The placeholders of the branch, base and destination fields.
    pub closed spec fn hints(&self) -> (Seq<char>, Seq<char>, Seq<char>) {
        (self.branch.hint(), self.base.hint(), self.dest.hint())
    }

    /// The form as it opens: all fields empty but the base, which holds
    /// the repository's default; a new branch; an automatic destination.
    pub fn new(default_base: &str) -> (f: Self)
        ensures
            f@.branch.text.len() == 0 && f@.branch.at == 0,
            f@.base.text == default_base@ && f@.base.at == 0,
            f@.dest.text.len() == 0 && f@.dest.at == 0,
            f@.new_branch,
            !f@.dest_edited,
            f@.last_derived.len() == 0,
            form_ok(f@),
            f.hints() == ("feature/\u{2026}"@, "base"@, "worktree destination"@),
    {
        let mut base = TextField::new("base");
        proof {
            assert(chars_within(default_base@, 0) == 0);
            assert(base@.text.take(0) =~= Seq::<char>::empty());
            assert(crate::text_input::byte_len(Seq::<char>::empty()) == 0);
            assert(default_base@.take(0) =~= Seq::<char>::empty());
        }
        base.set_value(default_base);
        let dest = TextField::new("worktree destination");
        let last_derived = String::new();
        proof {
            assert(dest@.text =~= last_derived@);
        }
        CreateForm {
            branch: TextField::new("feature/\u{2026}"),
            base,
            dest,
            new_branch: true,
            dest_edited: false,
            last_derived,
        }
    }

    pub fn branch_field(&self) -> (f: &TextField)
        ensures
            f@ == self@.branch,
            f.hint() == self.hints().0,
    {
        &self.branch
    }

    pub fn base_field(&self) -> (f: &TextField)
        ensures
            f@ == self@.base,
            f.hint() == self.hints().1,
    {
        &self.base
    }

    pub fn dest_field(&self) -> (f: &TextField)
        ensures
            f@ == self@.dest,
            f.hint() == self.hints().2,
    {
        &self.dest
    }

    pub fn new_branch(&self) -> (b: bool)
        ensures
            b == self@.new_branch,
    {
        self.new_branch
    }

    pub fn dest_edited(&self) -> (b: bool)
        ensures
            b == self@.dest_edited,
    {
        self.dest_edited
    }

    /// Switches between creating a new branch and checking out an
    /// existing one.
    pub fn toggle_new_branch(&mut self)
        ensures
            final(self)@ == (CreateView { new_branch: !old(self)@.new_branch, ..old(self)@ }),
            final(self).hints() == old(self).hints(),
    {
        self.new_branch = !self.new_branch;
    }

    /// Fills the destination in from the branch name while it is still
    /// automatic.
    fn follow_branch(&mut self, repo_root: Option<&str>)
        requires
            form_ok(old(self)@),
        ensures
            form_ok(final(self)@),
            final(self).hints() == old(self).hints(),
            final(self)@.branch == old(self)@.branch,
            final(self)@.base == old(self)@.base,
            final(self)@.new_branch == old(self)@.new_branch,
            final(self)@.dest_edited == old(self)@.dest_edited,
            match (if old(self)@.dest_edited {
                None
            } else {
                derived_dest(old(self)@.branch.text, opt_text(repo_root))
            }) {
                Some(d) => final(self)@.dest.text == d && final(self)@.dest.at == cursor_after(
                    old(self)@.dest,
                    d,
                ) && final(self)@.last_derived == d,
                None => final(self)@.dest == old(self)@.dest && final(self)@.last_derived
                    == old(self)@.last_derived,
            },
    {
        if self.dest_edited {
            return;
        }
        let b = trim_vec(&chars_of(self.branch.value().as_str()));
        if b.len() == 0 {
            return;
        }
        match repo_root {
            None => {},
            Some(root) => {
                let name = string_from(&b);
                let display = default_worktree_path(root, name.as_str());
                let ghost d = display@;
                let ghost before = self.dest@;
                assert(d == default_path(root@, trim(old(self)@.branch.text)));
                if !self.dest.fits(display.as_str()) {
                    self.dest.key("home", None, false, false);
                    proof {
                        reveal_strlit("home");
                        reveal_strlit("backspace");
                        reveal_strlit("delete");
                        reveal_strlit("left");
                        reveal_strlit("right");
                        assert("home"@.len() == 4 && "left"@.len() == 4);
                        assert("backspace"@.len() == 9 && "delete"@.len() == 6);
                        assert("right"@.len() == 5);
                        assert("home"@ != "left"@) by {
                            assert("home"@[0] != "left"@[0]);
                        }
                        assert(self.dest@ == field_key(before, "home"@, None, false));
                        assert(self.dest@.at == 0);
                        lemma_start_is_boundary(d);
                        assert(self.dest@.text.take(0) =~= Seq::<char>::empty());
                        assert(crate::text_input::byte_len(Seq::<char>::empty()) == 0);
                        assert(self.dest.offset() == 0);
                    }
                }
                self.dest.set_value(display.as_str());
                proof {
                    if !on_boundary(d, cursor_offset(before) as int) {
                        lemma_start_is_boundary(d);
                    }
                }
                self.last_derived = display;
            },
        }
    }

    /// A key in the branch field; the destination follows the new name
    /// unless the user has edited it.
    pub fn branch_key(
        &mut self,
        key: &str,
        key_char: Option<&str>,
        control: bool,
        platform: bool,
        repo_root: Option<&str>,
    )
        requires
            form_ok(old(self)@),
        ensures
            form_ok(final(self)@),
            final(self).hints() == old(self).hints(),
            final(self)@.branch == field_key(
                old(self)@.branch,
                key@,
                opt_text(key_char),
                control || platform,
            ),
            final(self)@.base == old(self)@.base,
            final(self)@.new_branch == old(self)@.new_branch,
            final(self)@.dest_edited == old(self)@.dest_edited,
            match (if old(self)@.dest_edited {
                None
            } else {
                derived_dest(final(self)@.branch.text, opt_text(repo_root))
            }) {
                Some(d) => final(self)@.dest.text == d && final(self)@.dest.at == cursor_after(
                    old(self)@.dest,
                    d,
                ) && final(self)@.last_derived == d,
                None => final(self)@.dest == old(self)@.dest && final(self)@.last_derived
                    == old(self)@.last_derived,
            },
    {
        self.branch.key(key, key_char, control, platform);
        self.follow_branch(repo_root);
    }

    /// A key in the base field.
    pub fn base_key(&mut self, key: &str, key_char: Option<&str>, control: bool, platform: bool)
        requires
            form_ok(old(self)@),
        ensures
            form_ok(final(self)@),
            final(self).hints() == old(self).hints(),
            final(self)@ == (CreateView {
                base: field_key(
                    old(self)@.base,
                    key@,
                    opt_text(key_char),
                    control || platform,
                ),
                ..old(self)@
            }),
    {
        self.base.key(key, key_char, control, platform);
    }

    /// A key in the destination field; a destination that no longer
    /// reads as the derived one counts as the user's own from then on.
    pub fn dest_key(&mut self, key: &str, key_char: Option<&str>, control: bool, platform: bool)
        requires
            form_ok(old(self)@),
        ensures
            form_ok(final(self)@),
            final(self).hints() == old(self).hints(),
            final(self)@.dest == field_key(
                old(self)@.dest,
                key@,
                opt_text(key_char),
                control || platform,
            ),
            final(self)@.dest_edited == (old(self)@.dest_edited || final(self)@.dest.text
                != old(self)@.last_derived),
            final(self)@.branch == old(self)@.branch,
            final(self)@.base == old(self)@.base,
            final(self)@.new_branch == old(self)@.new_branch,
            final(self)@.last_derived == old(self)@.last_derived,
    {
        self.dest.key(key, key_char, control, platform);
        let v = chars_of(self.dest.value().as_str());
        if !eq_str(&v, self.last_derived.as_str()) {
            self.dest_edited = true;
        }
    }

    /// The labels around the fields, given the repository's default base
    /// and its local branches.
    pub fn labels(&self, default_base: &str, branches: &Vec<String>) -> (l: CreateLabels)
        ensures
            l.mode@ == (if self@.new_branch {
                "Branch (new)"@
            } else {
                "Branch (existing)"@
            }),
            l.hint@ == (if self@.new_branch {
                "base: "@ + (if trim(self@.base.text).len() == 0 {
                    default_base@
                } else {
                    trim(self@.base.text)
                })
            } else {
                "available: "@ + join(arg_views(branches@), ", "@)
            }),
            l.can_confirm == (trim(self@.branch.text).len() > 0 && trim(self@.dest.text).len()
                > 0),
            l.toggle@ == (if self@.new_branch {
                "Creating a new branch \u{2014} switch to existing branch"@
            } else {
                "Using an existing branch \u{2014} switch to new branch"@
            }),
    {
        let b = trim_vec(&chars_of(self.branch.value().as_str()));
        let ba = trim_vec(&chars_of(self.base.value().as_str()));
        let d = trim_vec(&chars_of(self.dest.value().as_str()));
        let mode = if self.new_branch {
            String::from_str("Branch (new)")
        } else {
            String::from_str("Branch (existing)")
        };
        let hint = if self.new_branch {
            let mut h = String::from_str("base: ");
            if ba.len() == 0 {
                h.append(default_base);
            } else {
                h.append(string_from(&ba).as_str());
            }
            h
        } else {
            let mut h = String::from_str("available: ");
            h.append(join_strings(branches, ", ").as_str());
            h
        };
        let toggle = if self.new_branch {
            String::from_str("Creating a new branch \u{2014} switch to existing branch")
        } else {
            String::from_str("Using an existing branch \u{2014} switch to new branch")
        };
        CreateLabels { mode, hint, can_confirm: b.len() > 0 && d.len() > 0, toggle }
    }

    /// The confirm: what `create_request` makes of the three fields and
    /// the switch.
    pub fn request(&self, default_base: &str) -> (r: Result<Option<CreateRequest>, String>)
        ensures
            create_outcome(
                r,
                self@.branch.text,
                self@.base.text,
                self@.dest.text,
                self@.new_branch,
                default_base@,
            ),
    {
        create_request(
            self.branch.value().as_str(),
            self.base.value().as_str(),
            self.dest.value().as_str(),
            self.new_branch,
            default_base,
        )
    }
}

/// What the create dialog shows around its fields.
pub struct CreateLabels {
    /// The branch field's label: a new or an existing branch.
    pub mode: String,
    /// Under the branch field: the base a new branch starts from, or the
    /// local branches that can be checked out.
    pub hint: String,
    /// The confirm button is live: a branch name and a destination.
    pub can_confirm: bool,
    /// The switch between the two modes.
    pub toggle: String,
}

} // verus!
