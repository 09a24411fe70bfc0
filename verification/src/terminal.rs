//! Terminal discovery, the selection settings file, and launching.
//!
//! Selection precedence: `settings.toml` → `$TERMCMD` → first detected
//! terminal. Each platform registry is ordered by preference, so
//! auto-detection resolves to the first installed entry. CLI terminals
//! start with the worktree as their working directory (`{path}` in their
//! arguments is replaced with it); macOS app bundles launch with
//! `open -a <app> <path>`.

use crate::paths::{join, join_path};
use crate::text::{
    chars_of, contains, eq_str, find_sub, first_index, first_index_of, first_occurrence, has_char,
    join as join_text, lines, lines_of, opt_text, slice_vec, starts_with, string_from, trim,
    trim_matches, trim_matches_vec, trim_start, trim_start_vec, trim_vec, views,
};
use vstd::prelude::*;

verus! {

/// The platform whose registry and launch rules apply.
#[derive(Clone, Copy, Debug, PartialEq, Eq, Structural)]
pub enum Platform {
    MacOs,
    /// Linux and the BSDs.
    Unix,
    Windows,
}

/// How to launch a given terminal.
#[derive(Clone, Debug, PartialEq, Eq)]
pub enum Launch {
    /// `open -a <app> <path>` — a macOS app bundle.
    OpenApp(String),
    /// Binary plus args; `{path}` in args is replaced with the worktree
    /// path. Launched with the worktree as the working directory.
    Cli(String, Vec<String>),
}

/// One entry in a platform's terminal registry.
#[derive(Clone, Debug)]
pub struct TerminalKind {
    pub id: String,
    pub name: String,
    /// macOS app bundle file name (e.g. "iTerm.app"); `None` on other
    /// platforms, where detection is CLI-based only.
    pub bundle: Option<String>,
    pub cli: Option<(String, Vec<String>)>,
}

/// A terminal detected on this machine.
#[derive(Clone, Debug)]
pub struct InstalledTerminal {
    pub id: String,
    pub name: String,
    pub launch: Launch,
}

pub enum LaunchView {
    OpenApp(Seq<char>),
    Cli(Seq<char>, Seq<Seq<char>>),
}

pub struct KindView {
    pub id: Seq<char>,
    pub name: Seq<char>,
    pub bundle: Option<Seq<char>>,
    pub cli: Option<(Seq<char>, Seq<Seq<char>>)>,
}

pub struct InstalledView {
    pub id: Seq<char>,
    pub name: Seq<char>,
    pub launch: LaunchView,
}

pub open spec fn texts(v: Seq<String>) -> Seq<Seq<char>> {
    v.map_values(|s: String| s@)
}

impl View for Launch {
    type V = LaunchView;

    open spec fn view(&self) -> LaunchView {
        match self {
            Launch::OpenApp(a) => LaunchView::OpenApp(a@),
            Launch::Cli(b, args) => LaunchView::Cli(b@, texts(args@)),
        }
    }
}

impl View for TerminalKind {
    type V = KindView;

    open spec fn view(&self) -> KindView {
        KindView {
            id: self.id@,
            name: self.name@,
            bundle: match self.bundle {
                Some(b) => Some(b@),
                None => None,
            },
            cli: match self.cli {
                Some((b, args)) => Some((b@, texts(args@))),
                None => None,
            },
        }
    }
}

impl View for InstalledTerminal {
    type V = InstalledView;

    open spec fn view(&self) -> InstalledView {
        InstalledView { id: self.id@, name: self.name@, launch: self.launch@ }
    }
}

pub open spec fn kind_views(s: Seq<TerminalKind>) -> Seq<KindView> {
    s.map_values(|k: TerminalKind| k@)
}

pub open spec fn installed_views(s: Seq<InstalledTerminal>) -> Seq<InstalledView> {
    s.map_values(|t: InstalledTerminal| t@)
}

// ---------------------------------------------------------------------
// Registry
// ---------------------------------------------------------------------

pub open spec fn kv(
    id: Seq<char>,
    name: Seq<char>,
    bundle: Option<Seq<char>>,
    cli: Option<(Seq<char>, Seq<Seq<char>>)>,
) -> KindView {
    KindView { id, name, bundle, cli }
}

/// A CLI entry that takes no arguments.
pub open spec fn bare(bin: Seq<char>) -> Option<(Seq<char>, Seq<Seq<char>>)> {
    Some((bin, seq![]))
}

/// The platform's terminals, in preference order.
pub open spec fn registry_of(p: Platform) -> Seq<KindView> {
    match p {
        Platform::MacOs => seq![
            kv("terminal"@, "Terminal"@, Some("Terminal.app"@), None),
            kv("iterm"@, "iTerm2"@, Some("iTerm.app"@), None),
            kv(
                "wezterm"@,
                "WezTerm"@,
                Some("WezTerm.app"@),
                Some(("wezterm"@, seq!["start"@, "--cwd"@, "{path}"@])),
            ),
            kv(
                "ghostty"@,
                "Ghostty"@,
                Some("Ghostty.app"@),
                Some(("ghostty"@, seq!["--working-directory"@, "{path}"@])),
            ),
            kv(
                "alacritty"@,
                "Alacritty"@,
                Some("Alacritty.app"@),
                Some(("alacritty"@, seq!["--working-directory"@, "{path}"@])),
            ),
            kv(
                "kitty"@,
                "Kitty"@,
                Some("kitty.app"@),
                Some(("kitty"@, seq!["--directory"@, "{path}"@])),
            ),
            kv("warp"@, "Warp"@, Some("Warp.app"@), None),
            kv("hyper"@, "Hyper"@, Some("Hyper.app"@), None),
        ],
        Platform::Unix => seq![
            kv(
                "xdg-terminal-exec"@,
                "System (xdg-terminal-exec)"@,
                None,
                bare("xdg-terminal-exec"@),
            ),
            kv("gnome-terminal"@, "GNOME Terminal"@, None, bare("gnome-terminal"@)),
            kv("konsole"@, "Konsole"@, None, bare("konsole"@)),
            kv("xfce4-terminal"@, "Xfce Terminal"@, None, bare("xfce4-terminal"@)),
            kv("foot"@, "foot"@, None, bare("foot"@)),
            kv("tilix"@, "Tilix"@, None, bare("tilix"@)),
            kv("kitty"@, "Kitty"@, None, bare("kitty"@)),
            kv("ghostty"@, "Ghostty"@, None, bare("ghostty"@)),
            kv("alacritty"@, "Alacritty"@, None, bare("alacritty"@)),
            kv("wezterm"@, "WezTerm"@, None, bare("wezterm"@)),
            kv("xterm"@, "xterm"@, None, bare("xterm"@)),
        ],
        Platform::Windows => seq![
            kv("wt"@, "Windows Terminal"@, None, Some(("wt"@, seq!["-d"@, "{path}"@]))),
            kv("pwsh"@, "PowerShell"@, None, bare("pwsh"@)),
            kv("powershell"@, "Windows PowerShell"@, None, bare("powershell"@)),
            kv("cmd"@, "Command Prompt"@, None, bare("cmd"@)),
            kv("alacritty"@, "Alacritty"@, None, bare("alacritty"@)),
            kv("wezterm"@, "WezTerm"@, None, bare("wezterm"@)),
            kv("ghostty"@, "Ghostty"@, None, bare("ghostty"@)),
        ],
    }
}

fn strs(parts: &[&str]) -> (v: Vec<String>)
    ensures
        texts(v@) == parts@.map_values(|s: &str| s@),
{
    let v = crate::engine::args_of(parts);
    proof {
        assert(texts(v@) =~= crate::engine::arg_views(v@));
    }
    v
}

fn kind(id: &str, name: &str, bundle: Option<&str>, cli: Option<(&str, &[&str])>) -> (k:
    TerminalKind)
    ensures
        k@ == kv(
            id@,
            name@,
            opt_text(bundle),
            match cli {
                Some((b, args)) => Some((b@, args@.map_values(|s: &str| s@))),
                None => None,
            },
        ),
{
    TerminalKind {
        id: String::from_str(id),
        name: String::from_str(name),
        bundle: match bundle {
            Some(b) => Some(String::from_str(b)),
            None => None,
        },
        cli: match cli {
            Some((b, args)) => Some((String::from_str(b), strs(args))),
            None => None,
        },
    }
}

/// The platform's terminal registry, in preference order.
pub fn registry(p: Platform) -> (r: Vec<TerminalKind>)
    ensures
        kind_views(r@) == registry_of(p),
{
    let mut r: Vec<TerminalKind> = Vec::new();
    match p {
        Platform::MacOs => {
            r.push(kind("terminal", "Terminal", Some("Terminal.app"), None));
            r.push(kind("iterm", "iTerm2", Some("iTerm.app"), None));
            r.push(
                kind(
                    "wezterm",
                    "WezTerm",
                    Some("WezTerm.app"),
                    Some(("wezterm", &["start", "--cwd", "{path}"])),
                ),
            );
            r.push(
                kind(
                    "ghostty",
                    "Ghostty",
                    Some("Ghostty.app"),
                    Some(("ghostty", &["--working-directory", "{path}"])),
                ),
            );
            r.push(
                kind(
                    "alacritty",
                    "Alacritty",
                    Some("Alacritty.app"),
                    Some(("alacritty", &["--working-directory", "{path}"])),
                ),
            );
            r.push(
                kind("kitty", "Kitty", Some("kitty.app"), Some(("kitty", &["--directory", "{path}"]))),
            );
            r.push(kind("warp", "Warp", Some("Warp.app"), None));
            r.push(kind("hyper", "Hyper", Some("Hyper.app"), None));
        },
        Platform::Unix => {
            r.push(
                kind(
                    "xdg-terminal-exec",
                    "System (xdg-terminal-exec)",
                    None,
                    Some(("xdg-terminal-exec", &[])),
                ),
            );
            r.push(kind("gnome-terminal", "GNOME Terminal", None, Some(("gnome-terminal", &[]))));
            r.push(kind("konsole", "Konsole", None, Some(("konsole", &[]))));
            r.push(kind("xfce4-terminal", "Xfce Terminal", None, Some(("xfce4-terminal", &[]))));
            r.push(kind("foot", "foot", None, Some(("foot", &[]))));
            r.push(kind("tilix", "Tilix", None, Some(("tilix", &[]))));
            r.push(kind("kitty", "Kitty", None, Some(("kitty", &[]))));
            r.push(kind("ghostty", "Ghostty", None, Some(("ghostty", &[]))));
            r.push(kind("alacritty", "Alacritty", None, Some(("alacritty", &[]))));
            r.push(kind("wezterm", "WezTerm", None, Some(("wezterm", &[]))));
            r.push(kind("xterm", "xterm", None, Some(("xterm", &[]))));
        },
        Platform::Windows => {
            r.push(kind("wt", "Windows Terminal", None, Some(("wt", &["-d", "{path}"]))));
            r.push(kind("pwsh", "PowerShell", None, Some(("pwsh", &[]))));
            r.push(kind("powershell", "Windows PowerShell", None, Some(("powershell", &[]))));
            r.push(kind("cmd", "Command Prompt", None, Some(("cmd", &[]))));
            r.push(kind("alacritty", "Alacritty", None, Some(("alacritty", &[]))));
            r.push(kind("wezterm", "WezTerm", None, Some(("wezterm", &[]))));
            r.push(kind("ghostty", "Ghostty", None, Some(("ghostty", &[]))));
        },
    }
    proof {
        let rv = kind_views(r@);
        let sv = registry_of(p);
        assert(rv.len() == sv.len());
        assert forall|i: int| 0 <= i < rv.len() implies rv[i] == sv[i] by {
            let a = rv[i];
            let b = sv[i];
            assert(a.id == b.id);
            assert(a.name == b.name);
            assert(a.bundle == b.bundle);
            match (a.cli, b.cli) {
                (Some(x), Some(y)) => {
                    assert(x.1 =~= y.1);
                },
                _ => {},
            }
        }
        assert(rv =~= sv);
    }
    r
}

// ---------------------------------------------------------------------
// Detection and launching
// ---------------------------------------------------------------------

/// Short launch description for the settings dialog.
pub open spec fn describe_of(l: LaunchView) -> Seq<char> {
    match l {
        LaunchView::OpenApp(app) => "open -a "@ + app,
        LaunchView::Cli(bin, args) => if args.len() == 0 {
            bin
        } else {
            bin + " "@ + join_text(args, " "@)
        },
    }
}

fn join_with_spaces(parts: &Vec<String>) -> (s: String)
    ensures
        s@ == join_text(texts(parts@), " "@),
{
    let ghost pv = texts(parts@);
    let mut s = String::new();
    let mut k: usize = 0;
    proof {
        assert(pv.take(0) =~= Seq::<Seq<char>>::empty());
    }
    while k < parts.len()
        invariant
            k <= parts.len(),
            pv == texts(parts@),
            s@ == join_text(pv.take(k as int), " "@),
        decreases parts.len() - k,
    {
        proof {
            assert(pv[k as int] == parts@[k as int]@);
            assert(pv.take(k + 1).drop_last() =~= pv.take(k as int));
        }
        let ghost before = s@;
        if k > 0 {
            s.append(" ");
        }
        s.append(parts[k].as_str());
        proof {
            if k == 0 {
                assert(pv.take(1) =~= seq![pv[0]]);
                assert(s@ =~= pv[0]);
            } else {
                assert(s@ =~= before + " "@ + pv[k as int]);
            }
        }
        k += 1;
    }
    proof {
        assert(pv.take(parts.len() as int) =~= pv);
    }
    s
}

/// Describes how a terminal launches.
pub fn describe_launch(launch: &Launch) -> (s: String)
    ensures
        s@ == describe_of(launch@),
{
    match launch {
        Launch::OpenApp(app) => {
            let mut s = String::from_str("open -a ");
            s.append(app.as_str());
            s
        },
        Launch::Cli(bin, args) => {
            if args.len() == 0 {
                bin.clone()
            } else {
                let mut s = bin.clone();
                s.append(" ");
                s.append(join_with_spaces(args).as_str());
                s
            }
        },
    }
}

/// The app name of a bundle: its file name without `.app`.
pub open spec fn app_name(bundle: Seq<char>) -> Seq<char> {
    if crate::text::ends_with(bundle, ".app"@) {
        bundle.take(bundle.len() - (".app"@).len())
    } else {
        bundle
    }
}

/// How a registry entry is found installed: its CLI form when the binary
/// is on PATH (explicit working directory, and it works even when the
/// bundle lives elsewhere), else on macOS its app bundle when present.
pub open spec fn detected(
    p: Platform,
    k: KindView,
    bundles: Seq<Seq<char>>,
    clis: Seq<Seq<char>>,
) -> Option<InstalledView> {
    if k.cli is Some && clis.contains((k.cli->0).0) {
        Some(
            InstalledView {
                id: k.id,
                name: k.name,
                launch: LaunchView::Cli((k.cli->0).0, (k.cli->0).1),
            },
        )
    } else if p == Platform::MacOs && k.bundle is Some && bundles.contains(k.bundle->0) {
        Some(InstalledView { id: k.id, name: k.name, launch: LaunchView::OpenApp(app_name(k.bundle->0)) })
    } else {
        None
    }
}

pub open spec fn detect_fold(
    p: Platform,
    ks: Seq<KindView>,
    bundles: Seq<Seq<char>>,
    clis: Seq<Seq<char>>,
) -> Seq<InstalledView>
    decreases ks.len(),
{
    if ks.len() == 0 {
        seq![]
    } else {
        let acc = detect_fold(p, ks.drop_last(), bundles, clis);
        match detected(p, ks.last(), bundles, clis) {
            Some(t) => acc.push(t),
            None => acc,
        }
    }
}

fn has_text(v: &Vec<String>, s: &String) -> (b: bool)
    ensures
        b == texts(v@).contains(s@),
{
    let mut i: usize = 0;
    while i < v.len()
        invariant
            i <= v.len(),
            forall|j: int| 0 <= j < i ==> v@[j]@ != s@,
        decreases v.len() - i,
    {
        if v[i] == *s {
            proof {
                assert(texts(v@)[i as int] == s@);
            }
            return true;
        }
        i += 1;
    }
    proof {
        if texts(v@).contains(s@) {
            let j = choose|j: int| 0 <= j < texts(v@).len() && texts(v@)[j] == s@;
            assert(v@[j]@ == s@);
        }
    }
    false
}

/// The installed terminals in registry order, given the app bundles
/// found in the bundle search directories and the binaries found on
/// PATH (probing them is the caller's part).
pub fn detect_with(p: Platform, bundles_present: &Vec<String>, clis_on_path: &Vec<String>) -> (r:
    Vec<InstalledTerminal>)
    ensures
        installed_views(r@) == detect_fold(
            p,
            registry_of(p),
            texts(bundles_present@),
            texts(clis_on_path@),
        ),
{
    let reg = registry(p);
    let ghost ks = kind_views(reg@);
    let ghost bs = texts(bundles_present@);
    let ghost cs = texts(clis_on_path@);
    let mut r: Vec<InstalledTerminal> = Vec::new();
    let mut i: usize = 0;
    proof {
        assert(ks.take(0) =~= Seq::<KindView>::empty());
        assert(installed_views(r@) =~= Seq::<InstalledView>::empty());
    }
    while i < reg.len()
        invariant
            i <= reg.len(),
            ks == kind_views(reg@),
            bs == texts(bundles_present@),
            cs == texts(clis_on_path@),
            installed_views(r@) == detect_fold(p, ks.take(i as int), bs, cs),
        decreases reg.len() - i,
    {
        proof {
            assert(ks.take(i + 1).drop_last() =~= ks.take(i as int));
            assert(ks[i as int] == reg@[i as int]@);
        }
        let k = &reg[i];
        let ghost before = installed_views(r@);
        let mut done = false;
        match &k.cli {
            Some((bin, args)) => {
                if has_text(clis_on_path, bin) {
                    let t = InstalledTerminal {
                        id: k.id.clone(),
                        name: k.name.clone(),
                        launch: Launch::Cli(bin.clone(), args.clone()),
                    };
                    proof {
                        assert(texts(args@) == texts(t.launch->1@)) by {
                            assert(t.launch->1@.len() == args@.len());
                            assert forall|j: int| 0 <= j < args@.len() implies t.launch->1@[j]
                                == args@[j] by {
                                assert(cloned::<String>(args@[j], t.launch->1@[j]));
                            }
                            assert(texts(args@) =~= texts(t.launch->1@));
                        }
                    }
                    r.push(t);
                    proof {
                        assert(installed_views(r@) =~= before.push(t@));
                    }
                    done = true;
                }
            },
            None => {},
        }
        if !done {
            let is_mac = match p {
                Platform::MacOs => true,
                _ => false,
            };
            if is_mac {
                match &k.bundle {
                    Some(b) => {
                        if has_text(bundles_present, b) {
                            let bv = chars_of(b.as_str());
                            let app = if crate::text::has_suffix(&bv, ".app") {
                                proof {
                                    reveal_strlit(".app");
                                }
                                string_from(&slice_vec(&bv, 0, bv.len() - 4))
                            } else {
                                b.clone()
                            };
                            proof {
                                reveal_strlit(".app");
                                assert(app@ =~= app_name(b@));
                            }
                            let t = InstalledTerminal {
                                id: k.id.clone(),
                                name: k.name.clone(),
                                launch: Launch::OpenApp(app),
                            };
                            r.push(t);
                            proof {
                                assert(installed_views(r@) =~= before.push(t@));
                            }
                        }
                    },
                    None => {},
                }
            }
        }
        i += 1;
    }
    proof {
        assert(ks.take(reg.len() as int) =~= ks);
    }
    r
}

/// The program and arguments launching a terminal at `path`: `open -a
/// <app> <path>` for a bundle; the binary with `{path}` arguments
/// replaced by the path for a CLI (run with `path` as its working
/// directory).
pub open spec fn launch_command_of(l: LaunchView, path: Seq<char>) -> (Seq<char>, Seq<Seq<char>>) {
    match l {
        LaunchView::OpenApp(app) => ("open"@, seq!["-a"@, app, path]),
        LaunchView::Cli(bin, args) => (
            bin,
            args.map_values(|a: Seq<char>| if a == "{path}"@ {
                path
            } else {
                a
            }),
        ),
    }
}

/// Builds `launch_command_of`.
pub fn launch_command(launch: &Launch, path: &str) -> (r: (String, Vec<String>))
    ensures
        (r.0@, texts(r.1@)) == launch_command_of(launch@, path@),
{
    match launch {
        Launch::OpenApp(app) => {
            let mut args: Vec<String> = Vec::new();
            args.push(String::from_str("-a"));
            args.push(app.clone());
            args.push(String::from_str(path));
            proof {
                assert(texts(args@) =~= seq!["-a"@, app@, path@]);
            }
            (String::from_str("open"), args)
        },
        Launch::Cli(bin, args) => {
            let ghost av = texts(args@);
            let mut out: Vec<String> = Vec::new();
            let mut i: usize = 0;
            while i < args.len()
                invariant
                    i <= args.len(),
                    av == texts(args@),
                    out@.len() == i,
                    forall|j: int|
                        0 <= j < i ==> (#[trigger] out@[j])@ == (if av[j] == "{path}"@ {
                            path@
                        } else {
                            av[j]
                        }),
                decreases args.len() - i,
            {
                proof {
                    assert(av[i as int] == args@[i as int]@);
                }
                if eq_str(&chars_of(args[i].as_str()), "{path}") {
                    out.push(String::from_str(path));
                } else {
                    out.push(args[i].clone());
                }
                i += 1;
            }
            proof {
                assert(texts(out@) =~= av.map_values(
                    |a: Seq<char>| if a == "{path}"@ {
                        path@
                    } else {
                        a
                    },
                ));
            }
            (bin.clone(), out)
        },
    }
}

/// Where to open a worktree: a detected terminal (by its index), the
/// `$TERMCMD` command itself, or nothing to open.
#[derive(Clone, Debug, PartialEq, Eq)]
pub enum TerminalChoice {
    Installed(usize),
    /// `$TERMCMD` names no detected terminal: on macOS it is an app name
    /// for `open -a`, elsewhere a command run in the worktree.
    TermCmd(String),
    Nothing,
}

/// The first installed terminal with the id.
pub open spec fn find_id(installed: Seq<InstalledView>, id: Seq<char>) -> Option<int> {
    if exists|i: int| 0 <= i < installed.len() && installed[i].id == id {
        Some(
            choose|i: int|
                0 <= i < installed.len() && installed[i].id == id && forall|j: int|
                    0 <= j < i ==> installed[j].id != id,
        )
    } else {
        None
    }
}

/// Precedence: the settings' terminal when installed (a stale choice
/// falls through), then a non-empty `$TERMCMD` (an installed id, else the
/// command itself), then the first detected terminal.
pub open spec fn choice_of(
    installed: Seq<InstalledView>,
    setting: Option<Seq<char>>,
    termcmd: Option<Seq<char>>,
) -> (Option<int>, Option<Seq<char>>) {
    if setting is Some && find_id(installed, setting->0) is Some {
        (find_id(installed, setting->0), None)
    } else if termcmd is Some && termcmd->0.len() > 0 {
        if find_id(installed, termcmd->0) is Some {
            (find_id(installed, termcmd->0), None)
        } else {
            (None, termcmd)
        }
    } else if installed.len() > 0 {
        (Some(0), None)
    } else {
        (None, None)
    }
}

fn find_installed(installed: &Vec<InstalledTerminal>, id: &str) -> (r: Option<usize>)
    ensures
        match r {
            Some(i) => find_id(installed_views(installed@), id@) == Some(i as int),
            None => find_id(installed_views(installed@), id@) is None,
        },
{
    let ghost iv = installed_views(installed@);
    let mut i: usize = 0;
    while i < installed.len()
        invariant
            i <= installed.len(),
            iv == installed_views(installed@),
            forall|j: int| 0 <= j < i ==> iv[j].id != id@,
        decreases installed.len() - i,
    {
        proof {
            assert(iv[i as int] == installed@[i as int]@);
        }
        if eq_str(&chars_of(installed[i].id.as_str()), id) {
            proof {
                let c = choose|c: int|
                    0 <= c < iv.len() && iv[c].id == id@ && forall|j: int|
                        0 <= j < c ==> iv[j].id != id@;
                if c < i {
                } else if c > i {
                    assert(iv[i as int].id != id@);
                }
            }
            return Some(i);
        }
        i += 1;
    }
    None
}

/// Picks where to open a worktree, given the detected terminals, the
/// settings' terminal and `$TERMCMD`.
pub fn choose_terminal(
    installed: &Vec<InstalledTerminal>,
    setting: Option<&str>,
    termcmd: Option<&str>,
) -> (c: TerminalChoice)
    ensures
        match choice_of(installed_views(installed@), opt_text(setting), opt_text(termcmd)) {
            (Some(i), _) => c == TerminalChoice::Installed(i as usize),
            (None, Some(cmd)) => c matches TerminalChoice::TermCmd(s) && s@ == cmd,
            (None, None) => c == TerminalChoice::Nothing,
        },
{
    match setting {
        Some(id) => match find_installed(installed, id) {
            Some(i) => return TerminalChoice::Installed(i),
            None => {},
        },
        None => {},
    }
    match termcmd {
        Some(cmd) => {
            if !cmd.is_empty() {
                return match find_installed(installed, cmd) {
                    Some(i) => TerminalChoice::Installed(i),
                    None => TerminalChoice::TermCmd(String::from_str(cmd)),
                };
            }
        },
        None => {},
    }
    if installed.len() > 0 {
        TerminalChoice::Installed(0)
    } else {
        TerminalChoice::Nothing
    }
}

// ---------------------------------------------------------------------
// Settings
// ---------------------------------------------------------------------

/// XDG config directory (XDG semantics on every platform):
/// `$XDG_CONFIG_HOME` when set and absolute, else `~/.config` (`.` when
/// there is no home), with the app's directory below it.
pub open spec fn config_dir_of(xdg_config_home: Option<Seq<char>>, home: Option<Seq<char>>) -> Seq<
    char,
> {
    if xdg_config_home is Some && xdg_config_home->0.len() > 0 && xdg_config_home->0[0] == '/' {
        join(xdg_config_home->0, "worktree-tool"@)
    } else {
        join(
            join(
                match home {
                    Some(h) => h,
                    None => "."@,
                },
                ".config"@,
            ),
            "worktree-tool"@,
        )
    }
}

/// The config directory, from `$XDG_CONFIG_HOME` and `$HOME`.
pub fn config_dir(xdg_config_home: Option<&str>, home: Option<&str>) -> (d: String)
    ensures
        d@ == config_dir_of(opt_text(xdg_config_home), opt_text(home)),
{
    match xdg_config_home {
        Some(x) => {
            let v = chars_of(x);
            if v.len() > 0 && v[0] == '/' {
                return join_path(x, "worktree-tool");
            }
        },
        None => {},
    }
    let h = match home {
        Some(h) => h,
        None => ".",
    };
    let c = join_path(h, ".config");
    join_path(c.as_str(), "worktree-tool")
}

/// The settings file, from `$XDG_CONFIG_HOME` and `$HOME`.
pub fn settings_path(xdg_config_home: Option<&str>, home: Option<&str>) -> (p: String)
    ensures
        p@ == join(config_dir_of(opt_text(xdg_config_home), opt_text(home)), "settings.toml"@),
{
    let d = config_dir(xdg_config_home, home);
    join_path(d.as_str(), "settings.toml")
}

/// Where macOS app bundles are looked for, the user's own Applications
/// folder (under `home`) last.
pub fn bundle_search_dirs(home: &str) -> (dirs: Vec<String>)
    ensures
        texts(dirs@) == seq![
            "/Applications"@,
            "/System/Applications"@,
            "/System/Applications/Utilities"@,
            join(home@, "Applications"@),
        ],
{
    let mut dirs: Vec<String> = Vec::new();
    dirs.push(String::from_str("/Applications"));
    dirs.push(String::from_str("/System/Applications"));
    dirs.push(String::from_str("/System/Applications/Utilities"));
    dirs.push(join_path(home, "Applications"));
    proof {
        assert(texts(dirs@) =~= seq![
            "/Applications"@,
            "/System/Applications"@,
            "/System/Applications/Utilities"@,
            join(home@, "Applications"@),
        ]);
    }
    dirs
}

/// The file names a command can have in a `PATH` directory: the bare
/// name, and on Windows also with `.exe`, `.cmd` and `.bat`.
pub fn executable_names(bin: &str, p: Platform) -> (names: Vec<String>)
    ensures
        texts(names@) == (if p == Platform::Windows {
            seq![bin@, bin@ + ".exe"@, bin@ + ".cmd"@, bin@ + ".bat"@]
        } else {
            seq![bin@]
        }),
{
    let mut names: Vec<String> = Vec::new();
    names.push(String::from_str(bin));
    if p == Platform::Windows {
        let mut exe = String::from_str(bin);
        exe.append(".exe");
        names.push(exe);
        let mut cmd = String::from_str(bin);
        cmd.append(".cmd");
        names.push(cmd);
        let mut bat = String::from_str(bin);
        bat.append(".bat");
        names.push(bat);
    }
    proof {
        assert(texts(names@) =~= (if p == Platform::Windows {
            seq![bin@, bin@ + ".exe"@, bin@ + ".cmd"@, bin@ + ".bat"@]
        } else {
            seq![bin@]
        }));
    }
    names
}

/// A regular file's permission bits allow someone to execute it.
pub fn executable_mode(mode: u32) -> (b: bool)
    ensures
        b == (mode & 0o111u32 != 0),
{
    mode & 0o111 != 0
}

/// Persisted user preferences: only the terminal today, in a tiny TOML
/// subset (`key = "value"` lines), so there is no config-format
/// dependency.
#[derive(Clone, Debug, PartialEq, Eq)]
pub struct Settings {
    /// Chosen terminal id (a registry id), or `None` for auto-detect.
    pub terminal: Option<String>,
}

impl Default for Settings {
    fn default() -> (s: Settings)
        ensures
            s.terminal is None,
    {
        Settings { terminal: None }
    }
}

/// A comment starts at `k`: white space followed by `#`.
pub open spec fn comment_at(s: Seq<char>, k: int) -> bool {
    0 <= k && k + 1 < s.len() && crate::text::is_ws(s[k]) && s[k + 1] == '#'
}

/// Where the first comment at or after `k` starts (at its white space).
pub open spec fn comment_from(s: Seq<char>, k: int) -> Option<int>
    decreases s.len() - k,
{
    if k < 0 || k + 1 >= s.len() {
        None
    } else if comment_at(s, k) {
        Some(k)
    } else {
        comment_from(s, k + 1)
    }
}

/// Where the first comment of the line starts (at its white space).
pub open spec fn comment_start(s: Seq<char>) -> Option<int> {
    comment_from(s, 0)
}

proof fn lemma_no_comment_from(s: Seq<char>, k: int)
    requires
        0 <= k,
        forall|i: int| k <= i ==> !comment_at(s, i),
    ensures
        comment_from(s, k) is None,
    decreases s.len() - k,
{
    if k + 1 < s.len() {
        lemma_no_comment_from(s, k + 1);
    }
}

/// A line without its comment: a line whose first non-blank character
/// is `#` is all comment; otherwise a comment starts at the first `#`
/// that follows white space (a `#` inside a value is kept).
pub open spec fn uncommented_line(raw: Seq<char>) -> Seq<char> {
    if starts_with(trim_start(raw), "#"@) {
        seq![]
    } else {
        match comment_start(raw) {
            Some(i) => raw.take(i),
            None => raw,
        }
    }
}

/// Finds `comment_start`.
fn find_comment(raw: &Vec<char>) -> (r: Option<usize>)
    ensures
        match r {
            Some(k) => comment_start(raw@) == Some(k as int) && k < raw@.len(),
            None => comment_start(raw@) is None,
        },
{
    let mut k: usize = 0;
    while k < raw.len() && k + 1 < raw.len()
        invariant
            comment_start(raw@) == comment_from(raw@, k as int),
        decreases raw.len() - k,
    {
        if crate::text::is_whitespace(raw[k]) && raw[k + 1] == '#' {
            return Some(k);
        }
        k += 1;
    }
    None
}

/// The terminal a settings line sets: `terminal = <value>` with the
/// value trimmed and stripped of surrounding quotes; `None` for any
/// other line or an empty value.
pub open spec fn setting_line(raw: Seq<char>) -> Option<Seq<char>> {
    let line = trim(uncommented_line(raw));
    if line.len() > 0 && has_char(line, '=') {
        let k = first_index(line, '=');
        let key = trim(line.take(k));
        let value = trim_matches(trim_matches(trim(line.skip(k + 1)), '"'), '\'');
        if key == "terminal"@ && value.len() > 0 {
            Some(value)
        } else {
            None
        }
    } else {
        None
    }
}

/// The last terminal setting of the lines.
pub open spec fn settings_fold(ls: Seq<Seq<char>>) -> Option<Seq<char>>
    decreases ls.len(),
{
    if ls.len() == 0 {
        None
    } else {
        match setting_line(ls.last()) {
            Some(v) => Some(v),
            None => settings_fold(ls.drop_last()),
        }
    }
}

pub open spec fn parsed_terminal(text: Seq<char>) -> Option<Seq<char>> {
    settings_fold(lines(text))
}

fn parse_setting_line(raw: &Vec<char>) -> (r: Option<String>)
    ensures
        match r {
            Some(v) => setting_line(raw@) == Some(v@),
            None => setting_line(raw@) is None,
        },
{
    let hash = chars_of("#");
    proof {
        reveal_strlit("#");
    }
    let ts = trim_start_vec(raw);
    let line0 = if ts.len() > 0 && ts[0] == '#' {
        proof {
            assert(ts@.take(1) =~= "#"@);
            assert(starts_with(trim_start(raw@), "#"@));
        }
        Vec::new()
    } else {
        proof {
            if ts@.len() > 0 && starts_with(ts@, "#"@) {
                assert(ts@.take(1)[0] == ts@[0]);
            }
        }
        match find_comment(raw) {
            Some(i) => slice_vec(raw, 0, i),
            None => raw.clone(),
        }
    };
    proof {
        assert(line0@ =~= uncommented_line(raw@));
    }
    let line = trim_vec(&line0);
    if line.len() == 0 {
        return None;
    }
    let k = match first_index_of(&line, '=') {
        Some(k) => k,
        None => return None,
    };
    let key = trim_vec(&slice_vec(&line, 0, k));
    let v0 = trim_vec(&slice_vec(&line, k + 1, line.len()));
    let value = trim_matches_vec(&trim_matches_vec(&v0, '"'), '\'');
    proof {
        assert(line@.subrange(0, k as int) =~= line@.take(k as int));
        assert(line@.subrange(k + 1, line@.len() as int) =~= line@.skip(k + 1));
    }
    if eq_str(&key, "terminal") && value.len() > 0 {
        Some(string_from(&value))
    } else {
        None
    }
}

/// Parses the settings file text.
pub fn parse_settings(text: &str) -> (s: Settings)
    ensures
        opt_text_string(s.terminal) == parsed_terminal(text@),
{
    let ls = lines_of(&chars_of(text));
    let mut terminal: Option<String> = None;
    let mut i: usize = 0;
    while i < ls.len()
        invariant
            i <= ls.len(),
            views(ls@) == lines(text@),
            opt_text_string(terminal) == settings_fold(views(ls@).take(i as int)),
        decreases ls.len() - i,
    {
        proof {
            assert(views(ls@).take(i + 1).drop_last() =~= views(ls@).take(i as int));
            assert(views(ls@)[i as int] == ls@[i as int]@);
        }
        match parse_setting_line(&ls[i]) {
            Some(v) => {
                terminal = Some(v);
            },
            None => {},
        }
        i += 1;
    }
    proof {
        assert(views(ls@).take(ls.len() as int) =~= views(ls@));
    }
    Settings { terminal }
}

pub open spec fn opt_text_string(o: Option<String>) -> Option<Seq<char>> {
    match o {
        Some(s) => Some(s@),
        None => None,
    }
}

/// The settings file text: a commented header naming the registry ids,
/// then the terminal line when one is chosen.
pub open spec fn rendered(ids: Seq<Seq<char>>, terminal: Option<Seq<char>>) -> Seq<char> {
    "# worktree-tool settings\n# terminal: one of "@ + join_text(ids, ", "@)
        + " (or unset for auto-detect)\n"@ + match terminal {
        Some(id) => "terminal = \""@ + id + "\"\n"@,
        None => seq![],
    }
}

pub open spec fn ids_of(ks: Seq<KindView>) -> Seq<Seq<char>> {
    ks.map_values(|k: KindView| k.id)
}

/// Renders the settings file for the platform's registry.
pub fn render_settings(settings: &Settings, p: Platform) -> (out: String)
    ensures
        out@ == rendered(ids_of(registry_of(p)), opt_text_string(settings.terminal)),
{
    let reg = registry(p);
    let mut ids: Vec<String> = Vec::new();
    let mut i: usize = 0;
    while i < reg.len()
        invariant
            i <= reg.len(),
            kind_views(reg@) == registry_of(p),
            ids@.len() == i,
            forall|j: int| 0 <= j < i ==> (#[trigger] ids@[j])@ == reg@[j].id@,
        decreases reg.len() - i,
    {
        ids.push(reg[i].id.clone());
        i += 1;
    }
    proof {
        assert forall|j: int| 0 <= j < reg@.len() implies reg@[j].id@ == registry_of(p)[j].id by {
            assert(kind_views(reg@)[j] == reg@[j]@);
        }
        assert(texts(ids@) =~= ids_of(registry_of(p)));
    }
    let mut out = String::from_str("# worktree-tool settings\n# terminal: one of ");
    let ghost ov = texts(ids@);
    let mut k: usize = 0;
    let ghost start = out@;
    proof {
        assert(ov.take(0) =~= Seq::<Seq<char>>::empty());
        assert(out@ =~= start + join_text(ov.take(0), ", "@));
    }
    while k < ids.len()
        invariant
            k <= ids.len(),
            ov == texts(ids@),
            out@ == start + join_text(ov.take(k as int), ", "@),
        decreases ids.len() - k,
    {
        proof {
            assert(ov[k as int] == ids@[k as int]@);
            assert(ov.take(k + 1).drop_last() =~= ov.take(k as int));
        }
        let ghost before = out@;
        if k > 0 {
            out.append(", ");
        }
        out.append(ids[k].as_str());
        proof {
            if k == 0 {
                assert(ov.take(1) =~= seq![ov[0]]);
                assert(out@ =~= start + ov[0]);
            } else {
                assert(out@ =~= before + ", "@ + ov[k as int]);
            }
        }
        k += 1;
    }
    proof {
        assert(ov.take(ids.len() as int) =~= ov);
    }
    out.append(" (or unset for auto-detect)\n");
    match &settings.terminal {
        Some(id) => {
            out.append("terminal = \"");
            out.append(id.as_str());
            out.append("\"\n");
        },
        None => {},
    }
    out
}

// ---------------------------------------------------------------------
// Round trip
// ---------------------------------------------------------------------

/// A terminal id that reads back as written: non-empty, on one line,
/// without a comment start (white space then `#`), and without
/// surrounding quotes.
pub open spec fn plain_id(id: Seq<char>) -> bool {
    &&& id.len() > 0
    &&& !has_char(id, '\n')
    &&& forall|k: int| !comment_at(id, k)
    &&& id[0] != '"' && id.last() != '"'
    &&& id[0] != '\'' && id.last() != '\''
}

proof fn lemma_registry_one_line(p: Platform)
    ensures
        forall|i: int|
            0 <= i < ids_of(registry_of(p)).len() ==> !has_char(
                #[trigger] ids_of(registry_of(p))[i],
                '\n',
            ),
{
    reveal_strlit("terminal");
    reveal_strlit("iterm");
    reveal_strlit("wezterm");
    reveal_strlit("ghostty");
    reveal_strlit("alacritty");
    reveal_strlit("kitty");
    reveal_strlit("warp");
    reveal_strlit("hyper");
    reveal_strlit("xdg-terminal-exec");
    reveal_strlit("gnome-terminal");
    reveal_strlit("konsole");
    reveal_strlit("xfce4-terminal");
    reveal_strlit("foot");
    reveal_strlit("tilix");
    reveal_strlit("xterm");
    reveal_strlit("wt");
    reveal_strlit("pwsh");
    reveal_strlit("powershell");
    reveal_strlit("cmd");
    let ids = ids_of(registry_of(p));
    assert forall|i: int| 0 <= i < ids.len() implies !has_char(#[trigger] ids[i], '\n') by {
        let id = ids[i];
        if has_char(id, '\n') {
            let k = choose|k: int| 0 <= k < id.len() && id[k] == '\n';
            assert(id[k] == '\n');
        }
    }
}

/// A commented line sets nothing.
proof fn lemma_comment_line(l: Seq<char>)
    requires
        l.len() > 0,
        l[0] == '#',
    ensures
        setting_line(l) is None,
{
    reveal_strlit("#");
    assert(trim_start(l) == l);
    assert(l.take(1) =~= "#"@);
    assert(uncommented_line(l) == Seq::<char>::empty());
    let e: Seq<char> = seq![];
    assert(trim_start(e) == e);
    assert(trim(e) == e);
}

/// The terminal line of the settings file sets the terminal it names.
proof fn lemma_terminal_line(id: Seq<char>)
    requires
        plain_id(id),
    ensures
        setting_line("terminal = \""@ + id + "\""@) == Some(id),
{
    reveal_strlit("terminal = \"");
    reveal_strlit("\"");
    reveal_strlit("#");
    reveal_strlit("terminal");
    let pre = "terminal = \""@;
    let t = pre + id + "\""@;
    let n = t.len() as int;
    assert(pre.len() == 12);
    assert(n == 13 + id.len());
    assert forall|j: int| 0 <= j < id.len() implies t[12 + j] == id[j] by {}
    assert(t[n - 1] == '"');
    // no comment start anywhere in the line
    assert forall|i: int| !comment_at(t, i) by {
        if comment_at(t, i) {
            if i < 12 {
                assert(t[i + 1] != '#');
            } else if i + 1 < n - 1 {
                let j = i - 12;
                assert(t[i] == id[j] && t[i + 1] == id[j + 1]);
                assert(comment_at(id, j));
            } else {
                assert(t[i + 1] == '"');
            }
        }
    }
    lemma_no_comment_from(t, 0);
    assert(trim_start(t) == t);
    assert(!starts_with(t, "#"@)) by {
        if starts_with(t, "#"@) {
            assert(t.take(1)[0] == t[0]);
        }
    }
    assert(uncommented_line(t) == t);
    crate::text::lemma_trim_plain(t);
    // the key
    assert(t[9] == '=');
    assert forall|j: int| 0 <= j < 9 implies t[j] != '=' by {}
    assert(crate::text::is_first(t, '=', 9));
    crate::text::lemma_first_unique(t, '=', 9);
    assert(first_index(t, '=') == 9);
    let key0 = t.take(9);
    assert(key0 =~= "terminal"@ + seq![' ']);
    assert(trim_start(key0) == key0);
    crate::text::lemma_trim_end_one("terminal"@, ' ');
    assert(trim(key0) == "terminal"@);
    // the value
    let v0 = t.skip(10);
    let w = seq!['"'] + id + seq!['"'];
    assert(v0 =~= seq![' '] + w);
    crate::text::lemma_trim_start_one(' ', w);
    assert(w.last() == '"');
    crate::text::lemma_trim_plain(w);
    assert(trim(v0) == w);
    crate::text::lemma_unwrap('"', id);
    crate::text::lemma_trim_matches_plain(id, '\'');
}

/// Rendering the settings and parsing them back gives the same terminal
/// choice: none stays none, and a chosen id that reads back as written
/// (see `plain_id`) is read back.
#[verifier::spinoff_prover]
#[verifier::rlimit(50)]
pub proof fn settings_roundtrip(p: Platform, terminal: Option<Seq<char>>)
    requires
        terminal matches Some(id) ==> plain_id(id),
    ensures
        parsed_terminal(rendered(ids_of(registry_of(p)), terminal)) == terminal,
{
    reveal_strlit("# worktree-tool settings\n# terminal: one of ");
    reveal_strlit("# worktree-tool settings");
    reveal_strlit("# terminal: one of ");
    reveal_strlit(" (or unset for auto-detect)\n");
    reveal_strlit(" (or unset for auto-detect)");
    reveal_strlit(", ");
    reveal_strlit("terminal = \"");
    reveal_strlit("\"\n");
    reveal_strlit("\"");
    let ids = ids_of(registry_of(p));
    let l1 = "# worktree-tool settings"@;
    let l2 = "# terminal: one of "@ + join_text(ids, ", "@) + " (or unset for auto-detect)"@;
    let t: Seq<char> = match terminal {
        Some(id) => "terminal = \""@ + id + "\"\n"@,
        None => seq![],
    };
    let r = rendered(ids, terminal);
    assert("# worktree-tool settings\n# terminal: one of "@ =~= l1 + seq!['\n']
        + "# terminal: one of "@);
    assert(" (or unset for auto-detect)\n"@ =~= " (or unset for auto-detect)"@ + seq!['\n']);
    assert(r =~= l1 + seq!['\n'] + (l2 + seq!['\n'] + t));
    // neither header line holds a newline
    assert(!has_char(l1, '\n')) by {
        if has_char(l1, '\n') {
            let k = choose|k: int| 0 <= k < l1.len() && l1[k] == '\n';
            assert(l1[k] == '\n');
        }
    }
    lemma_registry_one_line(p);
    assert(!has_char(", "@, '\n')) by {
        if has_char(", "@, '\n') {
            let k = choose|k: int| 0 <= k < (", "@).len() && (", "@)[k] == '\n';
            assert((", "@)[k] == '\n');
        }
    }
    crate::text::lemma_join_lacks(ids, ", "@, '\n');
    assert(!has_char("# terminal: one of "@, '\n')) by {
        if has_char("# terminal: one of "@, '\n') {
            let k = choose|k: int|
                0 <= k < ("# terminal: one of "@).len() && ("# terminal: one of "@)[k] == '\n';
            assert(("# terminal: one of "@)[k] == '\n');
        }
    }
    assert(!has_char(" (or unset for auto-detect)"@, '\n')) by {
        if has_char(" (or unset for auto-detect)"@, '\n') {
            let k = choose|k: int|
                0 <= k < (" (or unset for auto-detect)"@).len() && (
                " (or unset for auto-detect)"@)[k] == '\n';
            assert((" (or unset for auto-detect)"@)[k] == '\n');
        }
    }
    crate::text::lemma_has_char_concat("# terminal: one of "@, join_text(ids, ", "@), '\n');
    crate::text::lemma_has_char_concat(
        "# terminal: one of "@ + join_text(ids, ", "@),
        " (or unset for auto-detect)"@,
        '\n',
    );
    assert(!has_char(l2, '\n'));
    crate::text::lemma_lines_prefix(l1, l2 + seq!['\n'] + t);
    crate::text::lemma_lines_prefix(l2, t);
    assert(l1.last() != '\r');
    assert(l2.last() == ')');
    assert(crate::text::strip_cr(l1) == l1);
    assert(crate::text::strip_cr(l2) == l2);
    let ls = lines(r);
    assert(ls == seq![l1] + (seq![l2] + lines(t)));
    assert(l1[0] == '#');
    assert(l2[0] == '#');
    lemma_comment_line(l1);
    lemma_comment_line(l2);
    match terminal {
        None => {
            crate::text::lemma_lines_empty();
            assert(ls =~= seq![l1, l2]);
            assert(seq![l1, l2].drop_last() =~= seq![l1]);
            assert(seq![l1].drop_last() =~= Seq::<Seq<char>>::empty());
            assert(settings_fold(seq![l1]) == settings_fold(Seq::<Seq<char>>::empty()));
        },
        Some(id) => {
            let t0 = "terminal = \""@ + id + "\""@;
            assert(t =~= t0 + seq!['\n'] + Seq::<char>::empty());
            assert(!has_char(t0, '\n')) by {
                if has_char(t0, '\n') {
                    let k = choose|k: int| 0 <= k < t0.len() && t0[k] == '\n';
                    if 12 <= k < t0.len() - 1 {
                        assert(id[k - 12] == t0[k]);
                    }
                }
            }
            crate::text::lemma_lines_prefix(t0, Seq::<char>::empty());
            crate::text::lemma_lines_empty();
            assert(t0.last() == '"');
            assert(crate::text::strip_cr(t0) == t0);
            assert(lines(t) =~= seq![t0]);
            assert(ls =~= seq![l1, l2, t0]);
            lemma_terminal_line(id);
            assert(seq![l1, l2, t0].last() == t0);
        },
    }
}

} // verus!
