use worktree_tool::terminal::{bundle_search_dirs, executable_mode, executable_names};
use worktree_tool::terminal::{
    choose_terminal, config_dir, describe_launch, detect_with, launch_command, parse_settings,
    registry, render_settings, settings_path, Launch, Platform, Settings, TerminalChoice,
};

fn names(v: &[&str]) -> Vec<String> {
    v.iter().map(|s| s.to_string()).collect()
}

fn cli(bin: &str, args: &[&str]) -> Launch {
    Launch::Cli(bin.to_string(), names(args))
}

#[test]
fn registry_ids_are_unique_and_entries_are_findable() {
    for p in [Platform::MacOs, Platform::Unix, Platform::Windows] {
        let reg = registry(p);
        let mut ids: Vec<_> = reg.iter().map(|k| k.id.clone()).collect();
        let total = ids.len();
        ids.sort();
        ids.dedup();
        assert_eq!(ids.len(), total, "duplicate registry ids");
        for k in &reg {
            assert!(
                k.bundle.is_some() || k.cli.is_some(),
                "{} has neither bundle nor cli",
                k.id
            );
            if let Some((_, args)) = &k.cli {
                assert!(
                    args.iter().all(|a| a == "{path}" || !a.contains("{path}")),
                    "{} uses the placeholder inside a compound arg",
                    k.id
                );
            }
        }
    }
}

#[test]
fn detect_prefers_cli_over_bundle() {
    let found = detect_with(Platform::MacOs, &vec![], &names(&["wezterm"]));
    assert_eq!(found.len(), 1);
    assert_eq!(found[0].id, "wezterm");
    assert_eq!(found[0].launch, cli("wezterm", &["start", "--cwd", "{path}"]));
}

#[test]
fn detect_falls_back_to_bundle() {
    let found = detect_with(Platform::MacOs, &names(&["iTerm.app"]), &vec![]);
    assert_eq!(found.len(), 1);
    assert_eq!(found[0].launch, Launch::OpenApp("iTerm".to_string()));
}

#[test]
fn detect_skips_missing_and_keeps_registry_order() {
    let found = detect_with(Platform::MacOs, &names(&["Terminal.app", "Warp.app"]), &vec![]);
    assert_eq!(
        found.iter().map(|t| t.id.clone()).collect::<Vec<_>>(),
        vec!["terminal", "warp"]
    );
}

#[test]
fn detect_is_cli_only_in_preference_order() {
    let found = detect_with(Platform::Unix, &names(&["iTerm.app"]), &names(&["kitty", "gnome-terminal"]));
    assert_eq!(
        found.iter().map(|t| t.id.clone()).collect::<Vec<_>>(),
        vec!["gnome-terminal", "kitty"]
    );
    assert_eq!(found[0].launch, cli("gnome-terminal", &[]));
}

#[test]
fn settings_parse_handles_quotes_comments_and_junk() {
    let s = parse_settings("# comment\nterminal = \"iterm\"\nnoise\nx = 'y'\n");
    assert_eq!(s.terminal.as_deref(), Some("iterm"));
    let s = parse_settings("terminal='ghostty' # trailing\n");
    assert_eq!(s.terminal.as_deref(), Some("ghostty"));
    assert_eq!(parse_settings("").terminal, None);
    assert_eq!(parse_settings("terminal = \"\"").terminal, None);
    // a comment may follow any white space, a tab too
    let s = parse_settings("terminal = \"kitty\"\t# note\n");
    assert_eq!(s.terminal.as_deref(), Some("kitty"));
}

#[test]
fn settings_roundtrip_keeps_white_space_inside_the_quotes() {
    let s = Settings { terminal: Some(" my term ".into()) };
    assert_eq!(parse_settings(&render_settings(&s, Platform::Unix)), s);
}

#[test]
fn settings_roundtrip() {
    let s = Settings {
        terminal: Some("kitty".into()),
    };
    for p in [Platform::MacOs, Platform::Unix, Platform::Windows] {
        assert_eq!(parse_settings(&render_settings(&s, p)), s);
        assert_eq!(
            parse_settings(&render_settings(&Settings::default(), p)),
            Settings::default()
        );
    }
}

#[test]
fn settings_keep_hash_inside_values_and_last_line_wins() {
    let s = parse_settings("terminal = a#b\nterminal = \"wezterm\"\n  # terminal = kitty\n");
    assert_eq!(s.terminal.as_deref(), Some("wezterm"));
    let s = parse_settings("terminal = a#b\n");
    assert_eq!(s.terminal.as_deref(), Some("a#b"));
    let s = parse_settings("term = kitty\n");
    assert_eq!(s.terminal, None);
}

#[test]
fn render_settings_exact_text() {
    let s = Settings {
        terminal: Some("wt".into()),
    };
    assert_eq!(
        render_settings(&s, Platform::Windows),
        "# worktree-tool settings\n# terminal: one of wt, pwsh, powershell, cmd, alacritty, wezterm, ghostty (or unset for auto-detect)\nterminal = \"wt\"\n"
    );
}

#[test]
fn describe_launch_forms() {
    assert_eq!(describe_launch(&Launch::OpenApp("iTerm".into())), "open -a iTerm");
    assert_eq!(describe_launch(&cli("xterm", &[])), "xterm");
    assert_eq!(describe_launch(&cli("wezterm", &["start", "--cwd", "{path}"])), "wezterm start --cwd {path}");
}

#[test]
fn launch_command_substitutes_the_path() {
    let (prog, args) = launch_command(&cli("wt", &["-d", "{path}"]), "/w");
    assert_eq!(prog, "wt");
    assert_eq!(args, names(&["-d", "/w"]));
    let (prog, args) = launch_command(&Launch::OpenApp("Warp".into()), "/w");
    assert_eq!(prog, "open");
    assert_eq!(args, names(&["-a", "Warp", "/w"]));
}

#[test]
fn terminal_choice_precedence() {
    let installed = detect_with(Platform::Unix, &vec![], &names(&["xterm", "kitty"]));
    assert_eq!(choose_terminal(&installed, Some("xterm"), Some("kitty")), TerminalChoice::Installed(1));
    // a stale preference falls through to $TERMCMD
    assert_eq!(choose_terminal(&installed, Some("gone"), Some("kitty")), TerminalChoice::Installed(0));
    assert_eq!(
        choose_terminal(&installed, None, Some("myterm")),
        TerminalChoice::TermCmd("myterm".into())
    );
    assert_eq!(choose_terminal(&installed, None, Some("")), TerminalChoice::Installed(0));
    assert_eq!(choose_terminal(&vec![], None, None), TerminalChoice::Nothing);
}

#[test]
fn settings_path_follows_xdg_rules() {
    assert_eq!(
        settings_path(Some("/x/cfg"), Some("/home/u")),
        "/x/cfg/worktree-tool/settings.toml"
    );
    assert_eq!(
        settings_path(Some("rel"), Some("/home/u")),
        "/home/u/.config/worktree-tool/settings.toml"
    );
    assert_eq!(config_dir(None, None), "./.config/worktree-tool");
}

#[test]
fn bundle_dirs_and_executable_names() {
    assert_eq!(
        bundle_search_dirs("/Users/greg"),
        vec!["/Applications", "/System/Applications", "/System/Applications/Utilities", "/Users/greg/Applications"]
    );
    assert_eq!(executable_names("kitty", Platform::Unix), vec!["kitty"]);
    assert_eq!(
        executable_names("wt", Platform::Windows),
        vec!["wt", "wt.exe", "wt.cmd", "wt.bat"]
    );
    assert!(executable_mode(0o100755));
    assert!(executable_mode(0o100001));
    assert!(!executable_mode(0o100644));
}
