use edgeprint::install::{
    CompletionAction, GenCompletions, InstallChoice, InstallError, Settings, Shell,
    gen_completions, get_rc_files, parse_install_choice, parse_yes_no,
    prefix_completion_files, should_modify_path, string_to_winreg_bytes,
    write_completions_home,
};

#[test]
fn shell_names_parse() {
    assert_eq!(Shell::from_str("bash"), Some(Shell::Bash));
    assert_eq!(Shell::from_str("elvish"), Some(Shell::Elvish));
    assert_eq!(Shell::from_str("fish"), Some(Shell::Fish));
    assert_eq!(Shell::from_str("powershell"), Some(Shell::PowerShell));
    assert_eq!(Shell::from_str("zsh"), Some(Shell::Zsh));
    assert_eq!(Shell::from_str("tcsh"), None);
    assert_eq!(Shell::from_str("Bash"), None);
}

#[test]
fn home_completion_plan() {
    let plan = write_completions_home();
    assert_eq!(plan.len(), 3);
    assert_eq!(plan[0].0, Shell::Bash);
    assert_eq!(plan[0].1, ".local/share/bash-completion/completions/edgedb");
    assert_eq!(plan[1].0, Shell::Fish);
    assert_eq!(plan[1].1, ".config/fish/completions/edgedb.fish");
    assert_eq!(plan[2].0, Shell::Zsh);
    assert_eq!(plan[2].1, ".zfunc/_edgedb");
}

#[test]
fn prefix_completion_plan() {
    let plan = prefix_completion_files();
    assert_eq!(plan[0].1, "share/bash-completion/completions/edgedb");
    assert_eq!(plan[1].1, "share/fish/completions/edgedb.fish");
    assert_eq!(plan[2].1, "share/zsh/site-functions/_edgedb");
}

#[test]
fn gen_completions_prefers_shell() {
    let opts = GenCompletions {
        shell: Some(Shell::Zsh),
        prefix: Some("/usr".to_string()),
        home: true,
    };
    assert!(matches!(gen_completions(&opts), Ok(CompletionAction::Stdout(Shell::Zsh))));
}

#[test]
fn gen_completions_uses_prefix() {
    let opts = GenCompletions { shell: None, prefix: Some("/usr/local".to_string()), home: false };
    match gen_completions(&opts) {
        Ok(CompletionAction::Prefix(p, files)) => {
            assert_eq!(p, "/usr/local");
            assert_eq!(files.len(), 3);
        }
        _ => panic!("expected a prefix plan"),
    }
}

#[test]
fn gen_completions_uses_home() {
    let opts = GenCompletions { shell: None, prefix: None, home: true };
    match gen_completions(&opts) {
        Ok(CompletionAction::Home(files)) => assert_eq!(files.len(), 3),
        _ => panic!("expected a home plan"),
    }
}

#[test]
fn gen_completions_without_target_is_an_error() {
    let opts = GenCompletions { shell: None, prefix: None, home: false };
    let r = gen_completions(&opts);
    assert!(matches!(r, Err(InstallError::NoTarget)));
    assert_eq!(
        InstallError::NoTarget.message(),
        "either `--prefix` or `--shell=` is expected"
    );
}

#[test]
fn path_modification_depends_on_entries() {
    let entries = vec!["/usr/bin".to_string(), "/home/u/.edgedb/bin".to_string()];
    assert!(!should_modify_path("/home/u/.edgedb/bin", &entries));
    assert!(should_modify_path("/home/u/.cargo/bin", &entries));
    assert!(should_modify_path("/home/u/.edgedb/bin", &vec![]));
}

#[test]
fn yes_no_answers() {
    assert_eq!(parse_yes_no(""), Some(true));
    assert_eq!(parse_yes_no("y"), Some(true));
    assert_eq!(parse_yes_no("yes"), Some(true));
    assert_eq!(parse_yes_no("n"), Some(false));
    assert_eq!(parse_yes_no("no"), Some(false));
    assert_eq!(parse_yes_no("maybe"), None);
}

#[test]
fn install_menu_answers() {
    assert_eq!(parse_install_choice(""), InstallChoice::Proceed);
    assert_eq!(parse_install_choice("1"), InstallChoice::Proceed);
    assert_eq!(parse_install_choice("2"), InstallChoice::Customize);
    assert_eq!(parse_install_choice("3"), InstallChoice::Abort);
    assert_eq!(parse_install_choice("q"), InstallChoice::Abort);
}

#[test]
fn rc_files_cover_the_shells() {
    let plain = get_rc_files("/home/u", false, None, false);
    assert_eq!(plain, vec!["/home/u/.profile".to_string()]);

    let zdot = "/home/u/zdot".to_string();
    let zsh = get_rc_files("/home/u", true, Some(&zdot), false);
    assert_eq!(
        zsh,
        vec!["/home/u/.profile".to_string(), "/home/u/zdot/.zprofile".to_string()]
    );

    let zsh_default = get_rc_files("/home/u", true, None, true);
    assert_eq!(
        zsh_default,
        vec![
            "/home/u/.profile".to_string(),
            "/home/u/.zprofile".to_string(),
            "/home/u/.bash_profile".to_string(),
        ]
    );
}

#[test]
fn settings_rows_follow_path_choice() {
    let s = Settings {
        system: false,
        installation_path: "/home/u/.edgedb/bin".to_string(),
        modify_path: true,
        env_file: "/home/u/.edgedb/env".to_string(),
        rc_files: vec!["/home/u/.profile".to_string(), "/home/u/.zprofile".to_string()],
    };
    let rows = s.print_rows();
    assert_eq!(rows.len(), 3);
    assert_eq!(rows[0], ("Installation Path".to_string(), "/home/u/.edgedb/bin".to_string()));
    assert_eq!(rows[1], ("Modify PATH Variable".to_string(), "yes".to_string()));
    assert_eq!(
        rows[2],
        ("Profile Files".to_string(), "/home/u/.profile\n/home/u/.zprofile".to_string())
    );

    let t = Settings {
        system: false,
        installation_path: "/opt/edgedb/bin".to_string(),
        modify_path: false,
        env_file: "/opt/edgedb/env".to_string(),
        rc_files: vec!["/home/u/.profile".to_string()],
    };
    let rows = t.print_rows();
    assert_eq!(rows.len(), 2);
    assert_eq!(rows[1], ("Modify PATH Variable".to_string(), "no".to_string()));
}

#[test]
fn winreg_bytes_are_utf16le_with_terminator() {
    assert_eq!(string_to_winreg_bytes(""), vec![0, 0]);
    assert_eq!(string_to_winreg_bytes("A"), vec![0x41, 0, 0, 0]);
    assert_eq!(string_to_winreg_bytes("\u{20ac}"), vec![0xac, 0x20, 0, 0]);
    assert_eq!(
        string_to_winreg_bytes("\u{10437}"),
        vec![0x01, 0xd8, 0x37, 0xdc, 0, 0]
    );
}
