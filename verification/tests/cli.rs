use mzdebug::cli::CliArgs;

fn arguments(debug_file: Option<&str>, debug: bool) -> CliArgs {
    CliArgs {
        debug_file: debug_file.map(|path| path.to_string()),
        debug,
        verbose: false,
        program_path: "game.exe".to_string(),
    }
}

#[test]
fn debug_mode_is_off_without_flag_and_script() {
    assert!(!arguments(None, false).debug_mode());
}

#[test]
fn debug_mode_is_on_with_the_flag() {
    assert!(arguments(None, true).debug_mode());
}

#[test]
fn debug_mode_is_on_with_a_script() {
    assert!(arguments(Some("session.dbg"), false).debug_mode());
    assert!(arguments(Some("session.dbg"), true).debug_mode());
}

#[test]
fn debug_mode_ignores_verbosity() {
    let mut args = arguments(None, false);
    args.verbose = true;
    assert!(!args.debug_mode());
}
