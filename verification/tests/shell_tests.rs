use gaffa::platform::Host;
use gaffa::shell::Shell;

fn unix() -> Host {
    Host { windows: false, pwsh_on_path: false }
}

#[test]
fn test_from_program_cmd() {
    let shell = Shell::from_program("cmd");
    assert_eq!(shell.program, "cmd");
    assert_eq!(shell.args, vec!["/C"]);
}

#[test]
fn test_from_program_pwsh_variants() {
    for program in [
        "pwsh",
        "powershell",
        r"C:\Program Files\PowerShell\7\pwsh.exe",
    ] {
        let shell = Shell::from_program(program);
        assert_eq!(shell.args, vec!["-NoProfile", "-Command"]);
    }
}

#[test]
fn test_from_program_posix_fallback() {
    for program in ["sh", "bash", "zsh", "/usr/bin/fish"] {
        let shell = Shell::from_program(program);
        assert_eq!(shell.args, vec!["-c"]);
    }
}

#[test]
fn test_resolve_explicit_wins() {
    let shell = Shell::resolve(Some("cmd"), None, unix());
    assert_eq!(shell.program, "cmd");
}

#[test]
fn test_prepare_command_passthrough() {
    let sh = Shell::from_program("sh");
    assert_eq!(sh.prepare_command(r#"echo "hi""#), r#"echo "hi""#);
    let cmd = Shell::from_program("cmd");
    assert_eq!(cmd.prepare_command(r#"echo "hi""#), r#"echo "hi""#);
    let pwsh = Shell::from_program("pwsh");
    assert_eq!(pwsh.prepare_command("echo hi"), "echo hi");
}

#[test]
fn test_prepare_command_escapes_quotes_for_powershell() {
    let pwsh = Shell::from_program("pwsh");
    assert_eq!(
        pwsh.prepare_command(r#"Write-Host ("count " + $_)"#),
        r#"Write-Host (\"count \" + $_)"#
    );
    assert_eq!(pwsh.prepare_command(r#"echo "a\""#), r#"echo \"a\\\""#);
}

#[test]
fn test_platform_default_is_known_shell() {
    let shell = Shell::platform_default(unix());
    assert!(!shell.program.is_empty());
    assert!(!shell.args.is_empty());
}

#[test]
fn platform_defaults() {
    assert_eq!(Shell::platform_default(unix()).program, "sh");
    let with_pwsh = Host { windows: true, pwsh_on_path: true };
    assert_eq!(Shell::platform_default(with_pwsh).program, "pwsh");
    let without = Host { windows: true, pwsh_on_path: false };
    assert_eq!(Shell::platform_default(without).program, "cmd");
}

#[test]
fn resolution_goes_from_choice_to_variable_to_platform() {
    let chosen = Shell::resolve(Some("zsh"), Some("fish"), unix());
    assert_eq!(chosen.program, "zsh");
    let variable = Shell::resolve(None, Some("  fish "), unix());
    assert_eq!(variable.program, "fish");
    let blank = Shell::resolve(None, Some("  "), unix());
    assert_eq!(blank.program, "sh");
    assert_eq!(Shell::resolve(None, None, unix()).program, "sh");
}

#[test]
fn stems_ignore_directories_extensions_and_case() {
    for program in [
        "CMD.EXE",
        "C:/Windows/System32/cmd.exe",
        "cmd/",
        "cmd/.",
        "./cmd",
        "C:cmd",
        "d:cmd.exe",
    ] {
        assert_eq!(Shell::from_program(program).args, vec!["/C"]);
    }
    for program in ["", "..", "/", ".cmd", "cmd.exe.bak", "cmd/..", "C:", "cd:cmd", "1:cmd"] {
        assert_eq!(Shell::from_program(program).args, vec!["-c"]);
    }
}

#[test]
fn backslashes_away_from_quotes_are_kept() {
    let pwsh = Shell::from_program("pwsh");
    assert_eq!(pwsh.prepare_command(r#"a\b "c" d\"#), r#"a\b \"c\" d\"#);
    assert_eq!(pwsh.prepare_command(r#"\\""#), r#"\\\\\""#);
}

#[test]
fn clones_are_equal() {
    let shell = Shell::from_program("pwsh");
    assert_eq!(shell.clone(), shell);
}

#[test]
fn shares_devices_and_drives_are_no_file_names() {
    for program in [
        r"\\server\cmd",
        r"\\server\cmd\",
        r"\\.\cmd",
        r"\\?\cmd",
        r"\\?\UNC\server\cmd",
        r"//server\cmd",
        r"/\server\cmd",
        r"\\?\C:\cmd\.",
        r"\\?\C:\cmd/",
        "C:",
    ] {
        assert_eq!(Shell::from_program(program).args, vec!["-c"], "{program}");
    }
    for program in [
        r"\\server\share\cmd.exe",
        r"\\.\C:\cmd",
        r"\\?\C:\Windows\cmd.exe",
        r"\\?\UNC\server\share\cmd",
        r"\\cmd",
        r"C:\cmd\.",
        "//server/cmd",
    ] {
        assert_eq!(Shell::from_program(program).args, vec!["/C"], "{program}");
    }
}
