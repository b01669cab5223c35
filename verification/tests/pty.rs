//! Programs in terminals.

use forgetty::error::ForgettyError;
use forgetty::pty::bridge::{effective_command, reads_on};
use forgetty::pty::multiplexer::PtyMultiplexer;
use forgetty::pty::process::{
    command_plan, detect_android_shell, detect_shell, detect_windows_shell, environment,
    interrupt_byte, passwd_shell, pty_error, CommandPlan, PtyStep,
};
use forgetty::pty::size::PtySize;

fn some(s: &str) -> Option<String> {
    Some(s.to_string())
}

#[test]
fn test_env_vars_set() {
    let vars = environment("1.2.3");
    let lines: Vec<String> = vars.iter().map(|(k, v)| format!("{}={}", k, v)).collect();
    let output_str = lines.join("\n");
    assert!(
        output_str.contains("TERM=xterm-256color"),
        "expected TERM=xterm-256color in env output, got: {output_str}"
    );
    assert!(
        output_str.contains("COLORTERM=truecolor"),
        "expected COLORTERM=truecolor in env output, got: {output_str}"
    );
    assert!(
        output_str.contains("TERM_PROGRAM=forgetty"),
        "expected TERM_PROGRAM=forgetty in env output, got: {output_str}"
    );
    let expected_version = "TERM_PROGRAM_VERSION=1.2.3";
    assert!(
        output_str.contains(expected_version),
        "expected {expected_version} in env output, got: {output_str}"
    );
}

#[test]
fn the_shell_is_the_first_that_can_be_used() {
    assert_eq!(detect_shell(some("/bin/zsh"), true, some("/bin/bash"), true), "/bin/zsh");
    assert_eq!(detect_shell(some("/bin/zsh"), false, some("/bin/bash"), true), "/bin/bash");
    assert_eq!(detect_shell(some(""), true, some("/bin/bash"), true), "/bin/bash");
    assert_eq!(detect_shell(None, false, some("/bin/bash"), false), "/bin/sh");
    assert_eq!(detect_shell(None, false, None, false), "/bin/sh");
    // A file that cannot be executed is no shell.
    assert_eq!(detect_shell(some("/etc/hosts"), false, None, false), "/bin/sh");
    assert_eq!(passwd_shell(some("")), None);
    assert_eq!(passwd_shell(some("/bin/fish")), some("/bin/fish"));
    assert_eq!(passwd_shell(None), None);
}

#[test]
fn android_and_windows_have_shells_of_their_own() {
    assert_eq!(detect_android_shell(some("/data/bin/zsh"), true), "/data/bin/zsh");
    assert_eq!(detect_android_shell(some("/data/bin/zsh"), false), "/system/bin/sh");
    assert_eq!(detect_android_shell(some(""), true), "/system/bin/sh");
    assert_eq!(detect_android_shell(None, false), "/system/bin/sh");
    assert_eq!(detect_windows_shell(true, true), "pwsh.exe");
    assert_eq!(detect_windows_shell(false, true), "powershell.exe");
    assert_eq!(detect_windows_shell(false, false), "cmd.exe");
}

#[test]
fn a_terminal_without_a_command_runs_a_login_shell() {
    let sh = "/bin/sh".to_string();
    assert_eq!(
        PtyMultiplexer::plan(None, sh.clone()),
        CommandPlan::LoginShell("/bin/sh".to_string())
    );
    assert_eq!(
        PtyMultiplexer::plan(Some(vec!["/bin/cat".to_string(), "-n".to_string()]), sh.clone()),
        CommandPlan::Direct { program: "/bin/cat".to_string(), args: vec!["-n".to_string()] }
    );
    assert_eq!(
        PtyMultiplexer::plan(Some(Vec::new()), sh),
        CommandPlan::LoginShell("/bin/sh".to_string())
    );
}

#[test]
fn commands_run_as_they_are_and_shells_as_login_shells() {
    let echo = || Some(vec!["/bin/echo".to_string(), "test".to_string()]);
    assert_eq!(
        command_plan(echo(), false, "/bin/sh".to_string()),
        CommandPlan::Direct { program: "/bin/echo".to_string(), args: vec!["test".to_string()] }
    );
    assert_eq!(
        command_plan(echo(), true, "/bin/sh".to_string()),
        CommandPlan::LoginShell("/bin/echo".to_string())
    );
    let sh = CommandPlan::LoginShell("/bin/sh".to_string());
    assert_eq!(command_plan(None, true, "/bin/sh".to_string()), sh);
    assert_eq!(command_plan(None, false, "/bin/sh".to_string()), sh);
    assert_eq!(command_plan(Some(Vec::new()), false, "/bin/sh".to_string()), sh);
    assert_eq!(effective_command(echo(), some("/bin/zsh"), true), (echo(), false));
    assert_eq!(
        effective_command(None, some("/bin/zsh"), false),
        (Some(vec!["/bin/zsh".to_string()]), true)
    );
    assert_eq!(effective_command(None, None, false), (None, false));
}

#[test]
fn output_is_read_until_its_end() {
    assert!(reads_on(Some(3), true));
    assert!(!reads_on(Some(3), false));
    assert!(!reads_on(Some(0), true));
    assert!(!reads_on(None, true));
}

#[test]
fn an_interrupt_is_control_c_unless_set_otherwise() {
    assert_eq!(interrupt_byte(None), 0x03);
    assert_eq!(interrupt_byte(Some(0x1c)), 0x1c);
}

#[test]
fn failed_steps_have_words() {
    let words = |step: PtyStep| pty_error(step, "why").message().to_string();
    assert_eq!(words(PtyStep::Open), "failed to open PTY: why");
    assert_eq!(words(PtyStep::Spawn), "failed to spawn process: why");
    assert_eq!(words(PtyStep::CloneReader), "failed to clone PTY reader: why");
    assert_eq!(words(PtyStep::TakeWriter), "failed to take PTY writer: why");
    assert_eq!(words(PtyStep::Resize), "failed to resize PTY: why");
    assert_eq!(words(PtyStep::Wait), "failed to wait on child: why");
    assert_eq!(words(PtyStep::Kill), "failed to kill child: why");
}

#[test]
fn a_terminal_has_24_by_80_cells() {
    assert_eq!(
        PtySize::default(),
        PtySize { rows: 24, cols: 80, pixel_width: 0, pixel_height: 0 }
    );
}

#[test]
fn numbers_of_terminals_are_not_used_again() {
    let mut m = PtyMultiplexer::new();
    assert!(m.has_numbers());
    let a = m.spawn(Ok(())).unwrap();
    let b = m.spawn(Ok(())).unwrap();
    assert_ne!(a, b);
    assert_eq!(m.active_ids(), vec![a, b]);
    m.close(b).unwrap();
    let c = m.spawn(Ok(())).unwrap();
    assert_ne!(c, a);
    assert_ne!(c, b);
    assert!(m.spawn(Err(ForgettyError::Pty("no".to_string()))).is_err());
    assert_eq!(m.active_ids(), vec![a, c]);
    assert!(m.write(a, Ok(())).is_ok());
    assert!(m.write(b, Ok(())).is_err());
    assert!(m.resize(c, Err(ForgettyError::Pty("no".to_string()))).is_err());
    assert!(m.close(b).is_err());
    assert_eq!(m.close_all(), vec![a, c]);
    assert!(m.active_ids().is_empty());
    assert!(b.as_u64() > a.as_u64());
    assert!(a.to_text().contains(&a.as_u64().to_string()));
}
