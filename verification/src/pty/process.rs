//! What is run in a terminal, and with which environment.

use vstd::prelude::*;

use crate::error::ForgettyError;
use crate::text::join2;

verus! {

/// What is run in a terminal.
#[derive(Debug, PartialEq, Eq)]
pub enum CommandPlan {
    /// A login shell.
    LoginShell(String),
    /// A program with arguments.
    Direct { program: String, args: Vec<String> },
}

/// Texts as mathematical values.
pub open spec fn args_model(args: Seq<String>) -> Seq<Seq<char>> {
    Seq::new(args.len(), |i: int| args[i]@)
}

/// The same as a mathematical value.
pub ghost enum PlanModel {
    LoginShell(Seq<char>),
    Direct { program: Seq<char>, args: Seq<Seq<char>> },
}

impl View for CommandPlan {
    type V = PlanModel;

    open spec fn view(&self) -> PlanModel {
        match *self {
            CommandPlan::LoginShell(s) => PlanModel::LoginShell(s@),
            CommandPlan::Direct { program, args } => PlanModel::Direct {
                program: program@,
                args: args_model(args@),
            },
        }
    }
}

/// What is run for a command: a shell as a login shell, without arguments; any
/// other program as it is; without a command the user's own shell.
pub open spec fn plan_for(
    command: Option<Seq<Seq<char>>>,
    login_shell: bool,
    detected: Seq<char>,
) -> PlanModel {
    match command {
        Some(args) if args.len() > 0 => if login_shell {
            PlanModel::LoginShell(args[0])
        } else {
            PlanModel::Direct { program: args[0], args: args.skip(1) }
        },
        _ => PlanModel::LoginShell(detected),
    }
}

/// A command as a mathematical value.
pub open spec fn command_model(command: Option<Vec<String>>) -> Option<Seq<Seq<char>>> {
    match command {
        Some(args) => Some(args_model(args@)),
        None => None,
    }
}

/// What is run for a command. `detected` is the user's own shell.
pub fn command_plan(command: Option<Vec<String>>, login_shell: bool, detected: String) -> (plan:
    CommandPlan)
    ensures
        plan@ == plan_for(command_model(command), login_shell, detected@),
{
    let mut args = match command {
        Some(args) => args,
        None => {
            return CommandPlan::LoginShell(detected);
        },
    };
    if args.len() == 0 {
        return CommandPlan::LoginShell(detected);
    }
    let ghost all = args_model(args@);
    let program = args.remove(0);
    if login_shell {
        CommandPlan::LoginShell(program)
    } else {
        assert(args_model(args@) =~= all.skip(1));
        CommandPlan::Direct { program, args }
    }
}

/// The user's own shell: the one that the environment names, where it exists
/// and can be executed; else the one in the table of users, where it exists;
/// else `/bin/sh`.
pub open spec fn shell_chosen(
    env: Option<Seq<char>>,
    env_executable: bool,
    passwd: Option<Seq<char>>,
    passwd_exists: bool,
) -> Seq<char> {
    match env {
        Some(s) if s.len() > 0 && env_executable => s,
        _ => match passwd {
            Some(p) if passwd_exists => p,
            _ => "/bin/sh"@,
        },
    }
}

/// Chooses the user's own shell. `env_executable` says whether the path that the
/// environment names exists and can be executed, `passwd_exists` whether the one
/// in the table of users exists.
pub fn detect_shell(
    env: Option<String>,
    env_executable: bool,
    passwd: Option<String>,
    passwd_exists: bool,
) -> (shell: String)
    ensures
        shell@ == shell_chosen(
            match env {
                Some(s) => Some(s@),
                None => None,
            },
            env_executable,
            match passwd {
                Some(s) => Some(s@),
                None => None,
            },
            passwd_exists,
        ),
{
    if let Some(s) = env {
        if !s.as_str().is_empty() && env_executable {
            return s;
        }
    }
    if let Some(s) = passwd {
        if passwd_exists {
            return s;
        }
    }
    "/bin/sh".to_owned()
}

/// The user's own shell on Android, which has no table of users: the one that
/// the environment names, where it exists; else the shell of the system.
pub open spec fn android_shell_chosen(env: Option<Seq<char>>, env_exists: bool) -> Seq<char> {
    match env {
        Some(s) if s.len() > 0 && env_exists => s,
        _ => "/system/bin/sh"@,
    }
}

/// Chooses the user's own shell on Android.
pub fn detect_android_shell(env: Option<String>, env_exists: bool) -> (shell: String)
    ensures
        shell@ == android_shell_chosen(
            match env {
                Some(s) => Some(s@),
                None => None,
            },
            env_exists,
        ),
{
    if let Some(s) = env {
        if !s.as_str().is_empty() && env_exists {
            return s;
        }
    }
    "/system/bin/sh".to_owned()
}

/// Chooses the user's own shell on Windows: the new PowerShell, else the old
/// one, else the command interpreter. The arguments say which of the first two
/// are found.
pub fn detect_windows_shell(has_pwsh: bool, has_powershell: bool) -> (shell: String)
    ensures
        shell@ == if has_pwsh {
            "pwsh.exe"@
        } else if has_powershell {
            "powershell.exe"@
        } else {
            "cmd.exe"@
        },
{
    if has_pwsh {
        "pwsh.exe".to_owned()
    } else if has_powershell {
        "powershell.exe".to_owned()
    } else {
        "cmd.exe".to_owned()
    }
}

/// The shell in the table of users counts only where it is not empty.
pub fn passwd_shell(entry: Option<String>) -> (shell: Option<String>)
    ensures
        match entry {
            Some(s) if s@.len() > 0 => shell == Some(s),
            _ => shell is None,
        },
{
    match entry {
        Some(s) => if s.as_str().is_empty() {
            None
        } else {
            Some(s)
        },
        None => None,
    }
}

/// Variables with their values.
pub open spec fn variables(vars: Seq<(String, String)>) -> Seq<(Seq<char>, Seq<char>)> {
    Seq::new(vars.len(), |i: int| (vars[i].0@, vars[i].1@))
}

/// The variables that every program in a terminal gets.
pub fn environment(version: &str) -> (vars: Vec<(String, String)>)
    ensures
        variables(vars@) == seq![
            ("TERM"@, "xterm-256color"@),
            ("COLORTERM"@, "truecolor"@),
            ("TERM_PROGRAM"@, "forgetty"@),
            ("TERM_PROGRAM_VERSION"@, version@),
        ],
{
    let mut vars: Vec<(String, String)> = Vec::new();
    vars.push(("TERM".to_owned(), "xterm-256color".to_owned()));
    vars.push(("COLORTERM".to_owned(), "truecolor".to_owned()));
    vars.push(("TERM_PROGRAM".to_owned(), "forgetty".to_owned()));
    vars.push(("TERM_PROGRAM_VERSION".to_owned(), version.to_owned()));
    assert(variables(vars@) =~= seq![
        ("TERM"@, "xterm-256color"@),
        ("COLORTERM"@, "truecolor"@),
        ("TERM_PROGRAM"@, "forgetty"@),
        ("TERM_PROGRAM_VERSION"@, version@),
    ]);
    vars
}

/// A step in opening and using a terminal that can fail.
#[derive(Clone, Copy, Debug, PartialEq, Eq, Structural)]
pub enum PtyStep {
    Open,
    Spawn,
    CloneReader,
    TakeWriter,
    Resize,
    Wait,
    Kill,
}

/// The words for a step that failed.
pub open spec fn step_words(step: PtyStep) -> Seq<char> {
    match step {
        PtyStep::Open => "failed to open PTY: "@,
        PtyStep::Spawn => "failed to spawn process: "@,
        PtyStep::CloneReader => "failed to clone PTY reader: "@,
        PtyStep::TakeWriter => "failed to take PTY writer: "@,
        PtyStep::Resize => "failed to resize PTY: "@,
        PtyStep::Wait => "failed to wait on child: "@,
        PtyStep::Kill => "failed to kill child: "@,
    }
}

/// The error for a step that failed.
pub fn pty_error(step: PtyStep, cause: &str) -> (e: ForgettyError)
    ensures
        e.words() == step_words(step) + cause@,
{
    let words = match step {
        PtyStep::Open => "failed to open PTY: ",
        PtyStep::Spawn => "failed to spawn process: ",
        PtyStep::CloneReader => "failed to clone PTY reader: ",
        PtyStep::TakeWriter => "failed to take PTY writer: ",
        PtyStep::Resize => "failed to resize PTY: ",
        PtyStep::Wait => "failed to wait on child: ",
        PtyStep::Kill => "failed to kill child: ",
    };
    ForgettyError::Pty(join2(words, cause))
}

/// The byte that interrupts the program in a terminal: the one that is set, or
/// else control-C.
pub fn interrupt_byte(vintr: Option<u8>) -> (b: u8)
    ensures
        b == match vintr {
            Some(v) => v,
            None => 3u8,
        },
{
    match vintr {
        Some(v) => v,
        None => 3,
    }
}

} // verus!
