//! Which program is started, and which terminals are open.

use vstd::prelude::*;

use crate::pty::bridge::effective;
use crate::pty::multiplexer::{
    after_op, after_ops, multiplexer_ok, pty_name, without_pty, MultiplexerModel, PtyOp,
};
use crate::pty::process::{android_shell_chosen, plan_for, shell_chosen, PlanModel};
use crate::seqs::lemma_first_is;
use crate::text_laws::{law_decimal_stands_for_the_number, number_of};

verus! {

/// The shell is the one that the environment names, where that is not empty and can be
/// run; else that of the table of users, where it exists; else the one every system has.
pub proof fn law_which_shell_is_chosen(
    env: Option<Seq<char>>,
    env_executable: bool,
    passwd: Option<Seq<char>>,
    passwd_exists: bool,
)
    ensures
        ({
            let shell = shell_chosen(env, env_executable, passwd, passwd_exists);
            let by_env = env is Some && env->0.len() > 0 && env_executable;
            &&& by_env ==> Some(shell) == env
            &&& !by_env && passwd is Some && passwd_exists ==> Some(shell) == passwd
            &&& !by_env && !(passwd is Some && passwd_exists) ==> shell == "/bin/sh"@
        }),
        ({
            let shell = android_shell_chosen(env, env_executable);
            let by_env = env is Some && env->0.len() > 0 && env_executable;
            &&& by_env ==> Some(shell) == env
            &&& !by_env ==> shell == "/system/bin/sh"@
        }),
{
}

/// What is run of a command: its first word with the others as arguments, or its first
/// word as a login shell; without a word the shell of the user.
pub proof fn law_what_is_run(
    command: Option<Seq<Seq<char>>>,
    login_shell: bool,
    detected: Seq<char>,
)
    ensures
        ({
            let plan = plan_for(command, login_shell, detected);
            let empty = command is None || command->0.len() == 0;
            &&& empty ==> plan == PlanModel::LoginShell(detected)
            &&& !empty && login_shell ==> plan == PlanModel::LoginShell(command->0[0])
            &&& !empty && !login_shell ==> plan is Direct && seq![plan->program] + plan->args
                == command->0
        }),
{
    let plan = plan_for(command, login_shell, detected);
    if command is Some && command->0.len() > 0 && !login_shell {
        assert(seq![plan->program] + plan->args =~= command->0);
    }
}

/// A command that is given is run as it is; a shell that is set is run as a login shell;
/// else it is as was asked.
pub proof fn law_which_command_counts(
    command: Option<Seq<Seq<char>>>,
    shell: Option<Seq<char>>,
    login_shell: bool,
)
    ensures
        command is Some ==> effective(command, shell, login_shell) == (command, false),
        command is None && shell is Some ==> effective(command, shell, login_shell).1 && effective(
            command,
            shell,
            login_shell,
        ).0 is Some && effective(command, shell, login_shell).0->0 == seq![shell->0],
        command is None && shell is None ==> effective(command, shell, login_shell) == (
            command,
            login_shell,
        ),
{
}

/// A terminal that is closed is no longer open, and all others are as they were, in their
/// order; one that is opened stands behind them under a number that none had.
pub proof fn law_open_terminals(m: MultiplexerModel, n: u64, other: u64)
    requires
        multiplexer_ok(m),
        m.next_id < u64::MAX,
    ensures
        ({
            let closed = after_op(m, PtyOp::Close { n });
            let opened = after_op(m, PtyOp::Spawn { opened: true });
            let failed = after_op(m, PtyOp::Spawn { opened: false });
            &&& closed.open.contains(other) <==> m.open.contains(other) && other != n
            &&& closed.next_id == m.next_id
            &&& m.open.contains(n) ==> closed.open.len() == m.open.len() - 1
            &&& !m.open.contains(n) ==> closed == m
            &&& opened.open == m.open.push(m.next_id)
            &&& !m.open.contains(m.next_id)
            &&& opened.next_id == m.next_id + 1
            &&& failed.open == m.open
            &&& failed.next_id == m.next_id + 1
            &&& after_op(m, PtyOp::CloseAll).open.len() == 0
            &&& after_op(m, PtyOp::CloseAll).next_id == m.next_id
        }),
{
    lemma_first_is(m.open, n);
    let closed = without_pty(m, n);
    match m.open.index_of_first(n) {
        Some(i) => {
            if closed.open.contains(other) {
                let k = choose|k: int| 0 <= k < closed.open.len() && closed.open[k] == other;
                let j = if k < i {
                    k
                } else {
                    k + 1
                };
                assert(m.open[j] == other);
                assert(m.open[i] == n);
            }
            if m.open.contains(other) && other != n {
                let j = choose|j: int| 0 <= j < m.open.len() && m.open[j] == other;
                let k = if j < i {
                    j
                } else {
                    j - 1
                };
                assert(closed.open[k] == other);
            }
        },
        None => {},
    }
}

/// What is done to terminals is done one after the other.
pub proof fn law_one_after_the_other(m: MultiplexerModel, a: Seq<PtyOp>, b: Seq<PtyOp>, op: PtyOp)
    ensures
        after_ops(m, Seq::empty()) == m,
        after_ops(m, seq![op]) == after_op(m, op),
        after_ops(m, a + b) == after_ops(after_ops(m, a), b),
    decreases b.len(),
{
    reveal_with_fuel(after_ops, 2);
    assert(seq![op].drop_last() =~= Seq::empty());
    if b.len() == 0 {
        assert(a + b =~= a);
    } else {
        assert((a + b).drop_last() =~= a + b.drop_last());
        assert((a + b).last() == b.last());
        law_one_after_the_other(m, a, b.drop_last(), op);
    }
}

/// The name of a terminal ends in its number.
pub proof fn law_name_of_a_terminal(n: u64)
    ensures
        pty_name(n).len() > 4,
        pty_name(n).take(4) == "pty-"@,
        number_of(pty_name(n).skip(4)) == n,
{
    law_decimal_stands_for_the_number(n as nat);
    reveal_strlit("pty-");
    assert(pty_name(n).take(4) =~= "pty-"@);
    assert(pty_name(n).skip(4) =~= crate::text::decimal(n as nat));
}

} // verus!
