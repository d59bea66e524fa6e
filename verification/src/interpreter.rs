//! The command interpreter: a pure mapping from one command line plus the
//! current transaction state (sender, recipient) to a response line and the
//! updated state.
//!
//! Dispatch is by case-insensitive prefix, first match wins: `HELO`,
//! `MAIL FROM:`, `RCPT TO:`, exact `QUIT`, and a `502` fallback. The argument
//! of `MAIL FROM:` is the trimmed text after its first 10 characters, that of
//! `RCPT TO:` the trimmed text after its first 8; address syntax is not
//! validated, and a repeated command simply overwrites the previous value.

use vstd::prelude::*;

use crate::text::{eq_upper, has_upper_prefix, starts_with_upper, trim_seq, trim_str, upper_seq};

verus! {

/// What one interpreted command yields: the response line and the
/// transaction state after the command.
pub ghost struct CommandOutcome {
    pub response: Seq<char>,
    pub sender: Seq<char>,
    pub recipient: Seq<char>,
}

/// The interpreter's full behaviour on one command line.
pub open spec fn interpret(cmd: Seq<char>, sender: Seq<char>, recipient: Seq<char>) -> CommandOutcome {
    if has_upper_prefix(cmd, "HELO"@) {
        CommandOutcome { response: "250 Hello\r\n"@, sender, recipient }
    } else if has_upper_prefix(cmd, "MAIL FROM:"@) {
        CommandOutcome {
            response: "250 OK\r\n"@,
            sender: trim_seq(cmd.subrange(10, cmd.len() as int)),
            recipient,
        }
    } else if has_upper_prefix(cmd, "RCPT TO:"@) {
        CommandOutcome {
            response: "250 OK\r\n"@,
            sender,
            recipient: trim_seq(cmd.subrange(8, cmd.len() as int)),
        }
    } else if upper_seq(cmd) == "QUIT"@ {
        CommandOutcome { response: "221 Bye\r\n"@, sender, recipient }
    } else {
        CommandOutcome { response: "502 Command not implemented\r\n"@, sender, recipient }
    }
}

/// Interpret one command line, updating the sender and recipient in place
/// and returning the response line (line ending included).
pub fn handle_smtp_command(command: &str, mail_from: &mut String, rcpt_to: &mut String) -> (response:
    String)
    ensures
        ({
            let out = interpret(command@, old(mail_from)@, old(rcpt_to)@);
            &&& response@ == out.response
            &&& final(mail_from)@ == out.sender
            &&& final(rcpt_to)@ == out.recipient
        }),
{
    if starts_with_upper(command, "HELO") {
        String::from_str("250 Hello\r\n")
    } else if starts_with_upper(command, "MAIL FROM:") {
        proof {
            reveal_strlit("MAIL FROM:");
        }
        let n = command.unicode_len();
        let rest = command.substring_char(10, n);
        *mail_from = trim_str(rest);
        String::from_str("250 OK\r\n")
    } else if starts_with_upper(command, "RCPT TO:") {
        proof {
            reveal_strlit("RCPT TO:");
        }
        let n = command.unicode_len();
        let rest = command.substring_char(8, n);
        *rcpt_to = trim_str(rest);
        String::from_str("250 OK\r\n")
    } else if eq_upper(command, "QUIT") {
        String::from_str("221 Bye\r\n")
    } else {
        String::from_str("502 Command not implemented\r\n")
    }
}

/// A command line matching none of `HELO`, `MAIL FROM:`, `RCPT TO:`, or
/// `QUIT` (case-insensitively) is answered with the `502` response, and
/// neither the sender nor the recipient changes. (`DATA` never reaches the
/// interpreter: the session intercepts it.)
pub proof fn lemma_unknown_command_changes_nothing(
    cmd: Seq<char>,
    sender: Seq<char>,
    recipient: Seq<char>,
)
    requires
        !has_upper_prefix(cmd, "HELO"@),
        !has_upper_prefix(cmd, "MAIL FROM:"@),
        !has_upper_prefix(cmd, "RCPT TO:"@),
        upper_seq(cmd) != "QUIT"@,
    ensures
        interpret(cmd, sender, recipient).response == "502 Command not implemented\r\n"@,
        interpret(cmd, sender, recipient).sender == sender,
        interpret(cmd, sender, recipient).recipient == recipient,
{
}

/// Last write wins: after a `MAIL FROM:` line for `x` and, later, one for
/// `y`, the sender is exactly the trimmed argument of the second line —
/// never a combination of both.
pub proof fn lemma_mail_from_last_write_wins(
    cmd1: Seq<char>,
    cmd2: Seq<char>,
    sender: Seq<char>,
    recipient: Seq<char>,
)
    requires
        has_upper_prefix(cmd1, "MAIL FROM:"@),
        has_upper_prefix(cmd2, "MAIL FROM:"@),
    ensures
        ({
            let first = interpret(cmd1, sender, recipient);
            let second = interpret(cmd2, first.sender, first.recipient);
            second.sender == trim_seq(cmd2.subrange(10, cmd2.len() as int))
        }),
{
    lemma_mail_from_sets_sender(cmd1, sender, recipient);
    let first = interpret(cmd1, sender, recipient);
    lemma_mail_from_sets_sender(cmd2, first.sender, first.recipient);
}

/// A `MAIL FROM:` line sets the sender to the trimmed argument of that line
/// alone, whatever the sender was before.
pub proof fn lemma_mail_from_sets_sender(cmd: Seq<char>, sender: Seq<char>, recipient: Seq<char>)
    requires
        has_upper_prefix(cmd, "MAIL FROM:"@),
    ensures
        interpret(cmd, sender, recipient).sender == trim_seq(cmd.subrange(10, cmd.len() as int)),
        interpret(cmd, sender, recipient).recipient == recipient,
{
    reveal_strlit("HELO");
    reveal_strlit("MAIL FROM:");
    if has_upper_prefix(cmd, "HELO"@) {
        assert(upper_seq(cmd.subrange(0, 4))[0] == 'H');
        assert(upper_seq(cmd.subrange(0, 10))[0] == 'M');
        assert(false);
    }
}

} // verus!
