//! The per-connection session state machine.
//!
//! A session starts in command mode with an empty transaction. In command
//! mode each input line yields exactly one response: `DATA` switches to
//! data-collection mode, `QUIT` answers and closes, and every other line is
//! handed to the command interpreter. In data mode lines are buffered
//! silently until a lone `.` line arrives; the buffered lines, joined with
//! the canonical line ending, are then handed to the mail store and the
//! session returns to command mode.
//!
//! The machine itself does no I/O: `step` consumes one input line and
//! returns the [`Action`] the caller must perform (send a line, close,
//! deliver a message). The caller owns the stream and the store.

use vstd::prelude::*;

use crate::interpreter::{handle_smtp_command, interpret};
use crate::text::{eq_str, eq_upper, upper_seq};

verus! {

/// The canonical line ending used between body lines and at the end of
/// every response.
pub open spec fn crlf() -> Seq<char> {
    "\r\n"@
}

/// The lone line that ends a data block.
pub open spec fn terminator() -> Seq<char> {
    "."@
}

/// The greeting sent once, immediately after a connection is accepted.
pub open spec fn greeting() -> Seq<char> {
    "220 SampleSMTP Ready\r\n"@
}

/// The response that acknowledges `DATA` and invites the body lines.
pub open spec fn data_go_ahead_response() -> Seq<char> {
    "354 End data with <CR><LF>.<CR><LF>\r\n"@
}

/// The response sent after a completed body has been stored.
pub open spec fn accepted_response() -> Seq<char> {
    "250 OK: message accepted\r\n"@
}

/// Whether the session is interpreting commands or collecting body lines.
pub enum Mode {
    Command,
    Data,
}

/// One per-connection session: the current mode and the transaction state.
pub struct Session {
    pub mode: Mode,
    pub sender: String,
    pub recipient: String,
    pub pending_body: Vec<String>,
}

/// The mathematical model of a session.
pub ghost struct SessionView {
    pub mode: Mode,
    pub sender: Seq<char>,
    pub recipient: Seq<char>,
    pub pending: Seq<Seq<char>>,
}

impl View for Session {
    type V = SessionView;

    open spec fn view(&self) -> SessionView {
        SessionView {
            mode: self.mode,
            sender: self.sender@,
            recipient: self.recipient@,
            pending: self.pending_body.deep_view(),
        }
    }
}

/// What the caller must do after one step: send a line and go on, send a
/// line and close, do nothing, or store a message and then send the
/// acknowledgement (closing instead if the store fails).
pub enum Action {
    Reply(String),
    ReplyThenClose(String),
    Silent,
    Deliver { recipient: String, body: String, response: String },
}

/// The mathematical model of an [`Action`].
pub ghost enum ActionView {
    Reply(Seq<char>),
    ReplyThenClose(Seq<char>),
    Silent,
    Deliver { recipient: Seq<char>, body: Seq<char>, response: Seq<char> },
}

impl View for Action {
    type V = ActionView;

    open spec fn view(&self) -> ActionView {
        match self {
            Action::Reply(r) => ActionView::Reply(r@),
            Action::ReplyThenClose(r) => ActionView::ReplyThenClose(r@),
            Action::Silent => ActionView::Silent,
            Action::Deliver { recipient, body, response } => ActionView::Deliver {
                recipient: recipient@,
                body: body@,
                response: response@,
            },
        }
    }
}

/// The body lines joined with the canonical line ending: empty for no
/// lines, and no trailing separator.
pub open spec fn join_crlf(lines: Seq<Seq<char>>) -> Seq<char>
    decreases lines.len(),
{
    if lines.len() == 0 {
        Seq::empty()
    } else if lines.len() == 1 {
        lines[0]
    } else {
        lines[0] + crlf() + join_crlf(lines.drop_first())
    }
}

pub proof fn lemma_join_crlf_push(lines: Seq<Seq<char>>, x: Seq<char>)
    ensures
        join_crlf(lines.push(x)) == if lines.len() == 0 {
            x
        } else {
            join_crlf(lines) + crlf() + x
        },
    decreases lines.len(),
{
    if lines.len() == 0 {
        assert(lines.push(x)[0] == x);
    } else {
        lemma_join_crlf_push(lines.drop_first(), x);
        assert(lines.push(x).drop_first() =~= lines.drop_first().push(x));
        assert(lines.push(x)[0] == lines[0]);
        if lines.len() > 1 {
            assert(lines[0] + crlf() + (join_crlf(lines.drop_first()) + crlf() + x) =~= (lines[0]
                + crlf() + join_crlf(lines.drop_first())) + crlf() + x);
        }
    }
}

/// Join the buffered body lines into one body string.
pub fn join_lines_crlf(lines: &Vec<String>) -> (r: String)
    ensures
        r@ == join_crlf(lines.deep_view()),
{
    let ghost dv = lines.deep_view();
    let mut r = String::new();
    let mut i: usize = 0;
    while i < lines.len()
        invariant
            i <= lines.len(),
            dv == lines.deep_view(),
            dv.len() == lines@.len(),
            r@ == join_crlf(dv.subrange(0, i as int)),
        decreases lines.len() - i,
    {
        if i > 0 {
            r.append("\r\n");
        }
        r.append(lines[i].as_str());
        proof {
            assert(dv[i as int] == lines@[i as int]@);
            assert(dv.subrange(0, i as int).push(dv[i as int]) =~= dv.subrange(0, i + 1));
            lemma_join_crlf_push(dv.subrange(0, i as int), dv[i as int]);
        }
        i += 1;
    }
    proof {
        assert(dv.subrange(0, lines@.len() as int) =~= dv);
    }
    r
}

/// What one step does: the session after the line, and the action owed.
pub ghost struct StepOutcome {
    pub next: SessionView,
    pub action: ActionView,
}

/// The session state machine's full behaviour on one input line.
pub open spec fn step_spec(sv: SessionView, line: Seq<char>) -> StepOutcome {
    if sv.mode is Data {
        if line == terminator() {
            StepOutcome {
                next: SessionView {
                    mode: Mode::Command,
                    sender: sv.sender,
                    recipient: sv.recipient,
                    pending: Seq::empty(),
                },
                action: ActionView::Deliver {
                    recipient: sv.recipient,
                    body: join_crlf(sv.pending),
                    response: accepted_response(),
                },
            }
        } else {
            StepOutcome {
                next: SessionView {
                    mode: Mode::Data,
                    sender: sv.sender,
                    recipient: sv.recipient,
                    pending: sv.pending.push(line),
                },
                action: ActionView::Silent,
            }
        }
    } else {
        if upper_seq(line) == "DATA"@ {
            StepOutcome {
                next: SessionView {
                    mode: Mode::Data,
                    sender: sv.sender,
                    recipient: sv.recipient,
                    pending: sv.pending,
                },
                action: ActionView::Reply(data_go_ahead_response()),
            }
        } else {
            let out = interpret(line, sv.sender, sv.recipient);
            let next = SessionView {
                mode: Mode::Command,
                sender: out.sender,
                recipient: out.recipient,
                pending: sv.pending,
            };
            if upper_seq(line) == "QUIT"@ {
                StepOutcome { next, action: ActionView::ReplyThenClose(out.response) }
            } else {
                StepOutcome { next, action: ActionView::Reply(out.response) }
            }
        }
    }
}

impl Session {
    /// A fresh session, as created when a connection is accepted.
    pub fn new() -> (s: Session)
        ensures
            s@.mode is Command,
            s@.sender == Seq::<char>::empty(),
            s@.recipient == Seq::<char>::empty(),
            s@.pending == Seq::<Seq<char>>::empty(),
    {
        let s = Session {
            mode: Mode::Command,
            sender: String::new(),
            recipient: String::new(),
            pending_body: Vec::new(),
        };
        proof {
            assert(s.pending_body.deep_view() =~= Seq::<Seq<char>>::empty());
        }
        s
    }

    /// Consume one input line and return the action owed for it.
    pub fn step(&mut self, line: &str) -> (action: Action)
        ensures
            final(self)@ == step_spec(old(self)@, line@).next,
            action@ == step_spec(old(self)@, line@).action,
    {
        match self.mode {
            Mode::Data => {
                if eq_str(line, ".") {
                    self.mode = Mode::Command;
                    let body = join_lines_crlf(&self.pending_body);
                    self.pending_body = Vec::new();
                    proof {
                        assert(self.pending_body.deep_view() =~= Seq::<Seq<char>>::empty());
                    }
                    Action::Deliver {
                        recipient: self.recipient.clone(),
                        body,
                        response: String::from_str("250 OK: message accepted\r\n"),
                    }
                } else {
                    let ghost pending0 = self.pending_body.deep_view();
                    self.pending_body.push(String::from_str(line));
                    proof {
                        assert(self.pending_body.deep_view() =~= pending0.push(line@));
                    }
                    Action::Silent
                }
            },
            Mode::Command => {
                if eq_upper(line, "DATA") {
                    self.mode = Mode::Data;
                    Action::Reply(String::from_str("354 End data with <CR><LF>.<CR><LF>\r\n"))
                } else {
                    let response = handle_smtp_command(line, &mut self.sender, &mut self.recipient);
                    if eq_upper(line, "QUIT") {
                        Action::ReplyThenClose(response)
                    } else {
                        Action::Reply(response)
                    }
                }
            },
        }
    }
}

/// The greeting line, ready to send.
pub fn greeting_line() -> (r: String)
    ensures
        r@ == greeting(),
{
    String::from_str("220 SampleSMTP Ready\r\n")
}

/// The session run over a whole sequence of input lines: the final state
/// and the action owed for each line, in order.
pub open spec fn run_spec(sv: SessionView, lines: Seq<Seq<char>>) -> (SessionView, Seq<ActionView>)
    decreases lines.len(),
{
    if lines.len() == 0 {
        (sv, Seq::empty())
    } else {
        let first = step_spec(sv, lines[0]);
        let rest = run_spec(first.next, lines.drop_first());
        (rest.0, seq![first.action] + rest.1)
    }
}

/// How many of the actions deliver a message to the store.
pub open spec fn deliver_count(actions: Seq<ActionView>) -> nat
    decreases actions.len(),
{
    if actions.len() == 0 {
        0
    } else {
        (if actions[0] is Deliver {
            1nat
        } else {
            0nat
        }) + deliver_count(actions.drop_first())
    }
}

pub proof fn lemma_deliver_count_append(a: Seq<ActionView>, b: Seq<ActionView>)
    ensures
        deliver_count(a + b) == deliver_count(a) + deliver_count(b),
    decreases a.len(),
{
    if a.len() == 0 {
        assert(a + b =~= b);
    } else {
        assert((a + b)[0] == a[0]);
        assert((a + b).drop_first() =~= a.drop_first() + b);
        lemma_deliver_count_append(a.drop_first(), b);
    }
}

/// Running over a concatenation is running over the parts in turn.
pub proof fn lemma_run_append(sv: SessionView, a: Seq<Seq<char>>, b: Seq<Seq<char>>)
    ensures
        ({
            let ra = run_spec(sv, a);
            let rb = run_spec(ra.0, b);
            run_spec(sv, a + b) == (rb.0, ra.1 + rb.1)
        }),
    decreases a.len(),
{
    if a.len() == 0 {
        assert(a + b =~= b);
        assert(Seq::<ActionView>::empty() + run_spec(sv, b).1 =~= run_spec(sv, b).1);
    } else {
        assert((a + b)[0] == a[0]);
        assert((a + b).drop_first() =~= a.drop_first() + b);
        let first = step_spec(sv, a[0]);
        lemma_run_append(first.next, a.drop_first(), b);
        let ra1 = run_spec(first.next, a.drop_first());
        let rb = run_spec(run_spec(sv, a).0, b);
        assert(seq![first.action] + (ra1.1 + rb.1) =~= (seq![first.action] + ra1.1) + rb.1);
    }
}

/// A data block whose terminator never arrives delivers nothing: the lines
/// are buffered in order, every action is silent, and the store is never
/// invoked — a stream that closes mid-body discards the partial body.
pub proof fn lemma_data_without_terminator_delivers_nothing(sv: SessionView, lines: Seq<Seq<char>>)
    requires
        sv.mode is Data,
        forall|i: int| 0 <= i < lines.len() ==> lines[i] != terminator(),
    ensures
        run_spec(sv, lines).0 == (SessionView {
            mode: Mode::Data,
            sender: sv.sender,
            recipient: sv.recipient,
            pending: sv.pending + lines,
        }),
        run_spec(sv, lines).1.len() == lines.len(),
        forall|i: int| 0 <= i < lines.len() ==> run_spec(sv, lines).1[i] is Silent,
        deliver_count(run_spec(sv, lines).1) == 0,
    decreases lines.len(),
{
    if lines.len() == 0 {
        assert(sv.pending + lines =~= sv.pending);
    } else {
        let first = step_spec(sv, lines[0]);
        assert(lines[0] != terminator());
        lemma_data_without_terminator_delivers_nothing(first.next, lines.drop_first());
        assert(sv.pending.push(lines[0]) + lines.drop_first() =~= sv.pending + lines);
        let rest = run_spec(first.next, lines.drop_first());
        assert((seq![first.action] + rest.1).drop_first() =~= rest.1);
    }
}

/// A data block terminated by a lone `.` triggers exactly one delivery,
/// and its body is the non-terminator lines joined in their original order
/// with the canonical line ending.
pub proof fn lemma_data_block_delivers_exactly_once(sv: SessionView, lines: Seq<Seq<char>>)
    requires
        sv.mode is Data,
        sv.pending == Seq::<Seq<char>>::empty(),
        forall|i: int| 0 <= i < lines.len() ==> lines[i] != terminator(),
    ensures
        ({
            let r = run_spec(sv, lines.push(terminator()));
            &&& r.1.len() == lines.len() + 1
            &&& deliver_count(r.1) == 1
            &&& r.1.last() == (ActionView::Deliver {
                recipient: sv.recipient,
                body: join_crlf(lines),
                response: accepted_response(),
            })
            &&& r.0.mode is Command
            &&& r.0.pending == Seq::<Seq<char>>::empty()
            &&& r.0.sender == sv.sender
            &&& r.0.recipient == sv.recipient
        }),
{
    lemma_run_append(sv, lines, seq![terminator()]);
    lemma_data_without_terminator_delivers_nothing(sv, lines);
    assert(lines + seq![terminator()] =~= lines.push(terminator()));
    let ra = run_spec(sv, lines);
    assert(ra.0.pending =~= lines);
    let rb = run_spec(ra.0, seq![terminator()]);
    let dstep = step_spec(ra.0, terminator());
    assert(seq![terminator()][0] == terminator());
    assert(seq![terminator()].drop_first() =~= Seq::<Seq<char>>::empty());
    assert(run_spec(dstep.next, Seq::<Seq<char>>::empty()) == (dstep.next, Seq::<
        ActionView,
    >::empty()));
    assert(rb == (dstep.next, seq![dstep.action] + Seq::<ActionView>::empty()));
    assert(rb.1 =~= seq![dstep.action]);
    assert(dstep.action == (ActionView::Deliver {
        recipient: sv.recipient,
        body: join_crlf(ra.0.pending),
        response: accepted_response(),
    }));
    assert(join_crlf(ra.0.pending) == join_crlf(lines));
    lemma_deliver_count_append(ra.1, rb.1);
    assert(deliver_count(seq![dstep.action]) == 1 + deliver_count(
        seq![dstep.action].drop_first(),
    ));
    assert(seq![dstep.action].drop_first() =~= Seq::<ActionView>::empty());
    assert((ra.1 + rb.1).last() == dstep.action);
    assert(run_spec(sv, lines.push(terminator())) == (rb.0, ra.1 + rb.1));
}

} // verus!
