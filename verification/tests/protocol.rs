use mini_smtp::interpreter::handle_smtp_command;
use mini_smtp::session::{greeting_line, Action, Mode, Session};
use mini_smtp::store::sanitize_recipient;

fn fresh_state() -> (String, String) {
    (String::new(), String::new())
}

#[test]
fn unknown_command_gets_502_and_changes_nothing() {
    let (mut sender, mut recipient) = fresh_state();
    sender.push_str("<kept@old>");
    recipient.push_str("<kept@old>");
    let response = handle_smtp_command("NOOP", &mut sender, &mut recipient);
    assert_eq!(response, "502 Command not implemented\r\n");
    assert_eq!(sender, "<kept@old>");
    assert_eq!(recipient, "<kept@old>");
}

#[test]
fn ehlo_is_not_helo() {
    let (mut sender, mut recipient) = fresh_state();
    let response = handle_smtp_command("EHLO test", &mut sender, &mut recipient);
    assert_eq!(response, "502 Command not implemented\r\n");
}

#[test]
fn empty_line_gets_502() {
    let (mut sender, mut recipient) = fresh_state();
    let response = handle_smtp_command("", &mut sender, &mut recipient);
    assert_eq!(response, "502 Command not implemented\r\n");
    assert_eq!(sender, "");
    assert_eq!(recipient, "");
}

#[test]
fn helo_is_case_insensitive() {
    let (mut sender, mut recipient) = fresh_state();
    let response = handle_smtp_command("helo test", &mut sender, &mut recipient);
    assert_eq!(response, "250 Hello\r\n");
    assert_eq!(sender, "");
    assert_eq!(recipient, "");
}

#[test]
fn mail_from_sets_trimmed_sender() {
    let (mut sender, mut recipient) = fresh_state();
    let response = handle_smtp_command("MAIL FROM:   <a@b.com>  ", &mut sender, &mut recipient);
    assert_eq!(response, "250 OK\r\n");
    assert_eq!(sender, "<a@b.com>");
    assert_eq!(recipient, "");
}

#[test]
fn mail_from_lower_case_keeps_original_argument_case() {
    let (mut sender, mut recipient) = fresh_state();
    let response = handle_smtp_command("mail from:<MiXeD@Case>", &mut sender, &mut recipient);
    assert_eq!(response, "250 OK\r\n");
    assert_eq!(sender, "<MiXeD@Case>");
}

#[test]
fn mail_from_with_empty_argument_sets_empty_sender() {
    let (mut sender, mut recipient) = fresh_state();
    sender.push_str("<old@value>");
    let response = handle_smtp_command("MAIL FROM:", &mut sender, &mut recipient);
    assert_eq!(response, "250 OK\r\n");
    assert_eq!(sender, "");
}

#[test]
fn mail_from_last_write_wins() {
    let (mut sender, mut recipient) = fresh_state();
    handle_smtp_command("MAIL FROM:<x@one.com>", &mut sender, &mut recipient);
    handle_smtp_command("HELO again", &mut sender, &mut recipient);
    handle_smtp_command("MAIL FROM:<y@two.com>", &mut sender, &mut recipient);
    assert_eq!(sender, "<y@two.com>");
}

#[test]
fn rcpt_to_sets_trimmed_recipient() {
    let (mut sender, mut recipient) = fresh_state();
    let response = handle_smtp_command("RCPT TO: <c@d.com> ", &mut sender, &mut recipient);
    assert_eq!(response, "250 OK\r\n");
    assert_eq!(sender, "");
    assert_eq!(recipient, "<c@d.com>");
}

#[test]
fn quit_must_match_exactly() {
    let (mut sender, mut recipient) = fresh_state();
    let response = handle_smtp_command("quit", &mut sender, &mut recipient);
    assert_eq!(response, "221 Bye\r\n");
    let response = handle_smtp_command("QUIT NOW", &mut sender, &mut recipient);
    assert_eq!(response, "502 Command not implemented\r\n");
}

#[test]
fn greeting_line_is_the_banner() {
    assert_eq!(greeting_line(), "220 SampleSMTP Ready\r\n");
}

#[test]
fn new_session_is_in_command_mode_with_empty_state() {
    let s = Session::new();
    assert!(matches!(s.mode, Mode::Command));
    assert_eq!(s.sender, "");
    assert_eq!(s.recipient, "");
    assert!(s.pending_body.is_empty());
}

#[test]
fn data_block_delivers_joined_body_once() {
    let mut s = Session::new();
    assert!(matches!(
        s.step("RCPT TO:<c@d.com>"),
        Action::Reply(_)
    ));
    match s.step("DATA") {
        Action::Reply(r) => assert_eq!(r, "354 End data with <CR><LF>.<CR><LF>\r\n"),
        _ => panic!("DATA must be answered with the 354 response"),
    }
    assert!(matches!(s.step("line one"), Action::Silent));
    assert!(matches!(s.step("line two"), Action::Silent));
    let mut deliveries = 0;
    match s.step(".") {
        Action::Deliver { recipient, body, response } => {
            deliveries += 1;
            assert_eq!(recipient, "<c@d.com>");
            assert_eq!(body, "line one\r\nline two");
            assert_eq!(response, "250 OK: message accepted\r\n");
        }
        _ => panic!("the terminator must trigger a delivery"),
    }
    assert_eq!(deliveries, 1);
    assert!(matches!(s.mode, Mode::Command));
    assert!(s.pending_body.is_empty());
}

#[test]
fn data_block_without_terminator_delivers_nothing() {
    let mut s = Session::new();
    s.step("MAIL FROM:<a@b.com>");
    s.step("RCPT TO:<c@d.com>");
    s.step("DATA");
    let lines = ["half a", "message that never", "ends"];
    let mut deliveries = 0;
    for line in lines {
        match s.step(line) {
            Action::Silent => {}
            Action::Deliver { .. } => deliveries += 1,
            _ => panic!("body lines must produce no response"),
        }
    }
    // The stream closes here: the session is simply dropped.
    assert_eq!(deliveries, 0);
    assert!(matches!(s.mode, Mode::Data));
}

#[test]
fn empty_data_block_delivers_empty_body() {
    let mut s = Session::new();
    s.step("RCPT TO:<c@d.com>");
    s.step("DATA");
    match s.step(".") {
        Action::Deliver { body, .. } => assert_eq!(body, ""),
        _ => panic!("the terminator must trigger a delivery"),
    }
}

#[test]
fn dotted_lines_other_than_lone_dot_are_body_lines() {
    let mut s = Session::new();
    s.step("DATA");
    assert!(matches!(s.step(".."), Action::Silent));
    assert!(matches!(s.step(". "), Action::Silent));
    match s.step(".") {
        Action::Deliver { body, .. } => assert_eq!(body, "..\r\n. "),
        _ => panic!("the terminator must trigger a delivery"),
    }
}

#[test]
fn data_keyword_is_case_insensitive() {
    let mut s = Session::new();
    match s.step("data") {
        Action::Reply(r) => assert_eq!(r, "354 End data with <CR><LF>.<CR><LF>\r\n"),
        _ => panic!("lower-case data must still switch the mode"),
    }
    assert!(matches!(s.mode, Mode::Data));
}

#[test]
fn mail_from_prefix_matches_in_any_case() {
    let (mut sender, mut recipient) = fresh_state();
    let response = handle_smtp_command("MaIl FrOm:<z@q.org>", &mut sender, &mut recipient);
    assert_eq!(response, "250 OK\r\n");
    assert_eq!(sender, "<z@q.org>");
}

#[test]
fn full_session_scenario() {
    let mut s = Session::new();
    let mut responses: Vec<String> = Vec::new();
    let mut deliveries: Vec<(String, String)> = Vec::new();
    let mut closed = false;
    let script = [
        "HELO test",
        "MAIL FROM:<a@b.com>",
        "RCPT TO:<c@d.com>",
        "DATA",
        "hello",
        "world",
        ".",
        "QUIT",
    ];
    for line in script {
        assert!(!closed);
        match s.step(line) {
            Action::Reply(r) => responses.push(r),
            Action::ReplyThenClose(r) => {
                responses.push(r);
                closed = true;
            }
            Action::Silent => {}
            Action::Deliver { recipient, body, response } => {
                deliveries.push((recipient, body));
                responses.push(response);
            }
        }
    }
    assert_eq!(
        responses,
        [
            "250 Hello\r\n",
            "250 OK\r\n",
            "250 OK\r\n",
            "354 End data with <CR><LF>.<CR><LF>\r\n",
            "250 OK: message accepted\r\n",
            "221 Bye\r\n",
        ]
    );
    assert!(closed);
    assert_eq!(deliveries.len(), 1);
    assert_eq!(deliveries[0].0, "<c@d.com>");
    assert_eq!(deliveries[0].1, "hello\r\nworld");
    assert_eq!(sanitize_recipient(&deliveries[0].0), "c_at_d_com");
    assert_eq!(s.sender, "<a@b.com>");
}
