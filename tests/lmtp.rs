use mailstore::delivery::{CreateResult, Probe, ProbeStep};
use mailstore::email::Email;
use mailstore::lmtp::{outcome_response, Lmtp, LmtpAction, RecipientOutcome};
use mailstore::server::{Server, User};

fn server() -> Server {
    let users = vec![
        User::new(Email::new("u1".to_string(), "example.com".to_string()), "/mail/u1".to_string()),
        User::new(Email::new("u2".to_string(), "example.com".to_string()), "/mail/u2".to_string()),
    ];
    Server::new("mx.example.com".to_string(), users)
}

fn text(a: LmtpAction) -> String {
    match a {
        LmtpAction::Reply(s) => s,
        LmtpAction::Data(_) => panic!("unexpected data phase"),
    }
}

#[test]
fn lhlo_and_noop() {
    let s = server();
    let mut l = Lmtp::new();
    assert_eq!(text(l.command(&s, "LHLO client.example\r\n")), "250 client.example\r\n");
    assert_eq!(text(l.command(&s, "LHLO\r\n")), "500 Invalid command\r\n");
    assert_eq!(text(l.command(&s, "noop\r\n")), "250 OK\r\n");
    assert_eq!(text(l.command(&s, "VRFY u1\r\n")), "500 Invalid command\r\n");
    assert_eq!(text(l.command(&s, "\r\n")), "500 Invalid command\r\n");
    assert_eq!(text(l.command(&s, "HELO x\r\n")), "500 Invalid command\r\n");
}

#[test]
fn rcpt_before_mail_is_invalid() {
    let s = server();
    let mut l = Lmtp::new();
    for arg in ["TO:<u1@example.com>", "TO:<nobody@example.com>", "garbage", ""] {
        let line = format!("RCPT {}\r\n", arg);
        assert_eq!(text(l.command(&s, &line)), "500 Invalid command\r\n");
    }
    assert!(l.to_path.is_empty());
}

#[test]
fn envelope_accumulates_and_resets() {
    let s = server();
    let mut l = Lmtp::new();
    assert_eq!(text(l.command(&s, "MAIL FROM:<a@b>\r\n")), "250 OK\r\n");
    assert_eq!(l.rev_path.as_ref().unwrap().local_part, "a");
    assert_eq!(text(l.command(&s, "MAIL bogus\r\n")), "500 Invalid command\r\n");
    assert_eq!(text(l.command(&s, "RCPT TO:<u2@example.com>\r\n")), "250 OK\r\n");
    assert_eq!(text(l.command(&s, "rcpt to:<u1@example.com>\r\n")), "250 OK\r\n");
    assert_eq!(l.to_path, vec![1, 0]);
    assert_eq!(
        text(l.command(&s, "RCPT TO:<who@example.com>\r\n")),
        "550 No such user who@example.com\r\n"
    );
    assert_eq!(text(l.command(&s, "RCPT FROM\r\n")), "500 Invalid command\r\n");
    assert_eq!(text(l.command(&s, "RSET\r\n")), "250 OK\r\n");
    assert!(l.rev_path.is_none());
    assert!(l.to_path.is_empty());
}

#[test]
fn quit_marks_session_done() {
    let s = server();
    let mut l = Lmtp::new();
    assert_eq!(text(l.command(&s, "QUIT\r\n")), "221 mx.example.com Closing connection\r\n");
    assert!(l.quit);
}

#[test]
fn data_phase_gathers_lines() {
    let s = server();
    let mut l = Lmtp::new();
    match l.command(&s, "DATA\r\n") {
        LmtpAction::Data(p) => assert_eq!(p, "354 Start mail input; end with <CRLF>.<CRLF>\r\n"),
        LmtpAction::Reply(_) => panic!("expected data phase"),
    }
    assert!(!l.data_line("Subject: hi\r\n"));
    assert!(!l.data_line("\r\n"));
    assert!(!l.data_line("..\r\n"));
    assert!(l.data_line(".\r\n"));
    assert_eq!(l.data, "Subject: hi\n\n..\n");
}

#[test]
fn delivery_without_recipients() {
    let mut l = Lmtp::new();
    l.data_line("anything at all\r\n");
    let r = l.deliver(&vec![RecipientOutcome::Stored]);
    assert_eq!(r, "503 Bad sequence - no recipients");
    assert_eq!(l.data, "");
}

#[test]
fn delivery_failure_is_per_recipient() {
    let s = server();
    let mut l = Lmtp::new();
    l.command(&s, "MAIL FROM:<a@b>\r\n");
    l.command(&s, "RCPT TO:<u1@example.com>\r\n");
    l.command(&s, "RCPT TO:<u2@example.com>\r\n");
    l.data_line("body\r\n");
    let r = l.deliver(&vec![RecipientOutcome::StoreFailed, RecipientOutcome::Stored]);
    assert_eq!(r, "451 Error in processing.\r\n250 OK\r\n");
    assert_eq!(l.data, "");
    assert_eq!(l.to_path, vec![0, 1]);
}

#[test]
fn clock_failure_line() {
    let r = outcome_response(&vec![RecipientOutcome::ClockFailed, RecipientOutcome::Stored]);
    assert_eq!(r, "555 UNIX time error\r\n250 OK\r\n");
    assert_eq!(outcome_response(&vec![]), "");
}

#[test]
fn probe_moves_past_taken_names() {
    let mut p = Probe::new(1000);
    assert_eq!(p.candidate(), 1000);
    assert_eq!(p.observe(CreateResult::Exists), ProbeStep::Retry);
    assert_eq!(p.candidate(), 1001);
    assert_eq!(p.observe(CreateResult::Created), ProbeStep::Write);
    assert_eq!(p.candidate(), 1001);
}

#[test]
fn same_second_deliveries_get_increasing_names() {
    // First delivery at second 50 finds 50 free; the second, in the same
    // second, finds 50 taken and moves on.
    let mut first = Probe::new(50);
    assert_eq!(first.observe(CreateResult::Created), ProbeStep::Write);
    let mut second = Probe::new(50);
    assert_eq!(second.observe(CreateResult::Exists), ProbeStep::Retry);
    assert_eq!(second.observe(CreateResult::Created), ProbeStep::Write);
    assert!(second.candidate() > first.candidate());
}

#[test]
fn probe_gives_up_on_failure_and_at_the_end() {
    let mut p = Probe::new(7);
    assert_eq!(p.observe(CreateResult::Failed), ProbeStep::Abandon);
    let mut q = Probe::new(u64::MAX);
    assert_eq!(q.observe(CreateResult::Exists), ProbeStep::Abandon);
    assert_eq!(q.candidate(), u64::MAX);
}

#[test]
fn lookup_takes_last_entry() {
    let users = vec![
        User::new(Email::new("a".to_string(), "b".to_string()), "/one".to_string()),
        User::new(Email::new("a".to_string(), "b".to_string()), "/two".to_string()),
    ];
    let s = Server::new("h".to_string(), users);
    assert_eq!(s.lookup(&Email::new("a".to_string(), "b".to_string())), Some(1));
    assert_eq!(s.lookup(&Email::new("a".to_string(), "c".to_string())), None);
    assert_eq!(s.host(), "h");
}
