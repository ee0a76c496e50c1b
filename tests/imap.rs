use mailstore::email::Email;
use mailstore::imap::{expunge_response, fetch_response, mailbox_dir_of, FolderStatus, ImapAction, Session};
use mailstore::server::{Server, User};
use mailstore::text::decimal_string;

fn server() -> Server {
    let users = vec![User::new(
        Email::new("bob".to_string(), "example.com".to_string()),
        "/mail/bob".to_string(),
    )];
    Server::new("imap.example.com".to_string(), users)
}

fn reply(a: ImapAction) -> String {
    match a {
        ImapAction::Reply(s) => s,
        _ => panic!("expected a plain reply"),
    }
}

fn logged_in() -> Session {
    let s = server();
    let mut sess = Session::new();
    match sess.interpret("a1 LOGIN bob@example.com secret\r\n") {
        ImapAction::Login { tag, email, address, password } => {
            assert_eq!(tag, "a1");
            assert_eq!(address, "bob@example.com");
            assert_eq!(password, "secret");
            let found = s.lookup(&email);
            assert_eq!(found, Some(0));
            let r = sess.login(&s, &tag, &address, found, true);
            assert_eq!(r, "a1 OK logged in successfully as bob@example.com\r\n");
        }
        _ => panic!("expected a login check"),
    }
    sess
}

#[test]
fn capability_and_unknown() {
    let mut sess = Session::new();
    assert_eq!(
        reply(sess.interpret("t1 CAPABILITY\r\n")),
        "* CAPABILITY IMAP4rev1\nt1 OK Capability successful\n"
    );
    assert_eq!(reply(sess.interpret("t2 FROB\r\n")), "t2 BAD Invalid command\r\n");
    assert_eq!(reply(sess.interpret("t3\r\n")), "t3 BAD Invalid command\r\n");
}

#[test]
fn select_before_login_is_bad() {
    let mut sess = Session::new();
    assert_eq!(reply(sess.interpret("s1 SELECT INBOX\r\n")), "s1 BAD Invalid command\r\n");
    assert!(!sess.selected);
}

#[test]
fn login_denials_look_alike() {
    let s = server();
    let mut a = Session::new();
    let mut b = Session::new();
    let unknown = a.login(&s, "x", "eve@example.com", s.lookup(&Email::new("eve".to_string(), "example.com".to_string())), true);
    let wrong = b.login(&s, "x", "bob@example.com", Some(0), false);
    assert_eq!(unknown, wrong);
    assert_eq!(wrong, "x NO invalid username or password\r\n");
    assert!(a.maildir.is_none() && b.maildir.is_none());
}

#[test]
fn login_needs_two_arguments_and_an_address() {
    let mut sess = Session::new();
    assert_eq!(reply(sess.interpret("l1 LOGIN bob@example.com\r\n")), "l1 BAD Invalid command\r\n");
    assert_eq!(
        reply(sess.interpret("l2 LOGIN bob pw\r\n")),
        "l2 NO invalid username or password\r\n"
    );
    match sess.interpret("l3 login \"bob@example.com\" \"pw\"\r\n") {
        ImapAction::Login { address, password, .. } => {
            assert_eq!(address, "bob@example.com");
            assert_eq!(password, "pw");
        }
        _ => panic!("expected a login check"),
    }
}

#[test]
fn logout_from_any_state() {
    let mut fresh = Session::new();
    match fresh.interpret("z LOGOUT\r\n") {
        ImapAction::Logout(s) => assert_eq!(s, "* BYE Server logging out\r\nz OK Server logged out\r\n"),
        _ => panic!("expected logout"),
    }
    assert!(!fresh.accepts_input());
    let mut sess = logged_in();
    assert!(sess.accepts_input());
    match sess.interpret("z2 logout\r\n") {
        ImapAction::Logout(s) => assert_eq!(s, "* BYE Server logging out\r\nz2 OK Server logged out\r\n"),
        _ => panic!("expected logout"),
    }
    assert!(!sess.accepts_input());
}

#[test]
fn select_maps_inbox_and_reports_counts() {
    let mut sess = logged_in();
    match sess.interpret("s2 SELECT \"INBOX\"\r\n") {
        ImapAction::Select { tag, name, path } => {
            assert_eq!(tag, "s2");
            assert_eq!(name, "INBOX");
            assert_eq!(path, "/mail/bob/.");
        }
        _ => panic!("expected select"),
    }
    let r = sess.select_done("s2", Some(FolderStatus { exists: 12, recent: 0, unseen: 3 }));
    assert_eq!(
        r,
        "* FLAGS (\\Answered \\Deleted \\Draft \\Flagged \\Seen)\n* 12 EXISTS\n* 0 RECENT\n* OK UNSEEN 3\n* PERMANENTFLAGS (\\Answered \\Deleted \\Draft \\Flagged \\Seen) Permanent flags\ns2 OK [READ-WRITE] SELECT command was successful\n"
    );
    assert!(sess.selected);
}

#[test]
fn select_failure_keeps_state() {
    let mut sess = logged_in();
    assert_eq!(sess.select_done("s3", None), "s3 NO error finding mailbox\n");
    assert!(!sess.selected);
}

#[test]
fn mailbox_names() {
    assert_eq!(mailbox_dir_of("INBOX"), ".");
    assert_eq!(mailbox_dir_of("INBOX.Sent"), "..Sent");
    assert_eq!(mailbox_dir_of("Work"), "Work");
    assert_eq!(mailbox_dir_of("aINBOXbINBOX"), "a.bINBOX");
}

#[test]
fn expunge_without_selection_is_bad() {
    let mut sess = logged_in();
    let r = reply(sess.interpret("e1 EXPUNGE\r\n"));
    assert_eq!(r, "e1 BAD Invalid command\r\n");
    assert!(!r.contains("EXPUNGE"));
}

#[test]
fn expunge_lists_removed_in_order() {
    let mut sess = logged_in();
    sess.select_done("s", Some(FolderStatus { exists: 5, recent: 0, unseen: 0 }));
    match sess.interpret("e2 EXPUNGE\r\n") {
        ImapAction::Expunge { tag } => {
            assert_eq!(expunge_response(&tag, &vec![2, 5]), "* 2 EXPUNGE\n* 5 EXPUNGE\ne2 OK expunge completed");
        }
        _ => panic!("expected expunge"),
    }
    assert_eq!(expunge_response("e3", &vec![]), "e3 OK expunge completed");
}

#[test]
fn close_needs_selection() {
    let mut sess = logged_in();
    assert_eq!(reply(sess.interpret("c1 CLOSE\r\n")), "c1 BAD Invalid command\r\n");
    sess.select_done("s", Some(FolderStatus { exists: 0, recent: 0, unseen: 0 }));
    match sess.interpret("c2 CLOSE\r\n") {
        ImapAction::Close(s) => assert_eq!(s, "c2 OK close completed\n"),
        _ => panic!("expected close"),
    }
}

#[test]
fn create_delete_list() {
    let mut sess = Session::new();
    assert_eq!(reply(sess.interpret("k1 CREATE box\r\n")), "k1 OK unimplemented\n");
    assert_eq!(reply(sess.interpret("k2 DELETE box\r\n")), "k2 OK unimplemented\n");
    assert_eq!(reply(sess.interpret("k3 CREATE\r\n")), "k3 BAD Invalid command\r\n");
    assert_eq!(
        reply(sess.interpret("k4 LIST \"\" \"\"\r\n")),
        "* LIST (\\Noselect) \"/\" \"\"\nk4 OK List successful\n"
    );
    assert_eq!(reply(sess.interpret("k5 LIST \"\" *\r\n")), "OK unimplemented\n");
    assert_eq!(reply(sess.interpret("k6 LIST x\r\n")), "k6 BAD Invalid command\r\n");
}

#[test]
fn fetch_flow() {
    let mut sess = logged_in();
    assert_eq!(reply(sess.interpret("f1 FETCH 1 FLAGS\r\n")), "f1 BAD Invalid command\r\n");
    sess.select_done("s", Some(FolderStatus { exists: 1, recent: 1, unseen: 1 }));
    match sess.interpret("f2 FETCH 1:2 (FLAGS BODY[])\r\n") {
        ImapAction::Fetch { tag, args } => {
            assert_eq!(tag, "f2");
            assert_eq!(args, "1:2 (FLAGS BODY[])");
        }
        _ => panic!("expected fetch"),
    }
    assert_eq!(fetch_response("f2", true), "f2 OK unimplemented\n");
    assert_eq!(fetch_response("f2", false), "f2 BAD Invalid command\r\n");
}

#[test]
fn decimal_text() {
    assert_eq!(decimal_string(0), "0");
    assert_eq!(decimal_string(907), "907");
    assert_eq!(decimal_string(u64::MAX), "18446744073709551615");
}

#[test]
fn select_mailbox_paths() {
    let fresh = Session::new();
    assert!(fresh.select_mailbox("INBOX").is_none());
    let sess = logged_in();
    assert_eq!(sess.select_mailbox("INBOX").unwrap(), "/mail/bob/.");
    assert_eq!(sess.select_mailbox("Drafts").unwrap(), "/mail/bob/Drafts");
}
