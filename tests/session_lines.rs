use telnet_chat::client::{
    is_whitespace, parse_line, render_broadcast, render_unicast, welcome_line, Line,
};
use telnet_chat::error::AppError;
use telnet_chat::message::{BroadcastNotify, Member, RequestBody, UnicastNotify};

fn submitted(line: &str) -> String {
    match parse_line(line) {
        Line::Send(RequestBody::Submit { message }) => message,
        _ => panic!("not a chat message: {:?}", line),
    }
}

fn unicast_message(line: &str) -> String {
    match parse_line(line) {
        Line::Send(RequestBody::UnicastMessage { message }) => message,
        _ => panic!("not a system message: {:?}", line),
    }
}

#[test]
fn plain_text_is_submitted_trimmed() {
    assert_eq!(submitted("hello all\r\n"), "hello all");
    assert_eq!(submitted("  spaced  out \n"), "spaced  out");
}

#[test]
fn doubled_prefix_escapes() {
    assert_eq!(submitted("\\\\rename x\n"), "\\rename x");
    assert_eq!(submitted("\\\\\n"), "\\");
}

#[test]
fn blank_lines_are_ignored() {
    assert!(matches!(parse_line("\n"), Line::Blank));
    assert!(matches!(parse_line("   \t \r\n"), Line::Blank));
    assert!(matches!(parse_line(""), Line::Blank));
}

#[test]
fn exit_command() {
    assert!(matches!(parse_line("\\exit\n"), Line::Exit));
    assert!(matches!(parse_line("  \\exit  \r\n"), Line::Exit));
    assert_eq!(unicast_message("\\exit now"), "Invalid command: \\exit now");
}

#[test]
fn rename_command_takes_trimmed_argument() {
    match parse_line("\\rename   alice  \n") {
        Line::Send(RequestBody::Rename { name }) => assert_eq!(name, "alice"),
        _ => panic!("not a rename"),
    }
    match parse_line("\\rename\talice bob") {
        Line::Send(RequestBody::Rename { name }) => assert_eq!(name, "alice bob"),
        _ => panic!("not a rename"),
    }
    assert_eq!(unicast_message("\\rename"), "Invalid command: \\rename");
}

#[test]
fn list_and_help_commands() {
    assert!(matches!(parse_line("\\list\n"), Line::Send(RequestBody::List)));
    assert_eq!(unicast_message("\\list all"), "Invalid command: \\list all");
    let help = unicast_message("\\help");
    assert!(help.starts_with("Commands:\n"));
    assert!(help.contains("\\rename NAME     Change your name.\n"));
    assert_eq!(help.lines().count(), 5);
}

#[test]
fn unknown_command_is_invalid() {
    assert_eq!(unicast_message("\\quit"), "Invalid command: \\quit");
    assert_eq!(unicast_message("\\"), "Invalid command: \\");
}

#[test]
fn unicode_white_space_is_trimmed() {
    assert_eq!(submitted("\u{3000}hi\u{a0}"), "hi");
    assert!(is_whitespace('\u{2029}'));
    assert!(is_whitespace('\u{85}'));
    assert!(!is_whitespace('x'));
    assert!(!is_whitespace('\u{200b}'));
    for c in ['\t', '\n', ' ', '\u{1680}', '\u{2000}', '\u{200a}', '\u{3000}', 'a', '\u{180e}'] {
        assert_eq!(is_whitespace(c), c.is_whitespace());
    }
}

#[test]
fn broadcast_lines() {
    let join = BroadcastNotify::Join { name: "bob".to_string(), addr: "127.0.0.1:5000".to_string() };
    assert_eq!(render_broadcast(&join), "Join: bob from 127.0.0.1:5000");
    let leave = BroadcastNotify::Leave { name: "bob".to_string(), addr: "a".to_string() };
    assert_eq!(render_broadcast(&leave), "Leave: bob");
    let rename = BroadcastNotify::Rename {
        old_name: "anonymous-01234".to_string(),
        new_name: "alice".to_string(),
        addr: "a".to_string(),
    };
    assert_eq!(render_broadcast(&rename), "Rename: anonymous-01234 => alice");
    let submit = BroadcastNotify::Submit {
        name: "alice".to_string(),
        addr: "a".to_string(),
        message: "hello all".to_string(),
    };
    assert_eq!(render_broadcast(&submit), "alice: hello all");
}

#[test]
fn unicast_lines() {
    assert_eq!(welcome_line(), "Welcome to telnet chat!");
    let hello = render_unicast(&UnicastNotify::Join { name: "anonymous-00042".to_string() });
    assert_eq!(hello, Some(vec!["Hello! Your name is anonymous-00042! Enjoy!".to_string()]));
    assert_eq!(render_unicast(&UnicastNotify::Leave), None);
    let list = UnicastNotify::List(vec![
        Member { name: "a".to_string(), addr: "h:1".to_string() },
        Member { name: "b".to_string(), addr: "h:2".to_string() },
    ]);
    assert_eq!(
        render_unicast(&list),
        Some(vec!["Members:".to_string(), "  a from h:1".to_string(), "  b from h:2".to_string()])
    );
    assert_eq!(render_unicast(&UnicastNotify::List(vec![])), Some(vec!["Members:".to_string()]));
    assert_eq!(render_unicast(&UnicastNotify::Rename(true)), Some(vec![]));
    assert_eq!(render_unicast(&UnicastNotify::Rename(false)), Some(vec!["=> rename failed".to_string()]));
    assert_eq!(render_unicast(&UnicastNotify::Submit(true)), Some(vec![]));
    assert_eq!(
        render_unicast(&UnicastNotify::Submit(false)),
        Some(vec!["=> submitting message failed".to_string()])
    );
    assert_eq!(
        render_unicast(&UnicastNotify::Message("Invalid command: \\x".to_string())),
        Some(vec!["=> Invalid command: \\x".to_string()])
    );
}

#[test]
fn error_headings() {
    assert_eq!(AppError::Io.heading(), "IO error");
    assert_eq!(AppError::MpscReqSend.heading(), "MPSC Send error");
    assert_eq!(AppError::MpscNtfSend.heading(), "MPSC Send error");
    assert_eq!(AppError::MpscRecv.heading(), "MPSC Recv error");
    assert_eq!(AppError::NoFreeName.heading(), "No free name");
}
