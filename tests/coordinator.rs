use std::sync::mpsc::{channel, Receiver};

use telnet_chat::client::{parse_line, render_broadcast, render_unicast, Line};
use telnet_chat::error::AppError;
use telnet_chat::message::{BroadcastNotify, Notify, Request, RequestBody, UnicastNotify};
use telnet_chat::server::{digit_to_char, gen_random_name, Client, Coordinator};

fn req(addr: &str, body: RequestBody) -> Request {
    Request { addr: addr.to_string(), body }
}

fn drain(rx: &Receiver<Notify>) -> Vec<Notify> {
    let mut out = Vec::new();
    while let Ok(n) = rx.try_recv() {
        out.push(n);
    }
    out
}

/// The lines a session's writer would show for what is queued on `rx`.
fn shown(rx: &Receiver<Notify>) -> Vec<String> {
    let mut lines = Vec::new();
    for n in drain(rx) {
        match n {
            Notify::Broadcast(b) => lines.push(render_broadcast(&b)),
            Notify::Unicast(u) => match render_unicast(&u) {
                Some(ls) => lines.extend(ls),
                None => lines.push("<leave>".to_string()),
            },
        }
    }
    lines
}

fn is_generated(name: &str) -> bool {
    name.len() == 15
        && name.starts_with("anonymous-")
        && name["anonymous-".len()..].chars().all(|c| c.is_ascii_digit())
}

/// Joins `addr`, returning its mailbox and its generated name.
fn join(c: &mut Coordinator, addr: &str) -> (Receiver<Notify>, String) {
    let (tx, rx) = channel();
    let r = c.process(req(addr, RequestBody::Join { tx }));
    let name = match r {
        Ok(Some(BroadcastNotify::Join { name, addr: a })) => {
            assert_eq!(a, addr);
            name
        }
        _ => panic!("join failed"),
    };
    (rx, name)
}

fn names_of(c: &Coordinator) -> Vec<String> {
    c.members().into_iter().map(|m| m.name).collect()
}

#[test]
fn generated_name_from_digits() {
    assert_eq!(gen_random_name(&vec![1, 2, 3, 4, 5]), "anonymous-12345");
    assert_eq!(gen_random_name(&vec![0, 0, 9, 0, 7]), "anonymous-00907");
    assert_eq!(gen_random_name(&vec![]), "anonymous-");
}

#[test]
fn join_replies_and_broadcasts() {
    let mut c = Coordinator::new();
    let (rx_a, name_a) = join(&mut c, "h:1");
    assert!(is_generated(&name_a));
    assert_eq!(
        shown(&rx_a),
        vec![format!("Hello! Your name is {}! Enjoy!", name_a), format!("Join: {} from h:1", name_a)]
    );
    let (rx_b, name_b) = join(&mut c, "h:2");
    assert_eq!(shown(&rx_a), vec![format!("Join: {} from h:2", name_b)]);
    assert_eq!(shown(&rx_b).len(), 2);
    assert_eq!(c.len(), 2);
}

#[test]
fn joins_give_distinct_names() {
    let mut c = Coordinator::new();
    let mut keep = Vec::new();
    for k in 0..200 {
        let (rx, _) = join(&mut c, &format!("h:{}", k));
        keep.push(rx);
    }
    let mut names = names_of(&c);
    assert_eq!(names.len(), 200);
    names.sort();
    names.dedup();
    assert_eq!(names.len(), 200);
    assert!(names.iter().all(|n| is_generated(n)));
}

#[test]
fn list_reflects_registry() {
    let mut c = Coordinator::new();
    let (rx1, n1) = join(&mut c, "h:1");
    let (_rx2, n2) = join(&mut c, "h:2");
    let (_rx3, n3) = join(&mut c, "h:3");
    let members = c.members();
    assert_eq!(members.len(), 3);
    let pairs: Vec<(String, String)> = members.into_iter().map(|m| (m.name, m.addr)).collect();
    assert_eq!(
        pairs,
        vec![(n1, "h:1".to_string()), (n2, "h:2".to_string()), (n3, "h:3".to_string())]
    );
    drain(&rx1);
    assert!(matches!(c.process(req("h:1", RequestBody::List)), Ok(None)));
    match drain(&rx1).as_slice() {
        [Notify::Unicast(UnicastNotify::List(list))] => assert_eq!(list.len(), 3),
        _ => panic!("no list reply"),
    }
}

#[test]
fn rename_collision_is_rejected() {
    let mut c = Coordinator::new();
    let (rx_a, name_a) = join(&mut c, "h:1");
    let (rx_b, name_b) = join(&mut c, "h:2");
    drain(&rx_a);
    drain(&rx_b);
    let r = c.process(req("h:2", RequestBody::Rename { name: name_a.clone() }));
    assert!(matches!(r, Ok(None)));
    assert_eq!(names_of(&c), vec![name_a.clone(), name_b.clone()]);
    assert_eq!(shown(&rx_b), vec!["=> rename failed".to_string()]);
    assert!(drain(&rx_a).is_empty());
    // Taking one's own name again is a collision too.
    let r = c.process(req("h:2", RequestBody::Rename { name: name_b.clone() }));
    assert!(matches!(r, Ok(None)));
    assert_eq!(shown(&rx_b), vec!["=> rename failed".to_string()]);
    assert_eq!(names_of(&c), vec![name_a, name_b]);
}

#[test]
fn rename_to_free_name() {
    let mut c = Coordinator::new();
    let (rx_a, name_a) = join(&mut c, "h:1");
    drain(&rx_a);
    let r = c.process(req("h:1", RequestBody::Rename { name: "alice".to_string() }));
    match r {
        Ok(Some(BroadcastNotify::Rename { old_name, new_name, addr })) => {
            assert_eq!(old_name, name_a);
            assert_eq!(new_name, "alice");
            assert_eq!(addr, "h:1");
        }
        _ => panic!("rename failed"),
    }
    assert_eq!(shown(&rx_a), vec![format!("Rename: {} => alice", name_a)]);
    assert!(c.name_in_use(&"alice".to_string()));
    assert!(!c.name_in_use(&name_a));
}

#[test]
fn leave_of_unknown_address_changes_nothing() {
    let mut c = Coordinator::new();
    let (rx_a, _) = join(&mut c, "h:1");
    drain(&rx_a);
    assert!(matches!(c.process(req("h:9", RequestBody::Leave)), Ok(None)));
    assert_eq!(c.len(), 1);
    assert!(drain(&rx_a).is_empty());
    assert!(matches!(c.process(req("h:1", RequestBody::Leave)), Ok(Some(_))));
    assert_eq!(shown(&rx_a), vec!["<leave>".to_string()]);
    assert!(matches!(c.process(req("h:1", RequestBody::Leave)), Ok(None)));
    assert_eq!(c.len(), 0);
}

#[test]
fn leave_frees_the_name() {
    let mut c = Coordinator::new();
    let (_rx_a, name_a) = join(&mut c, "h:1");
    let (rx_b, _) = join(&mut c, "h:2");
    drain(&rx_b);
    assert!(matches!(c.process(req("h:1", RequestBody::Leave)), Ok(Some(_))));
    assert!(!c.name_in_use(&name_a));
    assert_eq!(shown(&rx_b), vec![format!("Leave: {}", name_a)]);
    assert!(matches!(c.process(req("h:2", RequestBody::Rename { name: name_a })), Ok(Some(_))));
}

#[test]
fn broadcasts_arrive_in_processing_order() {
    let mut c = Coordinator::new();
    let (rx_a, _) = join(&mut c, "h:1");
    let (rx_b, _) = join(&mut c, "h:2");
    drain(&rx_a);
    drain(&rx_b);
    c.process(req("h:1", RequestBody::Submit { message: "first".to_string() })).unwrap();
    c.process(req("h:2", RequestBody::Rename { name: "bee".to_string() })).unwrap();
    c.process(req("h:2", RequestBody::Submit { message: "second".to_string() })).unwrap();
    let a = shown(&rx_a);
    let b = shown(&rx_b);
    let feed = |lines: &Vec<String>| -> Vec<String> {
        lines.iter().filter(|l| !l.starts_with("=>")).cloned().collect()
    };
    assert_eq!(feed(&a).len(), 3);
    assert_eq!(feed(&a), feed(&b));
    assert!(feed(&a)[0].ends_with(": first"));
    assert!(feed(&a)[1].starts_with("Rename: "));
    assert_eq!(feed(&a)[2], "bee: second");
}

#[test]
fn unregistered_requests_are_silent() {
    let mut c = Coordinator::new();
    let (rx_a, _) = join(&mut c, "h:1");
    drain(&rx_a);
    for body in [
        RequestBody::List,
        RequestBody::Rename { name: "x".to_string() },
        RequestBody::Submit { message: "m".to_string() },
        RequestBody::UnicastMessage { message: "m".to_string() },
    ] {
        assert!(matches!(c.process(req("h:9", body)), Ok(None)));
    }
    assert!(drain(&rx_a).is_empty());
    assert_eq!(c.len(), 1);
}

#[test]
fn submit_and_message_replies() {
    let mut c = Coordinator::new();
    let (rx_a, name_a) = join(&mut c, "h:1");
    drain(&rx_a);
    let r = c.process(req("h:1", RequestBody::Submit { message: "hi".to_string() }));
    match r {
        Ok(Some(BroadcastNotify::Submit { name, addr, message })) => {
            assert_eq!((name, addr, message), (name_a.clone(), "h:1".to_string(), "hi".to_string()));
        }
        _ => panic!("submit failed"),
    }
    match drain(&rx_a).as_slice() {
        [Notify::Unicast(UnicastNotify::Submit(true)), Notify::Broadcast(_)] => {}
        other => panic!("unexpected {:?}", other),
    }
    let r = c.process(req("h:1", RequestBody::UnicastMessage { message: "note".to_string() }));
    assert!(matches!(r, Ok(None)));
    assert_eq!(shown(&rx_a), vec!["=> note".to_string()]);
}

#[test]
fn join_of_a_gone_session_is_abandoned() {
    let mut c = Coordinator::new();
    let (rx_a, _) = join(&mut c, "h:1");
    drain(&rx_a);
    let (tx, rx) = channel();
    drop(rx);
    let r = c.process(req("h:2", RequestBody::Join { tx }));
    assert!(matches!(r, Err(AppError::MpscNtfSend)));
    assert_eq!(c.len(), 1);
    assert!(drain(&rx_a).is_empty());
}

#[test]
fn unreachable_client_is_dropped() {
    let mut c = Coordinator::new();
    let (rx_a, name_a) = join(&mut c, "h:1");
    let (rx_b, _) = join(&mut c, "h:2");
    drain(&rx_b);
    drop(rx_a);
    let r = c.process(req("h:1", RequestBody::Submit { message: "lost".to_string() }));
    assert!(matches!(r, Err(AppError::MpscNtfSend)));
    assert_eq!(c.len(), 1);
    assert!(!c.name_in_use(&name_a));
    assert_eq!(shown(&rx_b), vec![format!("Leave: {}", name_a)]);
    assert!(matches!(c.process(req("h:1", RequestBody::Leave)), Ok(None)));
    assert!(drain(&rx_b).is_empty());
}

#[test]
fn chat_scenario() {
    let mut c = Coordinator::new();
    let (rx_other, _) = join(&mut c, "h:2");
    drain(&rx_other);
    let (rx_me, my_name) = join(&mut c, "h:1");
    let hello = shown(&rx_me);
    assert_eq!(hello[0], format!("Hello! Your name is {}! Enjoy!", my_name));
    assert!(is_generated(&my_name));
    drain(&rx_other);
    let mut send = |c: &mut Coordinator, line: &str| match parse_line(line) {
        Line::Send(body) => {
            let _ = c.process(req("h:1", body));
        }
        Line::Exit => {
            let _ = c.process(req("h:1", RequestBody::Leave));
        }
        Line::Blank => {}
    };
    send(&mut c, "\\rename alice\n");
    assert!(!shown(&rx_me).contains(&"=> rename failed".to_string()));
    assert_eq!(shown(&rx_other), vec![format!("Rename: {} => alice", my_name)]);
    send(&mut c, "hello all\n");
    assert_eq!(shown(&rx_me), vec!["alice: hello all".to_string()]);
    assert_eq!(shown(&rx_other), vec!["alice: hello all".to_string()]);
    send(&mut c, "\\exit\n");
    assert_eq!(shown(&rx_other), vec!["Leave: alice".to_string()]);
    assert_eq!(shown(&rx_me), vec!["<leave>".to_string()]);
}

#[test]
fn digits_as_characters() {
    assert_eq!(digit_to_char(0), '0');
    assert_eq!(digit_to_char(7), '7');
    assert_eq!(digit_to_char(9), '9');
}

#[test]
fn register_inserts_or_replaces() {
    let mut c = Coordinator::new();
    let (tx1, _rx1) = channel();
    c.register(Client { addr: "h:1".to_string(), name: "anonymous-00001".to_string(), tx: tx1 });
    let (tx2, _rx2) = channel();
    c.register(Client { addr: "h:2".to_string(), name: "bob".to_string(), tx: tx2 });
    assert_eq!(c.len(), 2);
    let (tx3, _rx3) = channel();
    c.register(Client { addr: "h:1".to_string(), name: "carol".to_string(), tx: tx3 });
    assert_eq!(c.len(), 2);
    assert!(!c.name_in_use(&"anonymous-00001".to_string()));
    let pairs: Vec<(String, String)> = c.members().into_iter().map(|m| (m.addr, m.name)).collect();
    assert_eq!(
        pairs,
        vec![("h:2".to_string(), "bob".to_string()), ("h:1".to_string(), "carol".to_string())]
    );
}

#[test]
fn second_join_from_an_address_replaces_its_record() {
    let mut c = Coordinator::new();
    let (_rx_a, first) = join(&mut c, "h:1");
    let (_rx_b, second) = join(&mut c, "h:1");
    assert_ne!(first, second);
    assert_eq!(c.len(), 1);
    assert_eq!(names_of(&c), vec![second]);
}

#[test]
fn every_reply_goes_to_the_requester_only() {
    let mut c = Coordinator::new();
    let (rx_a, name_a) = join(&mut c, "h:1");
    let (rx_b, _) = join(&mut c, "h:2");
    drain(&rx_a);
    drain(&rx_b);
    c.process(req("h:2", RequestBody::List)).unwrap();
    c.process(req("h:2", RequestBody::Rename { name: name_a })).unwrap();
    c.process(req("h:2", RequestBody::UnicastMessage { message: "help".to_string() })).unwrap();
    assert!(drain(&rx_a).is_empty());
    match drain(&rx_b).as_slice() {
        [Notify::Unicast(UnicastNotify::List(l)), Notify::Unicast(UnicastNotify::Rename(false)), Notify::Unicast(UnicastNotify::Message(m))] => {
            assert_eq!(l.len(), 2);
            assert_eq!(m, "help");
        }
        other => panic!("unexpected {:?}", other),
    }
}

#[test]
fn reply_comes_before_broadcast() {
    let mut c = Coordinator::new();
    let (rx_a, _) = join(&mut c, "h:1");
    drain(&rx_a);
    c.process(req("h:1", RequestBody::Rename { name: "alice".to_string() })).unwrap();
    match drain(&rx_a).as_slice() {
        [Notify::Unicast(UnicastNotify::Rename(true)), Notify::Broadcast(BroadcastNotify::Rename { .. })] => {}
        other => panic!("unexpected {:?}", other),
    }
}
