use std::sync::mpsc::Sender;
use vstd::prelude::*;

verus! {

/// A participant as shown in a list reply. `addr` is the peer address of
/// the participant's connection, in its textual form.
#[derive(Debug, Clone)]
pub struct Member {
    pub name: String,
    pub addr: String,
}

/// A request to the coordinator, made by the session whose connection has
/// the peer address `addr`.
pub struct Request {
    pub addr: String,
    pub body: RequestBody,
}

pub enum RequestBody {
    /// A new session; `tx` is the handle of its writer mailbox.
    Join { tx: Sender<Notify> },
    Leave,
    List,
    Rename { name: String },
    Submit { message: String },
    UnicastMessage { message: String },
}

/// What a session's writer receives.
#[derive(Debug, Clone)]
pub enum Notify {
    Unicast(UnicastNotify),
    Broadcast(BroadcastNotify),
}

/// A reply addressed to one session.
#[derive(Debug, Clone)]
pub enum UnicastNotify {
    Join { name: String },
    Leave,
    List(Vec<Member>),
    Rename(bool),
    Submit(bool),
    Message(String),
}

/// A notification fanned out to every session.
#[derive(Debug, Clone)]
pub enum BroadcastNotify {
    Join { name: String, addr: String },
    Leave { name: String, addr: String },
    Rename { old_name: String, new_name: String, addr: String },
    Submit { name: String, addr: String, message: String },
}

impl BroadcastNotify {
    /// A copy of this notification, field by field.
    pub fn duplicate(&self) -> (r: Self)
        ensures
            r == *self,
    {
        match self {
            BroadcastNotify::Join { name, addr } => BroadcastNotify::Join {
                name: name.clone(),
                addr: addr.clone(),
            },
            BroadcastNotify::Leave { name, addr } => BroadcastNotify::Leave {
                name: name.clone(),
                addr: addr.clone(),
            },
            BroadcastNotify::Rename { old_name, new_name, addr } => BroadcastNotify::Rename {
                old_name: old_name.clone(),
                new_name: new_name.clone(),
                addr: addr.clone(),
            },
            BroadcastNotify::Submit { name, addr, message } => BroadcastNotify::Submit {
                name: name.clone(),
                addr: addr.clone(),
                message: message.clone(),
            },
        }
    }
}

/// The mailbox handle of a session's writer.
#[verifier::external_type_specification]
#[verifier::external_body]
#[verifier::reject_recursive_types(T)]
pub struct ExSender<T>(Sender<T>);

} // verus!
