use std::sync::mpsc::Sender;
use vstd::prelude::*;

use crate::client::{broadcast_line, push_char};
use crate::error::{AppError, AppResult};
use crate::message::{BroadcastNotify, Member, Notify, Request, RequestBody, UnicastNotify};

verus! {

/// A registry entry as the contracts see it: (address, display name).
pub type Entry = (Seq<char>, Seq<char>);

/// How many candidate names a join draws before it gives up.
pub const MAX_DRAWS: u32 = 100000;

/// How many random digits follow the prefix of a generated name.
pub const NAME_DIGITS: usize = 5;

/// Relies on `Sender::send`: the notification is queued on the receiving
/// mailbox, or the call fails because the receiver has been dropped.
#[verifier::external_body]
fn deliver(tx: &Sender<Notify>, ntf: Notify) -> (r: AppResult<()>)
    ensures
        r is Err ==> r->Err_0 == AppError::MpscNtfSend,
{
    match tx.send(ntf) {
        Ok(()) => Ok(()),
        Err(_) => Err(AppError::MpscNtfSend),
    }
}

/// Relies on rand's `Rng::gen_range` on the thread-local generator: a value
/// drawn from `0..10` (the range is not empty, so it does not panic; the
/// generator itself panics only where the system cannot seed it).
#[verifier::external_body]
fn random_digit() -> (d: u8)
    ensures
        d < 10,
{
    rand::Rng::gen_range(&mut rand::thread_rng(), 0u8..10u8)
}

pub open spec fn digit_char(d: u8) -> char {
    (d + 48) as char
}

/// The name made of the prefix `anonymous-` and one decimal digit per
/// element of `digits`.
pub open spec fn generated_name(digits: Seq<u8>) -> Seq<char> {
    "anonymous-"@ + digits.map_values(|d: u8| digit_char(d))
}

pub open spec fn is_generated_name(n: Seq<char>) -> bool {
    exists|digits: Seq<u8>|
        digits.len() == NAME_DIGITS && (forall|k: int| 0 <= k < digits.len() ==> digits[k] < 10)
            && n == #[trigger] generated_name(digits)
}

/// Addresses are unique, and so are display names.
pub open spec fn registry_wf(s: Seq<Entry>) -> bool {
    forall|i: int, j: int|
        0 <= i < s.len() && 0 <= j < s.len() && i != j ==> s[i].0 != s[j].0 && s[i].1 != s[j].1
}

/// The set of display names in use.
pub open spec fn name_set(s: Seq<Entry>) -> Set<Seq<char>> {
    Set::new(|n: Seq<char>| exists|i: int| 0 <= i < s.len() && s[i].1 == n)
}

pub open spec fn is_registered(s: Seq<Entry>, a: Seq<char>) -> bool {
    exists|i: int| 0 <= i < s.len() && s[i].0 == a
}

pub open spec fn locate(s: Seq<Entry>, a: Seq<char>) -> int {
    choose|i: int| 0 <= i < s.len() && s[i].0 == a
}

/// The display name of the client at address `a`.
pub open spec fn name_at(s: Seq<Entry>, a: Seq<char>) -> Seq<char> {
    s[locate(s, a)].1
}

/// The registry with the record of `a` removed, if there is one.
pub open spec fn without(s: Seq<Entry>, a: Seq<char>) -> Seq<Entry> {
    if is_registered(s, a) {
        s.remove(locate(s, a))
    } else {
        s
    }
}

/// The registry after `a` joins under the name `n`.
pub open spec fn joined(s: Seq<Entry>, a: Seq<char>, n: Seq<char>) -> Seq<Entry> {
    without(s, a).push((a, n))
}

/// The registry after `a` takes the name `n`.
pub open spec fn renamed(s: Seq<Entry>, a: Seq<char>, n: Seq<char>) -> Seq<Entry> {
    s.update(locate(s, a), (a, n))
}

/// A record of the registry: one per live session.
pub struct Client {
    pub addr: String,
    pub name: String,
    pub tx: Sender<Notify>,
}

/// A hand-off of a notification to a mailbox: the address of the recipient
/// and what it was handed.
pub type Handoff = (Seq<char>, Notify);

/// `log` gained exactly the hand-off of the reply `n` to `a`.
pub open spec fn logged(log0: Seq<Handoff>, log1: Seq<Handoff>, a: Seq<char>, n: UnicastNotify) -> bool {
    log1 == log0.push((a, Notify::Unicast(n)))
}

impl Client {
    /// Hands `n` to this client's mailbox and records the hand-off.
    fn reply(&self, n: UnicastNotify, log: &mut Ghost<Seq<Handoff>>) -> (r: AppResult<()>)
        ensures
            r is Err ==> r->Err_0 == AppError::MpscNtfSend,
            logged(old(log)@, final(log)@, self.addr@, n),
    {
        let ntf = Notify::Unicast(n);
        proof {
            log@ = log@.push((self.addr@, ntf));
        }
        deliver(&self.tx, ntf)
    }

    /// Greets the client by its name.
    fn join(&self, log: &mut Ghost<Seq<Handoff>>) -> (r: AppResult<()>)
        ensures
            r is Err ==> r->Err_0 == AppError::MpscNtfSend,
            logged(old(log)@, final(log)@, self.addr@, UnicastNotify::Join { name: self.name }),
    {
        self.reply(UnicastNotify::Join { name: self.name.clone() }, log)
    }

    /// Tells the client's writer to stop.
    fn leave(self, log: &mut Ghost<Seq<Handoff>>) -> (r: AppResult<()>)
        ensures
            r is Err ==> r->Err_0 == AppError::MpscNtfSend,
            logged(old(log)@, final(log)@, self.addr@, UnicastNotify::Leave),
    {
        self.reply(UnicastNotify::Leave, log)
    }

    fn list(&self, list: Vec<Member>, log: &mut Ghost<Seq<Handoff>>) -> (r: AppResult<()>)
        ensures
            r is Err ==> r->Err_0 == AppError::MpscNtfSend,
            logged(old(log)@, final(log)@, self.addr@, UnicastNotify::List(list)),
    {
        self.reply(UnicastNotify::List(list), log)
    }

    /// Confirms the rename, then takes the name `name`; hands back the old
    /// name. The name stays as it was where the confirmation cannot be
    /// handed over.
    fn rename_success(&mut self, name: String, log: &mut Ghost<Seq<Handoff>>) -> (r: AppResult<
        String,
    >)
        ensures
            match r {
                Ok(prev) => prev@ == old(self).name@ && final(self).name@ == name@,
                Err(e) => e == AppError::MpscNtfSend && final(self).name@ == old(self).name@,
            },
            final(self).addr@ == old(self).addr@,
            logged(old(log)@, final(log)@, old(self).addr@, UnicastNotify::Rename(true)),
    {
        match self.send_rename(true, log) {
            Ok(()) => {
                let prev = self.name.clone();
                self.name = name;
                Ok(prev)
            },
            Err(e) => Err(e),
        }
    }

    fn rename_failure(&self, log: &mut Ghost<Seq<Handoff>>) -> (r: AppResult<()>)
        ensures
            r is Err ==> r->Err_0 == AppError::MpscNtfSend,
            logged(old(log)@, final(log)@, self.addr@, UnicastNotify::Rename(false)),
    {
        self.send_rename(false, log)
    }

    fn submit_success(&self, log: &mut Ghost<Seq<Handoff>>) -> (r: AppResult<()>)
        ensures
            r is Err ==> r->Err_0 == AppError::MpscNtfSend,
            logged(old(log)@, final(log)@, self.addr@, UnicastNotify::Submit(true)),
    {
        self.send_submit(true, log)
    }

    fn message(&self, message: String, log: &mut Ghost<Seq<Handoff>>) -> (r: AppResult<()>)
        ensures
            r is Err ==> r->Err_0 == AppError::MpscNtfSend,
            logged(old(log)@, final(log)@, self.addr@, UnicastNotify::Message(message)),
    {
        self.reply(UnicastNotify::Message(message), log)
    }

    fn send_rename(&self, succeed: bool, log: &mut Ghost<Seq<Handoff>>) -> (r: AppResult<()>)
        ensures
            r is Err ==> r->Err_0 == AppError::MpscNtfSend,
            logged(old(log)@, final(log)@, self.addr@, UnicastNotify::Rename(succeed)),
    {
        self.reply(UnicastNotify::Rename(succeed), log)
    }

    fn send_submit(&self, succeed: bool, log: &mut Ghost<Seq<Handoff>>) -> (r: AppResult<()>)
        ensures
            r is Err ==> r->Err_0 == AppError::MpscNtfSend,
            logged(old(log)@, final(log)@, self.addr@, UnicastNotify::Submit(succeed)),
    {
        self.reply(UnicastNotify::Submit(succeed), log)
    }
}

/// The decimal digit `d` as a character.
pub fn digit_to_char(d: u8) -> (c: char)
    requires
        d < 10,
    ensures
        c == digit_char(d),
{
    (d + 48) as char
}

/// The generated name for the given digits: `anonymous-` followed by them.
pub fn gen_random_name(digits: &Vec<u8>) -> (r: String)
    requires
        forall|k: int| 0 <= k < digits@.len() ==> digits@[k] < 10,
    ensures
        r@ == generated_name(digits@),
{
    let mut name = String::from_str("anonymous-");
    let mut i: usize = 0;
    while i < digits.len()
        invariant
            i <= digits@.len(),
            forall|k: int| 0 <= k < digits@.len() ==> digits@[k] < 10,
            name@ == "anonymous-"@ + digits@.subrange(0, i as int).map_values(|d: u8| digit_char(d)),
        decreases digits@.len() - i,
    {
        let c = digit_to_char(digits[i]);
        push_char(&mut name, c);
        proof {
            assert(digits@.subrange(0, i + 1).map_values(|d: u8| digit_char(d)) =~= digits@.subrange(
                0,
                i as int,
            ).map_values(|d: u8| digit_char(d)).push(c));
        }
        i = i + 1;
    }
    proof {
        assert(digits@.subrange(0, i as int) =~= digits@);
    }
    name
}


/// What handling one request from `a`, with body `body`, owes: the result `r`
/// and the registry `t` that it leaves behind, from the registry `s`.
pub open spec fn handled(
    s: Seq<Entry>,
    a: Seq<char>,
    body: RequestBody,
    r: AppResult<Option<BroadcastNotify>>,
    t: Seq<Entry>,
) -> bool {
    match body {
        RequestBody::Join { .. } => match r {
            Ok(Some(BroadcastNotify::Join { name, addr })) => addr@ == a && is_generated_name(name@)
                && !name_set(s).contains(name@) && t == joined(s, a, name@),
            Err(AppError::MpscNtfSend) => t == s,
            Err(AppError::NoFreeName) => t == s && exists|n: Seq<char>|
                is_generated_name(n) && #[trigger] name_set(s).contains(n),
            _ => false,
        },
        RequestBody::Leave => if is_registered(s, a) {
            t == without(s, a) && match r {
                Ok(Some(BroadcastNotify::Leave { name, addr })) => name@ == name_at(s, a) && addr@ == a,
                _ => false,
            }
        } else {
            t == s && r matches Ok(None)
        },
        RequestBody::List => t == s && (r matches Ok(None) || r matches Err(AppError::MpscNtfSend))
            && (!is_registered(s, a) ==> r matches Ok(None)),
        RequestBody::Rename { name } => if !is_registered(s, a) {
            t == s && r matches Ok(None)
        } else if name_set(s).contains(name@) {
            t == s && (r matches Ok(None) || r matches Err(AppError::MpscNtfSend))
        } else {
            match r {
                Ok(Some(BroadcastNotify::Rename { old_name, new_name, addr })) => old_name@ == name_at(
                    s,
                    a,
                ) && new_name@ == name@ && addr@ == a && t == renamed(s, a, name@),
                Err(e) => e == AppError::MpscNtfSend && t == s,
                _ => false,
            }
        },
        RequestBody::Submit { message } => t == s && if !is_registered(s, a) {
            r matches Ok(None)
        } else {
            match r {
                Ok(Some(BroadcastNotify::Submit { name, addr, message: m })) => name@ == name_at(s, a)
                    && addr@ == a && m@ == message@,
                Err(e) => e == AppError::MpscNtfSend,
                _ => false,
            }
        },
        RequestBody::UnicastMessage { .. } => t == s && (r matches Ok(None) || r matches Err(
            AppError::MpscNtfSend,
        )) && (!is_registered(s, a) ==> r matches Ok(None)),
    }
}

/// The registry's records as members: (address, name) of each.
pub open spec fn member_entries(ms: Seq<Member>) -> Seq<Entry> {
    ms.map_values(|m: Member| (m.addr@, m.name@))
}

/// The replies that handling one request from `a`, with body `body`, hands
/// over, in order, given the registry `s` it starts from and its result `r`:
/// one reply to the requester where it is registered (or joins), none
/// otherwise.
pub open spec fn replied(
    s: Seq<Entry>,
    a: Seq<char>,
    body: RequestBody,
    r: AppResult<Option<BroadcastNotify>>,
    h: Seq<Handoff>,
) -> bool {
    match body {
        RequestBody::Join { .. } => match r {
            Ok(Some(BroadcastNotify::Join { name, .. })) => h == seq![
                (a, Notify::Unicast(UnicastNotify::Join { name })),
            ],
            Err(AppError::MpscNtfSend) => h.len() == 1 && h[0].0 == a && match h[0].1 {
                Notify::Unicast(UnicastNotify::Join { name }) => is_generated_name(name@)
                    && !name_set(s).contains(name@),
                _ => false,
            },
            Err(AppError::NoFreeName) => h == seq![(a, Notify::Unicast(UnicastNotify::Leave))],
            _ => false,
        },
        RequestBody::Leave => if is_registered(s, a) {
            h == seq![(a, Notify::Unicast(UnicastNotify::Leave))]
        } else {
            h.len() == 0
        },
        RequestBody::List => if is_registered(s, a) {
            h.len() == 1 && h[0].0 == a && match h[0].1 {
                Notify::Unicast(UnicastNotify::List(ms)) => member_entries(ms@) == s,
                _ => false,
            }
        } else {
            h.len() == 0
        },
        RequestBody::Rename { name } => if is_registered(s, a) {
            h == seq![(a, Notify::Unicast(UnicastNotify::Rename(!name_set(s).contains(name@))))]
        } else {
            h.len() == 0
        },
        RequestBody::Submit { .. } => if is_registered(s, a) {
            h == seq![(a, Notify::Unicast(UnicastNotify::Submit(true)))]
        } else {
            h.len() == 0
        },
        RequestBody::UnicastMessage { message } => if is_registered(s, a) {
            h == seq![(a, Notify::Unicast(UnicastNotify::Message(message)))]
        } else {
            h.len() == 0
        },
    }
}

/// How many replies handling a request from `a` with body `body` hands over.
pub open spec fn reply_count(s: Seq<Entry>, a: Seq<char>, body: RequestBody) -> int {
    if body is Join || is_registered(s, a) {
        1
    } else {
        0
    }
}

/// `log1` is `log0` followed by more hand-offs.
pub open spec fn extends(log0: Seq<Handoff>, log1: Seq<Handoff>) -> bool {
    log0.len() <= log1.len() && log1.subrange(0, log0.len() as int) == log0
}

/// The hand-offs of the broadcast `n` to every client of `s`, in order.
pub open spec fn handoffs(s: Seq<Entry>, n: BroadcastNotify) -> Seq<Handoff> {
    s.map_values(|e: Entry| (e.0, Notify::Broadcast(n)))
}

/// The single owner of the client registry. It handles one request at a
/// time, to completion, before it takes the next.
///
/// The records are kept in a vector, with unique addresses and unique names
/// as its invariant: lookups compare strings, whose equality vstd specifies,
/// where a map keyed by strings would leave its lookups unspecified.
pub struct Coordinator {
    clients: Vec<Client>,
    /// Every notification handed to a mailbox so far, in order.
    sent: Ghost<Seq<Handoff>>,
}

impl View for Coordinator {
    type V = Seq<Entry>;

    closed spec fn view(&self) -> Seq<Entry> {
        self.clients@.map_values(|c: Client| (c.addr@, c.name@))
    }
}

impl Coordinator {
    pub open spec fn wf(&self) -> bool {
        registry_wf(self@)
    }

    /// Every notification handed to a mailbox so far, replies and
    /// broadcasts, in the order of hand-off, each with its recipient.
    pub closed spec fn sent(&self) -> Seq<Handoff> {
        self.sent@
    }

    /// A coordinator with no clients.
    pub fn new() -> (r: Self)
        ensures
            r@ == Seq::<Entry>::empty(),
            r.wf(),
            r.sent() == Seq::<Handoff>::empty(),
    {
        let r = Coordinator { clients: Vec::new(), sent: Ghost(Seq::empty()) };
        assert(r@ =~= Seq::<Entry>::empty());
        r
    }

    /// The number of live clients.
    pub fn len(&self) -> (r: usize)
        ensures
            r == self@.len(),
    {
        self.clients.len()
    }

    fn find(&self, addr: &String) -> (r: Option<usize>)
        requires
            self.wf(),
        ensures
            match r {
                Some(i) => i < self@.len() && is_registered(self@, addr@) && i == locate(
                    self@,
                    addr@,
                ),
                None => !is_registered(self@, addr@),
            },
    {
        let mut i: usize = 0;
        while i < self.clients.len()
            invariant
                i <= self.clients@.len(),
                self@.len() == self.clients@.len(),
                forall|k: int| 0 <= k < i ==> self@[k].0 != addr@,
                self.wf(),
            decreases self.clients@.len() - i,
        {
            if self.clients[i].addr == *addr {
                proof {
                    let s = self@;
                    assert(s[i as int].0 == addr@);
                    assert(is_registered(s, addr@));
                    let j = locate(s, addr@);
                    assert(s[j].0 == addr@);
                }
                return Some(i);
            }
            i = i + 1;
        }
        None
    }

    /// Whether some live client has the display name `name`.
    pub fn name_in_use(&self, name: &String) -> (r: bool)
        ensures
            r == name_set(self@).contains(name@),
    {
        let mut i: usize = 0;
        while i < self.clients.len()
            invariant
                i <= self.clients@.len(),
                self@.len() == self.clients@.len(),
                forall|k: int| 0 <= k < i ==> self@[k].1 != name@,
            decreases self.clients@.len() - i,
        {
            if self.clients[i].name == *name {
                assert(self@[i as int].1 == name@);
                return true;
            }
            i = i + 1;
        }
        false
    }

    /// A snapshot of every live client, one member each, in registry order.
    pub fn members(&self) -> (r: Vec<Member>)
        ensures
            r@.len() == self@.len(),
            forall|k: int|
                0 <= k < r@.len() ==> (#[trigger] r@[k]).addr@ == self@[k].0 && r@[k].name@
                    == self@[k].1,
            member_entries(r@) == self@,
    {
        let mut list: Vec<Member> = Vec::new();
        let mut i: usize = 0;
        while i < self.clients.len()
            invariant
                i <= self.clients@.len(),
                self@.len() == self.clients@.len(),
                list@.len() == i,
                forall|k: int|
                    0 <= k < i ==> (#[trigger] list@[k]).addr@ == self@[k].0 && list@[k].name@
                        == self@[k].1,
            decreases self.clients@.len() - i,
        {
            let c = &self.clients[i];
            list.push(Member { name: c.name.clone(), addr: c.addr.clone() });
            i = i + 1;
        }
        assert(member_entries(list@) =~= self@);
        list
    }

    /// Removes the record of `addr`, if there is one, and hands it back.
    fn take(&mut self, addr: &String) -> (r: Option<Client>)
        requires
            old(self).wf(),
        ensures
            final(self).wf(),
            final(self)@ == without(old(self)@, addr@),
            final(self).sent() == old(self).sent(),
            match r {
                Some(c) => is_registered(old(self)@, addr@) && c.addr@ == addr@ && c.name@
                    == name_at(old(self)@, addr@),
                None => !is_registered(old(self)@, addr@),
            },
    {
        match self.find(addr) {
            Some(i) => {
                let ghost s = self@;
                let c = self.clients.remove(i);
                assert(self@ =~= s.remove(i as int));
                Some(c)
            },
            None => None,
        }
    }

    /// Inserts `client`, replacing any record of its address.
    pub fn register(&mut self, client: Client)
        requires
            old(self).wf(),
            !name_set(old(self)@).contains(client.name@),
        ensures
            final(self).wf(),
            final(self)@ == joined(old(self)@, client.addr@, client.name@),
            final(self).sent() == old(self).sent(),
    {
        let ghost s = self@;
        let _ = self.take(&client.addr);
        let ghost w = self@;
        assert forall|k: int| 0 <= k < w.len() implies w[k].0 != client.addr@ && w[k].1
            != client.name@ by {
            if is_registered(s, client.addr@) {
                let j = locate(s, client.addr@);
                assert(w == s.remove(j));
                if k < j {
                    assert(w[k] == s[k]);
                } else {
                    assert(w[k] == s[k + 1]);
                }
            } else {
                assert(w[k] == s[k]);
            }
        }
        self.clients.push(client);
        assert(self@ =~= w.push((client.addr@, client.name@)));
    }

    /// Handles one request: updates the registry, hands the requester its
    /// reply, and gives back the broadcast that the request calls for.
    /// `MpscNtfSend` means that the requester's mailbox is gone;
    /// `NoFreeName` that no free name was drawn for a joining session, which
    /// is then told to stop.
    pub fn handle_request(&mut self, req: Request) -> (r: AppResult<Option<BroadcastNotify>>)
        requires
            old(self).wf(),
        ensures
            final(self).wf(),
            handled(old(self)@, req.addr@, req.body, r, final(self)@),
            extends(old(self).sent(), final(self).sent()),
            replied(
                old(self)@,
                req.addr@,
                req.body,
                r,
                final(self).sent().skip(old(self).sent().len() as int),
            ),
    {
        let ghost log0 = self.sent@;
        proof {
            lemma_skip_after(log0);
        }
        let addr = req.addr;
        let r = match req.body {
            RequestBody::Join { tx } => {
                match self.draw_free_name() {
                    None => {
                        let refused = Client { name: String::new(), addr: addr.clone(), tx };
                        let _ = refused.leave(&mut self.sent);
                        Err(AppError::NoFreeName)
                    },
                    Some(name) => {
                        let cli = Client { name: name.clone(), addr: addr.clone(), tx };
                        match cli.join(&mut self.sent) {
                            Ok(()) => {
                                let ghost log1 = self.sent@;
                                self.register(cli);
                                assert(self.sent@ == log1);
                                Ok(Some(BroadcastNotify::Join { name, addr }))
                            },
                            Err(e) => Err(e),
                        }
                    },
                }
            },
            RequestBody::Leave => {
                match self.take(&addr) {
                    Some(cli) => {
                        let name = cli.name.clone();
                        let a = cli.addr.clone();
                        // The record is gone already; a session that cannot
                        // hear its own leave needs nothing more.
                        let _ = cli.leave(&mut self.sent);
                        Ok(Some(BroadcastNotify::Leave { name, addr: a }))
                    },
                    None => Ok(None),
                }
            },
            RequestBody::List => {
                match self.find(&addr) {
                    Some(i) => {
                        let list = self.members();
                        match self.clients[i].list(list, &mut self.sent) {
                            Ok(()) => Ok(None),
                            Err(e) => Err(e),
                        }
                    },
                    None => Ok(None),
                }
            },
            RequestBody::Rename { name } => {
                match self.find(&addr) {
                    Some(i) => {
                        if self.name_in_use(&name) {
                            match self.clients[i].rename_failure(&mut self.sent) {
                                Ok(()) => Ok(None),
                                Err(e) => Err(e),
                            }
                        } else {
                            let ghost s = self@;
                            let mut cli = self.clients.remove(i);
                            assert(self@ =~= s.remove(i as int));
                            let res = cli.rename_success(name.clone(), &mut self.sent);
                            let a = cli.addr.clone();
                            self.clients.insert(i, cli);
                            match res {
                                Ok(old_name) => {
                                    proof {
                                        assert(self@ =~= renamed(s, addr@, name@));
                                        assert forall|j: int, k: int|
                                            0 <= j < self@.len() && 0 <= k < self@.len() && j
                                                != k implies self@[j].0 != self@[k].0 && self@[j].1
                                            != self@[k].1 by {
                                            if j != i && k != i {
                                                assert(self@[j] == s[j]);
                                                assert(self@[k] == s[k]);
                                            } else if j == i {
                                                assert(self@[k] == s[k]);
                                                assert(name_set(s).contains(s[k].1));
                                            } else {
                                                assert(self@[j] == s[j]);
                                                assert(name_set(s).contains(s[j].1));
                                            }
                                        }
                                    }
                                    Ok(
                                        Some(
                                            BroadcastNotify::Rename {
                                                old_name,
                                                new_name: name,
                                                addr: a,
                                            },
                                        ),
                                    )
                                },
                                Err(e) => {
                                    assert(self@ =~= s);
                                    Err(e)
                                },
                            }
                        }
                    },
                    None => Ok(None),
                }
            },
            RequestBody::Submit { message } => {
                match self.find(&addr) {
                    Some(i) => {
                        match self.clients[i].submit_success(&mut self.sent) {
                            Ok(()) => {
                                let c = &self.clients[i];
                                Ok(
                                    Some(
                                        BroadcastNotify::Submit {
                                            name: c.name.clone(),
                                            addr: c.addr.clone(),
                                            message,
                                        },
                                    ),
                                )
                            },
                            Err(e) => Err(e),
                        }
                    },
                    None => Ok(None),
                }
            },
            RequestBody::UnicastMessage { message } => {
                match self.find(&addr) {
                    Some(i) => {
                        match self.clients[i].message(message, &mut self.sent) {
                            Ok(()) => Ok(None),
                            Err(e) => Err(e),
                        }
                    },
                    None => Ok(None),
                }
            },
        };
        assert(self.sent@.subrange(0, log0.len() as int) =~= log0);
        r
    }

    /// One turn of the coordinator. It handles `req`, then hands the
    /// broadcast, if any, to every live client before it returns. Where the
    /// requester's mailbox turned out to be gone, it drops the requester's
    /// record as if it had left: it tells the requester's writer to stop and
    /// the others that it left.
    pub fn process(&mut self, req: Request) -> (r: AppResult<Option<BroadcastNotify>>)
        requires
            old(self).wf(),
        ensures
            final(self).wf(),
            ({
                let s = old(self)@;
                let a = req.addr@;
                let k = old(self).sent().len() as int;
                let m = k + reply_count(s, a, req.body);
                let log = final(self).sent();
                &&& extends(old(self).sent(), log)
                &&& m <= log.len()
                &&& replied(s, a, req.body, r, log.subrange(k, m))
                &&& match r {
                    Ok(Some(b)) => handled(s, a, req.body, r, final(self)@) && log.skip(m)
                        == handoffs(final(self)@, b),
                    Ok(None) => handled(s, a, req.body, r, final(self)@) && log.len() == m,
                    Err(AppError::MpscNtfSend) => handled(s, a, req.body, r, s) && final(self)@
                        == without(s, a) && if is_registered(s, a) {
                        exists|g: BroadcastNotify|
                            #![trigger handoffs(final(self)@, g)]
                            g matches BroadcastNotify::Leave { name, addr } && name@ == name_at(
                                s,
                                a,
                            ) && addr@ == a && log.skip(m) == seq![
                                (a, Notify::Unicast(UnicastNotify::Leave)),
                            ] + handoffs(final(self)@, g)
                    } else {
                        log.len() == m
                    },
                    Err(_) => handled(s, a, req.body, r, final(self)@) && log.len() == m,
                }
            }),
    {
        let ghost s = self@;
        let ghost log0 = self.sent@;
        let addr = req.addr.clone();
        let ghost body = req.body;
        let r = self.handle_request(req);
        let ghost log1 = self.sent@;
        proof {
            let k = log0.len() as int;
            let h = log1.skip(k);
            assert(log1 =~= log0 + h);
            if body is Join || is_registered(s, addr@) {
                assert(h.len() == 1);
            } else {
                assert(h.len() == 0);
            }
            assert(log1.subrange(k, k + reply_count(s, addr@, body)) =~= h);
        }
        match r {
            Err(AppError::MpscNtfSend) => {
                match self.take(&addr) {
                    Some(cli) => {
                        let gone = BroadcastNotify::Leave { name: cli.name.clone(), addr: cli.addr.clone() };
                        let _ = cli.leave(&mut self.sent);
                        let ghost log2 = self.sent@;
                        self.broadcast(&gone);
                        proof {
                            let m = log1.len() as int;
                            assert(self.sent@.skip(m) =~= seq![
                                (addr@, Notify::Unicast(UnicastNotify::Leave)),
                            ] + handoffs(self@, gone));
                        }
                    },
                    None => {},
                }
                proof {
                    let k = log0.len() as int;
                    assert(self.sent@.subrange(0, k) =~= log0);
                    assert(self.sent@.subrange(k, log1.len() as int) =~= log1.skip(k));
                }
                r
            },
            Err(e) => {
                assert(self.sent@.subrange(log0.len() as int, log1.len() as int) =~= log1.skip(
                    log0.len() as int,
                ));
                Err(e)
            },
            Ok(b) => {
                match &b {
                    Some(ntf) => {
                        self.broadcast(ntf);
                        assert(self.sent@.skip(log1.len() as int) =~= handoffs(self@, *ntf));
                    },
                    None => {},
                }
                proof {
                    let k = log0.len() as int;
                    assert(self.sent@.subrange(0, k) =~= log0);
                    assert(self.sent@.subrange(k, log1.len() as int) =~= log1.skip(k));
                }
                Ok(b)
            },
        }
    }

    /// Hands a copy of `ntf` to every live client. A client whose mailbox is
    /// gone misses it; its session's own leave cleans it up.
    fn broadcast(&mut self, ntf: &BroadcastNotify)
        ensures
            final(self)@ == old(self)@,
            final(self).wf() == old(self).wf(),
            final(self).sent() == old(self).sent() + handoffs(old(self)@, *ntf),
    {
        let ghost start = self.sent@;
        let mut i: usize = 0;
        while i < self.clients.len()
            invariant
                i <= self.clients@.len(),
                self@.len() == self.clients@.len(),
                self.clients@ == old(self).clients@,
                self.sent@ == start + handoffs(self@.subrange(0, i as int), *ntf),
            decreases self.clients@.len() - i,
        {
            let copy = ntf.duplicate();
            proof {
                assert(handoffs(self@.subrange(0, i + 1), *ntf) =~= handoffs(
                    self@.subrange(0, i as int),
                    *ntf,
                ).push((self@[i as int].0, Notify::Broadcast(copy))));
                self.sent@ = self.sent@.push((self@[i as int].0, Notify::Broadcast(copy)));
            }
            let _ = deliver(&self.clients[i].tx, Notify::Broadcast(copy));
            i = i + 1;
        }
        assert(self@.subrange(0, i as int) =~= self@);
    }

    /// Draws candidate names until one is free, at most `MAX_DRAWS` times.
    fn draw_free_name(&self) -> (r: Option<String>)
        ensures
            match r {
                Some(n) => is_generated_name(n@) && !name_set(self@).contains(n@),
                None => exists|n: Seq<char>|
                    is_generated_name(n) && #[trigger] name_set(self@).contains(n),
            },
    {
        let mut tries: u32 = 0;
        let ghost mut taken: Seq<char> = Seq::empty();
        while tries < MAX_DRAWS
            invariant
                tries <= MAX_DRAWS,
                tries > 0 ==> is_generated_name(taken) && name_set(self@).contains(taken),
            decreases MAX_DRAWS - tries,
        {
            let mut digits: Vec<u8> = Vec::new();
            let mut k: usize = 0;
            while k < NAME_DIGITS
                invariant
                    k <= NAME_DIGITS,
                    digits@.len() == k,
                    forall|j: int| 0 <= j < digits@.len() ==> digits@[j] < 10,
                decreases NAME_DIGITS - k,
            {
                digits.push(random_digit());
                k = k + 1;
            }
            let name = gen_random_name(&digits);
            assert(is_generated_name(name@)) by {
                assert(name@ == generated_name(digits@));
            }
            if !self.name_in_use(&name) {
                return Some(name);
            }
            proof {
                taken = name@;
            }
            tries = tries + 1;
        }
        None
    }
}

/// What follows `log` in a record that extends it by one hand-off, or by
/// none.
proof fn lemma_skip_after(log: Seq<Handoff>)
    ensures
        log.skip(log.len() as int) == Seq::<Handoff>::empty(),
        forall|x: Handoff| #[trigger] log.push(x).skip(log.len() as int) == seq![x],
{
    assert(log.skip(log.len() as int) =~= Seq::<Handoff>::empty());
    assert forall|x: Handoff| #[trigger] log.push(x).skip(log.len() as int) == seq![x] by {
        assert(log.push(x).skip(log.len() as int) =~= seq![x]);
    }
}

/// The entries `(addrs[k], names[k])`, in order.
pub open spec fn pairs(addrs: Seq<Seq<char>>, names: Seq<Seq<char>>) -> Seq<Entry> {
    Seq::new(addrs.len(), |k: int| (addrs[k], names[k]))
}

/// The registry after the sessions `addrs` join, in order, under `names`.
pub open spec fn join_all(s: Seq<Entry>, addrs: Seq<Seq<char>>, names: Seq<Seq<char>>) -> Seq<
    Entry,
>
    decreases addrs.len(),
{
    if addrs.len() == 0 || names.len() == 0 {
        s
    } else {
        joined(join_all(s, addrs.drop_last(), names.drop_last()), addrs.last(), names.last())
    }
}

/// Each name was free when its join was handled, which is what a
/// successful join reports.
pub open spec fn fresh_at_each_join(
    s: Seq<Entry>,
    addrs: Seq<Seq<char>>,
    names: Seq<Seq<char>>,
) -> bool {
    forall|k: int|
        0 <= k < names.len() ==> !name_set(
            join_all(s, addrs.subrange(0, k), names.subrange(0, k)),
        ).contains(#[trigger] names[k])
}

/// Sessions that are distinct and have no record yet.
pub open spec fn new_sessions(s: Seq<Entry>, addrs: Seq<Seq<char>>) -> bool {
    &&& forall|j: int, k: int| 0 <= j < k < addrs.len() ==> addrs[j] != addrs[k]
    &&& forall|k: int| 0 <= k < addrs.len() ==> !is_registered(s, #[trigger] addrs[k])
}

/// Name uniqueness: in every well-formed registry no two records share a
/// display name, and the set of names in use holds one name per record.
pub proof fn lemma_name_uniqueness(s: Seq<Entry>)
    requires
        registry_wf(s),
    ensures
        forall|i: int, j: int| 0 <= i < s.len() && 0 <= j < s.len() && i != j ==> s[i].1 != s[j].1,
        forall|n: Seq<char>| name_set(s).contains(n) <==> exists|i: int| 0 <= i < s.len() && s[i].1 == n,
        name_set(s).finite(),
        name_set(s).len() == s.len(),
    decreases s.len(),
{
    if s.len() == 0 {
        assert(name_set(s) =~= Set::<Seq<char>>::empty());
    } else {
        let p = s.drop_last();
        assert(registry_wf(p)) by {
            assert forall|i: int, j: int| 0 <= i < p.len() && 0 <= j < p.len() && i != j implies p[i].0
                != p[j].0 && p[i].1 != p[j].1 by {
                assert(p[i] == s[i] && p[j] == s[j]);
            }
        }
        lemma_name_uniqueness(p);
        let last = s.last().1;
        assert(name_set(s) =~= name_set(p).insert(last)) by {
            assert forall|n: Seq<char>| name_set(s).contains(n) implies name_set(p).insert(
                last,
            ).contains(n) by {
                let i = choose|i: int| 0 <= i < s.len() && s[i].1 == n;
                if i < p.len() {
                    assert(p[i] == s[i]);
                }
            }
            assert forall|n: Seq<char>| name_set(p).insert(last).contains(n) implies name_set(
                s,
            ).contains(n) by {
                if n != last {
                    let i = choose|i: int| 0 <= i < p.len() && p[i].1 == n;
                    assert(s[i] == p[i]);
                } else {
                    assert(s[s.len() - 1].1 == n);
                }
            }
        }
        assert(!name_set(p).contains(last)) by {
            if name_set(p).contains(last) {
                let i = choose|i: int| 0 <= i < p.len() && p[i].1 == last;
                assert(s[i] == p[i]);
                assert(s[i].1 != s[s.len() - 1].1);
            }
        }
    }
}

/// Registry after joins: when new, distinct sessions join under names
/// that are free, the registry is the old one followed by one record per
/// join, each with the address and the name of that join.
pub proof fn lemma_registry_after_joins(
    s: Seq<Entry>,
    addrs: Seq<Seq<char>>,
    names: Seq<Seq<char>>,
)
    requires
        addrs.len() == names.len(),
        new_sessions(s, addrs),
    ensures
        join_all(s, addrs, names) == s + pairs(addrs, names),
    decreases addrs.len(),
{
    if addrs.len() == 0 {
        assert(s + pairs(addrs, names) =~= s);
    } else {
        let pa = addrs.drop_last();
        let pn = names.drop_last();
        assert(new_sessions(s, pa)) by {
            assert forall|k: int| 0 <= k < pa.len() implies !is_registered(s, #[trigger] pa[k]) by {
                assert(pa[k] == addrs[k]);
            }
        }
        lemma_registry_after_joins(s, pa, pn);
        let t = s + pairs(pa, pn);
        let a = addrs.last();
        assert(!is_registered(t, a)) by {
            if is_registered(t, a) {
                let i = choose|i: int| 0 <= i < t.len() && t[i].0 == a;
                if i < s.len() {
                    assert(t[i] == s[i]);
                    assert(is_registered(s, a));
                    assert(!is_registered(s, addrs[addrs.len() - 1]));
                } else {
                    assert(t[i].0 == addrs[i - s.len()]);
                }
            }
        }
        assert(joined(t, a, names.last()) =~= s + pairs(addrs, names));
    }
}

/// Joins give distinct names: sessions that join one after another, each
/// under a name that was free when its join was handled (as every
/// successful join reports), and with no rename or leave between them,
/// all end up with distinct names.
#[verifier::rlimit(40)]
pub proof fn lemma_joins_give_distinct_names(
    s: Seq<Entry>,
    addrs: Seq<Seq<char>>,
    names: Seq<Seq<char>>,
)
    requires
        addrs.len() == names.len(),
        new_sessions(s, addrs),
        fresh_at_each_join(s, addrs, names),
    ensures
        forall|j: int, k: int| 0 <= j < k < names.len() ==> names[j] != names[k],
{
    assert forall|j: int, k: int| 0 <= j < k < names.len() implies names[j] != names[k] by {
        let pa = addrs.subrange(0, k);
        let pn = names.subrange(0, k);
        assert(new_sessions(s, pa)) by {
            assert forall|m: int| 0 <= m < pa.len() implies !is_registered(s, #[trigger] pa[m]) by {
                assert(pa[m] == addrs[m]);
            }
        }
        lemma_registry_after_joins(s, pa, pn);
        let t = join_all(s, pa, pn);
        assert(t[s.len() + j].1 == names[j]);
        assert(name_set(t).contains(names[j]));
        assert(!name_set(t).contains(names[k]));
    }
}

/// Total order of hand-offs: when the coordinator takes turn `c0 -> c1`
/// and then turn `c1 -> c2` (each of which only appends to the record, as
/// `process` states), everything handed out in the first turn, replies and
/// broadcasts, stays in place and stands before everything handed out in the
/// second. A mailbox yields values in the order they were handed to it.
pub proof fn lemma_turns_keep_order(c0: Coordinator, c1: Coordinator, c2: Coordinator)
    requires
        extends(c0.sent(), c1.sent()),
        extends(c1.sent(), c2.sent()),
    ensures
        extends(c0.sent(), c2.sent()),
        forall|p: int, q: int|
            c0.sent().len() <= p < c1.sent().len() <= q < c2.sent().len() ==> p < q
                && #[trigger] c2.sent()[p] == c1.sent()[p] && #[trigger] c2.sent()[q]
                == c2.sent()[q],
{
    assert forall|p: int| 0 <= p < c1.sent().len() implies c2.sent()[p] == c1.sent()[p] by {
        assert(c2.sent().subrange(0, c1.sent().len() as int)[p] == c2.sent()[p]);
    }
    assert(c2.sent().subrange(0, c0.sent().len() as int) =~= c0.sent()) by {
        assert forall|p: int| 0 <= p < c0.sent().len() implies c2.sent()[p] == c0.sent()[p] by {
            assert(c1.sent().subrange(0, c0.sent().len() as int)[p] == c1.sent()[p]);
        }
    }
}

} // verus!
