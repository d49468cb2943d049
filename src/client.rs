use vstd::prelude::*;
use vstd::std_specs::iter::IteratorSpec;

use crate::message::{BroadcastNotify, Member, RequestBody, UnicastNotify};

verus! {

/// Unicode's White_Space property, which `char::is_whitespace` tests.
pub open spec fn is_white_space(c: char) -> bool {
    let v = c as u32;
    (0x9 <= v <= 0xd) || v == 0x20 || v == 0x85 || v == 0xa0 || v == 0x1680 || (0x2000 <= v
        <= 0x200a) || v == 0x2028 || v == 0x2029 || v == 0x202f || v == 0x205f || v == 0x3000
}

/// Whether `c` is white space.
pub fn is_whitespace(c: char) -> (r: bool)
    ensures
        r == is_white_space(c),
{
    let v = c as u32;
    (0x9 <= v && v <= 0xd) || v == 0x20 || v == 0x85 || v == 0xa0 || v == 0x1680 || (0x2000 <= v
        && v <= 0x200a) || v == 0x2028 || v == 0x2029 || v == 0x202f || v == 0x205f || v == 0x3000
}

/// The characters of `s`, in order.
pub fn chars_of(s: &str) -> (r: Vec<char>)
    ensures
        r@ == s@,
{
    broadcast use vstd::string::axiom_spec_iter, vstd::string::next_postcondition;

    let mut it = s.chars();
    let mut v: Vec<char> = Vec::new();
    loop
        invariant
            it.obeys_prophetic_iter_laws(),
            v@ + it.remaining() == s@,
            it.decrease() is Some,
        ensures
            v@ == s@,
        decreases it.decrease()->0,
    {
        match it.next() {
            Some(c) => {
                assert(v@.push(c) + it.remaining() =~= s@);
                v.push(c);
            },
            None => {
                assert(v@ =~= s@);
                break ;
            },
        }
    }
    v
}

pub open spec fn trim_start(s: Seq<char>) -> Seq<char>
    decreases s.len(),
{
    if s.len() > 0 && is_white_space(s[0]) {
        trim_start(s.drop_first())
    } else {
        s
    }
}

pub open spec fn trim_end(s: Seq<char>) -> Seq<char>
    decreases s.len(),
{
    if s.len() > 0 && is_white_space(s.last()) {
        trim_end(s.drop_last())
    } else {
        s
    }
}

/// `s` without leading and trailing white space.
pub open spec fn trim(s: Seq<char>) -> Seq<char> {
    trim_end(trim_start(s))
}

/// The bounds `(lo, hi)` of `v@[from..to]` with white space trimmed off
/// both ends.
fn trim_bounds(v: &Vec<char>, from: usize, to: usize) -> (r: (usize, usize))
    requires
        from <= to <= v@.len(),
    ensures
        from <= r.0 <= r.1 <= to,
        v@.subrange(r.0 as int, r.1 as int) == trim(v@.subrange(from as int, to as int)),
{
    let mut lo = from;
    while lo < to && is_whitespace(v[lo])
        invariant
            from <= lo <= to <= v@.len(),
            trim_start(v@.subrange(from as int, to as int)) == trim_start(
                v@.subrange(lo as int, to as int),
            ),
        decreases to - lo,
    {
        assert(v@.subrange(lo as int, to as int).drop_first() =~= v@.subrange(
            lo + 1,
            to as int,
        ));
        lo = lo + 1;
    }
    assert(trim_start(v@.subrange(lo as int, to as int)) == v@.subrange(lo as int, to as int));
    let mut hi = to;
    while hi > lo && is_whitespace(v[hi - 1])
        invariant
            from <= lo <= hi <= to <= v@.len(),
            trim(v@.subrange(from as int, to as int)) == trim_end(
                v@.subrange(lo as int, hi as int),
            ),
        decreases hi - lo,
    {
        assert(v@.subrange(lo as int, hi as int).drop_last() =~= v@.subrange(
            lo as int,
            hi - 1,
        ));
        hi = hi - 1;
    }
    (lo, hi)
}

/// The string made of `v@[lo..hi]`.
pub fn string_of(v: &Vec<char>, lo: usize, hi: usize) -> (r: String)
    requires
        lo <= hi <= v@.len(),
    ensures
        r@ == v@.subrange(lo as int, hi as int),
{
    let mut s = String::new();
    let mut i = lo;
    while i < hi
        invariant
            lo <= i <= hi <= v@.len(),
            s@ == v@.subrange(lo as int, i as int),
        decreases hi - i,
    {
        push_char(&mut s, v[i]);
        assert(v@.subrange(lo as int, i + 1) =~= v@.subrange(lo as int, i as int).push(v@[i as int]));
        i = i + 1;
    }
    s
}

/// Relies on `String::push`: appends one character.
#[verifier::external_body]
pub(crate) fn push_char(s: &mut String, c: char)
    ensures
        final(s)@ == old(s)@.push(c),
{
    s.push(c)
}

/// `k` ends the command word of `t`: no white space before it, and white
/// space at it unless it is the end of `t`.
pub open spec fn is_command_end(t: Seq<char>, k: int) -> bool {
    &&& 0 <= k <= t.len()
    &&& forall|j: int| 0 <= j < k ==> !is_white_space(#[trigger] t[j])
    &&& k < t.len() ==> is_white_space(t[k])
}

pub open spec fn command_end(t: Seq<char>) -> int {
    choose|k: int| is_command_end(t, k)
}

/// The text of the help reply.
pub open spec fn help_text() -> Seq<char> {
    "Commands:\n  \\help            Show this message.\n  \\exit            Exit from chat.\n  \\list            Show participants list.\n  \\rename NAME     Change your name.\n"@
}

/// What one input line asks of the session.
pub enum Line {
    /// A blank line: nothing to do.
    Blank,
    /// `\exit`: the session ends.
    Exit,
    /// A request for the coordinator.
    Send(RequestBody),
}

/// The meaning of the trimmed line `t` that starts with the command prefix
/// and is no escaped text: the command word, up to the first white space,
/// and the argument after it, trimmed, if there is white space.
pub open spec fn command_means(t: Seq<char>, r: Line) -> bool {
    let k = command_end(t);
    let cmd = t.subrange(0, k);
    let has_arg = k < t.len();
    let arg = trim(t.subrange(k + 1, t.len() as int));
    if cmd == "\\exit"@ && !has_arg {
        r is Exit
    } else if cmd == "\\rename"@ && has_arg {
        match r {
            Line::Send(RequestBody::Rename { name }) => name@ == arg,
            _ => false,
        }
    } else if cmd == "\\list"@ && !has_arg {
        r matches Line::Send(RequestBody::List)
    } else if cmd == "\\help"@ && !has_arg {
        match r {
            Line::Send(RequestBody::UnicastMessage { message }) => message@ == help_text(),
            _ => false,
        }
    } else {
        match r {
            Line::Send(RequestBody::UnicastMessage { message }) => message@ == "Invalid command: "@
                + t,
            _ => false,
        }
    }
}

/// The meaning of an input line.
pub open spec fn line_means(line: Seq<char>, r: Line) -> bool {
    let t = trim(line);
    if t.len() == 0 {
        r is Blank
    } else if t[0] != '\\' {
        match r {
            Line::Send(RequestBody::Submit { message }) => message@ == t,
            _ => false,
        }
    } else if t.len() >= 2 && t[1] == '\\' {
        match r {
            Line::Send(RequestBody::Submit { message }) => message@ == t.drop_first(),
            _ => false,
        }
    } else {
        command_means(t, r)
    }
}

/// Reads one input line: plain text is a chat message, a doubled prefix
/// escapes the prefix, and otherwise the line is a command.
pub fn parse_line(line: &str) -> (r: Line)
    ensures
        line_means(line@, r),
{
    let v = chars_of(line);
    let (lo, hi) = trim_bounds(&v, 0, v.len());
    assert(v@.subrange(0, v@.len() as int) =~= line@);
    let ghost t = trim(line@);
    assert(v@.subrange(lo as int, hi as int) == t);
    if lo == hi {
        return Line::Blank;
    }
    if v[lo] != '\\' {
        return Line::Send(RequestBody::Submit { message: string_of(&v, lo, hi) });
    }
    if hi - lo >= 2 && v[lo + 1] == '\\' {
        assert(v@.subrange(lo + 1, hi as int) =~= t.drop_first());
        return Line::Send(RequestBody::Submit { message: string_of(&v, lo + 1, hi) });
    }
    let mut k = lo;
    while k < hi && !is_whitespace(v[k])
        invariant
            lo <= k <= hi <= v@.len(),
            forall|j: int| lo <= j < k ==> !is_white_space(#[trigger] v@[j]),
        decreases hi - k,
    {
        k = k + 1;
    }
    proof {
        let kk = (k - lo) as int;
        assert(is_command_end(t, kk)) by {
            assert forall|j: int| 0 <= j < kk implies !is_white_space(#[trigger] t[j]) by {
                assert(t[j] == v@[lo + j]);
            }
        }
        let c = command_end(t);
        assert(is_command_end(t, c));
        if c < kk {
            assert(!is_white_space(t[c]));
        } else if kk < c {
            assert(!is_white_space(t[kk]));
        }
        assert(c == kk);
        assert(t.subrange(0, kk) =~= v@.subrange(lo as int, k as int));
    }
    let cmd = string_of(&v, lo, k);
    let has_arg = k < hi;
    if cmd == String::from_str("\\exit") && !has_arg {
        Line::Exit
    } else if cmd == String::from_str("\\rename") && has_arg {
        let (alo, ahi) = trim_bounds(&v, k + 1, hi);
        assert(v@.subrange(k + 1, hi as int) =~= t.subrange((k - lo) + 1, t.len() as int));
        Line::Send(RequestBody::Rename { name: string_of(&v, alo, ahi) })
    } else if cmd == String::from_str("\\list") && !has_arg {
        Line::Send(RequestBody::List)
    } else if cmd == String::from_str("\\help") && !has_arg {
        Line::Send(RequestBody::UnicastMessage { message: String::from_str("Commands:\n  \\help            Show this message.\n  \\exit            Exit from chat.\n  \\list            Show participants list.\n  \\rename NAME     Change your name.\n") })
    } else {
        let mut message = String::from_str("Invalid command: ");
        let whole = string_of(&v, lo, hi);
        message.append(whole.as_str());
        Line::Send(RequestBody::UnicastMessage { message })
    }
}

/// The line that shows a broadcast.
pub open spec fn broadcast_line(n: BroadcastNotify) -> Seq<char> {
    match n {
        BroadcastNotify::Rename { old_name, new_name, .. } => "Rename: "@ + old_name@ + " => "@
            + new_name@,
        BroadcastNotify::Join { name, addr } => "Join: "@ + name@ + " from "@ + addr@,
        BroadcastNotify::Leave { name, .. } => "Leave: "@ + name@,
        BroadcastNotify::Submit { name, message, .. } => name@ + ": "@ + message@,
    }
}

pub open spec fn member_line(m: Member) -> Seq<char> {
    "  "@ + m.name@ + " from "@ + m.addr@
}

/// The lines that show a reply, or `None` for the reply that ends the
/// session's writer.
pub open spec fn unicast_lines(n: UnicastNotify) -> Option<Seq<Seq<char>>> {
    match n {
        UnicastNotify::Join { name } => Some(seq!["Hello! Your name is "@ + name@ + "! Enjoy!"@]),
        UnicastNotify::Leave => None,
        UnicastNotify::List(list) => Some(
            seq!["Members:"@] + list@.map_values(|m: Member| member_line(m)),
        ),
        UnicastNotify::Rename(ok) => Some(
            if ok {
                Seq::empty()
            } else {
                seq!["=> rename failed"@]
            },
        ),
        UnicastNotify::Submit(ok) => Some(
            if ok {
                Seq::empty()
            } else {
                seq!["=> submitting message failed"@]
            },
        ),
        UnicastNotify::Message(m) => Some(seq!["=> "@ + m@]),
    }
}

/// The line a session's writer shows first.
pub fn welcome_line() -> (r: String)
    ensures
        r@ == "Welcome to telnet chat!"@,
{
    String::from_str("Welcome to telnet chat!")
}

/// The line that shows the broadcast `ntf`.
pub fn render_broadcast(ntf: &BroadcastNotify) -> (r: String)
    ensures
        r@ == broadcast_line(*ntf),
{
    match ntf {
        BroadcastNotify::Rename { old_name, new_name, .. } => {
            let mut s = String::from_str("Rename: ");
            s.append(old_name.as_str());
            s.append(" => ");
            s.append(new_name.as_str());
            s
        },
        BroadcastNotify::Join { name, addr } => {
            let mut s = String::from_str("Join: ");
            s.append(name.as_str());
            s.append(" from ");
            s.append(addr.as_str());
            s
        },
        BroadcastNotify::Leave { name, .. } => {
            let mut s = String::from_str("Leave: ");
            s.append(name.as_str());
            s
        },
        BroadcastNotify::Submit { name, message, .. } => {
            let mut s = name.clone();
            s.append(": ");
            s.append(message.as_str());
            s
        },
    }
}

/// The lines that show the reply `ntf`; `None` for the reply that tells the
/// writer to stop.
pub fn render_unicast(ntf: &UnicastNotify) -> (r: Option<Vec<String>>)
    ensures
        r is None <==> unicast_lines(*ntf) is None,
        r is Some ==> r->0@.map_values(|s: String| s@) == unicast_lines(*ntf)->0,
{
    match ntf {
        UnicastNotify::Join { name } => {
            let mut s = String::from_str("Hello! Your name is ");
            s.append(name.as_str());
            s.append("! Enjoy!");
            let lines = vec![s];
            assert(lines@.map_values(|s: String| s@) =~= unicast_lines(*ntf)->0);
            Some(lines)
        },
        UnicastNotify::Leave => None,
        UnicastNotify::List(list) => {
            let mut lines: Vec<String> = vec![String::from_str("Members:")];
            let mut i: usize = 0;
            while i < list.len()
                invariant
                    i <= list@.len(),
                    lines@.map_values(|s: String| s@) == seq!["Members:"@] + list@.subrange(
                        0,
                        i as int,
                    ).map_values(|m: Member| member_line(m)),
                decreases list@.len() - i,
            {
                let m = &list[i];
                let mut s = String::from_str("  ");
                s.append(m.name.as_str());
                s.append(" from ");
                s.append(m.addr.as_str());
                let ghost before = lines@;
                lines.push(s);
                assert(lines@.map_values(|s: String| s@) =~= before.map_values(|s: String| s@).push(
                    s@,
                ));
                assert(list@.subrange(0, i + 1).map_values(|m: Member| member_line(m))
                    =~= list@.subrange(0, i as int).map_values(|m: Member| member_line(m)).push(
                    member_line(list@[i as int]),
                ));
                i = i + 1;
            }
            assert(list@.subrange(0, i as int) =~= list@);
            Some(lines)
        },
        UnicastNotify::Rename(ok) => {
            let lines = if *ok {
                Vec::new()
            } else {
                vec![String::from_str("=> rename failed")]
            };
            assert(lines@.map_values(|s: String| s@) =~= unicast_lines(*ntf)->0);
            Some(lines)
        },
        UnicastNotify::Submit(ok) => {
            let lines = if *ok {
                Vec::new()
            } else {
                vec![String::from_str("=> submitting message failed")]
            };
            assert(lines@.map_values(|s: String| s@) =~= unicast_lines(*ntf)->0);
            Some(lines)
        },
        UnicastNotify::Message(m) => {
            let mut s = String::from_str("=> ");
            s.append(m.as_str());
            let lines = vec![s];
            assert(lines@.map_values(|s: String| s@) =~= unicast_lines(*ntf)->0);
            Some(lines)
        },
    }
}

} // verus!
