//! The logical face of the wire protocol: which decoded frames mean
//! which commands, and which frame carries each reply.
//!
//! Byte-level framing (length prefixes, delimiters) belongs to the
//! external codec; what reaches this module is one decoded frame per
//! request. A request is an array of bulk strings — a case-insensitive
//! command name, then its arguments: `get key`, or `set key value`.
//! Anything else is unrecognized and earns the error reply.

use vstd::prelude::*;
use crate::command::{Command, Reply, Request, apply_request, handle_request, reply_matches};
use crate::store::ShardedStore;

verus! {

/// One decoded frame, mirroring the shapes the external codec produces
/// and consumes.
#[derive(Debug, PartialEq, Eq)]
pub enum Frame {
    Simple(String),
    Error(String),
    Integer(u64),
    Bulk(Vec<u8>),
    Null,
    Array(Vec<Frame>),
}

/// ASCII lower-casing of one byte.
pub open spec fn lower_byte(b: u8) -> u8 {
    if 65 <= b <= 90 {
        (b + 32) as u8
    } else {
        b
    }
}

/// ASCII lower-casing of a byte sequence, for the case-insensitive
/// command name.
pub open spec fn spec_lower(s: Seq<u8>) -> Seq<u8> {
    Seq::new(s.len(), |i: int| lower_byte(s[i]))
}

/// The bytes of the lower-cased command name `get`.
pub open spec fn spec_get_name() -> Seq<u8> {
    seq![103u8, 101u8, 116u8]
}

/// The bytes of the lower-cased command name `set`.
pub open spec fn spec_set_name() -> Seq<u8> {
    seq![115u8, 101u8, 116u8]
}

/// The command a request frame means: a two-element array of bulk
/// strings named `get` reads its key; a three-element one named `set`
/// binds its key to its value; every other frame is unrecognized.
pub open spec fn spec_parse(f: Frame) -> Request {
    match f {
        Frame::Array(items) => spec_parse_items(items@),
        _ => Request::Unrecognized,
    }
}

/// The command the elements of a request array mean.
pub open spec fn spec_parse_items(items: Seq<Frame>) -> Request {
    if items.len() == 2 {
        match (items[0], items[1]) {
            (Frame::Bulk(name), Frame::Bulk(key)) => if spec_lower(name@) == spec_get_name() {
                Request::Cmd(Command::Get { key })
            } else {
                Request::Unrecognized
            },
            _ => Request::Unrecognized,
        }
    } else if items.len() == 3 {
        match (items[0], items[1], items[2]) {
            (Frame::Bulk(name), Frame::Bulk(key), Frame::Bulk(value)) => if spec_lower(name@)
                == spec_set_name() {
                Request::Cmd(Command::Put { key, value })
            } else {
                Request::Unrecognized
            },
            _ => Request::Unrecognized,
        }
    } else {
        Request::Unrecognized
    }
}

/// Lower-cases one ASCII letter.
fn lower(b: u8) -> (r: u8)
    ensures
        r == lower_byte(b),
{
    if b >= 65 && b <= 90 {
        b + 32
    } else {
        b
    }
}

/// Whether `s`, lower-cased, is the three-letter name `c0 c1 c2`.
fn name_is(s: &Vec<u8>, c0: u8, c1: u8, c2: u8) -> (r: bool)
    ensures
        r == (spec_lower(s@) == seq![c0, c1, c2]),
{
    if s.len() != 3 {
        proof {
            assert(spec_lower(s@).len() == s@.len());
            assert(seq![c0, c1, c2].len() == 3);
        }
        return false;
    }
    let r = lower(s[0]) == c0 && lower(s[1]) == c1 && lower(s[2]) == c2;
    proof {
        if r {
            assert(spec_lower(s@) =~= seq![c0, c1, c2]);
        } else {
            assert(spec_lower(s@)[0] == lower_byte(s@[0]));
            assert(spec_lower(s@)[1] == lower_byte(s@[1]));
            assert(spec_lower(s@)[2] == lower_byte(s@[2]));
        }
    }
    r
}

/// Decodes one request frame into the command it means, exactly as
/// [`spec_parse`] says: the recognized `get` and `set` shapes, and
/// `Unrecognized` for everything else.
pub fn parse_command(f: Frame) -> (r: Request)
    ensures
        r == spec_parse(f),
{
    match f {
        Frame::Array(items) => {
            let mut items = items;
            if items.len() == 2 {
                let second = items.pop();
                let first = items.pop();
                match (first, second) {
                    (Some(Frame::Bulk(name)), Some(Frame::Bulk(key))) => {
                        if name_is(&name, 103, 101, 116) {
                            Request::Cmd(Command::Get { key })
                        } else {
                            Request::Unrecognized
                        }
                    },
                    _ => Request::Unrecognized,
                }
            } else if items.len() == 3 {
                let third = items.pop();
                let second = items.pop();
                let first = items.pop();
                match (first, second, third) {
                    (
                        Some(Frame::Bulk(name)),
                        Some(Frame::Bulk(key)),
                        Some(Frame::Bulk(value)),
                    ) => {
                        if name_is(&name, 115, 101, 116) {
                            Request::Cmd(Command::Put { key, value })
                        } else {
                            Request::Unrecognized
                        }
                    },
                    _ => Request::Unrecognized,
                }
            } else {
                Request::Unrecognized
            }
        },
        _ => Request::Unrecognized,
    }
}

/// Which frame carries a reply: `OK` for a completed `set`, the bytes
/// themselves for a found key, the null frame as the absent sentinel
/// (never a real value), and an error line for an unrecognized request.
pub open spec fn renders(f: Frame, r: Reply) -> bool {
    match r {
        Reply::Done => f matches Frame::Simple(s) && s@ == "OK"@,
        Reply::Value(v) => f matches Frame::Bulk(w) && w@ == v@,
        Reply::Absent => f == Frame::Null,
        Reply::Error => f matches Frame::Error(s) && s@ == "ERR unknown command"@,
    }
}

/// Encodes one reply as the frame the codec sends, exactly as
/// [`renders`] says.
pub fn render_reply(r: Reply) -> (f: Frame)
    ensures
        renders(f, r),
{
    match r {
        Reply::Done => Frame::Simple(String::from_str("OK")),
        Reply::Value(v) => Frame::Bulk(v),
        Reply::Absent => Frame::Null,
        Reply::Error => Frame::Error(String::from_str("ERR unknown command")),
    }
}

/// One whole dispatch step of the connection handler, frame to frame:
/// decode the request, apply it to the store, encode the one reply it
/// earns. The store changes exactly as the decoded request dictates, and
/// the reply frame renders exactly the reply that request earns.
pub fn handle_frame(store: &mut ShardedStore, f: Frame) -> (out: Frame)
    requires
        old(store).wf(),
    ensures
        final(store).wf(),
        final(store)@ == apply_request(old(store)@, spec_parse(f)),
        final(store).spec_num_shards() == old(store).spec_num_shards(),
        exists|rep: Reply|
            #[trigger] reply_matches(rep, old(store)@, spec_parse(f)) && renders(out, rep),
{
    let ghost req = spec_parse(f);
    let cmd = parse_command(f);
    let rep = handle_request(store, cmd);
    let ghost grep = rep;
    let out = render_reply(rep);
    proof {
        assert(reply_matches(grep, old(store)@, req) && renders(out, grep));
    }
    out
}

} // verus!
