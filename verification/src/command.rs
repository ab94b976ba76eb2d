//! Commands, replies, and the connection handler's dispatch step.
//!
//! A connection handler loops: decode one request frame, apply it to the
//! sharded store, encode and send exactly one reply. Decoding and the
//! stream itself belong to the external frame codec; this module fixes
//! what each decoded request does to the store and which reply it earns.
//!
//! The absent-key sentinel of the wire contract is [`Reply::Absent`]
//! (a null-equivalent on the wire), distinct from every real value: a
//! stored value always comes back as [`Reply::Value`], even when empty.

use vstd::prelude::*;
use crate::store::ShardedStore;

verus! {

/// One command a caller can issue: read a key, or bind a key to a value.
/// Produced by a caller and consumed exactly once by whichever handler
/// processes it.
#[derive(Debug, Clone, PartialEq, Eq)]
pub enum Command {
    Get { key: Vec<u8> },
    Put { key: Vec<u8>, value: Vec<u8> },
}

/// One decoded request as the connection handler sees it: a recognized
/// command, or anything else the codec decoded that the store does not
/// implement.
#[derive(Debug, Clone, PartialEq, Eq)]
pub enum Request {
    Cmd(Command),
    Unrecognized,
}

/// The logical reply to one request. `Done` answers a successful `Put`
/// (the simple string `OK` on the wire); `Value` carries the bytes a
/// `Get` found; `Absent` is the sentinel for a key never set; `Error`
/// answers an unrecognized request, so that a protocol violation stays
/// local to the offending connection instead of becoming a process-wide
/// fault.
#[derive(Debug, Clone, PartialEq, Eq)]
pub enum Reply {
    Done,
    Value(Vec<u8>),
    Absent,
    Error,
}

/// Copies a byte vector; the copy holds the same bytes.
pub fn clone_bytes(v: &Vec<u8>) -> (r: Vec<u8>)
    ensures
        r@ == v@,
{
    let r = v.clone();
    proof {
        assert forall|i: int| 0 <= i < v@.len() implies r@[i] == v@[i] by {
            assert(cloned::<u8>(v@[i], r@[i]));
        }
        assert(r@ =~= v@);
    }
    r
}

/// What the store's mapping becomes once one command is applied: a `Put`
/// binds its key, a `Get` leaves the mapping alone.
pub open spec fn apply_command(m: Map<Seq<u8>, Seq<u8>>, cmd: Command) -> Map<Seq<u8>, Seq<u8>> {
    match cmd {
        Command::Put { key, value } => m.insert(key@, value@),
        Command::Get { .. } => m,
    }
}

/// What the store's mapping becomes once one request is applied: a `Put`
/// binds its key, everything else leaves the mapping alone.
pub open spec fn apply_request(m: Map<Seq<u8>, Seq<u8>>, req: Request) -> Map<Seq<u8>, Seq<u8>> {
    match req {
        Request::Cmd(cmd) => apply_command(m, cmd),
        Request::Unrecognized => m,
    }
}

/// The one reply a request earns against a store holding the mapping
/// `m`: `Done` for a `Put`; the stored bytes for a `Get` of a key that
/// is present; the absent sentinel for a `Get` of a key that is not; an
/// error for an unrecognized request — each if and only if.
pub open spec fn reply_matches(r: Reply, m: Map<Seq<u8>, Seq<u8>>, req: Request) -> bool {
    match req {
        Request::Cmd(Command::Get { key }) => if m.contains_key(key@) {
            r matches Reply::Value(w) && w@ == m[key@]
        } else {
            r == Reply::Absent
        },
        Request::Cmd(Command::Put { .. }) => r == Reply::Done,
        Request::Unrecognized => r == Reply::Error,
    }
}

/// The dispatch step of the connection handler: applies one decoded
/// request to the store and returns the reply to encode. A `Get` touches
/// no state; a `Put` binds its key; an unrecognized request leaves the
/// store alone and earns an explicit error reply rather than a fault.
pub fn handle_request(store: &mut ShardedStore, req: Request) -> (r: Reply)
    requires
        old(store).wf(),
    ensures
        final(store).wf(),
        final(store)@ == apply_request(old(store)@, req),
        final(store).spec_num_shards() == old(store).spec_num_shards(),
        reply_matches(r, old(store)@, req),
{
    match req {
        Request::Cmd(Command::Get { key }) => {
            match store.get(&key) {
                Some(v) => Reply::Value(clone_bytes(v)),
                None => Reply::Absent,
            }
        },
        Request::Cmd(Command::Put { key, value }) => {
            store.set(key, value);
            Reply::Done
        },
        Request::Unrecognized => Reply::Error,
    }
}

/// Whether the connection is to be closed after this reply is sent: a
/// protocol violation ends the offending connection — and only that one
/// — once its explicit error reply is on the wire. Transport failures
/// aside, nothing else ends a connection but its own end of stream.
pub fn closes_connection(r: &Reply) -> (c: bool)
    ensures
        c == (r matches Reply::Error),
{
    matches!(r, Reply::Error)
}

} // verus!
