//! The store's guarantees, stated and proved over the command model:
//! what a reader finds for keys never set, for keys just set, for keys
//! set by competing writers, and for keys owned by different shards.

use vstd::prelude::*;
use crate::command::{Command, Reply, Request, apply_command, reply_matches};
use crate::mux::apply_commands;
use crate::store::spec_shard_index;

verus! {

/// Whether a command binds the key `k`.
pub open spec fn sets_key(cmd: Command, k: Seq<u8>) -> bool {
    cmd matches Command::Put { key, .. } && key@ == k
}

/// The bytes a command binds, when it is a `Put`.
pub open spec fn put_value(cmd: Command) -> Seq<u8> {
    match cmd {
        Command::Put { value, .. } => value@,
        Command::Get { .. } => Seq::<u8>::empty(),
    }
}

/// A key that no command in a history ever set is bound exactly when it
/// was bound before the history ran, and to the same bytes. In
/// particular, against a fresh (empty) store every `Get` of such a key
/// answers the absent sentinel.
pub proof fn lemma_never_set_unchanged(m: Map<Seq<u8>, Seq<u8>>, cmds: Seq<Command>, k: Seq<u8>)
    requires
        forall|i: int| 0 <= i < cmds.len() ==> !sets_key(#[trigger] cmds[i], k),
    ensures
        apply_commands(m, cmds).contains_key(k) <==> m.contains_key(k),
        m.contains_key(k) ==> apply_commands(m, cmds)[k] == m[k],
    decreases cmds.len(),
{
    if cmds.len() > 0 {
        let tail = cmds.subrange(1, cmds.len() as int);
        assert(!sets_key(cmds[0], k));
        assert(forall|i: int| 0 <= i < tail.len() ==> !sets_key(#[trigger] tail[i], k)) by {
            assert(forall|i: int| 0 <= i < tail.len() ==> tail[i] == cmds[i + 1]);
        }
        lemma_never_set_unchanged(apply_command(m, cmds[0]), tail, k);
    }
}

/// A key never set is absent from a store that started empty, so a `Get`
/// of it is answered with the absent sentinel and nothing else.
pub proof fn lemma_never_set_absent(cmds: Seq<Command>, key: Vec<u8>, r: Reply)
    requires
        forall|i: int| 0 <= i < cmds.len() ==> !sets_key(#[trigger] cmds[i], key@),
        reply_matches(
            r,
            apply_commands(Map::<Seq<u8>, Seq<u8>>::empty(), cmds),
            Request::Cmd(Command::Get { key }),
        ),
    ensures
        r == Reply::Absent,
{
    lemma_never_set_unchanged(Map::<Seq<u8>, Seq<u8>>::empty(), cmds, key@);
}

/// Setting a key and then getting it yields exactly the bytes set,
/// byte for byte.
pub proof fn lemma_set_then_get(
    m: Map<Seq<u8>, Seq<u8>>,
    key: Vec<u8>,
    value: Vec<u8>,
    r: Reply,
)
    requires
        reply_matches(
            r,
            apply_command(m, Command::Put { key, value }),
            Request::Cmd(Command::Get { key }),
        ),
    ensures
        r matches Reply::Value(w) && w@ == value@,
{
}

/// Competing sets of one key, in whatever order the per-shard lock
/// serialized them, leave the key bound to the last committed writer's
/// bytes: exactly one of the written values, never a mixture.
pub proof fn lemma_competing_sets_last_wins(
    m: Map<Seq<u8>, Seq<u8>>,
    cmds: Seq<Command>,
    k: Seq<u8>,
)
    requires
        cmds.len() > 0,
        forall|i: int| 0 <= i < cmds.len() ==> sets_key(#[trigger] cmds[i], k),
    ensures
        apply_commands(m, cmds).contains_key(k),
        apply_commands(m, cmds)[k] == put_value(cmds.last()),
        exists|i: int| 0 <= i < cmds.len() && apply_commands(m, cmds)[k] == put_value(cmds[i]),
    decreases cmds.len(),
{
    let tail = cmds.subrange(1, cmds.len() as int);
    if cmds.len() == 1 {
        assert(apply_commands(apply_command(m, cmds[0]), tail) == apply_command(m, cmds[0]));
        assert(apply_commands(m, cmds)[k] == put_value(cmds[0]));
    } else {
        assert(forall|i: int| 0 <= i < tail.len() ==> sets_key(#[trigger] tail[i], k)) by {
            assert(forall|i: int| 0 <= i < tail.len() ==> tail[i] == cmds[i + 1]);
        }
        lemma_competing_sets_last_wins(apply_command(m, cmds[0]), tail, k);
        assert(tail.last() == cmds.last());
        let i = choose|i: int|
            0 <= i < tail.len() && apply_commands(apply_command(m, cmds[0]), tail)[k] == put_value(
                tail[i],
            );
        assert(cmds[i + 1] == tail[i]);
    }
}

/// Sets of keys owned by different shards commute: the store ends in the
/// same state whichever completes first, so neither blocks or disturbs
/// the other beyond its own shard.
pub proof fn lemma_disjoint_shard_sets_commute(
    m: Map<Seq<u8>, Seq<u8>>,
    k1: Seq<u8>,
    v1: Seq<u8>,
    k2: Seq<u8>,
    v2: Seq<u8>,
    n: int,
)
    requires
        n > 0,
        spec_shard_index(k1, n) != spec_shard_index(k2, n),
    ensures
        m.insert(k1, v1).insert(k2, v2) == m.insert(k2, v2).insert(k1, v1),
{
    assert(k1 != k2);
    assert(m.insert(k1, v1).insert(k2, v2) =~= m.insert(k2, v2).insert(k1, v1));
}

} // verus!
