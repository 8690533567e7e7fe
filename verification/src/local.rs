//! What the local endpoint decides for each datagram that reaches it.

use vstd::prelude::*;
use crate::balancer::PingBalancer;
use crate::server::Server;
use crate::table::{AssociationTable, keys_of, lemma_removed_in_turn, taken_from};

verus! {

/// Number of datagrams that may wait in the queue of an association, and
/// of replies that may wait to be written to clients. A sender waits while
/// its queue is full.
pub const CHANNEL_CAPACITY: usize = 1024;

/// What to do with a datagram that a client sent.
#[derive(Debug, Clone, Copy, PartialEq, Eq)]
pub enum Dispatch {
    /// Nothing: the datagram is empty.
    Skip,
    /// Hand it to the association that the client has, which is bound to
    /// `server`.
    Forward { server: usize },
    /// Make an association bound to `server`, which the table now holds
    /// for the client, and hand the datagram to it.
    Associate { server: usize },
}

/// How one datagram of `recv_len` bytes from `src` takes the table from
/// `pre` to `post`, given the index `best` of the best server and the keys
/// `expired` of the entries that the table dropped on the way.
pub open spec fn dispatched(
    pre: Map<Seq<char>, usize>,
    best: int,
    src: Seq<char>,
    recv_len: usize,
    expired: Set<Seq<char>>,
    post: Map<Seq<char>, usize>,
    d: Dispatch,
) -> bool {
    if recv_len == 0 {
        d == Dispatch::Skip && post == pre && expired == Set::<Seq<char>>::empty()
    } else if pre.remove_keys(expired).contains_key(src) {
        d == (Dispatch::Forward { server: pre[src] }) && post == pre.remove_keys(expired)
    } else {
        d == (Dispatch::Associate { server: best as usize }) && post == pre.remove_keys(
            expired,
        ).insert(src, best as usize)
    }
}

/// Decides what to do with a datagram of `recv_len` bytes from the client
/// `src`. An empty datagram is skipped and leaves the table as it is. Else
/// the client's association is looked up, which renews it; where there is
/// none, or none that has not expired, one is entered that is bound to the
/// server that is best at this moment. The entries that expired are handed
/// back, the client's own among them where it had expired: the caller lets
/// go of what it holds for them before it acts on the decision.
pub fn dispatch<S: Server>(
    assoc_map: &mut AssociationTable,
    balancer: &PingBalancer<S>,
    src: String,
    recv_len: usize,
) -> (r: (Dispatch, Vec<(String, usize)>))
    requires
        balancer.wf(),
    ensures
        final(assoc_map).time_to_live_ms() == old(assoc_map).time_to_live_ms(),
        taken_from(r.1@, old(assoc_map)@),
        dispatched(
            old(assoc_map)@,
            balancer.best(),
            src@,
            recv_len,
            keys_of(r.1@),
            final(assoc_map)@,
            r.0,
        ),
{
    if recv_len == 0 {
        let none: Vec<(String, usize)> = Vec::new();
        assert(keys_of(none@) =~= Set::<Seq<char>>::empty());
        return (Dispatch::Skip, none);
    }
    let (found, mut expired) = assoc_map.get(&src);
    match found {
        Some(server) => (Dispatch::Forward { server }, expired),
        None => {
            let server = balancer.best_idx();
            let ghost first = expired@;
            let mut more = assoc_map.insert(src, server);
            let ghost second = more@;
            expired.append(&mut more);
            proof {
                lemma_removed_in_turn(old(assoc_map)@, first, second);
            }
            (Dispatch::Associate { server }, expired)
        },
    }
}

/// Decides whether a reply for the client `dst` is handed on: only while
/// the client has an association that has not expired. Looking renews the
/// association. The entries that expired are handed back.
pub fn reply_allowed(assoc_map: &mut AssociationTable, dst: &String) -> (r: (
    bool,
    Vec<(String, usize)>,
))
    ensures
        final(assoc_map).time_to_live_ms() == old(assoc_map).time_to_live_ms(),
        taken_from(r.1@, old(assoc_map)@),
        final(assoc_map)@ == old(assoc_map)@.remove_keys(keys_of(r.1@)),
        r.0 == final(assoc_map)@.contains_key(dst@),
        !old(assoc_map)@.contains_key(dst@) ==> !r.0,
{
    let (found, expired) = assoc_map.get(dst);
    (found.is_some(), expired)
}

/// The server that a datagram goes to, if it goes anywhere.
pub open spec fn upstream_of(d: Dispatch) -> Option<usize> {
    match d {
        Dispatch::Skip => None,
        Dispatch::Forward { server } => Some(server),
        Dispatch::Associate { server } => Some(server),
    }
}

/// The association that `post` holds for `src`, if it holds one, is the
/// one that `pre` held.
pub open spec fn binding_kept(
    pre: Map<Seq<char>, usize>,
    post: Map<Seq<char>, usize>,
    src: Seq<char>,
) -> bool {
    post.contains_key(src) ==> pre.contains_key(src) && post[src] == pre[src]
}

/// A client stays with its upstream: of two datagrams that a client sends,
/// the later goes to the server that the earlier went to, provided the
/// association is still there for it, and whichever server is best by
/// then. Between the two the table may go from `t1` to `t2` in any way that
/// keeps the client's association, as all that this crate does to a table
/// between two datagrams of one client does.
pub proof fn lemma_association_affinity(
    src: Seq<char>,
    t0: Map<Seq<char>, usize>,
    best1: int,
    len1: usize,
    expired1: Set<Seq<char>>,
    d1: Dispatch,
    t1: Map<Seq<char>, usize>,
    t2: Map<Seq<char>, usize>,
    best2: int,
    len2: usize,
    expired2: Set<Seq<char>>,
    d2: Dispatch,
    t3: Map<Seq<char>, usize>,
)
    requires
        dispatched(t0, best1, src, len1, expired1, t1, d1),
        d1 != Dispatch::Skip,
        binding_kept(t1, t2, src),
        dispatched(t2, best2, src, len2, expired2, t3, d2),
        d2 is Forward,
    ensures
        upstream_of(d2) == upstream_of(d1),
{
}

/// A datagram leaves every other client's association bound as it was.
pub proof fn lemma_dispatch_keeps_bindings(
    src: Seq<char>,
    pre: Map<Seq<char>, usize>,
    best: int,
    recv_len: usize,
    expired: Set<Seq<char>>,
    d: Dispatch,
    post: Map<Seq<char>, usize>,
    other: Seq<char>,
)
    requires
        dispatched(pre, best, src, recv_len, expired, post, d),
        other != src,
    ensures
        binding_kept(pre, post, other),
{
}

/// Where a table only loses entries, as it does when a reply is let
/// through or held back and when it is purged, every association that is
/// left is bound as it was.
pub proof fn lemma_removal_keeps_bindings(
    pre: Map<Seq<char>, usize>,
    post: Map<Seq<char>, usize>,
    src: Seq<char>,
)
    requires
        post.submap_of(pre),
    ensures
        binding_kept(pre, post, src),
{
}

/// An association that is kept from step to step is kept over all of them.
pub proof fn lemma_binding_kept_transitive(
    a: Map<Seq<char>, usize>,
    b: Map<Seq<char>, usize>,
    c: Map<Seq<char>, usize>,
    src: Seq<char>,
)
    requires
        binding_kept(a, b, src),
        binding_kept(b, c, src),
    ensures
        binding_kept(a, c, src),
{
}

/// A datagram from a client whose association has left the table, or that
/// never had one, gets a fresh association, bound to the server that is
/// best at that moment.
pub proof fn lemma_fresh_association(
    src: Seq<char>,
    pre: Map<Seq<char>, usize>,
    best: int,
    recv_len: usize,
    expired: Set<Seq<char>>,
    d: Dispatch,
    post: Map<Seq<char>, usize>,
)
    requires
        dispatched(pre, best, src, recv_len, expired, post, d),
        recv_len > 0,
        !pre.contains_key(src) || expired.contains(src),
    ensures
        d == (Dispatch::Associate { server: best as usize }),
        post.contains_key(src),
        post[src] == best as usize,
{
}

} // verus!
