//! The decisions of a single-threaded readiness event loop. The listening
//! socket is registered under token 0; each accepted connection is held
//! under a fresh token, counting up from 1, until it becomes readable and
//! is taken out to be answered.
use vstd::prelude::*;
use std::collections::HashMap;

verus! {

broadcast use vstd::std_specs::hash::group_hash_axioms;

/// The token under which the listening socket is registered.
pub const SERVER_TOKEN: usize = 0;

/// What a readiness event stands for.
#[derive(Clone, Copy, Debug, PartialEq, Eq, Structural)]
pub enum EventKind {
    /// The listening socket has a connection to accept.
    Accept,
    /// The connection held under this token is readable.
    Readable(usize),
}

/// Tells the listening socket's event from a connection's.
pub fn classify(token: usize) -> (kind: EventKind)
    ensures
        token == SERVER_TOKEN ==> kind == EventKind::Accept,
        token != SERVER_TOKEN ==> kind == EventKind::Readable(token),
{
    if token == SERVER_TOKEN {
        EventKind::Accept
    } else {
        EventKind::Readable(token)
    }
}

/// Accepted connections that wait to be served, by token.
pub struct ConnectionTable<S> {
    map: HashMap<usize, S>,
    next_id: usize,
}

impl<S> ConnectionTable<S> {
    /// The connections held, by token.
    pub closed spec fn connections(&self) -> Map<usize, S> {
        self.map@
    }

    /// The token that the next accepted connection gets.
    pub closed spec fn next_token(&self) -> usize {
        self.next_id
    }

    /// Every held connection has a token between 1 and the next one to be
    /// handed out.
    pub open spec fn wf(&self) -> bool {
        &&& self.next_token() >= 1
        &&& forall|t: usize| #[trigger] self.connections().contains_key(t) ==> 1 <= t < self.next_token()
    }

    /// A table with no connection, whose first token is 1.
    pub fn new() -> (t: Self)
        ensures
            t.wf(),
            t.connections() == Map::<usize, S>::empty(),
            t.next_token() == 1,
    {
        ConnectionTable { map: HashMap::new(), next_id: 1 }
    }

    /// The token that the next accepted connection will be held under, so
    /// that the connection can be registered with the poller before it is
    /// handed to `accept`.
    pub fn upcoming_token(&self) -> (token: usize)
        ensures
            token == self.next_token(),
    {
        self.next_id
    }

    /// Whether another connection can be given a token.
    pub fn can_accept(&self) -> (r: bool)
        ensures
            r == (self.next_token() < usize::MAX),
    {
        self.next_id < usize::MAX
    }

    /// Holds a newly accepted connection under the next token, which it
    /// returns.
    pub fn accept(&mut self, stream: S) -> (token: usize)
        requires
            old(self).wf(),
            old(self).next_token() < usize::MAX,
        ensures
            final(self).wf(),
            token == old(self).next_token(),
            token != SERVER_TOKEN,
            !old(self).connections().contains_key(token),
            final(self).connections() == old(self).connections().insert(token, stream),
            final(self).next_token() == old(self).next_token() + 1,
    {
        let token = self.next_id;
        self.map.insert(token, stream);
        self.next_id = self.next_id + 1;
        proof {
            assert forall|t: usize| #[trigger] self.connections().contains_key(t) implies 1 <= t
                < self.next_token() by {
                if t != token {
                    assert(old(self).connections().contains_key(t));
                }
            }
        }
        token
    }

    /// Whether a connection is held under `token`.
    pub fn contains(&self, token: usize) -> (r: bool)
        ensures
            r == self.connections().contains_key(token),
    {
        self.map.contains_key(&token)
    }

    /// Takes out the connection held under `token`, to be served.
    pub fn take(&mut self, token: usize) -> (stream: S)
        requires
            old(self).wf(),
            old(self).connections().contains_key(token),
        ensures
            final(self).wf(),
            stream == old(self).connections()[token],
            final(self).connections() == old(self).connections().remove(token),
            final(self).next_token() == old(self).next_token(),
    {
        let removed = self.map.remove(&token);
        proof {
            assert forall|t: usize| #[trigger] self.connections().contains_key(t) implies 1 <= t
                < self.next_token() by {
                assert(old(self).connections().contains_key(t));
            }
        }
        removed.unwrap()
    }
}

/// A connection that was accepted and then reported readable is the one
/// that is served, and taking it out leaves the table as it was before the
/// accept.
pub proof fn law_accepted_connection_is_served<S>(connections: Map<usize, S>, token: usize, stream: S)
    requires
        !connections.contains_key(token),
    ensures
        connections.insert(token, stream).contains_key(token),
        connections.insert(token, stream)[token] == stream,
        connections.insert(token, stream).remove(token) == connections,
{
    assert(connections.insert(token, stream).remove(token) =~= connections);
}

} // verus!
