//! The reload hub: the pool of connected previews and the broadcast that
//! tells them to reload.

use crate::errors::{BigError, Result};
use crate::text::{chain, contains, contains_text, to_chars};
use vstd::prelude::*;

verus! {

/// The one message that the hub sends.
pub const RELOAD_MESSAGE: &'static str = "reload";

/// What came of the handshake with a client that connected to the hub.
#[derive(Debug)]
pub enum Handshake<C> {
    /// The client is connected.
    Completed(C),
    /// The stream could not be prepared; the description of the failure.
    StreamFailed(String),
    /// The handshake failed. `debug` names the kind of failure, `display`
    /// describes it.
    Failed { debug: String, display: String },
}

/// The clients that are told to reload, in the order in which they
/// connected. It is the one thing that the accepting side and the
/// broadcasting side share, each under the owner's lock.
pub struct ConnectionPool<C> {
    connections: Vec<C>,
}

impl<C> View for ConnectionPool<C> {
    type V = Seq<C>;

    closed spec fn view(&self) -> Seq<C> {
        self.connections@
    }
}

/// How far a broadcast has come: the connections that the pool held when
/// it began, how many of them have had their turn, and those that took
/// the message, in the order of their turns.
pub struct Turns<C> {
    pub origin: Seq<C>,
    pub attempted: nat,
    pub kept: Seq<C>,
}

impl<C> Turns<C> {
    /// A broadcast to `origin` before the first turn.
    pub open spec fn begin(origin: Seq<C>) -> Turns<C> {
        Turns { origin, attempted: 0, kept: Seq::empty() }
    }

    /// The connection whose turn it is, if any is left.
    pub open spec fn current(self) -> Option<C> {
        if self.attempted < self.origin.len() {
            Some(self.origin[self.attempted as int])
        } else {
            None
        }
    }

    /// The connections that have not had their turn.
    pub open spec fn pending(self) -> Seq<C> {
        self.origin.skip(self.attempted as int)
    }

    /// The broadcast after the current connection was handed out.
    pub open spec fn advanced(self) -> Turns<C> {
        if self.attempted < self.origin.len() {
            Turns { origin: self.origin, attempted: self.attempted + 1, kept: self.kept }
        } else {
            self
        }
    }

    /// The broadcast after `connection` came back from its send: it is kept
    /// exactly if the send succeeded.
    pub open spec fn settled(self, connection: C, delivered: bool) -> Turns<C> {
        Turns {
            origin: self.origin,
            attempted: self.attempted,
            kept: if delivered {
                self.kept.push(connection)
            } else {
                self.kept
            },
        }
    }

    /// The broadcast after every remaining turn, where the k-th connection
    /// of the pool takes the message exactly if `delivered[k]` says so and
    /// comes back as it was handed out. A connection without an entry counts
    /// as failed.
    pub open spec fn run(self, delivered: Seq<bool>) -> Turns<C>
        decreases self.origin.len() - self.attempted,
    {
        match self.current() {
            Some(connection) => self.advanced().settled(
                connection,
                self.attempted < delivered.len() && delivered[self.attempted as int],
            ).run(delivered),
            None => self,
        }
    }
}

/// One broadcast in progress. It takes the connections out of the pool,
/// hands each out once for sending, keeps those that took the message, and
/// gives them back to the pool at the end.
pub struct Broadcast<C> {
    pending: Vec<C>,
    kept: Vec<C>,
    origin: Ghost<Seq<C>>,
}

impl<C> View for Broadcast<C> {
    type V = Turns<C>;

    closed spec fn view(&self) -> Turns<C> {
        Turns {
            origin: self.origin@,
            attempted: (self.origin@.len() - self.pending@.len()) as nat,
            kept: self.kept@,
        }
    }
}

/// Whether a failed handshake only means that the client had sent nothing
/// yet.
pub open spec fn is_not_ready(debug: Seq<char>) -> bool {
    contains_text(debug, "WouldBlock"@)
}

impl<C> ConnectionPool<C> {
    /// A pool without connections.
    pub fn new() -> (pool: ConnectionPool<C>)
        ensures
            pool@.len() == 0,
    {
        ConnectionPool { connections: Vec::new() }
    }

    /// The number of connections in the pool.
    pub fn len(&self) -> (n: usize)
        ensures
            n == self@.len(),
    {
        self.connections.len()
    }

    /// Takes what came of a handshake. A connected client joins the pool,
    /// after those already in it. A handshake that failed only because the
    /// client had sent nothing yet is passed over in silence. Any other
    /// failure is an error, and the pool stays as it is.
    pub fn add_connection(&mut self, handshake: Handshake<C>) -> (r: Result<()>)
        ensures
            match handshake {
                Handshake::Completed(c) => r is Ok && final(self)@ == old(self)@.push(c),
                Handshake::StreamFailed(d) => final(self)@ == old(self)@ && (r matches Err(
                    BigError::WatchError(m),
                ) && m@ == "Failed to clone stream: "@ + d@),
                Handshake::Failed { debug, display } => final(self)@ == old(self)@ && if is_not_ready(
                    debug@,
                ) {
                    r is Ok
                } else {
                    r matches Err(BigError::WatchError(m)) && m@
                        == "Failed to accept WebSocket connection: "@ + display@
                },
            },
    {
        match handshake {
            Handshake::Completed(c) => {
                self.connections.push(c);
                Ok(())
            },
            Handshake::StreamFailed(d) => Err(
                BigError::WatchError(chain("Failed to clone stream: ", d.as_str())),
            ),
            Handshake::Failed { debug, display } => {
                let text = to_chars(debug.as_str());
                let mark = to_chars("WouldBlock");
                if contains(&text, &mark) {
                    Ok(())
                } else {
                    Err(
                        BigError::WatchError(
                            chain("Failed to accept WebSocket connection: ", display.as_str()),
                        ),
                    )
                }
            },
        }
    }

    /// Begins a broadcast: every connection leaves the pool and waits for
    /// its turn.
    pub fn begin_broadcast(&mut self) -> (b: Broadcast<C>)
        ensures
            final(self)@.len() == 0,
            b.wf(),
            b@ == Turns::begin(old(self)@),
    {
        let mut pending: Vec<C> = Vec::new();
        std::mem::swap(&mut self.connections, &mut pending);
        let b = Broadcast { pending, kept: Vec::new(), origin: Ghost(pending@) };
        proof {
            assert(b.origin@.skip(0) =~= b.pending@);
            assert(b.kept@ =~= Seq::<C>::empty());
        }
        b
    }

    /// Sends to every connection of the pool, once and in order, whatever
    /// comes of the sends before it, and keeps exactly those that took the
    /// message. `send` does the sending: it takes a connection and gives it
    /// back, with the word whether the send succeeded. The result tells, for
    /// each connection of the pool as it was, whether it took the message.
    pub fn broadcast<F>(&mut self, send: F) -> (delivered: Vec<bool>) where F: Fn(C) -> (C, bool)
        requires
            forall|c: C| send.requires((c,)),
        ensures
            delivered@.len() == old(self)@.len(),
            exists|returned: Seq<C>|
                {
                    &&& returned.len() == old(self)@.len()
                    &&& forall|k: int|
                        0 <= k < returned.len() ==> send.ensures(
                            (old(self)@[k],),
                            (#[trigger] returned[k], delivered@[k]),
                        )
                    &&& final(self)@ == survivors(returned, delivered@)
                },
    {
        let ghost origin = self@;
        let mut turn = self.begin_broadcast();
        let mut delivered: Vec<bool> = Vec::new();
        let ghost mut returned: Seq<C> = Seq::empty();
        loop
            invariant
                turn.wf(),
                turn@.origin == origin,
                self@.len() == 0,
                returned.len() == turn@.attempted,
                delivered@.len() == turn@.attempted,
                turn@.attempted <= origin.len(),
                forall|k: int|
                    0 <= k < returned.len() ==> send.ensures(
                        (origin[k],),
                        (#[trigger] returned[k], delivered@[k]),
                    ),
                turn@.kept == survivors(returned, delivered@),
                forall|c: C| send.requires((c,)),
            ensures
                turn@.attempted == origin.len(),
            decreases origin.len() - turn@.attempted,
        {
            match turn.next() {
                None => {
                    break ;
                },
                Some(connection) => {
                    let ghost before = returned;
                    let ghost outcomes = delivered@;
                    let (connection, ok) = send(connection);
                    proof {
                        returned = returned.push(connection);
                        lemma_survivors_extended(before, outcomes, connection, ok);
                    }
                    delivered.push(ok);
                    let _ = turn.settle(connection, ok);
                },
            }
        }
        proof {
            assert(turn@.pending() =~= Seq::<C>::empty());
            assert(self@ + turn@.kept + turn@.pending() =~= turn@.kept);
        }
        turn.finish(self);
        delivered
    }

    /// Empties the pool for shutdown and hands over its connections, so that
    /// each can be closed.
    pub fn cleanup(&mut self) -> (closing: Vec<C>)
        ensures
            final(self)@.len() == 0,
            closing@ == old(self)@,
    {
        let mut closing: Vec<C> = Vec::new();
        std::mem::swap(&mut self.connections, &mut closing);
        closing
    }
}

impl<C> Broadcast<C> {
    /// Whether the broadcast is sound: the connections that wait are the
    /// last ones of the pool as it was.
    pub closed spec fn wf(self) -> bool {
        &&& self.pending@.len() <= self.origin@.len()
        &&& self.origin@.skip(self.origin@.len() - self.pending@.len()) == self.pending@
    }

    /// Hands out the next connection for sending: each connection of the
    /// pool as it was, once and in order, whatever came of the others.
    /// `None` when all have had their turn.
    pub fn next(&mut self) -> (c: Option<C>)
        requires
            old(self).wf(),
        ensures
            final(self).wf(),
            c == old(self)@.current(),
            final(self)@ == old(self)@.advanced(),
    {
        if self.pending.len() == 0 {
            None
        } else {
            let ghost start = self.origin@.len() - self.pending@.len();
            let conn = self.pending.remove(0);
            proof {
                assert(self.origin@.skip(start + 1) =~= self.origin@.skip(start).remove(0));
                assert(self.origin@.skip(start)[0] == self.origin@[start]);
            }
            Some(conn)
        }
    }

    /// Takes a connection back after the send. One that took the message is
    /// kept; one on which the send failed is handed back to be dropped, and
    /// never returns to the pool.
    pub fn settle(&mut self, connection: C, delivered: bool) -> (dropped: Option<C>)
        requires
            old(self).wf(),
        ensures
            final(self).wf(),
            final(self)@ == old(self)@.settled(connection, delivered),
            dropped == if delivered {
                None
            } else {
                Some(connection)
            },
    {
        if delivered {
            self.kept.push(connection);
            None
        } else {
            Some(connection)
        }
    }

    /// Ends the broadcast: the connections that were kept return to the
    /// pool, behind any that joined it meanwhile. Connections that have not
    /// had their turn return too, after the kept ones.
    pub fn finish(self, pool: &mut ConnectionPool<C>)
        requires
            self.wf(),
        ensures
            final(pool)@ == old(pool)@ + self@.kept + self@.pending(),
    {
        let Broadcast { pending, kept, origin: _ } = self;
        let mut kept = kept;
        let mut pending = pending;
        pool.connections.append(&mut kept);
        pool.connections.append(&mut pending);
    }
}

/// The connections that a broadcast keeps when the k-th connection of
/// `origin` takes the message exactly if `delivered[k]` says so: those that
/// took it, in their order. A connection without an entry counts as failed.
pub open spec fn survivors<C>(origin: Seq<C>, delivered: Seq<bool>) -> Seq<C>
    decreases origin.len(),
{
    if origin.len() == 0 {
        Seq::empty()
    } else {
        let k = origin.len() - 1;
        let before = survivors(origin.drop_last(), delivered);
        if k < delivered.len() && delivered[k] {
            before.push(origin.last())
        } else {
            before
        }
    }
}

/// One more connection and its outcome add the connection to the
/// survivors exactly if its send succeeded.
pub proof fn lemma_survivors_extended<C>(
    origin: Seq<C>,
    delivered: Seq<bool>,
    connection: C,
    ok: bool,
)
    requires
        delivered.len() == origin.len(),
    ensures
        survivors(origin.push(connection), delivered.push(ok)) == if ok {
            survivors(origin, delivered).push(connection)
        } else {
            survivors(origin, delivered)
        },
{
    assert(origin.push(connection).drop_last() =~= origin);
    lemma_survivors_prefix(origin, delivered, delivered.push(ok));
}

/// The survivors depend on the outcomes of their own connections only.
pub proof fn lemma_survivors_prefix<C>(origin: Seq<C>, first: Seq<bool>, second: Seq<bool>)
    requires
        origin.len() <= first.len(),
        origin.len() <= second.len(),
        forall|k: int| 0 <= k < origin.len() ==> first[k] == second[k],
    ensures
        survivors(origin, first) == survivors(origin, second),
    decreases origin.len(),
{
    if origin.len() > 0 {
        lemma_survivors_prefix(origin.drop_last(), first, second);
    }
}

/// How many of the first `n` sends succeeded.
pub open spec fn delivered_count(delivered: Seq<bool>, n: int) -> int
    decreases n,
{
    if n <= 0 {
        0
    } else {
        delivered_count(delivered, n - 1) + if n - 1 < delivered.len() && delivered[n - 1] {
            1int
        } else {
            0int
        }
    }
}

/// One turn of a broadcast adds the connection to those kept exactly if the
/// send succeeded, and leaves the earlier ones as they are.
pub proof fn lemma_survivors_turn<C>(origin: Seq<C>, delivered: Seq<bool>, n: int)
    requires
        0 <= n < origin.len(),
    ensures
        survivors(origin.take(n + 1), delivered) == if n < delivered.len() && delivered[n] {
            survivors(origin.take(n), delivered).push(origin[n])
        } else {
            survivors(origin.take(n), delivered)
        },
{
    assert(origin.take(n + 1).drop_last() =~= origin.take(n));
}

/// The connections among the first `n` whose sends succeed are kept by the
/// time that `n` connections have had their turn.
pub proof fn lemma_run_keeps_survivors<C>(t: Turns<C>, delivered: Seq<bool>)
    requires
        t.attempted <= t.origin.len(),
        t.kept == survivors(t.origin.take(t.attempted as int), delivered),
    ensures
        t.run(delivered).origin == t.origin,
        t.run(delivered).attempted == t.origin.len(),
        t.run(delivered).kept == survivors(t.origin, delivered),
    decreases t.origin.len() - t.attempted,
{
    if t.attempted < t.origin.len() {
        let n = t.attempted as int;
        let next = t.advanced().settled(t.origin[n], n < delivered.len() && delivered[n]);
        lemma_survivors_turn(t.origin, delivered, n);
        lemma_run_keeps_survivors(next, delivered);
    } else {
        assert(t.origin.take(t.attempted as int) =~= t.origin);
    }
}

/// In one broadcast every connection of the pool has its turn, whatever
/// came of the sends before it. A failed send takes nothing from the
/// others: every connection whose own send succeeds is kept, and the pool
/// afterwards holds as many connections as sends succeeded.
pub proof fn lemma_broadcast_isolation<C>(origin: Seq<C>, delivered: Seq<bool>)
    ensures
        Turns::begin(origin).run(delivered).attempted == origin.len(),
        Turns::begin(origin).run(delivered).kept == survivors(origin, delivered),
        forall|k: int|
            0 <= k < origin.len() && k < delivered.len() && delivered[k] ==> survivors(
                origin,
                delivered,
            ).contains(#[trigger] origin[k]),
        survivors(origin, delivered).len() == delivered_count(delivered, origin.len() as int),
{
    assert(origin.take(0) =~= Seq::<C>::empty());
    lemma_run_keeps_survivors(Turns::begin(origin), delivered);
    lemma_survivors_hold(origin, delivered);
}

/// Every connection whose own send succeeds is among the survivors, and
/// there are as many survivors as sends succeeded.
pub proof fn lemma_survivors_hold<C>(origin: Seq<C>, delivered: Seq<bool>)
    ensures
        forall|k: int|
            0 <= k < origin.len() && k < delivered.len() && delivered[k] ==> survivors(
                origin,
                delivered,
            ).contains(#[trigger] origin[k]),
        survivors(origin, delivered).len() == delivered_count(delivered, origin.len() as int),
    decreases origin.len(),
{
    if origin.len() > 0 {
        let last = origin.len() - 1;
        let before = survivors(origin.drop_last(), delivered);
        lemma_survivors_hold(origin.drop_last(), delivered);
        assert forall|k: int|
            0 <= k < origin.len() && k < delivered.len() && delivered[k] implies survivors(
            origin,
            delivered,
        ).contains(#[trigger] origin[k]) by {
            if k < last {
                assert(origin.drop_last()[k] == origin[k]);
                let i = choose|i: int| 0 <= i < before.len() && before[i] == origin[k];
                assert(survivors(origin, delivered)[i] == origin[k]);
            } else {
                assert(survivors(origin, delivered).last() == origin[k]);
            }
        }
    }
}

} // verus!
