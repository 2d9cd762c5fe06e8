//! A listener whose socket and TLS mode can both be replaced while it serves.
//!
//! The accept loop of one role is a state machine: what it waits for, and what
//! it does with what came. A role without a socket parks until it is handed one.
//! The TLS mode is not part of its state; it is read once per connection, so
//! turning TLS on or off rebinds nothing.

use crate::time::Duration;
use vstd::prelude::*;

verus! {

/// How many connections may sit between the TCP accept and the server:
/// handshakes in flight and finished streams not yet picked up.
pub const MAX_PENDING_CONNECTIONS: usize = 256;

/// What a reload does to one role's socket. The socket is bound already, where
/// a failure could still refuse the reload.
#[derive(Debug, PartialEq, Eq)]
pub enum SocketCommand<S> {
    /// Serve this socket from now on, dropping whatever was being served.
    Serve(S),
    /// Stop accepting and release the socket.
    Close,
}

/// The accept loop of one role, over sockets `S` with addresses `A`.
#[derive(Debug)]
#[verifier::reject_recursive_types(S)]
#[verifier::reject_recursive_types(A)]
pub struct AcceptLoop<S, A> {
    current: Option<S>,
    commanded: bool,
    bound: A,
}

/// What the loop waits for.
#[derive(Debug, Clone, Copy, PartialEq, Eq, Structural)]
pub enum Wait {
    /// Only its own end: there is nothing to accept, and nothing that could ever
    /// hand it a socket again.
    End,
    /// A command.
    Command,
    /// A connection.
    Connection,
    /// A command, or else a connection: a pending rebind is taken before another
    /// connection on the socket that it replaces.
    CommandFirst,
}

/// What one pass of the loop produced.
#[derive(Debug)]
#[verifier::reject_recursive_types(S)]
#[verifier::reject_recursive_types(A)]
#[verifier::reject_recursive_types(C)]
pub enum Next<S, A, C> {
    Connection(C),
    /// A command, with the address of the socket it carries where that can be
    /// told. `None` means that nothing can send one any more.
    Command(Option<(SocketCommand<S>, Option<A>)>),
    /// Accepting failed.
    Backoff,
}

/// What the loop does with it.
#[derive(Debug)]
#[verifier::reject_recursive_types(C)]
#[verifier::reject_recursive_types(T)]
pub enum Action<C, T> {
    /// Hands the connection over as it stands.
    Plain(C),
    /// Shakes hands under these settings, beside the loop.
    Handshake(C, T),
    /// Waits so long before it goes on.
    Pause(Duration),
    /// Goes on at once.
    GoOn,
}

impl<S, A> AcceptLoop<S, A> {
    /// The socket that is served.
    pub closed spec fn socket(&self) -> Option<S> {
        self.current
    }

    /// Whether a command can still come.
    pub closed spec fn listening(&self) -> bool {
        self.commanded
    }

    /// The address last bound.
    pub closed spec fn address(&self) -> A {
        self.bound
    }

    /// A loop over the socket to serve at once, if there is one.
    pub fn start(initial: Option<S>, address: A) -> (r: AcceptLoop<S, A>)
        ensures
            r.socket() == initial,
            r.listening(),
            r.address() == address,
    {
        AcceptLoop { current: initial, commanded: true, bound: address }
    }

    /// The socket to accept on.
    pub fn current(&self) -> (r: Option<&S>)
        ensures
            match r {
                Some(s) => self.socket() == Some(*s),
                None => self.socket() is None,
            },
    {
        match &self.current {
            Some(s) => Some(s),
            None => None,
        }
    }

    /// The address last bound.
    pub fn local_addr(&self) -> (r: &A)
        ensures
            *r == self.address(),
    {
        &self.bound
    }

    /// What the loop waits for now.
    pub fn wait(&self) -> (r: Wait)
        ensures
            r == match (self.socket() is Some, self.listening()) {
                (false, false) => Wait::End,
                (false, true) => Wait::Command,
                (true, false) => Wait::Connection,
                (true, true) => Wait::CommandFirst,
            },
    {
        match (self.current.is_some(), self.commanded) {
            (false, false) => Wait::End,
            (false, true) => Wait::Command,
            (true, false) => Wait::Connection,
            (true, true) => Wait::CommandFirst,
        }
    }

    /// Applies one command to the socket. What was accepted already is not
    /// affected.
    pub fn apply(&mut self, command: SocketCommand<S>, address: Option<A>)
        ensures
            final(self).socket() == socket_after(command),
            final(self).listening() == old(self).listening(),
            final(self).address() == address_after(command, address, old(self).address()),
    {
        match command {
            SocketCommand::Serve(socket) => {
                if let Some(address) = address {
                    self.bound = address;
                }
                self.current = Some(socket);
            },
            SocketCommand::Close => {
                self.current = None;
            },
        }
    }

    /// Takes in what a pass produced. `tls` is the mode at this moment, `None`
    /// for cleartext.
    pub fn on_next<C, T>(&mut self, next: Next<S, A, C>, tls: Option<T>) -> (r: Action<C, T>)
        ensures
            match next {
                Next::Connection(connection) => {
                    &&& *final(self) == *old(self)
                    &&& match tls {
                        None => r == Action::<C, T>::Plain(connection),
                        Some(settings) => r == Action::Handshake(connection, settings),
                    }
                },
                Next::Command(Some((command, address))) => {
                    &&& final(self).socket() == socket_after(command)
                    &&& final(self).listening() == old(self).listening()
                    &&& final(self).address() == address_after(
                        command,
                        address,
                        old(self).address(),
                    )
                    &&& r is GoOn
                },
                Next::Command(None) => {
                    &&& final(self).socket() == old(self).socket()
                    &&& !final(self).listening()
                    &&& final(self).address() == old(self).address()
                    &&& r is GoOn
                },
                Next::Backoff => {
                    &&& *final(self) == *old(self)
                    &&& r matches Action::Pause(span) && span@ == 1_000_000_000
                },
            },
    {
        match next {
            Next::Connection(connection) => match tls {
                None => Action::Plain(connection),
                Some(settings) => Action::Handshake(connection, settings),
            },
            Next::Command(Some((command, address))) => {
                self.apply(command, address);
                Action::GoOn
            },
            Next::Command(None) => {
                self.commanded = false;
                Action::GoOn
            },
            Next::Backoff => Action::Pause(Duration::from_secs(1)),
        }
    }
}

/// The socket that is served after a command.
pub open spec fn socket_after<S>(command: SocketCommand<S>) -> Option<S> {
    match command {
        SocketCommand::Serve(socket) => Some(socket),
        SocketCommand::Close => None,
    }
}

/// The address after a command: that of the new socket, where it can be told.
pub open spec fn address_after<S, A>(command: SocketCommand<S>, told: Option<A>, before: A) -> A {
    match (command, told) {
        (SocketCommand::Serve(_), Some(address)) => address,
        _ => before,
    }
}

/// How a handshake ended.
#[derive(Debug, Clone, Copy, PartialEq, Eq, Structural)]
pub enum HandshakeEnd {
    Finished,
    Failed,
    TimedOut,
}

/// Whether a connection is handed over after its handshake, and else the event
/// under which it is dropped. A bad connection simply never becomes one.
pub fn after_handshake(end: HandshakeEnd) -> (r: Result<(), &'static str>)
    ensures
        match end {
            HandshakeEnd::Finished => r is Ok,
            HandshakeEnd::Failed => r matches Err(event) && event@ == "tls_handshake_failed"@,
            HandshakeEnd::TimedOut => r matches Err(event) && event@ == "tls_handshake_timeout"@,
        },
{
    match end {
        HandshakeEnd::Finished => Ok(()),
        HandshakeEnd::Failed => Err("tls_handshake_failed"),
        HandshakeEnd::TimedOut => Err("tls_handshake_timeout"),
    }
}

/// What the loop serves after a run of passes: the socket, and whether a
/// command can still come.
pub open spec fn after_passes<S, A, C>(
    socket: Option<S>,
    listening: bool,
    passes: Seq<Next<S, A, C>>,
) -> (Option<S>, bool)
    decreases passes.len(),
{
    if passes.len() == 0 {
        (socket, listening)
    } else {
        let (s, l) = after_passes(socket, listening, passes.drop_last());
        match passes.last() {
            Next::Command(Some((command, _))) => (socket_after(command), l),
            Next::Command(None) => (s, false),
            _ => (s, l),
        }
    }
}

/// Connections and failed accepts never change the socket: it is what the last
/// command said, or what the loop started with.
pub proof fn the_last_command_decides_the_socket<S, A, C>(
    socket: Option<S>,
    listening: bool,
    passes: Seq<Next<S, A, C>>,
    last: int,
)
    requires
        -1 <= last < passes.len(),
        last >= 0 ==> (passes[last] matches Next::Command(Some(_))),
        forall|i: int|
            last < i < passes.len() ==> !(#[trigger] passes[i] matches Next::Command(Some(_))),
    ensures
        after_passes(socket, listening, passes).0 == if last >= 0 {
            socket_after((passes[last]->Command_0->Some_0).0)
        } else {
            socket
        },
    decreases passes.len(),
{
    if passes.len() > 0 && last < passes.len() - 1 {
        assert(!(passes[passes.len() - 1] matches Next::Command(Some(_))));
        the_last_command_decides_the_socket(socket, listening, passes.drop_last(), last);
    }
}

/// A role that is served stays served when nothing can command it any more; it
/// ends only when it has no socket and never can have one again.
pub proof fn losing_its_commands_ends_no_role<S, A, C>(socket: Option<S>, listening: bool)
    ensures
        after_passes::<S, A, C>(socket, listening, seq![Next::Command(None)]) == (socket, false),
{
    let passes = seq![Next::<S, A, C>::Command(None)];
    assert(passes.drop_last() =~= Seq::empty());
    assert(after_passes(socket, listening, passes.drop_last()) == (socket, listening));
}

/// A command to serve puts its socket in place of any other, and its address where it is
/// told; a command to close takes the socket away and keeps the address.
pub proof fn a_command_puts_its_socket_in_place<S, A>(socket: S, told: A, before: A)
    ensures
        socket_after(SocketCommand::Serve(socket)) == Some(socket),
        socket_after(SocketCommand::<S>::Close) is None,
        address_after(SocketCommand::Serve(socket), Some(told), before) == told,
        address_after(SocketCommand::Serve(socket), None::<A>, before) == before,
        address_after(SocketCommand::<S>::Close, Some(told), before) == before,
        address_after(SocketCommand::<S>::Close, None::<A>, before) == before,
        MAX_PENDING_CONNECTIONS == 256,
{
}

} // verus!
