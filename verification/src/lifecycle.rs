//! The server's shared lifecycle state — the running flag and the registry of
//! accepted connections — and the decision the accept loop takes on each
//! iteration.
//!
//! The loop around it is plain I/O: bind, poll the non-blocking listener,
//! hand the outcome to [`accept_step`], then perform the action it returns.
//! Registered connections are identified here by plain handles; the caller
//! keeps its sockets beside them, and on shutdown closes exactly the handles
//! the drain returns.

use vstd::prelude::*;

verus! {

/// Mathematical view of the lifecycle state.
#[verifier::ext_equal]
pub struct LifecycleModel {
    /// Whether the server still admits new work.
    pub running: bool,
    /// The registered connections, in acceptance order. Entries are removed
    /// only in bulk by a drain: a handler that exits on its own leaves its
    /// entry behind, and shutting an already-closed connection down must be
    /// a harmless no-op for the caller.
    pub clients: Seq<u64>,
}

/// The model after one accepted connection is registered.
pub open spec fn registered(m: LifecycleModel, conn: u64) -> LifecycleModel {
    LifecycleModel { running: m.running, clients: m.clients.push(conn) }
}

/// The model after a shutdown: the flag cleared, the registry drained.
pub open spec fn stopped(m: LifecycleModel) -> LifecycleModel {
    LifecycleModel { running: false, clients: Seq::empty() }
}

/// The shared lifecycle state of one server.
pub struct ServerCore {
    running: bool,
    clients: Vec<u64>,
}

impl View for ServerCore {
    type V = LifecycleModel;

    closed spec fn view(&self) -> LifecycleModel {
        LifecycleModel { running: self.running, clients: self.clients@ }
    }
}

impl ServerCore {
    /// A fresh server admits work and has no registered connections.
    pub fn new() -> (core: ServerCore)
        ensures
            core@ == (LifecycleModel { running: true, clients: Seq::<u64>::empty() }),
    {
        let core = ServerCore { running: true, clients: Vec::new() };
        proof {
            assert(core@ =~= LifecycleModel { running: true, clients: Seq::<u64>::empty() });
        }
        core
    }

    /// Whether the running flag is set.
    pub fn is_running(&self) -> (r: bool)
        ensures
            r == self@.running,
    {
        self.running
    }

    /// Sets the running flag: entering the accept loop marks the server as
    /// running again. The registry is untouched.
    pub fn start(&mut self)
        ensures
            final(self)@ == (LifecycleModel { running: true, clients: old(self)@.clients }),
    {
        self.running = true;
    }

    /// Registers one accepted connection. Acceptance order is kept: the new
    /// connection goes to the end of the registry.
    pub fn register(&mut self, conn: u64)
        ensures
            final(self)@ == registered(old(self)@, conn),
    {
        self.clients.push(conn);
    }

    /// How many connections are registered.
    pub fn client_count(&self) -> (n: usize)
        ensures
            n == self@.clients.len(),
    {
        self.clients.len()
    }

    /// Clears the running flag and drains the registry, returning every
    /// registered connection — each one, in acceptance order — so the caller
    /// can force it closed. A second call finds nothing left to drain.
    pub fn stop(&mut self) -> (drained: Vec<u64>)
        ensures
            final(self)@ == stopped(old(self)@),
            drained@ == old(self)@.clients,
    {
        self.running = false;
        let mut drained: Vec<u64> = Vec::new();
        core::mem::swap(&mut drained, &mut self.clients);
        proof {
            assert(self@ =~= stopped(old(self)@));
        }
        drained
    }
}

/// Stopping is idempotent: a second shutdown changes nothing and finds an
/// empty registry, so its drain closes nothing.
pub proof fn lemma_stop_idempotent(m: LifecycleModel)
    ensures
        stopped(stopped(m)) == stopped(m),
        stopped(m).clients.len() == 0,
{
    assert(stopped(stopped(m)) =~= stopped(m));
}

/// One outcome of a non-blocking accept attempt.
#[derive(Clone, Copy, Debug, PartialEq, Eq, Structural)]
pub enum AcceptEvent {
    /// A new connection was accepted.
    Accepted,
    /// No connection was pending.
    WouldBlock,
    /// The accept failed with a transient error.
    Failed,
}

/// What the accept loop does next.
#[derive(Clone, Copy, Debug, PartialEq, Eq, Structural)]
pub enum AcceptAction {
    /// Register the connection and hand it to a new, independent handler.
    Admit,
    /// Sleep briefly, then poll again.
    Wait,
    /// Log the error and keep accepting: accept errors are not fatal.
    Continue,
    /// Leave the loop: the server is shutting down. Handler errors are never
    /// propagated here.
    Exit,
}

/// Decides one iteration of the accept loop from the running flag and the
/// outcome of the accept attempt. Only a cleared flag ends the loop.
pub fn accept_step(running: bool, event: AcceptEvent) -> (action: AcceptAction)
    ensures
        !running ==> action is Exit,
        running && event is Accepted ==> action is Admit,
        running && event is WouldBlock ==> action is Wait,
        running && event is Failed ==> action is Continue,
{
    if !running {
        return AcceptAction::Exit;
    }
    match event {
        AcceptEvent::Accepted => AcceptAction::Admit,
        AcceptEvent::WouldBlock => AcceptAction::Wait,
        AcceptEvent::Failed => AcceptAction::Continue,
    }
}

/// The connections an accept-loop trace admits before it sees the running
/// flag cleared, in acceptance order. Each trace step carries the flag as
/// the loop observed it that iteration — another thread owns clearing it —
/// the outcome of the accept attempt, and the handle of the connection if
/// one was accepted.
pub open spec fn admitted_connections(steps: Seq<(bool, AcceptEvent, u64)>) -> Seq<u64>
    decreases steps.len(),
{
    if steps.len() == 0 {
        Seq::empty()
    } else if !steps[0].0 {
        Seq::empty()
    } else if steps[0].1 is Accepted {
        seq![steps[0].2] + admitted_connections(steps.drop_first())
    } else {
        admitted_connections(steps.drop_first())
    }
}

/// Runs the accept loop over a trace of observed flag values and accept
/// outcomes: each iteration asks `accept_step` what to do and performs it,
/// registering every admitted connection in acceptance order, until the step
/// says to leave. Transient accept failures admit nothing and do not end the
/// loop. This is the acceptor's loop, with the listener abstracted to the
/// outcomes it yields.
pub fn run_acceptor(core: &mut ServerCore, steps: Vec<(bool, AcceptEvent, u64)>)
    ensures
        final(core)@.running == old(core)@.running,
        final(core)@.clients == old(core)@.clients + admitted_connections(steps@),
{
    let ghost all = steps@;
    let mut rest = steps;
    let mut done = false;
    proof {
        assert(old(core)@.clients + admitted_connections(rest@) =~= core@.clients
            + admitted_connections(rest@));
    }
    while !done && rest.len() > 0
        invariant
            core@.running == old(core)@.running,
            !done ==> old(core)@.clients + admitted_connections(all) == core@.clients
                + admitted_connections(rest@),
            done ==> old(core)@.clients + admitted_connections(all) == core@.clients,
        decreases rest.len(),
    {
        let ghost rest_before = rest@;
        let ghost clients_before = core@.clients;
        let (running, event, conn) = rest.remove(0);
        proof {
            assert(rest_before.drop_first() =~= rest@);
        }
        match accept_step(running, event) {
            AcceptAction::Exit => {
                proof {
                    assert(old(core)@.clients + admitted_connections(all) =~= core@.clients);
                }
                done = true;
            },
            AcceptAction::Admit => {
                core.register(conn);
                proof {
                    assert(old(core)@.clients + admitted_connections(all) =~= core@.clients
                        + admitted_connections(rest@));
                }
            },
            AcceptAction::Wait => {},
            AcceptAction::Continue => {},
        }
    }
    proof {
        if !done {
            assert(admitted_connections(rest@) =~= Seq::<u64>::empty());
        }
        assert(old(core)@.clients + admitted_connections(all) =~= core@.clients);
    }
}

} // verus!
