//! Per-connection session state and the process-wide client registry.
//!
//! A connection starts disconnected and connects at most once for its life;
//! a failed connect returns it to disconnected so the client may retry. Every
//! command is gated here before any database work.

use vstd::prelude::*;
use vstd::hash_map::HashMapWithView;

use crate::envelope::CommandKind;

verus! {

broadcast use vstd::std_specs::hash::group_hash_axioms;

/// A command refused by the session gate, before any database call.
#[derive(Clone, Copy, PartialEq, Eq, Structural, Debug)]
pub enum StateError {
    NotConnected,
    AlreadyConnected,
}

/// What the dispatcher should do with a verified command.
#[derive(Clone, Copy, PartialEq, Eq, Structural, Debug)]
pub enum Action {
    /// Report the state error to the client; no database call is made.
    Refuse(StateError),
    /// Attempt to open a database session with the client's credentials.
    OpenSession,
    /// Run the compiled statement on the session with this handle.
    Execute(u64),
    /// An unknown command: log and move on.
    Ignore,
}

/// The state of one connection: whether it is connected, the keyspace its
/// statements run against, and the handle of the database session its owner
/// holds for it once connected.
pub struct ClientState {
    pub connected: bool,
    pub keyspace: String,
    pub session: Option<u64>,
}

impl ClientState {
    /// A session handle exists exactly while connected.
    pub open spec fn wf(&self) -> bool {
        self.connected <==> self.session is Some
    }

    /// A fresh connection state. Handing in a session makes sense only
    /// together with `connected`; without it the session is dropped.
    pub fn new(connected: bool, keyspace: &str, session: Option<u64>) -> (r: ClientState)
        requires
            connected ==> session is Some,
        ensures
            r.connected == connected,
            r.keyspace@ == keyspace@,
            r.session == (if connected {
                session
            } else {
                None::<u64>
            }),
            r.wf(),
    {
        let session = if connected {
            session
        } else {
            None
        };
        ClientState { connected, keyspace: keyspace.to_owned(), session }
    }

    /// Starts a connect attempt: the keyspace comes from the request; state
    /// stays disconnected until the driver answers.
    pub fn begin_connect(&mut self, keyspace: String)
        requires
            !old(self).connected,
            old(self).wf(),
        ensures
            final(self).connected == false,
            final(self).session == old(self).session,
            final(self).keyspace == keyspace,
            final(self).wf(),
    {
        self.keyspace = keyspace;
    }

    /// Records a successful connect: the connection is now connected, for its
    /// life, to the session the caller holds under `handle`.
    pub fn complete_connect(&mut self, handle: u64)
        requires
            !old(self).connected,
        ensures
            final(self).connected == true,
            final(self).session == Some(handle),
            final(self).keyspace == old(self).keyspace,
            final(self).wf(),
    {
        self.session = Some(handle);
        self.connected = true;
    }

    /// Records a failed connect: the connection returns to disconnected and
    /// the client may retry.
    pub fn fail_connect(&mut self)
        requires
            !old(self).connected,
            old(self).wf(),
        ensures
            final(self).connected == false,
            final(self).session == old(self).session,
            final(self).keyspace == old(self).keyspace,
            final(self).wf(),
    {
        self.connected = false;
    }

    /// The keyspace a statement should run against: the one named on the
    /// envelope when present, else this connection's own.
    pub fn effective_keyspace(&self, requested: &Option<String>) -> (r: String)
        ensures
            r@ == (match requested {
                Some(ks) => ks@,
                None => self.keyspace@,
            }),
    {
        match requested {
            Some(ks) => ks.clone(),
            None => self.keyspace.clone(),
        }
    }
}

/// What the session gate decides for a command: connect opens a session only
/// while disconnected; every other command executes only while connected,
/// on the session the state holds; unknown commands are ignored.
pub open spec fn spec_plan(state: ClientState, kind: CommandKind) -> Action {
    match kind {
        CommandKind::Connect => if state.connected {
            Action::Refuse(StateError::AlreadyConnected)
        } else {
            Action::OpenSession
        },
        CommandKind::Unknown => Action::Ignore,
        _ => if !state.connected {
            Action::Refuse(StateError::NotConnected)
        } else {
            Action::Execute(state.session->0)
        },
    }
}

/// A second connect on an already-connected session is refused with
/// `AlreadyConnected`. Deciding reads the state without changing it, so the
/// session handle identity is untouched.
pub proof fn lemma_second_connect_refused(state: ClientState)
    requires
        state.connected,
    ensures
        spec_plan(state, CommandKind::Connect) == Action::Refuse(StateError::AlreadyConnected),
{
}

/// Any non-connect command before a successful connect is refused with
/// `NotConnected`: the decision is never `Execute` or `OpenSession`, so no
/// database call can follow from it.
pub proof fn lemma_commands_gated_before_connect(state: ClientState, kind: CommandKind)
    requires
        !state.connected,
        kind != CommandKind::Connect,
        kind != CommandKind::Unknown,
    ensures
        spec_plan(state, kind) == Action::Refuse(StateError::NotConnected),
{
}

/// Decides what to do with a command, from the session state alone, before
/// any database work.
pub fn plan_command(state: &ClientState, kind: CommandKind) -> (r: Action)
    requires
        state.wf(),
    ensures
        r == spec_plan(*state, kind),
{
    match kind {
        CommandKind::Connect => {
            if state.connected {
                Action::Refuse(StateError::AlreadyConnected)
            } else {
                Action::OpenSession
            }
        },
        CommandKind::Unknown => Action::Ignore,
        _ => {
            if !state.connected {
                Action::Refuse(StateError::NotConnected)
            } else {
                match state.session {
                    Some(h) => Action::Execute(h),
                    None => Action::Refuse(StateError::NotConnected),
                }
            }
        },
    }
}

/// The process-wide registry: connection id to session state, for lifecycle
/// bookkeeping only.
pub struct Store {
    pub clients: HashMapWithView<u64, ClientState>,
}

impl Store {
    /// An empty registry.
    pub fn new() -> (r: Store)
        ensures
            r.clients@ == Map::<u64, ClientState>::empty(),
    {
        Store { clients: HashMapWithView::new() }
    }

    /// Adds a connection at accept.
    pub fn register(&mut self, id: u64, state: ClientState)
        ensures
            final(self).clients@ == old(self).clients@.insert(id, state),
    {
        self.clients.insert(id, state);
    }

    /// Removes a connection at close. Already-spawned command tasks are not
    /// cancelled by this; they run to completion.
    pub fn unregister(&mut self, id: u64)
        ensures
            final(self).clients@ == old(self).clients@.remove(id),
            !final(self).clients@.contains_key(id),
    {
        let _ = self.clients.remove(&id);
        proof {
            if !old(self).clients@.contains_key(id) {
                assert(final(self).clients@ =~= old(self).clients@.remove(id));
            }
        }
    }
}

} // verus!
