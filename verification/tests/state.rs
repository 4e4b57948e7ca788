use cql_gateway::envelope::CommandKind;
use cql_gateway::state::{plan_command, Action, ClientState, StateError, Store};

#[test]
fn a_fresh_connection_is_disconnected() {
    let state = ClientState::new(false, "test", None);
    assert!(!state.connected);
    assert_eq!(state.keyspace, "test");
    assert_eq!(state.session, None);
}

#[test]
fn a_connected_state_keeps_its_session() {
    let state = ClientState::new(true, "main", Some(9));
    assert!(state.connected);
    assert_eq!(state.session, Some(9));
}

#[test]
fn connect_on_disconnected_opens_a_session() {
    let state = ClientState::new(false, "test", None);
    assert_eq!(plan_command(&state, CommandKind::Connect), Action::OpenSession);
}

#[test]
fn second_connect_is_refused_and_the_handle_stays() {
    let mut state = ClientState::new(false, "test", None);
    state.begin_connect("main".to_string());
    state.complete_connect(7);
    assert_eq!(
        plan_command(&state, CommandKind::Connect),
        Action::Refuse(StateError::AlreadyConnected)
    );
    // the database handle identity is untouched
    assert_eq!(state.session, Some(7));
    assert!(state.connected);
}

#[test]
fn every_non_connect_command_is_refused_before_connect() {
    let state = ClientState::new(false, "test", None);
    for kind in [
        CommandKind::Select,
        CommandKind::Insert,
        CommandKind::Update,
        CommandKind::Delete,
        CommandKind::Raw,
    ] {
        assert_eq!(
            plan_command(&state, kind),
            Action::Refuse(StateError::NotConnected)
        );
    }
}

#[test]
fn commands_execute_on_the_connected_session() {
    let mut state = ClientState::new(false, "test", None);
    state.begin_connect("main".to_string());
    state.complete_connect(11);
    assert_eq!(plan_command(&state, CommandKind::Select), Action::Execute(11));
    assert_eq!(plan_command(&state, CommandKind::Raw), Action::Execute(11));
}

#[test]
fn unknown_commands_are_ignored() {
    let state = ClientState::new(false, "test", None);
    assert_eq!(plan_command(&state, CommandKind::Unknown), Action::Ignore);
}

#[test]
fn a_failed_connect_returns_to_disconnected_for_retry() {
    let mut state = ClientState::new(false, "test", None);
    state.begin_connect("main".to_string());
    state.fail_connect();
    assert!(!state.connected);
    assert_eq!(state.keyspace, "main");
    assert_eq!(plan_command(&state, CommandKind::Connect), Action::OpenSession);
}

#[test]
fn keyspace_on_the_envelope_wins() {
    let state = ClientState::new(false, "own", None);
    assert_eq!(state.effective_keyspace(&Some("other".to_string())), "other");
    assert_eq!(state.effective_keyspace(&None), "own");
}

#[test]
fn registry_tracks_connections_across_their_life() {
    let mut store = Store::new();
    store.register(1, ClientState::new(false, "test", None));
    store.register(2, ClientState::new(false, "test", None));
    assert_eq!(store.clients.len(), 2);
    store.unregister(1);
    assert_eq!(store.clients.len(), 1);
    store.unregister(1);
    assert_eq!(store.clients.len(), 1);
}
