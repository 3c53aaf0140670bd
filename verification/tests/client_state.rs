use asky::client_state::{ClientState, KeepAliveStatus, ProtocolVersion, State};

#[test]
fn fresh_connection() {
    let c = ClientState::default();
    assert_eq!(c.state(), State::Handshake);
    assert_eq!(c.protocol_version(), ProtocolVersion::Any);
    assert_eq!(c.should_kick(), None);
    assert!(!c.should_enable_keep_alive());
    assert!(!c.is_flight_allowed());
    assert!(!c.is_flying());
}

#[test]
fn kick_keeps_message() {
    let mut c = ClientState::default();
    c.kick("bye");
    assert_eq!(c.should_kick(), Some("bye".to_string()));
    c.kick("again");
    assert_eq!(c.should_kick(), Some("again".to_string()));
}

#[test]
fn setters_store_values() {
    let mut c = ClientState::default();
    c.set_state(State::Play);
    c.set_protocol_version(ProtocolVersion::Number(767));
    c.set_is_flight_allowed(true);
    c.set_is_flying(true);
    assert_eq!(c.state(), State::Play);
    assert_eq!(c.protocol_version(), ProtocolVersion::Number(767));
    assert!(c.is_flight_allowed());
    assert!(c.is_flying());
}

#[test]
fn keep_alive_moves_forward_only() {
    let mut c = ClientState::default();
    c.set_keep_alive_enabled();
    assert!(!c.should_enable_keep_alive());
    c.set_keep_alive_should_enable();
    assert!(c.should_enable_keep_alive());
    c.set_keep_alive_should_enable();
    assert!(c.should_enable_keep_alive());
    c.set_keep_alive_enabled();
    assert!(!c.should_enable_keep_alive());
    c.set_keep_alive_should_enable();
    assert!(!c.should_enable_keep_alive());
}

#[test]
fn keep_alive_status_equality() {
    assert_eq!(KeepAliveStatus::Disabled, KeepAliveStatus::Disabled);
    assert_ne!(KeepAliveStatus::Enabled, KeepAliveStatus::ShouldEnable);
}
