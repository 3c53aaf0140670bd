use vstd::prelude::*;

verus! {

/// The phase of the protocol a connection is in.
#[derive(Debug, Clone, Copy, PartialEq, Eq, Structural)]
pub enum State {
    Handshake,
    Status,
    Login,
    Configuration,
    Play,
}

/// The protocol version a client announced, or any version before it has.
#[derive(Debug, Clone, Copy, PartialEq, Eq, Structural)]
pub enum ProtocolVersion {
    Any,
    /// A version by its protocol number.
    Number(i32),
}

/// Where a connection stands with keep-alive packets: off, to be turned on,
/// or on. It only ever moves forward, one step at a time.
#[derive(Debug, Clone, Copy, PartialEq, Eq, Structural)]
pub enum KeepAliveStatus {
    Disabled,
    ShouldEnable,
    Enabled,
}

/// The position of a keep-alive status in the order Disabled, ShouldEnable, Enabled.
pub open spec fn keep_alive_rank(k: KeepAliveStatus) -> int {
    match k {
        KeepAliveStatus::Disabled => 0,
        KeepAliveStatus::ShouldEnable => 1,
        KeepAliveStatus::Enabled => 2,
    }
}

/// The status after asking for keep-alive to be turned on: only a disabled
/// status moves, to `ShouldEnable`.
pub open spec fn after_should_enable(k: KeepAliveStatus) -> KeepAliveStatus {
    if k == KeepAliveStatus::Disabled {
        KeepAliveStatus::ShouldEnable
    } else {
        k
    }
}

/// The status after keep-alive was turned on: only `ShouldEnable` moves, to `Enabled`.
pub open spec fn after_enabled(k: KeepAliveStatus) -> KeepAliveStatus {
    if k == KeepAliveStatus::ShouldEnable {
        KeepAliveStatus::Enabled
    } else {
        k
    }
}

/// What the server knows of one connected client, but for its position and
/// flying speed.
pub struct ClientState {
    state: State,
    protocol_version: ProtocolVersion,
    kick_message: Option<String>,
    message_id: i32,
    keep_alive_enabled: KeepAliveStatus,
    is_flight_allowed: bool,
    is_flying: bool,
}

/// The mathematical value of a `ClientState`.
pub struct ClientStateView {
    pub state: State,
    pub protocol_version: ProtocolVersion,
    pub kick_message: Option<Seq<char>>,
    pub message_id: i32,
    pub keep_alive: KeepAliveStatus,
    pub is_flight_allowed: bool,
    pub is_flying: bool,
}

impl View for ClientState {
    type V = ClientStateView;

    closed spec fn view(&self) -> ClientStateView {
        ClientStateView {
            state: self.state,
            protocol_version: self.protocol_version,
            kick_message: match self.kick_message {
                Some(m) => Some(m@),
                None => None,
            },
            message_id: self.message_id,
            keep_alive: self.keep_alive_enabled,
            is_flight_allowed: self.is_flight_allowed,
            is_flying: self.is_flying,
        }
    }
}

impl Default for ClientState {
    /// A fresh connection: in the handshake, any protocol version, not to be
    /// kicked, no message sent, keep-alive off, not allowed to fly, not flying.
    fn default() -> (r: Self)
        ensures
            r@ == (ClientStateView {
                state: State::Handshake,
                protocol_version: ProtocolVersion::Any,
                kick_message: None,
                message_id: -1i32,
                keep_alive: KeepAliveStatus::Disabled,
                is_flight_allowed: false,
                is_flying: false,
            }),
    {
        ClientState {
            state: State::Handshake,
            protocol_version: ProtocolVersion::Any,
            kick_message: None,
            message_id: -1,
            keep_alive_enabled: KeepAliveStatus::Disabled,
            is_flight_allowed: false,
            is_flying: false,
        }
    }
}

impl ClientState {
    /// Marks the client to be disconnected with `kick_message`.
    pub fn kick(&mut self, kick_message: &str)
        ensures
            final(self)@ == (ClientStateView { kick_message: Some(kick_message@), ..old(self)@ }),
    {
        self.kick_message = Some(kick_message.to_owned());
    }

    /// The message to disconnect the client with, if it is to be kicked.
    pub fn should_kick(&self) -> (r: Option<String>)
        ensures
            match r {
                Some(m) => self@.kick_message == Some(m@),
                None => self@.kick_message is None,
            },
    {
        match &self.kick_message {
            Some(m) => Some(m.clone()),
            None => None,
        }
    }

    /// The protocol phase of the connection.
    pub fn state(&self) -> (r: State)
        ensures
            r == self@.state,
    {
        self.state
    }

    /// Moves the connection to another protocol phase.
    pub fn set_state(&mut self, new_state: State)
        ensures
            final(self)@ == (ClientStateView { state: new_state, ..old(self)@ }),
    {
        self.state = new_state;
    }

    /// The protocol version the client announced.
    pub fn protocol_version(&self) -> (r: ProtocolVersion)
        ensures
            r == self@.protocol_version,
    {
        self.protocol_version
    }

    /// Records the protocol version the client announced.
    pub fn set_protocol_version(&mut self, new_protocol_version: ProtocolVersion)
        ensures
            final(self)@ == (ClientStateView { protocol_version: new_protocol_version, ..old(self)@ }),
    {
        self.protocol_version = new_protocol_version;
    }

    /// Whether keep-alive packets are to be turned on now.
    pub fn should_enable_keep_alive(&self) -> (r: bool)
        ensures
            r == (self@.keep_alive == KeepAliveStatus::ShouldEnable),
    {
        match self.keep_alive_enabled {
            KeepAliveStatus::ShouldEnable => true,
            _ => false,
        }
    }

    /// Asks for keep-alive packets to be turned on, if they are off.
    pub fn set_keep_alive_should_enable(&mut self)
        ensures
            final(self)@ == (ClientStateView {
                keep_alive: after_should_enable(old(self)@.keep_alive),
                ..old(self)@
            }),
    {
        if self.keep_alive_enabled == KeepAliveStatus::Disabled {
            self.keep_alive_enabled = KeepAliveStatus::ShouldEnable;
        }
    }

    /// Records that keep-alive packets were turned on, if they were asked for.
    pub fn set_keep_alive_enabled(&mut self)
        ensures
            final(self)@ == (ClientStateView {
                keep_alive: after_enabled(old(self)@.keep_alive),
                ..old(self)@
            }),
    {
        if self.keep_alive_enabled == KeepAliveStatus::ShouldEnable {
            self.keep_alive_enabled = KeepAliveStatus::Enabled;
        }
    }

    /// Whether the client may fly.
    pub fn is_flight_allowed(&self) -> (r: bool)
        ensures
            r == self@.is_flight_allowed,
    {
        self.is_flight_allowed
    }

    /// Allows or forbids flying.
    pub fn set_is_flight_allowed(&mut self, allow_flight: bool)
        ensures
            final(self)@ == (ClientStateView { is_flight_allowed: allow_flight, ..old(self)@ }),
    {
        self.is_flight_allowed = allow_flight;
    }

    /// Whether the client is flying.
    pub fn is_flying(&self) -> (r: bool)
        ensures
            r == self@.is_flying,
    {
        self.is_flying
    }

    /// Records whether the client is flying.
    pub fn set_is_flying(&mut self, is_flying: bool)
        ensures
            final(self)@ == (ClientStateView { is_flying: is_flying, ..old(self)@ }),
    {
        self.is_flying = is_flying;
    }
}

/// Keep-alive only moves forward: neither request lowers the status, each is
/// idempotent, and a disabled connection reaches `Enabled` by asking for it
/// and then recording it, in that order only.
pub proof fn law_keep_alive_moves_forward(k: KeepAliveStatus)
    ensures
        keep_alive_rank(after_should_enable(k)) >= keep_alive_rank(k),
        keep_alive_rank(after_enabled(k)) >= keep_alive_rank(k),
        after_should_enable(after_should_enable(k)) == after_should_enable(k),
        after_enabled(after_enabled(k)) == after_enabled(k),
        after_enabled(after_should_enable(KeepAliveStatus::Disabled)) == KeepAliveStatus::Enabled,
        after_should_enable(after_enabled(KeepAliveStatus::Disabled)) == KeepAliveStatus::ShouldEnable,
        k == KeepAliveStatus::Enabled ==> after_should_enable(k) == k && after_enabled(k) == k,
{
}

} // verus!
