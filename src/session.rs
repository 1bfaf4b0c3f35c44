//! The decisions of one relay session: collect and check the handshake, dial,
//! relay, close. The caller performs each action and reports what happened.
use vstd::prelude::*;
use vstd::string::*;
use crate::handshake::{ConnectRequest, HandshakeError, Profile, decode, parse_with};

verus! {

/// What standard base64 without padding makes of a text, if it is valid.
pub uninterp spec fn base64_nopad_decoded(s: Seq<u8>) -> Option<Seq<u8>>;

/// Relies on base64's `STANDARD_NO_PAD.decode`: the decoded bytes, or an error
/// on input that is not valid unpadded standard base64.
#[verifier::external_body]
fn base64_nopad(s: &[u8]) -> (r: Option<Vec<u8>>)
    ensures
        r is Some <==> base64_nopad_decoded(s@) is Some,
        r matches Some(v) ==> v@ == base64_nopad_decoded(s@).unwrap(),
{
    <base64::engine::GeneralPurpose as base64::Engine>::decode(
        &base64::engine::general_purpose::STANDARD_NO_PAD,
        s,
    ).ok()
}

/// Bytes that a client sent ahead in the opening request's protocol header,
/// as unpadded base64; `None` if the header is not valid base64.
pub fn decode_early_data(proto: &str) -> (r: Option<Vec<u8>>)
    ensures
        r is Some <==> base64_nopad_decoded(proto.spec_bytes()) is Some,
        r matches Some(v) ==> v@ == base64_nopad_decoded(proto.spec_bytes()).unwrap(),
{
    base64_nopad(proto.as_bytes())
}

#[derive(Debug, Clone, Copy, PartialEq, Eq, Structural)]
pub enum SessionState {
    AwaitingHandshake,
    Dialing,
    Relaying,
    Closed,
}

#[derive(Debug, Clone, Copy, PartialEq, Eq, Structural)]
pub enum SessionError {
    Handshake(HandshakeError),
    DialError,
    TransportError,
}

/// What the caller must do next.
pub enum Action {
    /// Read more bytes from the stream and report them.
    ReadMore,
    /// Dial the destination; the bytes that followed the handshake go to it first.
    Dial(ConnectRequest, Vec<u8>),
    /// Copy bytes both ways until both directions finish or one fails.
    Relay,
    /// Close the transport.
    Close,
    /// Nothing to do.
    Done,
}

pub struct SessionView {
    pub state: SessionState,
    pub profile: Profile,
    pub token: Seq<u8>,
    /// Handshake bytes collected so far.
    pub pending: Seq<u8>,
    /// Whether the transport has been closed (asked for once).
    pub close_requested: bool,
    pub failure: Option<SessionError>,
    pub bytes_up: u64,
    pub bytes_down: u64,
}

impl SessionView {
    /// The transport is closed only on the way into `Closed`, so a session
    /// that is not closed has not asked for it yet.
    pub open spec fn inv(self) -> bool {
        self.state != SessionState::Closed ==> !self.close_requested
    }

    /// The state after a failure: closed, the failure recorded.
    pub open spec fn failed(self, e: SessionError) -> SessionView {
        SessionView {
            state: SessionState::Closed,
            failure: Some(e),
            close_requested: true,
            ..self
        }
    }
}

pub struct Session {
    state: SessionState,
    profile: Profile,
    token: Vec<u8>,
    pending: Vec<u8>,
    close_requested: bool,
    failure: Option<SessionError>,
    bytes_up: u64,
    bytes_down: u64,
}

impl View for Session {
    type V = SessionView;

    closed spec fn view(&self) -> SessionView {
        SessionView {
            state: self.state,
            profile: self.profile,
            token: self.token@,
            pending: self.pending@,
            close_requested: self.close_requested,
            failure: self.failure,
            bytes_up: self.bytes_up,
            bytes_down: self.bytes_down,
        }
    }
}

impl Session {
    /// A session awaiting the handshake for the given expected token.
    pub fn new(expected_hash: Vec<u8>, profile: Profile) -> (r: Session)
        ensures
            r@.inv(),
            r@.state == SessionState::AwaitingHandshake,
            r@.profile == profile,
            r@.token == expected_hash@,
            r@.pending.len() == 0,
            !r@.close_requested,
            r@.failure is None,
            r@.bytes_up == 0,
            r@.bytes_down == 0,
    {
        Session {
            state: SessionState::AwaitingHandshake,
            profile,
            token: expected_hash,
            pending: Vec::new(),
            close_requested: false,
            failure: None,
            bytes_up: 0,
            bytes_down: 0,
        }
    }

    pub fn state(&self) -> (r: SessionState)
        ensures
            r == self@.state,
    {
        self.state
    }

    pub fn failure(&self) -> (r: Option<SessionError>)
        ensures
            r == self@.failure,
    {
        self.failure
    }

    /// Byte counts of the relay: towards the destination, and back.
    pub fn byte_counts(&self) -> (r: (u64, u64))
        ensures
            r == (self@.bytes_up, self@.bytes_down),
    {
        (self.bytes_up, self.bytes_down)
    }

    fn fail(&mut self, e: SessionError) -> (r: Action)
        ensures
            final(self)@ == old(self)@.failed(e),
            old(self)@.close_requested ==> r is Done,
            !old(self)@.close_requested ==> r is Close,
    {
        let first = !self.close_requested;
        self.state = SessionState::Closed;
        self.failure = Some(e);
        self.close_requested = true;
        if first {
            Action::Close
        } else {
            Action::Done
        }
    }

    /// Takes bytes read from the stream while the handshake is awaited. Once
    /// the collected bytes hold a whole handshake the destination is dialed;
    /// while they are too few, more are read; any other failure closes the
    /// session. In any other state the bytes are ignored.
    pub fn on_handshake_bytes(&mut self, data: &[u8]) -> (r: Action)
        requires
            old(self)@.inv(),
        ensures
            final(self)@.inv(),
            old(self)@.state != SessionState::AwaitingHandshake ==> r is Done && final(self)@ == old(self)@,
            old(self)@.state == SessionState::AwaitingHandshake ==> {
                let all = old(self)@.pending + data@;
                match decode(old(self)@.profile, old(self)@.token, all) {
                    Ok((req, used)) => r matches Action::Dial(q, early) && q@ == req
                        && early@ == all.subrange(used, all.len() as int)
                        && final(self)@ == (SessionView {
                            state: SessionState::Dialing,
                            pending: Seq::empty(),
                            ..old(self)@
                        }),
                    Err(HandshakeError::TruncatedHandshake) => r is ReadMore
                        && final(self)@ == (SessionView { pending: all, ..old(self)@ }),
                    Err(e) => final(self)@ == (SessionView { pending: all, ..old(self)@ }).failed(
                        SessionError::Handshake(e),
                    )
                        && r is Close,
                }
            },
    {
        if self.state != SessionState::AwaitingHandshake {
            return Action::Done;
        }
        let ghost all = self.pending@ + data@;
        self.pending.extend_from_slice(data);
        assert(self.pending@ =~= all);
        match parse_with(self.profile, &self.token, self.pending.as_slice()) {
            Ok((req, used)) => {
                let early = self.pending.split_off(used);
                self.pending = Vec::new();
                self.state = SessionState::Dialing;
                Action::Dial(req, early)
            },
            Err(HandshakeError::TruncatedHandshake) => Action::ReadMore,
            Err(e) => self.fail(SessionError::Handshake(e)),
        }
    }

    /// The stream ended: a handshake still awaited is truncated and the
    /// session closes; in any other state nothing changes.
    pub fn on_end_of_stream(&mut self) -> (r: Action)
        requires
            old(self)@.inv(),
        ensures
            final(self)@.inv(),
            old(self)@.state != SessionState::AwaitingHandshake ==> r is Done && final(self)@ == old(self)@,
            old(self)@.state == SessionState::AwaitingHandshake ==> final(self)@ == old(self)@.failed(
                SessionError::Handshake(HandshakeError::TruncatedHandshake),
            ) && r is Close,
    {
        if self.state != SessionState::AwaitingHandshake {
            return Action::Done;
        }
        self.fail(SessionError::Handshake(HandshakeError::TruncatedHandshake))
    }

    /// The dial finished: on success the relay starts; on failure the session
    /// closes without reading anything more. In any other state nothing changes.
    pub fn on_dial(&mut self, connected: bool) -> (r: Action)
        requires
            old(self)@.inv(),
        ensures
            final(self)@.inv(),
            old(self)@.state != SessionState::Dialing ==> r is Done && final(self)@ == old(self)@,
            old(self)@.state == SessionState::Dialing && connected ==> r is Relay
                && final(self)@ == (SessionView { state: SessionState::Relaying, ..old(self)@ }),
            old(self)@.state == SessionState::Dialing && !connected ==> final(self)@ == old(self)@.failed(
                SessionError::DialError,
            ) && r is Close,
    {
        if self.state != SessionState::Dialing {
            return Action::Done;
        }
        if connected {
            self.state = SessionState::Relaying;
            Action::Relay
        } else {
            self.fail(SessionError::DialError)
        }
    }

    /// The relay ended, having copied `up` bytes to the destination and `down`
    /// back, with or without a transport failure. The session closes, closing
    /// the transport unless that was already done. In any other state nothing changes.
    pub fn on_relay_end(&mut self, up: u64, down: u64, failed: bool) -> (r: Action)
        requires
            old(self)@.inv(),
        ensures
            final(self)@.inv(),
            old(self)@.state != SessionState::Relaying ==> r is Done && final(self)@ == old(self)@,
            old(self)@.state == SessionState::Relaying ==> {
                let counted = SessionView { bytes_up: up, bytes_down: down, ..old(self)@ };
                &&& failed ==> final(self)@ == counted.failed(SessionError::TransportError)
                &&& !failed ==> final(self)@ == (SessionView {
                    state: SessionState::Closed,
                    close_requested: true,
                    ..counted
                })
                &&& r is Close
            },
    {
        if self.state != SessionState::Relaying {
            return Action::Done;
        }
        self.bytes_up = up;
        self.bytes_down = down;
        if failed {
            return self.fail(SessionError::TransportError);
        }
        let first = !self.close_requested;
        self.state = SessionState::Closed;
        self.close_requested = true;
        if first {
            Action::Close
        } else {
            Action::Done
        }
    }
}

} // verus!
