//! The handshake that opens every connection.
//!
//! The connecting side sends its version and an API key; the accepting side
//! answers with a code and its own version. Code 0 lets the connection go
//! ahead; every other code ends it.

use vstd::prelude::*;
use vstd::std_specs::convert::FromSpecImpl;
use vstd::string::StringExecFns;

use crate::error::TolliverError;
use crate::text::{decimal, push_decimal};
use crate::wire::{
    be_value, encode_handshake_request, encode_handshake_response,
    handshake_request_bytes, handshake_response_bytes, lemma_be_value_bound, read_be,
    response_version,
};
use crate::{API_KEY_LENGTH, VERSION, VERSION_LENGTH};

verus! {

/// What the accepting side answered.
#[derive(Debug, Clone, Copy, PartialEq, Eq, Structural)]
pub enum HandshakeCode {
    Success,
    GeneralError,
    /// The sides speak different versions; the field is the accepting side's.
    IncompatibleVersion(u16),
    Unauthorised,
    /// A code this build does not know, kept as it came.
    UnknowErrorCode(u8),
}

impl HandshakeCode {
    /// The code that `code` stands for on the wire. `server_version` is kept
    /// where the code reports a version mismatch.
    pub open spec fn of_status_code(code: u8, server_version: u16) -> HandshakeCode {
        if code == 0 {
            HandshakeCode::Success
        } else if code == 1 {
            HandshakeCode::GeneralError
        } else if code == 2 {
            HandshakeCode::IncompatibleVersion(server_version)
        } else if code == 3 {
            HandshakeCode::Unauthorised
        } else {
            HandshakeCode::UnknowErrorCode(code)
        }
    }

    /// The byte that stands for this code on the wire.
    pub open spec fn wire_code(self) -> u8 {
        match self {
            HandshakeCode::Success => 0,
            HandshakeCode::GeneralError => 1,
            HandshakeCode::IncompatibleVersion(_) => 2,
            HandshakeCode::Unauthorised => 3,
            HandshakeCode::UnknowErrorCode(code) => code,
        }
    }

    /// Whether the value is the one that `from_status_code` gives for its
    /// wire code: an unknown code is none of the known ones.
    pub open spec fn canonical(self) -> bool {
        self matches HandshakeCode::UnknowErrorCode(code) ==> code > 3
    }

    /// How the code reads to a person.
    pub open spec fn text(self) -> Seq<char> {
        match self {
            HandshakeCode::Success => "Success"@,
            HandshakeCode::GeneralError => "General error"@,
            HandshakeCode::IncompatibleVersion(server_version) => {
                "Incompatible version. Client is "@ + decimal(VERSION as nat)
                    + " while server is "@ + decimal(server_version as nat)
            },
            HandshakeCode::Unauthorised => "Unauthorised"@,
            HandshakeCode::UnknowErrorCode(code) => "Unknown error code "@ + decimal(code as nat),
        }
    }

    /// Constructs a code from the byte the accepting side sent and the
    /// version it reported.
    pub fn from_status_code(code: u8, server_version: u16) -> (result: Self)
        ensures
            result == Self::of_status_code(code, server_version),
    {
        match code {
            0 => HandshakeCode::Success,
            1 => HandshakeCode::GeneralError,
            2 => HandshakeCode::IncompatibleVersion(server_version),
            3 => HandshakeCode::Unauthorised,
            code => HandshakeCode::UnknowErrorCode(code),
        }
    }

    /// The byte that stands for this code on the wire.
    pub fn status_code(&self) -> (code: u8)
        ensures
            code == self.wire_code(),
    {
        match *self {
            HandshakeCode::Success => 0,
            HandshakeCode::GeneralError => 1,
            HandshakeCode::IncompatibleVersion(_) => 2,
            HandshakeCode::Unauthorised => 3,
            HandshakeCode::UnknowErrorCode(code) => code,
        }
    }

    /// How the code reads to a person.
    pub fn describe(&self) -> (text: String)
        ensures
            text@ == self.text(),
    {
        match *self {
            HandshakeCode::Success => String::from_str("Success"),
            HandshakeCode::GeneralError => String::from_str("General error"),
            HandshakeCode::IncompatibleVersion(server_version) => {
                let mut text = String::from_str("Incompatible version. Client is ");
                push_decimal(&mut text, VERSION as u64);
                text.append(" while server is ");
                push_decimal(&mut text, server_version as u64);
                text
            },
            HandshakeCode::Unauthorised => String::from_str("Unauthorised"),
            HandshakeCode::UnknowErrorCode(code) => {
                let mut text = String::from_str("Unknown error code ");
                push_decimal(&mut text, code as u64);
                text
            },
        }
    }
}

/// Every byte comes back from the code it was read as: no code is lost on the
/// way, known or not.
pub proof fn lemma_status_code_round_trip(code: u8, server_version: u16)
    ensures
        HandshakeCode::of_status_code(code, server_version).wire_code() == code,
        HandshakeCode::of_status_code(code, server_version).canonical(),
{
}

/// A code read from its own byte, with the version it carries, is itself.
pub proof fn lemma_code_of_its_status_code(code: HandshakeCode, server_version: u16)
    requires
        code.canonical(),
        code matches HandshakeCode::IncompatibleVersion(version) ==> version == server_version,
    ensures
        HandshakeCode::of_status_code(code.wire_code(), server_version) == code,
{
}

/// Why a connection could not be opened.
#[derive(Debug)]
pub enum HandshakeError {
    /// The handshake could not be carried out.
    TolliverError(TolliverError),
    /// The handshake was carried out and the accepting side refused.
    Result(HandshakeCode),
}

impl From<std::io::Error> for HandshakeError {
    fn from(value: std::io::Error) -> (ret: Self) {
        HandshakeError::TolliverError(TolliverError::IOError(value))
    }
}

impl FromSpecImpl<std::io::Error> for HandshakeError {
    open spec fn obeys_from_spec() -> bool {
        true
    }

    open spec fn from_spec(value: std::io::Error) -> Self {
        HandshakeError::TolliverError(TolliverError::IOError(value))
    }
}

impl From<TolliverError> for HandshakeError {
    fn from(value: TolliverError) -> (ret: Self) {
        HandshakeError::TolliverError(value)
    }
}

impl FromSpecImpl<TolliverError> for HandshakeError {
    open spec fn obeys_from_spec() -> bool {
        true
    }

    open spec fn from_spec(value: TolliverError) -> Self {
        HandshakeError::TolliverError(value)
    }
}

impl HandshakeError {
    /// A description of the error for a person to read: that of the failure
    /// underneath, or that of the code.
    pub fn message(&self) -> (text: String)
        ensures
            self matches HandshakeError::Result(code) ==> text@ == code.text(),
            self matches HandshakeError::TolliverError(TolliverError::TolliverError(description))
                ==> text@ == description@,
            self matches HandshakeError::TolliverError(TolliverError::BodyTooLarge) ==> text@
                == TolliverError::body_too_large_text(),
            self matches HandshakeError::TolliverError(TolliverError::IOError(_))
                ==> TolliverError::io_prefix().is_prefix_of(text@),
            self matches HandshakeError::TolliverError(TolliverError::SqliteError(_))
                ==> TolliverError::sqlite_prefix().is_prefix_of(text@),
    {
        match self {
            HandshakeError::TolliverError(error) => error.message(),
            HandshakeError::Result(code) => code.describe(),
        }
    }
}

/// The request a client opens the handshake with: this build's version and
/// the API key.
pub fn client_request(api_key: &[u8; 32]) -> (request: Vec<u8>)
    ensures
        request@ == handshake_request_bytes(VERSION, api_key@),
{
    encode_handshake_request(VERSION, api_key)
}

/// What the accepting side's answer means for the client: the connection is
/// ready exactly when the code is 0. Every other code comes back as the
/// error, an unknown one unchanged, together with the version that the
/// accepting side reported where it found the versions incompatible.
pub fn client_outcome(code: u8, server_version: u16) -> (outcome: Result<(), HandshakeError>)
    ensures
        outcome is Ok <==> code == 0,
        outcome matches Err(error) ==> error == HandshakeError::Result(
            HandshakeCode::of_status_code(code, server_version),
        ),
{
    if code == 0 {
        Ok(())
    } else {
        Err(HandshakeError::Result(HandshakeCode::from_status_code(code, server_version)))
    }
}

/// What the three bytes of the accepting side's answer mean for the client.
pub fn client_response(response: &[u8; 3]) -> (outcome: Result<(), HandshakeError>)
    ensures
        outcome is Ok <==> response@[0] == 0,
        outcome matches Err(error) ==> error == HandshakeError::Result(
            HandshakeCode::of_status_code(response@[0], response_version(response@) as u16),
        ),
{
    proof {
        lemma_be_value_bound(response@.subrange(1, 3));
    }
    let server_version: u16 = read_be(response.as_slice(), 1, 3) as u16;
    client_outcome(response[0], server_version)
}

/// Where the accepting side stands with one peer.
#[derive(Debug, Clone, Copy, PartialEq, Eq, Structural)]
pub enum HandshakeState {
    /// Waiting for the two bytes of the peer's version.
    AwaitVersion,
    /// Waiting for the 32 bytes of the peer's API key.
    AwaitKey,
    /// The peer is let in; the answer that says so is being written.
    SendResponse,
    /// The answer is written: the stream is a connection.
    Ready,
    /// The peer was turned away, for its version or for its key.
    Rejected,
    /// The stream failed before the handshake was over.
    Failed,
}

/// What happened on the stream since the last step.
#[derive(Debug)]
pub enum HandshakeEvent {
    /// The bytes that were asked for have been read.
    Received(Vec<u8>),
    /// The bytes that were asked for could not be read.
    ReadFailed,
    /// The answer has been written.
    Sent,
    /// The answer could not be written.
    SendFailed,
}

/// What the caller has to do on the stream next.
#[derive(Debug)]
pub enum HandshakeAction {
    /// Read exactly this many bytes and report them, or that it failed.
    Read(usize),
    /// Write these bytes and report whether that succeeded.
    Send(Vec<u8>),
    /// Write these bytes, whether or not that succeeds, and close the stream:
    /// the peer is turned away.
    Reject(Vec<u8>),
    /// Nothing more to do: the stream is now a connection.
    Accept,
    /// Close the stream: the handshake failed.
    Close,
}

/// An action with its bytes as a sequence.
pub enum HandshakeActionView {
    Read(nat),
    Send(Seq<u8>),
    Reject(Seq<u8>),
    Accept,
    Close,
}

impl View for HandshakeAction {
    type V = HandshakeActionView;

    open spec fn view(&self) -> HandshakeActionView {
        match *self {
            HandshakeAction::Read(count) => HandshakeActionView::Read(count as nat),
            HandshakeAction::Send(bytes) => HandshakeActionView::Send(bytes@),
            HandshakeAction::Reject(bytes) => HandshakeActionView::Reject(bytes@),
            HandshakeAction::Accept => HandshakeActionView::Accept,
            HandshakeAction::Close => HandshakeActionView::Close,
        }
    }
}

/// The answer that carries `code` and this build's version.
pub open spec fn response_with(code: HandshakeCode) -> Seq<u8> {
    handshake_response_bytes(code.wire_code(), VERSION)
}

/// Whether `received` is the version of this build.
pub open spec fn version_accepted(received: Seq<u8>) -> bool {
    received.len() == VERSION_LENGTH && be_value(received) == VERSION
}

/// The state that follows `state` on `event`, for an accepting side that
/// expects `api_key`, and what the caller has to do then.
///
/// A version other than this build's, or a key other than the expected one,
/// turns the peer away with the code that says why. A read or write that
/// fails, or an event that the state does not wait for, ends the handshake
/// as failed. The three final states stay as they are.
pub open spec fn server_step(state: HandshakeState, api_key: Seq<u8>, event: HandshakeEvent) -> (
    HandshakeState,
    HandshakeActionView,
) {
    match (state, event) {
        (HandshakeState::AwaitVersion, HandshakeEvent::Received(received)) => {
            if version_accepted(received@) {
                (HandshakeState::AwaitKey, HandshakeActionView::Read(API_KEY_LENGTH as nat))
            } else if received@.len() == VERSION_LENGTH {
                (
                    HandshakeState::Rejected,
                    HandshakeActionView::Reject(
                        response_with(HandshakeCode::IncompatibleVersion(VERSION)),
                    ),
                )
            } else {
                (HandshakeState::Failed, HandshakeActionView::Close)
            }
        },
        (HandshakeState::AwaitKey, HandshakeEvent::Received(received)) => {
            if received@ == api_key {
                (
                    HandshakeState::SendResponse,
                    HandshakeActionView::Send(response_with(HandshakeCode::Success)),
                )
            } else if received@.len() == API_KEY_LENGTH {
                (
                    HandshakeState::Rejected,
                    HandshakeActionView::Reject(response_with(HandshakeCode::Unauthorised)),
                )
            } else {
                (HandshakeState::Failed, HandshakeActionView::Close)
            }
        },
        (HandshakeState::SendResponse, HandshakeEvent::Sent) => (
            HandshakeState::Ready,
            HandshakeActionView::Accept,
        ),
        (HandshakeState::Ready, _) => (HandshakeState::Ready, HandshakeActionView::Accept),
        (HandshakeState::Rejected, _) => (HandshakeState::Rejected, HandshakeActionView::Close),
        _ => (HandshakeState::Failed, HandshakeActionView::Close),
    }
}

/// Whether the two byte strings are the same.
fn same_bytes(left: &[u8], right: &[u8]) -> (same: bool)
    ensures
        same == (left@ == right@),
{
    if left.len() != right.len() {
        return false;
    }
    let mut at: usize = 0;
    while at < left.len()
        invariant
            at <= left@.len() == right@.len(),
            forall|i: int| 0 <= i < at ==> left@[i] == right@[i],
        decreases left@.len() - at,
    {
        if left[at] != right[at] {
            return false;
        }
        at = at + 1;
    }
    assert(left@ =~= right@);
    true
}

/// Whether the bytes a peer sent first are the version of this build.
pub fn check_version(received: &[u8]) -> (accepted: bool)
    ensures
        accepted == version_accepted(received@),
{
    if received.len() != VERSION_LENGTH {
        return false;
    }
    assert(received@.subrange(0, 2) =~= received@);
    read_be(received, 0, VERSION_LENGTH) == VERSION as u64
}

/// The answer that carries `code` and this build's version.
pub fn write_response(code: u8) -> (response: Vec<u8>)
    ensures
        response@ == handshake_response_bytes(code, VERSION),
{
    encode_handshake_response(code, VERSION)
}

/// The accepting side of one handshake. It reads nothing and writes nothing:
/// `begin` and `step` say what to do on the stream, and `step` takes what
/// came of it.
pub struct ServerHandshake {
    state: HandshakeState,
    api_key: [u8; 32],
}

impl ServerHandshake {
    /// Where the handshake stands.
    pub closed spec fn spec_state(&self) -> HandshakeState {
        self.state
    }

    /// The key a peer has to present.
    pub closed spec fn spec_api_key(&self) -> Seq<u8> {
        self.api_key@
    }

    /// A handshake that has not begun, for peers that present `api_key`.
    pub fn new(api_key: [u8; 32]) -> (handshake: Self)
        ensures
            handshake.spec_state() == HandshakeState::AwaitVersion,
            handshake.spec_api_key() == api_key@,
    {
        ServerHandshake { state: HandshakeState::AwaitVersion, api_key }
    }

    /// Where the handshake stands.
    pub fn state(&self) -> (state: HandshakeState)
        ensures
            state == self.spec_state(),
    {
        self.state
    }

    /// What to do first: read the peer's version.
    pub fn begin(&self) -> (action: HandshakeAction)
        ensures
            action@ == HandshakeActionView::Read(VERSION_LENGTH as nat),
    {
        HandshakeAction::Read(VERSION_LENGTH)
    }

    /// Whether the bytes a peer sent second are the key it has to present.
    pub fn check_api_key(&self, received: &[u8]) -> (accepted: bool)
        ensures
            accepted == (received@ == self.spec_api_key()),
    {
        same_bytes(received, self.api_key.as_slice())
    }

    /// Takes what happened on the stream and says what to do next.
    pub fn step(&mut self, event: HandshakeEvent) -> (action: HandshakeAction)
        ensures
            final(self).spec_api_key() == old(self).spec_api_key(),
            (final(self).spec_state(), action@) == server_step(
                old(self).spec_state(),
                old(self).spec_api_key(),
                event,
            ),
    {
        match self.state {
            HandshakeState::AwaitVersion => match event {
                HandshakeEvent::Received(received) => {
                    if check_version(received.as_slice()) {
                        self.state = HandshakeState::AwaitKey;
                        HandshakeAction::Read(API_KEY_LENGTH)
                    } else if received.len() == VERSION_LENGTH {
                        self.state = HandshakeState::Rejected;
                        let code = HandshakeCode::IncompatibleVersion(VERSION);
                        HandshakeAction::Reject(write_response(code.status_code()))
                    } else {
                        self.state = HandshakeState::Failed;
                        HandshakeAction::Close
                    }
                },
                _ => {
                    self.state = HandshakeState::Failed;
                    HandshakeAction::Close
                },
            },
            HandshakeState::AwaitKey => match event {
                HandshakeEvent::Received(received) => {
                    if self.check_api_key(received.as_slice()) {
                        self.state = HandshakeState::SendResponse;
                        HandshakeAction::Send(write_response(HandshakeCode::Success.status_code()))
                    } else if received.len() == API_KEY_LENGTH {
                        self.state = HandshakeState::Rejected;
                        HandshakeAction::Reject(
                            write_response(HandshakeCode::Unauthorised.status_code()),
                        )
                    } else {
                        self.state = HandshakeState::Failed;
                        HandshakeAction::Close
                    }
                },
                _ => {
                    self.state = HandshakeState::Failed;
                    HandshakeAction::Close
                },
            },
            HandshakeState::SendResponse => match event {
                HandshakeEvent::Sent => {
                    self.state = HandshakeState::Ready;
                    HandshakeAction::Accept
                },
                _ => {
                    self.state = HandshakeState::Failed;
                    HandshakeAction::Close
                },
            },
            HandshakeState::Ready => HandshakeAction::Accept,
            HandshakeState::Rejected => HandshakeAction::Close,
            HandshakeState::Failed => HandshakeAction::Close,
        }
    }
}

/// Where a handshake stands after `events`, one after the other, for an
/// accepting side that expects `api_key`.
pub open spec fn server_run(api_key: Seq<u8>, events: Seq<HandshakeEvent>) -> HandshakeState
    decreases events.len(),
{
    if events.len() == 0 {
        HandshakeState::AwaitVersion
    } else {
        server_step(server_run(api_key, events.drop_last()), api_key, events.last()).0
    }
}

/// How far a handshake that has not ended has come: each state before the
/// end is reached by one sequence of events only.
proof fn lemma_server_run(api_key: Seq<u8>, events: Seq<HandshakeEvent>)
    ensures
        server_run(api_key, events) is AwaitVersion ==> events.len() == 0,
        server_run(api_key, events) is AwaitKey ==> {
            &&& events.len() == 1
            &&& events[0] matches HandshakeEvent::Received(version)
            &&& version_accepted(version@)
        },
        server_run(api_key, events) is SendResponse ==> {
            &&& events.len() == 2
            &&& events[0] matches HandshakeEvent::Received(version)
            &&& version_accepted(version@)
            &&& events[1] matches HandshakeEvent::Received(key)
            &&& key@ == api_key
        },
        server_run(api_key, events) is Ready ==> {
            &&& events.len() >= 3
            &&& events[0] matches HandshakeEvent::Received(version)
            &&& version_accepted(version@)
            &&& events[1] matches HandshakeEvent::Received(key)
            &&& key@ == api_key
            &&& events[2] is Sent
        },
    decreases events.len(),
{
    if events.len() > 0 {
        lemma_server_run(api_key, events.drop_last());
    }
}

/// Only an authenticated peer gets a connection. A handshake is ready only
/// if the peer sent this build's version, then the expected key, and the
/// answer that lets it in was written; whatever happens afterwards, it stays
/// ready.
pub proof fn lemma_ready_means_authenticated(api_key: Seq<u8>, events: Seq<HandshakeEvent>)
    requires
        server_run(api_key, events) is Ready,
    ensures
        events.len() >= 3,
        events[0] matches HandshakeEvent::Received(version) && version_accepted(version@),
        events[1] matches HandshakeEvent::Received(key) && key@ == api_key,
        events[2] is Sent,
{
    lemma_server_run(api_key, events);
}

/// The three events of a good handshake make it ready: the peer sends this
/// build's version, then the expected key, and the answer is written.
pub proof fn lemma_authenticated_means_ready(
    api_key: Seq<u8>,
    version: HandshakeEvent,
    key: HandshakeEvent,
)
    requires
        version matches HandshakeEvent::Received(bytes) && version_accepted(bytes@),
        key matches HandshakeEvent::Received(bytes) && bytes@ == api_key,
    ensures
        server_run(api_key, seq![version]) is AwaitKey,
        server_run(api_key, seq![version, key]) is SendResponse,
        server_run(api_key, seq![version, key, HandshakeEvent::Sent]) is Ready,
{
    reveal_with_fuel(server_run, 4);
}

} // verus!
