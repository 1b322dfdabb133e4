use tolliver::error::TolliverError;
use tolliver::handshake::{
    check_version, client_outcome, client_request, client_response, write_response, HandshakeAction,
    HandshakeCode, HandshakeError, HandshakeEvent, HandshakeState, ServerHandshake,
};
use tolliver::wire::encode_handshake_request;
use tolliver::{temp_api_key, API_KEY_LENGTH, HANDSHAKE_CODE_LENGTH, VERSION, VERSION_LENGTH};

fn expect_read(action: HandshakeAction) -> usize {
    match action {
        HandshakeAction::Read(count) => count,
        other => panic!("expected a read, got {:?}", other),
    }
}

fn expect_send(action: HandshakeAction) -> Vec<u8> {
    match action {
        HandshakeAction::Send(bytes) => bytes,
        other => panic!("expected a send, got {:?}", other),
    }
}

fn expect_reject(action: HandshakeAction) -> Vec<u8> {
    match action {
        HandshakeAction::Reject(bytes) => bytes,
        other => panic!("expected a rejection, got {:?}", other),
    }
}

#[test]
fn constants_match_the_layout() {
    assert_eq!(VERSION, 0);
    assert_eq!(VERSION_LENGTH, 2);
    assert_eq!(API_KEY_LENGTH, 32);
    assert_eq!(HANDSHAKE_CODE_LENGTH, 1);
    assert_eq!(temp_api_key(), [0u8; 32]);
    assert_eq!(client_request(&[0; 32]).len(), VERSION_LENGTH + API_KEY_LENGTH);
    assert_eq!(write_response(0).len(), HANDSHAKE_CODE_LENGTH + VERSION_LENGTH);
}

#[test]
fn status_codes() {
    assert_eq!(HandshakeCode::from_status_code(0, 0), HandshakeCode::Success);
    assert_eq!(HandshakeCode::from_status_code(1, 0), HandshakeCode::GeneralError);
    assert_eq!(
        HandshakeCode::from_status_code(2, 5),
        HandshakeCode::IncompatibleVersion(5)
    );
    assert_eq!(HandshakeCode::from_status_code(3, 0), HandshakeCode::Unauthorised);
    assert_eq!(
        HandshakeCode::from_status_code(4, 0),
        HandshakeCode::UnknowErrorCode(4)
    );
    assert_eq!(
        HandshakeCode::from_status_code(255, 9),
        HandshakeCode::UnknowErrorCode(255)
    );

    assert_eq!(HandshakeCode::Success.status_code(), 0);
    assert_eq!(HandshakeCode::GeneralError.status_code(), 1);
    assert_eq!(HandshakeCode::IncompatibleVersion(7).status_code(), 2);
    assert_eq!(HandshakeCode::Unauthorised.status_code(), 3);
    assert_eq!(HandshakeCode::UnknowErrorCode(77).status_code(), 77);
}

#[test]
fn every_status_code_comes_back() {
    for code in 0..=255u8 {
        assert_eq!(HandshakeCode::from_status_code(code, 3).status_code(), code);
    }
}

#[test]
fn descriptions() {
    assert_eq!(HandshakeCode::Success.describe(), "Success");
    assert_eq!(HandshakeCode::GeneralError.describe(), "General error");
    assert_eq!(
        HandshakeCode::IncompatibleVersion(12).describe(),
        "Incompatible version. Client is 0 while server is 12"
    );
    assert_eq!(
        HandshakeCode::IncompatibleVersion(65535).describe(),
        "Incompatible version. Client is 0 while server is 65535"
    );
    assert_eq!(HandshakeCode::Unauthorised.describe(), "Unauthorised");
    assert_eq!(
        HandshakeCode::UnknowErrorCode(0).describe(),
        "Unknown error code 0"
    );
    assert_eq!(
        HandshakeCode::UnknowErrorCode(200).describe(),
        "Unknown error code 200"
    );
    assert_eq!(
        HandshakeError::Result(HandshakeCode::Unauthorised).message(),
        "Unauthorised"
    );
    assert_eq!(
        HandshakeError::TolliverError(TolliverError::TolliverError("broken".to_string())).message(),
        "broken"
    );
}

#[test]
fn handshake_success() {
    let request = client_request(&[0; 32]);
    assert_eq!(request, vec![0u8; 34]);

    let mut server = ServerHandshake::new([0; 32]);
    assert_eq!(server.state(), HandshakeState::AwaitVersion);
    assert_eq!(expect_read(server.begin()), 2);
    let action = server.step(HandshakeEvent::Received(request[..2].to_vec()));
    assert_eq!(server.state(), HandshakeState::AwaitKey);
    assert_eq!(expect_read(action), 32);
    let action = server.step(HandshakeEvent::Received(request[2..].to_vec()));
    assert_eq!(server.state(), HandshakeState::SendResponse);
    let response = expect_send(action);
    assert_eq!(response, vec![0, 0, 0]);
    let action = server.step(HandshakeEvent::Sent);
    assert!(matches!(action, HandshakeAction::Accept));
    assert_eq!(server.state(), HandshakeState::Ready);

    assert!(client_response(&[response[0], response[1], response[2]]).is_ok());
}

#[test]
fn version_mismatch() {
    let request = encode_handshake_request(1, &[0; 32]);
    let mut server = ServerHandshake::new([0; 32]);
    let action = server.step(HandshakeEvent::Received(request[..2].to_vec()));
    let response = expect_reject(action);
    assert_eq!(response, vec![2, 0, 0]);
    assert_eq!(server.state(), HandshakeState::Rejected);

    let outcome = client_response(&[response[0], response[1], response[2]]);
    assert!(matches!(
        outcome,
        Err(HandshakeError::Result(HandshakeCode::IncompatibleVersion(0)))
    ));
}

#[test]
fn unauthorized() {
    let request = client_request(&[0xFF; 32]);
    let mut server = ServerHandshake::new([0; 32]);
    let action = server.step(HandshakeEvent::Received(request[..2].to_vec()));
    assert_eq!(expect_read(action), 32);
    let action = server.step(HandshakeEvent::Received(request[2..].to_vec()));
    let response = expect_reject(action);
    assert_eq!(response, vec![3, 0, 0]);
    assert_eq!(server.state(), HandshakeState::Rejected);

    let outcome = client_response(&[response[0], response[1], response[2]]);
    assert!(matches!(
        outcome,
        Err(HandshakeError::Result(HandshakeCode::Unauthorised))
    ));
}

#[test]
fn one_wrong_byte_in_the_key_is_unauthorised() {
    for place in [0usize, 15, 31] {
        let mut key = [7u8; 32];
        key[place] = 8;
        let mut server = ServerHandshake::new([7; 32]);
        server.step(HandshakeEvent::Received(vec![0, 0]));
        let action = server.step(HandshakeEvent::Received(key.to_vec()));
        assert_eq!(expect_reject(action), vec![3, 0, 0]);
        assert!(!server.check_api_key(&key));
    }
    let server = ServerHandshake::new([7; 32]);
    assert!(server.check_api_key(&[7; 32]));
    assert!(!server.check_api_key(&[7; 31]));
}

#[test]
fn failed_reads_and_writes_fail_the_handshake() {
    let mut server = ServerHandshake::new([0; 32]);
    assert!(matches!(
        server.step(HandshakeEvent::ReadFailed),
        HandshakeAction::Close
    ));
    assert_eq!(server.state(), HandshakeState::Failed);

    let mut server = ServerHandshake::new([0; 32]);
    server.step(HandshakeEvent::Received(vec![0, 0]));
    assert!(matches!(
        server.step(HandshakeEvent::ReadFailed),
        HandshakeAction::Close
    ));
    assert_eq!(server.state(), HandshakeState::Failed);

    let mut server = ServerHandshake::new([0; 32]);
    server.step(HandshakeEvent::Received(vec![0, 0]));
    server.step(HandshakeEvent::Received(vec![0; 32]));
    assert!(matches!(
        server.step(HandshakeEvent::SendFailed),
        HandshakeAction::Close
    ));
    assert_eq!(server.state(), HandshakeState::Failed);
}

#[test]
fn short_reads_fail_the_handshake() {
    let mut server = ServerHandshake::new([0; 32]);
    assert!(matches!(
        server.step(HandshakeEvent::Received(vec![0])),
        HandshakeAction::Close
    ));
    assert_eq!(server.state(), HandshakeState::Failed);

    let mut server = ServerHandshake::new([0; 32]);
    server.step(HandshakeEvent::Received(vec![0, 0]));
    assert!(matches!(
        server.step(HandshakeEvent::Received(vec![0; 31])),
        HandshakeAction::Close
    ));
    assert_eq!(server.state(), HandshakeState::Failed);
}

#[test]
fn final_states_stay() {
    let mut server = ServerHandshake::new([0; 32]);
    server.step(HandshakeEvent::Received(vec![0, 9]));
    assert_eq!(server.state(), HandshakeState::Rejected);
    assert!(matches!(
        server.step(HandshakeEvent::Received(vec![0, 0])),
        HandshakeAction::Close
    ));
    assert_eq!(server.state(), HandshakeState::Rejected);

    let mut server = ServerHandshake::new([0; 32]);
    server.step(HandshakeEvent::Received(vec![0, 0]));
    server.step(HandshakeEvent::Received(vec![0; 32]));
    server.step(HandshakeEvent::Sent);
    assert!(matches!(
        server.step(HandshakeEvent::SendFailed),
        HandshakeAction::Accept
    ));
    assert_eq!(server.state(), HandshakeState::Ready);

    let mut server = ServerHandshake::new([0; 32]);
    server.step(HandshakeEvent::Sent);
    assert_eq!(server.state(), HandshakeState::Failed);
    assert!(matches!(
        server.step(HandshakeEvent::Received(vec![0, 0])),
        HandshakeAction::Close
    ));
    assert_eq!(server.state(), HandshakeState::Failed);
}

#[test]
fn version_check() {
    assert!(check_version(&[0, 0]));
    assert!(!check_version(&[0, 1]));
    assert!(!check_version(&[1, 0]));
    assert!(!check_version(&[0]));
    assert!(!check_version(&[0, 0, 0]));
    assert!(!check_version(&[]));
}

#[test]
fn client_outcomes() {
    assert!(client_outcome(0, 0).is_ok());
    assert!(client_outcome(0, 77).is_ok());
    assert!(matches!(
        client_outcome(1, 0),
        Err(HandshakeError::Result(HandshakeCode::GeneralError))
    ));
    assert!(matches!(
        client_outcome(2, 0x0102),
        Err(HandshakeError::Result(HandshakeCode::IncompatibleVersion(0x0102)))
    ));
    assert!(matches!(
        client_response(&[2, 1, 2]),
        Err(HandshakeError::Result(HandshakeCode::IncompatibleVersion(0x0102)))
    ));
    assert!(matches!(
        client_outcome(3, 0),
        Err(HandshakeError::Result(HandshakeCode::Unauthorised))
    ));
    assert!(matches!(
        client_outcome(42, 0),
        Err(HandshakeError::Result(HandshakeCode::UnknowErrorCode(42)))
    ));
}

#[test]
fn errors_convert() {
    let cause = std::io::Error::from(std::io::ErrorKind::UnexpectedEof);
    assert!(matches!(
        HandshakeError::from(cause),
        HandshakeError::TolliverError(TolliverError::IOError(_))
    ));
    assert!(matches!(
        HandshakeError::from(TolliverError::BodyTooLarge),
        HandshakeError::TolliverError(TolliverError::BodyTooLarge)
    ));
}
