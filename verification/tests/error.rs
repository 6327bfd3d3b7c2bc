use push::error::{surface, ErrorKind, PushError};

#[test]
fn from_keeps_the_case_and_the_message() {
    let m = || "why".to_string();
    assert_eq!(PushError::from(ErrorKind::GeneralError(m())), PushError::GeneralError(m()));
    assert_eq!(PushError::from(ErrorKind::CryptoError(m())), PushError::CryptoError(m()));
    assert_eq!(
        PushError::from(ErrorKind::CommunicationError(m())),
        PushError::CommunicationError(m())
    );
    assert_eq!(
        PushError::from(ErrorKind::CommunicationServerError(m())),
        PushError::CommunicationServerError(m())
    );
    assert_eq!(
        PushError::from(ErrorKind::AlreadyRegisteredError),
        PushError::AlreadyRegisteredError
    );
    assert_eq!(PushError::from(ErrorKind::StorageError(m())), PushError::StorageError(m()));
    assert_eq!(
        PushError::from(ErrorKind::RecordNotFoundError(m())),
        PushError::RecordNotFoundError(m())
    );
    assert_eq!(PushError::from(ErrorKind::StorageSqlError(m())), PushError::StorageSqlError(m()));
    assert_eq!(
        PushError::from(ErrorKind::MissingRegistrationTokenError),
        PushError::MissingRegistrationTokenError
    );
    assert_eq!(
        PushError::from(ErrorKind::TranscodingError(m())),
        PushError::TranscodingError(m())
    );
    assert_eq!(PushError::from(ErrorKind::UrlParseError(m())), PushError::UrlParseError(m()));
    assert_eq!(
        PushError::from(ErrorKind::JSONDeserializeError(m())),
        PushError::JSONDeserializeError(m())
    );
    assert_eq!(
        PushError::from(ErrorKind::UAIDNotRecognizedError(m())),
        PushError::UAIDNotRecognizedError(m())
    );
    assert_eq!(PushError::from(ErrorKind::RequestError(m())), PushError::RequestError(m()));
    assert_eq!(
        PushError::from(ErrorKind::OpenDatabaseError(m())),
        PushError::OpenDatabaseError(m())
    );
}

#[test]
fn message_of_a_server_error() {
    let r = PushError::from(ErrorKind::CommunicationServerError("410 Gone".to_string()));
    assert!(matches!(&r, PushError::CommunicationServerError(m) if m == "410 Gone"));
    assert_eq!(r.message(), "Communication Server Error: 410 Gone");
}

#[test]
fn message_of_an_unrecognised_uaid() {
    let r = PushError::from(ErrorKind::UAIDNotRecognizedError("gone".to_string()));
    assert!(matches!(&r, PushError::UAIDNotRecognizedError(m) if m == "gone"));
    assert_eq!(r.message(), "Unrecognized UAID: gone");
}

#[test]
fn message_of_a_missing_record() {
    let r = PushError::from(ErrorKind::RecordNotFoundError("c1".to_string()));
    assert!(matches!(&r, PushError::RecordNotFoundError(id) if id == "c1"));
    assert_eq!(r.message(), "No record for chid \"c1\"");
}

#[test]
fn message_of_a_channel_that_is_registered() {
    let r = PushError::from(ErrorKind::AlreadyRegisteredError);
    assert!(matches!(r, PushError::AlreadyRegisteredError));
    assert_eq!(r.message(), "Channel already registered.");
}

#[test]
fn message_of_every_case() {
    let m = || "why".to_string();
    assert_eq!(PushError::GeneralError(m()).message(), "General Error: \"why\"");
    assert_eq!(PushError::CryptoError(m()).message(), "Crypto error: why");
    assert_eq!(PushError::CommunicationError(m()).message(), "Communication Error: \"why\"");
    assert_eq!(
        PushError::CommunicationServerError(m()).message(),
        "Communication Server Error: why"
    );
    assert_eq!(PushError::AlreadyRegisteredError.message(), "Channel already registered.");
    assert_eq!(PushError::StorageError(m()).message(), "Storage Error: \"why\"");
    assert_eq!(PushError::RecordNotFoundError(m()).message(), "No record for chid \"why\"");
    assert_eq!(PushError::StorageSqlError(m()).message(), "Error executing SQL: why");
    assert_eq!(
        PushError::MissingRegistrationTokenError.message(),
        "Missing Registration Token"
    );
    assert_eq!(PushError::TranscodingError(m()).message(), "Transcoding Error: why");
    assert_eq!(PushError::UrlParseError(m()).message(), "URL parse error: \"why\"");
    assert_eq!(PushError::JSONDeserializeError(m()).message(), "Failed to parse json: why");
    assert_eq!(PushError::UAIDNotRecognizedError(m()).message(), "Unrecognized UAID: why");
    assert_eq!(
        PushError::RequestError(m()).message(),
        "Unable to send request to server: why"
    );
    assert_eq!(PushError::OpenDatabaseError(m()).message(), "Error opening database: why");
}

#[test]
fn message_quotes_with_escapes() {
    assert_eq!(
        PushError::StorageError("a \"b\"\n\\".to_string()).message(),
        "Storage Error: \"a \\\"b\\\"\\n\\\\\""
    );
    assert_eq!(PushError::GeneralError("".to_string()).message(), "General Error: \"\"");
    assert_eq!(PushError::CryptoError("".to_string()).message(), "Crypto error: ");
    assert_ne!(
        PushError::RecordNotFoundError("c1".to_string()).message(),
        "No record for chid c1"
    );
}

#[test]
fn surface_is_from() {
    assert_eq!(
        surface(ErrorKind::RecordNotFoundError("c1".to_string())),
        PushError::RecordNotFoundError("c1".to_string())
    );
    assert_ne!(
        surface(ErrorKind::StorageError("x".to_string())),
        PushError::StorageSqlError("x".to_string())
    );
}
