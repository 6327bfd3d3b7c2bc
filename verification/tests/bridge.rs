use push::bridge::{
    read_channel_list, read_endpoint, read_registration, read_removal, read_token_update,
    BridgeResponse, Registration,
};
use push::error::ErrorKind;
use push::types::BridgeType;

fn answer(status: u16, body: &str) -> BridgeResponse {
    BridgeResponse {
        status,
        body: body.to_string(),
        uaid: None,
        secret: None,
        endpoint: None,
        channel_ids: None,
    }
}

#[test]
fn bridge_type_names() {
    assert_eq!(BridgeType::Adm.as_str(), "adm");
    assert_eq!(BridgeType::Apns.as_str(), "apns");
    assert_eq!(BridgeType::Fcm.as_str(), "fcm");
    assert_eq!(BridgeType::Test.as_str(), "test");
}

#[test]
fn transport_failure_is_a_communication_error() {
    let why = || Err("timed out".to_string());
    let expected = ErrorKind::CommunicationError("timed out".to_string());
    assert_eq!(read_registration(why()), Err(expected.clone()));
    assert_eq!(read_endpoint(why()), Err(expected.clone()));
    assert_eq!(read_removal(why()), Err(expected.clone()));
    assert_eq!(read_token_update(why()), Err(expected.clone()));
    assert_eq!(read_channel_list(why()), Err(expected));
}

#[test]
fn registration_reads_identity_and_endpoint() {
    let mut response = answer(200, "{}");
    response.uaid = Some("u1".to_string());
    response.secret = Some("s1".to_string());
    assert_eq!(
        read_registration(Ok(response.clone())),
        Ok(Registration { uaid: "u1".to_string(), secret: "s1".to_string(), endpoint: None })
    );
    response.endpoint = Some("https://e".to_string());
    response.status = 201;
    assert_eq!(
        read_registration(Ok(response)),
        Ok(
            Registration {
                uaid: "u1".to_string(),
                secret: "s1".to_string(),
                endpoint: Some("https://e".to_string()),
            }
        )
    );
}

#[test]
fn registration_needs_uaid_and_secret() {
    let mut response = answer(200, "{}");
    response.secret = Some("s1".to_string());
    assert_eq!(
        read_registration(Ok(response)),
        Err(ErrorKind::JSONDeserializeError("the server's answer lacks uaid".to_string()))
    );
    let mut response = answer(200, "{}");
    response.uaid = Some("u1".to_string());
    assert_eq!(
        read_registration(Ok(response)),
        Err(ErrorKind::JSONDeserializeError("the server's answer lacks secret".to_string()))
    );
}

#[test]
fn registration_failure_carries_status_and_body() {
    let mut response = answer(503, "try later");
    response.uaid = Some("u1".to_string());
    response.secret = Some("s1".to_string());
    assert_eq!(
        read_registration(Ok(response)),
        Err(ErrorKind::CommunicationServerError("503 try later".to_string()))
    );
    assert_eq!(
        read_registration(Ok(answer(410, "gone"))),
        Err(ErrorKind::CommunicationServerError("410 gone".to_string()))
    );
}

#[test]
fn status_is_written_in_decimal() {
    assert_eq!(
        read_endpoint(Ok(answer(0, ""))),
        Err(ErrorKind::CommunicationServerError("0 ".to_string()))
    );
    assert_eq!(
        read_endpoint(Ok(answer(7, "x"))),
        Err(ErrorKind::CommunicationServerError("7 x".to_string()))
    );
    assert_eq!(
        read_endpoint(Ok(answer(199, "x"))),
        Err(ErrorKind::CommunicationServerError("199 x".to_string()))
    );
    assert_eq!(
        read_endpoint(Ok(answer(300, "x"))),
        Err(ErrorKind::CommunicationServerError("300 x".to_string()))
    );
    assert_eq!(
        read_endpoint(Ok(answer(65535, "x"))),
        Err(ErrorKind::CommunicationServerError("65535 x".to_string()))
    );
    assert_eq!(
        read_endpoint(Ok(answer(1000, "x"))),
        Err(ErrorKind::CommunicationServerError("1000 x".to_string()))
    );
}

#[test]
fn endpoint_is_read_from_a_successful_answer() {
    let mut response = answer(200, "{}");
    response.endpoint = Some("https://e/1".to_string());
    assert_eq!(read_endpoint(Ok(response.clone())), Ok("https://e/1".to_string()));
    response.status = 299;
    assert_eq!(read_endpoint(Ok(response.clone())), Ok("https://e/1".to_string()));
    response.status = 404;
    assert_eq!(
        read_endpoint(Ok(response)),
        Err(ErrorKind::CommunicationServerError("404 {}".to_string()))
    );
    assert_eq!(
        read_endpoint(Ok(answer(200, "{}"))),
        Err(ErrorKind::JSONDeserializeError("the server's answer lacks endpoint".to_string()))
    );
}

#[test]
fn removal_tolerates_what_is_gone() {
    assert_eq!(read_removal(Ok(answer(200, ""))), Ok(true));
    assert_eq!(read_removal(Ok(answer(204, ""))), Ok(true));
    assert_eq!(read_removal(Ok(answer(404, "no such channel"))), Ok(false));
    assert_eq!(read_removal(Ok(answer(410, "gone"))), Ok(false));
    assert_eq!(
        read_removal(Ok(answer(400, "bad"))),
        Err(ErrorKind::CommunicationServerError("400 bad".to_string()))
    );
    assert_eq!(
        read_removal(Ok(answer(500, "boom"))),
        Err(ErrorKind::CommunicationServerError("500 boom".to_string()))
    );
}

#[test]
fn token_update_reports_a_lost_identity() {
    assert_eq!(read_token_update(Ok(answer(200, ""))), Ok(()));
    assert_eq!(
        read_token_update(Ok(answer(404, "who"))),
        Err(ErrorKind::UAIDNotRecognizedError("404 who".to_string()))
    );
    assert_eq!(
        read_token_update(Ok(answer(410, "gone"))),
        Err(ErrorKind::UAIDNotRecognizedError("410 gone".to_string()))
    );
    assert_eq!(
        read_token_update(Ok(answer(401, "no"))),
        Err(ErrorKind::CommunicationServerError("401 no".to_string()))
    );
}

#[test]
fn channel_list_reports_a_lost_identity() {
    let mut response = answer(200, "{}");
    response.channel_ids = Some(vec!["c1".to_string(), "c2".to_string()]);
    assert_eq!(
        read_channel_list(Ok(response.clone())),
        Ok(vec!["c1".to_string(), "c2".to_string()])
    );
    response.channel_ids = Some(vec![]);
    assert_eq!(read_channel_list(Ok(response)), Ok(vec![]));
    assert_eq!(
        read_channel_list(Ok(answer(200, "{}"))),
        Err(ErrorKind::JSONDeserializeError("the server's answer lacks channelIDs".to_string()))
    );
    assert_eq!(
        read_channel_list(Ok(answer(410, "gone"))),
        Err(ErrorKind::UAIDNotRecognizedError("410 gone".to_string()))
    );
    assert_eq!(
        read_channel_list(Ok(answer(404, "gone"))),
        Err(ErrorKind::UAIDNotRecognizedError("404 gone".to_string()))
    );
    assert_eq!(
        read_channel_list(Ok(answer(502, "bad gateway"))),
        Err(ErrorKind::CommunicationServerError("502 bad gateway".to_string()))
    );
}
