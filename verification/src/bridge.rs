//! The client of the bridging server.
//!
//! Each operation is one round trip: a [`BridgeCall`] goes out through a
//! [`Transport`], and what comes back is read by the function that belongs
//! to the call. The functions that read an answer say, for every answer,
//! what the outcome of the operation is.

use vstd::prelude::*;
use vstd::string::*;
use crate::error::{outcome_view, ErrorKind, ErrorView};
use crate::text::{optional_text, texts};
use crate::types::BridgeType;

verus! {

/// Where the bridging server is and how this application is known to it.
#[derive(Debug, Clone, PartialEq, Eq)]
pub struct PushConfiguration {
    /// The host name of the server.
    pub server_host: String,
    /// The protocol to reach it by, such as `https`.
    pub http_protocol: String,
    /// The native transport that the server relays to.
    pub bridge_type: BridgeType,
    /// The application's id with the native transport.
    pub sender_id: String,
}

/// [`PushConfiguration`] as sequences of characters.
pub struct PushConfigurationView {
    pub server_host: Seq<char>,
    pub http_protocol: Seq<char>,
    pub bridge_type: BridgeType,
    pub sender_id: Seq<char>,
}

impl View for PushConfiguration {
    type V = PushConfigurationView;

    open spec fn view(&self) -> PushConfigurationView {
        PushConfigurationView {
            server_host: self.server_host@,
            http_protocol: self.http_protocol@,
            bridge_type: self.bridge_type,
            sender_id: self.sender_id@,
        }
    }
}

/// One operation of the bridging server, with what it is called with.
#[derive(Debug, Clone, PartialEq, Eq)]
pub enum BridgeCall {
    /// Registers the installation under a native registration token.
    Register { token: String },
    /// Opens a channel, restricted to a sender's key where one is given.
    Subscribe { uaid: String, secret: String, channel_id: String, app_server_key: Option<String> },
    /// Closes a channel.
    Unsubscribe { uaid: String, secret: String, channel_id: String },
    /// Closes all channels of the identity.
    UnsubscribeAll { uaid: String, secret: String },
    /// Reports a new native registration token.
    UpdateToken { uaid: String, secret: String, token: String },
    /// Asks for the channels that the server holds for the identity.
    ChannelList { uaid: String, secret: String },
}

/// [`BridgeCall`] as sequences of characters.
pub enum BridgeCallView {
    Register { token: Seq<char> },
    Subscribe {
        uaid: Seq<char>,
        secret: Seq<char>,
        channel_id: Seq<char>,
        app_server_key: Option<Seq<char>>,
    },
    Unsubscribe { uaid: Seq<char>, secret: Seq<char>, channel_id: Seq<char> },
    UnsubscribeAll { uaid: Seq<char>, secret: Seq<char> },
    UpdateToken { uaid: Seq<char>, secret: Seq<char>, token: Seq<char> },
    ChannelList { uaid: Seq<char>, secret: Seq<char> },
}

impl View for BridgeCall {
    type V = BridgeCallView;

    open spec fn view(&self) -> BridgeCallView {
        match self {
            BridgeCall::Register { token } => BridgeCallView::Register { token: token@ },
            BridgeCall::Subscribe {
                uaid,
                secret,
                channel_id,
                app_server_key,
            } => BridgeCallView::Subscribe {
                uaid: uaid@,
                secret: secret@,
                channel_id: channel_id@,
                app_server_key: optional_text(*app_server_key),
            },
            BridgeCall::Unsubscribe { uaid, secret, channel_id } => BridgeCallView::Unsubscribe {
                uaid: uaid@,
                secret: secret@,
                channel_id: channel_id@,
            },
            BridgeCall::UnsubscribeAll { uaid, secret } => BridgeCallView::UnsubscribeAll {
                uaid: uaid@,
                secret: secret@,
            },
            BridgeCall::UpdateToken { uaid, secret, token } => BridgeCallView::UpdateToken {
                uaid: uaid@,
                secret: secret@,
                token: token@,
            },
            BridgeCall::ChannelList { uaid, secret } => BridgeCallView::ChannelList {
                uaid: uaid@,
                secret: secret@,
            },
        }
    }
}

/// An answer of the bridging server: the status, the body as it came, and
/// the fields of the body that the library reads, where the body has them.
#[derive(Debug, Clone, PartialEq, Eq)]
pub struct BridgeResponse {
    pub status: u16,
    pub body: String,
    pub uaid: Option<String>,
    pub secret: Option<String>,
    pub endpoint: Option<String>,
    pub channel_ids: Option<Vec<String>>,
}

/// [`BridgeResponse`] as sequences of characters.
pub struct BridgeResponseView {
    pub status: u16,
    pub body: Seq<char>,
    pub uaid: Option<Seq<char>>,
    pub secret: Option<Seq<char>>,
    pub endpoint: Option<Seq<char>>,
    pub channel_ids: Option<Seq<Seq<char>>>,
}

impl View for BridgeResponse {
    type V = BridgeResponseView;

    open spec fn view(&self) -> BridgeResponseView {
        BridgeResponseView {
            status: self.status,
            body: self.body@,
            uaid: optional_text(self.uaid),
            secret: optional_text(self.secret),
            endpoint: optional_text(self.endpoint),
            channel_ids: match self.channel_ids {
                Some(ids) => Some(texts(ids@)),
                None => None,
            },
        }
    }
}

/// What one round trip brings back: the server's answer, or the reason why
/// none came.
pub type Reply = Result<BridgeResponse, String>;

/// [`Reply`] as sequences of characters.
pub type ReplyView = Result<BridgeResponseView, Seq<char>>;

/// What a reply holds.
pub open spec fn reply_view(reply: Reply) -> ReplyView {
    match reply {
        Ok(response) => Ok(response@),
        Err(reason) => Err(reason@),
    }
}

/// The way to the bridging server. An implementation performs the call
/// against the server that the configuration names and returns the answer,
/// or the reason why it got none. Nothing is assumed of what it returns.
pub trait Transport {
    fn round_trip(&mut self, config: &PushConfiguration, call: &BridgeCall) -> Reply;
}

/// What a successful registration brings.
#[derive(Debug, Clone, PartialEq, Eq)]
pub struct Registration {
    pub uaid: String,
    pub secret: String,
    /// The endpoint of a first channel, where the server opened one.
    pub endpoint: Option<String>,
}

/// [`Registration`] as sequences of characters.
pub struct RegistrationView {
    pub uaid: Seq<char>,
    pub secret: Seq<char>,
    pub endpoint: Option<Seq<char>>,
}

impl View for Registration {
    type V = RegistrationView;

    open spec fn view(&self) -> RegistrationView {
        RegistrationView {
            uaid: self.uaid@,
            secret: self.secret@,
            endpoint: optional_text(self.endpoint),
        }
    }
}

/// Whether the status reports success.
pub open spec fn is_success(status: u16) -> bool {
    200 <= status < 300
}

/// Whether the status reports that what was asked for is not there.
pub open spec fn is_gone(status: u16) -> bool {
    status == 404 || status == 410
}

/// The ten decimal digits.
pub open spec fn decimal_digits() -> Seq<char> {
    "0123456789"@
}

/// A number in decimal.
pub open spec fn decimal(n: nat) -> Seq<char>
    decreases n,
{
    if n < 10 {
        seq![decimal_digits()[n as int]]
    } else {
        decimal(n / 10).push(decimal_digits()[(n % 10) as int])
    }
}

/// What a failure reports of the answer that caused it: the status, a
/// space, and the body.
pub open spec fn server_reason(response: BridgeResponseView) -> Seq<char> {
    decimal(response.status as nat) + " "@ + response.body
}

/// The message of the failure to find a field in a successful answer.
pub open spec fn missing_field(field: Seq<char>) -> Seq<char> {
    "the server's answer lacks "@ + field
}

/// The failure that an answer stands for where the operation has no use
/// for it: an error of the server, with its status and body.
pub open spec fn server_error(response: BridgeResponseView) -> ErrorView {
    ErrorView::CommunicationServerError(server_reason(response))
}

/// The outcome of a registration: the new identity from a successful
/// answer that holds one.
pub open spec fn registration_of(reply: ReplyView) -> Result<RegistrationView, ErrorView> {
    match reply {
        Err(reason) => Err(ErrorView::CommunicationError(reason)),
        Ok(response) => if !is_success(response.status) {
            Err(server_error(response))
        } else if response.uaid is None {
            Err(ErrorView::JSONDeserializeError(missing_field("uaid"@)))
        } else if response.secret is None {
            Err(ErrorView::JSONDeserializeError(missing_field("secret"@)))
        } else {
            Ok(
                RegistrationView {
                    uaid: response.uaid->0,
                    secret: response.secret->0,
                    endpoint: response.endpoint,
                },
            )
        },
    }
}

/// The outcome of opening a channel: the endpoint from a successful answer
/// that holds one.
pub open spec fn endpoint_of(reply: ReplyView) -> Result<Seq<char>, ErrorView> {
    match reply {
        Err(reason) => Err(ErrorView::CommunicationError(reason)),
        Ok(response) => if !is_success(response.status) {
            Err(server_error(response))
        } else if response.endpoint is None {
            Err(ErrorView::JSONDeserializeError(missing_field("endpoint"@)))
        } else {
            Ok(response.endpoint->0)
        },
    }
}

/// The outcome of closing one channel or all: whether the server removed
/// anything. That the server has nothing to remove is no failure.
pub open spec fn removal_of(reply: ReplyView) -> Result<bool, ErrorView> {
    match reply {
        Err(reason) => Err(ErrorView::CommunicationError(reason)),
        Ok(response) => if is_success(response.status) {
            Ok(true)
        } else if is_gone(response.status) {
            Ok(false)
        } else {
            Err(server_error(response))
        },
    }
}

/// The outcome of reporting a token. That the server has nothing under the
/// identity means that the identity is lost.
pub open spec fn token_update_of(reply: ReplyView) -> Result<(), ErrorView> {
    match reply {
        Err(reason) => Err(ErrorView::CommunicationError(reason)),
        Ok(response) => if is_success(response.status) {
            Ok(())
        } else if is_gone(response.status) {
            Err(ErrorView::UAIDNotRecognizedError(server_reason(response)))
        } else {
            Err(server_error(response))
        },
    }
}

/// The outcome of asking for the channels: the ids from a successful answer
/// that holds them. That the server has nothing under the identity means
/// that the identity is lost.
pub open spec fn channel_list_of(reply: ReplyView) -> Result<Seq<Seq<char>>, ErrorView> {
    match reply {
        Err(reason) => Err(ErrorView::CommunicationError(reason)),
        Ok(response) => if is_success(response.status) {
            match response.channel_ids {
                Some(ids) => Ok(ids),
                None => Err(ErrorView::JSONDeserializeError(missing_field("channelIDs"@))),
            }
        } else if is_gone(response.status) {
            Err(ErrorView::UAIDNotRecognizedError(server_reason(response)))
        } else {
            Err(server_error(response))
        },
    }
}

/// Appends `n` in decimal.
fn push_decimal(out: &mut String, n: u16)
    ensures
        final(out)@ == old(out)@ + decimal(n as nat),
    decreases n,
{
    if n >= 10 {
        push_decimal(out, n / 10);
    }
    let d: usize = (n % 10) as usize;
    let table = "0123456789";
    proof {
        reveal_strlit("0123456789");
    }
    let digit = table.substring_ascii(d, d + 1);
    out.append(digit);
    assert(out@ =~= old(out)@ + decimal(n as nat));
}

/// What a failure reports of the answer that caused it.
fn reason_of(response: &BridgeResponse) -> (reason: String)
    ensures
        reason@ == server_reason(response@),
{
    let mut reason = String::new();
    push_decimal(&mut reason, response.status);
    reason.append(" ");
    reason.append(response.body.as_str());
    assert(reason@ =~= server_reason(response@));
    reason
}

/// The failure to find `field` in a successful answer.
fn lacks(field: &str) -> (error: ErrorKind)
    ensures
        error@ == ErrorView::JSONDeserializeError(missing_field(field@)),
{
    let mut message = "the server's answer lacks ".to_owned();
    message.append(field);
    ErrorKind::JSONDeserializeError(message)
}

/// Reads the answer to [`BridgeCall::Register`].
pub fn read_registration(reply: Reply) -> (outcome: Result<Registration, ErrorKind>)
    ensures
        outcome_view(outcome) == registration_of(reply_view(reply)),
{
    match reply {
        Err(reason) => Err(ErrorKind::CommunicationError(reason)),
        Ok(response) => {
            if !(response.status >= 200 && response.status < 300) {
                return Err(ErrorKind::CommunicationServerError(reason_of(&response)));
            }
            let BridgeResponse { status, body, uaid, secret, endpoint, channel_ids } = response;
            match uaid {
                None => Err(lacks("uaid")),
                Some(uaid) => match secret {
                    None => Err(lacks("secret")),
                    Some(secret) => Ok(Registration { uaid, secret, endpoint }),
                },
            }
        },
    }
}

/// Reads the answer to [`BridgeCall::Subscribe`].
pub fn read_endpoint(reply: Reply) -> (outcome: Result<String, ErrorKind>)
    ensures
        outcome_view(outcome) == endpoint_of(reply_view(reply)),
{
    match reply {
        Err(reason) => Err(ErrorKind::CommunicationError(reason)),
        Ok(response) => {
            if !(response.status >= 200 && response.status < 300) {
                return Err(ErrorKind::CommunicationServerError(reason_of(&response)));
            }
            match response.endpoint {
                None => Err(lacks("endpoint")),
                Some(endpoint) => Ok(endpoint),
            }
        },
    }
}

/// Reads the answer to [`BridgeCall::Unsubscribe`] or
/// [`BridgeCall::UnsubscribeAll`].
pub fn read_removal(reply: Reply) -> (outcome: Result<bool, ErrorKind>)
    ensures
        outcome_view(outcome) == removal_of(reply_view(reply)),
{
    match reply {
        Err(reason) => Err(ErrorKind::CommunicationError(reason)),
        Ok(response) => {
            if response.status >= 200 && response.status < 300 {
                Ok(true)
            } else if response.status == 404 || response.status == 410 {
                Ok(false)
            } else {
                Err(ErrorKind::CommunicationServerError(reason_of(&response)))
            }
        },
    }
}

/// Reads the answer to [`BridgeCall::UpdateToken`].
pub fn read_token_update(reply: Reply) -> (outcome: Result<(), ErrorKind>)
    ensures
        outcome_view(outcome) == token_update_of(reply_view(reply)),
{
    match reply {
        Err(reason) => Err(ErrorKind::CommunicationError(reason)),
        Ok(response) => {
            if response.status >= 200 && response.status < 300 {
                Ok(())
            } else if response.status == 404 || response.status == 410 {
                Err(ErrorKind::UAIDNotRecognizedError(reason_of(&response)))
            } else {
                Err(ErrorKind::CommunicationServerError(reason_of(&response)))
            }
        },
    }
}

/// Reads the answer to [`BridgeCall::ChannelList`].
pub fn read_channel_list(reply: Reply) -> (outcome: Result<Vec<String>, ErrorKind>)
    ensures
        match outcome {
            Ok(ids) => channel_list_of(reply_view(reply)) == Ok::<Seq<Seq<char>>, ErrorView>(
                texts(ids@),
            ),
            Err(error) => channel_list_of(reply_view(reply)) == Err::<Seq<Seq<char>>, ErrorView>(
                error@,
            ),
        },
{
    match reply {
        Err(reason) => Err(ErrorKind::CommunicationError(reason)),
        Ok(response) => {
            if response.status >= 200 && response.status < 300 {
                match response.channel_ids {
                    Some(ids) => Ok(ids),
                    None => Err(lacks("channelIDs")),
                }
            } else if response.status == 404 || response.status == 410 {
                Err(ErrorKind::UAIDNotRecognizedError(reason_of(&response)))
            } else {
                Err(ErrorKind::CommunicationServerError(reason_of(&response)))
            }
        },
    }
}

} // verus!
