//! What the manager does, as functions from its state and from what the
//! outside world answered to its next state and its result.
//!
//! The manager's operations are stated against these functions, and the
//! laws of the library are proved of them.

use vstd::prelude::*;
use vstd::string::*;
use crate::base64url;
use crate::bridge::{
    channel_list_of, endpoint_of, registration_of, removal_of, token_update_of, BridgeCallView,
    PushConfigurationView, RegistrationView, ReplyView,
};
use crate::channel_id::ENTROPY_LENGTH;
use crate::error::ErrorView;
use crate::host::Exchange;
use crate::keystore::{
    channel_id_of, encoding_of, key_info_of, keys_of, opened_of, undecodable_body_message,
    KeyMaterialView,
};
use crate::store::{
    dispatch_of, distinct, dropped, find, holds, kept, notice_of, without, ChannelRecordView,
    IdentityView, StoreView,
};
use crate::types::{
    DispatchInfoView, PushSubscriptionChangedView, SubscriptionInfoView, SubscriptionResponseView,
};

verus! {

/// Where the installation stands with the bridging server.
#[derive(Clone, Copy, Debug, PartialEq, Eq, Structural)]
pub enum Lifecycle {
    /// It has no identity yet.
    Uninitialized,
    /// It has an identity, and nothing says that the server has lost it.
    Active,
    /// It has an identity that the server no longer knows.
    Stale,
}

/// What the manager holds.
pub struct ManagerView {
    pub config: PushConfigurationView,
    /// The native registration token, once the caller has reported one.
    pub token: Option<Seq<char>>,
    pub lifecycle: Lifecycle,
    pub identity: Option<IdentityView>,
    pub channels: Seq<ChannelRecordView>,
}

/// Whether an identity was registered under the configuration.
pub open spec fn registered_under(identity: IdentityView, config: PushConfigurationView) -> bool {
    &&& identity.sender_id == config.sender_id
    &&& identity.bridge_type == config.bridge_type
    &&& identity.server_host == config.server_host
    &&& identity.http_protocol == config.http_protocol
}

/// Whether the manager's state is in order: no two records have one channel
/// id; without an identity there are no records; the lifecycle is
/// `Uninitialized` exactly where there is no identity; and an identity
/// carries the manager's configuration and token.
pub open spec fn well_formed(m: ManagerView) -> bool {
    &&& distinct(m.channels)
    &&& m.lifecycle == Lifecycle::Uninitialized <==> m.identity is None
    &&& m.identity is None ==> m.channels.len() == 0
    &&& m.identity matches Some(identity) ==> registered_under(identity, m.config) && m.token
        == Some(identity.current_token)
}

/// The message of the failure to open a store that was filled under another
/// configuration.
pub open spec fn other_configuration_message() -> Seq<char> {
    "the stored identity belongs to another configuration"@
}

/// The message of the failure to open a store that has records and no
/// identity.
pub open spec fn orphaned_records_message() -> Seq<char> {
    "the store holds channels without an identity"@
}

/// The message of the failure to complete a subscription without an
/// identity.
pub open spec fn no_identity_message() -> Seq<char> {
    "no identity"@
}

/// The manager that opens on a store, under a configuration. A store whose
/// identity was registered under another configuration, or that has records
/// and no identity, is refused with `OpenDatabaseError`.
pub open spec fn opened(config: PushConfigurationView, store: StoreView) -> Result<
    ManagerView,
    ErrorView,
> {
    match store.identity {
        Some(identity) => if registered_under(identity, config) {
            Ok(
                ManagerView {
                    config,
                    token: Some(identity.current_token),
                    lifecycle: Lifecycle::Active,
                    identity: store.identity,
                    channels: store.channels,
                },
            )
        } else {
            Err(ErrorView::OpenDatabaseError(other_configuration_message()))
        },
        None => if store.channels.len() == 0 {
            Ok(
                ManagerView {
                    config,
                    token: None,
                    lifecycle: Lifecycle::Uninitialized,
                    identity: None,
                    channels: store.channels,
                },
            )
        } else {
            Err(ErrorView::OpenDatabaseError(orphaned_records_message()))
        },
    }
}

/// The state without its identity and without its records.
pub open spec fn forgotten(m: ManagerView) -> ManagerView {
    ManagerView {
        lifecycle: Lifecycle::Uninitialized,
        identity: None,
        channels: Seq::empty(),
        ..m
    }
}

/// The identity that a registration under `config` with `token` brings.
pub open spec fn identity_from(
    config: PushConfigurationView,
    token: Seq<char>,
    registration: RegistrationView,
) -> IdentityView {
    IdentityView {
        uaid: registration.uaid,
        secret: registration.secret,
        current_token: token,
        sender_id: config.sender_id,
        bridge_type: config.bridge_type,
        server_host: config.server_host,
        http_protocol: config.http_protocol,
    }
}

/// The call that registers the installation: it carries the token, and
/// cannot be made without one.
pub open spec fn registration_call_of(m: ManagerView) -> Result<BridgeCallView, ErrorView> {
    match m.token {
        Some(token) => Ok(BridgeCallView::Register { token }),
        None => Err(ErrorView::MissingRegistrationTokenError),
    }
}

/// The state after a registration to which the server replied with
/// `reply`. A successful registration brings a new identity, which has no
/// channels. A failure leaves the state as it was.
pub open spec fn registered(m: ManagerView, reply: ReplyView) -> (ManagerView, Result<(), ErrorView>) {
    match m.token {
        None => (m, Err(ErrorView::MissingRegistrationTokenError)),
        Some(token) => match registration_of(reply) {
            Err(error) => (m, Err(error)),
            Ok(registration) => (
                ManagerView {
                    lifecycle: Lifecycle::Active,
                    identity: Some(identity_from(m.config, token, registration)),
                    channels: Seq::empty(),
                    ..m
                },
                Ok(()),
            ),
        },
    }
}

/// What a registration asks of the outside world: the server is called
/// once, where there is a token to call it with.
pub open spec fn registration_asked(m: ManagerView, reply: ReplyView) -> Seq<Exchange> {
    match registration_call_of(m) {
        Ok(call) => seq![Exchange::Call { config: m.config, call, reply }],
        Err(_) => Seq::empty(),
    }
}

/// The state once the manager has made sure of an identity that the server
/// knows. An active identity is kept. Without one the installation is
/// registered. A stale one is forgotten with all its channels, and the
/// installation is registered anew. `reply` is the server's reply to the
/// registration, where one is made.
pub open spec fn activated(m: ManagerView, reply: ReplyView) -> (ManagerView, Result<(), ErrorView>) {
    match m.lifecycle {
        Lifecycle::Active => (m, Ok(())),
        Lifecycle::Uninitialized => registered(m, reply),
        Lifecycle::Stale => registered(forgotten(m), reply),
    }
}

/// What the manager asks of the outside world to make sure of an identity:
/// nothing where the identity is active, and a registration otherwise.
pub open spec fn activation_asked(m: ManagerView, reply: ReplyView) -> Seq<Exchange> {
    match m.lifecycle {
        Lifecycle::Active => Seq::empty(),
        Lifecycle::Uninitialized => registration_asked(m, reply),
        Lifecycle::Stale => registration_asked(forgotten(m), reply),
    }
}

/// The sender's key that a channel is restricted to: an empty key is no
/// key.
pub open spec fn effective_key(server_key: Option<Seq<char>>) -> Option<Seq<char>> {
    match server_key {
        Some(key) => if key.len() == 0 {
            None
        } else {
            Some(key)
        },
        None => None,
    }
}

/// The call that opens a channel.
pub open spec fn subscription_call_of(
    m: ManagerView,
    channel_id: Seq<char>,
    server_key: Option<Seq<char>>,
) -> Option<BridgeCallView> {
    match m.identity {
        Some(identity) => Some(
            BridgeCallView::Subscribe {
                uaid: identity.uaid,
                secret: identity.secret,
                channel_id,
                app_server_key: effective_key(server_key),
            },
        ),
        None => None,
    }
}

/// The record of a new channel.
pub open spec fn new_record(
    channel_id: Seq<char>,
    scope: Seq<char>,
    server_key: Option<Seq<char>>,
    keys: KeyMaterialView,
    endpoint: Seq<char>,
    now: u64,
) -> ChannelRecordView {
    ChannelRecordView {
        channel_id,
        scope,
        endpoint,
        app_server_key: effective_key(server_key),
        private_key: keys.private_key,
        public_key: keys.public_key,
        auth_secret: keys.auth_secret,
        ctime: now,
    }
}

/// What the subscriber is told of a new channel.
pub open spec fn response_of(record: ChannelRecordView) -> SubscriptionResponseView {
    SubscriptionResponseView {
        channel_id: record.channel_id,
        subscription_info: SubscriptionInfoView {
            endpoint: record.endpoint,
            keys: key_info_of(
                KeyMaterialView {
                    private_key: record.private_key,
                    public_key: record.public_key,
                    auth_secret: record.auth_secret,
                },
            ),
        },
    }
}

/// The state and the result once the server has replied to the opening of
/// a channel. Only a successful reply brings a record into the state.
pub open spec fn subscription_completed(
    m: ManagerView,
    channel_id: Seq<char>,
    scope: Seq<char>,
    server_key: Option<Seq<char>>,
    keys: KeyMaterialView,
    reply: ReplyView,
    now: u64,
) -> (ManagerView, Result<SubscriptionResponseView, ErrorView>) {
    if m.identity is None {
        (m, Err(ErrorView::GeneralError(no_identity_message())))
    } else if holds(m.channels, channel_id) {
        (m, Err(ErrorView::AlreadyRegisteredError))
    } else {
        match endpoint_of(reply) {
            Err(error) => (m, Err(error)),
            Ok(endpoint) => {
                let record = new_record(channel_id, scope, server_key, keys, endpoint, now);
                (ManagerView { channels: m.channels.push(record), ..m }, Ok(response_of(record)))
            },
        }
    }
}

/// What the outside world answered in the course of a subscription. An
/// answer is read only where the question was asked.
pub struct SubscribeEvents {
    /// The server's reply to the registration.
    pub registration: ReplyView,
    /// What the entropy source handed back for a channel id.
    pub entropy: Result<Seq<u8>, Seq<char>>,
    /// What key generation handed back.
    pub keys: Result<KeyMaterialView, Seq<char>>,
    /// The server's reply to the opening of the channel.
    pub subscription: ReplyView,
}

/// The channel id of a subscription: the one that was asked for, or a new
/// one where none was.
pub open spec fn subscription_id(channel_id: Seq<char>, entropy: Result<Seq<u8>, Seq<char>>) -> Result<
    Seq<char>,
    ErrorView,
> {
    if channel_id.len() == 0 {
        channel_id_of(entropy)
    } else {
        Ok(channel_id)
    }
}

/// The state and the result of a subscription.
pub open spec fn subscribed(
    m: ManagerView,
    channel_id: Seq<char>,
    scope: Seq<char>,
    server_key: Option<Seq<char>>,
    now: u64,
    events: SubscribeEvents,
) -> (ManagerView, Result<SubscriptionResponseView, ErrorView>) {
    let (active, activation) = activated(m, events.registration);
    match activation {
        Err(error) => (active, Err(error)),
        Ok(_) => match subscription_id(channel_id, events.entropy) {
            Err(error) => (active, Err(error)),
            Ok(id) => if holds(active.channels, id) {
                (active, Err(ErrorView::AlreadyRegisteredError))
            } else {
                match keys_of(events.keys) {
                    Err(error) => (active, Err(error)),
                    Ok(keys) => subscription_completed(
                        active,
                        id,
                        scope,
                        server_key,
                        keys,
                        events.subscription,
                        now,
                    ),
                }
            },
        },
    }
}

/// What a subscription asks of the outside world, in order: a
/// registration, where the identity is not active; entropy, where the
/// caller brought no channel id; key material, unless the channel has a
/// record already; and the opening of the channel by the server. Each is
/// asked only where what was asked before did not fail.
pub open spec fn subscribe_asked(
    m: ManagerView,
    channel_id: Seq<char>,
    server_key: Option<Seq<char>>,
    events: SubscribeEvents,
) -> Seq<Exchange> {
    let (active, activation) = activated(m, events.registration);
    let first = activation_asked(m, events.registration);
    if activation is Err {
        first
    } else {
        let second = if channel_id.len() == 0 {
            first.push(Exchange::Entropy { count: ENTROPY_LENGTH, bytes: events.entropy })
        } else {
            first
        };
        match subscription_id(channel_id, events.entropy) {
            Err(_) => second,
            Ok(id) => if holds(active.channels, id) {
                second
            } else {
                let third = second.push(Exchange::Keys { generated: events.keys });
                match (keys_of(events.keys), subscription_call_of(active, id, server_key)) {
                    (Ok(_), Some(call)) => third.push(
                        Exchange::Call { config: active.config, call, reply: events.subscription },
                    ),
                    _ => third,
                }
            },
        }
    }
}

/// The call that closes a channel, where there is an identity to make it
/// with.
pub open spec fn unsubscribe_call_of(m: ManagerView, channel_id: Seq<char>) -> Option<
    BridgeCallView,
> {
    match m.identity {
        Some(identity) => Some(
            BridgeCallView::Unsubscribe {
                uaid: identity.uaid,
                secret: identity.secret,
                channel_id,
            },
        ),
        None => None,
    }
}

/// The call that closes all channels.
pub open spec fn unsubscribe_all_call_of(m: ManagerView) -> Option<BridgeCallView> {
    match m.identity {
        Some(identity) => Some(
            BridgeCallView::UnsubscribeAll { uaid: identity.uaid, secret: identity.secret },
        ),
        None => None,
    }
}

/// The call that reports the token.
pub open spec fn update_call_of(m: ManagerView) -> Option<BridgeCallView> {
    match (m.identity, m.token) {
        (Some(identity), Some(token)) => Some(
            BridgeCallView::UpdateToken { uaid: identity.uaid, secret: identity.secret, token },
        ),
        _ => None,
    }
}

/// The call that asks for the channels.
pub open spec fn channel_list_call_of(m: ManagerView) -> Option<BridgeCallView> {
    match m.identity {
        Some(identity) => Some(
            BridgeCallView::ChannelList { uaid: identity.uaid, secret: identity.secret },
        ),
        None => None,
    }
}

/// The state and the result once the server has replied to the closing of
/// one channel. Where the server removed the channel or had none, the
/// record is deleted, whether there was one or not, and the result tells
/// whether the server removed anything. A failure leaves the state as it
/// was.
pub open spec fn unsubscribe_completed(m: ManagerView, channel_id: Seq<char>, reply: ReplyView) -> (
    ManagerView,
    Result<bool, ErrorView>,
) {
    match removal_of(reply) {
        Err(error) => (m, Err(error)),
        Ok(removed) => (ManagerView { channels: without(m.channels, channel_id), ..m }, Ok(removed)),
    }
}

/// The state and the result once the server has replied to the closing of
/// all channels.
pub open spec fn unsubscribe_all_completed(m: ManagerView, reply: ReplyView) -> (
    ManagerView,
    Result<bool, ErrorView>,
) {
    match removal_of(reply) {
        Err(error) => (m, Err(error)),
        Ok(removed) => (ManagerView { channels: Seq::empty(), ..m }, Ok(removed)),
    }
}

/// The state and the result of closing all channels. Without an identity
/// there is nothing to close and the server is not asked.
pub open spec fn all_unsubscribed(m: ManagerView, reply: ReplyView) -> (
    ManagerView,
    Result<bool, ErrorView>,
) {
    if m.identity is None {
        (m, Ok(false))
    } else {
        unsubscribe_all_completed(m, reply)
    }
}

/// What the closing of all channels asks of the outside world: the server
/// is called once, where there is an identity to call it with.
pub open spec fn unsubscribe_all_asked(m: ManagerView, reply: ReplyView) -> Seq<Exchange> {
    match unsubscribe_all_call_of(m) {
        Some(call) => seq![Exchange::Call { config: m.config, call, reply }],
        None => Seq::empty(),
    }
}

/// What the closing of a channel asks of the outside world: the server is
/// called once, where there is an identity to call it with.
pub open spec fn unsubscribe_asked(m: ManagerView, channel_id: Seq<char>, reply: ReplyView) -> Seq<
    Exchange,
> {
    if channel_id.len() == 0 {
        unsubscribe_all_asked(m, reply)
    } else {
        match unsubscribe_call_of(m, channel_id) {
            Some(call) => seq![Exchange::Call { config: m.config, call, reply }],
            None => Seq::empty(),
        }
    }
}

/// The state and the result of closing all channels where the caller is
/// not told whether the server removed anything.
pub open spec fn unsubscribed_all(m: ManagerView, reply: ReplyView) -> (
    ManagerView,
    Result<(), ErrorView>,
) {
    let (after, outcome) = all_unsubscribed(m, reply);
    match outcome {
        Ok(_) => (after, Ok(())),
        Err(error) => (after, Err(error)),
    }
}

/// The state and the result of closing a channel. The empty id stands for
/// all channels. Without an identity there is nothing to close and the
/// server is not asked.
pub open spec fn unsubscribed(m: ManagerView, channel_id: Seq<char>, reply: ReplyView) -> (
    ManagerView,
    Result<bool, ErrorView>,
) {
    if channel_id.len() == 0 {
        all_unsubscribed(m, reply)
    } else if m.identity is None {
        (m, Ok(false))
    } else {
        unsubscribe_completed(m, channel_id, reply)
    }
}

/// The state that holds `token` as the native registration token.
pub open spec fn with_token(m: ManagerView, token: Seq<char>) -> ManagerView {
    ManagerView {
        token: Some(token),
        identity: match m.identity {
            Some(identity) => Some(IdentityView { current_token: token, ..identity }),
            None => None,
        },
        ..m
    }
}

/// The state and the result once the server has replied to the report of a
/// token. That the server does not know the identity makes the identity
/// stale and the result `false`; any other failure is handed on.
pub open spec fn update_completed(m: ManagerView, reply: ReplyView) -> (
    ManagerView,
    Result<bool, ErrorView>,
) {
    match token_update_of(reply) {
        Ok(_) => (m, Ok(true)),
        Err(ErrorView::UAIDNotRecognizedError(_)) => if m.identity is Some {
            (ManagerView { lifecycle: Lifecycle::Stale, ..m }, Ok(false))
        } else {
            (m, Ok(false))
        },
        Err(error) => (m, Err(error)),
    }
}

/// The state and the result of an update of the token. The token is held
/// from then on, whatever the server replies. The result tells whether the
/// server took the token: without an identity the server is not asked, and
/// the result is `false`.
pub open spec fn updated(m: ManagerView, token: Seq<char>, reply: ReplyView) -> (
    ManagerView,
    Result<bool, ErrorView>,
) {
    let held = with_token(m, token);
    if m.identity is None {
        (held, Ok(false))
    } else {
        update_completed(held, reply)
    }
}

/// What an update of the token asks of the outside world: the server is
/// told the new token once, where there is an identity to tell it with.
pub open spec fn update_asked(m: ManagerView, token: Seq<char>, reply: ReplyView) -> Seq<Exchange> {
    match update_call_of(with_token(m, token)) {
        Some(call) => seq![Exchange::Call { config: m.config, call, reply }],
        None => Seq::empty(),
    }
}

/// The notices that tell a caller that the channels of the records were
/// lost, in the order of the records.
pub open spec fn notices(list: Seq<ChannelRecordView>) -> Seq<PushSubscriptionChangedView> {
    list.map_values(|record: ChannelRecordView| notice_of(record))
}

/// The state and the result of bringing the records in line with the
/// channels that the server has: the records of channels that the server
/// does not have are deleted and reported; the others stay as they are.
pub open spec fn reconciled(m: ManagerView, remote: Seq<Seq<char>>) -> (
    ManagerView,
    Seq<PushSubscriptionChangedView>,
) {
    (
        ManagerView { channels: kept(m.channels, remote.to_set()), ..m },
        notices(dropped(m.channels, remote.to_set())),
    )
}

/// The state and the result of the recovery from the loss of the identity:
/// identity and records are forgotten, the installation is registered
/// anew, and all channels that had records are reported. `reply` is the
/// server's reply to the registration.
pub open spec fn recovered(m: ManagerView, reply: ReplyView) -> (
    ManagerView,
    Result<Seq<PushSubscriptionChangedView>, ErrorView>,
) {
    let (after, registration) = registered(forgotten(m), reply);
    match registration {
        Ok(_) => (after, Ok(notices(m.channels))),
        Err(error) => (after, Err(error)),
    }
}

/// What a verification of the connection asks of the outside world:
/// nothing without an identity; otherwise the channels of the server,
/// unless the identity is stale already; and one registration, where the
/// identity is lost.
pub open spec fn verify_asked(m: ManagerView, listing: ReplyView, registration: ReplyView) -> Seq<
    Exchange,
> {
    match channel_list_call_of(m) {
        None => Seq::empty(),
        Some(call) => if m.lifecycle == Lifecycle::Stale {
            registration_asked(forgotten(m), registration)
        } else {
            let first = seq![Exchange::Call { config: m.config, call, reply: listing }];
            match channel_list_of(listing) {
                Err(ErrorView::UAIDNotRecognizedError(_)) => first + registration_asked(
                    forgotten(m),
                    registration,
                ),
                _ => first,
            }
        },
    }
}

/// The state and the result of a verification of the connection.
/// `listing` is the server's reply to the question for the channels and
/// `registration` its reply to a new registration, each where the manager
/// asks.
pub open spec fn verified(m: ManagerView, listing: ReplyView, registration: ReplyView) -> (
    ManagerView,
    Result<Seq<PushSubscriptionChangedView>, ErrorView>,
) {
    if m.identity is None {
        (m, Ok(Seq::empty()))
    } else if m.lifecycle == Lifecycle::Stale {
        recovered(m, registration)
    } else {
        match channel_list_of(listing) {
            Ok(remote) => {
                let (after, lost) = reconciled(m, remote);
                (after, Ok(lost))
            },
            Err(ErrorView::UAIDNotRecognizedError(_)) => recovered(m, registration),
            Err(error) => (m, Err(error)),
        }
    }
}

/// A byte as a signed byte: the same eight bits.
pub open spec fn signed_byte(byte: u8) -> i8 {
    if byte < 128 {
        byte as i8
    } else {
        (byte as int - 256) as i8
    }
}

/// Bytes as signed bytes.
pub open spec fn signed(bytes: Seq<u8>) -> Seq<i8> {
    bytes.map_values(|byte: u8| signed_byte(byte))
}

/// What is to be decrypted for a message: the record of its channel and
/// the bytes of its body. There is nothing to decrypt for a channel without
/// a record, which is a `RecordNotFoundError` with the channel id, nor for
/// a body that is not base64, which is a `CryptoError`.
pub open spec fn ciphertext_of(m: ManagerView, channel_id: Seq<char>, body: Seq<char>) -> Result<
    (ChannelRecordView, Seq<u8>),
    ErrorView,
> {
    match find(m.channels, channel_id) {
        None => Err(ErrorView::RecordNotFoundError(channel_id)),
        Some(record) => match base64url::decode_spec(body) {
            None => Err(ErrorView::CryptoError(undecodable_body_message())),
            Some(ciphertext) => Ok((record, ciphertext)),
        },
    }
}

/// The result of decrypting a message. `opened` is what decryption handed
/// back, where the manager asks for it.
pub open spec fn decrypted(
    m: ManagerView,
    channel_id: Seq<char>,
    body: Seq<char>,
    encoding: Seq<char>,
    opened: Result<Seq<u8>, Seq<char>>,
) -> Result<Seq<i8>, ErrorView> {
    match ciphertext_of(m, channel_id, body) {
        Err(error) => Err(error),
        Ok(_) => match opened_of(encoding, opened) {
            Err(error) => Err(error),
            Ok(plaintext) => Ok(signed(plaintext)),
        },
    }
}

/// What the decryption of a message asks of the outside world: where the
/// channel has a record, the body is base64 and the encoding is
/// recognised, the plaintext of the body's bytes in that encoding, under
/// the private key and the secret of the record and with the two headers
/// as they came; and nothing otherwise.
pub open spec fn decrypt_asked(
    m: ManagerView,
    channel_id: Seq<char>,
    body: Seq<char>,
    encoding: Seq<char>,
    salt: Seq<char>,
    dh: Seq<char>,
    opened: Result<Seq<u8>, Seq<char>>,
) -> Seq<Exchange> {
    match (ciphertext_of(m, channel_id, body), encoding_of(encoding)) {
        (Ok((record, ciphertext)), Some(scheme)) => seq![
            Exchange::Decrypt {
                encoding: scheme,
                ciphertext,
                private_key: record.private_key,
                auth_secret: record.auth_secret,
                salt,
                dh,
                opened,
            },
        ],
        _ => Seq::empty(),
    }
}

/// The routing information of a channel, where it has a record.
pub open spec fn dispatch_info_of(m: ManagerView, channel_id: Seq<char>) -> Option<
    DispatchInfoView,
> {
    match find(m.channels, channel_id) {
        Some(record) => Some(dispatch_of(record)),
        None => None,
    }
}

} // verus!
