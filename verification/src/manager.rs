//! The push manager: subscriptions to channels, kept in line with the
//! bridging server.
//!
//! A manager owns the record store, the way to the server and the
//! cryptographic operations of its host. Every operation needs the manager
//! for itself from beginning to end; who shares a manager among callers
//! puts it behind one lock.
//!
//! Each operation that asks the outside world is written in two parts: a
//! function that takes the answer as an argument and says exactly what
//! becomes of the state for every answer, and the operation itself, which
//! asks and hands the answer on. Every question is entered in a journal
//! with its answer. What an operation promises is stated for the answers
//! that the journal holds: which questions were asked, in which order and
//! with what, and what became of the state and the result for the answers
//! that came.

use vstd::prelude::*;
use vstd::string::*;
use crate::base64url;
use crate::bridge::{
    read_channel_list, read_endpoint, read_registration, read_removal, read_token_update,
    reply_view, BridgeCall, BridgeCallView, PushConfiguration, PushConfigurationView, Reply,
    ReplyView, Transport,
};
use crate::channel_id::ENTROPY_LENGTH;
use crate::error::{outcome_view, result_view, surface, ErrorKind, ErrorView, PushError};
use crate::host::{Exchange, Host};
use crate::keystore;
use crate::keystore::{bytes_view, generated_view, Cryptography, KeyMaterial};
use crate::model::{
    activated, activation_asked, all_unsubscribed, channel_list_call_of, ciphertext_of,
    decrypt_asked, decrypted, dispatch_info_of, effective_key, forgotten, notices, opened,
    reconciled, recovered, registered, registration_asked, registration_call_of, signed,
    subscribe_asked, subscribed, subscription_call_of, subscription_completed, subscription_id,
    unsubscribe_all_asked, unsubscribe_all_call_of, unsubscribe_all_completed, unsubscribe_asked,
    unsubscribe_call_of, unsubscribe_completed, unsubscribed, unsubscribed_all, update_asked,
    update_call_of, update_completed, updated, verified, verify_asked, well_formed, with_token,
    Lifecycle, ManagerView, SubscribeEvents,
};
use crate::store::{
    lemma_without, records, ChannelRecord, ChannelRecordView, Identity, RecordStore, WriteMode,
};
use crate::text::{copy_text, optional_text, same_text, texts};
use crate::types::{
    changes, BridgeType, DispatchInfo, DispatchInfoView, PushSubscriptionChanged,
    PushSubscriptionChangedView, SubscriptionInfo, SubscriptionResponse,
};

verus! {

/// What an optional call holds.
pub open spec fn call_view(call: Option<BridgeCall>) -> Option<BridgeCallView> {
    match call {
        Some(c) => Some(c@),
        None => None,
    }
}

/// What a result with a list of lost channels holds.
pub open spec fn changes_view(result: Result<Vec<PushSubscriptionChanged>, PushError>) -> Result<
    Seq<PushSubscriptionChangedView>,
    ErrorView,
> {
    match result {
        Ok(list) => Ok(changes(list@)),
        Err(error) => Err(error@),
    }
}

/// What a message to decrypt holds.
pub open spec fn message_view(message: Result<(ChannelRecord, Vec<u8>), ErrorKind>) -> Result<
    (ChannelRecordView, Seq<u8>),
    ErrorView,
> {
    match message {
        Ok((record, ciphertext)) => Ok((record@, ciphertext@)),
        Err(error) => Err(error@),
    }
}

/// What optional routing information holds.
pub open spec fn dispatch_view(info: Option<DispatchInfo>) -> Option<DispatchInfoView> {
    match info {
        Some(i) => Some(i@),
        None => None,
    }
}

/// The sender's key that a channel is restricted to: an empty key is no
/// key.
pub fn effective(server_key: &Option<String>) -> (key: Option<String>)
    ensures
        optional_text(key) == effective_key(optional_text(*server_key)),
{
    match server_key {
        Some(k) => if k.as_str().is_empty() {
            None
        } else {
            Some(k.clone())
        },
        None => None,
    }
}

/// The notices for the channels of the records.
pub fn notices_for(list: &Vec<ChannelRecord>) -> (lost: Vec<PushSubscriptionChanged>)
    ensures
        changes(lost@) == notices(records(list@)),
{
    let mut lost: Vec<PushSubscriptionChanged> = Vec::new();
    let mut i: usize = 0;
    while i < list.len()
        invariant
            i <= list@.len(),
            changes(lost@) == notices(records(list@).take(i as int)),
        decreases list@.len() - i,
    {
        let ghost before = lost@;
        lost.push(list[i].lost());
        proof {
            let wanted = notices(records(list@).take(i + 1));
            assert(changes(before).len() == before.len());
            assert forall|k: int| 0 <= k < wanted.len() implies changes(lost@)[k] == wanted[k] by {
                if k < i {
                    assert(lost@[k] == before[k]);
                    assert(changes(before)[k] == notices(records(list@).take(i as int))[k]);
                }
            }
            assert(changes(lost@) =~= wanted);
        }
        i = i + 1;
    }
    assert(records(list@).take(list@.len() as int) =~= records(list@));
    lost
}

/// Bytes as signed bytes, each with the same eight bits.
pub fn to_signed(bytes: &Vec<u8>) -> (out: Vec<i8>)
    ensures
        out@ == signed(bytes@),
{
    let mut out: Vec<i8> = Vec::new();
    let mut i: usize = 0;
    while i < bytes.len()
        invariant
            i <= bytes@.len(),
            out@ == signed(bytes@.take(i as int)),
        decreases bytes@.len() - i,
    {
        let byte: u8 = bytes[i];
        let value: i8 = if byte < 128 {
            byte as i8
        } else {
            (byte as i16 - 256) as i8
        };
        let ghost before = out@;
        out.push(value);
        proof {
            let wanted = signed(bytes@.take(i + 1));
            assert forall|k: int| 0 <= k < wanted.len() implies out@[k] == wanted[k] by {
                if k < i {
                    assert(out@[k] == before[k]);
                    assert(before[k] == signed(bytes@.take(i as int))[k]);
                }
            }
            assert(out@ =~= wanted);
        }
        i = i + 1;
    }
    assert(bytes@.take(bytes@.len() as int) =~= bytes@);
    out
}

/// The manager of an installation's subscriptions.
pub struct PushManager<T: Transport, C: Cryptography> {
    host: Host<T, C>,
    config: PushConfiguration,
    token: Option<String>,
    lifecycle: Lifecycle,
    store: RecordStore,
}

impl<T: Transport, C: Cryptography> View for PushManager<T, C> {
    type V = ManagerView;

    closed spec fn view(&self) -> ManagerView {
        ManagerView {
            config: self.config@,
            token: optional_text(self.token),
            lifecycle: self.lifecycle,
            identity: self.store@.identity,
            channels: self.store@.channels,
        }
    }
}

impl<T: Transport, C: Cryptography> PushManager<T, C> {
    /// Whether the manager's state is in order.
    pub open spec fn wf(&self) -> bool {
        well_formed(self@)
    }

    /// Everything that the manager asked of the outside world so far, with
    /// the answers, in order.
    pub closed spec fn journal(&self) -> Seq<Exchange> {
        self.host.journal()
    }

    /// A manager on the records of `store`, for the server and the
    /// application that the first four arguments name. `registration_id`
    /// is not used: the token is reported with [`PushManager::update`].
    /// A store that does not fit the configuration is refused.
    #[allow(unused_variables)]
    pub fn new(
        sender_id: String,
        server_host: String,
        http_protocol: String,
        bridge_type: BridgeType,
        registration_id: String,
        store: RecordStore,
        transport: T,
        crypto: C,
    ) -> (result: Result<Self, PushError>)
        requires
            store.wf(),
        ensures
            result_view(result) == opened(
                (PushConfigurationView {
                    server_host: server_host@,
                    http_protocol: http_protocol@,
                    bridge_type,
                    sender_id: sender_id@,
                }),
                store@,
            ),
            result matches Ok(manager) ==> manager.wf() && manager.journal() == Seq::<
                Exchange,
            >::empty(),
    {
        let config = PushConfiguration { server_host, http_protocol, bridge_type, sender_id };
        match store.get_identity() {
            Some(identity) => {
                let fits = same_text(
                    identity.sender_id.as_str(),
                    config.sender_id.as_str(),
                ) && identity.bridge_type == config.bridge_type && same_text(
                    identity.server_host.as_str(),
                    config.server_host.as_str(),
                ) && same_text(
                    identity.http_protocol.as_str(),
                    config.http_protocol.as_str(),
                );
                if fits {
                    Ok(
                        PushManager {
                            host: Host::new(transport, crypto),
                            config,
                            token: Some(identity.current_token),
                            lifecycle: Lifecycle::Active,
                            store,
                        },
                    )
                } else {
                    Err(
                        PushError::OpenDatabaseError(
                            "the stored identity belongs to another configuration".to_owned(),
                        ),
                    )
                }
            },
            None => {
                if store.channel_count() == 0 {
                    Ok(
                        PushManager {
                            host: Host::new(transport, crypto),
                            config,
                            token: None,
                            lifecycle: Lifecycle::Uninitialized,
                            store,
                        },
                    )
                } else {
                    Err(
                        PushError::OpenDatabaseError(
                            "the store holds channels without an identity".to_owned(),
                        ),
                    )
                }
            },
        }
    }

    /// The records, for whoever keeps them on disk.
    pub fn store(&self) -> (store: &RecordStore)
        ensures
            store@.identity == self@.identity,
            store@.channels == self@.channels,
    {
        &self.store
    }

    /// Where the installation stands with the server.
    pub fn lifecycle(&self) -> (lifecycle: Lifecycle)
        ensures
            lifecycle == self@.lifecycle,
    {
        self.lifecycle
    }

    /// The call that registers the installation.
    pub fn registration_call(&self) -> (call: Result<BridgeCall, ErrorKind>)
        ensures
            outcome_view(call) == registration_call_of(self@),
    {
        match &self.token {
            Some(token) => Ok(BridgeCall::Register { token: token.clone() }),
            None => Err(ErrorKind::MissingRegistrationTokenError),
        }
    }

    /// The call that opens a channel, where there is an identity to make
    /// it with.
    pub fn subscription_call(&self, channel_id: &str, server_key: &Option<String>) -> (call: Option<
        BridgeCall,
    >)
        ensures
            call_view(call) == subscription_call_of(
                self@,
                channel_id@,
                optional_text(*server_key),
            ),
    {
        match self.store.get_identity() {
            Some(identity) => Some(
                BridgeCall::Subscribe {
                    uaid: identity.uaid,
                    secret: identity.secret,
                    channel_id: copy_text(channel_id),
                    app_server_key: effective(server_key),
                },
            ),
            None => None,
        }
    }

    /// The call that closes a channel, where there is an identity to make
    /// it with.
    pub fn unsubscribe_call(&self, channel_id: &str) -> (call: Option<BridgeCall>)
        ensures
            call_view(call) == unsubscribe_call_of(self@, channel_id@),
    {
        match self.store.get_identity() {
            Some(identity) => Some(
                BridgeCall::Unsubscribe {
                    uaid: identity.uaid,
                    secret: identity.secret,
                    channel_id: copy_text(channel_id),
                },
            ),
            None => None,
        }
    }

    /// The call that closes all channels, where there is an identity to
    /// make it with.
    pub fn unsubscribe_all_call(&self) -> (call: Option<BridgeCall>)
        ensures
            call_view(call) == unsubscribe_all_call_of(self@),
    {
        match self.store.get_identity() {
            Some(identity) => Some(
                BridgeCall::UnsubscribeAll { uaid: identity.uaid, secret: identity.secret },
            ),
            None => None,
        }
    }

    /// The call that reports the token, where there is an identity to make
    /// it with.
    pub fn update_call(&self) -> (call: Option<BridgeCall>)
        ensures
            call_view(call) == update_call_of(self@),
    {
        match self.store.get_identity() {
            Some(identity) => match &self.token {
                Some(token) => Some(
                    BridgeCall::UpdateToken {
                        uaid: identity.uaid,
                        secret: identity.secret,
                        token: token.clone(),
                    },
                ),
                None => None,
            },
            None => None,
        }
    }

    /// The call that asks for the channels, where there is an identity to
    /// make it with.
    pub fn channel_list_call(&self) -> (call: Option<BridgeCall>)
        ensures
            call_view(call) == channel_list_call_of(self@),
    {
        match self.store.get_identity() {
            Some(identity) => Some(
                BridgeCall::ChannelList { uaid: identity.uaid, secret: identity.secret },
            ),
            None => None,
        }
    }

    /// Takes up the identity that a registration brought.
    pub fn complete_registration(&mut self, reply: Reply) -> (outcome: Result<(), ErrorKind>)
        requires
            old(self).wf(),
        ensures
            final(self).wf(),
            final(self).journal() == old(self).journal(),
            (final(self)@, outcome_view(outcome)) == registered(old(self)@, reply_view(reply)),
    {
        let token = match &self.token {
            Some(token) => token.clone(),
            None => {
                return Err(ErrorKind::MissingRegistrationTokenError);
            },
        };
        match read_registration(reply) {
            Err(error) => Err(error),
            Ok(registration) => {
                let identity = Identity {
                    uaid: registration.uaid,
                    secret: registration.secret,
                    current_token: token,
                    sender_id: self.config.sender_id.clone(),
                    bridge_type: self.config.bridge_type,
                    server_host: self.config.server_host.clone(),
                    http_protocol: self.config.http_protocol.clone(),
                };
                self.store.delete_all_channels();
                self.store.put_identity(identity);
                self.lifecycle = Lifecycle::Active;
                Ok(())
            },
        }
    }

    /// Forgets the identity and all records, and returns the notices for
    /// the channels that had records.
    pub fn forget_identity(&mut self) -> (lost: Vec<PushSubscriptionChanged>)
        requires
            old(self).wf(),
        ensures
            final(self).wf(),
            final(self).journal() == old(self).journal(),
            final(self)@ == forgotten(old(self)@),
            changes(lost@) == notices(old(self)@.channels),
    {
        let list = self.store.list_channels();
        let lost = notices_for(&list);
        self.store.delete_all_channels();
        self.store.clear_identity();
        self.lifecycle = Lifecycle::Uninitialized;
        lost
    }

    /// Brings the records in line with the channels that the server has.
    pub fn reconcile(&mut self, remote: &Vec<String>) -> (lost: Vec<PushSubscriptionChanged>)
        requires
            old(self).wf(),
        ensures
            final(self).wf(),
            final(self).journal() == old(self).journal(),
            (final(self)@, changes(lost@)) == reconciled(old(self)@, texts(remote@)),
    {
        proof {
            reveal(Seq::filter);
        }
        let pruned = self.store.prune(remote);
        notices_for(&pruned)
    }

    /// Records a channel once the server has replied to its opening.
    pub fn complete_subscription(
        &mut self,
        channel_id: String,
        scope: &str,
        server_key: &Option<String>,
        keys: KeyMaterial,
        reply: Reply,
        now: u64,
    ) -> (outcome: Result<SubscriptionResponse, ErrorKind>)
        requires
            old(self).wf(),
        ensures
            final(self).wf(),
            final(self).journal() == old(self).journal(),
            (final(self)@, outcome_view(outcome)) == subscription_completed(
                old(self)@,
                channel_id@,
                scope@,
                optional_text(*server_key),
                keys@,
                reply_view(reply),
                now,
            ),
    {
        if !self.store.has_identity() {
            return Err(ErrorKind::GeneralError("no identity".to_owned()));
        }
        if self.store.has_channel(channel_id.as_str()) {
            return Err(ErrorKind::AlreadyRegisteredError);
        }
        match read_endpoint(reply) {
            Err(error) => Err(error),
            Ok(endpoint) => {
                let response = SubscriptionResponse {
                    channel_id: channel_id.clone(),
                    subscription_info: SubscriptionInfo {
                        endpoint: endpoint.clone(),
                        keys: keystore::key_info(&keys),
                    },
                };
                let record = ChannelRecord {
                    channel_id,
                    scope: copy_text(scope),
                    endpoint,
                    app_server_key: effective(server_key),
                    private_key: keys.private_key,
                    public_key: keys.public_key,
                    auth_secret: keys.auth_secret,
                    ctime: now,
                };
                match self.store.put_channel(record, WriteMode::Create) {
                    Ok(_) => Ok(response),
                    Err(error) => Err(error),
                }
            },
        }
    }

    /// Deletes a channel's record once the server has replied to its
    /// closing.
    pub fn complete_unsubscribe(&mut self, channel_id: &str, reply: Reply) -> (outcome: Result<
        bool,
        ErrorKind,
    >)
        requires
            old(self).wf(),
        ensures
            final(self).wf(),
            final(self).journal() == old(self).journal(),
            (final(self)@, outcome_view(outcome)) == unsubscribe_completed(
                old(self)@,
                channel_id@,
                reply_view(reply),
            ),
    {
        match read_removal(reply) {
            Err(error) => Err(error),
            Ok(removed) => {
                proof {
                    lemma_without(self@.channels, channel_id@);
                }
                self.store.delete_channel(channel_id);
                Ok(removed)
            },
        }
    }

    /// Deletes all records once the server has replied to the closing of
    /// all channels.
    pub fn complete_unsubscribe_all(&mut self, reply: Reply) -> (outcome: Result<bool, ErrorKind>)
        requires
            old(self).wf(),
        ensures
            final(self).wf(),
            final(self).journal() == old(self).journal(),
            (final(self)@, outcome_view(outcome)) == unsubscribe_all_completed(
                old(self)@,
                reply_view(reply),
            ),
    {
        match read_removal(reply) {
            Err(error) => Err(error),
            Ok(removed) => {
                self.store.delete_all_channels();
                Ok(removed)
            },
        }
    }

    /// Holds `token` as the native registration token from now on.
    pub fn hold_token(&mut self, token: &str)
        requires
            old(self).wf(),
        ensures
            final(self).wf(),
            final(self).journal() == old(self).journal(),
            final(self)@ == with_token(old(self)@, token@),
    {
        self.token = Some(copy_text(token));
        match self.store.get_identity() {
            Some(identity) => {
                let Identity {
                    uaid,
                    secret,
                    current_token,
                    sender_id,
                    bridge_type,
                    server_host,
                    http_protocol,
                } = identity;
                self.store.put_identity(
                    Identity {
                        uaid,
                        secret,
                        current_token: copy_text(token),
                        sender_id,
                        bridge_type,
                        server_host,
                        http_protocol,
                    },
                );
            },
            None => {},
        }
    }

    /// Takes note of the server's reply to the report of a token.
    pub fn complete_update(&mut self, reply: Reply) -> (outcome: Result<bool, ErrorKind>)
        requires
            old(self).wf(),
        ensures
            final(self).wf(),
            final(self).journal() == old(self).journal(),
            (final(self)@, outcome_view(outcome)) == update_completed(
                old(self)@,
                reply_view(reply),
            ),
    {
        match read_token_update(reply) {
            Ok(_) => Ok(true),
            Err(ErrorKind::UAIDNotRecognizedError(_)) => {
                if self.store.has_identity() {
                    self.lifecycle = Lifecycle::Stale;
                }
                Ok(false)
            },
            Err(error) => Err(error),
        }
    }

    /// Finds what is to be decrypted for a message.
    pub fn read_message(&self, channel_id: &str, body: &str) -> (message: Result<
        (ChannelRecord, Vec<u8>),
        ErrorKind,
    >)
        requires
            self.wf(),
        ensures
            message_view(message) == ciphertext_of(self@, channel_id@, body@),
    {
        let record = match self.store.get_channel(channel_id) {
            Some(record) => record,
            None => {
                return Err(ErrorKind::RecordNotFoundError(copy_text(channel_id)));
            },
        };
        match base64url::decode(body) {
            Some(ciphertext) => Ok((record, ciphertext)),
            None => Err(ErrorKind::CryptoError("the body is not base64url".to_owned())),
        }
    }

    /// Registers the installation.
    fn register(&mut self) -> (outcome: Result<(), ErrorKind>)
        requires
            old(self).wf(),
        ensures
            final(self).wf(),
            exists|reply: ReplyView|
                (final(self)@, outcome_view(outcome)) == #[trigger] registered(old(self)@, reply)
                    && final(self).journal() == old(self).journal() + registration_asked(
                    old(self)@,
                    reply,
                ),
    {
        let call = match self.registration_call() {
            Ok(call) => call,
            Err(error) => {
                proof {
                    let reply: ReplyView = Err(Seq::empty());
                    assert((self@, outcome_view(Err::<(), ErrorKind>(error))) == registered(
                        old(self)@,
                        reply,
                    ));
                    assert(self.journal() =~= old(self).journal() + registration_asked(
                        old(self)@,
                        reply,
                    ));
                }
                return Err(error);
            },
        };
        let reply = self.host.round_trip(&self.config, &call);
        let ghost answer = reply_view(reply);
        let outcome = self.complete_registration(reply);
        proof {
            assert((self@, outcome_view(outcome)) == registered(old(self)@, answer));
            assert(self.journal() =~= old(self).journal() + registration_asked(old(self)@, answer));
        }
        outcome
    }

    /// Makes sure of an identity that the server knows.
    fn ensure_active(&mut self) -> (outcome: Result<(), ErrorKind>)
        requires
            old(self).wf(),
        ensures
            final(self).wf(),
            exists|reply: ReplyView|
                (final(self)@, outcome_view(outcome)) == #[trigger] activated(old(self)@, reply)
                    && final(self).journal() == old(self).journal() + activation_asked(
                    old(self)@,
                    reply,
                ),
    {
        match self.lifecycle {
            Lifecycle::Active => {
                proof {
                    let reply: ReplyView = Err(Seq::empty());
                    assert((self@, outcome_view(Ok::<(), ErrorKind>(()))) == activated(
                        old(self)@,
                        reply,
                    ));
                    assert(self.journal() =~= old(self).journal() + activation_asked(
                        old(self)@,
                        reply,
                    ));
                }
                Ok(())
            },
            Lifecycle::Uninitialized => {
                let outcome = self.register();
                proof {
                    let reply = choose|reply: ReplyView|
                        (self@, outcome_view(outcome)) == #[trigger] registered(old(self)@, reply)
                            && self.journal() == old(self).journal() + registration_asked(
                            old(self)@,
                            reply,
                        );
                    assert((self@, outcome_view(outcome)) == activated(old(self)@, reply));
                }
                outcome
            },
            Lifecycle::Stale => {
                self.forget_identity();
                let ghost cleared = self@;
                let outcome = self.register();
                proof {
                    let reply = choose|reply: ReplyView|
                        (self@, outcome_view(outcome)) == #[trigger] registered(cleared, reply)
                            && self.journal() == old(self).journal() + registration_asked(
                            cleared,
                            reply,
                        );
                    assert((self@, outcome_view(outcome)) == activated(old(self)@, reply));
                }
                outcome
            },
        }
    }

    /// Subscribes to a channel. `channel_id` names the channel; where it
    /// is empty, the manager makes up an id. `scope` is kept with the
    /// channel. `server_key`, unless empty, restricts the channel to one
    /// sender. `now` is the time, in seconds since the epoch.
    ///
    /// The manager first makes sure of an identity that the server knows,
    /// and registers where it has none or a stale one. A channel that has
    /// a record already is refused with `AlreadyRegisteredError`. Then
    /// the manager has keys generated and asks the server to open the
    /// channel; only when the server has done so is the record stored.
    pub fn subscribe(
        &mut self,
        channel_id: &str,
        scope: &str,
        server_key: &Option<String>,
        now: u64,
    ) -> (result: Result<SubscriptionResponse, PushError>)
        requires
            old(self).wf(),
        ensures
            final(self).wf(),
            exists|events: SubscribeEvents|
                (final(self)@, result_view(result)) == #[trigger] subscribed(
                    old(self)@,
                    channel_id@,
                    scope@,
                    optional_text(*server_key),
                    now,
                    events,
                ) && final(self).journal() == old(self).journal() + subscribe_asked(
                    old(self)@,
                    channel_id@,
                    optional_text(*server_key),
                    events,
                ),
    {
        let ghost mut events = SubscribeEvents {
            registration: Err(Seq::empty()),
            entropy: Err(Seq::empty()),
            keys: Err(Seq::empty()),
            subscription: Err(Seq::empty()),
        };
        let ghost key = optional_text(*server_key);
        let ghost before = self@;
        let ghost begun = self.journal();
        let activation = self.ensure_active();
        proof {
            let reply = choose|reply: ReplyView|
                (self@, outcome_view(activation)) == #[trigger] activated(before, reply)
                    && self.journal() == begun + activation_asked(before, reply);
            events = SubscribeEvents { registration: reply, ..events };
        }
        if let Err(error) = activation {
            let result = Err(surface(error));
            proof {
                assert((self@, result_view(result)) == subscribed(
                    before,
                    channel_id@,
                    scope@,
                    key,
                    now,
                    events,
                ));
                assert(self.journal() =~= begun + subscribe_asked(before, channel_id@, key, events));
            }
            return result;
        }
        let made = if channel_id.is_empty() {
            let entropy = self.host.random_bytes(ENTROPY_LENGTH);
            proof {
                events = SubscribeEvents { entropy: bytes_view(entropy), ..events };
            }
            keystore::accept_entropy(entropy)
        } else {
            Ok(copy_text(channel_id))
        };
        assert(outcome_view(made) == subscription_id(channel_id@, events.entropy));
        let id = match made {
            Ok(id) => id,
            Err(error) => {
                let result = Err(surface(error));
                proof {
                    assert((self@, result_view(result)) == subscribed(
                        before,
                        channel_id@,
                        scope@,
                        key,
                        now,
                        events,
                    ));
                    assert(self.journal() =~= begun + subscribe_asked(
                        before,
                        channel_id@,
                        key,
                        events,
                    ));
                }
                return result;
            },
        };
        if self.store.has_channel(id.as_str()) {
            let result = Err(PushError::AlreadyRegisteredError);
            proof {
                assert((self@, result_view(result)) == subscribed(
                    before,
                    channel_id@,
                    scope@,
                    key,
                    now,
                    events,
                ));
                assert(self.journal() =~= begun + subscribe_asked(before, channel_id@, key, events));
            }
            return result;
        }
        let generated = self.host.generate_keys();
        proof {
            events = SubscribeEvents { keys: generated_view(generated), ..events };
        }
        let keys = match keystore::accept_keys(generated) {
            Ok(keys) => keys,
            Err(error) => {
                let result = Err(surface(error));
                proof {
                    assert((self@, result_view(result)) == subscribed(
                        before,
                        channel_id@,
                        scope@,
                        key,
                        now,
                        events,
                    ));
                    assert(self.journal() =~= begun + subscribe_asked(
                        before,
                        channel_id@,
                        key,
                        events,
                    ));
                }
                return result;
            },
        };
        let call = match self.subscription_call(id.as_str(), server_key) {
            Some(call) => call,
            None => {
                assert(false);
                vstd::pervasive::unreached()
            },
        };
        let reply = self.host.round_trip(&self.config, &call);
        proof {
            events = SubscribeEvents { subscription: reply_view(reply), ..events };
        }
        let outcome = self.complete_subscription(id, scope, server_key, keys, reply, now);
        let result = match outcome {
            Ok(response) => Ok(response),
            Err(error) => Err(surface(error)),
        };
        proof {
            assert((self@, result_view(result)) == subscribed(
                before,
                channel_id@,
                scope@,
                key,
                now,
                events,
            ));
            assert(self.journal() =~= begun + subscribe_asked(before, channel_id@, key, events));
        }
        result
    }

    /// Closes all channels and tells whether the server removed anything.
    fn close_all(&mut self) -> (outcome: Result<bool, ErrorKind>)
        requires
            old(self).wf(),
        ensures
            final(self).wf(),
            exists|reply: ReplyView|
                (final(self)@, outcome_view(outcome)) == #[trigger] all_unsubscribed(
                    old(self)@,
                    reply,
                ) && final(self).journal() == old(self).journal() + unsubscribe_all_asked(
                    old(self)@,
                    reply,
                ),
    {
        let call = match self.unsubscribe_all_call() {
            Some(call) => call,
            None => {
                proof {
                    let reply: ReplyView = Err(Seq::empty());
                    assert((self@, outcome_view(Ok::<bool, ErrorKind>(false))) == all_unsubscribed(
                        old(self)@,
                        reply,
                    ));
                    assert(self.journal() =~= old(self).journal() + unsubscribe_all_asked(
                        old(self)@,
                        reply,
                    ));
                }
                return Ok(false);
            },
        };
        let reply = self.host.round_trip(&self.config, &call);
        let ghost answer = reply_view(reply);
        let outcome = self.complete_unsubscribe_all(reply);
        proof {
            assert((self@, outcome_view(outcome)) == all_unsubscribed(old(self)@, answer));
            assert(self.journal() =~= old(self).journal() + unsubscribe_all_asked(
                old(self)@,
                answer,
            ));
        }
        outcome
    }

    /// Unsubscribes from a channel; the empty id stands for all channels.
    /// The server is asked to close the channel. Where it does, or has no
    /// such channel, the record is deleted, whether there was one or not,
    /// and the result tells whether the server removed anything. Where
    /// the call fails, the records stay as they were. Without an identity
    /// there is nothing to close: the result is `false`.
    pub fn unsubscribe(&mut self, channel_id: &str) -> (result: Result<bool, PushError>)
        requires
            old(self).wf(),
        ensures
            final(self).wf(),
            exists|reply: ReplyView|
                (final(self)@, result_view(result)) == #[trigger] unsubscribed(
                    old(self)@,
                    channel_id@,
                    reply,
                ) && final(self).journal() == old(self).journal() + unsubscribe_asked(
                    old(self)@,
                    channel_id@,
                    reply,
                ),
    {
        if channel_id.is_empty() {
            let outcome = self.close_all();
            let result = match outcome {
                Ok(removed) => Ok(removed),
                Err(error) => Err(surface(error)),
            };
            proof {
                let reply = choose|reply: ReplyView|
                    (self@, outcome_view(outcome)) == #[trigger] all_unsubscribed(
                        old(self)@,
                        reply,
                    ) && self.journal() == old(self).journal() + unsubscribe_all_asked(
                        old(self)@,
                        reply,
                    );
                assert((self@, result_view(result)) == unsubscribed(
                    old(self)@,
                    channel_id@,
                    reply,
                ));
            }
            return result;
        }
        let call = match self.unsubscribe_call(channel_id) {
            Some(call) => call,
            None => {
                proof {
                    let reply: ReplyView = Err(Seq::empty());
                    assert((self@, result_view(Ok::<bool, PushError>(false))) == unsubscribed(
                        old(self)@,
                        channel_id@,
                        reply,
                    ));
                    assert(self.journal() =~= old(self).journal() + unsubscribe_asked(
                        old(self)@,
                        channel_id@,
                        reply,
                    ));
                }
                return Ok(false);
            },
        };
        let reply = self.host.round_trip(&self.config, &call);
        let ghost answer = reply_view(reply);
        let outcome = self.complete_unsubscribe(channel_id, reply);
        let result = match outcome {
            Ok(removed) => Ok(removed),
            Err(error) => Err(surface(error)),
        };
        proof {
            assert((self@, result_view(result)) == unsubscribed(old(self)@, channel_id@, answer));
            assert(self.journal() =~= old(self).journal() + unsubscribe_asked(
                old(self)@,
                channel_id@,
                answer,
            ));
        }
        result
    }

    /// Unsubscribes from all channels. The server is asked to close them
    /// all. Where it does, or has none, all records are deleted. Where the
    /// call fails, the records stay as they were.
    pub fn unsubscribe_all(&mut self) -> (result: Result<(), PushError>)
        requires
            old(self).wf(),
        ensures
            final(self).wf(),
            exists|reply: ReplyView|
                (final(self)@, result_view(result)) == #[trigger] unsubscribed_all(
                    old(self)@,
                    reply,
                ) && final(self).journal() == old(self).journal() + unsubscribe_all_asked(
                    old(self)@,
                    reply,
                ),
    {
        let outcome = self.close_all();
        let result = match outcome {
            Ok(_) => Ok(()),
            Err(error) => Err(surface(error)),
        };
        proof {
            let reply = choose|reply: ReplyView|
                (self@, outcome_view(outcome)) == #[trigger] all_unsubscribed(old(self)@, reply)
                    && self.journal() == old(self).journal() + unsubscribe_all_asked(
                    old(self)@,
                    reply,
                );
            assert((self@, result_view(result)) == unsubscribed_all(old(self)@, reply));
        }
        result
    }

    /// Reports a new native registration token. The token is held from
    /// then on, and the result tells whether the server took it. With an
    /// identity, the server is told; where it does not know the identity,
    /// the identity is stale from then on and the result is `false`: the
    /// caller should verify the connection. Any other failure is handed
    /// on. Without an identity the server is not told, and the result is
    /// `false`: the token goes to the server with the registration.
    pub fn update(&mut self, new_token: &str) -> (result: Result<bool, PushError>)
        requires
            old(self).wf(),
        ensures
            final(self).wf(),
            exists|reply: ReplyView|
                (final(self)@, result_view(result)) == #[trigger] updated(
                    old(self)@,
                    new_token@,
                    reply,
                ) && final(self).journal() == old(self).journal() + update_asked(
                    old(self)@,
                    new_token@,
                    reply,
                ),
    {
        self.hold_token(new_token);
        let call = match self.update_call() {
            Some(call) => call,
            None => {
                proof {
                    let reply: ReplyView = Err(Seq::empty());
                    assert((self@, result_view(Ok::<bool, PushError>(false))) == updated(
                        old(self)@,
                        new_token@,
                        reply,
                    ));
                    assert(self.journal() =~= old(self).journal() + update_asked(
                        old(self)@,
                        new_token@,
                        reply,
                    ));
                }
                return Ok(false);
            },
        };
        let reply = self.host.round_trip(&self.config, &call);
        let ghost answer = reply_view(reply);
        let outcome = self.complete_update(reply);
        let result = match outcome {
            Ok(told) => Ok(told),
            Err(error) => Err(surface(error)),
        };
        proof {
            assert((self@, result_view(result)) == updated(old(self)@, new_token@, answer));
            assert(self.journal() =~= old(self).journal() + update_asked(
                old(self)@,
                new_token@,
                answer,
            ));
        }
        result
    }

    /// Recovers from the loss of the identity.
    fn recover(&mut self) -> (result: Result<Vec<PushSubscriptionChanged>, PushError>)
        requires
            old(self).wf(),
        ensures
            final(self).wf(),
            exists|reply: ReplyView|
                (final(self)@, changes_view(result)) == #[trigger] recovered(old(self)@, reply)
                    && final(self).journal() == old(self).journal() + registration_asked(
                    forgotten(old(self)@),
                    reply,
                ),
    {
        let lost = self.forget_identity();
        let ghost cleared = self@;
        let outcome = self.register();
        let result = match outcome {
            Ok(_) => Ok(lost),
            Err(error) => Err(surface(error)),
        };
        proof {
            let reply = choose|reply: ReplyView|
                (self@, outcome_view(outcome)) == #[trigger] registered(cleared, reply)
                    && self.journal() == old(self).journal() + registration_asked(cleared, reply);
            assert((self@, changes_view(result)) == recovered(old(self)@, reply));
        }
        result
    }

    /// Verifies the connection: brings the records in line with the
    /// server, and returns the channels that the caller should subscribe
    /// to again. An empty list means that the two agree.
    ///
    /// Without an identity there is nothing to verify. Otherwise the server
    /// is asked for its channels. Records of channels that it does not have
    /// are deleted and reported; channels that it has and the manager does
    /// not are left alone. Where the server does not know the identity, or
    /// the identity is stale already, identity and records are forgotten,
    /// the installation is registered anew, and all channels that had
    /// records are reported.
    pub fn verify_connection(&mut self) -> (result: Result<Vec<PushSubscriptionChanged>, PushError>)
        requires
            old(self).wf(),
        ensures
            final(self).wf(),
            exists|listing: ReplyView, registration: ReplyView|
                (final(self)@, changes_view(result)) == #[trigger] verified(
                    old(self)@,
                    listing,
                    registration,
                ) && final(self).journal() == old(self).journal() + verify_asked(
                    old(self)@,
                    listing,
                    registration,
                ),
    {
        let ghost none: ReplyView = Err(Seq::empty());
        let call = match self.channel_list_call() {
            Some(call) => call,
            None => {
                let result = Ok(Vec::new());
                proof {
                    assert(changes(Seq::<PushSubscriptionChanged>::empty()) =~= Seq::empty());
                    assert((self@, changes_view(result)) == verified(old(self)@, none, none));
                    assert(self.journal() =~= old(self).journal() + verify_asked(
                        old(self)@,
                        none,
                        none,
                    ));
                }
                return result;
            },
        };
        let ghost mut listing: ReplyView = none;
        if self.lifecycle != Lifecycle::Stale {
            let reply = self.host.round_trip(&self.config, &call);
            proof {
                listing = reply_view(reply);
            }
            match read_channel_list(reply) {
                Ok(remote) => {
                    let lost = self.reconcile(&remote);
                    let result = Ok(lost);
                    proof {
                        assert((self@, changes_view(result)) == verified(
                            old(self)@,
                            listing,
                            none,
                        ));
                        assert(self.journal() =~= old(self).journal() + verify_asked(
                            old(self)@,
                            listing,
                            none,
                        ));
                    }
                    return result;
                },
                Err(ErrorKind::UAIDNotRecognizedError(_)) => {},
                Err(error) => {
                    let result = Err(surface(error));
                    proof {
                        assert((self@, changes_view(result)) == verified(
                            old(self)@,
                            listing,
                            none,
                        ));
                        assert(self.journal() =~= old(self).journal() + verify_asked(
                            old(self)@,
                            listing,
                            none,
                        ));
                    }
                    return result;
                },
            }
        }
        let ghost asked = self.journal();
        let result = self.recover();
        proof {
            let registration = choose|reply: ReplyView|
                (self@, changes_view(result)) == #[trigger] recovered(old(self)@, reply)
                    && self.journal() == asked + registration_asked(forgotten(old(self)@), reply);
            assert((self@, changes_view(result)) == verified(old(self)@, listing, registration));
            assert(self.journal() =~= old(self).journal() + verify_asked(
                old(self)@,
                listing,
                registration,
            ));
        }
        result
    }

    /// Decrypts a message. `channel_id` names the channel that the
    /// message came for, `body` is the message in base64, `encoding` its
    /// content encoding, and `salt` and `dh` are the headers of the older
    /// encoding, empty where the message has none.
    ///
    /// A channel without a record is a `RecordNotFoundError` with the
    /// channel id. A body that is not base64, an encoding that is not
    /// recognised and a failure of the decryption are a `CryptoError`.
    /// The plaintext comes back as signed bytes. The records stay as they
    /// are.
    pub fn decrypt(&mut self, channel_id: &str, body: &str, encoding: &str, salt: &str, dh: &str) -> (result:
        Result<Vec<i8>, PushError>)
        requires
            old(self).wf(),
        ensures
            final(self)@ == old(self)@,
            exists|opened: Result<Seq<u8>, Seq<char>>|
                result_view(result) == #[trigger] decrypted(
                    old(self)@,
                    channel_id@,
                    body@,
                    encoding@,
                    opened,
                ) && final(self).journal() == old(self).journal() + decrypt_asked(
                    old(self)@,
                    channel_id@,
                    body@,
                    encoding@,
                    salt@,
                    dh@,
                    opened,
                ),
    {
        let ghost none: Result<Seq<u8>, Seq<char>> = Err(Seq::empty());
        let (record, ciphertext) = match self.read_message(channel_id, body) {
            Ok(message) => message,
            Err(error) => {
                let result = Err(surface(error));
                proof {
                    assert(result_view(result) == decrypted(
                        self@,
                        channel_id@,
                        body@,
                        encoding@,
                        none,
                    ));
                    assert(self.journal() =~= old(self).journal() + decrypt_asked(
                        self@,
                        channel_id@,
                        body@,
                        encoding@,
                        salt@,
                        dh@,
                        none,
                    ));
                }
                return result;
            },
        };
        let scheme = match keystore::parse_encoding(encoding) {
            Some(scheme) => scheme,
            None => {
                let result = Err(PushError::CryptoError("unknown content encoding".to_owned()));
                proof {
                    assert(result_view(result) == decrypted(
                        self@,
                        channel_id@,
                        body@,
                        encoding@,
                        none,
                    ));
                    assert(self.journal() =~= old(self).journal() + decrypt_asked(
                        self@,
                        channel_id@,
                        body@,
                        encoding@,
                        salt@,
                        dh@,
                        none,
                    ));
                }
                return result;
            },
        };
        let opened = self.host.decrypt(
            scheme,
            &ciphertext,
            &record.private_key,
            &record.auth_secret,
            salt,
            dh,
        );
        let ghost handed = bytes_view(opened);
        let result = match keystore::accept_plaintext(opened) {
            Ok(plaintext) => Ok(to_signed(&plaintext)),
            Err(error) => Err(surface(error)),
        };
        proof {
            assert(result_view(result) == decrypted(
                old(self)@,
                channel_id@,
                body@,
                encoding@,
                handed,
            ));
            assert(self.journal() =~= old(self).journal() + decrypt_asked(
                old(self)@,
                channel_id@,
                body@,
                encoding@,
                salt@,
                dh@,
                handed,
            ));
        }
        result
    }

    /// The routing information of a channel: `None`, and no failure, where
    /// the channel has no record.
    pub fn dispatch_info_for_chid(&self, channel_id: &str) -> (result: Result<
        Option<DispatchInfo>,
        PushError,
    >)
        requires
            self.wf(),
        ensures
            result matches Ok(info) && dispatch_view(info) == dispatch_info_of(self@, channel_id@),
    {
        match self.store.get_channel(channel_id) {
            Some(record) => Ok(Some(record.dispatch_info())),
            None => Ok(None),
        }
    }
}

} // verus!
