//! The values that pass between the manager and its callers.

use vstd::prelude::*;
use vstd::string::*;
use crate::text::optional_text;

verus! {

/// The native push transports that the bridging server can relay to.
#[derive(Clone, Copy, Debug, PartialEq, Eq, Structural)]
pub enum BridgeType {
    /// Firebase Cloud Messaging.
    Fcm,
    /// Amazon Device Messaging.
    Adm,
    /// Apple Push Notification service.
    Apns,
    /// The loopback transport of a test server.
    Test,
}

impl BridgeType {
    /// The name under which the bridging server knows the transport.
    pub open spec fn name(self) -> Seq<char> {
        match self {
            BridgeType::Adm => "adm"@,
            BridgeType::Apns => "apns"@,
            BridgeType::Fcm => "fcm"@,
            BridgeType::Test => "test"@,
        }
    }

    /// The name under which the bridging server knows the transport.
    pub fn as_str(&self) -> (name: &'static str)
        ensures
            name@ == self.name(),
    {
        match self {
            BridgeType::Adm => "adm",
            BridgeType::Apns => "apns",
            BridgeType::Fcm => "fcm",
            BridgeType::Test => "test",
        }
    }

    /// The four names differ, so a name tells the transport.
    pub proof fn law_names_differ(a: BridgeType, b: BridgeType)
        ensures
            a.name() == b.name() <==> a == b,
    {
        reveal_strlit("adm");
        reveal_strlit("apns");
        reveal_strlit("fcm");
        reveal_strlit("test");
        if a != b {
            assert(a.name().len() != b.name().len() || a.name()[0] != b.name()[0]);
        }
    }
}

/// Where messages for a channel are to go: what the caller needs to route
/// an incoming message.
#[derive(Debug, Clone, PartialEq, Eq)]
pub struct DispatchInfo {
    pub scope: String,
    pub endpoint: String,
    pub app_server_key: Option<String>,
}

/// [`DispatchInfo`] as sequences of characters.
pub struct DispatchInfoView {
    pub scope: Seq<char>,
    pub endpoint: Seq<char>,
    pub app_server_key: Option<Seq<char>>,
}

impl View for DispatchInfo {
    type V = DispatchInfoView;

    open spec fn view(&self) -> DispatchInfoView {
        DispatchInfoView {
            scope: self.scope@,
            endpoint: self.endpoint@,
            app_server_key: optional_text(self.app_server_key),
        }
    }
}

/// The key material that a sender needs to encrypt for a channel, each
/// part in unpadded URL-safe base64.
#[derive(Debug, Clone, PartialEq, Eq)]
pub struct KeyInfo {
    pub auth: String,
    pub p256dh: String,
}

/// [`KeyInfo`] as sequences of characters.
pub struct KeyInfoView {
    pub auth: Seq<char>,
    pub p256dh: Seq<char>,
}

impl View for KeyInfo {
    type V = KeyInfoView;

    open spec fn view(&self) -> KeyInfoView {
        KeyInfoView { auth: self.auth@, p256dh: self.p256dh@ }
    }
}

/// The endpoint to send messages to and the keys to encrypt them with.
#[derive(Debug, Clone, PartialEq, Eq)]
pub struct SubscriptionInfo {
    pub endpoint: String,
    pub keys: KeyInfo,
}

/// [`SubscriptionInfo`] as sequences of characters.
pub struct SubscriptionInfoView {
    pub endpoint: Seq<char>,
    pub keys: KeyInfoView,
}

impl View for SubscriptionInfo {
    type V = SubscriptionInfoView;

    open spec fn view(&self) -> SubscriptionInfoView {
        SubscriptionInfoView { endpoint: self.endpoint@, keys: self.keys@ }
    }
}

/// What a successful subscription hands back.
#[derive(Debug, Clone, PartialEq, Eq)]
pub struct SubscriptionResponse {
    pub channel_id: String,
    pub subscription_info: SubscriptionInfo,
}

/// [`SubscriptionResponse`] as sequences of characters.
pub struct SubscriptionResponseView {
    pub channel_id: Seq<char>,
    pub subscription_info: SubscriptionInfoView,
}

impl View for SubscriptionResponse {
    type V = SubscriptionResponseView;

    open spec fn view(&self) -> SubscriptionResponseView {
        SubscriptionResponseView {
            channel_id: self.channel_id@,
            subscription_info: self.subscription_info@,
        }
    }
}

/// A channel whose subscription was lost: the caller should subscribe to it
/// again.
#[derive(Debug, Clone, PartialEq, Eq)]
pub struct PushSubscriptionChanged {
    pub channel_id: String,
    pub scope: String,
}

/// [`PushSubscriptionChanged`] as sequences of characters.
pub struct PushSubscriptionChangedView {
    pub channel_id: Seq<char>,
    pub scope: Seq<char>,
}

impl View for PushSubscriptionChanged {
    type V = PushSubscriptionChangedView;

    open spec fn view(&self) -> PushSubscriptionChangedView {
        PushSubscriptionChangedView { channel_id: self.channel_id@, scope: self.scope@ }
    }
}

/// What a list of lost channels holds.
pub open spec fn changes(list: Seq<PushSubscriptionChanged>) -> Seq<PushSubscriptionChangedView> {
    list.map_values(|c: PushSubscriptionChanged| c@)
}

} // verus!
