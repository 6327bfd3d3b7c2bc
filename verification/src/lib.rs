//! A manager of WebPush subscriptions for an application that receives its
//! messages over a native push transport.
//!
//! A bridging server relays WebPush messages to the native transport. This
//! library registers the installation with that server, opens and closes
//! channels, keeps a record of every channel with the keys that open its
//! messages, keeps those records in line with what the server holds, and
//! decrypts the messages that arrive.
//!
//! The server and the encryption scheme are reached through two traits,
//! [`bridge::Transport`] and [`keystore::Cryptography`], which the
//! application implements; the records live in a [`store::RecordStore`],
//! which the application keeps on disk between runs.
//!
//! What the manager does is stated in [`model`] as functions of its state
//! and of the answers of the outside world, and [`laws`] holds what follows
//! for every state and every answer.

pub mod base64url;
pub mod bridge;
pub mod channel_id;
pub mod error;
pub mod host;
pub mod keystore;
pub mod laws;
pub mod manager;
pub mod model;
pub mod store;
pub mod text;
pub mod types;

pub use crate::bridge::{
    BridgeCall, BridgeResponse, PushConfiguration, Registration, Reply, Transport,
};
pub use crate::error::{ErrorKind, PushError};
pub use crate::host::Host;
pub use crate::keystore::{Cryptography, Encoding, KeyMaterial};
pub use crate::manager::PushManager;
pub use crate::model::Lifecycle;
pub use crate::store::{ChannelRecord, Identity, RecordStore, WriteMode};
pub use crate::types::{
    BridgeType, DispatchInfo, KeyInfo, PushSubscriptionChanged, SubscriptionInfo,
    SubscriptionResponse,
};
