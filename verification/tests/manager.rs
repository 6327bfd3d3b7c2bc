use std::cell::RefCell;
use std::collections::VecDeque;
use std::rc::Rc;

use push::bridge::{BridgeCall, BridgeResponse, PushConfiguration, Reply, Transport};
use push::error::PushError;
use push::keystore::{Cryptography, Encoding, KeyMaterial};
use push::manager::{effective, notices_for, to_signed, PushManager};
use push::model::Lifecycle;
use push::store::{ChannelRecord, Identity, RecordStore, WriteMode};
use push::types::{
    BridgeType, DispatchInfo, KeyInfo, PushSubscriptionChanged, SubscriptionInfo,
    SubscriptionResponse,
};

/// A bridging server in memory. It answers as a server would, unless
/// answers are scripted, which are then given in their order.
struct Server {
    calls: Vec<BridgeCall>,
    configs: Vec<PushConfiguration>,
    identities: Vec<(String, String, String)>,
    channels: Vec<(String, String)>,
    registrations: u32,
    script: VecDeque<Reply>,
}

impl Server {
    fn new() -> Rc<RefCell<Server>> {
        Rc::new(RefCell::new(Server {
            calls: Vec::new(),
            configs: Vec::new(),
            identities: Vec::new(),
            channels: Vec::new(),
            registrations: 0,
            script: VecDeque::new(),
        }))
    }

    fn knows(&self, uaid: &str, secret: &str) -> bool {
        self.identities.iter().any(|(u, s, _)| u == uaid && s == secret)
    }

    fn answer(&mut self, call: &BridgeCall) -> Reply {
        match call {
            BridgeCall::Register { token } => {
                self.registrations += 1;
                let uaid = format!("uaid-{}", self.registrations);
                let secret = format!("secret-{}", self.registrations);
                self.identities.push((uaid.clone(), secret.clone(), token.clone()));
                let mut response = answer(200, "registered");
                response.uaid = Some(uaid);
                response.secret = Some(secret);
                Ok(response)
            }
            BridgeCall::Subscribe { uaid, secret, channel_id, app_server_key: _ } => {
                if !self.knows(uaid, secret) {
                    return Ok(answer(410, "no such uaid"));
                }
                self.channels.push((uaid.clone(), channel_id.clone()));
                let mut response = answer(200, "subscribed");
                response.endpoint = Some(format!("https://push.example/{}/{}", uaid, channel_id));
                Ok(response)
            }
            BridgeCall::Unsubscribe { uaid, secret, channel_id } => {
                if !self.knows(uaid, secret) {
                    return Ok(answer(410, "no such uaid"));
                }
                let before = self.channels.len();
                self.channels.retain(|(u, c)| !(u == uaid && c == channel_id));
                if self.channels.len() < before {
                    Ok(answer(200, "unsubscribed"))
                } else {
                    Ok(answer(404, "no such channel"))
                }
            }
            BridgeCall::UnsubscribeAll { uaid, secret } => {
                if !self.knows(uaid, secret) {
                    return Ok(answer(410, "no such uaid"));
                }
                self.channels.retain(|(u, _)| u != uaid);
                Ok(answer(200, "unsubscribed"))
            }
            BridgeCall::UpdateToken { uaid, secret, token } => {
                if !self.knows(uaid, secret) {
                    return Ok(answer(410, "no such uaid"));
                }
                for identity in self.identities.iter_mut() {
                    if &identity.0 == uaid {
                        identity.2 = token.clone();
                    }
                }
                Ok(answer(200, "updated"))
            }
            BridgeCall::ChannelList { uaid, secret } => {
                if !self.knows(uaid, secret) {
                    return Ok(answer(410, "no such uaid"));
                }
                let mut response = answer(200, "listed");
                response.channel_ids = Some(
                    self.channels.iter().filter(|(u, _)| u == uaid).map(|(_, c)| c.clone()).collect(),
                );
                Ok(response)
            }
        }
    }

    /// The server loses everything it knew.
    fn forget_everything(&mut self) {
        self.identities.clear();
        self.channels.clear();
    }
}

fn answer(status: u16, body: &str) -> BridgeResponse {
    BridgeResponse {
        status,
        body: body.to_string(),
        uaid: None,
        secret: None,
        endpoint: None,
        channel_ids: None,
    }
}

struct Wire {
    server: Rc<RefCell<Server>>,
}

impl Transport for Wire {
    fn round_trip(&mut self, config: &PushConfiguration, call: &BridgeCall) -> Reply {
        let mut server = self.server.borrow_mut();
        server.calls.push(call.clone());
        server.configs.push(config.clone());
        match server.script.pop_front() {
            Some(reply) => reply,
            None => server.answer(call),
        }
    }
}

/// Keys and entropy by count, and a cipher that is easy to follow: the
/// plaintext is XORed with the first byte of the secret, and a last byte
/// holds the sum of the plaintext XORed with the first byte of the private
/// key. The older encoding insists on its two headers.
struct Cipher {
    keys_made: u8,
    entropy_made: u8,
    fail_keys: Option<String>,
    fail_entropy: Option<String>,
    short_entropy: bool,
}

impl Cipher {
    fn new() -> Cipher {
        Cipher {
            keys_made: 0,
            entropy_made: 0,
            fail_keys: None,
            fail_entropy: None,
            short_entropy: false,
        }
    }
}

fn keys_number(n: u8) -> KeyMaterial {
    KeyMaterial {
        private_key: vec![n, 1, 2, 3],
        public_key: vec![n, 9, 9],
        auth_secret: vec![n; 16],
    }
}

fn seal(plaintext: &[u8], keys: &KeyMaterial) -> Vec<u8> {
    let mut sum: u8 = 0;
    let mut out: Vec<u8> = Vec::new();
    for b in plaintext {
        sum = sum.wrapping_add(*b);
        out.push(*b ^ keys.auth_secret[0]);
    }
    out.push(sum ^ keys.private_key[0]);
    out
}

impl Cryptography for Cipher {
    fn generate_keys(&mut self) -> Result<KeyMaterial, String> {
        if let Some(why) = &self.fail_keys {
            return Err(why.clone());
        }
        self.keys_made += 1;
        Ok(keys_number(self.keys_made))
    }

    fn random_bytes(&mut self, count: usize) -> Result<Vec<u8>, String> {
        if let Some(why) = &self.fail_entropy {
            return Err(why.clone());
        }
        self.entropy_made += 1;
        if self.short_entropy {
            return Ok(vec![self.entropy_made; count - 1]);
        }
        Ok(vec![self.entropy_made; count])
    }

    fn decrypt(
        &mut self,
        encoding: Encoding,
        ciphertext: &Vec<u8>,
        private_key: &Vec<u8>,
        auth_secret: &Vec<u8>,
        salt: &str,
        dh: &str,
    ) -> Result<Vec<u8>, String> {
        if encoding == Encoding::AesGcm && (salt.is_empty() || dh.is_empty()) {
            return Err("headers missing".to_string());
        }
        let (tag, body) = match ciphertext.split_last() {
            Some(parts) => parts,
            None => return Err("empty".to_string()),
        };
        let mut sum: u8 = 0;
        let mut out: Vec<u8> = Vec::new();
        for b in body {
            let p = *b ^ auth_secret[0];
            sum = sum.wrapping_add(p);
            out.push(p);
        }
        if sum ^ private_key[0] != *tag {
            return Err("tag mismatch".to_string());
        }
        Ok(out)
    }
}

type Manager = PushManager<Wire, Cipher>;

fn open_with(server: &Rc<RefCell<Server>>, store: RecordStore, cipher: Cipher) -> Result<Manager, PushError> {
    PushManager::new(
        "app".to_string(),
        "push.example".to_string(),
        "https".to_string(),
        BridgeType::Fcm,
        "ignored".to_string(),
        store,
        Wire { server: server.clone() },
        cipher,
    )
}

fn open(server: &Rc<RefCell<Server>>) -> Manager {
    open_with(server, RecordStore::new(), Cipher::new()).unwrap()
}

/// A manager that has reported its token.
fn ready(server: &Rc<RefCell<Server>>) -> Manager {
    let mut manager = open(server);
    assert_eq!(manager.update("token-1"), Ok(false));
    manager
}

fn changed(id: &str, scope: &str) -> PushSubscriptionChanged {
    PushSubscriptionChanged { channel_id: id.to_string(), scope: scope.to_string() }
}

fn ids(manager: &Manager) -> Vec<String> {
    manager.store().list_channels().into_iter().map(|r| r.channel_id).collect()
}

fn stored_identity() -> Identity {
    Identity {
        uaid: "uaid-7".to_string(),
        secret: "secret-7".to_string(),
        current_token: "token-7".to_string(),
        sender_id: "app".to_string(),
        bridge_type: BridgeType::Fcm,
        server_host: "push.example".to_string(),
        http_protocol: "https".to_string(),
    }
}

fn stored_record(id: &str) -> ChannelRecord {
    ChannelRecord {
        channel_id: id.to_string(),
        scope: format!("scope-{}", id),
        endpoint: format!("https://push.example/uaid-7/{}", id),
        app_server_key: None,
        private_key: vec![5, 1, 2, 3],
        public_key: vec![5, 9, 9],
        auth_secret: vec![5; 16],
        ctime: 1,
    }
}

#[test]
fn new_manager_on_an_empty_store_has_no_identity() {
    let server = Server::new();
    let manager = open(&server);
    assert_eq!(manager.lifecycle(), Lifecycle::Uninitialized);
    assert_eq!(manager.store().get_identity(), None);
    assert_eq!(manager.store().channel_count(), 0);
    assert!(server.borrow().calls.is_empty());
    assert_eq!(manager.registration_call(), Err(push::error::ErrorKind::MissingRegistrationTokenError));
    assert_eq!(manager.channel_list_call(), None);
    assert_eq!(manager.update_call(), None);
    assert_eq!(manager.unsubscribe_call("c1"), None);
    assert_eq!(manager.unsubscribe_all_call(), None);
    assert_eq!(manager.subscription_call("c1", &None), None);
}

#[test]
fn new_manager_on_a_stored_identity_is_active() {
    let server = Server::new();
    let mut store = RecordStore::new();
    store.put_identity(stored_identity());
    store.put_channel(stored_record("c1"), WriteMode::Create).unwrap();
    let manager = open_with(&server, store, Cipher::new()).unwrap();
    assert_eq!(manager.lifecycle(), Lifecycle::Active);
    assert_eq!(manager.store().get_identity(), Some(stored_identity()));
    assert_eq!(ids(&manager), vec!["c1".to_string()]);
    assert_eq!(
        manager.registration_call(),
        Ok(BridgeCall::Register { token: "token-7".to_string() })
    );
    assert_eq!(
        manager.channel_list_call(),
        Some(BridgeCall::ChannelList { uaid: "uaid-7".to_string(), secret: "secret-7".to_string() })
    );
    assert_eq!(
        manager.update_call(),
        Some(
            BridgeCall::UpdateToken {
                uaid: "uaid-7".to_string(),
                secret: "secret-7".to_string(),
                token: "token-7".to_string(),
            }
        )
    );
    assert_eq!(
        manager.unsubscribe_call("c1"),
        Some(
            BridgeCall::Unsubscribe {
                uaid: "uaid-7".to_string(),
                secret: "secret-7".to_string(),
                channel_id: "c1".to_string(),
            }
        )
    );
    assert_eq!(
        manager.unsubscribe_all_call(),
        Some(
            BridgeCall::UnsubscribeAll { uaid: "uaid-7".to_string(), secret: "secret-7".to_string() }
        )
    );
    assert_eq!(
        manager.subscription_call("c2", &Some("key".to_string())),
        Some(
            BridgeCall::Subscribe {
                uaid: "uaid-7".to_string(),
                secret: "secret-7".to_string(),
                channel_id: "c2".to_string(),
                app_server_key: Some("key".to_string()),
            }
        )
    );
}

#[test]
fn new_manager_refuses_a_store_of_another_configuration() {
    let refused = PushError::OpenDatabaseError(
        "the stored identity belongs to another configuration".to_string(),
    );
    let mut wrong = Vec::new();
    let mut identity = stored_identity();
    identity.sender_id = "other-app".to_string();
    wrong.push(identity);
    let mut identity = stored_identity();
    identity.bridge_type = BridgeType::Apns;
    wrong.push(identity);
    let mut identity = stored_identity();
    identity.server_host = "other.example".to_string();
    wrong.push(identity);
    let mut identity = stored_identity();
    identity.http_protocol = "http".to_string();
    wrong.push(identity);
    for identity in wrong {
        let server = Server::new();
        let mut store = RecordStore::new();
        store.put_identity(identity);
        assert_eq!(open_with(&server, store, Cipher::new()).err(), Some(refused.clone()));
    }
}

#[test]
fn new_manager_refuses_records_without_an_identity() {
    let server = Server::new();
    let mut store = RecordStore::new();
    store.put_channel(stored_record("c1"), WriteMode::Create).unwrap();
    assert_eq!(
        open_with(&server, store, Cipher::new()).err(),
        Some(PushError::OpenDatabaseError("the store holds channels without an identity".to_string()))
    );
}

#[test]
fn subscribe_without_a_token_fails() {
    let server = Server::new();
    let mut manager = open(&server);
    assert_eq!(
        manager.subscribe("c1", "scope", &None, 10),
        Err(PushError::MissingRegistrationTokenError)
    );
    assert!(server.borrow().calls.is_empty());
    assert_eq!(manager.lifecycle(), Lifecycle::Uninitialized);
}

#[test]
fn subscribe_registers_first_and_stores_the_record() {
    let server = Server::new();
    let mut manager = ready(&server);
    assert!(server.borrow().calls.is_empty());
    let response = manager.subscribe("c1", "scope-1", &None, 1234).unwrap();
    assert_eq!(
        response,
        SubscriptionResponse {
            channel_id: "c1".to_string(),
            subscription_info: SubscriptionInfo {
                endpoint: "https://push.example/uaid-1/c1".to_string(),
                keys: KeyInfo { auth: "AQEBAQEBAQEBAQEBAQEBAQ".to_string(), p256dh: "AQkJ".to_string() },
            },
        }
    );
    assert_eq!(
        server.borrow().calls,
        vec![
            BridgeCall::Register { token: "token-1".to_string() },
            BridgeCall::Subscribe {
                uaid: "uaid-1".to_string(),
                secret: "secret-1".to_string(),
                channel_id: "c1".to_string(),
                app_server_key: None,
            },
        ]
    );
    let config = PushConfiguration {
        server_host: "push.example".to_string(),
        http_protocol: "https".to_string(),
        bridge_type: BridgeType::Fcm,
        sender_id: "app".to_string(),
    };
    assert_eq!(server.borrow().configs, vec![config.clone(), config]);
    assert_eq!(manager.lifecycle(), Lifecycle::Active);
    assert_eq!(
        manager.store().get_identity(),
        Some(
            Identity {
                uaid: "uaid-1".to_string(),
                secret: "secret-1".to_string(),
                current_token: "token-1".to_string(),
                sender_id: "app".to_string(),
                bridge_type: BridgeType::Fcm,
                server_host: "push.example".to_string(),
                http_protocol: "https".to_string(),
            }
        )
    );
    assert_eq!(
        manager.store().list_channels(),
        vec![
            ChannelRecord {
                channel_id: "c1".to_string(),
                scope: "scope-1".to_string(),
                endpoint: "https://push.example/uaid-1/c1".to_string(),
                app_server_key: None,
                private_key: vec![1, 1, 2, 3],
                public_key: vec![1, 9, 9],
                auth_secret: vec![1; 16],
                ctime: 1234,
            },
        ]
    );
}

#[test]
fn subscribe_registers_once() {
    let server = Server::new();
    let mut manager = ready(&server);
    manager.subscribe("c1", "s", &None, 1).unwrap();
    manager.subscribe("c2", "s", &None, 2).unwrap();
    manager.subscribe("c3", "s", &None, 3).unwrap();
    assert_eq!(server.borrow().registrations, 1);
    assert_eq!(server.borrow().calls.len(), 4);
}

#[test]
fn subscribe_round_trip() {
    let server = Server::new();
    let mut manager = ready(&server);
    let response = manager.subscribe("", "scope-a", &None, 5).unwrap();
    assert_eq!(response.channel_id, "01010101010141018101010101010101");
    assert_eq!(
        manager.dispatch_info_for_chid(&response.channel_id),
        Ok(
            Some(
                DispatchInfo {
                    scope: "scope-a".to_string(),
                    endpoint: response.subscription_info.endpoint.clone(),
                    app_server_key: None,
                }
            )
        )
    );
    assert_eq!(
        response.subscription_info.endpoint,
        "https://push.example/uaid-1/01010101010141018101010101010101"
    );
}

#[test]
fn subscribe_makes_up_a_new_id_each_time() {
    let server = Server::new();
    let mut manager = ready(&server);
    let first = manager.subscribe("", "a", &None, 5).unwrap();
    let second = manager.subscribe("", "b", &None, 6).unwrap();
    assert_eq!(first.channel_id.len(), 32);
    assert_eq!(second.channel_id, "02020202020242028202020202020202");
    assert_ne!(first.channel_id, second.channel_id);
    assert_eq!(ids(&manager), vec![first.channel_id, second.channel_id]);
}

#[test]
fn subscribe_refuses_an_id_that_was_made_up_before() {
    let server = Server::new();
    let mut manager = ready(&server);
    manager.subscribe("01010101010141018101010101010101", "a", &None, 5).unwrap();
    let calls = server.borrow().calls.len();
    assert_eq!(manager.subscribe("", "b", &None, 6), Err(PushError::AlreadyRegisteredError));
    assert_eq!(server.borrow().calls.len(), calls);
    assert_eq!(manager.store().channel_count(), 1);
}

#[test]
fn subscribe_fails_where_the_entropy_fails() {
    let server = Server::new();
    let mut cipher = Cipher::new();
    cipher.fail_entropy = Some("no entropy".to_string());
    let mut manager = open_with(&server, RecordStore::new(), cipher).unwrap();
    manager.update("token-1").unwrap();
    assert_eq!(
        manager.subscribe("", "a", &None, 5),
        Err(PushError::CryptoError("no entropy".to_string()))
    );
    assert_eq!(manager.store().channel_count(), 0);
    assert_eq!(server.borrow().calls, vec![BridgeCall::Register { token: "token-1".to_string() }]);
    let mut cipher = Cipher::new();
    cipher.short_entropy = true;
    let mut manager = open_with(&server, RecordStore::new(), cipher).unwrap();
    manager.update("token-1").unwrap();
    assert_eq!(
        manager.subscribe("", "a", &None, 5),
        Err(
            PushError::CryptoError(
                "the entropy source delivered a wrong number of bytes".to_string(),
            )
        )
    );
}

#[test]
fn subscribe_again_fails_and_leaves_the_record() {
    let server = Server::new();
    let mut manager = ready(&server);
    manager.subscribe("c1", "first", &Some("key".to_string()), 1).unwrap();
    let before = manager.store().list_channels();
    let calls = server.borrow().calls.len();
    assert_eq!(
        manager.subscribe("c1", "second", &None, 2),
        Err(PushError::AlreadyRegisteredError)
    );
    assert_eq!(manager.store().list_channels(), before);
    assert_eq!(before[0].scope, "first");
    assert_eq!(server.borrow().calls.len(), calls);
}

#[test]
fn subscribe_with_distinct_ids_stores_distinct_records() {
    let server = Server::new();
    let mut manager = ready(&server);
    let names = ["c1", "c2", "c3", "c4"];
    for (n, name) in names.iter().enumerate() {
        let response = manager.subscribe(name, "s", &None, n as u64).unwrap();
        assert_eq!(&response.channel_id, name);
    }
    assert_eq!(ids(&manager), names.iter().map(|n| n.to_string()).collect::<Vec<String>>());
    let records = manager.store().list_channels();
    assert_ne!(records[0].auth_secret, records[1].auth_secret);
    assert_ne!(records[0].endpoint, records[1].endpoint);
}

#[test]
fn subscribe_stores_nothing_where_the_server_fails() {
    let server = Server::new();
    let mut manager = ready(&server);
    manager.subscribe("c1", "s", &None, 1).unwrap();
    server.borrow_mut().script.push_back(Ok(answer(500, "boom")));
    assert_eq!(
        manager.subscribe("c2", "s", &None, 2),
        Err(PushError::CommunicationServerError("500 boom".to_string()))
    );
    server.borrow_mut().script.push_back(Err("unreachable".to_string()));
    assert_eq!(
        manager.subscribe("c2", "s", &None, 2),
        Err(PushError::CommunicationError("unreachable".to_string()))
    );
    server.borrow_mut().script.push_back(Ok(answer(200, "{}")));
    assert_eq!(
        manager.subscribe("c2", "s", &None, 2),
        Err(PushError::JSONDeserializeError("the server's answer lacks endpoint".to_string()))
    );
    server.borrow_mut().script.push_back(Ok(answer(410, "gone")));
    assert_eq!(
        manager.subscribe("c2", "s", &None, 2),
        Err(PushError::CommunicationServerError("410 gone".to_string()))
    );
    assert_eq!(ids(&manager), vec!["c1".to_string()]);
    assert_eq!(manager.dispatch_info_for_chid("c2"), Ok(None));
    assert_eq!(manager.lifecycle(), Lifecycle::Active);
}

#[test]
fn subscribe_fails_where_the_registration_fails() {
    let server = Server::new();
    let mut manager = ready(&server);
    server.borrow_mut().script.push_back(Ok(answer(503, "later")));
    assert_eq!(
        manager.subscribe("c1", "s", &None, 1),
        Err(PushError::CommunicationServerError("503 later".to_string()))
    );
    assert_eq!(manager.lifecycle(), Lifecycle::Uninitialized);
    assert_eq!(manager.store().get_identity(), None);
    assert_eq!(server.borrow().calls.len(), 1);
    let mut incomplete = answer(200, "{}");
    incomplete.uaid = Some("u".to_string());
    server.borrow_mut().script.push_back(Ok(incomplete));
    assert_eq!(
        manager.subscribe("c1", "s", &None, 1),
        Err(PushError::JSONDeserializeError("the server's answer lacks secret".to_string()))
    );
    assert_eq!(manager.store().get_identity(), None);
    assert!(manager.subscribe("c1", "s", &None, 1).is_ok());
}

#[test]
fn subscribe_asks_no_server_where_the_keys_fail() {
    let server = Server::new();
    let mut cipher = Cipher::new();
    cipher.fail_keys = Some("keygen broke".to_string());
    let mut manager = open_with(&server, RecordStore::new(), cipher).unwrap();
    manager.update("token-1").unwrap();
    assert_eq!(
        manager.subscribe("c1", "s", &None, 1),
        Err(PushError::CryptoError("keygen broke".to_string()))
    );
    assert_eq!(server.borrow().calls, vec![BridgeCall::Register { token: "token-1".to_string() }]);
    assert_eq!(manager.store().channel_count(), 0);
    assert!(server.borrow().channels.is_empty());
}

#[test]
fn subscribe_takes_an_empty_key_for_no_key() {
    let server = Server::new();
    let mut manager = ready(&server);
    manager.subscribe("c1", "s", &Some("".to_string()), 1).unwrap();
    manager.subscribe("c2", "s", &Some("vapid".to_string()), 1).unwrap();
    assert_eq!(manager.dispatch_info_for_chid("c1").unwrap().unwrap().app_server_key, None);
    assert_eq!(
        manager.dispatch_info_for_chid("c2").unwrap().unwrap().app_server_key,
        Some("vapid".to_string())
    );
    let calls = server.borrow().calls.clone();
    assert_eq!(
        calls[1],
        BridgeCall::Subscribe {
            uaid: "uaid-1".to_string(),
            secret: "secret-1".to_string(),
            channel_id: "c1".to_string(),
            app_server_key: None,
        }
    );
    assert_eq!(
        calls[2],
        BridgeCall::Subscribe {
            uaid: "uaid-1".to_string(),
            secret: "secret-1".to_string(),
            channel_id: "c2".to_string(),
            app_server_key: Some("vapid".to_string()),
        }
    );
    assert_eq!(effective(&Some("".to_string())), None);
    assert_eq!(effective(&Some("k".to_string())), Some("k".to_string()));
    assert_eq!(effective(&None), None);
}

#[test]
fn unsubscribe_without_a_record_is_no_failure() {
    let server = Server::new();
    let mut manager = ready(&server);
    manager.subscribe("c1", "s", &None, 1).unwrap();
    let before = manager.store().list_channels();
    assert_eq!(manager.unsubscribe("never-there"), Ok(false));
    assert_eq!(manager.unsubscribe("never-there"), Ok(false));
    assert_eq!(manager.store().list_channels(), before);
    server.borrow_mut().channels.push(("uaid-1".to_string(), "only-remote".to_string()));
    assert_eq!(manager.unsubscribe("only-remote"), Ok(true));
    assert_eq!(manager.unsubscribe("only-remote"), Ok(false));
    assert_eq!(manager.store().list_channels(), before);
}

#[test]
fn unsubscribe_deletes_the_record() {
    let server = Server::new();
    let mut manager = ready(&server);
    manager.subscribe("c1", "s1", &None, 1).unwrap();
    manager.subscribe("c2", "s2", &None, 2).unwrap();
    manager.subscribe("c3", "s3", &None, 3).unwrap();
    assert_eq!(manager.unsubscribe("c2"), Ok(true));
    assert_eq!(ids(&manager), vec!["c1".to_string(), "c3".to_string()]);
    assert_eq!(manager.dispatch_info_for_chid("c2"), Ok(None));
    assert_eq!(server.borrow().channels.len(), 2);
    assert_eq!(manager.unsubscribe("c2"), Ok(false));
    assert_eq!(ids(&manager), vec!["c1".to_string(), "c3".to_string()]);
    assert!(manager.subscribe("c2", "again", &None, 4).is_ok());
}

#[test]
fn unsubscribe_deletes_the_record_that_the_server_has_lost() {
    let server = Server::new();
    let mut manager = ready(&server);
    manager.subscribe("c1", "s1", &None, 1).unwrap();
    server.borrow_mut().channels.clear();
    assert_eq!(manager.unsubscribe("c1"), Ok(false));
    assert_eq!(manager.store().channel_count(), 0);
}

#[test]
fn unsubscribe_keeps_the_record_where_the_call_fails() {
    let server = Server::new();
    let mut manager = ready(&server);
    manager.subscribe("c1", "s1", &None, 1).unwrap();
    server.borrow_mut().script.push_back(Ok(answer(500, "boom")));
    assert_eq!(
        manager.unsubscribe("c1"),
        Err(PushError::CommunicationServerError("500 boom".to_string()))
    );
    server.borrow_mut().script.push_back(Err("offline".to_string()));
    assert_eq!(
        manager.unsubscribe("c1"),
        Err(PushError::CommunicationError("offline".to_string()))
    );
    assert_eq!(ids(&manager), vec!["c1".to_string()]);
    assert_eq!(manager.unsubscribe("c1"), Ok(true));
}

#[test]
fn unsubscribe_without_an_identity_asks_nobody() {
    let server = Server::new();
    let mut manager = open(&server);
    assert_eq!(manager.unsubscribe("c1"), Ok(false));
    assert_eq!(manager.unsubscribe(""), Ok(false));
    assert_eq!(manager.unsubscribe_all(), Ok(()));
    assert!(server.borrow().calls.is_empty());
}

#[test]
fn unsubscribe_with_the_empty_id_closes_all() {
    let server = Server::new();
    let mut manager = ready(&server);
    manager.subscribe("c1", "s1", &None, 1).unwrap();
    manager.subscribe("c2", "s2", &None, 2).unwrap();
    assert_eq!(manager.unsubscribe(""), Ok(true));
    assert_eq!(manager.store().channel_count(), 0);
    assert!(server.borrow().channels.is_empty());
    assert_eq!(
        server.borrow().calls.last(),
        Some(
            &BridgeCall::UnsubscribeAll { uaid: "uaid-1".to_string(), secret: "secret-1".to_string() }
        )
    );
    assert!(manager.store().has_identity());
    assert_eq!(manager.lifecycle(), Lifecycle::Active);
}

#[test]
fn unsubscribe_all_deletes_all_records() {
    let server = Server::new();
    let mut manager = ready(&server);
    manager.subscribe("c1", "s1", &None, 1).unwrap();
    manager.subscribe("c2", "s2", &None, 2).unwrap();
    assert_eq!(manager.unsubscribe_all(), Ok(()));
    assert_eq!(manager.store().channel_count(), 0);
    assert_eq!(manager.unsubscribe_all(), Ok(()));
    server.borrow_mut().script.push_back(Ok(answer(404, "nothing")));
    assert_eq!(manager.unsubscribe_all(), Ok(()));
    assert!(manager.subscribe("c1", "s1", &None, 3).is_ok());
}

#[test]
fn unsubscribe_all_keeps_the_records_where_the_call_fails() {
    let server = Server::new();
    let mut manager = ready(&server);
    manager.subscribe("c1", "s1", &None, 1).unwrap();
    manager.subscribe("c2", "s2", &None, 2).unwrap();
    server.borrow_mut().script.push_back(Err("offline".to_string()));
    assert_eq!(
        manager.unsubscribe_all(),
        Err(PushError::CommunicationError("offline".to_string()))
    );
    server.borrow_mut().script.push_back(Ok(answer(500, "boom")));
    assert_eq!(
        manager.unsubscribe(""),
        Err(PushError::CommunicationServerError("500 boom".to_string()))
    );
    assert_eq!(ids(&manager), vec!["c1".to_string(), "c2".to_string()]);
    assert_eq!(manager.unsubscribe_all(), Ok(()));
    assert_eq!(manager.store().channel_count(), 0);
}

#[test]
fn update_without_an_identity_holds_the_token() {
    let server = Server::new();
    let mut manager = open(&server);
    assert_eq!(manager.update("token-a"), Ok(false));
    assert_eq!(manager.update("token-b"), Ok(false));
    assert!(server.borrow().calls.is_empty());
    manager.subscribe("c1", "s", &None, 1).unwrap();
    assert_eq!(server.borrow().calls[0], BridgeCall::Register { token: "token-b".to_string() });
    assert_eq!(manager.store().get_identity().unwrap().current_token, "token-b");
}

#[test]
fn update_tells_the_server() {
    let server = Server::new();
    let mut manager = ready(&server);
    manager.subscribe("c1", "s", &None, 1).unwrap();
    assert_eq!(manager.update("token-2"), Ok(true));
    assert_eq!(
        server.borrow().calls.last(),
        Some(
            &BridgeCall::UpdateToken {
                uaid: "uaid-1".to_string(),
                secret: "secret-1".to_string(),
                token: "token-2".to_string(),
            }
        )
    );
    assert_eq!(server.borrow().identities[0].2, "token-2");
    assert_eq!(manager.store().get_identity().unwrap().current_token, "token-2");
    assert_eq!(manager.store().get_identity().unwrap().uaid, "uaid-1");
    assert_eq!(manager.lifecycle(), Lifecycle::Active);
    assert_eq!(ids(&manager), vec!["c1".to_string()]);
}

#[test]
fn update_absorbs_the_loss_of_the_identity() {
    let server = Server::new();
    let mut manager = ready(&server);
    manager.subscribe("c1", "s", &None, 1).unwrap();
    server.borrow_mut().forget_everything();
    assert_eq!(manager.update("token-2"), Ok(false));
    assert_eq!(manager.lifecycle(), Lifecycle::Stale);
    assert_eq!(ids(&manager), vec!["c1".to_string()]);
    assert_eq!(manager.store().get_identity().unwrap().current_token, "token-2");
    server.borrow_mut().script.push_back(Ok(answer(404, "who")));
    assert_eq!(manager.update("token-3"), Ok(false));
    assert_eq!(manager.lifecycle(), Lifecycle::Stale);
}

#[test]
fn update_hands_other_failures_on() {
    let server = Server::new();
    let mut manager = ready(&server);
    manager.subscribe("c1", "s", &None, 1).unwrap();
    server.borrow_mut().script.push_back(Ok(answer(500, "boom")));
    assert_eq!(
        manager.update("token-2"),
        Err(PushError::CommunicationServerError("500 boom".to_string()))
    );
    server.borrow_mut().script.push_back(Err("offline".to_string()));
    assert_eq!(
        manager.update("token-3"),
        Err(PushError::CommunicationError("offline".to_string()))
    );
    assert_eq!(manager.lifecycle(), Lifecycle::Active);
    assert_eq!(manager.store().get_identity().unwrap().current_token, "token-3");
}

#[test]
fn verify_connection_without_an_identity_is_empty() {
    let server = Server::new();
    let mut manager = ready(&server);
    assert_eq!(manager.verify_connection(), Ok(vec![]));
    assert!(server.borrow().calls.is_empty());
    assert_eq!(manager.lifecycle(), Lifecycle::Uninitialized);
}

#[test]
fn verify_connection_in_agreement_is_empty() {
    let server = Server::new();
    let mut manager = ready(&server);
    manager.subscribe("c1", "s1", &None, 1).unwrap();
    manager.subscribe("c2", "s2", &None, 2).unwrap();
    let before = manager.store().list_channels();
    assert_eq!(manager.verify_connection(), Ok(vec![]));
    assert_eq!(manager.store().list_channels(), before);
    assert_eq!(
        server.borrow().calls.last(),
        Some(&BridgeCall::ChannelList { uaid: "uaid-1".to_string(), secret: "secret-1".to_string() })
    );
    assert_eq!(server.borrow().registrations, 1);
}

#[test]
fn verify_connection_reports_what_the_server_lacks() {
    let server = Server::new();
    let mut manager = ready(&server);
    manager.subscribe("c1", "scope-1", &None, 1).unwrap();
    manager.subscribe("c2", "scope-2", &None, 2).unwrap();
    server.borrow_mut().channels.retain(|(_, c)| c == "c1");
    assert_eq!(manager.verify_connection(), Ok(vec![changed("c2", "scope-2")]));
    assert_eq!(manager.dispatch_info_for_chid("c2"), Ok(None));
    assert!(manager.dispatch_info_for_chid("c1").unwrap().is_some());
    assert_eq!(ids(&manager), vec!["c1".to_string()]);
    assert_eq!(manager.verify_connection(), Ok(vec![]));
    assert_eq!(manager.lifecycle(), Lifecycle::Active);
    assert_eq!(server.borrow().registrations, 1);
}

#[test]
fn verify_connection_leaves_alone_what_only_the_server_has() {
    let server = Server::new();
    let mut manager = ready(&server);
    manager.subscribe("c1", "scope-1", &None, 1).unwrap();
    manager.subscribe("c2", "scope-2", &None, 2).unwrap();
    manager.subscribe("c3", "scope-3", &None, 3).unwrap();
    {
        let mut s = server.borrow_mut();
        s.channels.retain(|(_, c)| c == "c2");
        s.channels.push(("uaid-1".to_string(), "orphan".to_string()));
        s.channels.push(("uaid-1".to_string(), "c2".to_string()));
    }
    let before = manager.store().get_channel("c2");
    let calls = server.borrow().calls.len();
    assert_eq!(
        manager.verify_connection(),
        Ok(vec![changed("c1", "scope-1"), changed("c3", "scope-3")])
    );
    assert_eq!(manager.store().get_channel("c2"), before);
    assert_eq!(ids(&manager), vec!["c2".to_string()]);
    assert_eq!(manager.dispatch_info_for_chid("orphan"), Ok(None));
    assert_eq!(server.borrow().calls.len(), calls + 1);
    assert_eq!(server.borrow().channels.len(), 3);
}

#[test]
fn verify_connection_recovers_from_a_lost_identity() {
    let server = Server::new();
    let mut manager = ready(&server);
    manager.subscribe("c1", "scope-1", &None, 1).unwrap();
    manager.subscribe("c2", "scope-2", &None, 2).unwrap();
    server.borrow_mut().forget_everything();
    let calls = server.borrow().calls.len();
    assert_eq!(
        manager.verify_connection(),
        Ok(vec![changed("c1", "scope-1"), changed("c2", "scope-2")])
    );
    assert_eq!(
        server.borrow().calls[calls..],
        [
            BridgeCall::ChannelList { uaid: "uaid-1".to_string(), secret: "secret-1".to_string() },
            BridgeCall::Register { token: "token-1".to_string() },
        ]
    );
    assert_eq!(server.borrow().registrations, 2);
    assert_eq!(manager.store().channel_count(), 0);
    assert_eq!(manager.lifecycle(), Lifecycle::Active);
    assert_eq!(manager.store().get_identity().unwrap().uaid, "uaid-2");
    let response = manager.subscribe("c1", "scope-1", &None, 3).unwrap();
    assert_eq!(response.subscription_info.endpoint, "https://push.example/uaid-2/c1");
    assert_eq!(server.borrow().registrations, 2);
    assert_eq!(manager.verify_connection(), Ok(vec![]));
}

#[test]
fn verify_connection_recovers_after_an_update_found_the_identity_lost() {
    let server = Server::new();
    let mut manager = ready(&server);
    manager.subscribe("c1", "scope-1", &None, 1).unwrap();
    server.borrow_mut().forget_everything();
    assert_eq!(manager.update("token-2"), Ok(false));
    let calls = server.borrow().calls.len();
    assert_eq!(manager.verify_connection(), Ok(vec![changed("c1", "scope-1")]));
    assert_eq!(
        server.borrow().calls[calls..],
        [BridgeCall::Register { token: "token-2".to_string() }]
    );
    assert_eq!(manager.lifecycle(), Lifecycle::Active);
    assert_eq!(manager.store().get_identity().unwrap().uaid, "uaid-2");
    assert_eq!(manager.store().get_identity().unwrap().current_token, "token-2");
}

#[test]
fn verify_connection_hands_other_failures_on() {
    let server = Server::new();
    let mut manager = ready(&server);
    manager.subscribe("c1", "scope-1", &None, 1).unwrap();
    let before = manager.store().list_channels();
    server.borrow_mut().script.push_back(Ok(answer(500, "boom")));
    assert_eq!(
        manager.verify_connection(),
        Err(PushError::CommunicationServerError("500 boom".to_string()))
    );
    server.borrow_mut().script.push_back(Err("offline".to_string()));
    assert_eq!(
        manager.verify_connection(),
        Err(PushError::CommunicationError("offline".to_string()))
    );
    server.borrow_mut().script.push_back(Ok(answer(200, "{}")));
    assert_eq!(
        manager.verify_connection(),
        Err(PushError::JSONDeserializeError("the server's answer lacks channelIDs".to_string()))
    );
    assert_eq!(manager.store().list_channels(), before);
    assert_eq!(manager.lifecycle(), Lifecycle::Active);
    assert_eq!(server.borrow().registrations, 1);
}

#[test]
fn verify_connection_fails_where_the_new_registration_fails() {
    let server = Server::new();
    let mut manager = ready(&server);
    manager.subscribe("c1", "scope-1", &None, 1).unwrap();
    server.borrow_mut().script.push_back(Ok(answer(410, "gone")));
    server.borrow_mut().script.push_back(Ok(answer(503, "later")));
    assert_eq!(
        manager.verify_connection(),
        Err(PushError::CommunicationServerError("503 later".to_string()))
    );
    assert_eq!(manager.lifecycle(), Lifecycle::Uninitialized);
    assert_eq!(manager.store().get_identity(), None);
    assert_eq!(manager.store().channel_count(), 0);
    assert_eq!(manager.verify_connection(), Ok(vec![]));
}

#[test]
fn subscribe_recovers_from_a_stale_identity() {
    let server = Server::new();
    let mut manager = ready(&server);
    manager.subscribe("c1", "scope-1", &None, 1).unwrap();
    server.borrow_mut().forget_everything();
    assert_eq!(manager.update("token-2"), Ok(false));
    let response = manager.subscribe("c9", "scope-9", &None, 2).unwrap();
    assert_eq!(response.subscription_info.endpoint, "https://push.example/uaid-2/c9");
    assert_eq!(ids(&manager), vec!["c9".to_string()]);
    assert_eq!(manager.lifecycle(), Lifecycle::Active);
    assert_eq!(manager.dispatch_info_for_chid("c1"), Ok(None));
    assert_eq!(server.borrow().registrations, 2);
}

#[test]
fn decrypt_without_a_record_fails() {
    let server = Server::new();
    let mut manager = ready(&server);
    assert_eq!(
        manager.decrypt("c1", "AAAA", "aes128gcm", "", ""),
        Err(PushError::RecordNotFoundError("c1".to_string()))
    );
    manager.subscribe("c1", "s", &None, 1).unwrap();
    assert_eq!(
        manager.decrypt("c2", "AAAA", "aes128gcm", "", ""),
        Err(PushError::RecordNotFoundError("c2".to_string()))
    );
    assert_eq!(
        manager.decrypt("", "not base64!", "what", "", ""),
        Err(PushError::RecordNotFoundError("".to_string()))
    );
}

#[test]
fn decrypt_yields_the_plaintext() {
    let server = Server::new();
    let mut manager = ready(&server);
    manager.subscribe("c1", "s", &None, 1).unwrap();
    manager.subscribe("c2", "s", &None, 1).unwrap();
    let plaintext: Vec<u8> = vec![0, 1, 127, 128, 200, 255];
    let body = push::base64url::encode(&seal(&plaintext, &keys_number(2)));
    let expected: Vec<i8> = vec![0, 1, 127, -128, -56, -1];
    assert_eq!(manager.decrypt("c2", &body, "aes128gcm", "", ""), Ok(expected.clone()));
    assert_eq!(
        manager.decrypt("c2", &body, "", "", ""),
        Err(PushError::CryptoError("unknown content encoding".to_string()))
    );
    assert_eq!(manager.decrypt("c2", &body, "aesgcm", "salt=x", "dh=y"), Ok(expected.clone()));
    assert_eq!(manager.decrypt("c2", &body, "aesgcm128", "salt=x", "dh=y"), Ok(expected));
    assert_eq!(
        manager.decrypt("c1", &body, "aes128gcm", "", ""),
        Err(PushError::CryptoError("tag mismatch".to_string()))
    );
}

#[test]
fn decrypt_accepts_a_padded_body() {
    let server = Server::new();
    let mut manager = ready(&server);
    manager.subscribe("c1", "s", &None, 1).unwrap();
    let sealed = seal(b"hi", &keys_number(1));
    let body = push::base64url::encode(&sealed);
    assert_eq!(body.len(), 4);
    let sealed = seal(b"hey", &keys_number(1));
    let body = push::base64url::encode(&sealed);
    assert_eq!(body.len(), 6);
    let padded = format!("{}==", body);
    assert_eq!(manager.decrypt("c1", &padded, "aes128gcm", "", ""), Ok(vec![104, 101, 121]));
    assert_eq!(manager.decrypt("c1", &body, "aes128gcm", "", ""), Ok(vec![104, 101, 121]));
}

#[test]
fn decrypt_fails_on_a_corrupted_message() {
    let server = Server::new();
    let mut manager = ready(&server);
    manager.subscribe("c1", "s", &None, 1).unwrap();
    let sealed = seal(b"attack at dawn", &keys_number(1));
    for i in 0..sealed.len() {
        let mut corrupted = sealed.clone();
        corrupted[i] ^= 0x20;
        let body = push::base64url::encode(&corrupted);
        assert_eq!(
            manager.decrypt("c1", &body, "aes128gcm", "", ""),
            Err(PushError::CryptoError("tag mismatch".to_string()))
        );
    }
    let body = push::base64url::encode(&sealed);
    assert!(manager.decrypt("c1", &body, "aes128gcm", "", "").is_ok());
}

#[test]
fn decrypt_fails_on_a_body_that_is_not_base64() {
    let server = Server::new();
    let mut manager = ready(&server);
    manager.subscribe("c1", "s", &None, 1).unwrap();
    let refused = Err(PushError::CryptoError("the body is not base64url".to_string()));
    assert_eq!(manager.decrypt("c1", "a+b/", "aes128gcm", "", ""), refused);
    assert_eq!(manager.decrypt("c1", "A", "aes128gcm", "", ""), refused);
    assert_eq!(manager.decrypt("c1", "AA=", "nothing known", "", ""), refused);
}

#[test]
fn decrypt_fails_on_an_unknown_encoding() {
    let server = Server::new();
    let mut manager = ready(&server);
    manager.subscribe("c1", "s", &None, 1).unwrap();
    let body = push::base64url::encode(&seal(b"x", &keys_number(1)));
    let refused = Err(PushError::CryptoError("unknown content encoding".to_string()));
    assert_eq!(manager.decrypt("c1", &body, "rot13", "", ""), refused);
    assert_eq!(manager.decrypt("c1", &body, "AES128GCM", "", ""), refused);
    assert_eq!(
        manager.decrypt("c1", &body, "aesgcm", "", ""),
        Err(PushError::CryptoError("headers missing".to_string()))
    );
}

#[test]
fn dispatch_info_of_an_unknown_channel_is_none() {
    let server = Server::new();
    let mut manager = ready(&server);
    assert_eq!(manager.dispatch_info_for_chid("c1"), Ok(None));
    assert_eq!(manager.dispatch_info_for_chid(""), Ok(None));
    manager.subscribe("c1", "s", &Some("vapid".to_string()), 1).unwrap();
    assert_eq!(manager.dispatch_info_for_chid("c2"), Ok(None));
    assert_eq!(
        manager.dispatch_info_for_chid("c1"),
        Ok(
            Some(
                DispatchInfo {
                    scope: "s".to_string(),
                    endpoint: "https://push.example/uaid-1/c1".to_string(),
                    app_server_key: Some("vapid".to_string()),
                }
            )
        )
    );
}

#[test]
fn steps_take_the_answers_as_arguments() {
    let server = Server::new();
    let mut manager = ready(&server);
    let keys = keys_number(3);
    let mut opened = answer(200, "{}");
    opened.endpoint = Some("https://e/c1".to_string());
    assert_eq!(
        manager.complete_subscription("c1".to_string(), "s", &None, keys.clone(), Ok(opened.clone()), 9),
        Err(push::error::ErrorKind::GeneralError("no identity".to_string()))
    );
    let mut registered = answer(200, "{}");
    registered.uaid = Some("u".to_string());
    registered.secret = Some("s".to_string());
    assert_eq!(manager.complete_registration(Ok(registered.clone())), Ok(()));
    assert_eq!(manager.lifecycle(), Lifecycle::Active);
    assert_eq!(
        manager
            .complete_subscription("c1".to_string(), "s", &None, keys.clone(), Ok(opened.clone()), 9)
            .map(|r| r.subscription_info.endpoint),
        Ok("https://e/c1".to_string())
    );
    assert_eq!(
        manager.complete_subscription("c1".to_string(), "s", &None, keys.clone(), Ok(opened.clone()), 9),
        Err(push::error::ErrorKind::AlreadyRegisteredError)
    );
    manager.complete_subscription("c2".to_string(), "t", &None, keys, Ok(opened), 9).unwrap();
    assert_eq!(manager.reconcile(&vec!["c2".to_string()]), vec![changed("c1", "s")]);
    assert_eq!(manager.complete_unsubscribe("c2", Ok(answer(404, ""))), Ok(false));
    assert_eq!(manager.store().channel_count(), 0);
    assert_eq!(manager.complete_unsubscribe_all(Ok(answer(204, ""))), Ok(true));
    assert_eq!(manager.complete_update(Ok(answer(410, ""))), Ok(false));
    assert_eq!(manager.lifecycle(), Lifecycle::Stale);
    assert_eq!(manager.complete_registration(Ok(registered)), Ok(()));
    assert_eq!(manager.lifecycle(), Lifecycle::Active);
    manager.hold_token("token-9");
    assert_eq!(manager.store().get_identity().unwrap().current_token, "token-9");
    assert_eq!(manager.forget_identity(), vec![]);
    assert_eq!(manager.lifecycle(), Lifecycle::Uninitialized);
    assert_eq!(manager.complete_update(Ok(answer(410, ""))), Ok(false));
    assert_eq!(manager.lifecycle(), Lifecycle::Uninitialized);
    assert!(server.borrow().calls.is_empty());
}

#[test]
fn read_message_finds_record_and_ciphertext() {
    let server = Server::new();
    let mut manager = ready(&server);
    manager.subscribe("c1", "s", &None, 1).unwrap();
    let (record, ciphertext) = manager.read_message("c1", "Zm9v").unwrap();
    assert_eq!(record.channel_id, "c1");
    assert_eq!(record.auth_secret, vec![1; 16]);
    assert_eq!(ciphertext, b"foo".to_vec());
    assert_eq!(
        manager.read_message("c2", "Zm9v").err(),
        Some(push::error::ErrorKind::RecordNotFoundError("c2".to_string()))
    );
}

#[test]
fn bytes_become_signed_bytes() {
    assert_eq!(to_signed(&vec![0, 127, 128, 255]), vec![0, 127, -128, -1]);
    assert_eq!(to_signed(&vec![]), Vec::<i8>::new());
    for b in 0..=255u8 {
        assert_eq!(to_signed(&vec![b]), vec![b as i8]);
    }
}

#[test]
fn notices_follow_the_records() {
    assert_eq!(
        notices_for(&vec![stored_record("b"), stored_record("a")]),
        vec![changed("b", "scope-b"), changed("a", "scope-a")]
    );
    assert_eq!(notices_for(&vec![]), vec![]);
}
