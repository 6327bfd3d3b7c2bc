use push::error::ErrorKind;
use push::store::{ChannelRecord, Identity, RecordStore, WriteMode};
use push::types::{BridgeType, DispatchInfo, PushSubscriptionChanged};

fn record(id: &str, scope: &str) -> ChannelRecord {
    ChannelRecord {
        channel_id: id.to_string(),
        scope: scope.to_string(),
        endpoint: format!("https://push.example/{}", id),
        app_server_key: None,
        private_key: vec![1, 2, 3],
        public_key: vec![4, 5],
        auth_secret: vec![6; 16],
        ctime: 100,
    }
}

fn identity() -> Identity {
    Identity {
        uaid: "u1".to_string(),
        secret: "s1".to_string(),
        current_token: "t1".to_string(),
        sender_id: "app".to_string(),
        bridge_type: BridgeType::Fcm,
        server_host: "push.example".to_string(),
        http_protocol: "https".to_string(),
    }
}

#[test]
fn new_store_is_empty() {
    let store = RecordStore::new();
    assert_eq!(store.get_identity(), None);
    assert!(!store.has_identity());
    assert_eq!(store.channel_count(), 0);
    assert_eq!(store.list_channels(), vec![]);
    assert_eq!(store.get_channel("c1"), None);
}

#[test]
fn identity_is_put_and_cleared() {
    let mut store = RecordStore::new();
    store.put_identity(identity());
    assert!(store.has_identity());
    assert_eq!(store.get_identity(), Some(identity()));
    let mut other = identity();
    other.uaid = "u2".to_string();
    store.put_identity(other.clone());
    assert_eq!(store.get_identity(), Some(other));
    store.clear_identity();
    assert_eq!(store.get_identity(), None);
}

#[test]
fn records_are_listed_in_the_order_of_their_creation() {
    let mut store = RecordStore::new();
    assert_eq!(store.put_channel(record("b", "sb"), WriteMode::Create), Ok(()));
    assert_eq!(store.put_channel(record("a", "sa"), WriteMode::Create), Ok(()));
    assert_eq!(store.put_channel(record("c", "sc"), WriteMode::Replace), Ok(()));
    assert_eq!(store.channel_count(), 3);
    assert_eq!(
        store.list_channels(),
        vec![record("b", "sb"), record("a", "sa"), record("c", "sc")]
    );
    assert_eq!(store.get_channel("a"), Some(record("a", "sa")));
    assert!(store.has_channel("c"));
    assert!(!store.has_channel("d"));
}

#[test]
fn create_refuses_a_channel_that_is_there() {
    let mut store = RecordStore::new();
    assert_eq!(store.put_channel(record("a", "first"), WriteMode::Create), Ok(()));
    assert_eq!(
        store.put_channel(record("a", "second"), WriteMode::Create),
        Err(ErrorKind::AlreadyRegisteredError)
    );
    assert_eq!(store.list_channels(), vec![record("a", "first")]);
}

#[test]
fn replace_puts_the_record_in_the_place_of_the_old_one() {
    let mut store = RecordStore::new();
    store.put_channel(record("a", "sa"), WriteMode::Create).unwrap();
    store.put_channel(record("b", "sb"), WriteMode::Create).unwrap();
    assert_eq!(store.put_channel(record("a", "new"), WriteMode::Replace), Ok(()));
    assert_eq!(store.list_channels(), vec![record("a", "new"), record("b", "sb")]);
}

#[test]
fn replace_keeps_a_channel_with_its_sender() {
    let mut store = RecordStore::new();
    let mut locked = record("a", "sa");
    locked.app_server_key = Some("key-1".to_string());
    store.put_channel(locked.clone(), WriteMode::Create).unwrap();
    let mut same_key = locked.clone();
    same_key.scope = "other".to_string();
    assert_eq!(store.put_channel(same_key.clone(), WriteMode::Replace), Ok(()));
    let mut other_key = locked.clone();
    other_key.app_server_key = Some("key-2".to_string());
    let refused = Err(
        ErrorKind::StorageError("the application server key of a channel cannot change".to_string()),
    );
    assert_eq!(store.put_channel(other_key, WriteMode::Replace), refused);
    assert_eq!(store.put_channel(record("a", "sa"), WriteMode::Replace), refused);
    assert_eq!(store.list_channels(), vec![same_key]);
}

#[test]
fn replace_may_give_a_free_channel_a_sender() {
    let mut store = RecordStore::new();
    store.put_channel(record("a", "sa"), WriteMode::Create).unwrap();
    let mut locked = record("a", "sa");
    locked.app_server_key = Some("key-1".to_string());
    assert_eq!(store.put_channel(locked.clone(), WriteMode::Replace), Ok(()));
    assert_eq!(store.get_channel("a"), Some(locked));
}

#[test]
fn delete_tells_whether_there_was_a_record() {
    let mut store = RecordStore::new();
    store.put_identity(identity());
    store.put_channel(record("a", "sa"), WriteMode::Create).unwrap();
    store.put_channel(record("b", "sb"), WriteMode::Create).unwrap();
    store.put_channel(record("c", "sc"), WriteMode::Create).unwrap();
    assert!(store.delete_channel("b"));
    assert!(!store.delete_channel("b"));
    assert!(!store.delete_channel("zzz"));
    assert_eq!(store.list_channels(), vec![record("a", "sa"), record("c", "sc")]);
    assert_eq!(store.get_identity(), Some(identity()));
    store.delete_all_channels();
    assert_eq!(store.list_channels(), vec![]);
    assert_eq!(store.get_identity(), Some(identity()));
}

#[test]
fn prune_returns_what_the_server_does_not_have() {
    let mut store = RecordStore::new();
    for id in ["a", "b", "c", "d"] {
        store.put_channel(record(id, id), WriteMode::Create).unwrap();
    }
    let remote = vec!["d".to_string(), "x".to_string(), "b".to_string(), "b".to_string()];
    let pruned = store.prune(&remote);
    assert_eq!(pruned, vec![record("a", "a"), record("c", "c")]);
    assert_eq!(store.list_channels(), vec![record("b", "b"), record("d", "d")]);
    let pruned = store.prune(&vec![]);
    assert_eq!(pruned, vec![record("b", "b"), record("d", "d")]);
    assert_eq!(store.channel_count(), 0);
}

#[test]
fn record_gives_routing_information_and_notice() {
    let mut r = record("a", "scope-a");
    r.app_server_key = Some("key".to_string());
    assert_eq!(
        r.dispatch_info(),
        DispatchInfo {
            scope: "scope-a".to_string(),
            endpoint: "https://push.example/a".to_string(),
            app_server_key: Some("key".to_string()),
        }
    );
    assert_eq!(
        r.lost(),
        PushSubscriptionChanged { channel_id: "a".to_string(), scope: "scope-a".to_string() }
    );
    assert_eq!(r.duplicate(), r);
    assert_eq!(identity().duplicate(), identity());
}
