//! The record store: the identity of this installation and one record for
//! each channel it is subscribed to.
//!
//! The store holds its records in memory, in the order in which they were
//! created, and never two for one channel id. Whoever keeps them on disk
//! reads them out with [`RecordStore::get_identity`] and
//! [`RecordStore::list_channels`] and puts them back with the `put`
//! operations.

use vstd::prelude::*;
use vstd::string::*;
use crate::error::{ErrorKind, ErrorView};
use crate::text::{copy_bytes, copy_optional_text, holds_text, optional_text, same_text, texts};
use crate::types::{BridgeType, DispatchInfo, PushSubscriptionChanged};

verus! {

/// The identity under which the bridging server knows this installation,
/// with the configuration it was registered under.
#[derive(Debug, Clone, PartialEq, Eq)]
pub struct Identity {
    /// The identifier that the server assigned.
    pub uaid: String,
    /// The token that authorises calls for this identifier.
    pub secret: String,
    /// The native registration token last reported to the server.
    pub current_token: String,
    pub sender_id: String,
    pub bridge_type: BridgeType,
    pub server_host: String,
    pub http_protocol: String,
}

/// [`Identity`] as sequences of characters.
pub struct IdentityView {
    pub uaid: Seq<char>,
    pub secret: Seq<char>,
    pub current_token: Seq<char>,
    pub sender_id: Seq<char>,
    pub bridge_type: BridgeType,
    pub server_host: Seq<char>,
    pub http_protocol: Seq<char>,
}

impl View for Identity {
    type V = IdentityView;

    open spec fn view(&self) -> IdentityView {
        IdentityView {
            uaid: self.uaid@,
            secret: self.secret@,
            current_token: self.current_token@,
            sender_id: self.sender_id@,
            bridge_type: self.bridge_type,
            server_host: self.server_host@,
            http_protocol: self.http_protocol@,
        }
    }
}

impl Identity {
    /// A copy of the identity.
    pub fn duplicate(&self) -> (copy: Identity)
        ensures
            copy@ == self@,
    {
        Identity {
            uaid: self.uaid.clone(),
            secret: self.secret.clone(),
            current_token: self.current_token.clone(),
            sender_id: self.sender_id.clone(),
            bridge_type: self.bridge_type,
            server_host: self.server_host.clone(),
            http_protocol: self.http_protocol.clone(),
        }
    }
}

/// What an optional identity holds.
pub open spec fn optional_identity(identity: Option<Identity>) -> Option<IdentityView> {
    match identity {
        Some(i) => Some(i@),
        None => None,
    }
}

/// One subscription: the channel, where its messages are posted, and the
/// keys that open them.
#[derive(Debug, Clone, PartialEq, Eq)]
pub struct ChannelRecord {
    /// The key of the record.
    pub channel_id: String,
    /// A tag of the caller's; the library does not read it.
    pub scope: String,
    /// The URL, issued by the server, at which senders post messages.
    pub endpoint: String,
    /// The sender's public key, where the channel is restricted to one
    /// sender.
    pub app_server_key: Option<String>,
    pub private_key: Vec<u8>,
    pub public_key: Vec<u8>,
    pub auth_secret: Vec<u8>,
    /// When the record was created, in seconds since the epoch.
    pub ctime: u64,
}

/// [`ChannelRecord`] as sequences.
pub struct ChannelRecordView {
    pub channel_id: Seq<char>,
    pub scope: Seq<char>,
    pub endpoint: Seq<char>,
    pub app_server_key: Option<Seq<char>>,
    pub private_key: Seq<u8>,
    pub public_key: Seq<u8>,
    pub auth_secret: Seq<u8>,
    pub ctime: u64,
}

impl View for ChannelRecord {
    type V = ChannelRecordView;

    open spec fn view(&self) -> ChannelRecordView {
        ChannelRecordView {
            channel_id: self.channel_id@,
            scope: self.scope@,
            endpoint: self.endpoint@,
            app_server_key: optional_text(self.app_server_key),
            private_key: self.private_key@,
            public_key: self.public_key@,
            auth_secret: self.auth_secret@,
            ctime: self.ctime,
        }
    }
}

impl ChannelRecord {
    /// A copy of the record.
    pub fn duplicate(&self) -> (copy: ChannelRecord)
        ensures
            copy@ == self@,
    {
        ChannelRecord {
            channel_id: self.channel_id.clone(),
            scope: self.scope.clone(),
            endpoint: self.endpoint.clone(),
            app_server_key: copy_optional_text(&self.app_server_key),
            private_key: copy_bytes(&self.private_key),
            public_key: copy_bytes(&self.public_key),
            auth_secret: copy_bytes(&self.auth_secret),
            ctime: self.ctime,
        }
    }

    /// What a caller needs to route a message of this channel.
    pub fn dispatch_info(&self) -> (info: DispatchInfo)
        ensures
            info@ == dispatch_of(self@),
    {
        DispatchInfo {
            scope: self.scope.clone(),
            endpoint: self.endpoint.clone(),
            app_server_key: copy_optional_text(&self.app_server_key),
        }
    }

    /// The notice that this channel was lost.
    pub fn lost(&self) -> (notice: PushSubscriptionChanged)
        ensures
            notice@ == notice_of(self@),
    {
        PushSubscriptionChanged {
            channel_id: self.channel_id.clone(),
            scope: self.scope.clone(),
        }
    }
}

/// The routing information of a record.
pub open spec fn dispatch_of(record: ChannelRecordView) -> crate::types::DispatchInfoView {
    crate::types::DispatchInfoView {
        scope: record.scope,
        endpoint: record.endpoint,
        app_server_key: record.app_server_key,
    }
}

/// The notice that tells a caller that a record's channel was lost.
pub open spec fn notice_of(record: ChannelRecordView) -> crate::types::PushSubscriptionChangedView {
    crate::types::PushSubscriptionChangedView {
        channel_id: record.channel_id,
        scope: record.scope,
    }
}

/// What a list of records holds.
pub open spec fn records(list: Seq<ChannelRecord>) -> Seq<ChannelRecordView> {
    list.map_values(|r: ChannelRecord| r@)
}

/// Whether no two records of the list have the same channel id.
pub open spec fn distinct(list: Seq<ChannelRecordView>) -> bool {
    forall|i: int, j: int|
        0 <= i < list.len() && 0 <= j < list.len() && i != j ==> (#[trigger] list[i]).channel_id
            != (#[trigger] list[j]).channel_id
}

/// Whether the list has a record for the channel.
pub open spec fn holds(list: Seq<ChannelRecordView>, channel_id: Seq<char>) -> bool {
    exists|i: int| 0 <= i < list.len() && (#[trigger] list[i]).channel_id == channel_id
}

/// A place in the list at which the channel's record stands. Where the ids
/// are distinct there is one such place at most.
pub open spec fn position(list: Seq<ChannelRecordView>, channel_id: Seq<char>) -> Option<int> {
    if holds(list, channel_id) {
        Some(choose|i: int| 0 <= i < list.len() && (#[trigger] list[i]).channel_id == channel_id)
    } else {
        None
    }
}

/// The channel's record, where the list has one.
pub open spec fn find(list: Seq<ChannelRecordView>, channel_id: Seq<char>) -> Option<
    ChannelRecordView,
> {
    match position(list, channel_id) {
        Some(i) => Some(list[i]),
        None => None,
    }
}

/// The list without the channel's record.
pub open spec fn without(list: Seq<ChannelRecordView>, channel_id: Seq<char>) -> Seq<
    ChannelRecordView,
> {
    match position(list, channel_id) {
        Some(i) => list.remove(i),
        None => list,
    }
}

/// The channel ids of the list, as a set.
pub open spec fn id_set(list: Seq<ChannelRecordView>) -> Set<Seq<char>> {
    Set::new(|id: Seq<char>| holds(list, id))
}

/// In a list of distinct ids, a record stands at the position of its id.
pub proof fn lemma_position(list: Seq<ChannelRecordView>, i: int)
    requires
        distinct(list),
        0 <= i < list.len(),
    ensures
        position(list, list[i].channel_id) == Some(i),
        find(list, list[i].channel_id) == Some(list[i]),
{
    assert(holds(list, list[i].channel_id));
}

/// Taking a channel's record out of a list of distinct ids leaves the ids
/// distinct, leaves the channel without a record, and leaves every other
/// channel's record as it was.
pub proof fn lemma_without(list: Seq<ChannelRecordView>, channel_id: Seq<char>)
    requires
        distinct(list),
    ensures
        distinct(without(list, channel_id)),
        !holds(without(list, channel_id), channel_id),
        forall|other: Seq<char>|
            other != channel_id ==> #[trigger] find(without(list, channel_id), other) == find(
                list,
                other,
            ),
        without(list, channel_id).len() == if holds(list, channel_id) {
            list.len() - 1
        } else {
            list.len() as int
        },
{
    let rest = without(list, channel_id);
    match position(list, channel_id) {
        Some(p) => {
            assert forall|k: int| 0 <= k < rest.len() implies (#[trigger] rest[k]) == list[if k
                < p {
                k
            } else {
                k + 1
            }] by {}
            assert forall|other: Seq<char>| other != channel_id implies #[trigger] find(
                rest,
                other,
            ) == find(list, other) by {
                if holds(list, other) {
                    let i = position(list, other)->0;
                    let k = if i < p {
                        i
                    } else {
                        i - 1
                    };
                    assert(rest[k] == list[i]);
                    lemma_position(rest, k);
                } else {
                    if holds(rest, other) {
                        let k = position(rest, other)->0;
                        let i = if k < p {
                            k
                        } else {
                            k + 1
                        };
                        assert(list[i].channel_id == other);
                    }
                }
            }
            if holds(rest, channel_id) {
                let k = position(rest, channel_id)->0;
                let i = if k < p {
                    k
                } else {
                    k + 1
                };
                assert(list[i].channel_id == channel_id);
            }
        },
        None => {
            assert forall|other: Seq<char>| other != channel_id implies #[trigger] find(
                rest,
                other,
            ) == find(list, other) by {}
        },
    }
}

/// The test that a record's channel is among `remote`.
pub open spec fn known_to(remote: Set<Seq<char>>) -> spec_fn(ChannelRecordView) -> bool {
    |record: ChannelRecordView| remote.contains(record.channel_id)
}

/// The test that a record's channel is not among `remote`.
pub open spec fn unknown_to(remote: Set<Seq<char>>) -> spec_fn(ChannelRecordView) -> bool {
    |record: ChannelRecordView| !remote.contains(record.channel_id)
}

/// The records whose channels are among `remote`, in their order.
pub open spec fn kept(list: Seq<ChannelRecordView>, remote: Set<Seq<char>>) -> Seq<
    ChannelRecordView,
> {
    list.filter(known_to(remote))
}

/// The records whose channels are not among `remote`, in their order.
pub open spec fn dropped(list: Seq<ChannelRecordView>, remote: Set<Seq<char>>) -> Seq<
    ChannelRecordView,
> {
    list.filter(unknown_to(remote))
}

/// The records that are kept are records of the list, in the order of the
/// list: where the ids of the list are distinct, so are theirs.
pub proof fn lemma_kept_distinct(list: Seq<ChannelRecordView>, remote: Set<Seq<char>>)
    requires
        distinct(list),
    ensures
        distinct(kept(list, remote)),
        distinct(dropped(list, remote)),
    decreases list.len(),
{
    reveal(Seq::filter);
    if list.len() > 0 {
        let front = list.drop_last();
        lemma_kept_distinct(front, remote);
        lemma_filtered_from(front, known_to(remote));
        lemma_filtered_from(front, unknown_to(remote));
        assert forall|i: int| 0 <= i < front.len() implies (#[trigger] front[i]).channel_id
            != list.last().channel_id by {
            assert(front[i] == list[i]);
        }
    }
}

/// Every record that a test lets through is a record of the list.
pub proof fn lemma_filtered_from(list: Seq<ChannelRecordView>, test: spec_fn(ChannelRecordView) -> bool)
    ensures
        forall|k: int|
            0 <= k < list.filter(test).len() ==> exists|i: int|
                0 <= i < list.len() && #[trigger] list[i] == #[trigger] list.filter(test)[k],
    decreases list.len(),
{
    reveal(Seq::filter);
    if list.len() > 0 {
        let front = list.drop_last();
        lemma_filtered_from(front, test);
        let out = list.filter(test);
        assert forall|k: int| 0 <= k < out.len() implies exists|i: int|
            0 <= i < list.len() && #[trigger] list[i] == #[trigger] out[k] by {
            if k < front.filter(test).len() {
                let i = choose|i: int|
                    0 <= i < front.len() && #[trigger] front[i] == #[trigger] front.filter(test)[k];
                assert(list[i] == out[k]);
            } else {
                assert(list[list.len() - 1] == out[k]);
            }
        }
    }
}

/// What the store holds.
pub struct StoreView {
    pub identity: Option<IdentityView>,
    pub channels: Seq<ChannelRecordView>,
}

/// How [`RecordStore::put_channel`] treats a record whose channel is in the
/// store already.
#[derive(Clone, Copy, Debug, PartialEq, Eq, Structural)]
pub enum WriteMode {
    /// The channel must be new: an existing record is an error.
    Create,
    /// An existing record is replaced.
    Replace,
}

/// The message of the failure to give a channel another sender's key.
pub open spec fn key_locked_message() -> Seq<char> {
    "the application server key of a channel cannot change"@
}

/// The identity of this installation and the records of its channels.
pub struct RecordStore {
    identity: Option<Identity>,
    channels: Vec<ChannelRecord>,
}

impl View for RecordStore {
    type V = StoreView;

    closed spec fn view(&self) -> StoreView {
        StoreView {
            identity: optional_identity(self.identity),
            channels: records(self.channels@),
        }
    }
}

impl RecordStore {
    /// Whether the store is in order: no two records have the same channel
    /// id.
    pub open spec fn wf(&self) -> bool {
        distinct(self@.channels)
    }

    /// A store with no identity and no records.
    pub fn new() -> (store: RecordStore)
        ensures
            store.wf(),
            store@.identity is None,
            store@.channels == Seq::<ChannelRecordView>::empty(),
    {
        let store = RecordStore { identity: None, channels: Vec::new() };
        assert(store@.channels =~= Seq::<ChannelRecordView>::empty());
        store
    }

    /// The identity, where the installation has one.
    pub fn get_identity(&self) -> (identity: Option<Identity>)
        ensures
            optional_identity(identity) == self@.identity,
    {
        match &self.identity {
            Some(i) => Some(i.duplicate()),
            None => None,
        }
    }

    /// Whether the installation has an identity.
    pub fn has_identity(&self) -> (has: bool)
        ensures
            has == self@.identity is Some,
    {
        self.identity.is_some()
    }

    /// Stores the identity in place of the one held, if any.
    pub fn put_identity(&mut self, identity: Identity)
        ensures
            final(self)@.identity == Some(identity@),
            final(self)@.channels == old(self)@.channels,
    {
        self.identity = Some(identity);
    }

    /// Forgets the identity.
    pub fn clear_identity(&mut self)
        ensures
            final(self)@.identity is None,
            final(self)@.channels == old(self)@.channels,
    {
        self.identity = None;
    }

    /// The number of records.
    pub fn channel_count(&self) -> (count: usize)
        ensures
            count == self@.channels.len(),
    {
        self.channels.len()
    }

    /// The place of the channel's record.
    fn locate(&self, channel_id: &str) -> (place: Option<usize>)
        requires
            self.wf(),
        ensures
            match place {
                Some(i) => position(self@.channels, channel_id@) == Some(i as int) && i
                    < self.channels@.len(),
                None => !holds(self@.channels, channel_id@),
            },
    {
        let mut i: usize = 0;
        while i < self.channels.len()
            invariant
                i <= self.channels@.len(),
                self.wf(),
                forall|k: int| 0 <= k < i ==> (#[trigger] self@.channels[k]).channel_id
                    != channel_id@,
            decreases self.channels@.len() - i,
        {
            if same_text(self.channels[i].channel_id.as_str(), channel_id) {
                proof {
                    assert(self@.channels[i as int].channel_id == channel_id@);
                    lemma_position(self@.channels, i as int);
                }
                return Some(i);
            }
            i = i + 1;
        }
        None
    }

    /// Whether the store has a record for the channel.
    pub fn has_channel(&self, channel_id: &str) -> (has: bool)
        requires
            self.wf(),
        ensures
            has == holds(self@.channels, channel_id@),
    {
        self.locate(channel_id).is_some()
    }

    /// The channel's record, where the store has one.
    pub fn get_channel(&self, channel_id: &str) -> (record: Option<ChannelRecord>)
        requires
            self.wf(),
        ensures
            match record {
                Some(r) => find(self@.channels, channel_id@) == Some(r@),
                None => find(self@.channels, channel_id@) is None,
            },
    {
        match self.locate(channel_id) {
            Some(i) => Some(self.channels[i].duplicate()),
            None => None,
        }
    }

    /// Stores a record. A record for a new channel is added behind the
    /// others. For a channel that the store holds already, `Create` fails
    /// with `AlreadyRegisteredError`, and `Replace` puts the record in the
    /// place of the old one, unless the old one is restricted to a sender's
    /// key and the new one is not restricted to the same: that fails with
    /// `StorageError`. A failure leaves the store as it was.
    pub fn put_channel(&mut self, record: ChannelRecord, mode: WriteMode) -> (outcome: Result<
        (),
        ErrorKind,
    >)
        requires
            old(self).wf(),
        ensures
            final(self).wf(),
            final(self)@.identity == old(self)@.identity,
            match position(old(self)@.channels, record@.channel_id) {
                None => outcome is Ok && final(self)@.channels == old(self)@.channels.push(
                    record@,
                ),
                Some(i) => if mode == WriteMode::Create {
                    &&& outcome matches Err(e)
                    &&& e@ == ErrorView::AlreadyRegisteredError
                    &&& final(self)@ == old(self)@
                } else if old(self)@.channels[i].app_server_key is Some && old(
                    self,
                )@.channels[i].app_server_key != record@.app_server_key {
                    &&& outcome matches Err(e)
                    &&& e@ == ErrorView::StorageError(key_locked_message())
                    &&& final(self)@ == old(self)@
                } else {
                    &&& outcome is Ok
                    &&& final(self)@.channels == old(self)@.channels.update(i, record@)
                },
            },
    {
        match self.locate(record.channel_id.as_str()) {
            None => {
                proof {
                    let before = self@.channels;
                    let after = before.push(record@);
                    assert forall|i: int, j: int|
                        0 <= i < after.len() && 0 <= j < after.len() && i != j implies (
                    #[trigger] after[i]).channel_id != (#[trigger] after[j]).channel_id by {
                        if i < before.len() {
                            assert(after[i] == before[i]);
                        }
                        if j < before.len() {
                            assert(after[j] == before[j]);
                        }
                    }
                }
                self.channels.push(record);
                assert(self@.channels =~= old(self)@.channels.push(record@));
                Ok(())
            },
            Some(i) => {
                match mode {
                    WriteMode::Create => Err(ErrorKind::AlreadyRegisteredError),
                    WriteMode::Replace => {
                        let locked = match &self.channels[i].app_server_key {
                            Some(key) => match &record.app_server_key {
                                Some(new_key) => !same_text(key.as_str(), new_key.as_str()),
                                None => true,
                            },
                            None => false,
                        };
                        if locked {
                            return Err(
                                ErrorKind::StorageError(
                                    "the application server key of a channel cannot change".to_owned(),
                                ),
                            );
                        }
                        proof {
                            let before = self@.channels;
                            let after = before.update(i as int, record@);
                            assert forall|a: int, b: int|
                                0 <= a < after.len() && 0 <= b < after.len() && a != b implies (
                            #[trigger] after[a]).channel_id != (#[trigger] after[b]).channel_id by {
                                assert(after[a].channel_id == before[a].channel_id);
                                assert(after[b].channel_id == before[b].channel_id);
                            }
                        }
                        self.channels.set(i, record);
                        assert(self@.channels =~= old(self)@.channels.update(i as int, record@));
                        Ok(())
                    },
                }
            },
        }
    }

    /// Deletes the channel's record. Returns whether there was one.
    pub fn delete_channel(&mut self, channel_id: &str) -> (existed: bool)
        requires
            old(self).wf(),
        ensures
            final(self).wf(),
            existed == holds(old(self)@.channels, channel_id@),
            final(self)@.identity == old(self)@.identity,
            final(self)@.channels == without(old(self)@.channels, channel_id@),
    {
        proof {
            lemma_without(self@.channels, channel_id@);
        }
        match self.locate(channel_id) {
            Some(i) => {
                self.channels.remove(i);
                assert(self@.channels =~= old(self)@.channels.remove(i as int));
                true
            },
            None => false,
        }
    }

    /// Deletes every record.
    pub fn delete_all_channels(&mut self)
        ensures
            final(self).wf(),
            final(self)@.identity == old(self)@.identity,
            final(self)@.channels == Seq::<ChannelRecordView>::empty(),
    {
        self.channels = Vec::new();
        assert(self@.channels =~= Seq::<ChannelRecordView>::empty());
    }

    /// Deletes the records whose channels are not among `remote`, and
    /// returns them in their order.
    pub fn prune(&mut self, remote: &Vec<String>) -> (pruned: Vec<ChannelRecord>)
        requires
            old(self).wf(),
        ensures
            final(self).wf(),
            final(self)@.identity == old(self)@.identity,
            final(self)@.channels == kept(old(self)@.channels, texts(remote@).to_set()),
            records(pruned@) == dropped(old(self)@.channels, texts(remote@).to_set()),
    {
        let ghost all = self@.channels;
        let ghost known = texts(remote@).to_set();
        let mut before: Vec<ChannelRecord> = Vec::new();
        std::mem::swap(&mut before, &mut self.channels);
        let mut staying: Vec<ChannelRecord> = Vec::new();
        let mut pruned: Vec<ChannelRecord> = Vec::new();
        let mut i: usize = 0;
        assert(all.take(0) =~= Seq::<ChannelRecordView>::empty());
        proof {
            reveal(Seq::filter);
        }
        while i < before.len()
            invariant
                i <= before@.len(),
                all == records(before@),
                known == texts(remote@).to_set(),
                records(staying@) == kept(all.take(i as int), known),
                records(pruned@) == dropped(all.take(i as int), known),
            decreases before@.len() - i,
        {
            let record = before[i].duplicate();
            let ghost staying_before = staying@;
            let ghost pruned_before = pruned@;
            proof {
                assert(all.take(i + 1) =~= all.take(i as int).push(all[i as int]));
                all.take(i as int).lemma_filter_push(all[i as int], known_to(known));
                all.take(i as int).lemma_filter_push(all[i as int], unknown_to(known));
                assert(record@ == all[i as int]);
            }
            if holds_text(remote, record.channel_id.as_str()) {
                staying.push(record);
                assert(records(staying@) =~= records(staying_before).push(record@));
            } else {
                pruned.push(record);
                assert(records(pruned@) =~= records(pruned_before).push(record@));
            }
            i = i + 1;
        }
        assert(all.take(before@.len() as int) =~= all);
        proof {
            lemma_kept_distinct(all, known);
        }
        self.channels = staying;
        pruned
    }

    /// Copies of all records, in the order in which they were created.
    pub fn list_channels(&self) -> (list: Vec<ChannelRecord>)
        ensures
            records(list@) == self@.channels,
    {
        let mut list: Vec<ChannelRecord> = Vec::new();
        let mut i: usize = 0;
        while i < self.channels.len()
            invariant
                i <= self.channels@.len(),
                records(list@) == self@.channels.take(i as int),
            decreases self.channels@.len() - i,
        {
            let ghost before = list@;
            list.push(self.channels[i].duplicate());
            proof {
                let wanted = self@.channels.take(i + 1);
                assert(before.len() == records(before).len());
                assert forall|k: int| 0 <= k < wanted.len() implies records(list@)[k]
                    == wanted[k] by {
                    if k < i {
                        assert(list@[k] == before[k]);
                        assert(records(before)[k] == self@.channels.take(i as int)[k]);
                    }
                }
                assert(records(list@) =~= wanted);
            }
            i = i + 1;
        }
        assert(self@.channels.take(self.channels@.len() as int) =~= self@.channels);
        list
    }
}

} // verus!
