//! What holds of the manager in every state and for every answer of the
//! outside world.

use vstd::prelude::*;
use crate::base64url;
use crate::bridge::{channel_list_of, registration_of, removal_of, token_update_of, ReplyView};
use crate::bridge::BridgeCallView;
use crate::channel_id::{fresh_id, lemma_fresh_id};
use crate::error::ErrorView;
use crate::host::Exchange;
use crate::keystore::encoding_of;
use crate::model::{
    activated, channel_list_call_of, ciphertext_of, decrypt_asked, decrypted, dispatch_info_of,
    effective_key, forgotten, identity_from, notices, reconciled, recovered, registered, signed,
    subscribe_asked, subscribed, unsubscribe_asked, unsubscribed, unsubscribed_all, update_asked,
    updated, verified, verify_asked, well_formed, Lifecycle, ManagerView, SubscribeEvents,
};
use crate::store::{
    distinct, dropped, find, holds, known_to, lemma_filtered_from, lemma_kept_distinct,
    lemma_position, lemma_without, notice_of, position, unknown_to, ChannelRecordView,
};
use crate::types::{DispatchInfoView, PushSubscriptionChangedView};

verus! {

/// Whether a list of notices names the channel.
pub open spec fn reported(lost: Seq<PushSubscriptionChangedView>, channel_id: Seq<char>) -> bool {
    exists|k: int| 0 <= k < lost.len() && (#[trigger] lost[k]).channel_id == channel_id
}

/// Whether no two notices of the list name one channel.
pub open spec fn reported_once(lost: Seq<PushSubscriptionChangedView>) -> bool {
    forall|i: int, j: int|
        0 <= i < lost.len() && 0 <= j < lost.len() && i != j ==> (#[trigger] lost[i]).channel_id
            != (#[trigger] lost[j]).channel_id
}

/// A registration leaves the state in order.
pub proof fn law_registered_in_order(m: ManagerView, reply: ReplyView)
    requires
        well_formed(m),
    ensures
        well_formed(registered(m, reply).0),
        well_formed(forgotten(m)),
        well_formed(activated(m, reply).0),
        activated(m, reply).1 is Ok ==> activated(m, reply).0.lifecycle == Lifecycle::Active,
{
}

/// A subscription leaves the state in order: in particular no two records
/// ever have one channel id.
pub proof fn law_subscribed_in_order(
    m: ManagerView,
    channel_id: Seq<char>,
    scope: Seq<char>,
    server_key: Option<Seq<char>>,
    now: u64,
    events: SubscribeEvents,
)
    requires
        well_formed(m),
    ensures
        well_formed(subscribed(m, channel_id, scope, server_key, now, events).0),
{
    let active = activated(m, events.registration).0;
    law_registered_in_order(m, events.registration);
    let after = subscribed(m, channel_id, scope, server_key, now, events).0;
    if after != active {
        let record = after.channels.last();
        assert(after.channels == active.channels.push(record));
        assert(!holds(active.channels, record.channel_id));
        assert forall|i: int, j: int|
            0 <= i < after.channels.len() && 0 <= j < after.channels.len() && i != j implies (
        #[trigger] after.channels[i]).channel_id != (#[trigger] after.channels[j]).channel_id by {
            if i < active.channels.len() {
                assert(after.channels[i] == active.channels[i]);
            }
            if j < active.channels.len() {
                assert(after.channels[j] == active.channels[j]);
            }
        }
    }
}

/// A successful subscription under a channel id that the caller chose
/// stores one record under that id, behind the records that were there,
/// and tells the caller the id, the endpoint and the keys of that record.
pub proof fn law_subscribe_stores_the_channel(
    m: ManagerView,
    channel_id: Seq<char>,
    scope: Seq<char>,
    server_key: Option<Seq<char>>,
    now: u64,
    events: SubscribeEvents,
)
    requires
        well_formed(m),
        channel_id.len() > 0,
        subscribed(m, channel_id, scope, server_key, now, events).1 is Ok,
    ensures
        ({
            let (after, result) = subscribed(m, channel_id, scope, server_key, now, events);
            let active = activated(m, events.registration).0;
            let record = after.channels.last();
            &&& after.channels == active.channels.push(record)
            &&& !holds(active.channels, channel_id)
            &&& record.channel_id == channel_id
            &&& record.scope == scope
            &&& record.app_server_key == effective_key(server_key)
            &&& record.ctime == now
            &&& result->Ok_0.channel_id == channel_id
            &&& result->Ok_0.subscription_info.endpoint == record.endpoint
            &&& find(after.channels, channel_id) == Some(record)
            &&& after.lifecycle == Lifecycle::Active
        }),
{
    law_subscribed_in_order(m, channel_id, scope, server_key, now, events);
    let after = subscribed(m, channel_id, scope, server_key, now, events).0;
    lemma_position(after.channels, after.channels.len() - 1);
}

/// A successful subscription without a channel id stores its record under
/// an id of thirty-two characters, made from the entropy that the host
/// delivered: never under the empty id, which stands for all channels.
pub proof fn law_made_up_id_is_an_id(
    m: ManagerView,
    scope: Seq<char>,
    server_key: Option<Seq<char>>,
    now: u64,
    events: SubscribeEvents,
)
    requires
        well_formed(m),
        subscribed(m, Seq::empty(), scope, server_key, now, events).1 is Ok,
    ensures
        ({
            let (after, result) = subscribed(m, Seq::empty(), scope, server_key, now, events);
            &&& events.entropy is Ok
            &&& result->Ok_0.channel_id == fresh_id(events.entropy->Ok_0)
            &&& result->Ok_0.channel_id.len() == 32
            &&& after.channels.last().channel_id == result->Ok_0.channel_id
        }),
{
    lemma_fresh_id(events.entropy->Ok_0);
}

/// Two successful subscriptions under two channel ids give two records,
/// each under its id.
pub proof fn law_distinct_ids_distinct_records(
    m: ManagerView,
    first_id: Seq<char>,
    second_id: Seq<char>,
    scope: Seq<char>,
    server_key: Option<Seq<char>>,
    now: u64,
    first: SubscribeEvents,
    second: SubscribeEvents,
)
    requires
        well_formed(m),
        first_id.len() > 0,
        second_id.len() > 0,
        first_id != second_id,
        subscribed(m, first_id, scope, server_key, now, first).1 is Ok,
        subscribed(
            subscribed(m, first_id, scope, server_key, now, first).0,
            second_id,
            scope,
            server_key,
            now,
            second,
        ).1 is Ok,
    ensures
        ({
            let between = subscribed(m, first_id, scope, server_key, now, first).0;
            let after = subscribed(between, second_id, scope, server_key, now, second).0;
            &&& find(after.channels, first_id) is Some
            &&& find(after.channels, second_id) is Some
            &&& find(after.channels, first_id) == find(between.channels, first_id)
            &&& find(after.channels, first_id)->0.channel_id == first_id
            &&& find(after.channels, second_id)->0.channel_id == second_id
            &&& distinct(after.channels)
        }),
{
    let between = subscribed(m, first_id, scope, server_key, now, first).0;
    let after = subscribed(between, second_id, scope, server_key, now, second).0;
    law_subscribed_in_order(m, first_id, scope, server_key, now, first);
    law_subscribe_stores_the_channel(m, first_id, scope, server_key, now, first);
    law_subscribed_in_order(between, second_id, scope, server_key, now, second);
    law_subscribe_stores_the_channel(between, second_id, scope, server_key, now, second);
    let k = between.channels.len() - 1;
    assert(after.channels[k] == between.channels[k]);
    lemma_position(after.channels, k);
}

/// A subscription under a channel id that has a record fails with
/// `AlreadyRegisteredError` and leaves the state, and so the record, as it
/// was.
pub proof fn law_subscribe_again_is_refused(
    m: ManagerView,
    channel_id: Seq<char>,
    scope: Seq<char>,
    server_key: Option<Seq<char>>,
    now: u64,
    events: SubscribeEvents,
)
    requires
        well_formed(m),
        m.lifecycle == Lifecycle::Active,
        channel_id.len() > 0,
        holds(m.channels, channel_id),
    ensures
        subscribed(m, channel_id, scope, server_key, now, events) == (
            m,
            Err::<crate::types::SubscriptionResponseView, ErrorView>(
                ErrorView::AlreadyRegisteredError,
            ),
        ),
{
}

/// A subscription that fails stores no record: the records are those that
/// were there, or none where a stale identity was forgotten.
pub proof fn law_failed_subscription_stores_nothing(
    m: ManagerView,
    channel_id: Seq<char>,
    scope: Seq<char>,
    server_key: Option<Seq<char>>,
    now: u64,
    events: SubscribeEvents,
)
    requires
        well_formed(m),
        subscribed(m, channel_id, scope, server_key, now, events).1 is Err,
    ensures
        ({
            let after = subscribed(m, channel_id, scope, server_key, now, events).0;
            after.channels == m.channels || after.channels == Seq::<ChannelRecordView>::empty()
        }),
{
}

/// After a successful subscription the routing information of the channel
/// is what was subscribed: the scope, the endpoint that the subscriber was
/// told, and the sender's key.
pub proof fn law_subscribe_then_dispatch(
    m: ManagerView,
    channel_id: Seq<char>,
    scope: Seq<char>,
    server_key: Option<Seq<char>>,
    now: u64,
    events: SubscribeEvents,
)
    requires
        well_formed(m),
        subscribed(m, channel_id, scope, server_key, now, events).1 is Ok,
    ensures
        ({
            let (after, result) = subscribed(m, channel_id, scope, server_key, now, events);
            dispatch_info_of(after, result->Ok_0.channel_id) == Some(
                DispatchInfoView {
                    scope,
                    endpoint: result->Ok_0.subscription_info.endpoint,
                    app_server_key: effective_key(server_key),
                },
            )
        }),
{
    law_subscribed_in_order(m, channel_id, scope, server_key, now, events);
    let after = subscribed(m, channel_id, scope, server_key, now, events).0;
    lemma_position(after.channels, after.channels.len() - 1);
}

/// Closing channels leaves the state in order.
pub proof fn law_unsubscribed_in_order(m: ManagerView, channel_id: Seq<char>, reply: ReplyView)
    requires
        well_formed(m),
    ensures
        well_formed(unsubscribed(m, channel_id, reply).0),
        well_formed(unsubscribed_all(m, reply).0),
{
    lemma_without(m.channels, channel_id);
}

/// Closing a channel that has no record is no failure of its own and
/// leaves the state as it was: the result is the server's word on whether
/// it removed anything, `false` where there is no identity to ask with, and
/// a failure only where the call to the server failed.
pub proof fn law_unsubscribe_without_record(m: ManagerView, channel_id: Seq<char>, reply: ReplyView)
    requires
        well_formed(m),
        channel_id.len() > 0,
        !holds(m.channels, channel_id),
    ensures
        unsubscribed(m, channel_id, reply).0 == m,
        unsubscribed(m, channel_id, reply).1 == if m.identity is None {
            Ok::<bool, ErrorView>(false)
        } else {
            removal_of(reply)
        },
{
}

/// Once a channel is closed it has no record, the records of the other
/// channels are as they were, and closing it again changes nothing.
pub proof fn law_unsubscribe_twice(
    m: ManagerView,
    channel_id: Seq<char>,
    first: ReplyView,
    second: ReplyView,
)
    requires
        well_formed(m),
        channel_id.len() > 0,
        unsubscribed(m, channel_id, first).1 is Ok,
    ensures
        ({
            let after = unsubscribed(m, channel_id, first).0;
            &&& !holds(after.channels, channel_id)
            &&& forall|other: Seq<char>|
                other != channel_id ==> #[trigger] find(after.channels, other) == find(
                    m.channels,
                    other,
                )
            &&& unsubscribed(after, channel_id, second).0 == after
        }),
{
    lemma_without(m.channels, channel_id);
    let after = unsubscribed(m, channel_id, first).0;
    law_unsubscribed_in_order(m, channel_id, first);
    law_unsubscribe_without_record(after, channel_id, second);
}

/// Where closing a channel fails, the state is as it was.
pub proof fn law_failed_unsubscribe_changes_nothing(
    m: ManagerView,
    channel_id: Seq<char>,
    reply: ReplyView,
)
    requires
        unsubscribed(m, channel_id, reply).1 is Err,
    ensures
        unsubscribed(m, channel_id, reply).0 == m,
        unsubscribed_all(m, reply).1 is Err ==> unsubscribed_all(m, reply).0 == m,
{
}

/// An update of the token leaves the state in order and holds the token,
/// whatever the server replies.
pub proof fn law_updated_in_order(m: ManagerView, token: Seq<char>, reply: ReplyView)
    requires
        well_formed(m),
    ensures
        well_formed(updated(m, token, reply).0),
        updated(m, token, reply).0.token == Some(token),
        updated(m, token, reply).0.channels == m.channels,
{
}

/// Where the server does not know the identity under which a token is
/// reported, the update is no failure: its result is `false`, and the
/// identity is stale from then on. No other failure is absorbed.
pub proof fn law_update_absorbs_identity_loss(m: ManagerView, token: Seq<char>, reply: ReplyView)
    requires
        well_formed(m),
        m.identity is Some,
    ensures
        token_update_of(reply) matches Err(ErrorView::UAIDNotRecognizedError(_)) ==> updated(
            m,
            token,
            reply,
        ).1 == Ok::<bool, ErrorView>(false) && updated(m, token, reply).0.lifecycle
            == Lifecycle::Stale,
        token_update_of(reply) is Err && !(token_update_of(reply)->Err_0
            is UAIDNotRecognizedError) ==> updated(m, token, reply).1 == Err::<bool, ErrorView>(
            token_update_of(reply)->Err_0,
        ) && updated(m, token, reply).0.lifecycle == m.lifecycle,
        token_update_of(reply) is Ok ==> updated(m, token, reply).1 == Ok::<bool, ErrorView>(true),
{
}

/// A test lets through exactly the records of the list that pass it.
proof fn lemma_filter_membership(
    list: Seq<ChannelRecordView>,
    test: spec_fn(ChannelRecordView) -> bool,
)
    ensures
        forall|k: int| 0 <= k < list.filter(test).len() ==> test(#[trigger] list.filter(test)[k]),
        forall|i: int|
            0 <= i < list.len() && test(list[i]) ==> exists|k: int|
                0 <= k < list.filter(test).len() && #[trigger] list.filter(test)[k]
                    == #[trigger] list[i],
    decreases list.len(),
{
    reveal(Seq::filter);
    if list.len() > 0 {
        let front = list.drop_last();
        lemma_filter_membership(front, test);
        let out = list.filter(test);
        assert forall|i: int| 0 <= i < list.len() && test(list[i]) implies exists|k: int|
            0 <= k < out.len() && #[trigger] out[k] == #[trigger] list[i] by {
            if i < front.len() {
                assert(front[i] == list[i]);
                let k = choose|k: int|
                    0 <= k < front.filter(test).len() && #[trigger] front.filter(test)[k]
                        == front[i];
                assert(out[k] == list[i]);
            } else {
                assert(out[out.len() - 1] == list[i]);
            }
        }
    }
}

/// Of the records of distinct ids, those that a test lets through hold
/// for each channel the record that the list holds, where that passes the
/// test, and none otherwise.
proof fn lemma_find_filtered(
    list: Seq<ChannelRecordView>,
    test: spec_fn(ChannelRecordView) -> bool,
    channel_id: Seq<char>,
)
    requires
        distinct(list),
    ensures
        find(list.filter(test), channel_id) == match find(list, channel_id) {
            Some(record) => if test(record) {
                Some(record)
            } else {
                None
            },
            None => None,
        },
{
    let out = list.filter(test);
    lemma_filter_membership(list, test);
    lemma_filtered_from(list, test);
    if holds(out, channel_id) {
        let k = position(out, channel_id)->0;
        let i = choose|i: int| 0 <= i < list.len() && #[trigger] list[i] == #[trigger] out[k];
        lemma_position(list, i);
    } else {
        if holds(list, channel_id) {
            let i = position(list, channel_id)->0;
            if test(list[i]) {
                let k = choose|k: int| 0 <= k < out.len() && #[trigger] out[k] == list[i];
                assert(out[k].channel_id == channel_id);
            }
        }
    }
}

/// Bringing the records in line with the channels of the server reports
/// exactly the channels that have a record and that the server does not
/// have, each once and with the scope of its record, and deletes their
/// records. The records of the channels that the server has stay as they
/// are. Of a channel that only the server has, nothing is stored and
/// nothing reported. Identity, token and lifecycle stay as they are.
pub proof fn law_reconciliation(m: ManagerView, remote: Seq<Seq<char>>)
    requires
        well_formed(m),
    ensures
        ({
            let (after, lost) = reconciled(m, remote);
            &&& well_formed(after)
            &&& after.identity == m.identity
            &&& after.token == m.token
            &&& after.lifecycle == m.lifecycle
            &&& after.config == m.config
            &&& reported_once(lost)
            &&& forall|id: Seq<char>| #[trigger]
                reported(lost, id) <==> holds(m.channels, id) && !remote.contains(id)
            &&& forall|k: int|
                0 <= k < lost.len() ==> (find(m.channels, (#[trigger] lost[k]).channel_id)
                    matches Some(record) && record.scope == lost[k].scope)
            &&& forall|id: Seq<char>|
                remote.contains(id) ==> #[trigger] find(after.channels, id) == find(
                    m.channels,
                    id,
                )
            &&& forall|id: Seq<char>| !remote.contains(id) ==> !#[trigger] holds(after.channels, id)
        }),
{
    let known = remote.to_set();
    let (after, lost) = reconciled(m, remote);
    let gone = dropped(m.channels, known);
    lemma_kept_distinct(m.channels, known);
    lemma_filter_membership(m.channels, unknown_to(known));
    lemma_filter_membership(m.channels, known_to(known));
    lemma_filtered_from(m.channels, unknown_to(known));
    if m.identity is None {
        reveal(Seq::filter);
    }
    assert forall|id: Seq<char>| #[trigger] reported(lost, id) <==> holds(m.channels, id)
        && !remote.contains(id) by {
        lemma_find_filtered(m.channels, unknown_to(known), id);
        if reported(lost, id) {
            let k = choose|k: int| 0 <= k < lost.len() && (#[trigger] lost[k]).channel_id == id;
            assert(gone[k].channel_id == id);
            let i = choose|i: int|
                0 <= i < m.channels.len() && #[trigger] m.channels[i] == #[trigger] gone[k];
            assert(m.channels[i].channel_id == id);
        }
        if holds(m.channels, id) && !remote.contains(id) {
            let i = position(m.channels, id)->0;
            let k = choose|k: int| 0 <= k < gone.len() && #[trigger] gone[k] == m.channels[i];
            assert(lost[k].channel_id == id);
        }
    }
    assert forall|k: int| 0 <= k < lost.len() implies (find(
        m.channels,
        (#[trigger] lost[k]).channel_id,
    ) matches Some(record) && record.scope == lost[k].scope) by {
        let i = choose|i: int|
            0 <= i < m.channels.len() && #[trigger] m.channels[i] == #[trigger] gone[k];
        lemma_position(m.channels, i);
    }
    assert forall|i: int, j: int|
        0 <= i < lost.len() && 0 <= j < lost.len() && i != j implies (#[trigger] lost[i]).channel_id
            != (#[trigger] lost[j]).channel_id by {
        assert(gone[i].channel_id != gone[j].channel_id);
    }
    assert forall|id: Seq<char>| remote.contains(id) implies #[trigger] find(after.channels, id)
        == find(m.channels, id) by {
        lemma_find_filtered(m.channels, known_to(known), id);
    }
    assert forall|id: Seq<char>| !remote.contains(id) implies !#[trigger] holds(
        after.channels,
        id,
    ) by {
        lemma_find_filtered(m.channels, known_to(known), id);
    }
}

/// The notices for a list of records name each record's channel once, in
/// the order of the records.
pub proof fn law_notices_name_each_once(list: Seq<ChannelRecordView>)
    requires
        distinct(list),
    ensures
        notices(list).len() == list.len(),
        forall|k: int| 0 <= k < list.len() ==> #[trigger] notices(list)[k] == notice_of(list[k]),
        reported_once(notices(list)),
        forall|id: Seq<char>| #[trigger] reported(notices(list), id) <==> holds(list, id),
{
    let lost = notices(list);
    assert forall|i: int, j: int|
        0 <= i < lost.len() && 0 <= j < lost.len() && i != j implies (#[trigger] lost[i]).channel_id
            != (#[trigger] lost[j]).channel_id by {
        assert(list[i].channel_id != list[j].channel_id);
    }
    assert forall|id: Seq<char>| #[trigger] reported(lost, id) <==> holds(list, id) by {
        if reported(lost, id) {
            let k = choose|k: int| 0 <= k < lost.len() && (#[trigger] lost[k]).channel_id == id;
            assert(list[k].channel_id == id);
        }
        if holds(list, id) {
            let i = position(list, id)->0;
            assert(lost[i].channel_id == id);
        }
    }
}

/// A verification of the connection leaves the state in order.
pub proof fn law_verified_in_order(m: ManagerView, listing: ReplyView, registration: ReplyView)
    requires
        well_formed(m),
    ensures
        well_formed(verified(m, listing, registration).0),
{
    if let Ok(remote) = channel_list_of(listing) {
        law_reconciliation(m, remote);
    }
}

/// Where the identity is lost, because the server says so when asked for
/// the channels or because an update of the token found it so before, a
/// verification forgets the identity and all records and registers anew.
/// Where the registration succeeds, the result names every channel that
/// had a record once, and the state holds the new identity, which is
/// active and has no records. Where it fails, the failure is the result,
/// and the state holds no identity and no records.
pub proof fn law_identity_loss_recovery(m: ManagerView, listing: ReplyView, registration: ReplyView)
    requires
        well_formed(m),
        m.identity is Some,
        m.lifecycle == Lifecycle::Stale || channel_list_of(listing) matches Err(
            ErrorView::UAIDNotRecognizedError(_),
        ),
    ensures
        ({
            let (after, result) = verified(m, listing, registration);
            &&& well_formed(after)
            &&& after.channels.len() == 0
            &&& after.token == m.token
            &&& match registration_of(registration) {
                Ok(fresh) => {
                    &&& result == Ok::<Seq<PushSubscriptionChangedView>, ErrorView>(
                        notices(m.channels),
                    )
                    &&& reported_once(notices(m.channels))
                    &&& forall|id: Seq<char>| #[trigger]
                        reported(notices(m.channels), id) <==> holds(m.channels, id)
                    &&& after.identity == Some(identity_from(m.config, m.token->0, fresh))
                    &&& after.lifecycle == Lifecycle::Active
                },
                Err(error) => {
                    &&& result == Err::<Seq<PushSubscriptionChangedView>, ErrorView>(error)
                    &&& after.identity is None
                    &&& after.lifecycle == Lifecycle::Uninitialized
                },
            }
        }),
{
    law_notices_name_each_once(m.channels);
}

/// Where the identity is lost, a verification registers exactly once: it
/// asks the server for the channels, unless the identity was stale before,
/// and then for one registration with the token that the manager holds.
pub proof fn law_recovery_registers_once(
    m: ManagerView,
    listing: ReplyView,
    registration: ReplyView,
)
    requires
        well_formed(m),
        m.identity is Some,
        m.lifecycle == Lifecycle::Stale || channel_list_of(listing) matches Err(
            ErrorView::UAIDNotRecognizedError(_),
        ),
    ensures
        ({
            let register = Exchange::Call {
                config: m.config,
                call: BridgeCallView::Register { token: m.token->0 },
                reply: registration,
            };
            let list = Exchange::Call {
                config: m.config,
                call: channel_list_call_of(m)->0,
                reply: listing,
            };
            verify_asked(m, listing, registration) == if m.lifecycle == Lifecycle::Stale {
                seq![register]
            } else {
                seq![list, register]
            }
        }),
{
    let asked = verify_asked(m, listing, registration);
    if m.lifecycle == Lifecycle::Stale {
        assert(asked =~= seq![asked[0]]);
    } else {
        assert(asked =~= seq![asked[0], asked[1]]);
    }
}

/// Where the server knows the identity, a verification asks it for the
/// channels and asks nothing else; without an identity it asks nothing.
pub proof fn law_verification_asks_for_the_channels(
    m: ManagerView,
    listing: ReplyView,
    registration: ReplyView,
)
    requires
        well_formed(m),
        m.lifecycle != Lifecycle::Stale,
        !(channel_list_of(listing) matches Err(ErrorView::UAIDNotRecognizedError(_))),
    ensures
        verify_asked(m, listing, registration) == match channel_list_call_of(m) {
            Some(call) => seq![Exchange::Call { config: m.config, call, reply: listing }],
            None => Seq::<Exchange>::empty(),
        },
{
}

/// An update of the token tells the server the new token, under the
/// identity that the manager holds, and asks nothing else: it never
/// registers, whatever the server replies.
pub proof fn law_update_tells_the_token(m: ManagerView, token: Seq<char>, reply: ReplyView)
    requires
        well_formed(m),
    ensures
        update_asked(m, token, reply) == match m.identity {
            Some(identity) => seq![
                Exchange::Call {
                    config: m.config,
                    call: BridgeCallView::UpdateToken {
                        uaid: identity.uaid,
                        secret: identity.secret,
                        token,
                    },
                    reply,
                },
            ],
            None => Seq::<Exchange>::empty(),
        },
{
}

/// A subscription to a channel that has a record asks nothing of the
/// outside world where the identity is active, and closing a channel asks
/// the server once, whether the channel has a record or not.
pub proof fn law_refusals_ask_nothing(
    m: ManagerView,
    channel_id: Seq<char>,
    server_key: Option<Seq<char>>,
    events: SubscribeEvents,
    reply: ReplyView,
)
    requires
        well_formed(m),
        m.lifecycle == Lifecycle::Active,
        channel_id.len() > 0,
    ensures
        holds(m.channels, channel_id) ==> subscribe_asked(m, channel_id, server_key, events)
            == Seq::<Exchange>::empty(),
        unsubscribe_asked(m, channel_id, reply).len() == 1,
{
}

/// A message for a channel without a record is not handed to the
/// decryption, nor is a body that is not base64 or a message in an
/// encoding that is not recognised.
pub proof fn law_decrypt_asks_only_for_messages(
    m: ManagerView,
    channel_id: Seq<char>,
    body: Seq<char>,
    encoding: Seq<char>,
    salt: Seq<char>,
    dh: Seq<char>,
    opened: Result<Seq<u8>, Seq<char>>,
)
    ensures
        !holds(m.channels, channel_id) || base64url::decode_spec(body) is None || encoding_of(
            encoding,
        ) is None ==> decrypt_asked(m, channel_id, body, encoding, salt, dh, opened)
            == Seq::<Exchange>::empty(),
{
}

/// After an update of the token that found the identity lost, the next
/// verification recovers whatever the server says of the channels, and the
/// next subscription registers anew before it opens its channel.
pub proof fn law_recovery_after_update(
    m: ManagerView,
    token: Seq<char>,
    update: ReplyView,
    listing: ReplyView,
    registration: ReplyView,
)
    requires
        well_formed(m),
        m.identity is Some,
        token_update_of(update) matches Err(ErrorView::UAIDNotRecognizedError(_)),
    ensures
        ({
            let stale = updated(m, token, update).0;
            &&& stale.channels == m.channels
            &&& stale.lifecycle == Lifecycle::Stale
            &&& verified(stale, listing, registration) == recovered(stale, registration)
            &&& activated(stale, registration) == registered(forgotten(stale), registration)
        }),
{
}

/// A message for a channel without a record is not decrypted: the result
/// is `RecordNotFoundError` with the channel id, whatever the message.
pub proof fn law_decrypt_unknown_channel(
    m: ManagerView,
    channel_id: Seq<char>,
    body: Seq<char>,
    encoding: Seq<char>,
    opened: Result<Seq<u8>, Seq<char>>,
)
    requires
        !holds(m.channels, channel_id),
    ensures
        decrypted(m, channel_id, body, encoding, opened) == Err::<Seq<i8>, ErrorView>(
            ErrorView::RecordNotFoundError(channel_id),
        ),
{
}

/// A message for a channel with a record yields plaintext only with the
/// consent of the decryption: where the body is not base64, the encoding
/// is not recognised or the decryption fails, the result is a
/// `CryptoError`; otherwise it is the plaintext that the decryption handed
/// back, as signed bytes.
pub proof fn law_decrypt_known_channel(
    m: ManagerView,
    channel_id: Seq<char>,
    body: Seq<char>,
    encoding: Seq<char>,
    opened: Result<Seq<u8>, Seq<char>>,
)
    requires
        holds(m.channels, channel_id),
    ensures
        ({
            let result = decrypted(m, channel_id, body, encoding, opened);
            if base64url::decode_spec(body) is Some && encoding_of(encoding) is Some && opened
                is Ok {
                result == Ok::<Seq<i8>, ErrorView>(signed(opened->Ok_0))
            } else {
                result matches Err(ErrorView::CryptoError(_))
            }
        }),
{
}

/// What is handed to the decryption for a body that a sender wrote in
/// base64 is the ciphertext that the sender wrote, with the record of the
/// channel.
pub proof fn law_decrypt_reads_the_ciphertext(
    m: ManagerView,
    channel_id: Seq<char>,
    ciphertext: Seq<u8>,
)
    requires
        holds(m.channels, channel_id),
    ensures
        ciphertext_of(m, channel_id, base64url::encode_spec(ciphertext)) == Ok::<
            (ChannelRecordView, Seq<u8>),
            ErrorView,
        >((find(m.channels, channel_id)->0, ciphertext)),
{
    base64url::law_decode_encode(ciphertext);
}

} // verus!
