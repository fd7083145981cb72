//! The per-connection gateway state machine: after a valid identify the
//! session subscribes to every channel the user can see, presence goes
//! online and the arrival is announced; inbound frames either carry voice
//! signalling to the forwarding unit or are ignored; and on disconnect every
//! trace of the session — session map, subscriber lists, voice and
//! forwarding-unit state — is removed, presence goes offline, and the
//! departure is announced exactly once on each channel the user was
//! subscribed to, using the locally retained list after the global index no
//! longer mentions the user.

use crate::models::{PresenceStatus, UserPublic, VoiceParticipant, WsEvent};
use crate::presence::PresenceRegistry;
use crate::registry::{
    delivered, mailbox_spec, nodup, spec_push_bounded, Registry, MAILBOX_CAPACITY,
};
use crate::sfu::{sfu_user, swf, SfuState};
use crate::voice::{parts, vin, vwf, vsingle, VoiceStates};
use vstd::prelude::*;

verus! {

/// Whether `u` is in channel `c`'s subscriber list under the map `m`.
pub open spec fn sub_contains(m: crate::idmap::IdMap<Vec<u128>>, c: u128, u: u128) -> bool {
    match m.spec_get(c) {
        Some(l) => l@.contains(u),
        None => false,
    }
}

/// The presence event announcing a user's status.
pub open spec fn presence_event(user: u128, status: PresenceStatus) -> WsEvent {
    WsEvent::PresenceUpdate { user_id: user, status }
}

/// The event announcing a user's departure from a voice channel.
pub open spec fn voice_leave_event(c: u128, user: u128) -> WsEvent {
    WsEvent::VoiceStateUpdate {
        channel_id: c,
        user_id: user,
        joined: false,
        muted: false,
        deafened: false,
        user: None,
    }
}

/// A user's mailbox after one event per listed channel was fanned out: for
/// each channel in order, subscribers receive that channel's event.
pub open spec fn fanout_chain(
    subs: crate::idmap::IdMap<Vec<u128>>,
    channels: Seq<u128>,
    u: u128,
    mb: Seq<WsEvent>,
    ef: spec_fn(u128) -> WsEvent,
) -> Seq<WsEvent>
    decreases channels.len(),
{
    if channels.len() == 0 {
        mb
    } else {
        let mb1 = if sub_contains(subs, channels[0], u) {
            spec_push_bounded(mb, ef(channels[0]))
        } else {
            mb
        };
        fanout_chain(subs, channels.skip(1), u, mb1, ef)
    }
}

/// Extending the channel list by one channel appends that channel's event
/// when the user subscribes to it.
proof fn lemma_chain_snoc(
    subs: crate::idmap::IdMap<Vec<u128>>,
    channels: Seq<u128>,
    c: u128,
    u: u128,
    mb: Seq<WsEvent>,
    ef: spec_fn(u128) -> WsEvent,
)
    ensures
        fanout_chain(subs, channels.push(c), u, mb, ef) == (if sub_contains(subs, c, u) {
            spec_push_bounded(fanout_chain(subs, channels, u, mb, ef), ef(c))
        } else {
            fanout_chain(subs, channels, u, mb, ef)
        }),
    decreases channels.len(),
{
    reveal_with_fuel(fanout_chain, 3);
    let s = channels.push(c);
    if channels.len() == 0 {
        assert(s[0] == c);
        assert(s.skip(1) =~= Seq::<u128>::empty());
    } else {
        assert(s[0] == channels[0]);
        assert(s.skip(1) =~= channels.skip(1).push(c));
        let mb1 = if sub_contains(subs, channels[0], u) {
            spec_push_bounded(mb, ef(channels[0]))
        } else {
            mb
        };
        lemma_chain_snoc(subs, channels.skip(1), c, u, mb1, ef);
    }
}

/// Two subscription indexes that agree on membership yield the same fan-out.
proof fn lemma_chain_congruence(
    s1: crate::idmap::IdMap<Vec<u128>>,
    s2: crate::idmap::IdMap<Vec<u128>>,
    channels: Seq<u128>,
    u: u128,
    mb: Seq<WsEvent>,
    ef: spec_fn(u128) -> WsEvent,
)
    requires
        forall|c: u128| #[trigger] sub_contains(s1, c, u) == sub_contains(s2, c, u),
    ensures
        fanout_chain(s1, channels, u, mb, ef) == fanout_chain(s2, channels, u, mb, ef),
    decreases channels.len(),
{
    if channels.len() > 0 {
        let mb1 = if sub_contains(s1, channels[0], u) {
            spec_push_bounded(mb, ef(channels[0]))
        } else {
            mb
        };
        lemma_chain_congruence(s1, s2, channels.skip(1), u, mb1, ef);
    }
}

/// With room in the mailbox, a fan-out over duplicate-free channels appends
/// exactly one event per channel the user subscribes to, in order: the
/// departed user's final presence update reaches each channel's subscribers
/// exactly once.
pub proof fn lemma_fanout_once(
    subs: crate::idmap::IdMap<Vec<u128>>,
    channels: Seq<u128>,
    u: u128,
    mb: Seq<WsEvent>,
    ef: spec_fn(u128) -> WsEvent,
)
    requires
        mb.len() + channels.len() <= MAILBOX_CAPACITY,
    ensures
        fanout_chain(subs, channels, u, mb, ef) == mb + channels.filter(
            |c: u128| sub_contains(subs, c, u),
        ).map_values(ef),
    decreases channels.len(),
{
    reveal(Seq::filter);
    if channels.len() == 0 {
        assert(channels.filter(|c: u128| sub_contains(subs, c, u)).map_values(ef)
            =~= Seq::<WsEvent>::empty());
        assert(mb + channels.filter(|c: u128| sub_contains(subs, c, u)).map_values(ef) =~= mb);
    } else {
        let front = channels.drop_last();
        let c = channels.last();
        assert(front.push(c) =~= channels);
        lemma_fanout_once(subs, front, u, mb, ef);
        lemma_chain_snoc(subs, front, c, u, mb, ef);
        front.lemma_filter_len(|c2: u128| sub_contains(subs, c2, u));
        let kept_front = front.filter(|c2: u128| sub_contains(subs, c2, u));
        if sub_contains(subs, c, u) {
            assert(channels.filter(|c2: u128| sub_contains(subs, c2, u)) == kept_front.push(c));
            assert((mb + kept_front.map_values(ef)).len() < MAILBOX_CAPACITY);
            assert(fanout_chain(subs, channels, u, mb, ef) == (mb + kept_front.map_values(
                ef,
            )).push(ef(c)));
            assert(kept_front.push(c).map_values(ef) =~= kept_front.map_values(ef).push(ef(c)));
            assert((mb + kept_front.map_values(ef)).push(ef(c)) =~= mb + kept_front.push(
                c,
            ).map_values(ef));
        } else {
            assert(channels.filter(|c2: u128| sub_contains(subs, c2, u)) == kept_front);
        }
    }
}

/// A live gateway connection: who it belongs to and the channels it
/// subscribed, retained locally so cleanup can announce the departure after
/// the global index forgets the user.
pub struct GatewayConn {
    pub user_id: u128,
    pub subscribed: Vec<u128>,
}

/// What an inbound frame asks of the server.
#[derive(Debug, Clone, Copy, PartialEq, Eq, Structural)]
pub enum InboundAction {
    /// A voice offer addressed to the forwarding unit.
    SfuOffer { channel_id: u128 },
    /// An ICE candidate addressed to the forwarding unit.
    SfuIce { channel_id: u128 },
    /// A signal addressed to another user: peer-to-peer is not supported and
    /// the frame is rejected.
    RejectPeerSignal,
    /// Anything else is ignored with a warning.
    Ignore,
}

/// Where an inbound frame goes: voice signalling whose `to_user_id` is the
/// zero id goes to the forwarding unit, split by signal type; one addressed
/// to any other user is rejected (peer-to-peer is not supported); every
/// other frame — and an unknown signal type — is ignored.
pub open spec fn spec_route(event: WsEvent) -> InboundAction {
    match event {
        WsEvent::WebRTCSignal { to_user_id, channel_id, signal_type, .. } => {
            if to_user_id != 0 {
                InboundAction::RejectPeerSignal
            } else if signal_type@ == "offer"@ {
                InboundAction::SfuOffer { channel_id }
            } else if signal_type@ == "ice"@ {
                InboundAction::SfuIce { channel_id }
            } else {
                InboundAction::Ignore
            }
        },
        _ => InboundAction::Ignore,
    }
}

/// Classify an inbound frame.
pub fn route_frame(event: &WsEvent) -> (r: InboundAction)
    ensures
        r == spec_route(*event),
{
    match event {
        WsEvent::WebRTCSignal { to_user_id, channel_id, signal_type, .. } => {
            if *to_user_id != 0 {
                InboundAction::RejectPeerSignal
            } else {
                let offer = String::from_str("offer");
                let ice = String::from_str("ice");
                proof {
                    reveal_strlit("offer");
                    reveal_strlit("ice");
                }
                if *signal_type == offer {
                    InboundAction::SfuOffer { channel_id: *channel_id }
                } else if *signal_type == ice {
                    InboundAction::SfuIce { channel_id: *channel_id }
                } else {
                    InboundAction::Ignore
                }
            }
        },
        _ => InboundAction::Ignore,
    }
}

/// Bring an authenticated connection up: open the session's mailbox,
/// subscribe the user to every listed channel, mark them online, and
/// announce the arrival on each of those channels.
pub fn gateway_connect(
    reg: &mut Registry,
    presence: &mut PresenceRegistry,
    user: u128,
    channels: Vec<u128>,
) -> (conn: GatewayConn)
    requires
        old(reg).wf(),
        old(presence).wf(),
        nodup(channels@),
    ensures
        final(reg).wf(),
        final(presence).wf(),
        conn.user_id == user,
        conn.subscribed@ == channels@,
        final(reg).has_session(user),
        forall|c: u128| channels@.contains(c) ==> final(reg).is_subscriber(c, user),
        final(presence).spec_status(user) == PresenceStatus::Online,
        forall|u2: u128|
            u2 != user ==> final(presence).spec_status(u2) == old(presence).spec_status(u2),
        final(presence).typing == old(presence).typing,
        // only the listed channels change, and each gains at most this user
        forall|c: u128|
            !channels@.contains(c) ==> #[trigger] final(reg).subscribers_of(c) == old(
                reg,
            ).subscribers_of(c),
        forall|c: u128|
            channels@.contains(c) ==> #[trigger] final(reg).subscribers_of(c) == (if old(
                reg,
            ).is_subscriber(c, user) {
                old(reg).subscribers_of(c)
            } else {
                old(reg).subscribers_of(c).push(user)
            }),
        // every session (including the fresh one) receives the arrival
        // announcement once per listed channel it subscribes to
        forall|u2: u128|
            #[trigger] mailbox_spec(final(reg).sessions, u2) == (match (if u2 == user {
                Some(Seq::<WsEvent>::empty())
            } else {
                mailbox_spec(old(reg).sessions, u2)
            }) {
                Some(mb) => Some(
                    fanout_chain(
                        final(reg).subs,
                        channels@,
                        u2,
                        mb,
                        |c: u128| presence_event(user, PresenceStatus::Online),
                    ),
                ),
                None => None,
            }),
    {
    reg.open_session(user);
    let ghost sessions0 = reg.sessions;
    let mut i: usize = 0;
    proof {
        assert(channels@.take(0) =~= Seq::<u128>::empty());
    }
    while i < channels.len()
        invariant
            reg.wf(),
            i <= channels@.len(),
            nodup(channels@),
            reg.has_session(user),
            reg.sessions == sessions0,
            forall|c: u128| channels@.take(i as int).contains(c) ==> reg.is_subscriber(c, user),
            forall|c: u128|
                !channels@.take(i as int).contains(c) ==> #[trigger] reg.subscribers_of(c) == old(
                    reg,
                ).subscribers_of(c),
            forall|c: u128|
                channels@.take(i as int).contains(c) ==> #[trigger] reg.subscribers_of(c) == (
                if old(reg).is_subscriber(c, user) {
                    old(reg).subscribers_of(c)
                } else {
                    old(reg).subscribers_of(c).push(user)
                }),
        decreases channels@.len() - i,
    {
        let c0 = channels[i];
        let ghost pre = *reg;
        proof {
            assert forall|a: int| 0 <= a < i implies channels@.take(i as int)[a] != c0 by {
                assert(channels@[a] != channels@[i as int]);
            }
            assert(!channels@.take(i as int).contains(c0));
            assert(pre.subscribers_of(c0) == old(reg).subscribers_of(c0));
        }
        reg.subscribe(c0, user);
        proof {
            let taken = channels@.take(i + 1 as int);
            assert(taken =~= channels@.take(i as int).push(c0));
            assert(taken[i as int] == c0);
            assert(taken.contains(c0));
            assert forall|c: u128| c != c0 implies (taken.contains(c) == channels@.take(
                i as int,
            ).contains(c)) by {
                if channels@.take(i as int).contains(c) {
                    let j = choose|j: int| 0 <= j < i && channels@.take(i as int)[j] == c;
                    assert(taken[j] == c);
                }
                if taken.contains(c) {
                    let j = choose|j: int| 0 <= j < taken.len() && taken[j] == c;
                    assert(j < i);
                    assert(channels@.take(i as int)[j] == c);
                }
            }
            assert(pre.is_subscriber(c0, user) == old(reg).is_subscriber(c0, user));
            assert forall|c: u128| taken.contains(c) implies reg.is_subscriber(c, user) by {
                if c != c0 {
                    assert(pre.is_subscriber(c, user));
                    assert(reg.subscribers_of(c) == pre.subscribers_of(c));
                }
            }
            assert forall|c: u128| !taken.contains(c) implies #[trigger] reg.subscribers_of(c)
                == old(reg).subscribers_of(c) by {
                assert(c != c0);
                assert(reg.subscribers_of(c) == pre.subscribers_of(c));
            }
            assert forall|c: u128| taken.contains(c) implies #[trigger] reg.subscribers_of(c) == (
            if old(reg).is_subscriber(c, user) {
                old(reg).subscribers_of(c)
            } else {
                old(reg).subscribers_of(c).push(user)
            }) by {
                if c != c0 {
                    assert(reg.subscribers_of(c) == pre.subscribers_of(c));
                }
            }
        }
        i = i + 1;
    }
    proof {
        assert(channels@.take(channels@.len() as int) =~= channels@);
    }
    presence.set_status(user, PresenceStatus::Online);
    let ghost subs_mid = reg.subs;
    let mut j: usize = 0;
    proof {
        assert(channels@.take(0) =~= Seq::<u128>::empty());
    }
    while j < channels.len()
        invariant
            reg.wf(),
            j <= channels@.len(),
            reg.has_session(user),
            forall|c: u128| channels@.contains(c) ==> reg.is_subscriber(c, user),
            forall|c: u128, u2: u128|
                #[trigger] sub_contains(reg.subs, c, u2) == sub_contains(subs_mid, c, u2),
            forall|c: u128|
                !channels@.contains(c) ==> #[trigger] reg.subscribers_of(c) == old(
                    reg,
                ).subscribers_of(c),
            forall|c: u128|
                channels@.contains(c) ==> #[trigger] reg.subscribers_of(c) == (if old(
                    reg,
                ).is_subscriber(c, user) {
                    old(reg).subscribers_of(c)
                } else {
                    old(reg).subscribers_of(c).push(user)
                }),
            forall|u2: u128|
                #[trigger] reg.sessions.spec_get(u2) is Some <==> sessions0.spec_get(u2) is Some,
            forall|u2: u128|
                #[trigger] mailbox_spec(reg.sessions, u2) == (match mailbox_spec(sessions0, u2) {
                    Some(mb) => Some(
                        fanout_chain(
                            subs_mid,
                            channels@.take(j as int),
                            u2,
                            mb,
                            |c: u128| presence_event(user, PresenceStatus::Online),
                        ),
                    ),
                    None => None,
                }),
        decreases channels@.len() - j,
    {
        let c = channels[j];
        let ev = WsEvent::PresenceUpdate { user_id: user, status: PresenceStatus::Online };
        let ghost pre = *reg;
        reg.broadcast_to_channel(c, &ev);
        proof {
            assert(ev == presence_event(user, PresenceStatus::Online));
            assert(channels@.take(j + 1 as int) =~= channels@.take(j as int).push(c));
            assert forall|c2: u128| channels@.contains(c2) implies reg.is_subscriber(c2, user) by {
                assert(reg.subscribers_of(c2) == pre.subscribers_of(c2));
            }
            assert forall|c2: u128, u2: u128| #[trigger] sub_contains(reg.subs, c2, u2)
                == sub_contains(subs_mid, c2, u2) by {
                assert(reg.subscribers_of(c2) == pre.subscribers_of(c2));
                assert(reg.subs.spec_get(c2) is Some <==> pre.subs.spec_get(c2) is Some);
                assert(sub_contains(reg.subs, c2, u2) == sub_contains(pre.subs, c2, u2));
            }
            assert forall|u2: u128| true implies #[trigger] mailbox_spec(reg.sessions, u2) == (
            match mailbox_spec(sessions0, u2) {
                Some(mb) => Some(
                    fanout_chain(
                        subs_mid,
                        channels@.take(j + 1 as int),
                        u2,
                        mb,
                        |c2: u128| presence_event(user, PresenceStatus::Online),
                    ),
                ),
                None => None,
            }) by {
                assert(mailbox_spec(reg.sessions, u2) == delivered(
                    mailbox_spec(pre.sessions, u2),
                    pre.is_subscriber(c, u2),
                    ev,
                ));
                assert(pre.is_subscriber(c, u2) == sub_contains(pre.subs, c, u2));
                assert(sub_contains(pre.subs, c, u2) == sub_contains(subs_mid, c, u2));
                if mailbox_spec(sessions0, u2) is Some {
                    let mb = mailbox_spec(sessions0, u2)->Some_0;
                    lemma_chain_snoc(
                        subs_mid,
                        channels@.take(j as int),
                        c,
                        u2,
                        mb,
                        |c2: u128| presence_event(user, PresenceStatus::Online),
                    );
                } else {
                    assert(mailbox_spec(pre.sessions, u2) is None);
                }
            }
        }
        j = j + 1;
    }
    proof {
        assert(channels@.take(channels@.len() as int) =~= channels@);
        assert forall|u2: u128| true implies #[trigger] mailbox_spec(reg.sessions, u2) == (
        match (if u2 == user {
            Some(Seq::<WsEvent>::empty())
        } else {
            mailbox_spec(old(reg).sessions, u2)
        }) {
            Some(mb) => Some(
                fanout_chain(
                    reg.subs,
                    channels@,
                    u2,
                    mb,
                    |c: u128| presence_event(user, PresenceStatus::Online),
                ),
            ),
            None => None,
        }) by {
            if u2 == user {
                assert(mailbox_spec(sessions0, user) == Some(Seq::<WsEvent>::empty()));
            } else {
                assert(mailbox_spec(sessions0, u2) == mailbox_spec(old(reg).sessions, u2));
            }
            if mailbox_spec(sessions0, u2) is Some {
                let mb = mailbox_spec(sessions0, u2)->Some_0;
                lemma_chain_congruence(
                    subs_mid,
                    reg.subs,
                    channels@,
                    u2,
                    mb,
                    |c: u128| presence_event(user, PresenceStatus::Online),
                );
            }
        }
    }
    GatewayConn { user_id: user, subscribed: channels }
}

/// Tear a connection down. Everything derived from it disappears — the
/// session's mailbox, every subscriber-list entry, the voice participation
/// and the forwarding-unit peer — presence goes offline, each voice channel
/// the user occupied is told `joined: false`, and the offline presence is
/// announced once per retained subscribed channel, after the user has left
/// the subscriber index (so the departing user receives none of it).
pub fn gateway_cleanup(
    conn: GatewayConn,
    reg: &mut Registry,
    presence: &mut PresenceRegistry,
    voice: &mut VoiceStates,
    sfu: &mut SfuState,
) -> (voice_left: Vec<u128>)
    requires
        old(reg).wf(),
        old(presence).wf(),
        vwf(old(voice).channels),
        swf(old(sfu).channels),
        nodup(conn.subscribed@),
        forall|c: u128|
            old(reg).is_subscriber(c, conn.user_id) ==> conn.subscribed@.contains(c),
    ensures
        final(reg).wf(),
        final(presence).wf(),
        vwf(final(voice).channels),
        swf(final(sfu).channels),
        // no trace of the user anywhere
        !final(reg).has_session(conn.user_id),
        forall|c: u128| !final(reg).is_subscriber(c, conn.user_id),
        forall|c: u128| !vin(final(voice).channels, c, conn.user_id),
        forall|c: u128| sfu_user(final(sfu).channels, c, conn.user_id) is None,
        final(presence).spec_status(conn.user_id) == PresenceStatus::Offline,
        // which voice channels were announced as left
        forall|c: u128|
            voice_left@.contains(c) <==> vin(old(voice).channels, c, conn.user_id),
        nodup(voice_left@),
        // other sessions keep existing; their mailboxes got the voice
        // departures (under the old index) and then exactly the offline
        // presence fan-out over the retained subscription list (under the
        // index that no longer holds the user)
        forall|u2: u128|
            u2 != conn.user_id ==> (final(reg).has_session(u2) == old(reg).has_session(u2)),
        forall|u2: u128|
            u2 != conn.user_id ==> #[trigger] mailbox_spec(final(reg).sessions, u2) == (
            match mailbox_spec(old(reg).sessions, u2) {
                Some(mb) => Some(
                    fanout_chain(
                        final(reg).subs,
                        conn.subscribed@,
                        u2,
                        fanout_chain(
                            old(reg).subs,
                            voice_left@,
                            u2,
                            mb,
                            |c: u128| voice_leave_event(c, conn.user_id),
                        ),
                        |c: u128| presence_event(conn.user_id, PresenceStatus::Offline),
                    ),
                ),
                None => None,
            }),
        vsingle(old(voice).channels) ==> vsingle(final(voice).channels),
    {
    let user = conn.user_id;
    // The session goes first: the departing user receives nothing below.
    reg.close_session(user);
    let ghost sessions0 = reg.sessions;
    let ghost subs0 = reg.subs;
    proof {
        assert(subs0 == old(reg).subs);
    }
    // Forwarding-unit peers and voice participations go away.
    sfu.leave_all(user);
    let voice_left = voice.leave_all(user);
    // Announce the voice departures while others are still subscribed.
    let mut i: usize = 0;
    proof {
        assert(voice_left@.take(0) =~= Seq::<u128>::empty());
    }
    while i < voice_left.len()
        invariant
            reg.wf(),
            i <= voice_left@.len(),
            forall|c: u128, u2: u128|
                #[trigger] sub_contains(reg.subs, c, u2) == sub_contains(subs0, c, u2),
            forall|c: u128| #[trigger] reg.subscribers_of(c) == sub_list(subs0, c),
            forall|u2: u128|
                #[trigger] reg.sessions.spec_get(u2) is Some <==> sessions0.spec_get(u2) is Some,
            !reg.has_session(user),
            sessions0.spec_get(user) is None,
            forall|u2: u128|
                u2 != user ==> #[trigger] mailbox_spec(reg.sessions, u2) == (match mailbox_spec(
                    sessions0,
                    u2,
                ) {
                    Some(mb) => Some(
                        fanout_chain(
                            subs0,
                            voice_left@.take(i as int),
                            u2,
                            mb,
                            |c: u128| voice_leave_event(c, user),
                        ),
                    ),
                    None => None,
                }),
        decreases voice_left@.len() - i,
    {
        let c = voice_left[i];
        let ev = WsEvent::VoiceStateUpdate {
            channel_id: c,
            user_id: user,
            joined: false,
            muted: false,
            deafened: false,
            user: None,
        };
        let ghost pre = *reg;
        reg.broadcast_to_channel(c, &ev);
        proof {
            assert(ev == voice_leave_event(c, user));
            assert(voice_left@.take(i + 1 as int) =~= voice_left@.take(i as int).push(c));
            assert forall|c2: u128, u2: u128| #[trigger] sub_contains(reg.subs, c2, u2)
                == sub_contains(subs0, c2, u2) by {
                assert(reg.subscribers_of(c2) == pre.subscribers_of(c2));
                assert(reg.subs.spec_get(c2) is Some <==> pre.subs.spec_get(c2) is Some);
                assert(sub_contains(reg.subs, c2, u2) == sub_contains(pre.subs, c2, u2));
            }
            assert forall|c2: u128| #[trigger] reg.subscribers_of(c2) == sub_list(subs0, c2) by {
                assert(reg.subscribers_of(c2) == pre.subscribers_of(c2));
            }
            assert(!reg.has_session(user));
            assert forall|u2: u128| u2 != user implies #[trigger] mailbox_spec(reg.sessions, u2)
                == (match mailbox_spec(sessions0, u2) {
                Some(mb) => Some(
                    fanout_chain(
                        subs0,
                        voice_left@.take(i + 1 as int),
                        u2,
                        mb,
                        |c2: u128| voice_leave_event(c2, user),
                    ),
                ),
                None => None,
            }) by {
                assert(mailbox_spec(reg.sessions, u2) == delivered(
                    mailbox_spec(pre.sessions, u2),
                    pre.is_subscriber(c, u2),
                    ev,
                ));
                assert(pre.is_subscriber(c, u2) == sub_contains(pre.subs, c, u2));
                assert(sub_contains(pre.subs, c, u2) == sub_contains(subs0, c, u2));
                if mailbox_spec(sessions0, u2) is Some {
                    let mb = mailbox_spec(sessions0, u2)->Some_0;
                    lemma_chain_snoc(
                        subs0,
                        voice_left@.take(i as int),
                        c,
                        u2,
                        mb,
                        |c2: u128| voice_leave_event(c2, user),
                    );
                } else {
                    assert(mailbox_spec(pre.sessions, u2) is None);
                }
            }
        }
        i = i + 1;
    }
    proof {
        assert(voice_left@.take(voice_left@.len() as int) =~= voice_left@);
    }
    let ghost mid_sessions = reg.sessions;
    // Leave every subscriber list.
    let mut j: usize = 0;
    proof {
        assert(conn.subscribed@.take(0) =~= Seq::<u128>::empty());
    }
    while j < conn.subscribed.len()
        invariant
            reg.wf(),
            j <= conn.subscribed@.len(),
            nodup(conn.subscribed@),
            reg.sessions == mid_sessions,
            forall|c: u128|
                conn.subscribed@.take(j as int).contains(c) ==> !reg.is_subscriber(c, user),
            forall|c: u128|
                !conn.subscribed@.take(j as int).contains(c) ==> #[trigger] reg.subscribers_of(c)
                    == sub_list(subs0, c),
            forall|c: u128, u2: u128|
                u2 != user ==> (#[trigger] sub_contains(reg.subs, c, u2) == sub_contains(
                    subs0,
                    c,
                    u2,
                )),
        decreases conn.subscribed@.len() - j,
    {
        let c = conn.subscribed[j];
        let ghost pre = *reg;
        proof {
            assert forall|a: int| 0 <= a < j implies conn.subscribed@.take(j as int)[a] != c by {
                assert(conn.subscribed@[a] != conn.subscribed@[j as int]);
            }
            assert(!conn.subscribed@.take(j as int).contains(c));
        }
        reg.unsubscribe(c, user);
        proof {
            let taken = conn.subscribed@.take(j + 1 as int);
            assert(taken =~= conn.subscribed@.take(j as int).push(c));
            assert(taken[j as int] == c);
            assert(taken.contains(c));
            assert forall|c2: u128| taken.contains(c2) implies !reg.is_subscriber(c2, user) by {
                if c2 != c {
                    let k = choose|k: int| 0 <= k < taken.len() && taken[k] == c2;
                    assert(k < j);
                    assert(conn.subscribed@.take(j as int)[k] == c2);
                    assert(conn.subscribed@.take(j as int).contains(c2));
                    assert(!pre.is_subscriber(c2, user));
                    assert(reg.subscribers_of(c2) == pre.subscribers_of(c2));
                }
            }
            assert forall|c2: u128| !taken.contains(c2) implies #[trigger] reg.subscribers_of(c2)
                == sub_list(subs0, c2) by {
                if conn.subscribed@.take(j as int).contains(c2) {
                    let k = choose|k: int| 0 <= k < j && conn.subscribed@.take(j as int)[k] == c2;
                    assert(taken[k] == c2);
                }
                assert(c2 != c);
                assert(reg.subscribers_of(c2) == pre.subscribers_of(c2));
            }
            assert forall|c2: u128, u2: u128| u2 != user implies (#[trigger] sub_contains(
                reg.subs,
                c2,
                u2,
            ) == sub_contains(subs0, c2, u2)) by {
                if c2 == c {
                    assert(reg.subscribers_of(c) == pre.subscribers_of(c).filter(
                        |x: u128| x != user,
                    ));
                    lemma_filter_user_membership(pre.subscribers_of(c), user, u2);
                    assert(sub_contains(pre.subs, c, u2) == sub_contains(subs0, c, u2));
                    assert(sub_contains(reg.subs, c, u2) == reg.subscribers_of(c).contains(u2));
                    assert(sub_contains(pre.subs, c, u2) == pre.subscribers_of(c).contains(u2));
                } else {
                    assert(reg.subscribers_of(c2) == pre.subscribers_of(c2));
                    assert(reg.subs.spec_get(c2) == pre.subs.spec_get(c2));
                    assert(sub_contains(reg.subs, c2, u2) == sub_contains(pre.subs, c2, u2));
                }
            }
        }
        j = j + 1;
    }
    // Offline, then the final presence announcement over the retained list.
    presence.set_offline(user);
    let ghost subs_mid = reg.subs;
    let mut k: usize = 0;
    proof {
        assert(conn.subscribed@.take(conn.subscribed@.len() as int) =~= conn.subscribed@);
        assert(conn.subscribed@.take(0) =~= Seq::<u128>::empty());
    }
    while k < conn.subscribed.len()
        invariant
            reg.wf(),
            k <= conn.subscribed@.len(),
            forall|c: u128, u2: u128|
                #[trigger] sub_contains(reg.subs, c, u2) == sub_contains(subs_mid, c, u2),
            forall|c: u128| #[trigger] reg.subscribers_of(c) == sub_list(subs_mid, c),
            forall|c: u128| !reg.is_subscriber(c, user),
            forall|u2: u128|
                #[trigger] reg.sessions.spec_get(u2) is Some <==> mid_sessions.spec_get(u2)
                    is Some,
            mid_sessions.spec_get(user) is None,
            !reg.has_session(user),
            forall|u2: u128|
                u2 != user ==> #[trigger] mailbox_spec(reg.sessions, u2) == (match mailbox_spec(
                    mid_sessions,
                    u2,
                ) {
                    Some(mb) => Some(
                        fanout_chain(
                            subs_mid,
                            conn.subscribed@.take(k as int),
                            u2,
                            mb,
                            |c: u128| presence_event(user, PresenceStatus::Offline),
                        ),
                    ),
                    None => None,
                }),
        decreases conn.subscribed@.len() - k,
    {
        let c = conn.subscribed[k];
        let ev = WsEvent::PresenceUpdate { user_id: user, status: PresenceStatus::Offline };
        let ghost pre = *reg;
        reg.broadcast_to_channel(c, &ev);
        proof {
            assert(ev == presence_event(user, PresenceStatus::Offline));
            assert(conn.subscribed@.take(k + 1 as int) =~= conn.subscribed@.take(k as int).push(
                c,
            ));
            assert forall|c2: u128, u2: u128| #[trigger] sub_contains(reg.subs, c2, u2)
                == sub_contains(subs_mid, c2, u2) by {
                assert(reg.subscribers_of(c2) == pre.subscribers_of(c2));
                assert(reg.subs.spec_get(c2) is Some <==> pre.subs.spec_get(c2) is Some);
                assert(sub_contains(reg.subs, c2, u2) == sub_contains(pre.subs, c2, u2));
            }
            assert forall|c2: u128| #[trigger] reg.subscribers_of(c2) == sub_list(
                subs_mid,
                c2,
            ) by {
                assert(reg.subscribers_of(c2) == pre.subscribers_of(c2));
            }
            assert forall|c2: u128| true implies !reg.is_subscriber(c2, user) by {
                assert(!pre.is_subscriber(c2, user));
                assert(reg.subscribers_of(c2) == pre.subscribers_of(c2));
            }
            assert forall|u2: u128| u2 != user implies #[trigger] mailbox_spec(reg.sessions, u2)
                == (match mailbox_spec(mid_sessions, u2) {
                Some(mb) => Some(
                    fanout_chain(
                        subs_mid,
                        conn.subscribed@.take(k + 1 as int),
                        u2,
                        mb,
                        |c2: u128| presence_event(user, PresenceStatus::Offline),
                    ),
                ),
                None => None,
            }) by {
                assert(mailbox_spec(reg.sessions, u2) == delivered(
                    mailbox_spec(pre.sessions, u2),
                    pre.is_subscriber(c, u2),
                    ev,
                ));
                assert(pre.is_subscriber(c, u2) == sub_contains(pre.subs, c, u2));
                assert(sub_contains(pre.subs, c, u2) == sub_contains(subs_mid, c, u2));
                if mailbox_spec(mid_sessions, u2) is Some {
                    let mb = mailbox_spec(mid_sessions, u2)->Some_0;
                    lemma_chain_snoc(
                        subs_mid,
                        conn.subscribed@.take(k as int),
                        c,
                        u2,
                        mb,
                        |c2: u128| presence_event(user, PresenceStatus::Offline),
                    );
                } else {
                    assert(mailbox_spec(pre.sessions, u2) is None);
                }
            }
        }
        k = k + 1;
    }
    proof {
        assert(conn.subscribed@.take(conn.subscribed@.len() as int) =~= conn.subscribed@);
        assert forall|u2: u128| u2 != user implies #[trigger] mailbox_spec(reg.sessions, u2) == (
        match mailbox_spec(old(reg).sessions, u2) {
            Some(mb) => Some(
                fanout_chain(
                    reg.subs,
                    conn.subscribed@,
                    u2,
                    fanout_chain(
                        old(reg).subs,
                        voice_left@,
                        u2,
                        mb,
                        |c: u128| voice_leave_event(c, user),
                    ),
                    |c: u128| presence_event(user, PresenceStatus::Offline),
                ),
            ),
            None => None,
        }) by {
            assert(mailbox_spec(sessions0, u2) == mailbox_spec(old(reg).sessions, u2));
            if mailbox_spec(old(reg).sessions, u2) is Some {
                let mb = mailbox_spec(old(reg).sessions, u2)->Some_0;
                let inner = fanout_chain(
                    subs0,
                    voice_left@,
                    u2,
                    mb,
                    |c: u128| voice_leave_event(c, user),
                );
                assert(mailbox_spec(mid_sessions, u2) == Some(inner));
                lemma_chain_congruence(
                    subs_mid,
                    reg.subs,
                    conn.subscribed@,
                    u2,
                    inner,
                    |c: u128| presence_event(user, PresenceStatus::Offline),
                );
            }
        }
    }
    voice_left
}


/// The event announcing a user's arrival in a voice channel.
pub open spec fn voice_join_event(c: u128, user: u128, info: Option<UserPublic>) -> WsEvent {
    WsEvent::VoiceStateUpdate {
        channel_id: c,
        user_id: user,
        joined: true,
        muted: false,
        deafened: false,
        user: info,
    }
}

/// Join a voice channel: the user leaves any other channel first (one live
/// participation per user), each departure is announced on its channel, the
/// arrival is announced on the new one, and the new channel's participant
/// list comes back. The channels left are returned with it.
pub fn voice_join(
    reg: &mut Registry,
    voice: &mut VoiceStates,
    channel: u128,
    user: u128,
    info: Option<UserPublic>,
) -> (r: (Vec<VoiceParticipant>, Vec<u128>))
    requires
        old(reg).wf(),
        vwf(old(voice).channels),
        vsingle(old(voice).channels),
    ensures
        final(reg).wf(),
        vwf(final(voice).channels),
        vsingle(final(voice).channels),
        vin(final(voice).channels, channel, user),
        forall|c: u128| c != channel ==> !vin(final(voice).channels, c, user),
        parts(final(voice).channels, channel) == parts(old(voice).channels, channel).filter(
            |p: VoiceParticipant| p.user_id != user,
        ).push(crate::voice::new_participant(user, channel, info)),
        forall|c: u128|
            c != channel ==> #[trigger] parts(final(voice).channels, c) == parts(
                old(voice).channels,
                c,
            ).filter(|p: VoiceParticipant| p.user_id != user),
        r.0@ == parts(final(voice).channels, channel),
        forall|c: u128| r.1@.contains(c) <==> vin(old(voice).channels, c, user),
        nodup(r.1@),
        forall|u2: u128|
            #[trigger] mailbox_spec(final(reg).sessions, u2) == delivered(
                (match mailbox_spec(old(reg).sessions, u2) {
                    Some(mb) => Some(
                        fanout_chain(
                            old(reg).subs,
                            r.1@,
                            u2,
                            mb,
                            |c: u128| voice_leave_event(c, user),
                        ),
                    ),
                    None => None,
                }),
                old(reg).is_subscriber(channel, u2),
                voice_join_event(channel, user, info),
            ),
        forall|c: u128| #[trigger] final(reg).subscribers_of(c) == old(reg).subscribers_of(c),
    {
    let ghost subs0 = reg.subs;
    let ghost sessions0 = reg.sessions;
    let info_for_event = (match &info {
        Some(u) => Some(u.clone()),
        None => None,
    });
    let left = voice.leave_all(user);
    voice.join(channel, user, info);
    let participants = voice.participants(channel);
    // Announce each departure on the channel it left.
    let mut i: usize = 0;
    proof {
        assert(left@.take(0) =~= Seq::<u128>::empty());
    }
    while i < left.len()
        invariant
            reg.wf(),
            i <= left@.len(),
            forall|c: u128, u2: u128|
                #[trigger] sub_contains(reg.subs, c, u2) == sub_contains(subs0, c, u2),
            forall|c: u128| #[trigger] reg.subscribers_of(c) == sub_list(subs0, c),
            forall|u2: u128|
                #[trigger] reg.sessions.spec_get(u2) is Some <==> sessions0.spec_get(u2) is Some,
            forall|u2: u128|
                #[trigger] mailbox_spec(reg.sessions, u2) == (match mailbox_spec(sessions0, u2) {
                    Some(mb) => Some(
                        fanout_chain(
                            subs0,
                            left@.take(i as int),
                            u2,
                            mb,
                            |c: u128| voice_leave_event(c, user),
                        ),
                    ),
                    None => None,
                }),
        decreases left@.len() - i,
    {
        let c = left[i];
        let ev = WsEvent::VoiceStateUpdate {
            channel_id: c,
            user_id: user,
            joined: false,
            muted: false,
            deafened: false,
            user: None,
        };
        let ghost pre = *reg;
        reg.broadcast_to_channel(c, &ev);
        proof {
            assert(ev == voice_leave_event(c, user));
            assert(left@.take(i + 1 as int) =~= left@.take(i as int).push(c));
            assert forall|c2: u128, u2: u128| #[trigger] sub_contains(reg.subs, c2, u2)
                == sub_contains(subs0, c2, u2) by {
                assert(reg.subscribers_of(c2) == pre.subscribers_of(c2));
                assert(reg.subs.spec_get(c2) is Some <==> pre.subs.spec_get(c2) is Some);
                assert(sub_contains(reg.subs, c2, u2) == sub_contains(pre.subs, c2, u2));
            }
            assert forall|c2: u128| #[trigger] reg.subscribers_of(c2) == sub_list(subs0, c2) by {
                assert(reg.subscribers_of(c2) == pre.subscribers_of(c2));
            }
            assert forall|u2: u128| true implies #[trigger] mailbox_spec(reg.sessions, u2) == (
            match mailbox_spec(sessions0, u2) {
                Some(mb) => Some(
                    fanout_chain(
                        subs0,
                        left@.take(i + 1 as int),
                        u2,
                        mb,
                        |c2: u128| voice_leave_event(c2, user),
                    ),
                ),
                None => None,
            }) by {
                assert(mailbox_spec(reg.sessions, u2) == delivered(
                    mailbox_spec(pre.sessions, u2),
                    pre.is_subscriber(c, u2),
                    ev,
                ));
                assert(pre.is_subscriber(c, u2) == sub_contains(pre.subs, c, u2));
                assert(sub_contains(pre.subs, c, u2) == sub_contains(subs0, c, u2));
                if mailbox_spec(sessions0, u2) is Some {
                    let mb = mailbox_spec(sessions0, u2)->Some_0;
                    lemma_chain_snoc(
                        subs0,
                        left@.take(i as int),
                        c,
                        u2,
                        mb,
                        |c2: u128| voice_leave_event(c2, user),
                    );
                } else {
                    assert(mailbox_spec(pre.sessions, u2) is None);
                }
            }
        }
        i = i + 1;
    }
    // Announce the arrival.
    let ghost pre = *reg;
    let join_ev = WsEvent::VoiceStateUpdate {
        channel_id: channel,
        user_id: user,
        joined: true,
        muted: false,
        deafened: false,
        user: info_for_event,
    };
    reg.broadcast_to_channel(channel, &join_ev);
    proof {
        assert(left@.take(left@.len() as int) =~= left@);
        assert forall|u2: u128| true implies #[trigger] mailbox_spec(reg.sessions, u2)
            == delivered(
            (match mailbox_spec(sessions0, u2) {
                Some(mb) => Some(
                    fanout_chain(subs0, left@, u2, mb, |c: u128| voice_leave_event(c, user)),
                ),
                None => None,
            }),
            sub_contains(subs0, channel, u2),
            voice_join_event(channel, user, info),
        ) by {
            assert(mailbox_spec(reg.sessions, u2) == delivered(
                mailbox_spec(pre.sessions, u2),
                pre.is_subscriber(channel, u2),
                join_ev,
            ));
            assert(pre.is_subscriber(channel, u2) == sub_contains(pre.subs, channel, u2));
            assert(sub_contains(pre.subs, channel, u2) == sub_contains(subs0, channel, u2));
            assert(join_ev == voice_join_event(channel, user, info));
        }
        assert forall|u2: u128| true implies (old(reg).is_subscriber(channel, u2)
            == sub_contains(subs0, channel, u2)) by {}
        assert forall|c: u128| #[trigger] reg.subscribers_of(c) == sub_list(subs0, c) by {
            assert(reg.subscribers_of(c) == pre.subscribers_of(c));
        }
        assert forall|c: u128| true implies #[trigger] old(reg).subscribers_of(c) == sub_list(
            subs0,
            c,
        ) by {}
    }
    (participants, left)
}


/// Leave a voice channel and announce the departure to its subscribers.
pub fn voice_leave(reg: &mut Registry, voice: &mut VoiceStates, channel: u128, user: u128)
    requires
        old(reg).wf(),
        vwf(old(voice).channels),
    ensures
        final(reg).wf(),
        vwf(final(voice).channels),
        !vin(final(voice).channels, channel, user),
        parts(final(voice).channels, channel) == parts(old(voice).channels, channel).filter(
            |p: VoiceParticipant| p.user_id != user,
        ),
        forall|c: u128|
            c != channel ==> #[trigger] parts(final(voice).channels, c) == parts(
                old(voice).channels,
                c,
            ),
        vsingle(old(voice).channels) ==> vsingle(final(voice).channels),
        forall|u2: u128|
            #[trigger] mailbox_spec(final(reg).sessions, u2) == delivered(
                mailbox_spec(old(reg).sessions, u2),
                old(reg).is_subscriber(channel, u2),
                voice_leave_event(channel, user),
            ),
        forall|c: u128| #[trigger] final(reg).subscribers_of(c) == old(reg).subscribers_of(c),
    {
    voice.leave(channel, user);
    let ev = WsEvent::VoiceStateUpdate {
        channel_id: channel,
        user_id: user,
        joined: false,
        muted: false,
        deafened: false,
        user: None,
    };
    reg.broadcast_to_channel(channel, &ev);
    proof {
        assert(ev == voice_leave_event(channel, user));
    }
}

/// The subscriber list of `c` under the map `m`.
pub open spec fn sub_list(m: crate::idmap::IdMap<Vec<u128>>, c: u128) -> Seq<u128> {
    match m.spec_get(c) {
        Some(l) => l@,
        None => Seq::empty(),
    }
}

/// Removing one user from a subscriber list keeps every other user's
/// membership.
proof fn lemma_filter_user_membership(s: Seq<u128>, removed: u128, u: u128)
    requires
        u != removed,
    ensures
        s.filter(|x: u128| x != removed).contains(u) == s.contains(u),
    decreases s.len(),
{
    reveal(Seq::filter);
    let pred = |x: u128| x != removed;
    if s.len() > 0 {
        lemma_filter_user_membership(s.drop_last(), removed, u);
        let t0 = s.drop_last().filter(pred);
        let t = s.filter(pred);
        if s.drop_last().contains(u) {
            let k = choose|k: int| 0 <= k < s.drop_last().len() && s.drop_last()[k] == u;
            assert(s[k] == u);
        }
        if pred(s.last()) {
            assert(t == t0.push(s.last()));
            if t.contains(u) {
                let k = choose|k: int| 0 <= k < t.len() && t[k] == u;
                if k < t0.len() {
                    assert(t0.contains(u));
                } else {
                    assert(s[s.len() - 1] == u);
                }
            }
            if s.contains(u) {
                let k = choose|k: int| 0 <= k < s.len() && s[k] == u;
                if k == s.len() - 1 {
                    assert(t[t.len() - 1] == u);
                } else {
                    assert(s.drop_last()[k] == u);
                    assert(t0.contains(u));
                    let k2 = choose|k2: int| 0 <= k2 < t0.len() && t0[k2] == u;
                    assert(t[k2] == u);
                }
            }
        } else {
            assert(t == t0);
            if s.contains(u) {
                let k = choose|k: int| 0 <= k < s.len() && s[k] == u;
                if k == s.len() - 1 {
                    assert(u == removed);
                } else {
                    assert(s.drop_last()[k] == u);
                }
            }
        }
    }
}

} // verus!
