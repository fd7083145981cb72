//! The selective forwarding unit's bookkeeping. Peer connections and RTP
//! live outside; the library decides, for each offer, which existing
//! outgoing tracks the new peer connection must be given, what survives a
//! reconnect, and what a renegotiation may add — and proves that handling
//! one user's offer never touches another user's state, so established
//! subscriptions survive a peer's reconnect.

use crate::idmap::IdMap;
use vstd::prelude::*;

verus! {

/// No track id occurs twice.
pub open spec fn nodup_tracks(s: Seq<u64>) -> bool {
    forall|i: int, j: int| 0 <= i < j < s.len() ==> s[i] != s[j]
}

pub fn tracks_contain(v: &Vec<u64>, t: u64) -> (r: bool)
    ensures
        r == v@.contains(t),
{
    let mut i: usize = 0;
    while i < v.len()
        invariant
            i <= v@.len(),
            forall|j: int| 0 <= j < i ==> v@[j] != t,
        decreases v@.len() - i,
    {
        if v[i] == t {
            proof {
                assert(v@[i as int] == t);
            }
            return true;
        }
        i = i + 1;
    }
    false
}

/// One user's state in a voice channel: the track they send to the unit (it
/// is handed to every listener, so it must survive reconnects) and the track
/// ids already added to their peer connection (renegotiation adds only new
/// ones).
pub struct SfuUserState {
    pub user_id: u128,
    /// The user's outgoing track, once their first inbound track arrived.
    pub local_track: Option<u64>,
    /// Track ids this user's connection already subscribes to.
    pub subscribed_tracks: Vec<u64>,
}

pub struct SfuChannelState {
    pub users: IdMap<SfuUserState>,
}

pub struct SfuState {
    pub channels: IdMap<SfuChannelState>,
}

/// The state of user `u` in channel `c`.
pub open spec fn sfu_user(m: IdMap<SfuChannelState>, c: u128, u: u128) -> Option<SfuUserState> {
    match m.spec_get(c) {
        Some(ch) => ch.users.spec_get(u),
        None => None,
    }
}

/// The outgoing track of user `u` in channel `c`, if any.
pub open spec fn local_of(m: IdMap<SfuChannelState>, c: u128, u: u128) -> Option<u64> {
    match sfu_user(m, c, u) {
        Some(st) => st.local_track,
        None => None,
    }
}

/// Well-formed unit state: unique keys throughout, no empty channel kept,
/// each user record under its own id.
pub open spec fn swf(m: IdMap<SfuChannelState>) -> bool {
    &&& m.wf()
    &&& forall|c: u128|
        #[trigger] m.spec_get(c) is Some ==> (m.spec_get(c)->Some_0.users.wf() && m.spec_get(
            c,
        )->Some_0.users.entries@.len() > 0)
    &&& forall|c: u128, u: u128|
        #[trigger] sfu_user(m, c, u) is Some ==> sfu_user(m, c, u)->Some_0.user_id == u
}

/// What a renegotiating user already subscribes to; a reconnect starts over,
/// a first offer starts empty.
pub open spec fn base_subscribed(
    m: IdMap<SfuChannelState>,
    c: u128,
    u: u128,
    reconnect: bool,
) -> Seq<u64> {
    match sfu_user(m, c, u) {
        Some(st) => if reconnect {
            Seq::empty()
        } else {
            st.subscribed_tracks@
        },
        None => Seq::empty(),
    }
}

/// A map that kept every channel's lookup keeps well-formedness.
proof fn lemma_swf_unchanged_at(
    pre: IdMap<SfuChannelState>,
    post: IdMap<SfuChannelState>,
    c: u128,
)
    requires
        swf(pre),
        post.wf(),
        forall|c2: u128| c2 != c ==> #[trigger] post.spec_get(c2) == pre.spec_get(c2),
        post.spec_get(c) == pre.spec_get(c),
    ensures
        swf(post),
        forall|c2: u128| #[trigger] post.spec_get(c2) == pre.spec_get(c2),
        forall|c2: u128, u2: u128| #[trigger] sfu_user(post, c2, u2) == sfu_user(pre, c2, u2),
{
    assert forall|c2: u128| #[trigger] post.spec_get(c2) == pre.spec_get(c2) by {}
    assert forall|c2: u128, u2: u128| #[trigger] sfu_user(post, c2, u2) == sfu_user(
        pre,
        c2,
        u2,
    ) by {
        assert(post.spec_get(c2) == pre.spec_get(c2));
    }
    assert forall|c2: u128| #[trigger] post.spec_get(c2) is Some implies (post.spec_get(
        c2,
    )->Some_0.users.wf() && post.spec_get(c2)->Some_0.users.entries@.len() > 0) by {
        assert(post.spec_get(c2) == pre.spec_get(c2));
    }
    assert forall|c2: u128, u2: u128| #[trigger] sfu_user(post, c2, u2) is Some implies sfu_user(
        post,
        c2,
        u2,
    )->Some_0.user_id == u2 by {
        assert(sfu_user(post, c2, u2) == sfu_user(pre, c2, u2));
    }
}

impl SfuState {
    pub fn new() -> (r: Self)
        ensures
            swf(r.channels),
            forall|c: u128, u: u128| sfu_user(r.channels, c, u) is None,
    {
        let r = SfuState { channels: IdMap::new() };
        r
    }

    /// Plan an offer from `user` in `channel`, returning the other users'
    /// outgoing tracks to add to this user's peer connection.
    ///
    /// On a reconnect the old connection is discarded but the user's own
    /// outgoing track is preserved: other listeners hold references to it,
    /// and replacing it would silently break their subscriptions. On a
    /// renegotiation only tracks not already subscribed are planned. Either
    /// way, every other user's state — their outgoing track and their
    /// subscription list — is untouched: no other peer is asked to
    /// renegotiate, and no listener's incoming track reference is
    /// invalidated.
    ///
    /// The plan records nothing: a planned track joins the subscription list
    /// only through `record_added`, once the driver reports the add
    /// succeeded, so a failed add is planned again at the next
    /// renegotiation.
    pub fn begin_offer(&mut self, channel: u128, user: u128, reconnect: bool) -> (to_add: Vec<
        u64,
    >)
        requires
            swf(old(self).channels),
        ensures
            swf(final(self).channels),
            forall|c2: u128|
                c2 != channel ==> #[trigger] final(self).channels.spec_get(c2) == old(
                    self,
                ).channels.spec_get(c2),
            forall|u2: u128|
                u2 != user ==> #[trigger] sfu_user(final(self).channels, channel, u2) == sfu_user(
                    old(self).channels,
                    channel,
                    u2,
                ),
            sfu_user(final(self).channels, channel, user) is Some,
            ({
                let st = sfu_user(final(self).channels, channel, user)->Some_0;
                &&& st.user_id == user
                &&& st.local_track == local_of(old(self).channels, channel, user)
                &&& st.subscribed_tracks@ == base_subscribed(
                    old(self).channels,
                    channel,
                    user,
                    reconnect,
                )
            }),
            nodup_tracks(to_add@),
            forall|t: u64|
                #[trigger] to_add@.contains(t) <==> ((exists|u2: u128|
                    u2 != user && #[trigger] local_of(old(self).channels, channel, u2) == Some(t))
                    && !base_subscribed(old(self).channels, channel, user, reconnect).contains(t)),
    {
        let ghost m0 = self.channels;
        let mut ch = match self.channels.take(channel) {
            Some(ch) => ch,
            None => SfuChannelState { users: IdMap::new() },
        };
        let ghost users0 = ch.users;
        proof {
            if m0.spec_get(channel) is Some {
                assert(users0 == m0.spec_get(channel)->Some_0.users);
            } else {
                assert forall|u2: u128| true implies #[trigger] users0.spec_get(u2) is None by {
                    crate::idmap::lemma_lookup_some(users0.entries@, u2);
                }
            }
        }
        let (preserved, base): (Option<u64>, Vec<u64>) = match ch.users.take(user) {
            Some(st) => {
                if reconnect {
                    (st.local_track, Vec::new())
                } else {
                    (st.local_track, st.subscribed_tracks)
                }
            },
            None => (None, Vec::new()),
        };
        let ghost others = ch.users;
        let ghost ents = ch.users.entries@;
        proof {
            assert forall|j: int| 0 <= j < ents.len() implies (#[trigger] ents[j]).0 != user by {
                crate::idmap::lemma_lookup_index(ents, j);
            }
            assert(base@ == base_subscribed(m0, channel, user, reconnect));
        }
        let mut to_add: Vec<u64> = Vec::new();
        let ghost base_s = base@;
        let mut i: usize = 0;
        while i < ch.users.entries.len()
            invariant
                ch.users == others,
                ents == ch.users.entries@,
                base@ == base_s,
                i <= ents.len(),
                nodup_tracks(to_add@),
                forall|t: u64|
                    #[trigger] to_add@.contains(t) <==> ((exists|j: int|
                        0 <= j < i && (#[trigger] ents[j]).1.local_track == Some(t))
                        && !base_s.contains(t)),
            decreases ents.len() - i,
        {
            let track = ch.users.entries[i].1.local_track;
            let ghost to_add_pre = to_add@;
            match track {
                Some(t) => {
                    if !tracks_contain(&base, t) && !tracks_contain(&to_add, t) {
                        to_add.push(t);
                        proof {
                            assert(to_add@[to_add@.len() - 1] == t);
                            assert(to_add@.contains(t));
                            assert(ents[i as int].1.local_track == Some(t));
                        }
                    }
                },
                None => {},
            }
            proof {
                assert forall|t2: u64| true implies (#[trigger] to_add@.contains(t2) <==> ((exists|
                    j: int,
                |
                    0 <= j < i + 1 && (#[trigger] ents[j]).1.local_track == Some(t2))
                    && !base_s.contains(t2))) by {
                    if to_add@.contains(t2) {
                        let k = choose|k: int| 0 <= k < to_add@.len() && to_add@[k] == t2;
                        if k < to_add_pre.len() {
                            assert(to_add_pre[k] == t2);
                            assert(to_add_pre.contains(t2));
                        }
                    }
                    if to_add_pre.contains(t2) {
                        let k = choose|k: int| 0 <= k < to_add_pre.len() && to_add_pre[k] == t2;
                        assert(to_add@[k] == t2);
                        assert(to_add@.contains(t2));
                    }
                }
            }
            i = i + 1;
        }
        let new_state = SfuUserState {
            user_id: user,
            local_track: preserved,
            subscribed_tracks: base,
        };
        ch.users.insert(user, new_state);
        self.channels.insert(channel, ch);
        proof {
            assert forall|u2: u128| u2 != user implies #[trigger] sfu_user(
                self.channels,
                channel,
                u2,
            ) == sfu_user(m0, channel, u2) by {
                assert(others.spec_get(u2) == users0.spec_get(u2));
            }
            assert(sfu_user(self.channels, channel, user) is Some);
            assert forall|t: u64| true implies (#[trigger] to_add@.contains(t) <==> ((exists|
                u2: u128,
            |
                u2 != user && #[trigger] local_of(m0, channel, u2) == Some(t)) && !base_s.contains(
                t,
            ))) by {
                if to_add@.contains(t) {
                    let j = choose|j: int|
                        0 <= j < ents.len() && (#[trigger] ents[j]).1.local_track == Some(t);
                    crate::idmap::lemma_lookup_index(ents, j);
                    assert(others.spec_get(ents[j].0) == Some(ents[j].1));
                    assert(local_of(m0, channel, ents[j].0) == Some(t));
                }
                if (exists|u2: u128|
                    u2 != user && #[trigger] local_of(m0, channel, u2) == Some(t))
                    && !base_s.contains(t) {
                    let u2 = choose|u2: u128|
                        u2 != user && #[trigger] local_of(m0, channel, u2) == Some(t);
                    assert(sfu_user(m0, channel, u2) is Some);
                    assert(others.spec_get(u2) == users0.spec_get(u2));
                    crate::idmap::lemma_lookup_some(ents, u2);
                    let j = choose|j: int| 0 <= j < ents.len() && (#[trigger] ents[j]).0 == u2;
                    crate::idmap::lemma_lookup_index(ents, j);
                    assert(ents[j].1.local_track == Some(t));
                }
            }
            assert forall|c2: u128, u2: u128| #[trigger] sfu_user(self.channels, c2, u2)
                is Some implies sfu_user(self.channels, c2, u2)->Some_0.user_id == u2 by {
                if c2 == channel {
                    if u2 != user {
                        assert(sfu_user(self.channels, c2, u2) == sfu_user(m0, c2, u2));
                    }
                } else {
                    assert(self.channels.spec_get(c2) == m0.spec_get(c2));
                    assert(sfu_user(self.channels, c2, u2) == sfu_user(m0, c2, u2));
                }
            }
            assert forall|c2: u128| #[trigger] self.channels.spec_get(c2) is Some implies (
            self.channels.spec_get(c2)->Some_0.users.wf() && self.channels.spec_get(
                c2,
            )->Some_0.users.entries@.len() > 0) by {
                if c2 != channel {
                    assert(self.channels.spec_get(c2) == m0.spec_get(c2));
                } else {
                    crate::idmap::lemma_lookup_some(
                        self.channels.spec_get(channel)->Some_0.users.entries@,
                        user,
                    );
                }
            }
        }
        to_add
    }

    /// Record the track ids the driver actually added to the user's peer
    /// connection. Only a reported success joins the subscription list: an
    /// add that failed stays unrecorded, so the next renegotiation plans the
    /// same track again. A failed add for one track never touches the others.
    pub fn record_added(&mut self, channel: u128, user: u128, added: &Vec<u64>)
        requires
            swf(old(self).channels),
        ensures
            swf(final(self).channels),
            forall|c2: u128|
                c2 != channel ==> #[trigger] final(self).channels.spec_get(c2) == old(
                    self,
                ).channels.spec_get(c2),
            forall|u2: u128|
                u2 != user ==> #[trigger] sfu_user(final(self).channels, channel, u2) == sfu_user(
                    old(self).channels,
                    channel,
                    u2,
                ),
            match sfu_user(old(self).channels, channel, user) {
                Some(st) => sfu_user(final(self).channels, channel, user) is Some && ({
                    let post = sfu_user(final(self).channels, channel, user)->Some_0;
                    &&& post.user_id == st.user_id
                    &&& post.local_track == st.local_track
                    &&& post.subscribed_tracks@ == st.subscribed_tracks@ + added@
                }),
                None => sfu_user(final(self).channels, channel, user) is None
                    && final(self).channels.spec_get(channel) == old(self).channels.spec_get(
                    channel,
                ),
            },
    {
        let ghost m0 = self.channels;
        let mut ch = match self.channels.take(channel) {
            Some(ch) => ch,
            None => {
                proof {
                    assert(sfu_user(self.channels, channel, user) is None);
                    lemma_swf_unchanged_at(m0, self.channels, channel);
                }
                return ;
            },
        };
        let st = match ch.users.take(user) {
            Some(st) => st,
            None => {
                self.channels.insert(channel, ch);
                proof {
                    assert(self.channels.spec_get(channel) == m0.spec_get(channel));
                    lemma_swf_unchanged_at(m0, self.channels, channel);
                }
                return ;
            },
        };
        let mut subscribed = st.subscribed_tracks;
        let ghost sub0 = subscribed@;
        let mut i: usize = 0;
        while i < added.len()
            invariant
                i <= added@.len(),
                subscribed@ == sub0 + added@.take(i as int),
            decreases added@.len() - i,
        {
            subscribed.push(added[i]);
            proof {
                assert(subscribed@ =~= sub0 + added@.take(i + 1 as int));
            }
            i = i + 1;
        }
        proof {
            assert(added@.take(added@.len() as int) =~= added@);
        }
        let new_state = SfuUserState {
            user_id: st.user_id,
            local_track: st.local_track,
            subscribed_tracks: subscribed,
        };
        ch.users.insert(user, new_state);
        self.channels.insert(channel, ch);
        proof {
            assert forall|u2: u128| u2 != user implies #[trigger] sfu_user(
                self.channels,
                channel,
                u2,
            ) == sfu_user(m0, channel, u2) by {}
            assert(sfu_user(m0, channel, user) == Some(st));
            assert forall|c2: u128, u2: u128| #[trigger] sfu_user(self.channels, c2, u2)
                is Some implies sfu_user(self.channels, c2, u2)->Some_0.user_id == u2 by {
                if c2 == channel {
                    if u2 != user {
                        assert(sfu_user(self.channels, c2, u2) == sfu_user(m0, c2, u2));
                    }
                } else {
                    assert(self.channels.spec_get(c2) == m0.spec_get(c2));
                    assert(sfu_user(self.channels, c2, u2) == sfu_user(m0, c2, u2));
                }
            }
            assert forall|c2: u128| #[trigger] self.channels.spec_get(c2) is Some implies (
            self.channels.spec_get(c2)->Some_0.users.wf() && self.channels.spec_get(
                c2,
            )->Some_0.users.entries@.len() > 0) by {
                if c2 != channel {
                    assert(self.channels.spec_get(c2) == m0.spec_get(c2));
                } else {
                    crate::idmap::lemma_lookup_some(
                        self.channels.spec_get(channel)->Some_0.users.entries@,
                        user,
                    );
                }
            }
        }
    }

    /// Take in the user's first inbound track: their outgoing track is the
    /// preserved one when a reconnect kept it, otherwise a fresh one under
    /// the inbound track's id. The chosen id comes back.
    pub fn on_first_track(&mut self, channel: u128, user: u128, incoming: u64) -> (t: u64)
        requires
            swf(old(self).channels),
            sfu_user(old(self).channels, channel, user) is Some,
        ensures
            swf(final(self).channels),
            t == (match local_of(old(self).channels, channel, user) {
                Some(x) => x,
                None => incoming,
            }),
            local_of(final(self).channels, channel, user) == Some(t),
            sfu_user(final(self).channels, channel, user) is Some,
            sfu_user(final(self).channels, channel, user)->Some_0.subscribed_tracks == sfu_user(
                old(self).channels,
                channel,
                user,
            )->Some_0.subscribed_tracks,
            sfu_user(final(self).channels, channel, user)->Some_0.user_id == user,
            forall|c2: u128|
                c2 != channel ==> #[trigger] final(self).channels.spec_get(c2) == old(
                    self,
                ).channels.spec_get(c2),
            forall|u2: u128|
                u2 != user ==> #[trigger] sfu_user(final(self).channels, channel, u2) == sfu_user(
                    old(self).channels,
                    channel,
                    u2,
                ),
    {
        let ghost m0 = self.channels;
        let mut ch = match self.channels.take(channel) {
            Some(ch) => ch,
            None => SfuChannelState { users: IdMap::new() },
        };
        let ghost users0 = ch.users;
        let st = match ch.users.take(user) {
            Some(st) => st,
            None => SfuUserState { user_id: user, local_track: None, subscribed_tracks: Vec::new() },
        };
        let t = match st.local_track {
            Some(x) => x,
            None => incoming,
        };
        let new_state = SfuUserState {
            user_id: user,
            local_track: Some(t),
            subscribed_tracks: st.subscribed_tracks,
        };
        ch.users.insert(user, new_state);
        self.channels.insert(channel, ch);
        proof {
            assert forall|u2: u128| u2 != user implies #[trigger] sfu_user(
                self.channels,
                channel,
                u2,
            ) == sfu_user(m0, channel, u2) by {}
            assert forall|c2: u128, u2: u128| #[trigger] sfu_user(self.channels, c2, u2)
                is Some implies sfu_user(self.channels, c2, u2)->Some_0.user_id == u2 by {
                if c2 == channel {
                    if u2 != user {
                        assert(sfu_user(self.channels, c2, u2) == sfu_user(m0, c2, u2));
                    }
                } else {
                    assert(self.channels.spec_get(c2) == m0.spec_get(c2));
                    assert(sfu_user(self.channels, c2, u2) == sfu_user(m0, c2, u2));
                }
            }
            assert forall|c2: u128| #[trigger] self.channels.spec_get(c2) is Some implies (
            self.channels.spec_get(c2)->Some_0.users.wf() && self.channels.spec_get(
                c2,
            )->Some_0.users.entries@.len() > 0) by {
                if c2 != channel {
                    assert(self.channels.spec_get(c2) == m0.spec_get(c2));
                } else {
                    crate::idmap::lemma_lookup_some(
                        self.channels.spec_get(channel)->Some_0.users.entries@,
                        user,
                    );
                }
            }
        }
        t
    }

    /// Whether a forwarded ICE candidate has somewhere to go; an unknown
    /// channel or user is silently ignored.
    pub fn knows(&self, channel: u128, user: u128) -> (r: bool)
        requires
            swf(self.channels),
        ensures
            r == (sfu_user(self.channels, channel, user) is Some),
    {
        match self.channels.get(channel) {
            None => false,
            Some(ch) => ch.users.contains_key(user),
        }
    }

    /// Remove a user's peers from every channel: the forwarding-unit half of
    /// the disconnect cleanup.
    pub fn leave_all(&mut self, user: u128)
        requires
            swf(old(self).channels),
        ensures
            swf(final(self).channels),
            forall|c: u128| sfu_user(final(self).channels, c, user) is None,
            forall|c: u128, u2: u128|
                u2 != user ==> #[trigger] sfu_user(final(self).channels, c, u2) == sfu_user(
                    old(self).channels,
                    c,
                    u2,
                ),
    {
        let keys = self.channels.keys();
        let ghost m0 = self.channels;
        proof {
            assert(keys@.take(0) =~= Seq::<u128>::empty());
        }
        let mut i: usize = 0;
        while i < keys.len()
            invariant
                swf(self.channels),
                keys@ == crate::idmap::spec_keys(m0.entries@),
                m0 == old(self).channels,
                i <= keys@.len(),
                forall|c: u128|
                    keys@.take(i as int).contains(c) ==> #[trigger] sfu_user(
                        self.channels,
                        c,
                        user,
                    ) is None,
                forall|c: u128|
                    !keys@.take(i as int).contains(c) ==> #[trigger] self.channels.spec_get(c)
                        == m0.spec_get(c),
                forall|c: u128, u2: u128|
                    u2 != user ==> #[trigger] sfu_user(self.channels, c, u2) == sfu_user(
                        m0,
                        c,
                        u2,
                    ),
            decreases keys@.len() - i,
        {
            let c = keys[i];
            let ghost pre = self.channels;
            self.leave(c, user);
            proof {
                let taken = keys@.take(i + 1 as int);
                assert(taken =~= keys@.take(i as int).push(c));
                assert(taken[i as int] == c);
                assert(taken.contains(c));
                assert forall|c2: u128| taken.contains(c2) implies #[trigger] sfu_user(
                    self.channels,
                    c2,
                    user,
                ) is None by {
                    if c2 != c {
                        let j = choose|j: int| 0 <= j < taken.len() && taken[j] == c2;
                        assert(j < i);
                        assert(keys@.take(i as int)[j] == c2);
                        assert(keys@.take(i as int).contains(c2));
                        assert(self.channels.spec_get(c2) == pre.spec_get(c2));
                        assert(sfu_user(self.channels, c2, user) == sfu_user(pre, c2, user));
                    }
                }
                assert forall|c2: u128| !taken.contains(c2) implies #[trigger] self.channels.spec_get(
                    c2,
                ) == m0.spec_get(c2) by {
                    if keys@.take(i as int).contains(c2) {
                        let j = choose|j: int| 0 <= j < i && keys@.take(i as int)[j] == c2;
                        assert(taken[j] == c2);
                    }
                    assert(c2 != c);
                    assert(self.channels.spec_get(c2) == pre.spec_get(c2));
                }
                assert forall|c2: u128, u2: u128| u2 != user implies #[trigger] sfu_user(
                    self.channels,
                    c2,
                    u2,
                ) == sfu_user(m0, c2, u2) by {
                    if c2 == c {
                        assert(sfu_user(self.channels, c2, u2) == sfu_user(pre, c2, u2));
                        assert(sfu_user(pre, c2, u2) == sfu_user(m0, c2, u2));
                    } else {
                        assert(self.channels.spec_get(c2) == pre.spec_get(c2));
                        assert(sfu_user(self.channels, c2, u2) == sfu_user(pre, c2, u2));
                        assert(sfu_user(pre, c2, u2) == sfu_user(m0, c2, u2));
                    }
                }
            }
            i = i + 1;
        }
        proof {
            assert(keys@.take(keys@.len() as int) =~= keys@);
            assert forall|c: u128| true implies sfu_user(self.channels, c, user) is None by {
                if !keys@.contains(c) {
                    crate::idmap::lemma_lookup_some(m0.entries@, c);
                    if m0.spec_get(c) is Some {
                        let j = choose|j: int|
                            0 <= j < m0.entries@.len() && m0.entries@[j].0 == c;
                        assert(keys@[j] == c);
                    }
                    assert(self.channels.spec_get(c) == m0.spec_get(c));
                }
            }
        }
    }

    /// Remove a user's peer from a channel; the channel disappears with its
    /// last user.
    pub fn leave(&mut self, channel: u128, user: u128)
        requires
            swf(old(self).channels),
        ensures
            swf(final(self).channels),
            sfu_user(final(self).channels, channel, user) is None,
            forall|u2: u128|
                u2 != user ==> #[trigger] sfu_user(final(self).channels, channel, u2) == sfu_user(
                    old(self).channels,
                    channel,
                    u2,
                ),
            forall|c2: u128|
                c2 != channel ==> #[trigger] final(self).channels.spec_get(c2) == old(
                    self,
                ).channels.spec_get(c2),
    {
        let ghost m0 = self.channels;
        match self.channels.take(channel) {
            None => {},
            Some(mut ch) => {
                let ghost users0 = ch.users;
                let _ = ch.users.take(user);
                if ch.users.len() > 0 {
                    self.channels.insert(channel, ch);
                }
            },
        }
        proof {
            assert forall|u2: u128| u2 != user implies #[trigger] sfu_user(
                self.channels,
                channel,
                u2,
            ) == sfu_user(m0, channel, u2) by {}
            assert forall|c2: u128, u2: u128| #[trigger] sfu_user(self.channels, c2, u2)
                is Some implies sfu_user(self.channels, c2, u2)->Some_0.user_id == u2 by {
                if c2 == channel {
                    assert(sfu_user(self.channels, c2, u2) == sfu_user(m0, c2, u2));
                } else {
                    assert(self.channels.spec_get(c2) == m0.spec_get(c2));
                    assert(sfu_user(self.channels, c2, u2) == sfu_user(m0, c2, u2));
                }
            }
            assert forall|c2: u128| #[trigger] self.channels.spec_get(c2) is Some implies (
            self.channels.spec_get(c2)->Some_0.users.wf() && self.channels.spec_get(
                c2,
            )->Some_0.users.entries@.len() > 0) by {
                if c2 != channel {
                    assert(self.channels.spec_get(c2) == m0.spec_get(c2));
                }
            }
        }
    }
}

} // verus!
