//! Voice participant state: the per-channel registry with one live
//! participation per user across all channels. Joining a new channel
//! implicitly leaves the previous one; a channel left empty disappears.

use crate::error::AppError;
use crate::idmap::IdMap;
use crate::models::{UserPublic, VoiceParticipant};
use crate::registry::nodup;
use vstd::prelude::*;

verus! {

/// Some entry carries this user id.
pub open spec fn has_user(s: Seq<VoiceParticipant>, u: u128) -> bool {
    exists|i: int| 0 <= i < s.len() && (#[trigger] s[i]).user_id == u
}

/// The participants of channel `c` under the map `m`.
pub open spec fn parts(m: IdMap<Vec<VoiceParticipant>>, c: u128) -> Seq<VoiceParticipant> {
    match m.spec_get(c) {
        Some(l) => l@,
        None => Seq::empty(),
    }
}

/// Whether user `u` is in channel `c` under the map `m`.
pub open spec fn vin(m: IdMap<Vec<VoiceParticipant>>, c: u128, u: u128) -> bool {
    has_user(parts(m, c), u)
}

/// Well-formed participant map: unique channel keys, no channel kept empty,
/// no user listed twice in one channel.
pub open spec fn vwf(m: IdMap<Vec<VoiceParticipant>>) -> bool {
    &&& m.wf()
    &&& forall|c: u128| #[trigger] m.spec_get(c) is Some ==> m.spec_get(c)->Some_0@.len() > 0
    &&& forall|c: u128, i: int, j: int|
        0 <= i < j < parts(m, c).len() ==> (#[trigger] parts(m, c)[i]).user_id != (
        #[trigger] parts(m, c)[j]).user_id
}

/// Each user is in at most one voice channel.
pub open spec fn vsingle(m: IdMap<Vec<VoiceParticipant>>) -> bool {
    forall|c1: u128, c2: u128, u: u128|
        #[trigger] vin(m, c1, u) && #[trigger] vin(m, c2, u) ==> c1 == c2
}

/// `p` with its flags replaced.
pub open spec fn with_flags(p: VoiceParticipant, m: bool, d: bool) -> VoiceParticipant {
    VoiceParticipant { muted: m, deafened: d, ..p }
}

/// A fresh participant record.
pub open spec fn new_participant(
    user: u128,
    channel: u128,
    info: Option<UserPublic>,
) -> VoiceParticipant {
    VoiceParticipant {
        user_id: user,
        channel_id: channel,
        muted: false,
        deafened: false,
        user: info,
    }
}

/// A map that changed at one channel only stays well formed when that
/// channel's new list is non-empty-or-absent and free of duplicate users.
proof fn lemma_vwf_update(
    pre: IdMap<Vec<VoiceParticipant>>,
    post: IdMap<Vec<VoiceParticipant>>,
    c: u128,
)
    requires
        vwf(pre),
        post.wf(),
        forall|c2: u128| c2 != c ==> #[trigger] post.spec_get(c2) == pre.spec_get(c2),
        post.spec_get(c) is Some ==> post.spec_get(c)->Some_0@.len() > 0,
        forall|i: int, j: int|
            0 <= i < j < parts(post, c).len() ==> (#[trigger] parts(post, c)[i]).user_id != (
            #[trigger] parts(post, c)[j]).user_id,
    ensures
        vwf(post),
{
    assert forall|c2: u128| #[trigger] post.spec_get(c2) is Some implies post.spec_get(
        c2,
    )->Some_0@.len() > 0 by {
        if c2 != c {
            assert(post.spec_get(c2) == pre.spec_get(c2));
        }
    }
    assert forall|c2: u128, i: int, j: int|
        0 <= i < j < parts(post, c2).len() implies (#[trigger] parts(post, c2)[i]).user_id != (
    #[trigger] parts(post, c2)[j]).user_id by {
        if c2 != c {
            assert(post.spec_get(c2) == pre.spec_get(c2));
            assert(parts(post, c2) == parts(pre, c2));
            assert(parts(pre, c2)[i].user_id != parts(pre, c2)[j].user_id);
        }
    }
}

pub struct VoiceStates {
    /// channel -> participants.
    pub channels: IdMap<Vec<VoiceParticipant>>,
}

impl VoiceStates {
    pub fn new() -> (r: Self)
        ensures
            vwf(r.channels),
            vsingle(r.channels),
            forall|c: u128, u: u128| !vin(r.channels, c, u),
    {
        let r = VoiceStates { channels: IdMap::new() };
        proof {
            assert forall|c: u128, u: u128| !vin(r.channels, c, u) by {
                assert(parts(r.channels, c) =~= Seq::<VoiceParticipant>::empty());
            }
        }
        r
    }

    /// Remove a user from every channel; channels left empty disappear. The
    /// channels the user was in come back, for the caller to announce the
    /// departure on — the voice half of the disconnect cleanup.
    pub fn leave_all(&mut self, user: u128) -> (left: Vec<u128>)
        requires
            vwf(old(self).channels),
        ensures
            vwf(final(self).channels),
            forall|c: u128| !vin(final(self).channels, c, user),
            forall|c: u128|
                #[trigger] parts(final(self).channels, c) == parts(old(self).channels, c).filter(
                    |p: VoiceParticipant| p.user_id != user,
                ),
            forall|c: u128| left@.contains(c) <==> vin(old(self).channels, c, user),
            nodup(left@),
            vsingle(old(self).channels) ==> vsingle(final(self).channels),
    {
        let keys = self.channels.keys();
        let mut left: Vec<u128> = Vec::new();
        let ghost m0 = self.channels;
        proof {
            assert forall|a: int, b: int| 0 <= a < b < keys@.len() implies keys@[a] != keys@[b] by {
                assert(m0.entries@[a].0 != m0.entries@[b].0);
            }
            assert(keys@.take(0) =~= Seq::<u128>::empty());
            reveal(Seq::filter);
        }
        let mut i: usize = 0;
        while i < keys.len()
            invariant
                vwf(self.channels),
                keys@ == crate::idmap::spec_keys(m0.entries@),
                m0 == old(self).channels,
                vwf(m0),
                forall|a: int, b: int| 0 <= a < b < keys@.len() ==> keys@[a] != keys@[b],
                i <= keys@.len(),
                forall|c: u128|
                    keys@.take(i as int).contains(c) ==> (#[trigger] parts(self.channels, c)
                        == parts(m0, c).filter(|p: VoiceParticipant| p.user_id != user)),
                forall|c: u128|
                    !keys@.take(i as int).contains(c) ==> #[trigger] self.channels.spec_get(c)
                        == m0.spec_get(c),
                forall|c: u128|
                    left@.contains(c) <==> (keys@.take(i as int).contains(c) && vin(m0, c, user)),
                nodup(left@),
            decreases keys@.len() - i,
        {
            let c = keys[i];
            let ghost pre = self.channels;
            let ghost left_pre = left@;
            proof {
                assert forall|a: int| 0 <= a < i implies keys@.take(i as int)[a] != c by {
                    assert(keys@[a] != keys@[i as int]);
                }
                assert(!keys@.take(i as int).contains(c));
            }
            match self.channels.take(c) {
                None => {
                    proof {
                        assert(parts(m0, c) =~= Seq::<VoiceParticipant>::empty());
                        assert(parts(m0, c).filter(|p: VoiceParticipant| p.user_id != user)
                            =~= Seq::<VoiceParticipant>::empty());
                        assert(!vin(m0, c, user));
                        assert(parts(self.channels, c) =~= Seq::<VoiceParticipant>::empty());
                        lemma_vwf_update(pre, self.channels, c);
                    }
                },
                Some(list) => {
                    let (kept, was_in) = remove_user(list, user);
                    if was_in {
                        proof {
                            if left@.contains(c) {
                                assert(keys@.take(i as int).contains(c));
                            }
                        }
                        left.push(c);
                        proof {
                            assert forall|a: int, b: int|
                                0 <= a < b < left@.len() implies left@[a] != left@[b] by {
                                if b == left@.len() - 1 {
                                    if left_pre[a] == c {
                                        assert(left_pre.contains(c));
                                    }
                                }
                            }
                        }
                    }
                    proof {
                        assert(parts(pre, c) == list@);
                        lemma_filter_nodup_parts(list@, user);
                    }
                    if kept.len() > 0 {
                        self.channels.insert(c, kept);
                        proof {
                            assert(parts(self.channels, c) == kept@);
                        }
                    } else {
                        proof {
                            assert(parts(self.channels, c) =~= Seq::<VoiceParticipant>::empty());
                            assert(parts(self.channels, c) =~= kept@);
                        }
                    }
                    proof {
                        lemma_vwf_update(pre, self.channels, c);
                    }
                    proof {
                        if was_in {
                            assert(left@[left@.len() - 1] == c);
                            assert(left@.contains(c));
                        }
                        assert(parts(m0, c) == list@);
                        assert(vin(m0, c, user) == was_in);
                    }
                },
            }
            proof {
                let taken = keys@.take(i + 1 as int);
                assert(taken =~= keys@.take(i as int).push(c));
                assert(taken[i as int] == c);
                assert(taken.contains(c));
                assert forall|c2: u128| c2 != c implies (taken.contains(c2) == keys@.take(
                    i as int,
                ).contains(c2)) by {
                    if keys@.take(i as int).contains(c2) {
                        let j = choose|j: int| 0 <= j < i && keys@.take(i as int)[j] == c2;
                        assert(taken[j] == c2);
                    }
                    if taken.contains(c2) {
                        let j = choose|j: int| 0 <= j < taken.len() && taken[j] == c2;
                        assert(j < i);
                        assert(keys@.take(i as int)[j] == c2);
                    }
                }
                assert(parts(self.channels, c) == parts(m0, c).filter(
                    |p: VoiceParticipant| p.user_id != user,
                ));
                assert forall|c2: u128| taken.contains(c2) implies (#[trigger] parts(
                    self.channels,
                    c2,
                ) == parts(m0, c2).filter(|p: VoiceParticipant| p.user_id != user)) by {
                    if c2 != c {
                        assert(keys@.take(i as int).contains(c2));
                        assert(self.channels.spec_get(c2) == pre.spec_get(c2));
                        assert(parts(self.channels, c2) == parts(pre, c2));
                    }
                }
                assert forall|c2: u128| c2 != c implies (left@.contains(c2) == left_pre.contains(
                    c2,
                )) by {
                    if left_pre.contains(c2) {
                        let j = choose|j: int| 0 <= j < left_pre.len() && left_pre[j] == c2;
                        assert(left@[j] == c2);
                    }
                    if left@.contains(c2) {
                        let j = choose|j: int| 0 <= j < left@.len() && left@[j] == c2;
                        if j == left@.len() - 1 && left@.len() == left_pre.len() + 1 {
                            assert(left@[j] == c);
                        }
                        assert(j < left_pre.len());
                        assert(left_pre[j] == c2);
                    }
                }
                assert forall|c2: u128| true implies (left@.contains(c2) <==> (taken.contains(c2)
                    && vin(m0, c2, user))) by {
                    if c2 == c {
                        assert(taken.contains(c));
                    } else {
                        assert(left@.contains(c2) == left_pre.contains(c2));
                        assert(left_pre.contains(c2) <==> (keys@.take(i as int).contains(c2)
                            && vin(m0, c2, user)));
                    }
                }
            }
            i = i + 1;
        }
        proof {
            assert(keys@.take(keys@.len() as int) =~= keys@);
            assert forall|c: u128| !keys@.contains(c) implies m0.spec_get(c) is None by {
                crate::idmap::lemma_lookup_some(m0.entries@, c);
                if m0.spec_get(c) is Some {
                    let j = choose|j: int| 0 <= j < m0.entries@.len() && m0.entries@[j].0 == c;
                    assert(keys@[j] == c);
                }
            }
            assert forall|c: u128| true implies #[trigger] parts(self.channels, c) == parts(
                m0,
                c,
            ).filter(|p: VoiceParticipant| p.user_id != user) by {
                if !keys@.contains(c) {
                    assert(parts(m0, c) =~= Seq::<VoiceParticipant>::empty());
                    assert(parts(m0, c).filter(|p: VoiceParticipant| p.user_id != user)
                        =~= Seq::<VoiceParticipant>::empty());
                    assert(parts(self.channels, c) =~= Seq::<VoiceParticipant>::empty());
                }
            }
            assert forall|c: u128| true implies !vin(self.channels, c, user) by {
                let post = parts(self.channels, c);
                if has_user(post, user) {
                    let j = choose|j: int|
                        0 <= j < post.len() && (#[trigger] post[j]).user_id == user;
                    parts(m0, c).lemma_filter_pred(|p: VoiceParticipant| p.user_id != user, j);
                }
            }
            if vsingle(m0) {
                assert forall|c1: u128, c2: u128, u: u128|
                    #[trigger] vin(self.channels, c1, u) && #[trigger] vin(
                        self.channels,
                        c2,
                        u,
                    ) implies c1 == c2 by {
                    lemma_filter_member(parts(m0, c1), user, u);
                    lemma_filter_member(parts(m0, c2), user, u);
                    assert(vin(m0, c1, u) && vin(m0, c2, u));
                }
            }
        }
        left
    }

    /// Add a user to a channel. The caller removes them from any other
    /// channel first, so one user is never in two channels.
    pub fn join(&mut self, channel: u128, user: u128, user_info: Option<UserPublic>)
        requires
            vwf(old(self).channels),
            forall|c: u128| !vin(old(self).channels, c, user),
        ensures
            vwf(final(self).channels),
            vin(final(self).channels, channel, user),
            parts(final(self).channels, channel) == parts(old(self).channels, channel).push(
                new_participant(user, channel, user_info),
            ),
            forall|c: u128|
                c != channel ==> #[trigger] parts(final(self).channels, c) == parts(
                    old(self).channels,
                    c,
                ),
            vsingle(old(self).channels) ==> vsingle(final(self).channels),
    {
        let ghost m0 = self.channels;
        let p = VoiceParticipant {
            user_id: user,
            channel_id: channel,
            muted: false,
            deafened: false,
            user: user_info,
        };
        let mut list = match self.channels.take(channel) {
            Some(l) => l,
            None => Vec::new(),
        };
        let ghost base = list@;
        proof {
            assert(base =~= parts(m0, channel));
        }
        list.push(p);
        self.channels.insert(channel, list);
        proof {
            assert(parts(self.channels, channel) =~= base.push(p));
            assert forall|c: u128| c != channel implies #[trigger] parts(self.channels, c)
                == parts(m0, c) by {
                assert(self.channels.spec_get(c) == m0.spec_get(c));
            }
            assert(!vin(m0, channel, user));
            assert forall|i: int, j: int|
                0 <= i < j < parts(self.channels, channel).len() implies (#[trigger] parts(
                self.channels,
                channel,
            )[i]).user_id != (#[trigger] parts(self.channels, channel)[j]).user_id by {
                if j == base.len() {
                    if base[i].user_id == user {
                        assert(parts(m0, channel)[i].user_id == user);
                        assert(has_user(parts(m0, channel), user));
                    }
                } else {
                    assert(parts(m0, channel)[i].user_id != parts(m0, channel)[j].user_id);
                }
            }
            assert(parts(self.channels, channel)[base.len() as int].user_id == user);
            assert(vin(self.channels, channel, user));
            if vsingle(m0) {
                assert forall|c1: u128, c2: u128, u: u128|
                    #[trigger] vin(self.channels, c1, u) && #[trigger] vin(
                        self.channels,
                        c2,
                        u,
                    ) implies c1 == c2 by {
                    if c1 != c2 {
                        lemma_push_member(base, p, u);
                        if c1 == channel {
                            if u == user {
                                assert(vin(m0, c2, user));
                                assert(false);
                            } else {
                                assert(vin(m0, c1, u) && vin(m0, c2, u));
                            }
                        } else if c2 == channel {
                            if u == user {
                                assert(vin(m0, c1, user));
                                assert(false);
                            } else {
                                assert(vin(m0, c1, u) && vin(m0, c2, u));
                            }
                        } else {
                            assert(vin(m0, c1, u) && vin(m0, c2, u));
                        }
                    }
                }
            }
        }
    }

    /// Remove a user from one channel; a channel left empty disappears.
    pub fn leave(&mut self, channel: u128, user: u128)
        requires
            vwf(old(self).channels),
        ensures
            vwf(final(self).channels),
            !vin(final(self).channels, channel, user),
            parts(final(self).channels, channel) == parts(old(self).channels, channel).filter(
                |p: VoiceParticipant| p.user_id != user,
            ),
            forall|c: u128|
                c != channel ==> #[trigger] parts(final(self).channels, c) == parts(
                    old(self).channels,
                    c,
                ),
            vsingle(old(self).channels) ==> vsingle(final(self).channels),
    {
        let ghost m0 = self.channels;
        proof {
            reveal(Seq::filter);
        }
        match self.channels.take(channel) {
            None => {
                proof {
                    assert(parts(m0, channel) =~= Seq::<VoiceParticipant>::empty());
                    assert(parts(m0, channel).filter(|p: VoiceParticipant| p.user_id != user)
                        =~= Seq::<VoiceParticipant>::empty());
                    assert(parts(self.channels, channel) =~= Seq::<VoiceParticipant>::empty());
                    lemma_vwf_update(m0, self.channels, channel);
                }
            },
            Some(list) => {
                proof {
                    assert(parts(m0, channel) == list@);
                }
                let (kept, _) = remove_user(list, user);
                proof {
                    lemma_filter_nodup_parts(list@, user);
                }
                if kept.len() > 0 {
                    self.channels.insert(channel, kept);
                    proof {
                        assert(parts(self.channels, channel) == kept@);
                    }
                } else {
                    proof {
                        assert(parts(self.channels, channel) =~= kept@);
                    }
                }
                proof {
                    lemma_vwf_update(m0, self.channels, channel);
                }
            },
        }
        proof {
            assert forall|c: u128| c != channel implies #[trigger] parts(self.channels, c)
                == parts(m0, c) by {
                assert(self.channels.spec_get(c) == m0.spec_get(c));
            }
            let post = parts(self.channels, channel);
            if has_user(post, user) {
                let j = choose|j: int| 0 <= j < post.len() && (#[trigger] post[j]).user_id == user;
                parts(m0, channel).lemma_filter_pred(|p: VoiceParticipant| p.user_id != user, j);
            }
            if vsingle(m0) {
                assert forall|c1: u128, c2: u128, u: u128|
                    #[trigger] vin(self.channels, c1, u) && #[trigger] vin(
                        self.channels,
                        c2,
                        u,
                    ) implies c1 == c2 by {
                    if c1 == channel {
                        lemma_filter_member(parts(m0, channel), user, u);
                    }
                    if c2 == channel {
                        lemma_filter_member(parts(m0, channel), user, u);
                    }
                    assert(vin(m0, c1, u) && vin(m0, c2, u));
                }
            }
        }
    }

    /// The channel's current participants, in join order.
    pub fn participants(&self, channel: u128) -> (r: Vec<VoiceParticipant>)
        requires
            vwf(self.channels),
        ensures
            r@ == parts(self.channels, channel),
    {
        let mut out: Vec<VoiceParticipant> = Vec::new();
        match self.channels.get(channel) {
            None => out,
            Some(list) => {
                let mut i: usize = 0;
                while i < list.len()
                    invariant
                        i <= list@.len(),
                        out@ =~= list@.take(i as int),
                    decreases list@.len() - i,
                {
                    out.push(list[i].clone());
                    proof {
                        assert(out@ =~= list@.take(i + 1 as int));
                    }
                    i = i + 1;
                }
                proof {
                    assert(list@.take(list@.len() as int) =~= list@);
                }
                out
            },
        }
    }

    /// Update a participant's muted/deafened flags; not being in the channel
    /// is an error. The new flags come back for the caller to announce.
    pub fn update_state(
        &mut self,
        channel: u128,
        user: u128,
        muted: Option<bool>,
        deafened: Option<bool>,
    ) -> (r: Result<(bool, bool), AppError>)
        requires
            vwf(old(self).channels),
        ensures
            vwf(final(self).channels),
            r is Ok <==> vin(old(self).channels, channel, user),
            r is Err ==> r->Err_0 is NotFound && final(self).channels.entries == old(
                self,
            ).channels.entries,
            r is Ok ==> ({
                let post = parts(final(self).channels, channel);
                let pre = parts(old(self).channels, channel);
                exists|i: int|
                    0 <= i < pre.len() && (#[trigger] pre[i]).user_id == user && post == pre.update(
                        i,
                        with_flags(pre[i], r->Ok_0.0, r->Ok_0.1),
                    ) && r->Ok_0.0 == (match muted {
                        Some(m) => m,
                        None => pre[i].muted,
                    }) && r->Ok_0.1 == (match deafened {
                        Some(d) => d,
                        None => pre[i].deafened,
                    })
            }),
            forall|c: u128|
                c != channel ==> #[trigger] parts(final(self).channels, c) == parts(
                    old(self).channels,
                    c,
                ),
            vsingle(old(self).channels) ==> vsingle(final(self).channels),
    {
        let ghost m0 = self.channels;
        let list_opt = self.channels.get(channel);
        let idx_opt: Option<usize> = match list_opt {
            None => None,
            Some(list) => find_user(list, user),
        };
        proof {
            if m0.spec_get(channel) is None {
                assert(parts(m0, channel) =~= Seq::<VoiceParticipant>::empty());
                if vin(m0, channel, user) {
                    let j = choose|j: int|
                        0 <= j < parts(m0, channel).len() && (#[trigger] parts(
                            m0,
                            channel,
                        )[j]).user_id == user;
                }
            }
        }
        match idx_opt {
            None => {
                proof {
                    if vin(m0, channel, user) {
                        let j = choose|j: int|
                            0 <= j < parts(m0, channel).len() && (#[trigger] parts(
                                m0,
                                channel,
                            )[j]).user_id == user;
                    }
                }
                Err(AppError::NotFound)
            },
            Some(idx) => {
                let mut list = match self.channels.take(channel) {
                    Some(l) => l,
                    None => Vec::new(),
                };
                let ghost pre = list@;
                let old_p = &list[idx];
                let new_muted = match muted {
                    Some(m) => m,
                    None => old_p.muted,
                };
                let new_deafened = match deafened {
                    Some(d) => d,
                    None => old_p.deafened,
                };
                let new_p = VoiceParticipant {
                    user_id: old_p.user_id,
                    channel_id: old_p.channel_id,
                    muted: new_muted,
                    deafened: new_deafened,
                    user: match &old_p.user {
                        Some(u) => Some(u.clone()),
                        None => None,
                    },
                };
                list.set(idx, new_p);
                self.channels.insert(channel, list);
                proof {
                    assert(pre[idx as int].user_id == user);
                    assert(vin(m0, channel, user));
                    assert(parts(self.channels, channel) =~= pre.update(
                        idx as int,
                        with_flags(pre[idx as int], new_muted, new_deafened),
                    ));
                    assert forall|c: u128| c != channel implies #[trigger] parts(self.channels, c)
                        == parts(m0, c) by {
                        assert(self.channels.spec_get(c) == m0.spec_get(c));
                    }
                    assert forall|a: int, b: int|
                        0 <= a < b < parts(self.channels, channel).len() implies (#[trigger] parts(
                        self.channels,
                        channel,
                    )[a]).user_id != (#[trigger] parts(self.channels, channel)[b]).user_id by {
                        assert(parts(m0, channel)[a].user_id != parts(m0, channel)[b].user_id);
                    }
                    if vsingle(m0) {
                        assert forall|c1: u128, c2: u128, u: u128|
                            #[trigger] vin(self.channels, c1, u) && #[trigger] vin(
                                self.channels,
                                c2,
                                u,
                            ) implies c1 == c2 by {
                            lemma_update_member(pre, idx as int, new_muted, new_deafened, u);
                            assert(vin(m0, c1, u) && vin(m0, c2, u));
                        }
                    }
                }
                Ok((new_muted, new_deafened))
            },
        }
    }
}

/// Index of the user's entry in a participant list.
fn find_user(list: &Vec<VoiceParticipant>, user: u128) -> (r: Option<usize>)
    ensures
        match r {
            Some(i) => i < list@.len() && list@[i as int].user_id == user,
            None => !has_user(list@, user),
        },
{
    let mut i: usize = 0;
    while i < list.len()
        invariant
            i <= list@.len(),
            forall|j: int| 0 <= j < i ==> (#[trigger] list@[j]).user_id != user,
        decreases list@.len() - i,
    {
        if list[i].user_id == user {
            return Some(i);
        }
        i = i + 1;
    }
    proof {
        if has_user(list@, user) {
            let j = choose|j: int| 0 <= j < list@.len() && (#[trigger] list@[j]).user_id == user;
        }
    }
    None
}

/// Remove every entry of `user` from the list; report whether any was there.
fn remove_user(list: Vec<VoiceParticipant>, user: u128) -> (r: (Vec<VoiceParticipant>, bool))
    ensures
        r.0@ == list@.filter(|p: VoiceParticipant| p.user_id != user),
        r.1 <==> has_user(list@, user),
{
    let mut kept: Vec<VoiceParticipant> = Vec::new();
    let mut was_in = false;
    let mut i: usize = 0;
    proof {
        reveal(Seq::filter);
        assert(list@.take(0) =~= Seq::<VoiceParticipant>::empty());
    }
    while i < list.len()
        invariant
            i <= list@.len(),
            kept@ =~= list@.take(i as int).filter(|p: VoiceParticipant| p.user_id != user),
            was_in <==> exists|j: int| 0 <= j < i && (#[trigger] list@[j]).user_id == user,
        decreases list@.len() - i,
    {
        let p = &list[i];
        if p.user_id == user {
            was_in = true;
            proof {
                assert(list@[i as int].user_id == user);
            }
        } else {
            kept.push(p.clone());
        }
        proof {
            reveal(Seq::filter);
            assert(list@.take(i + 1 as int).drop_last() =~= list@.take(i as int));
            assert(list@.take(i + 1 as int).last() == list@[i as int]);
            assert(kept@ =~= list@.take(i + 1 as int).filter(
                |p: VoiceParticipant| p.user_id != user,
            ));
        }
        i = i + 1;
    }
    proof {
        assert(list@.take(list@.len() as int) =~= list@);
        if has_user(list@, user) {
            let j = choose|j: int| 0 <= j < list@.len() && (#[trigger] list@[j]).user_id == user;
        }
    }
    (kept, was_in)
}

/// Removing one user keeps a per-user-unique participant list unique.
proof fn lemma_filter_nodup_parts(s: Seq<VoiceParticipant>, removed: u128)
    requires
        forall|i: int, j: int|
            0 <= i < j < s.len() ==> (#[trigger] s[i]).user_id != (#[trigger] s[j]).user_id,
    ensures
        ({
            let t = s.filter(|p: VoiceParticipant| p.user_id != removed);
            forall|i: int, j: int|
                0 <= i < j < t.len() ==> (#[trigger] t[i]).user_id != (#[trigger] t[j]).user_id
        }),
    decreases s.len(),
{
    reveal(Seq::filter);
    let pred = |p: VoiceParticipant| p.user_id != removed;
    if s.len() > 0 {
        assert(forall|i: int, j: int|
            0 <= i < j < s.drop_last().len() ==> (#[trigger] s.drop_last()[i]).user_id != (
            #[trigger] s.drop_last()[j]).user_id);
        lemma_filter_nodup_parts(s.drop_last(), removed);
        let t0 = s.drop_last().filter(pred);
        let t = s.filter(pred);
        if pred(s.last()) {
            assert(t == t0.push(s.last()));
            assert forall|i: int, j: int|
                0 <= i < j < t.len() implies (#[trigger] t[i]).user_id != (
            #[trigger] t[j]).user_id by {
                if j == t.len() - 1 {
                    assert(t[i] == t0[i]);
                    if t0[i].user_id == s.last().user_id {
                        assert(has_user(t0, s.last().user_id));
                        lemma_filter_member(s.drop_last(), removed, s.last().user_id);
                        let k = choose|k: int|
                            0 <= k < s.drop_last().len() && (#[trigger] s.drop_last()[
                                k
                            ]).user_id == s.last().user_id;
                        assert(s[k].user_id == s[s.len() - 1].user_id);
                        assert(false);
                    }
                } else {
                    assert(t[i] == t0[i] && t[j] == t0[j]);
                }
            }
        }
    }
}

/// Membership in a user-filtered participant list implies membership before.
proof fn lemma_filter_member(s: Seq<VoiceParticipant>, removed: u128, u: u128)
    ensures
        has_user(s.filter(|p: VoiceParticipant| p.user_id != removed), u) ==> has_user(s, u),
    decreases s.len(),
{
    reveal(Seq::filter);
    let pred = |p: VoiceParticipant| p.user_id != removed;
    if s.len() > 0 {
        lemma_filter_member(s.drop_last(), removed, u);
        let t = s.drop_last().filter(pred);
        if has_user(s.filter(pred), u) {
            let i = choose|i: int|
                0 <= i < s.filter(pred).len() && (#[trigger] s.filter(pred)[i]).user_id == u;
            if pred(s.last()) && i == s.filter(pred).len() - 1 {
                assert(s[s.len() - 1].user_id == u);
            } else {
                assert(s.filter(pred)[i] == t[i]);
                assert(has_user(t, u));
                assert(has_user(s.drop_last(), u));
                let j = choose|j: int|
                    0 <= j < s.drop_last().len() && (#[trigger] s.drop_last()[j]).user_id == u;
                assert(s[j].user_id == u);
            }
        }
    }
}

/// Membership in a pushed list is membership before, or the pushed entry.
proof fn lemma_push_member(s: Seq<VoiceParticipant>, p: VoiceParticipant, u: u128)
    ensures
        has_user(s.push(p), u) ==> (has_user(s, u) || p.user_id == u),
{
    if has_user(s.push(p), u) {
        let i = choose|i: int| 0 <= i < s.push(p).len() && (#[trigger] s.push(p)[i]).user_id == u;
        if i < s.len() {
            assert(s[i].user_id == u);
        }
    }
}

/// Membership in an updated list (same user id at the updated slot) is
/// membership before.
proof fn lemma_update_member(s: Seq<VoiceParticipant>, idx: int, m: bool, d: bool, u: u128)
    requires
        0 <= idx < s.len(),
    ensures
        has_user(s.update(idx, with_flags(s[idx], m, d)), u) ==> has_user(s, u),
{
    let t = s.update(idx, with_flags(s[idx], m, d));
    if has_user(t, u) {
        let i = choose|i: int| 0 <= i < t.len() && (#[trigger] t[i]).user_id == u;
        if i == idx {
            assert(s[idx].user_id == u);
        } else {
            assert(s[i].user_id == u);
        }
    }
}

} // verus!
