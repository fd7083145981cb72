//! Presence: user statuses and per-channel typing indicators with
//! time-based expiry. Clock readings arrive as milliseconds; a typing entry
//! answers for eight seconds after its last refresh, and a periodic sweep
//! evicts expired entries and drops channels left empty.

use crate::idmap::IdMap;
use crate::models::PresenceStatus;
use crate::registry::nodup;
use vstd::prelude::*;

verus! {

/// How long a typing indicator lives after its last refresh, in ms.
pub const TYPING_TTL_MS: u64 = 8_000;

/// A typing entry refreshed at `at_ms` is alive strictly less than eight
/// seconds afterwards.
pub open spec fn typing_alive(at_ms: u64, now_ms: u64) -> bool {
    at_ms <= now_ms < at_ms + TYPING_TTL_MS
}

/// The typing refresh time of `user` in `channel` under the typing map `t`.
pub open spec fn typing_lookup(t: IdMap<IdMap<u64>>, channel: u128, user: u128) -> Option<u64> {
    match t.spec_get(channel) {
        Some(m) => m.spec_get(user),
        None => None,
    }
}

pub struct PresenceRegistry {
    /// user -> current status.
    pub statuses: IdMap<PresenceStatus>,
    /// channel -> (user -> last typing refresh, ms).
    pub typing: IdMap<IdMap<u64>>,
}

impl PresenceRegistry {
    pub open spec fn wf(&self) -> bool {
        &&& self.statuses.wf()
        &&& self.typing.wf()
        &&& forall|c: u128|
            #[trigger] self.typing.spec_get(c) is Some ==> self.typing.spec_get(c)->Some_0.wf()
    }

    /// A user's status; unknown users are offline.
    pub open spec fn spec_status(&self, user: u128) -> PresenceStatus {
        match self.statuses.spec_get(user) {
            Some(s) => s,
            None => PresenceStatus::Offline,
        }
    }

    /// The last typing refresh of `user` in `channel`, if any.
    pub open spec fn spec_typing(&self, channel: u128, user: u128) -> Option<u64> {
        typing_lookup(self.typing, channel, user)
    }

    pub fn new() -> (r: Self)
        ensures
            r.wf(),
            forall|u: u128| r.spec_status(u) == PresenceStatus::Offline,
            forall|c: u128, u: u128| r.spec_typing(c, u) is None,
    {
        PresenceRegistry { statuses: IdMap::new(), typing: IdMap::new() }
    }

    pub fn set_status(&mut self, user: u128, status: PresenceStatus)
        requires
            old(self).wf(),
        ensures
            final(self).wf(),
            final(self).spec_status(user) == status,
            forall|u: u128| u != user ==> final(self).spec_status(u) == old(self).spec_status(u),
            final(self).typing == old(self).typing,
    {
        self.statuses.insert(user, status);
    }

    pub fn get_status(&self, user: u128) -> (r: PresenceStatus)
        requires
            self.wf(),
        ensures
            r == self.spec_status(user),
    {
        match self.statuses.get(user) {
            Some(s) => *s,
            None => PresenceStatus::Offline,
        }
    }

    /// Mark a user offline (called on disconnect).
    pub fn set_offline(&mut self, user: u128)
        requires
            old(self).wf(),
        ensures
            final(self).wf(),
            final(self).spec_status(user) == PresenceStatus::Offline,
            forall|u: u128| u != user ==> final(self).spec_status(u) == old(self).spec_status(u),
            final(self).typing == old(self).typing,
    {
        self.statuses.insert(user, PresenceStatus::Offline);
    }

    /// The statuses of a batch of users, in order.
    pub fn get_bulk_status(&self, user_ids: &Vec<u128>) -> (r: Vec<PresenceStatus>)
        requires
            self.wf(),
        ensures
            r@.len() == user_ids@.len(),
            forall|i: int| 0 <= i < r@.len() ==> r@[i] == self.spec_status(user_ids@[i]),
    {
        let mut out: Vec<PresenceStatus> = Vec::new();
        let mut i: usize = 0;
        while i < user_ids.len()
            invariant
                self.wf(),
                i <= user_ids@.len(),
                out@.len() == i,
                forall|j: int| 0 <= j < i ==> out@[j] == self.spec_status(user_ids@[j]),
            decreases user_ids@.len() - i,
        {
            out.push(self.get_status(user_ids[i]));
            i = i + 1;
        }
        out
    }

    /// Refresh (or start) a typing indicator.
    pub fn set_typing(&mut self, channel: u128, user: u128, now_ms: u64)
        requires
            old(self).wf(),
        ensures
            final(self).wf(),
            final(self).spec_typing(channel, user) == Some(now_ms),
            forall|c: u128, u: u128|
                !(c == channel && u == user) ==> final(self).spec_typing(c, u) == old(
                    self,
                ).spec_typing(c, u),
            final(self).statuses == old(self).statuses,
    {
        let mut inner = match self.typing.take(channel) {
            Some(m) => m,
            None => IdMap::new(),
        };
        inner.insert(user, now_ms);
        self.typing.insert(channel, inner);
    }

    /// The users typing in a channel right now; expired entries are evicted.
    pub fn get_typing(&mut self, channel: u128, now_ms: u64) -> (r: Vec<u128>)
        requires
            old(self).wf(),
        ensures
            final(self).wf(),
            final(self).statuses == old(self).statuses,
            forall|u: u128|
                final(self).spec_typing(channel, u) == (match old(self).spec_typing(channel, u) {
                    Some(t) => if typing_alive(t, now_ms) {
                        Some(t)
                    } else {
                        None
                    },
                    None => None,
                }),
            forall|c: u128, u: u128|
                c != channel ==> final(self).spec_typing(c, u) == old(self).spec_typing(c, u),
            forall|u: u128|
                r@.contains(u) <==> (old(self).spec_typing(channel, u) is Some && typing_alive(
                    old(self).spec_typing(channel, u)->Some_0,
                    now_ms,
                )),
            nodup(r@),
    {
        match self.typing.take(channel) {
            None => {
                Vec::new()
            },
            Some(inner) => {
                let (fresh, users) = retain_alive(inner, now_ms);
                self.typing.insert(channel, fresh);
                users
            },
        }
    }

    /// One sweep of the periodic cleanup: evict expired typing entries
    /// everywhere and drop channels that end up with none.
    pub fn cleanup(&mut self, now_ms: u64)
        requires
            old(self).wf(),
        ensures
            final(self).wf(),
            final(self).statuses == old(self).statuses,
            forall|c: u128, u: u128|
                final(self).spec_typing(c, u) == (match old(self).spec_typing(c, u) {
                    Some(t) => if typing_alive(t, now_ms) {
                        Some(t)
                    } else {
                        None
                    },
                    None => None,
                }),
            forall|c: u128|
                #[trigger] final(self).typing.spec_get(c) is Some ==> final(self).typing.spec_get(
                    c,
                )->Some_0.entries@.len() > 0,
    {
        let channels = self.typing.keys();
        proof {
            assert forall|a: int, b: int| 0 <= a < b < channels@.len() implies channels@[a]
                != channels@[b] by {
                assert(old(self).typing.entries@[a].0 != old(self).typing.entries@[b].0);
            }
            assert(channels@.take(0) =~= Seq::<u128>::empty());
        }
        let mut i: usize = 0;
        while i < channels.len()
            invariant
                self.wf(),
                self.statuses == old(self).statuses,
                channels@ == crate::idmap::spec_keys(old(self).typing.entries@),
                forall|a: int, b: int|
                    0 <= a < b < channels@.len() ==> channels@[a] != channels@[b],
                i <= channels@.len(),
                forall|c: u128|
                    channels@.take(i as int).contains(c) ==> (swept(
                        old(self).typing,
                        self.typing,
                        c,
                        now_ms,
                    ) && (self.typing.spec_get(c) is Some ==> self.typing.spec_get(
                        c,
                    )->Some_0.entries@.len() > 0)),
                forall|c: u128|
                    !channels@.take(i as int).contains(c) ==> self.typing.spec_get(c) == old(
                        self,
                    ).typing.spec_get(c),
            decreases channels@.len() - i,
        {
            let c = channels[i];
            let ghost pre_typing = self.typing;
            proof {
                assert forall|a: int| 0 <= a < i implies channels@.take(i as int)[a] != c by {
                    assert(channels@[a] != channels@[i as int]);
                }
                assert(!channels@.take(i as int).contains(c));
            }
            match self.typing.take(c) {
                None => {},
                Some(inner) => {
                    let (fresh, _) = retain_alive(inner, now_ms);
                    if fresh.len() > 0 {
                        self.typing.insert(c, fresh);
                    }
                },
            }
            proof {
                let taken = channels@.take(i + 1 as int);
                assert(taken =~= channels@.take(i as int).push(c));
                assert(taken[i as int] == c);
                assert(taken.contains(c));
                assert forall|c2: u128| channels@.take(i as int).contains(c2) implies taken.contains(
                    c2,
                ) by {
                    let j = choose|j: int|
                        0 <= j < i && channels@.take(i as int)[j] == c2;
                    assert(taken[j] == c2);
                }
                assert forall|c2: u128| taken.contains(c2) && c2 != c implies channels@.take(
                    i as int,
                ).contains(c2) by {
                    let j = choose|j: int| 0 <= j < taken.len() && taken[j] == c2;
                    assert(j < i);
                    assert(channels@.take(i as int)[j] == c2);
                }
                assert forall|c2: u128| c2 != c implies self.typing.spec_get(c2) == pre_typing.spec_get(
                    c2,
                ) by {}
                assert(swept(old(self).typing, self.typing, c, now_ms));
                assert(self.typing.spec_get(c) is Some ==> self.typing.spec_get(
                    c,
                )->Some_0.entries@.len() > 0);
                assert forall|c2: u128| taken.contains(c2) implies (swept(
                    old(self).typing,
                    self.typing,
                    c2,
                    now_ms,
                ) && (self.typing.spec_get(c2) is Some ==> self.typing.spec_get(
                    c2,
                )->Some_0.entries@.len() > 0)) by {
                    if c2 != c {
                        assert(channels@.take(i as int).contains(c2));
                        assert(self.typing.spec_get(c2) == pre_typing.spec_get(c2));
                        assert(swept(old(self).typing, pre_typing, c2, now_ms));
                        assert forall|u: u128| #[trigger] typing_lookup(self.typing, c2, u) == (
                        match typing_lookup(old(self).typing, c2, u) {
                            Some(t) => if typing_alive(t, now_ms) {
                                Some(t)
                            } else {
                                None
                            },
                            None => None,
                        }) by {
                            assert(typing_lookup(self.typing, c2, u) == typing_lookup(
                                pre_typing,
                                c2,
                                u,
                            ));
                        }
                        assert(swept(old(self).typing, self.typing, c2, now_ms));
                    }
                }
            }
            i = i + 1;
        }
        proof {
            assert(channels@.take(channels@.len() as int) =~= channels@);
            assert forall|c: u128| !channels@.contains(c) implies old(self).typing.spec_get(c)
                is None by {
                crate::idmap::lemma_lookup_some(old(self).typing.entries@, c);
                if old(self).typing.spec_get(c) is Some {
                    let j = choose|j: int|
                        0 <= j < old(self).typing.entries@.len() && old(self).typing.entries@[j].0
                            == c;
                    assert(channels@[j] == c);
                }
            }
            assert forall|c: u128, u: u128| true implies final(self).spec_typing(c, u) == (
            match old(self).spec_typing(c, u) {
                Some(t) => if typing_alive(t, now_ms) {
                    Some(t)
                } else {
                    None
                },
                None => None,
            }) by {
                if channels@.contains(c) {
                    assert(swept(old(self).typing, final(self).typing, c, now_ms));
                } else {
                    assert(old(self).typing.spec_get(c) is None);
                    assert(final(self).typing.spec_get(c) == old(self).typing.spec_get(c));
                }
            }
        }
    }
}

/// Channel `c` was swept: only its alive entries remain.
spec fn swept(pre: IdMap<IdMap<u64>>, post: IdMap<IdMap<u64>>, c: u128, now_ms: u64) -> bool {
    forall|u: u128|
        #[trigger] typing_lookup(post, c, u) == (match typing_lookup(pre, c, u) {
            Some(t) => if typing_alive(t, now_ms) {
                Some(t)
            } else {
                None
            },
            None => None,
        })
}

/// Keep only the entries alive at `now_ms`; also hand back their keys.
fn retain_alive(inner: IdMap<u64>, now_ms: u64) -> (r: (IdMap<u64>, Vec<u128>))
    requires
        inner.wf(),
    ensures
        r.0.wf(),
        forall|u: u128|
            r.0.spec_get(u) == (match inner.spec_get(u) {
                Some(t) => if typing_alive(t, now_ms) {
                    Some(t)
                } else {
                    None
                },
                None => None,
            }),
        forall|u: u128|
            r.1@.contains(u) <==> (inner.spec_get(u) is Some && typing_alive(
                inner.spec_get(u)->Some_0,
                now_ms,
            )),
        nodup(r.1@),
        r.0.entries@.len() > 0 <==> exists|u: u128|
            inner.spec_get(u) is Some && typing_alive(#[trigger] inner.spec_get(u)->Some_0, now_ms),
{
    let mut fresh: IdMap<u64> = IdMap::new();
    let mut i: usize = 0;
    proof {
        assert(inner.entries@.take(0) =~= Seq::<(u128, u64)>::empty());
    }
    while i < inner.entries.len()
        invariant
            inner.wf(),
            fresh.wf(),
            i <= inner.entries@.len(),
            forall|u: u128|
                fresh.spec_get(u) == (match crate::idmap::spec_lookup(
                    inner.entries@.take(i as int),
                    u,
                ) {
                    Some(t) => if typing_alive(t, now_ms) {
                        Some(t)
                    } else {
                        None
                    },
                    None => None,
                }),
        decreases inner.entries@.len() - i,
    {
        let (u, t) = inner.entries[i];
        proof {
            crate::idmap::lemma_lookup_take_next(inner.entries@, i as int);
            crate::idmap::lemma_lookup_some(inner.entries@.take(i as int), u);
            if crate::idmap::spec_lookup(inner.entries@.take(i as int), u) is Some {
                let j = choose|j: int|
                    0 <= j < inner.entries@.take(i as int).len() && inner.entries@.take(
                        i as int,
                    )[j].0 == u;
                assert(inner.entries@[j].0 == inner.entries@[i as int].0);
                assert(false);
            }
        }
        if t <= now_ms && now_ms - t < TYPING_TTL_MS {
            fresh.insert(u, t);
        }
        i = i + 1;
    }
    proof {
        assert(inner.entries@.take(inner.entries@.len() as int) =~= inner.entries@);
    }
    let users = fresh.keys();
    proof {
        assert forall|a: int, b: int| 0 <= a < b < users@.len() implies users@[a] != users@[b] by {
            assert(fresh.entries@[a].0 != fresh.entries@[b].0);
        }
        assert forall|u: u128| users@.contains(u) <==> fresh.spec_get(u) is Some by {
            crate::idmap::lemma_lookup_some(fresh.entries@, u);
            if users@.contains(u) {
                let j = choose|j: int| 0 <= j < users@.len() && users@[j] == u;
                assert(fresh.entries@[j].0 == u);
            }
            if fresh.spec_get(u) is Some {
                let j = choose|j: int| 0 <= j < fresh.entries@.len() && fresh.entries@[j].0 == u;
                assert(users@[j] == u);
            }
        }
        if fresh.entries@.len() > 0 {
            let u0 = fresh.entries@[0].0;
            crate::idmap::lemma_lookup_index(fresh.entries@, 0);
            assert(fresh.spec_get(u0) is Some);
            assert(inner.spec_get(u0) is Some && typing_alive(inner.spec_get(u0)->Some_0, now_ms));
        }
        if exists|u: u128|
            inner.spec_get(u) is Some && typing_alive(
                #[trigger] inner.spec_get(u)->Some_0,
                now_ms,
            ) {
            let u0 = choose|u: u128|
                inner.spec_get(u) is Some && typing_alive(
                    #[trigger] inner.spec_get(u)->Some_0,
                    now_ms,
                );
            assert(fresh.spec_get(u0) is Some);
            crate::idmap::lemma_lookup_some(fresh.entries@, u0);
        }
    }
    (fresh, users)
}

} // verus!
