//! Sessions and channel subscriptions: each connected user has an outbound
//! mailbox (bounded; the newest event is dropped when it is full), each
//! channel an index of subscribing users. Fan-out is best effort: an event
//! goes to every subscriber's mailbox that exists; nothing else changes.

use crate::idmap::IdMap;
use crate::models::WsEvent;
use vstd::prelude::*;

verus! {

/// Capacity of a session's outbound mailbox.
pub const MAILBOX_CAPACITY: usize = 256;

/// A bounded push: when the mailbox is full the newest event is dropped;
/// delivery to other sessions is unaffected.
pub open spec fn spec_push_bounded(mb: Seq<WsEvent>, e: WsEvent) -> Seq<WsEvent> {
    if mb.len() < MAILBOX_CAPACITY {
        mb.push(e)
    } else {
        mb
    }
}

/// A session's outbound mailbox: events waiting to be written to the socket,
/// oldest first.
pub struct Mailbox {
    pub events: Vec<WsEvent>,
}

impl Mailbox {
    pub fn new() -> (r: Self)
        ensures
            r.events@.len() == 0,
    {
        Mailbox { events: Vec::new() }
    }

    /// Enqueue an event; a full mailbox drops it.
    pub fn push(&mut self, e: WsEvent)
        ensures
            final(self).events@ == spec_push_bounded(old(self).events@, e),
    {
        if self.events.len() < MAILBOX_CAPACITY {
            self.events.push(e);
        }
    }

    /// Hand out everything queued, in delivery order, leaving the mailbox
    /// empty.
    pub fn take_all(&mut self) -> (r: Vec<WsEvent>)
        ensures
            r@ == old(self).events@,
            final(self).events@.len() == 0,
    {
        let mut out: Vec<WsEvent> = Vec::new();
        core::mem::swap(&mut out, &mut self.events);
        out
    }
}

/// No id occurs twice.
pub open spec fn nodup(s: Seq<u128>) -> bool {
    forall|i: int, j: int| 0 <= i < j < s.len() ==> s[i] != s[j]
}

/// The queued events of `u`'s mailbox under the session map `m`.
pub open spec fn mailbox_spec(m: IdMap<Mailbox>, u: u128) -> Option<Seq<WsEvent>> {
    match m.spec_get(u) {
        Some(mb) => Some(mb.events@),
        None => None,
    }
}

/// `u`'s mailbox with `e` delivered, if `u` belongs to the recipient set.
pub open spec fn delivered(
    pre: Option<Seq<WsEvent>>,
    recipient: bool,
    e: WsEvent,
) -> Option<Seq<WsEvent>> {
    match pre {
        Some(mb) => if recipient {
            Some(spec_push_bounded(mb, e))
        } else {
            Some(mb)
        },
        None => None,
    }
}

pub struct Registry {
    /// user -> outbound mailbox, one per connected session.
    pub sessions: IdMap<Mailbox>,
    /// channel -> subscribing users, deduplicated on insert.
    pub subs: IdMap<Vec<u128>>,
}

impl Registry {
    pub open spec fn wf(&self) -> bool {
        &&& self.sessions.wf()
        &&& self.subs.wf()
        &&& forall|c: u128|
            #[trigger] self.subs.spec_get(c) is Some ==> nodup(self.subs.spec_get(c)->Some_0@)
    }

    /// The users subscribed to a channel, in subscription order.
    pub open spec fn subscribers_of(&self, c: u128) -> Seq<u128> {
        match self.subs.spec_get(c) {
            Some(l) => l@,
            None => Seq::empty(),
        }
    }

    pub open spec fn is_subscriber(&self, c: u128, u: u128) -> bool {
        self.subscribers_of(c).contains(u)
    }

    pub open spec fn mailbox_of(&self, u: u128) -> Option<Seq<WsEvent>> {
        mailbox_spec(self.sessions, u)
    }

    pub open spec fn has_session(&self, u: u128) -> bool {
        self.sessions.spec_get(u) is Some
    }

    pub fn new() -> (r: Self)
        ensures
            r.wf(),
            forall|u: u128| !r.has_session(u),
            forall|c: u128, u: u128| !r.is_subscriber(c, u),
    {
        let r = Registry { sessions: IdMap::new(), subs: IdMap::new() };
        r
    }

    /// Open a session: the user gets a fresh, empty mailbox.
    pub fn open_session(&mut self, user: u128)
        requires
            old(self).wf(),
        ensures
            final(self).wf(),
            mailbox_spec(final(self).sessions, user) == Some(Seq::<WsEvent>::empty()),
            forall|u: u128|
                u != user ==> #[trigger] mailbox_spec(final(self).sessions, u) == mailbox_spec(
                    old(self).sessions,
                    u,
                ),
            forall|u: u128| u != user ==> final(self).has_session(u) == old(self).has_session(u),
            final(self).subs == old(self).subs,
    {
        let mb = Mailbox::new();
        proof {
            assert(mb.events@ =~= Seq::<WsEvent>::empty());
        }
        self.sessions.insert(user, mb);
    }

    /// Close a session: the mailbox is gone.
    pub fn close_session(&mut self, user: u128)
        requires
            old(self).wf(),
        ensures
            final(self).wf(),
            !final(self).has_session(user),
            forall|u: u128|
                u != user ==> #[trigger] mailbox_spec(final(self).sessions, u) == mailbox_spec(
                    old(self).sessions,
                    u,
                ),
            forall|u: u128| u != user ==> final(self).has_session(u) == old(self).has_session(u),
            final(self).subs == old(self).subs,
    {
        let _ = self.sessions.take(user);
    }

    /// Whether a user currently has a session.
    pub fn session_exists(&self, user: u128) -> (r: bool)
        requires
            self.wf(),
        ensures
            r == self.has_session(user),
    {
        self.sessions.contains_key(user)
    }

    /// The current subscriber list of a channel.
    pub fn subscriber_list(&self, channel: u128) -> (r: Vec<u128>)
        requires
            self.wf(),
        ensures
            r@ == self.subscribers_of(channel),
    {
        let mut out: Vec<u128> = Vec::new();
        match self.subs.get(channel) {
            None => out,
            Some(list) => {
                let mut i: usize = 0;
                while i < list.len()
                    invariant
                        i <= list@.len(),
                        out@ =~= list@.take(i as int),
                    decreases list@.len() - i,
                {
                    out.push(list[i]);
                    proof {
                        assert(out@ =~= list@.take(i + 1 as int));
                    }
                    i = i + 1;
                }
                proof {
                    assert(list@.take(list@.len() as int) =~= list@);
                }
                out
            },
        }
    }

    /// Take everything queued for a user's socket, oldest first; the mailbox
    /// stays open and empty. The socket writer drains through this.
    pub fn drain_mailbox(&mut self, user: u128) -> (r: Vec<WsEvent>)
        requires
            old(self).wf(),
        ensures
            final(self).wf(),
            final(self).subs == old(self).subs,
            match mailbox_spec(old(self).sessions, user) {
                Some(mb) => r@ == mb && mailbox_spec(final(self).sessions, user) == Some(
                    Seq::<WsEvent>::empty(),
                ),
                None => r@.len() == 0 && mailbox_spec(final(self).sessions, user) is None,
            },
            forall|u: u128|
                u != user ==> #[trigger] mailbox_spec(final(self).sessions, u) == mailbox_spec(
                    old(self).sessions,
                    u,
                ),
    {
        match self.sessions.take(user) {
            Some(mut mb) => {
                let out = mb.take_all();
                proof {
                    assert(mb.events@ =~= Seq::<WsEvent>::empty());
                }
                self.sessions.insert(user, mb);
                out
            },
            None => Vec::new(),
        }
    }

    /// Subscribe a user to a channel; a user already subscribed is not added
    /// again.
    pub fn subscribe(&mut self, channel: u128, user: u128)
        requires
            old(self).wf(),
        ensures
            final(self).wf(),
            final(self).subscribers_of(channel) == (if old(self).is_subscriber(channel, user) {
                old(self).subscribers_of(channel)
            } else {
                old(self).subscribers_of(channel).push(user)
            }),
            final(self).is_subscriber(channel, user),
            forall|c: u128|
                c != channel ==> final(self).subscribers_of(c) == old(self).subscribers_of(c)
                    && final(self).subs.spec_get(c) == old(self).subs.spec_get(c),
            final(self).sessions == old(self).sessions,
    {
        let mut list = match self.subs.take(channel) {
            Some(l) => l,
            None => Vec::new(),
        };
        let ghost pre = list@;
        let mut present = false;
        let mut i: usize = 0;
        while i < list.len()
            invariant
                list@ == pre,
                i <= pre.len(),
                present <==> exists|j: int| 0 <= j < i && pre[j] == user,
            decreases pre.len() - i,
        {
            if list[i] == user {
                present = true;
                proof {
                    assert(pre[i as int] == user);
                }
            }
            i = i + 1;
        }
        proof {
            if present {
                assert(pre.contains(user));
            }
            if pre.contains(user) {
                let j = choose|j: int| 0 <= j < pre.len() && pre[j] == user;
                assert(exists|j2: int| 0 <= j2 < pre.len() && pre[j2] == user);
            }
        }
        if !present {
            list.push(user);
            proof {
                assert(list@[list@.len() - 1] == user);
                assert(list@.contains(user));
                assert forall|a: int, b: int| 0 <= a < b < list@.len() implies list@[a]
                    != list@[b] by {
                    if b < list@.len() - 1 {
                        assert(pre[a] != pre[b]);
                    } else {
                        assert(list@[a] == pre[a]);
                        assert(!pre.contains(user));
                    }
                }
            }
        }
        self.subs.insert(channel, list);
    }

    /// Remove a user from a channel's subscriber list (every occurrence).
    pub fn unsubscribe(&mut self, channel: u128, user: u128)
        requires
            old(self).wf(),
        ensures
            final(self).wf(),
            final(self).subscribers_of(channel) == old(self).subscribers_of(channel).filter(
                |x: u128| x != user,
            ),
            !final(self).is_subscriber(channel, user),
            forall|c: u128|
                c != channel ==> final(self).subscribers_of(c) == old(self).subscribers_of(c)
                    && final(self).subs.spec_get(c) == old(self).subs.spec_get(c),
            final(self).sessions == old(self).sessions,
    {
        match self.subs.take(channel) {
            None => {
                proof {
                    assert(Seq::<u128>::empty().filter(|x: u128| x != user)
                        =~= Seq::<u128>::empty());
                    reveal(Seq::filter);
                }
            },
            Some(list) => {
                let ghost pre = list@;
                let mut kept: Vec<u128> = Vec::new();
                let mut i: usize = 0;
                proof {
                    reveal(Seq::filter);
                    assert(pre.take(0) =~= Seq::<u128>::empty());
                }
                while i < list.len()
                    invariant
                        list@ == pre,
                        i <= pre.len(),
                        kept@ =~= pre.take(i as int).filter(|x: u128| x != user),
                    decreases pre.len() - i,
                {
                    let x = list[i];
                    if x != user {
                        kept.push(x);
                    }
                    proof {
                        reveal(Seq::filter);
                        assert(pre.take(i + 1 as int).drop_last() =~= pre.take(i as int));
                        assert(pre.take(i + 1 as int).last() == pre[i as int]);
                        assert(kept@ =~= pre.take(i + 1 as int).filter(|x: u128| x != user));
                    }
                    i = i + 1;
                }
                proof {
                    assert(pre.take(pre.len() as int) =~= pre);
                    pre.lemma_filter_len(|x: u128| x != user);
                    assert forall|a: int, b: int| 0 <= a < b < kept@.len() implies kept@[a]
                        != kept@[b] by {
                        lemma_filter_nodup(pre, |x: u128| x != user);
                    }
                    assert forall|j: int| 0 <= j < kept@.len() implies kept@[j] != user by {
                        pre.lemma_filter_pred(|x: u128| x != user, j);
                    }
                    if kept@.contains(user) {
                        let j = choose|j: int| 0 <= j < kept@.len() && kept@[j] == user;
                    }
                }
                self.subs.insert(channel, kept);
            },
        }
    }

    /// Deliver an event to one user's mailbox, if a session exists.
    pub fn broadcast_to_user(&mut self, user: u128, event: &WsEvent)
        requires
            old(self).wf(),
        ensures
            final(self).wf(),
            final(self).subs == old(self).subs,
            forall|u: u128|
                #[trigger] final(self).sessions.spec_get(u) is Some <==> old(
                    self,
                ).sessions.spec_get(u) is Some,
            mailbox_spec(final(self).sessions, user) == delivered(
                mailbox_spec(old(self).sessions, user),
                true,
                *event,
            ),
            forall|u: u128|
                u != user ==> #[trigger] mailbox_spec(final(self).sessions, u) == mailbox_spec(
                    old(self).sessions,
                    u,
                ),
    {
        match self.sessions.take(user) {
            Some(mut mb) => {
                mb.push(event.clone());
                self.sessions.insert(user, mb);
            },
            None => {},
        }
    }

    /// Deliver an event to every subscriber of a channel that has a session.
    /// Serialization and the socket write happen elsewhere; a full mailbox
    /// drops the event for that session only.
    pub fn broadcast_to_channel(&mut self, channel: u128, event: &WsEvent)
        requires
            old(self).wf(),
        ensures
            final(self).wf(),
            forall|c: u128| #[trigger] final(self).subscribers_of(c) == old(self).subscribers_of(c),
            forall|c: u128| #[trigger] final(self).subs.spec_get(c) is Some <==> old(
                self,
            ).subs.spec_get(c) is Some,
            forall|u: u128|
                #[trigger] final(self).sessions.spec_get(u) is Some <==> old(
                    self,
                ).sessions.spec_get(u) is Some,
            forall|u: u128|
                #[trigger] mailbox_spec(final(self).sessions, u) == delivered(
                    mailbox_spec(old(self).sessions, u),
                    old(self).is_subscriber(channel, u),
                    *event,
                ),
    {
        let list = match self.subs.take(channel) {
            Some(l) => l,
            None => {
                proof {
                    assert(forall|u: u128| !old(self).is_subscriber(channel, u));
                }
                return ;
            },
        };
        self.deliver_to_all(&list, event);
        self.subs.insert(channel, list);
    }

    /// Deliver an event to every listed user that has a session. The list
    /// must not repeat a user; the store's member lists and the subscriber
    /// index meet that.
    pub fn broadcast_to_server(&mut self, members: &Vec<u128>, event: &WsEvent)
        requires
            old(self).wf(),
            nodup(members@),
        ensures
            final(self).wf(),
            final(self).subs == old(self).subs,
            forall|u: u128|
                #[trigger] final(self).sessions.spec_get(u) is Some <==> old(
                    self,
                ).sessions.spec_get(u) is Some,
            forall|u: u128|
                #[trigger] mailbox_spec(final(self).sessions, u) == delivered(
                    mailbox_spec(old(self).sessions, u),
                    members@.contains(u),
                    *event,
                ),
    {
        self.deliver_to_all(members, event);
    }

    /// Push an event to each listed user's mailbox, skipping users without a
    /// session.
    fn deliver_to_all(&mut self, list: &Vec<u128>, event: &WsEvent)
        requires
            old(self).wf(),
            nodup(list@),
        ensures
            final(self).wf(),
            final(self).subs == old(self).subs,
            forall|u: u128|
                #[trigger] final(self).sessions.spec_get(u) is Some <==> old(
                    self,
                ).sessions.spec_get(u) is Some,
            forall|u: u128|
                #[trigger] mailbox_spec(final(self).sessions, u) == delivered(
                    mailbox_spec(old(self).sessions, u),
                    list@.contains(u),
                    *event,
                ),
    {
        let mut i: usize = 0;
        while i < list.len()
            invariant
                self.wf(),
                i <= list@.len(),
                nodup(list@),
                self.subs == old(self).subs,
                forall|u: u128|
                    #[trigger] self.sessions.spec_get(u) is Some <==> old(self).sessions.spec_get(
                        u,
                    ) is Some,
                forall|u: u128|
                    #[trigger] mailbox_spec(self.sessions, u) == delivered(
                        mailbox_spec(old(self).sessions, u),
                        list@.take(i as int).contains(u),
                        *event,
                    ),
            decreases list@.len() - i,
        {
            let u = list[i];
            proof {
                assert forall|a: int| 0 <= a < i implies list@.take(i as int)[a] != u by {
                    assert(list@[a] != list@[i as int]);
                }
                assert(!list@.take(i as int).contains(u));
            }
            let ghost pre_sessions = self.sessions;
            match self.sessions.take(u) {
                Some(mut mb) => {
                    mb.push(event.clone());
                    self.sessions.insert(u, mb);
                },
                None => {},
            }
            proof {
                let taken = list@.take(i + 1 as int);
                assert(taken =~= list@.take(i as int).push(u));
                assert(taken[i as int] == u);
                assert(taken.contains(u));
                assert forall|u2: u128| u2 != u implies (taken.contains(u2) == list@.take(
                    i as int,
                ).contains(u2)) by {
                    if list@.take(i as int).contains(u2) {
                        let j = choose|j: int| 0 <= j < i && list@.take(i as int)[j] == u2;
                        assert(taken[j] == u2);
                    }
                    if taken.contains(u2) {
                        let j = choose|j: int| 0 <= j < taken.len() && taken[j] == u2;
                        assert(j < i);
                        assert(list@.take(i as int)[j] == u2);
                    }
                }
                assert forall|u2: u128| true implies mailbox_spec(self.sessions, u2) == delivered(
                    mailbox_spec(old(self).sessions, u2),
                    taken.contains(u2),
                    *event,
                ) by {
                    if u2 != u {
                        assert(self.sessions.spec_get(u2) == pre_sessions.spec_get(u2));
                        assert(mailbox_spec(pre_sessions, u2) == delivered(
                            mailbox_spec(old(self).sessions, u2),
                            list@.take(i as int).contains(u2),
                            *event,
                        ));
                    } else {
                        assert(mailbox_spec(pre_sessions, u2) == delivered(
                            mailbox_spec(old(self).sessions, u2),
                            false,
                            *event,
                        ));
                    }
                }
            }
            i = i + 1;
        }
        proof {
            assert(list@.take(list@.len() as int) =~= list@);
        }
    }
}

/// An element of a filtered sequence is an element of the original.
proof fn lemma_filter_sub(s: Seq<u128>, pred: spec_fn(u128) -> bool, x: u128)
    requires
        s.filter(pred).contains(x),
    ensures
        s.contains(x),
    decreases s.len(),
{
    reveal(Seq::filter);
    if s.len() > 0 {
        let t = s.drop_last().filter(pred);
        if pred(s.last()) && x == s.last() {
            assert(s[s.len() - 1] == x);
        } else {
            if pred(s.last()) {
                let j = choose|j: int|
                    0 <= j < s.filter(pred).len() && s.filter(pred)[j] == x;
                assert(j < t.len());
                assert(t[j] == x);
                assert(t.contains(x));
            }
            lemma_filter_sub(s.drop_last(), pred, x);
            let j = choose|j: int| 0 <= j < s.drop_last().len() && s.drop_last()[j] == x;
            assert(s[j] == x);
        }
    }
}

/// Filtering keeps a duplicate-free sequence duplicate-free.
proof fn lemma_filter_nodup(s: Seq<u128>, pred: spec_fn(u128) -> bool)
    requires
        nodup(s),
    ensures
        nodup(s.filter(pred)),
    decreases s.len(),
{
    reveal(Seq::filter);
    if s.len() > 0 {
        assert(nodup(s.drop_last()));
        lemma_filter_nodup(s.drop_last(), pred);
        let t = s.drop_last().filter(pred);
        if pred(s.last()) {
            assert(s.filter(pred) == t.push(s.last()));
            assert forall|a: int, b: int|
                0 <= a < b < s.filter(pred).len() implies s.filter(pred)[a] != s.filter(
                pred,
            )[b] by {
                if b == s.filter(pred).len() - 1 {
                    assert(s.filter(pred)[a] == t[a]);
                    if t[a] == s.last() {
                        assert(t.contains(t[a]));
                        lemma_filter_sub(s.drop_last(), pred, t[a]);
                        let j = choose|j: int|
                            0 <= j < s.drop_last().len() && s.drop_last()[j] == t[a];
                        assert(s[j] == s[s.len() - 1]);
                        assert(false);
                    }
                } else {
                    assert(s.filter(pred)[a] == t[a] && s.filter(pred)[b] == t[b]);
                }
            }
        }
    }
}

} // verus!
