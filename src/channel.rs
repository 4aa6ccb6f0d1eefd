//! Request/response correlation and notification routing over one worker link.
//!
//! The table hands out correlation ids, remembers which requests wait for an answer, matches
//! each incoming response to its request and each notification to the subscriber of its target.
use vstd::prelude::*;

verus! {

/// Why a request got no successful answer.
#[derive(Debug, Clone)]
pub enum RequestError {
    /// The link is gone: the request was never answered, or could not be sent.
    ChannelClosed,
    /// The worker refused the request.
    Response { reason: String },
    /// Every correlation id has been handed out.
    IdsExhausted,
}

/// A response from the worker, as decoded from its JSON envelope.
pub struct ResponseMessage<D> {
    pub id: u64,
    pub accepted: bool,
    pub data: Option<D>,
    pub reason: String,
}

/// A notification from the worker, as decoded from its JSON envelope.
pub struct NotificationMessage<D> {
    pub target_id: String,
    pub event: String,
    pub data: Option<D>,
}

/// Anything the worker sends on its own link.
pub enum IncomingMessage<D> {
    Response(ResponseMessage<D>),
    Notification(NotificationMessage<D>),
}

/// The fields of a JSON envelope from the worker, as far as they are there.
pub struct Envelope<D> {
    pub id: Option<u64>,
    pub accepted: Option<bool>,
    pub reason: Option<String>,
    pub target_id: Option<String>,
    pub event: Option<String>,
    pub data: Option<D>,
}

/// What an envelope is: a response when it has an id, a notification when it has a target
/// and an event instead, and nothing else otherwise.
pub open spec fn envelope_message<D>(e: Envelope<D>, r: Option<IncomingMessage<D>>) -> bool {
    if e.id is Some {
        &&& r is Some
        &&& r->Some_0 is Response
        &&& r->Some_0->Response_0.id == e.id->Some_0
        &&& r->Some_0->Response_0.accepted == (e.accepted == Some(true))
        &&& r->Some_0->Response_0.data == e.data
        &&& r->Some_0->Response_0.reason@ == match e.reason {
            Some(s) => s@,
            None => Seq::<char>::empty(),
        }
    } else if e.target_id is Some && e.event is Some {
        r == Some(
            IncomingMessage::Notification(
                NotificationMessage {
                    target_id: e.target_id->Some_0,
                    event: e.event->Some_0,
                    data: e.data,
                },
            ),
        )
    } else {
        r is None
    }
}

/// Tells a response envelope from a notification envelope.
pub fn classify_envelope<D>(e: Envelope<D>) -> (r: Option<IncomingMessage<D>>)
    ensures
        envelope_message(e, r),
{
    match e.id {
        Some(id) => {
            let accepted = match e.accepted {
                Some(a) => a,
                None => false,
            };
            let reason = match e.reason {
                Some(s) => s,
                None => String::new(),
            };
            Some(IncomingMessage::Response(ResponseMessage { id, accepted, data: e.data, reason }))
        },
        None => match (e.target_id, e.event) {
            (Some(target_id), Some(event)) => Some(
                IncomingMessage::Notification(NotificationMessage { target_id, event, data: e.data }),
            ),
            _ => None,
        },
    }
}

/// Where an incoming message goes.
pub enum Routed<D> {
    /// Answers the waiting request `id`.
    Reply { id: u64, result: Result<Option<D>, RequestError> },
    /// Goes to the holder of subscription `subscriber`.
    Deliver { subscriber: u64, event: String, data: Option<D> },
    /// Nobody waits for it.
    Dropped,
}

/// What the table holds.
pub ghost struct ChannelView {
    /// The id the next request or subscription gets.
    pub next_id: nat,
    /// Ids of the requests that wait for an answer.
    pub pending: Set<u64>,
    /// Subscription of each entity id.
    pub subscribers: Map<Seq<char>, u64>,
    /// Whether the link is gone.
    pub closed: bool,
}

/// The table after the answer to `id` has arrived.
pub open spec fn after_reply(v: ChannelView, id: u64) -> ChannelView {
    ChannelView { pending: v.pending.remove(id), ..v }
}

/// The outcome that a response hands to its request.
pub open spec fn reply_result<D>(m: ResponseMessage<D>) -> Result<Option<D>, RequestError> {
    if m.accepted {
        Ok(m.data)
    } else {
        Err(RequestError::Response { reason: m.reason })
    }
}

/// `after` is `before` with request `id` started.
pub open spec fn request_started(before: ChannelView, after: ChannelView, id: u64) -> bool {
    &&& !before.closed
    &&& id == before.next_id
    &&& !before.pending.contains(id)
    &&& after == ChannelView {
        next_id: before.next_id + 1,
        pending: before.pending.insert(id),
        ..before
    }
}

/// Some entry of `subs` is for entity `k`.
pub open spec fn has_entry(subs: Seq<(String, u64)>, k: Seq<char>) -> bool {
    exists|i: int| 0 <= i < subs.len() && subs[i].0@ == k
}

pub struct Channel {
    next_id: u64,
    pending: Vec<u64>,
    pending_set: Ghost<Set<u64>>,
    subscriptions: Vec<(String, u64)>,
    subscriber_map: Ghost<Map<Seq<char>, u64>>,
    closed: bool,
}

impl View for Channel {
    type V = ChannelView;

    closed spec fn view(&self) -> ChannelView {
        ChannelView {
            next_id: self.next_id as nat,
            pending: self.pending_set@,
            subscribers: self.subscriber_map@,
            closed: self.closed,
        }
    }
}

impl Channel {
    /// The table's own invariant: the vectors match the model, ids are unique and below `next_id`.
    pub closed spec fn wf(&self) -> bool {
        &&& self.next_id >= 1
        &&& self.pending@.no_duplicates()
        &&& forall|x: u64| self.pending_set@.contains(x) <==> self.pending@.contains(x)
        &&& forall|i: int| 0 <= i < self.pending@.len() ==> self.pending@[i] < self.next_id
        &&& self.closed ==> self.pending@.len() == 0
        &&& forall|i: int, j: int|
            0 <= i < j < self.subscriptions@.len() ==> self.subscriptions@[i].0@
                != self.subscriptions@[j].0@ && self.subscriptions@[i].1
                != self.subscriptions@[j].1
        &&& forall|i: int|
            0 <= i < self.subscriptions@.len() ==> {
                &&& self.subscriber_map@.contains_key(#[trigger] self.subscriptions@[i].0@)
                &&& self.subscriber_map@[self.subscriptions@[i].0@] == self.subscriptions@[i].1
                &&& self.subscriptions@[i].1 < self.next_id
            }
        &&& forall|k: Seq<char>|
            #[trigger] self.subscriber_map@.contains_key(k) ==> has_entry(self.subscriptions@, k)
    }

    /// The id counter of a table always fits in a `u64`.
    pub proof fn lemma_next_id_fits(&self)
        ensures
            self@.next_id <= u64::MAX,
    {
    }

    pub fn new() -> (r: Channel)
        ensures
            r.wf(),
            r@ == (ChannelView {
                next_id: 1,
                pending: Set::empty(),
                subscribers: Map::empty(),
                closed: false,
            }),
    {
        Channel {
            next_id: 1,
            pending: Vec::new(),
            pending_set: Ghost(Set::empty()),
            subscriptions: Vec::new(),
            subscriber_map: Ghost(Map::empty()),
            closed: false,
        }
    }

    pub fn is_closed(&self) -> (r: bool)
        ensures
            r == self@.closed,
    {
        self.closed
    }

    /// Registers a new request and returns its correlation id.
    /// Fails once the link is gone, and when the ids have run out.
    pub fn start_request(&mut self) -> (r: Result<u64, RequestError>)
        requires
            old(self).wf(),
        ensures
            final(self).wf(),
            old(self)@.closed ==> r == Err::<u64, RequestError>(RequestError::ChannelClosed)
                && final(self)@ == old(self)@,
            !old(self)@.closed && old(self)@.next_id == u64::MAX ==> r == Err::<
                u64,
                RequestError,
            >(RequestError::IdsExhausted) && final(self)@ == old(self)@,
            !old(self)@.closed && old(self)@.next_id < u64::MAX ==> r is Ok,
            r is Ok ==> request_started(old(self)@, final(self)@, r->Ok_0),
            r is Err ==> final(self)@ == old(self)@,
    {
        if self.closed {
            return Err(RequestError::ChannelClosed);
        }
        if self.next_id == u64::MAX {
            return Err(RequestError::IdsExhausted);
        }
        let id = self.next_id;
        proof {
            assert(!self.pending@.contains(id));
        }
        self.pending.push(id);
        self.pending_set = Ghost(self.pending_set@.insert(id));
        self.next_id = self.next_id + 1;
        proof {
            assert forall|i: int, j: int|
                0 <= i < j < self.pending@.len() implies self.pending@[i] != self.pending@[j] by {
                if j == self.pending@.len() - 1 {
                    assert(old(self).pending@.contains(self.pending@[i]));
                }
            };
            assert forall|x: u64| self.pending_set@.contains(x) <==> self.pending@.contains(x) by {
                if x != id && self.pending@.contains(x) {
                    let i = choose|i: int| 0 <= i < self.pending@.len() && self.pending@[i] == x;
                    assert(old(self).pending@[i] == x);
                }
                if x == id {
                    assert(self.pending@[self.pending@.len() - 1] == id);
                }
                if old(self).pending@.contains(x) {
                    let i = choose|i: int| 0 <= i < old(self).pending@.len() && old(self).pending@[i] == x;
                    assert(self.pending@[i] == x);
                }
            };
        }
        Ok(id)
    }

    /// Index of `id` among the waiting requests.
    fn find_pending(&self, id: u64) -> (r: Option<usize>)
        requires
            self.wf(),
        ensures
            r is Some <==> self@.pending.contains(id),
            r is Some ==> r->Some_0 < self.pending@.len() && self.pending@[r->Some_0 as int] == id,
    {
        let mut i: usize = 0;
        while i < self.pending.len()
            invariant
                self.wf(),
                i <= self.pending@.len(),
                forall|j: int| 0 <= j < i ==> self.pending@[j] != id,
            decreases self.pending@.len() - i,
        {
            if self.pending[i] == id {
                proof {
                    assert(self.pending@.contains(id));
                }
                return Some(i);
            }
            i = i + 1;
        }
        None
    }

    /// Index of the subscription of `entity_id`.
    fn find_subscription(&self, entity_id: &String) -> (r: Option<usize>)
        requires
            self.wf(),
        ensures
            r is Some <==> self@.subscribers.contains_key(entity_id@),
            r is Some ==> r->Some_0 < self.subscriptions@.len()
                && self.subscriptions@[r->Some_0 as int].0@ == entity_id@,
    {
        let mut i: usize = 0;
        while i < self.subscriptions.len()
            invariant
                self.wf(),
                i <= self.subscriptions@.len(),
                forall|j: int| 0 <= j < i ==> self.subscriptions@[j].0@ != entity_id@,
            decreases self.subscriptions@.len() - i,
        {
            if self.subscriptions[i].0 == *entity_id {
                return Some(i);
            }
            i = i + 1;
        }
        proof {
            if self@.subscribers.contains_key(entity_id@) {
                let j = choose|j: int|
                    0 <= j < self.subscriptions@.len() && self.subscriptions@[j].0@ == entity_id@;
                assert(self.subscriptions@[j].0@ == entity_id@);
            }
        }
        None
    }

    /// Index of the subscription that holds `token`.
    fn find_token(&self, token: u64) -> (r: Option<usize>)
        requires
            self.wf(),
        ensures
            r is Some ==> r->Some_0 < self.subscriptions@.len() && self.subscriptions@[r->Some_0 as int].1
                == token,
            r is None ==> forall|j: int|
                0 <= j < self.subscriptions@.len() ==> self.subscriptions@[j].1 != token,
    {
        let mut i: usize = 0;
        while i < self.subscriptions.len()
            invariant
                i <= self.subscriptions@.len(),
                forall|j: int| 0 <= j < i ==> self.subscriptions@[j].1 != token,
            decreases self.subscriptions@.len() - i,
        {
            if self.subscriptions[i].1 == token {
                return Some(i);
            }
            i = i + 1;
        }
        None
    }

    /// Forgets the waiting request at index `i`.
    fn remove_pending(&mut self, i: usize)
        requires
            old(self).wf(),
            i < old(self).pending@.len(),
        ensures
            final(self).wf(),
            final(self)@ == after_reply(old(self)@, old(self).pending@[i as int]),
    {
        let ghost id = self.pending@[i as int];
        let ghost before = self.pending@;
        self.pending.remove(i);
        self.pending_set = Ghost(self.pending_set@.remove(id));
        proof {
            assert(self.pending@ =~= before.remove(i as int));
            assert forall|a: int, b: int|
                0 <= a < b < self.pending@.len() implies self.pending@[a] != self.pending@[b] by {
                let a0 = if a < i { a } else { a + 1 };
                let b0 = if b < i { b } else { b + 1 };
                assert(before[a0] != before[b0]);
            };
            assert forall|x: u64| self.pending_set@.contains(x) <==> self.pending@.contains(x) by {
                if self.pending@.contains(x) {
                    let k = choose|k: int| 0 <= k < self.pending@.len() && self.pending@[k] == x;
                    let k0 = if k < i { k } else { k + 1 };
                    assert(before[k0] == x);
                    assert(k0 != i);
                }
                if x != id && before.contains(x) {
                    let k0 = choose|k: int| 0 <= k < before.len() && before[k] == x;
                    assert(k0 != i);
                    let k = if k0 < i { k0 } else { k0 - 1 };
                    assert(self.pending@[k] == x);
                }
            };
            assert forall|a: int| 0 <= a < self.pending@.len() implies self.pending@[a]
                < self.next_id by {
                let a0 = if a < i { a } else { a + 1 };
                assert(before[a0] == self.pending@[a]);
            };
        }
    }

    /// Forgets a waiting request whose answer nobody will take (it could not be sent);
    /// an id that is not waiting changes nothing. Says whether it was waiting.
    pub fn abandon(&mut self, id: u64) -> (r: bool)
        requires
            old(self).wf(),
        ensures
            final(self).wf(),
            r == old(self)@.pending.contains(id),
            r ==> final(self)@ == after_reply(old(self)@, id),
            !r ==> final(self)@ == old(self)@,
    {
        match self.find_pending(id) {
            Some(i) => {
                self.remove_pending(i);
                true
            },
            None => false,
        }
    }

    /// Routes a message from the worker: a response to the request with its id, a notification
    /// to the subscriber of its target. Anything else is dropped and changes nothing.
    pub fn route<D>(&mut self, msg: IncomingMessage<D>) -> (r: Routed<D>)
        requires
            old(self).wf(),
        ensures
            final(self).wf(),
            match msg {
                IncomingMessage::Response(m) => if old(self)@.pending.contains(m.id) {
                    &&& r == Routed::<D>::Reply { id: m.id, result: reply_result(m) }
                    &&& final(self)@ == after_reply(old(self)@, m.id)
                } else {
                    r is Dropped && final(self)@ == old(self)@
                },
                IncomingMessage::Notification(n) => {
                    &&& final(self)@ == old(self)@
                    &&& if old(self)@.subscribers.contains_key(n.target_id@) {
                        r == Routed::<D>::Deliver {
                            subscriber: old(self)@.subscribers[n.target_id@],
                            event: n.event,
                            data: n.data,
                        }
                    } else {
                        r is Dropped
                    }
                },
            },
    {
        match msg {
            IncomingMessage::Response(m) => match self.find_pending(m.id) {
                Some(i) => {
                    self.remove_pending(i);
                    let result = if m.accepted {
                        Ok(m.data)
                    } else {
                        Err(RequestError::Response { reason: m.reason })
                    };
                    Routed::Reply { id: m.id, result }
                },
                None => Routed::Dropped,
            },
            IncomingMessage::Notification(n) => match self.find_subscription(&n.target_id) {
                Some(i) => {
                    let subscriber = self.subscriptions[i].1;
                    Routed::Deliver { subscriber, event: n.event, data: n.data }
                },
                None => Routed::Dropped,
            },
        }
    }

    /// The link is gone: every waiting request is handed back, to be failed with
    /// [`RequestError::ChannelClosed`], and no request can start any more.
    pub fn close(&mut self) -> (r: Vec<u64>)
        requires
            old(self).wf(),
        ensures
            final(self).wf(),
            final(self)@ == (ChannelView {
                pending: Set::empty(),
                closed: true,
                ..old(self)@
            }),
            r@.no_duplicates(),
            forall|x: u64| r@.contains(x) <==> old(self)@.pending.contains(x),
    {
        let mut r: Vec<u64> = Vec::new();
        std::mem::swap(&mut r, &mut self.pending);
        self.pending_set = Ghost(Set::empty());
        self.closed = true;
        proof {
            assert(self.pending_set@ =~= Set::empty());
            assert(self.pending@ =~= Seq::<u64>::empty());
            assert forall|x: u64| r@.contains(x) <==> old(self)@.pending.contains(x) by {};
            assert(self.wf());
        }
        r
    }

    /// Subscribes `entity_id` to its notifications and returns the token of the subscription.
    /// A subscription that the entity id held before is replaced.
    pub fn subscribe(&mut self, entity_id: String) -> (r: Result<u64, RequestError>)
        requires
            old(self).wf(),
        ensures
            final(self).wf(),
            old(self)@.next_id == u64::MAX ==> r == Err::<u64, RequestError>(
                RequestError::IdsExhausted,
            ) && final(self)@ == old(self)@,
            old(self)@.next_id < u64::MAX ==> r == Ok::<u64, RequestError>(
                old(self)@.next_id as u64,
            ) && final(self)@ == (ChannelView {
                next_id: old(self)@.next_id + 1,
                subscribers: old(self)@.subscribers.insert(entity_id@, old(self)@.next_id as u64),
                ..old(self)@
            }),
            r is Ok ==> r->Ok_0 == old(self)@.next_id && final(self)@ == (ChannelView {
                next_id: old(self)@.next_id + 1,
                subscribers: old(self)@.subscribers.insert(entity_id@, r->Ok_0),
                ..old(self)@
            }),
            r is Err ==> final(self)@ == old(self)@,
    {
        if self.next_id == u64::MAX {
            return Err(RequestError::IdsExhausted);
        }
        let token = self.next_id;
        let ghost key = entity_id@;
        let ghost before = self.subscriptions@;
        let ghost mut at: int = before.len() as int;
        match self.find_subscription(&entity_id) {
            Some(i) => {
                self.subscriptions.set(i, (entity_id, token));
                proof {
                    at = i as int;
                    assert forall|a: int, b: int|
                        0 <= a < b < self.subscriptions@.len() implies self.subscriptions@[a].0@
                        != self.subscriptions@[b].0@ && self.subscriptions@[a].1
                        != self.subscriptions@[b].1 by {
                        assert(before[a].1 < token && before[b].1 < token);
                    };
                }
            },
            None => {
                self.subscriptions.push((entity_id, token));
                proof {
                    assert forall|a: int, b: int|
                        0 <= a < b < self.subscriptions@.len() implies self.subscriptions@[a].0@
                        != self.subscriptions@[b].0@ && self.subscriptions@[a].1
                        != self.subscriptions@[b].1 by {
                        if b == before.len() {
                            assert(self.subscriber_map@.contains_key(before[a].0@));
                        }
                    };
                }
            },
        }
        self.subscriber_map = Ghost(self.subscriber_map@.insert(key, token));
        self.next_id = self.next_id + 1;
        proof {
            assert forall|k: Seq<char>| #[trigger]
                self.subscriber_map@.contains_key(k) implies has_entry(self.subscriptions@, k) by {
                if k == key {
                    assert(self.subscriptions@[at].0@ == k);
                } else {
                    let i = choose|i: int|
                        0 <= i < before.len() && before[i].0@ == k;
                    assert(self.subscriptions@[i].0@ == k);
                }
            };
        }
        Ok(token)
    }

    /// Ends the subscription that holds `token`; says whether there was one.
    pub fn unsubscribe(&mut self, token: u64) -> (r: bool)
        requires
            old(self).wf(),
        ensures
            final(self).wf(),
            r == exists|k: Seq<char>|
                old(self)@.subscribers.contains_key(k) && old(self)@.subscribers[k] == token,
            final(self)@ == (ChannelView {
                subscribers: old(self)@.subscribers.restrict(
                    old(self)@.subscribers.dom().filter(|k: Seq<char>| old(self)@.subscribers[k] != token),
                ),
                ..old(self)@
            }),
    {
        let ghost old_map = self.subscriber_map@;
        let ghost kept = old_map.restrict(old_map.dom().filter(|k: Seq<char>| old_map[k] != token));
        match self.find_token(token) {
            None => {
                proof {
                    assert forall|k: Seq<char>| old_map.contains_key(k) implies old_map[k] != token by {
                        let i = choose|i: int|
                            0 <= i < self.subscriptions@.len() && self.subscriptions@[i].0@ == k;
                    };
                    assert(kept =~= old_map);
                    assert(!exists|k: Seq<char>| old_map.contains_key(k) && old_map[k] == token);
                }
                false
            },
            Some(i) => {
                let ghost before = self.subscriptions@;
                let ghost key = before[i as int].0@;
                self.subscriptions.remove(i);
                self.subscriber_map = Ghost(kept);
                proof {
                    assert(self.subscriptions@ =~= before.remove(i as int));
                    assert(old_map.contains_key(key) && old_map[key] == token);
                    assert(old(self)@.subscribers.contains_key(key) && old(self)@.subscribers[key]
                        == token);
                    assert forall|a: int, b: int|
                        0 <= a < b < self.subscriptions@.len() implies self.subscriptions@[a].0@
                        != self.subscriptions@[b].0@ && self.subscriptions@[a].1
                        != self.subscriptions@[b].1 by {
                        let a0 = if a < i { a } else { a + 1 };
                        let b0 = if b < i { b } else { b + 1 };
                        assert(before[a0] == self.subscriptions@[a]);
                        assert(before[b0] == self.subscriptions@[b]);
                    };
                    assert forall|a: int| 0 <= a < self.subscriptions@.len() implies {
                        &&& kept.contains_key(#[trigger] self.subscriptions@[a].0@)
                        &&& kept[self.subscriptions@[a].0@] == self.subscriptions@[a].1
                        &&& self.subscriptions@[a].1 < self.next_id
                    } by {
                        let a0 = if a < i { a } else { a + 1 };
                        assert(before[a0] == self.subscriptions@[a]);
                        assert(before[a0].1 != token);
                    };
                    assert forall|k: Seq<char>| #[trigger]
                        kept.contains_key(k) implies has_entry(self.subscriptions@, k) by {
                        let a0 = choose|a: int| 0 <= a < before.len() && before[a].0@ == k;
                        assert(a0 != i);
                        let a = if a0 < i { a0 } else { a0 - 1 };
                        assert(self.subscriptions@[a] == before[a0]);
                    };
                }
                true
            },
        }
    }
}

/// Correlation ids are never reused: two requests started one after the other, with any
/// traffic in between that does not lower the id counter, get different ids.
pub proof fn lemma_request_ids_distinct(
    a0: ChannelView,
    a1: ChannelView,
    id1: u64,
    b0: ChannelView,
    b1: ChannelView,
    id2: u64,
)
    requires
        request_started(a0, a1, id1),
        request_started(b0, b1, id2),
        a1.next_id <= b0.next_id,
    ensures
        id1 < id2,
{
}

/// Responses may arrive in any order: answering two waiting requests one way round or the
/// other leaves the same table, and each answer finds its own request still waiting.
pub proof fn lemma_replies_in_any_order(v: ChannelView, id1: u64, id2: u64)
    requires
        v.pending.contains(id1),
        v.pending.contains(id2),
        id1 != id2,
    ensures
        after_reply(v, id1).pending.contains(id2),
        after_reply(v, id2).pending.contains(id1),
        after_reply(after_reply(v, id1), id2) == after_reply(after_reply(v, id2), id1),
{
    assert(after_reply(after_reply(v, id1), id2).pending =~= after_reply(
        after_reply(v, id2),
        id1,
    ).pending);
}

} // verus!
