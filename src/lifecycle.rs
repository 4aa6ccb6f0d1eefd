//! Ownership graph of the routed entities and their one-way `Open -> Closed` lifecycle.
//!
//! Every entity but a router has a parent (the router of a transport, the transport of a
//! producer or consumer); a consumer also has a source (the producer it consumes). An entity is
//! always created after its parent and its source, so both have a lower index than the entity.
//! Closing an entity closes, in the same step, everything below it: children of a closed parent
//! and consumers of a closed source.
//!
//! Each [`CloseEvent`] that a close hands back stands for the whole close sequence of one entity:
//! its one-shot "close" handlers and the handlers of the cause fire, the close request goes to the
//! worker, and the entity lets go of its parent.
use crate::channel::RequestError;
use vstd::prelude::*;

verus! {

#[derive(Debug, Clone, Copy, PartialEq, Eq, Structural)]
pub enum EntityKind {
    Router,
    Transport,
    Producer,
    Consumer,
    DataProducer,
    DataConsumer,
}

/// What closed an entity.
#[derive(Debug, Clone, Copy, PartialEq, Eq, Structural)]
pub enum CloseCause {
    /// The application asked for it.
    Explicit,
    /// The last reference to the entity went away.
    Dropped,
    /// Its parent (the transport of a producer or consumer, the router of a transport) closed.
    ParentClosed,
    /// The producer (or data producer) it consumes closed.
    ProducerClosed,
}

/// One entity that went from open to closed, and why.
#[derive(Debug, Clone, Copy, PartialEq, Eq, Structural)]
pub struct CloseEvent {
    pub entity: usize,
    pub cause: CloseCause,
}

#[derive(Debug, Clone, Copy, PartialEq, Eq, Structural)]
pub struct Entity {
    pub kind: EntityKind,
    pub parent: Option<usize>,
    pub source: Option<usize>,
    pub closed: bool,
}

/// Why an entity cannot be added.
#[derive(Debug, Clone, Copy, PartialEq, Eq, Structural)]
pub enum AddError {
    /// The parent or source index names no entity.
    UnknownEntity,
    /// The parent or source does not fit the kind of the new entity.
    WrongKind,
    /// The parent or source is already closed.
    Closed,
}

/// The kind of parent an entity of kind `kind` has, if any.
pub open spec fn parent_kind(kind: EntityKind) -> Option<EntityKind> {
    match kind {
        EntityKind::Router => None,
        EntityKind::Transport => Some(EntityKind::Router),
        _ => Some(EntityKind::Transport),
    }
}

/// The kind of source an entity of kind `kind` has, if any.
pub open spec fn source_kind(kind: EntityKind) -> Option<EntityKind> {
    match kind {
        EntityKind::Consumer => Some(EntityKind::Producer),
        EntityKind::DataConsumer => Some(EntityKind::DataProducer),
        _ => None,
    }
}

/// `link` points to an entity below `j` whose kind is `want`, or both are absent.
pub open spec fn link_ok(g: Seq<Entity>, j: int, link: Option<usize>, want: Option<EntityKind>) -> bool {
    match want {
        None => link is None,
        Some(k) => match link {
            None => false,
            Some(p) => p < j && g[p as int].kind == k,
        },
    }
}

/// Why `link` cannot serve a new entity of `g` that wants a link of kind `want`, if it cannot.
pub open spec fn link_error(g: Seq<Entity>, link: Option<usize>, want: Option<EntityKind>) -> Option<
    AddError,
> {
    match link {
        None => if want is None {
            None
        } else {
            Some(AddError::WrongKind)
        },
        Some(p) => if p >= g.len() {
            Some(AddError::UnknownEntity)
        } else {
            match want {
                None => Some(AddError::WrongKind),
                Some(k) => if g[p as int].kind != k {
                    Some(AddError::WrongKind)
                } else if g[p as int].closed {
                    Some(AddError::Closed)
                } else {
                    None
                },
            }
        },
    }
}

/// Why an entity of kind `kind` with these links cannot be added to `g`: the parent is checked
/// first, then the source.
pub open spec fn add_error(
    g: Seq<Entity>,
    kind: EntityKind,
    parent: Option<usize>,
    source: Option<usize>,
) -> Option<AddError> {
    if link_error(g, parent, parent_kind(kind)) is Some {
        link_error(g, parent, parent_kind(kind))
    } else {
        link_error(g, source, source_kind(kind))
    }
}

/// Entity `j` has a parent or a source that is closed in `g`.
pub open spec fn upstream_closed(g: Seq<Entity>, j: int) -> bool {
    ||| (g[j].parent matches Some(p) && g[p as int].closed)
    ||| (g[j].source matches Some(s) && g[s as int].closed)
}

/// The graph's invariant: links fit the kinds and point downwards in creation order, and no open
/// entity hangs below a closed one.
pub open spec fn graph_wf(g: Seq<Entity>) -> bool {
    forall|j: int|
        0 <= j < g.len() ==> {
            &&& link_ok(g, j, #[trigger] g[j].parent, parent_kind(g[j].kind))
            &&& link_ok(g, j, g[j].source, source_kind(g[j].kind))
            &&& upstream_closed(g, j) ==> g[j].closed
        }
}

/// Same entities and links, closed flags aside.
pub open spec fn same_shape(a: Seq<Entity>, b: Seq<Entity>) -> bool {
    &&& a.len() == b.len()
    &&& forall|j: int|
        0 <= j < a.len() ==> (#[trigger] a[j]).kind == b[j].kind && a[j].parent == b[j].parent
            && a[j].source == b[j].source
}

/// Entity `j` closed between `before` and `after`.
pub open spec fn newly_closed(before: Seq<Entity>, after: Seq<Entity>, j: int) -> bool {
    !before[j].closed && after[j].closed
}

/// The cause reported for entity `j`, closed as a consequence of closing another entity.
pub open spec fn cascade_cause(after: Seq<Entity>, j: int) -> CloseCause {
    if after[j].parent matches Some(p) && after[p as int].closed {
        CloseCause::ParentClosed
    } else {
        CloseCause::ProducerClosed
    }
}

/// The events of one close: one per newly closed entity, in creation order, the target with the
/// cause given, the others with the upstream entity that took them down.
pub open spec fn events_fit(
    before: Seq<Entity>,
    after: Seq<Entity>,
    i: int,
    cause: CloseCause,
    events: Seq<CloseEvent>,
) -> bool {
    &&& forall|a: int, b: int|
        0 <= a < b < events.len() ==> events[a].entity < events[b].entity
    &&& forall|a: int|
        0 <= a < events.len() ==> {
            &&& (#[trigger] events[a]).entity < after.len()
            &&& newly_closed(before, after, events[a].entity as int)
            &&& events[a].cause == if events[a].entity == i {
                cause
            } else {
                cascade_cause(after, events[a].entity as int)
            }
        }
    &&& forall|j: int|
        0 <= j < after.len() && newly_closed(before, after, j) ==> exists|a: int|
            0 <= a < events.len() && (#[trigger] events[a]).entity == j
}

/// `after` and `events` are what closing entity `i` of `before` with `cause` gives.
pub open spec fn close_outcome(
    before: Seq<Entity>,
    i: int,
    cause: CloseCause,
    after: Seq<Entity>,
    events: Seq<CloseEvent>,
) -> bool {
    &&& same_shape(before, after)
    &&& graph_wf(after)
    &&& if before[i].closed {
        after == before && events.len() == 0
    } else {
        &&& after[i].closed
        &&& forall|j: int| 0 <= j < before.len() && before[j].closed ==> after[j].closed
        &&& forall|j: int|
            0 <= j < before.len() && j != i && newly_closed(before, after, j) ==> upstream_closed(
                after,
                j,
            )
        &&& events_fit(before, after, i, cause, events)
    }
}

pub struct EntityGraph {
    entities: Vec<Entity>,
}

impl View for EntityGraph {
    type V = Seq<Entity>;

    closed spec fn view(&self) -> Seq<Entity> {
        self.entities@
    }
}

impl EntityGraph {
    pub fn new() -> (r: EntityGraph)
        ensures
            r@ == Seq::<Entity>::empty(),
            graph_wf(r@),
    {
        EntityGraph { entities: Vec::new() }
    }

    pub fn len(&self) -> (r: usize)
        ensures
            r == self@.len(),
    {
        self.entities.len()
    }

    pub fn get(&self, i: usize) -> (r: Entity)
        requires
            i < self@.len(),
        ensures
            r == self@[i as int],
    {
        self.entities[i]
    }

    /// Whether entity `i` is closed.
    pub fn is_closed(&self, i: usize) -> (r: bool)
        requires
            i < self@.len(),
        ensures
            r == self@[i as int].closed,
    {
        self.entities[i].closed
    }

    /// A request on behalf of entity `i` may go to the worker only while the entity is open.
    pub fn check_open(&self, i: usize) -> (r: Result<(), RequestError>)
        requires
            i < self@.len(),
        ensures
            r is Ok <==> !self@[i as int].closed,
            r is Err ==> r == Err::<(), RequestError>(RequestError::ChannelClosed),
    {
        if self.entities[i].closed {
            Err(RequestError::ChannelClosed)
        } else {
            Ok(())
        }
    }

    fn link_fits(&self, link: Option<usize>, want: Option<EntityKind>) -> (r: Result<(), AddError>)
        ensures
            r is Ok <==> link_error(self@, link, want) is None,
            r is Err ==> link_error(self@, link, want) == Some(r->Err_0),
            r is Ok ==> link_ok(self@, self@.len() as int, link, want) && !(link matches Some(p)
                && self@[p as int].closed),
    {
        match link {
            None => match want {
                None => Ok(()),
                Some(_) => Err(AddError::WrongKind),
            },
            Some(p) => {
                if p >= self.entities.len() {
                    return Err(AddError::UnknownEntity);
                }
                match want {
                    None => Err(AddError::WrongKind),
                    Some(k) => {
                        if self.entities[p].kind != k {
                            Err(AddError::WrongKind)
                        } else if self.entities[p].closed {
                            Err(AddError::Closed)
                        } else {
                            Ok(())
                        }
                    },
                }
            },
        }
    }

    /// Adds an open entity of kind `kind` below `parent` and `source`, and returns its index.
    /// The parent and source must exist, fit the kind and be open.
    pub fn add(&mut self, kind: EntityKind, parent: Option<usize>, source: Option<usize>) -> (r:
        Result<usize, AddError>)
        requires
            graph_wf(old(self)@),
            old(self)@.len() < usize::MAX,
        ensures
            graph_wf(final(self)@),
            r is Ok <==> add_error(old(self)@, kind, parent, source) is None,
            r is Err ==> add_error(old(self)@, kind, parent, source) == Some(r->Err_0),
            r is Ok ==> r->Ok_0 == old(self)@.len() && final(self)@ == old(self)@.push(
                Entity { kind, parent, source, closed: false },
            ),
            r is Err ==> final(self)@ == old(self)@,
    {
        match self.link_fits(parent, parent_kind_of(kind)) {
            Err(e) => return Err(e),
            Ok(()) => {},
        }
        match self.link_fits(source, source_kind_of(kind)) {
            Err(e) => return Err(e),
            Ok(()) => {},
        }
        let i = self.entities.len();
        let ghost before = self.entities@;
        self.entities.push(Entity { kind, parent, source, closed: false });
        proof {
            assert forall|j: int| 0 <= j < self@.len() implies {
                &&& link_ok(self@, j, #[trigger] self@[j].parent, parent_kind(self@[j].kind))
                &&& link_ok(self@, j, self@[j].source, source_kind(self@[j].kind))
                &&& upstream_closed(self@, j) ==> self@[j].closed
            } by {
                if j < i {
                    assert(self@[j] == before[j]);
                    assert(link_ok(before, j, before[j].parent, parent_kind(before[j].kind)));
                    assert(link_ok(before, j, before[j].source, source_kind(before[j].kind)));
                }
            };
        }
        Ok(i)
    }

    /// Closes entity `i` with `cause`, and with it everything below: children of a closed entity
    /// and consumers of a closed producer. Returns one event per entity that closed now; an
    /// entity that was closed already gives none, whatever asks for its close and how often.
    pub fn close(&mut self, i: usize, cause: CloseCause) -> (events: Vec<CloseEvent>)
        requires
            graph_wf(old(self)@),
            i < old(self)@.len(),
        ensures
            close_outcome(old(self)@, i as int, cause, final(self)@, events@),
    {
        if self.entities[i].closed {
            return Vec::new();
        }
        let ghost before = self.entities@;
        let mut events: Vec<CloseEvent> = Vec::new();
        let e = self.entities[i];
        self.entities.set(i, Entity { closed: true, ..e });
        events.push(CloseEvent { entity: i, cause });
        let n = self.entities.len();
        let mut j: usize = i + 1;
        while j < n
            invariant
                graph_wf(before),
                !before[i as int].closed,
                i < j <= n,
                n == before.len(),
                same_shape(before, self@),
                self@[i as int].closed,
                forall|k: int| j <= k < n ==> self@[k] == before[k],
                forall|k: int| 0 <= k < i ==> self@[k] == before[k],
                forall|k: int|
                    i < k < j ==> (#[trigger] self@[k]).closed == (before[k].closed || upstream_closed(
                        self@,
                        k,
                    )),
                events@.len() >= 1,
                events@[0] == (CloseEvent { entity: i, cause }),
                forall|a: int, b: int|
                    0 <= a < b < events@.len() ==> events@[a].entity < events@[b].entity,
                forall|a: int|
                    0 <= a < events@.len() ==> {
                        &&& (#[trigger] events@[a]).entity < j
                        &&& newly_closed(before, self@, events@[a].entity as int)
                        &&& events@[a].cause == if events@[a].entity == i {
                            cause
                        } else {
                            cascade_cause(self@, events@[a].entity as int)
                        }
                    },
                forall|k: int|
                    0 <= k < j && newly_closed(before, self@, k) ==> exists|a: int|
                        0 <= a < events@.len() && (#[trigger] events@[a]).entity == k,
            decreases n - j,
        {
            let ent = self.entities[j];
            let parent_closed = match ent.parent {
                Some(p) => self.entities[p].closed,
                None => false,
            };
            let source_closed = match ent.source {
                Some(s) => self.entities[s].closed,
                None => false,
            };
            proof {
                assert(link_ok(before, j as int, before[j as int].parent, parent_kind(before[j as int].kind)));
                assert(link_ok(before, j as int, before[j as int].source, source_kind(before[j as int].kind)));
            }
            if !ent.closed && (parent_closed || source_closed) {
                let ghost prev = self.entities@;
                let ghost prev_events = events@;
                self.entities.set(j, Entity { closed: true, ..ent });
                let c = if parent_closed {
                    CloseCause::ParentClosed
                } else {
                    CloseCause::ProducerClosed
                };
                events.push(CloseEvent { entity: j, cause: c });
                proof {
                    assert forall|k: int| i < k < j + 1 implies (#[trigger] self@[k]).closed == (
                    before[k].closed || upstream_closed(self@, k)) by {
                        if k < j {
                            assert(self@[k] == prev[k]);
                            assert(link_ok(before, k, before[k].parent, parent_kind(before[k].kind)));
                            assert(link_ok(before, k, before[k].source, source_kind(before[k].kind)));
                        }
                    };
                    assert forall|a: int| 0 <= a < events@.len() implies {
                        &&& (#[trigger] events@[a]).entity < j + 1
                        &&& newly_closed(before, self@, events@[a].entity as int)
                        &&& events@[a].cause == if events@[a].entity == i {
                            cause
                        } else {
                            cascade_cause(self@, events@[a].entity as int)
                        }
                    } by {
                        if a < prev_events.len() {
                            let k = events@[a].entity as int;
                            assert(events@[a] == prev_events[a]);
                            assert(self@[k] == prev[k]);
                            if k != i {
                                assert(link_ok(before, k, before[k].parent, parent_kind(before[k].kind)));
                            }
                        }
                    };
                    assert forall|k: int|
                        0 <= k < j + 1 && newly_closed(before, self@, k) implies exists|a: int|
                        0 <= a < events@.len() && (#[trigger] events@[a]).entity == k by {
                        if k == j {
                            assert(events@[events@.len() - 1].entity == k);
                        } else {
                            assert(self@[k] == prev[k]);
                            assert(newly_closed(before, prev, k));
                            let a = choose|a: int|
                                0 <= a < prev_events.len() && (#[trigger] prev_events[a]).entity == k;
                            assert(events@[a] == prev_events[a]);
                        }
                    };
                }
            } else {
                proof {
                    assert forall|k: int| i < k < j + 1 implies (#[trigger] self@[k]).closed == (
                    before[k].closed || upstream_closed(self@, k)) by {
                        if k == j {
                            assert(before[k].closed ==> self@[k].closed);
                        }
                    };
                }
            }
            j = j + 1;
        }
        proof {
            let after = self@;
            assert forall|k: int| 0 <= k < n implies {
                &&& link_ok(after, k, #[trigger] after[k].parent, parent_kind(after[k].kind))
                &&& link_ok(after, k, after[k].source, source_kind(after[k].kind))
                &&& upstream_closed(after, k) ==> after[k].closed
            } by {
                assert(link_ok(before, k, before[k].parent, parent_kind(before[k].kind)));
                assert(link_ok(before, k, before[k].source, source_kind(before[k].kind)));
                if k < i {
                    assert(after[k] == before[k]);
                    if upstream_closed(after, k) {
                        // everything below `i` is untouched
                        assert(upstream_closed(before, k));
                    }
                }
            };
            assert forall|k: int|
                0 <= k < n && k != i && newly_closed(before, after, k) implies upstream_closed(
                after,
                k,
            ) by {
                assert(k > i);
            };
        }
        events
    }
}

/// Number of events in `events` that name entity `x`.
pub open spec fn event_count(events: Seq<CloseEvent>, x: int) -> nat
    decreases events.len(),
{
    if events.len() == 0 {
        0
    } else {
        event_count(events.drop_last(), x) + if events.last().entity == x {
            1nat
        } else {
            0nat
        }
    }
}

/// Number of events naming entity `x` over a run of closes.
pub open spec fn run_event_count(runs: Seq<Seq<CloseEvent>>, x: int) -> nat
    decreases runs.len(),
{
    if runs.len() == 0 {
        0
    } else {
        run_event_count(runs.drop_last(), x) + event_count(runs.last(), x)
    }
}

proof fn lemma_event_count_sorted(events: Seq<CloseEvent>, x: int)
    requires
        forall|a: int, b: int| 0 <= a < b < events.len() ==> events[a].entity < events[b].entity,
    ensures
        event_count(events, x) == if exists|a: int|
            0 <= a < events.len() && (#[trigger] events[a]).entity == x {
            1nat
        } else {
            0nat
        },
    decreases events.len(),
{
    if events.len() > 0 {
        let init = events.drop_last();
        lemma_event_count_sorted(init, x);
        if exists|a: int| 0 <= a < init.len() && (#[trigger] init[a]).entity == x {
            let a = choose|a: int| 0 <= a < init.len() && (#[trigger] init[a]).entity == x;
            assert(events[a].entity == x);
        }
        if exists|a: int| 0 <= a < events.len() && (#[trigger] events[a]).entity == x {
            let a = choose|a: int| 0 <= a < events.len() && (#[trigger] events[a]).entity == x;
            if a < init.len() {
                assert(init[a].entity == x);
            }
        }
    }
}

/// One close names entity `x` in exactly one event if it closed `x`, and in none otherwise.
pub proof fn lemma_close_event_count(
    before: Seq<Entity>,
    i: int,
    cause: CloseCause,
    after: Seq<Entity>,
    events: Seq<CloseEvent>,
    x: int,
)
    requires
        0 <= i < before.len(),
        close_outcome(before, i, cause, after, events),
        0 <= x < before.len(),
    ensures
        event_count(events, x) == if newly_closed(before, after, x) {
            1nat
        } else {
            0nat
        },
{
    if before[i].closed {
        assert(event_count(events, x) == 0);
    } else {
        lemma_event_count_sorted(events, x);
        if exists|a: int| 0 <= a < events.len() && (#[trigger] events[a]).entity == x {
            let a = choose|a: int| 0 <= a < events.len() && (#[trigger] events[a]).entity == x;
            assert(newly_closed(before, after, events[a].entity as int));
        }
    }
}

/// At-most-once close: whatever mix of explicit closes, drops, parent closes and producer
/// closes reaches an entity, and however often, it takes part in exactly one close sequence
/// if it ended up closed from open, and in none otherwise.
pub proof fn lemma_close_at_most_once(
    states: Seq<Seq<Entity>>,
    targets: Seq<int>,
    causes: Seq<CloseCause>,
    runs: Seq<Seq<CloseEvent>>,
    x: int,
)
    requires
        states.len() == targets.len() + 1,
        causes.len() == targets.len(),
        runs.len() == targets.len(),
        graph_wf(states[0]),
        forall|k: int|
            0 <= k < targets.len() ==> 0 <= #[trigger] targets[k] < states[k].len() && close_outcome(
                states[k],
                targets[k],
                causes[k],
                states[k + 1],
                runs[k],
            ),
        0 <= x < states[0].len(),
    ensures
        states.last().len() == states[0].len(),
        states[0][x].closed ==> states.last()[x].closed,
        run_event_count(runs, x) == if !states[0][x].closed && states.last()[x].closed {
            1nat
        } else {
            0nat
        },
    decreases targets.len(),
{
    let n = targets.len();
    if n > 0 {
        let k = n - 1;
        lemma_close_at_most_once(
            states.drop_last(),
            targets.drop_last(),
            causes.drop_last(),
            runs.drop_last(),
            x,
        );
        assert(states.drop_last().last() == states[k]);
        assert(runs.drop_last() == runs.subrange(0, k));
        assert(0 <= targets[k] < states[k].len());
        lemma_close_event_count(states[k], targets[k], causes[k], states[k + 1], runs[k], x);
        if states[k][x].closed {
            assert(states[k + 1][x].closed);
        }
    }
}

/// Cascade: closing an entity leaves each of its children closed, and a child that was open
/// takes part in exactly one close sequence, caused by its parent.
pub proof fn lemma_cascade_to_children(
    before: Seq<Entity>,
    t: usize,
    cause: CloseCause,
    after: Seq<Entity>,
    events: Seq<CloseEvent>,
    child: usize,
)
    requires
        graph_wf(before),
        t < before.len(),
        close_outcome(before, t as int, cause, after, events),
        child < before.len(),
        before[child as int].parent == Some(t),
    ensures
        after[t as int].closed,
        after[child as int].closed,
        !before[child as int].closed ==> event_count(events, child as int) == 1 && exists|a: int|
            0 <= a < events.len() && events[a] == (CloseEvent {
                entity: child,
                cause: CloseCause::ParentClosed,
            }),
{
    let c = child as int;
    assert(after[c].parent == before[c].parent);
    assert(after[t as int].closed);
    assert(upstream_closed(after, c));
    assert(graph_wf(after) ==> (upstream_closed(after, c) ==> after[c].closed));
    lemma_close_event_count(before, t as int, cause, after, events, c);
    if !before[c].closed {
        assert(!upstream_closed(before, c));
        assert(link_ok(before, c, before[c].parent, parent_kind(before[c].kind)));
        assert(!before[t as int].closed);
        assert(newly_closed(before, after, c));
        let a = choose|a: int| 0 <= a < events.len() && (#[trigger] events[a]).entity == c;
        assert(events[a].entity != t);
        assert(cascade_cause(after, c) == CloseCause::ParentClosed);
        assert(events[a] == (CloseEvent { entity: child, cause: CloseCause::ParentClosed }));
    }
}

fn parent_kind_of(kind: EntityKind) -> (r: Option<EntityKind>)
    ensures
        r == parent_kind(kind),
{
    match kind {
        EntityKind::Router => None,
        EntityKind::Transport => Some(EntityKind::Router),
        _ => Some(EntityKind::Transport),
    }
}

fn source_kind_of(kind: EntityKind) -> (r: Option<EntityKind>)
    ensures
        r == source_kind(kind),
{
    match kind {
        EntityKind::Consumer => Some(EntityKind::Producer),
        EntityKind::DataConsumer => Some(EntityKind::DataProducer),
        _ => None,
    }
}

} // verus!
