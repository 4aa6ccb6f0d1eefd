use mediasoup_core::channel::RequestError;
use mediasoup_core::lifecycle::{AddError, CloseCause, CloseEvent, EntityGraph, EntityKind};

struct World {
    graph: EntityGraph,
    router: usize,
    transport: usize,
    producer: usize,
    consumer: usize,
    data_producer: usize,
    data_consumer: usize,
}

fn world() -> World {
    let mut graph = EntityGraph::new();
    let router = graph.add(EntityKind::Router, None, None).unwrap();
    let transport = graph.add(EntityKind::Transport, Some(router), None).unwrap();
    let producer = graph.add(EntityKind::Producer, Some(transport), None).unwrap();
    let consumer = graph.add(EntityKind::Consumer, Some(transport), Some(producer)).unwrap();
    let data_producer = graph.add(EntityKind::DataProducer, Some(transport), None).unwrap();
    let data_consumer =
        graph.add(EntityKind::DataConsumer, Some(transport), Some(data_producer)).unwrap();
    World { graph, router, transport, producer, consumer, data_producer, data_consumer }
}

#[test]
fn explicit_close_fires_once() {
    let mut w = world();
    let events = w.graph.close(w.data_consumer, CloseCause::Explicit);
    assert_eq!(events, vec![CloseEvent { entity: w.data_consumer, cause: CloseCause::Explicit }]);
    assert!(w.graph.is_closed(w.data_consumer));
    assert!(!w.graph.is_closed(w.data_producer));
}

#[test]
fn repeated_closes_of_any_kind_fire_nothing_more() {
    let mut w = world();
    let mut total = 0;
    for cause in [
        CloseCause::Explicit,
        CloseCause::Dropped,
        CloseCause::ParentClosed,
        CloseCause::ProducerClosed,
        CloseCause::Explicit,
    ] {
        let events = w.graph.close(w.consumer, cause);
        total += events.iter().filter(|e| e.entity == w.consumer).count();
    }
    total += w.graph.close(w.producer, CloseCause::Explicit).iter().filter(|e| e.entity == w.consumer).count();
    total += w.graph.close(w.transport, CloseCause::Explicit).iter().filter(|e| e.entity == w.consumer).count();
    assert_eq!(total, 1);
}

#[test]
fn closing_a_transport_closes_every_child_once() {
    let mut w = world();
    let events = w.graph.close(w.transport, CloseCause::Explicit);
    assert_eq!(
        events,
        vec![
            CloseEvent { entity: w.transport, cause: CloseCause::Explicit },
            CloseEvent { entity: w.producer, cause: CloseCause::ParentClosed },
            CloseEvent { entity: w.consumer, cause: CloseCause::ParentClosed },
            CloseEvent { entity: w.data_producer, cause: CloseCause::ParentClosed },
            CloseEvent { entity: w.data_consumer, cause: CloseCause::ParentClosed },
        ]
    );
    for e in [w.producer, w.consumer, w.data_producer, w.data_consumer] {
        assert!(w.graph.is_closed(e));
    }
    assert!(!w.graph.is_closed(w.router));
    assert!(w.graph.close(w.transport, CloseCause::Explicit).is_empty());
}

#[test]
fn closing_a_router_cascades_down_two_levels() {
    let mut w = world();
    let events = w.graph.close(w.router, CloseCause::Dropped);
    assert_eq!(events.len(), 6);
    assert_eq!(events[1], CloseEvent { entity: w.transport, cause: CloseCause::ParentClosed });
}

#[test]
fn producer_close_closes_its_consumer() {
    let mut w = world();
    let events = w.graph.close(w.producer, CloseCause::Explicit);
    assert_eq!(
        events,
        vec![
            CloseEvent { entity: w.producer, cause: CloseCause::Explicit },
            CloseEvent { entity: w.consumer, cause: CloseCause::ProducerClosed },
        ]
    );
    assert!(w.graph.is_closed(w.consumer));
    assert!(!w.graph.is_closed(w.transport));
    // A later consumer request is refused instead of reaching the worker.
    assert!(matches!(w.graph.check_open(w.consumer), Err(RequestError::ChannelClosed)));
    assert!(w.graph.check_open(w.transport).is_ok());
    // The producer-close notification that follows changes nothing.
    assert!(w.graph.close(w.consumer, CloseCause::ProducerClosed).is_empty());
}

#[test]
fn data_producer_close_closes_its_data_consumer() {
    let mut w = world();
    let events = w.graph.close(w.data_producer, CloseCause::Explicit);
    assert_eq!(events.len(), 2);
    assert_eq!(events[1], CloseEvent { entity: w.data_consumer, cause: CloseCause::ProducerClosed });
}

#[test]
fn adding_checks_links() {
    let mut w = world();
    assert_eq!(w.graph.add(EntityKind::Consumer, Some(w.transport), None), Err(AddError::WrongKind));
    assert_eq!(w.graph.add(EntityKind::Producer, Some(w.router), None), Err(AddError::WrongKind));
    assert_eq!(w.graph.add(EntityKind::Producer, Some(99), None), Err(AddError::UnknownEntity));
    assert_eq!(
        w.graph.add(EntityKind::Consumer, Some(w.transport), Some(w.data_producer)),
        Err(AddError::WrongKind)
    );
    w.graph.close(w.producer, CloseCause::Explicit);
    assert_eq!(
        w.graph.add(EntityKind::Consumer, Some(w.transport), Some(w.producer)),
        Err(AddError::Closed)
    );
    let n = w.graph.len();
    assert_eq!(w.graph.add(EntityKind::Producer, Some(w.transport), None), Ok(n));
    assert_eq!(w.graph.get(n).parent, Some(w.transport));
}
