use mediasoup_core::channel::{
    Channel, IncomingMessage, NotificationMessage, RequestError, Routed,
};
use mediasoup_core::consumer::{
    ConsumerEvent, ConsumerLayers, ConsumerNotification, ConsumerOptions, ConsumerScore,
    ConsumerState, ConsumerType, ProducerType, DEFAULT_PRIORITY,
};
use mediasoup_core::data_consumer::{
    handle_notification, DataConsumerEvent, DataConsumerNotification, DataConsumerOptions,
};
use mediasoup_core::data_producer::DataProducerOptions;
use mediasoup_core::data_structures::{
    DataProducerId, DtlsParameters, DtlsRole, DtlsState, IceState, ProducerId, RtpCapabilities, SctpState,
    SctpStreamParameters, TransportListenIp, TransportProtocol, TransportTuple,
};
use mediasoup_core::lifecycle::{CloseCause, CloseEvent, EntityGraph, EntityKind};
use mediasoup_core::webrtc_transport::{
    SctpStreamIds, TransportListenIps, WebRtcTransportEvent, WebRtcTransportNotification,
    WebRtcTransportOptions, WebRtcTransportState,
};

fn score(score: u8, producer_score: u8, producer_scores: Vec<u8>) -> ConsumerScore {
    ConsumerScore { score, producer_score, producer_scores }
}

fn state() -> ConsumerState {
    ConsumerState::new(false, false, score(10, 10, vec![10]), None)
}

#[test]
fn score_notification_updates_cache_and_fires_score() {
    let mut s = state();
    let events = s.handle_notification(ConsumerNotification::Score(score(9, 8, vec![8])));
    assert!(matches!(events.as_slice(), [ConsumerEvent::Score]));
    assert_eq!(s.score.score, 9);
    assert_eq!(s.score.producer_score, 8);
    assert_eq!(s.score.producer_scores, vec![8]);
}

#[test]
fn producer_pause_pauses_an_unpaused_consumer() {
    let mut s = state();
    let events = s.handle_notification(ConsumerNotification::ProducerPause);
    assert!(matches!(events.as_slice(), [ConsumerEvent::ProducerPause, ConsumerEvent::Pause]));
    assert!(s.producer_paused);
    let events = s.handle_notification(ConsumerNotification::ProducerPause);
    assert!(matches!(events.as_slice(), [ConsumerEvent::ProducerPause]));
}

#[test]
fn producer_resume_resumes_only_when_consumer_itself_runs() {
    let mut s = ConsumerState::new(true, true, score(0, 0, vec![]), None);
    let events = s.handle_notification(ConsumerNotification::ProducerResume);
    assert!(matches!(events.as_slice(), [ConsumerEvent::ProducerResume]));
    assert!(!s.producer_paused);
    let mut s = ConsumerState::new(false, true, score(0, 0, vec![]), None);
    let events = s.handle_notification(ConsumerNotification::ProducerResume);
    assert!(matches!(events.as_slice(), [ConsumerEvent::ProducerResume, ConsumerEvent::Resume]));
}

#[test]
fn pause_and_resume_after_requests() {
    let mut s = state();
    assert!(s.apply_pause());
    assert!(s.paused);
    assert!(!s.apply_pause());
    assert!(s.apply_resume());
    assert!(!s.paused);
    assert!(!s.apply_resume());
}

#[test]
fn resume_fires_only_when_the_producer_runs() {
    // Paused by itself and by its producer: resuming leaves it stopped, no "resume".
    let mut s = ConsumerState::new(true, true, score(0, 0, vec![]), None);
    assert!(!s.apply_resume());
    assert!(!s.paused);
    assert!(s.producer_paused);
    // The producer resumes later: now the consumer runs again.
    let events = s.handle_notification(ConsumerNotification::ProducerResume);
    assert!(matches!(events.as_slice(), [ConsumerEvent::ProducerResume, ConsumerEvent::Resume]));
    // Paused only through its producer: resuming the consumer changes nothing visible.
    let mut s = ConsumerState::new(false, true, score(0, 0, vec![]), None);
    assert!(!s.apply_resume());
}

#[test]
fn layers_priority_and_producer_close() {
    let mut s = state();
    let layers = Some(ConsumerLayers { spatial_layer: 2, temporal_layer: Some(1) });
    let events = s.handle_notification(ConsumerNotification::LayersChange(layers));
    assert!(matches!(events.as_slice(), [ConsumerEvent::LayersChange(l)] if *l == layers));
    assert_eq!(s.current_layers, layers);
    assert_eq!(s.priority, DEFAULT_PRIORITY);
    s.apply_priority(5);
    assert_eq!(s.priority, 5);
    s.apply_preferred_layers(layers);
    assert_eq!(s.preferred_layers, layers);
    let events = s.handle_notification(ConsumerNotification::ProducerClose);
    assert!(matches!(events.as_slice(), [ConsumerEvent::ProducerClose]));
    let events = s.handle_notification(ConsumerNotification::Trace);
    assert!(matches!(events.as_slice(), [ConsumerEvent::Trace]));
}

#[test]
fn consumer_type_follows_producer_type() {
    assert_eq!(ConsumerType::from(ProducerType::Simple), ConsumerType::Simple);
    assert_eq!(ConsumerType::from(ProducerType::Simulcast), ConsumerType::Simulcast);
    assert_eq!(ConsumerType::from(ProducerType::SVC), ConsumerType::SVC);
}

#[test]
fn consumer_options_defaults() {
    let options = ConsumerOptions::new(ProducerId(7), RtpCapabilities(serde_json::Value::Null));
    assert_eq!(options.producer_id, ProducerId(7));
    assert!(!options.paused);
    assert!(options.preferred_layers.is_none());
}

#[test]
fn data_consumer_options() {
    let id = DataProducerId(3);
    let o = DataConsumerOptions::new_sctp(id);
    assert_eq!((o.ordered, o.max_packet_life_time, o.max_retransmits), (None, None, None));
    let o = DataConsumerOptions::new_direct(id);
    assert_eq!(o.ordered, Some(true));
    let o = DataConsumerOptions::new_sctp_ordered(id);
    assert_eq!(o.ordered, Some(true));
    let o = DataConsumerOptions::new_sctp_unordered_with_life_time(id, 500);
    assert_eq!((o.ordered, o.max_packet_life_time, o.max_retransmits), (Some(false), Some(500), None));
    let o = DataConsumerOptions::new_sctp_unordered_with_retransmits(id, 4);
    assert_eq!((o.ordered, o.max_packet_life_time, o.max_retransmits), (Some(false), None, Some(4)));
    assert_eq!(o.data_producer_id, id);
}

#[test]
fn data_consumer_notifications() {
    assert_eq!(
        handle_notification(DataConsumerNotification::DataProducerClose),
        DataConsumerEvent::DataProducerClose
    );
    assert_eq!(
        handle_notification(DataConsumerNotification::BufferedAmountLow),
        DataConsumerEvent::BufferedAmountLow
    );
    assert_eq!(
        handle_notification(DataConsumerNotification::SctpSendBufferFull),
        DataConsumerEvent::SctpSendBufferFull
    );
}

#[test]
fn data_producer_options() {
    let params = SctpStreamParameters {
        stream_id: 3,
        ordered: true,
        max_packet_life_time: None,
        max_retransmits: None,
    };
    let o = DataProducerOptions::new_sctp(params);
    assert_eq!(o.sctp_stream_parameters, Some(params));
    assert!(o.id.is_none());
    assert!(o.label.is_empty() && o.protocol.is_empty());
    let o = DataProducerOptions::new_direct();
    assert!(o.sctp_stream_parameters.is_none());
}

fn ip(s: &str) -> TransportListenIp {
    TransportListenIp { ip: s.to_string(), announced_ip: None }
}

#[test]
fn listen_ips_are_never_empty() {
    let ips = TransportListenIps::new(ip("127.0.0.1")).add(ip("10.0.0.1"));
    let list = ips.listen_ips();
    assert_eq!(list.len(), 2);
    assert_eq!(list[1].ip, "10.0.0.1");
    assert!(TransportListenIps::try_from(vec![]).is_err());
    assert_eq!(TransportListenIps::try_from(vec![ip("::1")]).unwrap().listen_ips().len(), 1);
}

#[test]
fn webrtc_transport_option_defaults() {
    let o = WebRtcTransportOptions::new(TransportListenIps::new(ip("127.0.0.1")));
    assert!(o.enable_udp && !o.enable_tcp && !o.prefer_udp && !o.prefer_tcp && !o.enable_sctp);
    assert_eq!(o.initial_available_outgoing_bitrate, 600000);
    assert_eq!((o.num_sctp_streams.os, o.num_sctp_streams.mis), (1024, 1024));
    assert_eq!(o.max_sctp_message_size, 262144);
    assert_eq!(o.sctp_send_buffer_size, 262144);
}

#[test]
fn webrtc_transport_notifications_update_state() {
    let mut s = WebRtcTransportState {
        dtls_parameters: DtlsParameters { role: DtlsRole::Auto, fingerprints: vec![] },
        ice_state: IceState::New,
        ice_selected_tuple: None,
        dtls_state: DtlsState::New,
        dtls_remote_cert: None,
        sctp_state: None,
    };
    assert_eq!(
        s.handle_notification(WebRtcTransportNotification::IceStateChange(IceState::Connected)),
        WebRtcTransportEvent::IceStateChange(IceState::Connected)
    );
    assert_eq!(s.ice_state, IceState::Connected);
    let tuple = TransportTuple {
        local_ip: "1.2.3.4".to_string(),
        local_port: 4000,
        remote_ip: None,
        remote_port: None,
        protocol: TransportProtocol::Udp,
    };
    s.handle_notification(WebRtcTransportNotification::IceSelectedTupleChange(tuple));
    assert_eq!(s.ice_selected_tuple.as_ref().unwrap().local_port, 4000);
    s.handle_notification(WebRtcTransportNotification::DtlsStateChange {
        dtls_state: DtlsState::Connected,
        dtls_remote_cert: Some("PEM".to_string()),
    });
    s.handle_notification(WebRtcTransportNotification::DtlsStateChange {
        dtls_state: DtlsState::Closed,
        dtls_remote_cert: None,
    });
    assert_eq!(s.dtls_state, DtlsState::Closed);
    assert_eq!(s.dtls_remote_cert.as_deref(), Some("PEM"));
    s.handle_notification(WebRtcTransportNotification::SctpStateChange(SctpState::Connected));
    assert_eq!(s.sctp_state, Some(SctpState::Connected));
    s.apply_dtls_local_role(DtlsRole::Client);
    assert_eq!(s.dtls_parameters.role, DtlsRole::Client);
    assert_eq!(s.ice_state, IceState::Connected);
}

#[test]
fn sctp_stream_ids_lowest_free_first() {
    let mut ids = SctpStreamIds::new(3);
    assert_eq!(ids.allocate(), Some(0));
    assert_eq!(ids.allocate(), Some(1));
    assert_eq!(ids.allocate(), Some(2));
    assert_eq!(ids.allocate(), None);
    ids.deallocate(1);
    ids.deallocate(40);
    assert_eq!(ids.allocate(), Some(1));
    assert_eq!(SctpStreamIds::new(0).allocate(), None);
}

#[test]
fn score_notification_scenario() {
    let mut channel = Channel::new();
    let token = channel.subscribe("abc".to_string()).unwrap();
    let mut consumer = state();
    let routed = channel.route(IncomingMessage::Notification(NotificationMessage {
        target_id: "abc".to_string(),
        event: "score".to_string(),
        data: Some(score(9, 8, vec![8])),
    }));
    let (subscriber, data) = match routed {
        Routed::Deliver { subscriber, event, data } => {
            assert_eq!(event, "score");
            (subscriber, data)
        }
        _ => panic!("not delivered"),
    };
    assert_eq!(subscriber, token);
    let events = consumer.handle_notification(ConsumerNotification::Score(data.unwrap()));
    assert!(matches!(events.as_slice(), [ConsumerEvent::Score]));
    // The score handlers get the cached score.
    assert_eq!(
        (consumer.score.score, consumer.score.producer_score, consumer.score.producer_scores.clone()),
        (9, 8, vec![8])
    );
}

#[test]
fn producer_close_notification_scenario() {
    let mut graph = EntityGraph::new();
    let router = graph.add(EntityKind::Router, None, None).unwrap();
    let transport = graph.add(EntityKind::Transport, Some(router), None).unwrap();
    let producer = graph.add(EntityKind::Producer, Some(transport), None).unwrap();
    let consumer = graph.add(EntityKind::Consumer, Some(transport), Some(producer)).unwrap();
    let mut consumer_state = state();
    let events = consumer_state.handle_notification(ConsumerNotification::ProducerClose);
    assert!(matches!(events.as_slice(), [ConsumerEvent::ProducerClose]));
    let closes = graph.close(consumer, CloseCause::ProducerClosed);
    assert_eq!(closes, vec![CloseEvent { entity: consumer, cause: CloseCause::ProducerClosed }]);
    assert!(graph.is_closed(consumer));
    assert!(matches!(graph.check_open(consumer), Err(RequestError::ChannelClosed)));
    // The producer's own close that follows takes nothing more from the consumer.
    let closes = graph.close(producer, CloseCause::Explicit);
    assert_eq!(closes, vec![CloseEvent { entity: producer, cause: CloseCause::Explicit }]);
}
