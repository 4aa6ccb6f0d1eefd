use mediasoup_core::channel::{
    classify_envelope, Channel, Envelope, IncomingMessage, NotificationMessage, RequestError,
    ResponseMessage, Routed,
};
use mediasoup_core::channels::{read_message, ChannelMessage};
use mediasoup_core::framing::FrameError;

fn response(id: u64, accepted: bool, data: Option<u32>, reason: &str) -> IncomingMessage<u32> {
    IncomingMessage::Response(ResponseMessage { id, accepted, data, reason: reason.to_string() })
}

#[test]
fn first_request_gets_id_one_and_ids_grow() {
    let mut channel = Channel::new();
    assert_eq!(channel.start_request().unwrap(), 1);
    assert_eq!(channel.start_request().unwrap(), 2);
    assert_eq!(channel.start_request().unwrap(), 3);
}

#[test]
fn responses_reach_their_own_requests_in_any_order() {
    let mut channel = Channel::new();
    let ids: Vec<u64> = (0..5).map(|_| channel.start_request().unwrap()).collect();
    for &id in ids.iter().rev() {
        match channel.route(response(id, true, Some(id as u32 * 10), "")) {
            Routed::Reply { id: got, result } => {
                assert_eq!(got, id);
                assert_eq!(result.unwrap(), Some(id as u32 * 10));
            }
            _ => panic!("response not matched"),
        }
    }
    // Every request has been answered: a repeated answer finds nobody.
    assert!(matches!(channel.route(response(ids[0], true, None, "")), Routed::Dropped));
}

#[test]
fn response_for_unknown_id_is_dropped() {
    let mut channel = Channel::new();
    let id = channel.start_request().unwrap();
    assert!(matches!(channel.route(response(id + 7, true, None, "")), Routed::Dropped));
    assert!(matches!(channel.route(response(id, true, None, "")), Routed::Reply { .. }));
}

#[test]
fn refused_request_carries_the_reason() {
    let mut channel = Channel::new();
    let id = channel.start_request().unwrap();
    match channel.route(response(id, false, None, "no such consumer")) {
        Routed::Reply { result: Err(RequestError::Response { reason }), .. } => {
            assert_eq!(reason, "no such consumer")
        }
        _ => panic!("expected a refusal"),
    }
}

#[test]
fn closing_the_link_fails_every_pending_request_and_later_ones() {
    let mut channel = Channel::new();
    let a = channel.start_request().unwrap();
    let b = channel.start_request().unwrap();
    let c = channel.start_request().unwrap();
    assert!(matches!(channel.route(response(b, true, None, "")), Routed::Reply { .. }));
    let mut failed = channel.close();
    failed.sort();
    assert_eq!(failed, vec![a, c]);
    assert!(channel.is_closed());
    assert!(matches!(channel.start_request(), Err(RequestError::ChannelClosed)));
    assert!(channel.close().is_empty());
}

#[test]
fn notifications_go_to_the_subscriber_of_their_target() {
    let mut channel = Channel::new();
    let token = channel.subscribe("abc".to_string()).unwrap();
    let note = IncomingMessage::Notification(NotificationMessage {
        target_id: "abc".to_string(),
        event: "score".to_string(),
        data: Some(9u32),
    });
    match channel.route(note) {
        Routed::Deliver { subscriber, event, data } => {
            assert_eq!(subscriber, token);
            assert_eq!(event, "score");
            assert_eq!(data, Some(9));
        }
        _ => panic!("not delivered"),
    }
    let other = IncomingMessage::Notification(NotificationMessage {
        target_id: "xyz".to_string(),
        event: "score".to_string(),
        data: None::<u32>,
    });
    assert!(matches!(channel.route(other), Routed::Dropped));
}

#[test]
fn resubscribing_replaces_and_old_token_no_longer_unsubscribes() {
    let mut channel = Channel::new();
    let first = channel.subscribe("abc".to_string()).unwrap();
    let second = channel.subscribe("abc".to_string()).unwrap();
    assert_ne!(first, second);
    assert!(!channel.unsubscribe(first));
    let note = |channel: &mut Channel| {
        channel.route(IncomingMessage::Notification(NotificationMessage {
            target_id: "abc".to_string(),
            event: "pause".to_string(),
            data: None::<u32>,
        }))
    };
    assert!(matches!(note(&mut channel), Routed::Deliver { subscriber, .. } if subscriber == second));
    assert!(channel.unsubscribe(second));
    assert!(matches!(note(&mut channel), Routed::Dropped));
}

#[test]
fn worker_dump_scenario() {
    let mut channel = Channel::new();
    let id = channel.start_request().unwrap();
    assert_eq!(id, 1);
    let body = br#"{"id":1,"accepted":true,"data":{}}"#;
    let mut stream = format!("{}:", body.len()).into_bytes();
    stream.extend_from_slice(body);
    stream.push(b',');
    let (message, used) = read_message(&stream).unwrap().unwrap();
    assert_eq!(used, stream.len());
    let text = match message {
        ChannelMessage::Json(text) => text,
        other => panic!("unexpected {:?}", other),
    };
    let value: serde_json::Value = serde_json::from_str(&text).unwrap();
    let incoming = IncomingMessage::Response(ResponseMessage {
        id: value["id"].as_u64().unwrap(),
        accepted: value["accepted"].as_bool().unwrap(),
        data: value.get("data").cloned(),
        reason: String::new(),
    });
    match channel.route(incoming) {
        Routed::Reply { id, result } => {
            assert_eq!(id, 1);
            let data = result.unwrap().unwrap();
            assert!(data.as_object().unwrap().is_empty());
        }
        _ => panic!("response not matched"),
    }
}

#[test]
fn frame_whose_declared_length_is_short_is_rejected() {
    let stream = br#"17:{"id":1,"accepted":true,"data":{}},"#;
    assert_eq!(read_message(stream).err(), Some(FrameError::BadTerminator));
}

#[test]
fn envelopes_are_responses_or_notifications() {
    let response = classify_envelope(Envelope {
        id: Some(4),
        accepted: None,
        reason: Some("busy".to_string()),
        target_id: None,
        event: None,
        data: None::<u32>,
    });
    match response {
        Some(IncomingMessage::Response(m)) => {
            assert_eq!(m.id, 4);
            assert!(!m.accepted);
            assert_eq!(m.reason, "busy");
        }
        _ => panic!("expected a response"),
    }
    let notification = classify_envelope(Envelope {
        id: None,
        accepted: None,
        reason: None,
        target_id: Some("abc".to_string()),
        event: Some("score".to_string()),
        data: Some(1u32),
    });
    match notification {
        Some(IncomingMessage::Notification(n)) => {
            assert_eq!(n.target_id, "abc");
            assert_eq!(n.event, "score");
            assert_eq!(n.data, Some(1));
        }
        _ => panic!("expected a notification"),
    }
    let nothing = classify_envelope(Envelope {
        id: None,
        accepted: Some(true),
        reason: None,
        target_id: Some("abc".to_string()),
        event: None,
        data: None::<u32>,
    });
    assert!(nothing.is_none());
}

#[test]
fn abandoned_request_is_no_longer_waiting() {
    let mut channel = Channel::new();
    let a = channel.start_request().unwrap();
    let b = channel.start_request().unwrap();
    assert!(channel.abandon(a));
    assert!(!channel.abandon(a));
    assert!(matches!(channel.route(response(a, true, None, "")), Routed::Dropped));
    assert_eq!(channel.close(), vec![b]);
}
