//! Control-plane core of a media-routing client: worker link framing, request correlation,
//! notification routing and the lifecycle of routed entities.
pub mod channel;
pub mod channels;
pub mod consumer;
pub mod data_consumer;
pub mod data_producer;
pub mod data_structures;
pub mod framing;
pub mod lifecycle;
pub mod webrtc_transport;
