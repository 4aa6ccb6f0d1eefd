//! A consumer forwards one producer's media from a router to an endpoint, over a transport.
//!
//! [`ConsumerState`] is the consumer's cached state. It changes on the worker's notifications
//! and after the consumer's own requests succeed, and each change says which handlers fire.
use crate::data_structures::{AppData, MediaKind, MimeType, ProducerId, RtpCapabilities};
use vstd::prelude::*;

verus! {

/// Spatial/temporal layers of the consumer.
#[derive(Debug, Clone, Copy, PartialEq, Eq, Structural, Hash)]
pub struct ConsumerLayers {
    /// The spatial layer index (from 0 to N).
    pub spatial_layer: u8,
    /// The temporal layer index (from 0 to N).
    pub temporal_layer: Option<u8>,
}

/// Score of consumer and corresponding producer.
#[derive(Debug, Clone)]
pub struct ConsumerScore {
    /// Score of the RTP stream in the consumer (from 0 to 10).
    pub score: u8,
    /// Score of the currently selected RTP stream in the associated producer (from 0 to 10).
    pub producer_score: u8,
    /// The scores of all RTP streams in the producer ordered by encoding.
    pub producer_scores: Vec<u8>,
}

/// Consumer options.
#[derive(Debug, Clone)]
#[non_exhaustive]
pub struct ConsumerOptions {
    /// The id of the Producer to consume.
    pub producer_id: ProducerId,
    /// RTP capabilities of the consuming endpoint.
    pub rtp_capabilities: RtpCapabilities,
    /// Whether the Consumer must start in paused mode. Default false.
    pub paused: bool,
    /// Preferred spatial and temporal layer for simulcast or SVC media sources.
    /// If `None`, the highest ones are selected.
    pub preferred_layers: Option<ConsumerLayers>,
    /// Custom application data.
    pub app_data: AppData,
}

impl ConsumerOptions {
    pub fn new(producer_id: ProducerId, rtp_capabilities: RtpCapabilities) -> (r: Self)
        ensures
            r.producer_id == producer_id,
            r.rtp_capabilities == rtp_capabilities,
            !r.paused,
            r.preferred_layers is None,
    {
        Self {
            producer_id,
            rtp_capabilities,
            paused: false,
            preferred_layers: None,
            app_data: AppData::empty(),
        }
    }
}

#[derive(Debug, Clone)]
pub struct RtpStreamParams {
    pub clock_rate: u32,
    pub cname: String,
    pub encoding_idx: usize,
    pub mime_type: MimeType,
    pub payload_type: u8,
    pub spatial_layers: u8,
    pub ssrc: u32,
    pub temporal_layers: u8,
    pub use_dtx: bool,
    pub use_in_band_fec: bool,
    pub use_nack: bool,
    pub use_pli: bool,
    pub rid: Option<String>,
    pub rtc_ssrc: Option<u32>,
    pub rtc_payload_type: Option<u8>,
}

#[derive(Debug, Clone)]
pub struct RtpStream {
    pub params: RtpStreamParams,
    pub score: u8,
}

/// RTC statistics of the consumer alone.
#[derive(Debug, Clone)]
#[non_exhaustive]
pub struct ConsumerStat {
    pub timestamp: u64,
    pub ssrc: u32,
    pub rtx_ssrc: Option<u32>,
    pub kind: MediaKind,
    pub mime_type: MimeType,
    pub packets_lost: u32,
    pub fraction_lost: u8,
    pub packets_discarded: usize,
    pub packets_retransmitted: usize,
    pub packets_repaired: usize,
    pub nack_count: usize,
    pub nack_packet_count: usize,
    pub pli_count: usize,
    pub fir_count: usize,
    pub score: u8,
    pub packet_count: usize,
    pub byte_count: usize,
    pub bitrate: u32,
    pub round_trip_time: Option<u32>,
}

#[derive(Debug, Clone, Copy, PartialEq, Eq, Structural, Hash)]
pub struct RtpRtxParameters {
    pub ssrc: Option<u32>,
}

/// Producer type.
#[derive(Debug, Clone, Copy, PartialEq, Eq, Structural, Hash)]
pub enum ProducerType {
    Simple,
    Simulcast,
    SVC,
}

/// Consumer type.
#[derive(Debug, Clone, Copy, PartialEq, Eq, Structural, Hash)]
pub enum ConsumerType {
    /// A single RTP stream is sent with no spatial/temporal layers.
    Simple,
    /// Two or more RTP streams are sent, each of them with one or more temporal layers.
    Simulcast,
    /// A single RTP stream is sent with spatial/temporal layers.
    SVC,
    /// Special type for consumers created on a pipe transport.
    Pipe,
}

pub open spec fn consumer_type_of(producer_type: ProducerType) -> ConsumerType {
    match producer_type {
        ProducerType::Simple => ConsumerType::Simple,
        ProducerType::Simulcast => ConsumerType::Simulcast,
        ProducerType::SVC => ConsumerType::SVC,
    }
}

impl From<ProducerType> for ConsumerType {
    fn from(producer_type: ProducerType) -> (r: Self)
        ensures
            r == consumer_type_of(producer_type),
    {
        match producer_type {
            ProducerType::Simple => ConsumerType::Simple,
            ProducerType::Simulcast => ConsumerType::Simulcast,
            ProducerType::SVC => ConsumerType::SVC,
        }
    }
}

impl vstd::std_specs::convert::FromSpecImpl<ProducerType> for ConsumerType {
    open spec fn obeys_from_spec() -> bool {
        true
    }

    open spec fn from_spec(v: ProducerType) -> ConsumerType {
        consumer_type_of(v)
    }
}

/// Types of consumer trace events.
#[derive(Debug, Clone, Copy, PartialEq, Eq, Structural, Hash)]
pub enum ConsumerTraceEventType {
    /// RTP packet.
    RTP,
    /// RTP video keyframe packet.
    KeyFrame,
    /// RTCP NACK packet.
    NACK,
    /// RTCP PLI packet.
    PLI,
    /// RTCP FIR packet.
    FIR,
}

/// A notification the worker sends to a consumer. A trace notification's payload stays
/// with the caller: the consumer's state does not depend on it.
#[derive(Debug, Clone)]
pub enum ConsumerNotification {
    ProducerClose,
    ProducerPause,
    ProducerResume,
    Score(ConsumerScore),
    LayersChange(Option<ConsumerLayers>),
    Trace,
}

/// Handlers to fire, in order.
#[derive(Debug, Clone)]
pub enum ConsumerEvent {
    /// The consumer became paused (by itself or by its producer).
    Pause,
    /// The consumer is no longer paused.
    Resume,
    ProducerPause,
    ProducerResume,
    /// The score changed: the "score" handlers get the newly cached score.
    Score,
    LayersChange(Option<ConsumerLayers>),
    Trace,
    /// The producer closed: the consumer must now close, with its producer as the cause.
    ProducerClose,
}

/// Cached state of a consumer.
#[derive(Debug, Clone)]
pub struct ConsumerState {
    /// Whether the consumer itself is paused.
    pub paused: bool,
    /// Whether its producer is paused.
    pub producer_paused: bool,
    pub priority: u8,
    pub score: ConsumerScore,
    pub preferred_layers: Option<ConsumerLayers>,
    pub current_layers: Option<ConsumerLayers>,
}

/// Priority a consumer starts with, and returns to when its priority is unset.
pub const DEFAULT_PRIORITY: u8 = 1;

/// State and handlers after notification `n` reaches a consumer in state `s`.
pub open spec fn notification_effect(s: ConsumerState, n: ConsumerNotification) -> (
    ConsumerState,
    Seq<ConsumerEvent>,
) {
    let was_paused = s.paused || s.producer_paused;
    match n {
        ConsumerNotification::ProducerClose => (s, seq![ConsumerEvent::ProducerClose]),
        ConsumerNotification::ProducerPause => (
            ConsumerState { producer_paused: true, ..s },
            if was_paused {
                seq![ConsumerEvent::ProducerPause]
            } else {
                seq![ConsumerEvent::ProducerPause, ConsumerEvent::Pause]
            },
        ),
        ConsumerNotification::ProducerResume => (
            ConsumerState { producer_paused: false, ..s },
            if was_paused && !s.paused {
                seq![ConsumerEvent::ProducerResume, ConsumerEvent::Resume]
            } else {
                seq![ConsumerEvent::ProducerResume]
            },
        ),
        ConsumerNotification::Score(score) => (
            ConsumerState { score: score, ..s },
            seq![ConsumerEvent::Score],
        ),
        ConsumerNotification::LayersChange(layers) => (
            ConsumerState { current_layers: layers, ..s },
            seq![ConsumerEvent::LayersChange(layers)],
        ),
        ConsumerNotification::Trace => (s, seq![ConsumerEvent::Trace]),
    }
}

impl ConsumerState {
    pub fn new(
        paused: bool,
        producer_paused: bool,
        score: ConsumerScore,
        preferred_layers: Option<ConsumerLayers>,
    ) -> (r: Self)
        ensures
            r == (ConsumerState {
                paused,
                producer_paused,
                priority: DEFAULT_PRIORITY,
                score,
                preferred_layers,
                current_layers: None,
            }),
    {
        ConsumerState {
            paused,
            producer_paused,
            priority: DEFAULT_PRIORITY,
            score,
            preferred_layers,
            current_layers: None,
        }
    }

    /// Applies a notification from the worker and returns the handlers to fire.
    pub fn handle_notification(&mut self, n: ConsumerNotification) -> (events: Vec<ConsumerEvent>)
        ensures
            (*final(self), events@) == notification_effect(*old(self), n),
    {
        let was_paused = self.paused || self.producer_paused;
        let mut events: Vec<ConsumerEvent> = Vec::new();
        match n {
            ConsumerNotification::ProducerClose => {
                events.push(ConsumerEvent::ProducerClose);
            },
            ConsumerNotification::ProducerPause => {
                self.producer_paused = true;
                events.push(ConsumerEvent::ProducerPause);
                if !was_paused {
                    events.push(ConsumerEvent::Pause);
                }
            },
            ConsumerNotification::ProducerResume => {
                let paused = self.paused;
                self.producer_paused = false;
                events.push(ConsumerEvent::ProducerResume);
                if was_paused && !paused {
                    events.push(ConsumerEvent::Resume);
                }
            },
            ConsumerNotification::Score(score) => {
                self.score = score;
                events.push(ConsumerEvent::Score);
            },
            ConsumerNotification::LayersChange(layers) => {
                self.current_layers = layers;
                events.push(ConsumerEvent::LayersChange(layers));
            },
            ConsumerNotification::Trace => {
                events.push(ConsumerEvent::Trace);
            },
        }
        proof {
            let e = notification_effect(*old(self), n);
            assert(events@ =~= e.1);
        }
        events
    }

    /// Records that the worker accepted a pause; says whether the "pause" handlers fire, which
    /// they do when the consumer was not paused in any way before.
    pub fn apply_pause(&mut self) -> (fire_pause: bool)
        ensures
            *final(self) == (ConsumerState { paused: true, ..*old(self) }),
            fire_pause == !(old(self).paused || old(self).producer_paused),
    {
        let was_paused = self.paused || self.producer_paused;
        self.paused = true;
        !was_paused
    }

    /// Records that the worker accepted a resume; says whether the "resume" handlers fire, which
    /// they do when the consumer was paused itself and its producer is not paused, so that it
    /// now runs again.
    pub fn apply_resume(&mut self) -> (fire_resume: bool)
        ensures
            *final(self) == (ConsumerState { paused: false, ..*old(self) }),
            fire_resume == (old(self).paused && !old(self).producer_paused),
    {
        let fire_resume = self.paused && !self.producer_paused;
        self.paused = false;
        fire_resume
    }

    /// Records the priority the worker reports after a priority change.
    pub fn apply_priority(&mut self, priority: u8)
        ensures
            *final(self) == (ConsumerState { priority, ..*old(self) }),
    {
        self.priority = priority;
    }

    /// Records the preferred layers the worker reports after a layers change.
    pub fn apply_preferred_layers(&mut self, layers: Option<ConsumerLayers>)
        ensures
            *final(self) == (ConsumerState { preferred_layers: layers, ..*old(self) }),
    {
        self.preferred_layers = layers;
    }
}

} // verus!
