//! A data consumer delivers one data producer's messages to an endpoint.
use crate::data_structures::{AppData, DataConsumerId, DataProducerId, SctpStreamParameters};
use vstd::prelude::*;

verus! {

/// Data consumer options.
#[derive(Debug)]
pub struct DataConsumerOptions {
    /// The id of the DataProducer to consume.
    pub data_producer_id: DataProducerId,
    /// Just if consuming over SCTP. Whether data messages must be received in order.
    /// Unset, the DataProducer's setting applies (true for a direct one).
    pub ordered: Option<bool>,
    /// Just if consuming over SCTP. When unordered, the time (in milliseconds) after which a
    /// SCTP packet stops being retransmitted.
    pub max_packet_life_time: Option<u16>,
    /// Just if consuming over SCTP. When unordered, the maximum number of retransmissions.
    pub max_retransmits: Option<u16>,
    /// Custom application data.
    pub app_data: AppData,
}

/// The options of `data_producer_id` with the three SCTP settings given.
pub open spec fn options_are(
    r: DataConsumerOptions,
    data_producer_id: DataProducerId,
    ordered: Option<bool>,
    max_packet_life_time: Option<u16>,
    max_retransmits: Option<u16>,
) -> bool {
    &&& r.data_producer_id == data_producer_id
    &&& r.ordered == ordered
    &&& r.max_packet_life_time == max_packet_life_time
    &&& r.max_retransmits == max_retransmits
}

impl DataConsumerOptions {
    /// Inherits parameters of corresponding DataProducer.
    pub fn new_sctp(data_producer_id: DataProducerId) -> (r: Self)
        ensures
            options_are(r, data_producer_id, None, None, None),
    {
        Self {
            data_producer_id,
            ordered: None,
            max_packet_life_time: None,
            max_retransmits: None,
            app_data: AppData::empty(),
        }
    }

    /// For DirectTransport.
    pub fn new_direct(data_producer_id: DataProducerId) -> (r: Self)
        ensures
            options_are(r, data_producer_id, Some(true), None, None),
    {
        Self {
            data_producer_id,
            ordered: Some(true),
            max_packet_life_time: None,
            max_retransmits: None,
            app_data: AppData::empty(),
        }
    }

    /// Messages will be sent reliably in order.
    pub fn new_sctp_ordered(data_producer_id: DataProducerId) -> (r: Self)
        ensures
            options_are(r, data_producer_id, Some(true), None, None),
    {
        Self {
            data_producer_id,
            ordered: Some(true),
            max_packet_life_time: None,
            max_retransmits: None,
            app_data: AppData::empty(),
        }
    }

    /// Messages will be sent unreliably and unordered, with time (in milliseconds) after which a
    /// SCTP packet will stop being retransmitted.
    pub fn new_sctp_unordered_with_life_time(
        data_producer_id: DataProducerId,
        max_packet_life_time: u16,
    ) -> (r: Self)
        ensures
            options_are(r, data_producer_id, Some(false), Some(max_packet_life_time), None),
    {
        Self {
            data_producer_id,
            ordered: Some(false),
            max_packet_life_time: Some(max_packet_life_time),
            max_retransmits: None,
            app_data: AppData::empty(),
        }
    }

    /// Messages will be sent unreliably and unordered, with a limited number of retransmission
    /// attempts.
    pub fn new_sctp_unordered_with_retransmits(
        data_producer_id: DataProducerId,
        max_retransmits: u16,
    ) -> (r: Self)
        ensures
            options_are(r, data_producer_id, Some(false), None, Some(max_retransmits)),
    {
        Self {
            data_producer_id,
            ordered: Some(false),
            max_packet_life_time: None,
            max_retransmits: Some(max_retransmits),
            app_data: AppData::empty(),
        }
    }
}

/// Data consumer type.
#[derive(Debug, Clone, Copy, PartialEq, Eq, Structural, Hash)]
pub enum DataConsumerType {
    Sctp,
    Direct,
}

#[derive(Debug)]
pub struct DataConsumerDump {
    pub id: DataConsumerId,
    pub data_producer_id: DataProducerId,
    pub data_consumer_type: DataConsumerType,
    pub label: String,
    pub protocol: String,
    pub sctp_stream_parameters: Option<SctpStreamParameters>,
    pub buffered_amount: u32,
    pub buffered_amount_low_threshold: u32,
}

#[derive(Debug)]
pub struct DataConsumerStat {
    pub timestamp: u64,
    pub label: String,
    pub protocol: String,
    pub messages_sent: usize,
    pub bytes_sent: usize,
}

/// A notification the worker sends to a data consumer.
#[derive(Debug, Clone, Copy, PartialEq, Eq, Structural)]
pub enum DataConsumerNotification {
    DataProducerClose,
    SctpSendBufferFull,
    BufferedAmountLow,
}

/// What a notification asks of a data consumer.
#[derive(Debug, Clone, Copy, PartialEq, Eq, Structural)]
pub enum DataConsumerEvent {
    /// The data producer closed: the data consumer must now close, with it as the cause.
    DataProducerClose,
    /// Fire the "sctp send buffer full" handlers.
    SctpSendBufferFull,
    /// Fire the "buffered amount low" handlers.
    BufferedAmountLow,
}

/// What notification `n` asks of a data consumer.
pub fn handle_notification(n: DataConsumerNotification) -> (r: DataConsumerEvent)
    ensures
        n == DataConsumerNotification::DataProducerClose <==> r
            == DataConsumerEvent::DataProducerClose,
        n == DataConsumerNotification::SctpSendBufferFull <==> r
            == DataConsumerEvent::SctpSendBufferFull,
        n == DataConsumerNotification::BufferedAmountLow <==> r
            == DataConsumerEvent::BufferedAmountLow,
{
    match n {
        DataConsumerNotification::DataProducerClose => DataConsumerEvent::DataProducerClose,
        DataConsumerNotification::SctpSendBufferFull => DataConsumerEvent::SctpSendBufferFull,
        DataConsumerNotification::BufferedAmountLow => DataConsumerEvent::BufferedAmountLow,
    }
}

} // verus!
