//! A data producer sends data messages into a router.
use crate::data_structures::{AppData, DataProducerId, SctpStreamParameters};
use vstd::prelude::*;

verus! {

/// Data producer options.
#[derive(Debug, Clone)]
#[non_exhaustive]
pub struct DataProducerOptions {
    /// DataProducer id, given only by a pipe transport.
    pub id: Option<DataProducerId>,
    /// SCTP parameters defining how the endpoint is sending the data.
    /// Required if SCTP/DataChannel is used; absent on a direct transport.
    pub sctp_stream_parameters: Option<SctpStreamParameters>,
    /// A label which can be used to distinguish this DataChannel from others.
    pub label: String,
    /// Name of the sub-protocol used by this DataChannel.
    pub protocol: String,
    /// Custom application data.
    pub app_data: AppData,
}

/// `r` has the given id and SCTP parameters, and an empty label and protocol.
pub open spec fn producer_options_are(
    r: DataProducerOptions,
    id: Option<DataProducerId>,
    sctp_stream_parameters: Option<SctpStreamParameters>,
) -> bool {
    &&& r.id == id
    &&& r.sctp_stream_parameters == sctp_stream_parameters
    &&& r.label@ == Seq::<char>::empty()
    &&& r.protocol@ == Seq::<char>::empty()
}

impl DataProducerOptions {
    pub(crate) fn new_pipe_transport(
        data_producer_id: DataProducerId,
        sctp_stream_parameters: SctpStreamParameters,
    ) -> (r: Self)
        ensures
            producer_options_are(r, Some(data_producer_id), Some(sctp_stream_parameters)),
    {
        Self {
            id: Some(data_producer_id),
            sctp_stream_parameters: Some(sctp_stream_parameters),
            label: String::new(),
            protocol: String::new(),
            app_data: AppData::empty(),
        }
    }

    pub fn new_sctp(sctp_stream_parameters: SctpStreamParameters) -> (r: Self)
        ensures
            producer_options_are(r, None, Some(sctp_stream_parameters)),
    {
        Self {
            id: None,
            sctp_stream_parameters: Some(sctp_stream_parameters),
            label: String::new(),
            protocol: String::new(),
            app_data: AppData::empty(),
        }
    }

    /// For DirectTransport.
    pub fn new_direct() -> (r: Self)
        ensures
            producer_options_are(r, None, None),
    {
        Self {
            id: None,
            sctp_stream_parameters: None,
            label: String::new(),
            protocol: String::new(),
            app_data: AppData::empty(),
        }
    }
}

/// Data producer type.
#[derive(Debug, Clone, Copy, PartialEq, Eq, Structural, Hash)]
pub enum DataProducerType {
    Sctp,
    Direct,
}

#[derive(Debug, Clone)]
#[non_exhaustive]
pub struct DataProducerDump {
    pub id: DataProducerId,
    pub data_producer_type: DataProducerType,
    pub label: String,
    pub protocol: String,
    pub sctp_stream_parameters: Option<SctpStreamParameters>,
}

#[derive(Debug, Clone)]
#[non_exhaustive]
pub struct DataProducerStat {
    pub timestamp: u64,
    pub label: String,
    pub protocol: String,
    pub messages_received: usize,
    pub bytes_received: usize,
}

} // verus!
