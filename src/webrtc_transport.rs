//! A WebRTC transport: its options, its cached ICE/DTLS/SCTP state and its SCTP stream ids.
use crate::data_structures::{
    AppData, DtlsParameters, DtlsRole, DtlsState, IceRole, IceState, NumSctpStreams, SctpState,
    TransportId, TransportListenIp, TransportTuple,
};
use std::collections::HashMap;
use vstd::prelude::*;

verus! {

/// A non-empty list of listen IPs, in order of preference.
#[derive(Debug)]
pub struct TransportListenIps(Vec<TransportListenIp>);

impl View for TransportListenIps {
    type V = Seq<TransportListenIp>;

    closed spec fn view(&self) -> Seq<TransportListenIp> {
        self.0@
    }
}

/// An empty list of listen IPs was given; at least one is needed.
#[derive(Debug, Clone, Copy, PartialEq, Eq, Structural)]
pub struct EmptyListError;

impl TransportListenIps {
    #[verifier::type_invariant]
    spec fn inv(&self) -> bool {
        self.0@.len() > 0
    }

    pub fn new(listen_ip: TransportListenIp) -> (r: Self)
        ensures
            r@ == seq![listen_ip],
    {
        let mut v: Vec<TransportListenIp> = Vec::new();
        v.push(listen_ip);
        Self(v)
    }

    pub fn add(self, listen_ip: TransportListenIp) -> (r: Self)
        ensures
            r@ == self@.push(listen_ip),
    {
        proof {
            use_type_invariant(&self);
        }
        let mut v = self.0;
        v.push(listen_ip);
        Self(v)
    }

    /// The list as given, refused when empty.
    pub fn try_from(listen_ips: Vec<TransportListenIp>) -> (r: Result<Self, EmptyListError>)
        ensures
            listen_ips@.len() == 0 <==> r is Err,
            r is Ok ==> r->Ok_0@ == listen_ips@,
    {
        if listen_ips.len() == 0 {
            Err(EmptyListError)
        } else {
            Ok(Self(listen_ips))
        }
    }

    pub fn listen_ips(&self) -> (r: &Vec<TransportListenIp>)
        ensures
            r@ == self@,
            r@.len() > 0,
    {
        proof {
            use_type_invariant(self);
        }
        &self.0
    }
}

/// WebRTC transport options.
#[derive(Debug)]
#[non_exhaustive]
pub struct WebRtcTransportOptions {
    /// Listening IP address or addresses in order of preference (first one is the preferred one).
    pub listen_ips: TransportListenIps,
    /// Listen in UDP. Default true.
    pub enable_udp: bool,
    /// Listen in TCP. Default false.
    pub enable_tcp: bool,
    /// Prefer UDP. Default false.
    pub prefer_udp: bool,
    /// Prefer TCP. Default false.
    pub prefer_tcp: bool,
    /// Initial available outgoing bitrate (in bps). Default 600000.
    pub initial_available_outgoing_bitrate: u32,
    /// Create a SCTP association. Default false.
    pub enable_sctp: bool,
    /// SCTP streams number.
    pub num_sctp_streams: NumSctpStreams,
    /// Maximum allowed size for SCTP messages sent by DataProducers. Default 262144.
    pub max_sctp_message_size: u32,
    /// Maximum SCTP send buffer used by DataConsumers. Default 262144.
    pub sctp_send_buffer_size: u32,
    /// Custom application data.
    pub app_data: AppData,
}

impl WebRtcTransportOptions {
    pub fn new(listen_ips: TransportListenIps) -> (r: Self)
        ensures
            r.listen_ips@ == listen_ips@,
            r.enable_udp,
            !r.enable_tcp,
            !r.prefer_udp,
            !r.prefer_tcp,
            r.initial_available_outgoing_bitrate == 600000,
            !r.enable_sctp,
            r.num_sctp_streams == (NumSctpStreams { os: 1024, mis: 1024 }),
            r.max_sctp_message_size == 262144,
            r.sctp_send_buffer_size == 262144,
    {
        Self {
            listen_ips,
            enable_udp: true,
            enable_tcp: false,
            prefer_udp: false,
            prefer_tcp: false,
            initial_available_outgoing_bitrate: 600_000,
            enable_sctp: false,
            num_sctp_streams: NumSctpStreams::default_streams(),
            max_sctp_message_size: 262144,
            sctp_send_buffer_size: 262144,
            app_data: AppData::empty(),
        }
    }
}

/// Statistics of a WebRTC transport.
#[derive(Debug, Clone)]
pub struct WebRtcTransportStat {
    pub transport_id: TransportId,
    pub timestamp: u64,
    pub sctp_state: Option<SctpState>,
    pub bytes_received: usize,
    pub recv_bitrate: u32,
    pub bytes_sent: usize,
    pub send_bitrate: u32,
    pub rtp_bytes_received: usize,
    pub rtp_recv_bitrate: u32,
    pub rtp_bytes_sent: usize,
    pub rtp_send_bitrate: u32,
    pub rtx_bytes_received: usize,
    pub rtx_recv_bitrate: u32,
    pub rtx_bytes_sent: usize,
    pub rtx_send_bitrate: u32,
    pub probation_bytes_sent: usize,
    pub probation_send_bitrate: u32,
    pub available_outgoing_bitrate: Option<u32>,
    pub available_incoming_bitrate: Option<u32>,
    pub max_incoming_bitrate: Option<u32>,
    pub ice_role: IceRole,
    pub ice_state: IceState,
    pub ice_selected_tuple: Option<TransportTuple>,
    pub dtls_state: DtlsState,
}

/// What the remote endpoint tells a WebRTC transport when connecting.
#[derive(Debug, Clone)]
pub struct WebRtcTransportRemoteParameters {
    pub dtls_parameters: DtlsParameters,
}

/// A notification the worker sends to a WebRTC transport. A trace notification's payload stays
/// with the caller.
#[derive(Debug, Clone)]
pub enum WebRtcTransportNotification {
    IceStateChange(IceState),
    IceSelectedTupleChange(TransportTuple),
    DtlsStateChange { dtls_state: DtlsState, dtls_remote_cert: Option<String> },
    SctpStateChange(SctpState),
    Trace,
}

/// Handlers to fire after a notification; each gets the newly cached value.
#[derive(Debug, Clone, Copy, PartialEq, Eq, Structural)]
pub enum WebRtcTransportEvent {
    IceStateChange(IceState),
    IceSelectedTupleChange,
    DtlsStateChange(DtlsState),
    SctpStateChange(SctpState),
    Trace,
}

/// Cached state of a WebRTC transport.
#[derive(Debug, Clone)]
pub struct WebRtcTransportState {
    pub dtls_parameters: DtlsParameters,
    pub ice_state: IceState,
    pub ice_selected_tuple: Option<TransportTuple>,
    pub dtls_state: DtlsState,
    pub dtls_remote_cert: Option<String>,
    pub sctp_state: Option<SctpState>,
}

/// State and handler after notification `n` reaches a transport in state `s`.
pub open spec fn transport_notification_effect(
    s: WebRtcTransportState,
    n: WebRtcTransportNotification,
) -> (WebRtcTransportState, WebRtcTransportEvent) {
    match n {
        WebRtcTransportNotification::IceStateChange(ice_state) => (
            WebRtcTransportState { ice_state, ..s },
            WebRtcTransportEvent::IceStateChange(ice_state),
        ),
        WebRtcTransportNotification::IceSelectedTupleChange(tuple) => (
            WebRtcTransportState { ice_selected_tuple: Some(tuple), ..s },
            WebRtcTransportEvent::IceSelectedTupleChange,
        ),
        WebRtcTransportNotification::DtlsStateChange { dtls_state, dtls_remote_cert } => (
            WebRtcTransportState {
                dtls_state,
                dtls_remote_cert: if dtls_remote_cert is Some {
                    dtls_remote_cert
                } else {
                    s.dtls_remote_cert
                },
                ..s
            },
            WebRtcTransportEvent::DtlsStateChange(dtls_state),
        ),
        WebRtcTransportNotification::SctpStateChange(sctp_state) => (
            WebRtcTransportState { sctp_state: Some(sctp_state), ..s },
            WebRtcTransportEvent::SctpStateChange(sctp_state),
        ),
        WebRtcTransportNotification::Trace => (s, WebRtcTransportEvent::Trace),
    }
}

impl WebRtcTransportState {
    /// Records the local DTLS role that the worker chose on connect.
    pub fn apply_dtls_local_role(&mut self, role: DtlsRole)
        ensures
            *final(self) == (WebRtcTransportState {
                dtls_parameters: DtlsParameters { role, ..old(self).dtls_parameters },
                ..*old(self)
            }),
    {
        self.dtls_parameters.role = role;
    }

    /// Applies a notification from the worker and returns the handlers to fire.
    pub fn handle_notification(&mut self, n: WebRtcTransportNotification) -> (r:
        WebRtcTransportEvent)
        ensures
            (*final(self), r) == transport_notification_effect(*old(self), n),
    {
        match n {
            WebRtcTransportNotification::IceStateChange(ice_state) => {
                self.ice_state = ice_state;
                WebRtcTransportEvent::IceStateChange(ice_state)
            },
            WebRtcTransportNotification::IceSelectedTupleChange(tuple) => {
                self.ice_selected_tuple = Some(tuple);
                WebRtcTransportEvent::IceSelectedTupleChange
            },
            WebRtcTransportNotification::DtlsStateChange { dtls_state, dtls_remote_cert } => {
                self.dtls_state = dtls_state;
                if dtls_remote_cert.is_some() {
                    self.dtls_remote_cert = dtls_remote_cert;
                }
                WebRtcTransportEvent::DtlsStateChange(dtls_state)
            },
            WebRtcTransportNotification::SctpStateChange(sctp_state) => {
                self.sctp_state = Some(sctp_state);
                WebRtcTransportEvent::SctpStateChange(sctp_state)
            },
            WebRtcTransportNotification::Trace => WebRtcTransportEvent::Trace,
        }
    }
}

/// Which SCTP stream ids of a transport are in use, keyed by id; the ids run from 0 below the
/// number of incoming streams the transport allows.
#[derive(Debug)]
pub struct SctpStreamIds {
    used: HashMap<u16, bool>,
    count: u32,
}

impl View for SctpStreamIds {
    type V = Map<u16, bool>;

    closed spec fn view(&self) -> Map<u16, bool> {
        self.used@
    }
}

impl SctpStreamIds {
    /// The map holds exactly the ids below its number of streams.
    pub closed spec fn wf(&self) -> bool {
        &&& self.count <= 65536
        &&& forall|k: u16| #[trigger] self.used@.contains_key(k) <==> (k as u32) < self.count
    }

    /// `mis` ids, none in use.
    pub fn new(mis: u16) -> (r: Self)
        ensures
            r.wf(),
            r@ == Map::new(|k: u16| k < mis, |k: u16| false),
    {
        broadcast use vstd::std_specs::hash::group_hash_axioms;

        let mut used: HashMap<u16, bool> = HashMap::new();
        let mut i: u16 = 0;
        while i < mis
            invariant
                i <= mis,
                used@ == Map::new(|k: u16| k < i, |k: u16| false),
            decreases mis - i,
        {
            used.insert(i, false);
            i = i + 1;
            assert(used@ =~= Map::new(|k: u16| k < i, |k: u16| false));
        }
        SctpStreamIds { used, count: mis as u32 }
    }

    /// Takes the lowest id not in use, if any.
    pub fn allocate(&mut self) -> (r: Option<u16>)
        requires
            old(self).wf(),
        ensures
            final(self).wf(),
            r is None ==> final(self)@ == old(self)@ && forall|k: u16|
                #[trigger] old(self)@.contains_key(k) ==> old(self)@[k],
            r is Some ==> {
                let id = r->Some_0;
                &&& old(self)@.contains_key(id)
                &&& !old(self)@[id]
                &&& forall|k: u16| k < id ==> old(self)@[k]
                &&& final(self)@ == old(self)@.insert(id, true)
            },
    {
        broadcast use vstd::std_specs::hash::group_hash_axioms;

        let mut i: u32 = 0;
        while i < self.count
            invariant
                self.wf(),
                self@ == old(self)@,
                i <= self.count,
                forall|k: u16| (k as u32) < i ==> self@[k],
            decreases self.count - i,
        {
            let id = i as u16;
            assert(self.used@.contains_key(id));
            match self.used.get(&id) {
                Some(true) => {},
                _ => {
                    self.used.insert(id, true);
                    proof {
                        assert forall|k: u16| #[trigger]
                            self.used@.contains_key(k) <==> (k as u32) < self.count by {
                            if k == id {
                            }
                        };
                    }
                    return Some(id);
                },
            }
            i = i + 1;
        }
        proof {
            assert forall|k: u16| #[trigger] old(self)@.contains_key(k) implies old(self)@[k] by {
                assert((k as u32) < i);
            };
        }
        None
    }

    /// Gives id `id` back; an id out of range changes nothing.
    pub fn deallocate(&mut self, id: u16)
        requires
            old(self).wf(),
        ensures
            final(self).wf(),
            old(self)@.contains_key(id) ==> final(self)@ == old(self)@.insert(id, false),
            !old(self)@.contains_key(id) ==> final(self)@ == old(self)@,
    {
        broadcast use vstd::std_specs::hash::group_hash_axioms;

        if (id as u32) < self.count {
            self.used.insert(id, false);
        }
    }
}

} // verus!
