//! The configuration and status data that every other module speaks of.

use vstd::prelude::*;

verus! {

/// Where the dashboard listens.
#[derive(Debug, Clone, PartialEq, Eq)]
pub struct ServerConfig {
    pub host: String,
    pub port: u16,
}

/// Where the SOCKS5 proxy listens.
#[derive(Debug, Clone, PartialEq, Eq)]
pub struct ProxyConfig {
    pub host: String,
    pub port: u16,
}

/// How often a cycle runs and how long one probe may take.
#[derive(Debug, Clone, PartialEq, Eq)]
pub struct MonitoringConfig {
    pub check_interval_seconds: u64,
    pub connection_timeout_seconds: u64,
}

/// A named target. Two endpoints are the same target when address and
/// port agree; the name is a label only.
#[derive(Debug, Clone, PartialEq, Eq)]
pub struct Endpoint {
    pub name: String,
    pub address: String,
    pub port: u16,
}

/// The mathematical value of an `Endpoint`.
pub struct EndpointView {
    pub name: Seq<char>,
    pub address: Seq<char>,
    pub port: u16,
}

impl EndpointView {
    /// What identifies the target: address and port.
    pub open spec fn key(self) -> (Seq<char>, u16) {
        (self.address, self.port)
    }
}

impl View for Endpoint {
    type V = EndpointView;

    open spec fn view(&self) -> EndpointView {
        EndpointView { name: self.name@, address: self.address@, port: self.port }
    }
}

impl Endpoint {
    /// A copy with the same value.
    pub fn duplicate(&self) -> (copy: Endpoint)
        ensures
            copy@ == self@,
    {
        Endpoint { name: self.name.clone(), address: self.address.clone(), port: self.port }
    }
}

/// The whole configuration, read-only to the monitor.
#[derive(Debug, Clone, PartialEq, Eq)]
pub struct Config {
    pub server: ServerConfig,
    pub proxy: ProxyConfig,
    pub monitoring: MonitoringConfig,
    pub endpoints: Vec<Endpoint>,
}

/// The latest known reachability of one endpoint.
#[derive(Debug, Clone, PartialEq, Eq)]
pub enum EndpointStatus {
    /// Never probed.
    Unknown,
    /// A probe is in flight.
    Checking,
    /// The last probe succeeded after this many milliseconds.
    Online { response_time_ms: u64 },
    /// The last probe failed, or timed out, for this reason.
    Offline { error: String },
}

/// The mathematical value of a status: its kind, and the number or the
/// text it carries.
pub enum StatusView {
    Unknown,
    Checking,
    Online { response_time_ms: u64 },
    Offline { error: Seq<char> },
}

impl StatusView {
    /// A probe has completed with this status.
    pub open spec fn is_terminal(self) -> bool {
        self is Online || self is Offline
    }
}

impl View for EndpointStatus {
    type V = StatusView;

    open spec fn view(&self) -> StatusView {
        match *self {
            EndpointStatus::Unknown => StatusView::Unknown,
            EndpointStatus::Checking => StatusView::Checking,
            EndpointStatus::Online { response_time_ms } => StatusView::Online { response_time_ms },
            EndpointStatus::Offline { error } => StatusView::Offline { error: error@ },
        }
    }
}

impl EndpointStatus {
    /// The word shown for each kind of status.
    pub open spec fn text_of(kind: StatusView) -> Seq<char> {
        match kind {
            StatusView::Unknown => "Unknown"@,
            StatusView::Checking => "Checking"@,
            StatusView::Online { .. } => "Online"@,
            StatusView::Offline { .. } => "Offline"@,
        }
    }

    /// The coloured dot shown for each kind of status.
    pub open spec fn emoji_of(kind: StatusView) -> Seq<char> {
        match kind {
            StatusView::Unknown => "⚪"@,
            StatusView::Checking => "🟡"@,
            StatusView::Online { .. } => "🟢"@,
            StatusView::Offline { .. } => "🔴"@,
        }
    }

    /// The style class of a table row for each kind of status.
    pub open spec fn css_class_of(kind: StatusView) -> Seq<char> {
        match kind {
            StatusView::Unknown => "status-unknown"@,
            StatusView::Checking => "status-checking"@,
            StatusView::Online { .. } => "status-online"@,
            StatusView::Offline { .. } => "status-offline"@,
        }
    }

    pub fn status_text(&self) -> (text: &'static str)
        ensures
            text@ == Self::text_of(self@),
    {
        match self {
            EndpointStatus::Unknown => "Unknown",
            EndpointStatus::Checking => "Checking",
            EndpointStatus::Online { .. } => "Online",
            EndpointStatus::Offline { .. } => "Offline",
        }
    }

    pub fn status_emoji(&self) -> (text: &'static str)
        ensures
            text@ == Self::emoji_of(self@),
    {
        match self {
            EndpointStatus::Unknown => "⚪",
            EndpointStatus::Checking => "🟡",
            EndpointStatus::Online { .. } => "🟢",
            EndpointStatus::Offline { .. } => "🔴",
        }
    }

    pub fn css_class(&self) -> (text: &'static str)
        ensures
            text@ == Self::css_class_of(self@),
    {
        match self {
            EndpointStatus::Unknown => "status-unknown",
            EndpointStatus::Checking => "status-checking",
            EndpointStatus::Online { .. } => "status-online",
            EndpointStatus::Offline { .. } => "status-offline",
        }
    }

    /// The measured time of a successful probe, if the status is one.
    pub fn response_time_ms(&self) -> (time: Option<u64>)
        ensures
            time == (match self@ {
                StatusView::Online { response_time_ms } => Some(response_time_ms),
                _ => None,
            }),
    {
        match self {
            EndpointStatus::Online { response_time_ms } => Some(*response_time_ms),
            _ => None,
        }
    }

    /// The reason of a failed probe, if the status is one.
    pub fn error_text(&self) -> (text: Option<&str>)
        ensures
            match self@ {
                StatusView::Offline { error } => text is Some && text->0@ == error,
                _ => text is None,
            },
    {
        match self {
            EndpointStatus::Offline { error } => Some(error.as_str()),
            _ => None,
        }
    }

    /// A copy with the same value.
    pub fn duplicate(&self) -> (copy: EndpointStatus)
        ensures
            copy@ == self@,
    {
        match self {
            EndpointStatus::Unknown => EndpointStatus::Unknown,
            EndpointStatus::Checking => EndpointStatus::Checking,
            EndpointStatus::Online { response_time_ms } => EndpointStatus::Online {
                response_time_ms: *response_time_ms,
            },
            EndpointStatus::Offline { error } => EndpointStatus::Offline { error: error.clone() },
        }
    }
}

/// What is known of one endpoint: its latest status, and when the last
/// probe of it completed, in seconds since the Unix epoch.
#[derive(Debug, Clone, PartialEq, Eq)]
pub struct EndpointInfo {
    pub endpoint: Endpoint,
    pub status: EndpointStatus,
    pub last_check: Option<i64>,
}

/// The mathematical value of an `EndpointInfo`.
pub struct RecordView {
    pub endpoint: EndpointView,
    pub status: StatusView,
    pub last_check: Option<i64>,
}

impl RecordView {
    /// The key under which the record is kept.
    pub open spec fn key(self) -> (Seq<char>, u16) {
        self.endpoint.key()
    }

    /// The record of an endpoint that was never probed.
    pub open spec fn unknown(endpoint: EndpointView) -> RecordView {
        RecordView { endpoint, status: StatusView::Unknown, last_check: None }
    }
}

impl View for EndpointInfo {
    type V = RecordView;

    open spec fn view(&self) -> RecordView {
        RecordView {
            endpoint: self.endpoint@,
            status: self.status@,
            last_check: self.last_check,
        }
    }
}

impl EndpointInfo {
    /// A copy with the same value.
    pub fn duplicate(&self) -> (copy: EndpointInfo)
        ensures
            copy@ == self@,
    {
        EndpointInfo {
            endpoint: self.endpoint.duplicate(),
            status: self.status.duplicate(),
            last_check: self.last_check,
        }
    }
}

} // verus!
