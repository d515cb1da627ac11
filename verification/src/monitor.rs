//! The checker and the scheduler: what a probe's outcome means for an
//! endpoint's status, which writes a check makes to the store, and
//! when a cycle launches, waits and sleeps.
//!
//! Sockets, clocks and tasks belong to the caller. It reports what
//! happened; the decisions are taken here.

use crate::connection::{Socks5Error, Socks5ErrorView};
use crate::store::{
    completed, initial_records, lemma_initial_table, lemma_write_keeps_times_settled,
    marked_checking, table_of, times_settled, StatusStore, StoreWrite,
};
use crate::text::{decimal_string, decimal_text, host_port_string, host_port_text};
use crate::types::{Config, Endpoint, EndpointStatus, RecordView, StatusView};
use vstd::prelude::*;
use vstd::string::*;

verus! {

/// How one probe of one endpoint ended.
#[derive(Debug, Clone, PartialEq, Eq)]
pub enum ProbeOutcome {
    /// The handshake succeeded after this many milliseconds.
    Connected { elapsed_ms: u64 },
    /// The handshake failed.
    Failed(Socks5Error),
    /// The deadline passed first.
    TimedOut,
}

/// The mathematical value of a `ProbeOutcome`.
pub enum ProbeOutcomeView {
    Connected { elapsed_ms: u64 },
    Failed(Socks5ErrorView),
    TimedOut,
}

impl View for ProbeOutcome {
    type V = ProbeOutcomeView;

    open spec fn view(&self) -> ProbeOutcomeView {
        match *self {
            ProbeOutcome::Connected { elapsed_ms } => ProbeOutcomeView::Connected { elapsed_ms },
            ProbeOutcome::Failed(error) => ProbeOutcomeView::Failed(error@),
            ProbeOutcome::TimedOut => ProbeOutcomeView::TimedOut,
        }
    }
}

/// The reason given for a probe that ran into its deadline.
pub open spec fn timeout_text(timeout_seconds: u64) -> Seq<char> {
    "Connection timeout ("@ + decimal_text(timeout_seconds as nat) + "s)"@
}

/// The status that a probe's outcome comes to: `Online` with the time
/// measured, or `Offline` with the error's message, or with the
/// timeout's.
pub open spec fn status_of(outcome: ProbeOutcomeView, timeout_seconds: u64) -> StatusView {
    match outcome {
        ProbeOutcomeView::Connected { elapsed_ms } => StatusView::Online {
            response_time_ms: elapsed_ms,
        },
        ProbeOutcomeView::Failed(error) => StatusView::Offline {
            error: Socks5Error::message_of(error),
        },
        ProbeOutcomeView::TimedOut => StatusView::Offline { error: timeout_text(timeout_seconds) },
    }
}

/// Turns the outcome of a probe into the endpoint's status. Every
/// outcome gives `Online` or `Offline`; no failure goes further.
pub fn status_from_outcome(outcome: ProbeOutcome, timeout_seconds: u64) -> (status: EndpointStatus)
    ensures
        status@ == status_of(outcome@, timeout_seconds),
        status@.is_terminal(),
{
    match outcome {
        ProbeOutcome::Connected { elapsed_ms } => EndpointStatus::Online {
            response_time_ms: elapsed_ms,
        },
        ProbeOutcome::Failed(error) => EndpointStatus::Offline { error: error.message() },
        ProbeOutcome::TimedOut => {
            let seconds = decimal_string(timeout_seconds);
            let text = String::from_str("Connection timeout (").concat(seconds.as_str()).concat(
                "s)",
            );
            EndpointStatus::Offline { error: text }
        },
    }
}

/// Where the scheduler stands.
#[derive(Debug, Clone, Copy, PartialEq, Eq)]
pub enum CyclePhase {
    /// Not started yet.
    Idle,
    /// A cycle is running; this many of its checks have not finished.
    Running { outstanding: usize },
    /// The cycle is over; the interval is being slept.
    Sleeping,
}

/// What the scheduler is told.
#[derive(Debug, Clone, Copy, PartialEq, Eq)]
pub enum CycleEvent {
    /// The service was started, or the sleep is over.
    Wake,
    /// One check of the running cycle has finished, whatever its result.
    CheckFinished,
}

/// What the scheduler asks for.
#[derive(Debug, Clone, Copy, PartialEq, Eq)]
pub enum CycleAction {
    /// Launch one check per configured endpoint, all at once, each
    /// bounded by the timeout.
    Launch { checks: usize, timeout_seconds: u64 },
    /// Nothing yet: go on waiting for what is pending.
    Wait,
    /// Sleep for the interval, then wake the scheduler.
    Sleep { seconds: u64 },
}

/// One decision of the scheduler. A wake-up, at the start or after the
/// sleep, opens a cycle with one check per endpoint; the check that
/// finishes last closes the cycle and starts the sleep; an event that
/// the phase does not await changes nothing.
pub open spec fn cycle_step(
    phase: CyclePhase,
    event: CycleEvent,
    endpoints: usize,
    interval_seconds: u64,
    timeout_seconds: u64,
) -> (CyclePhase, CycleAction) {
    match (phase, event) {
        (CyclePhase::Running { outstanding }, CycleEvent::CheckFinished) => if outstanding <= 1 {
            (CyclePhase::Sleeping, CycleAction::Sleep { seconds: interval_seconds })
        } else {
            (
                CyclePhase::Running { outstanding: (outstanding - 1) as usize },
                CycleAction::Wait,
            )
        },
        (CyclePhase::Running { .. }, CycleEvent::Wake) => (phase, CycleAction::Wait),
        (_, CycleEvent::CheckFinished) => (phase, CycleAction::Wait),
        (_, CycleEvent::Wake) => if endpoints == 0 {
            (CyclePhase::Sleeping, CycleAction::Sleep { seconds: interval_seconds })
        } else {
            (
                CyclePhase::Running { outstanding: endpoints },
                CycleAction::Launch { checks: endpoints, timeout_seconds },
            )
        },
    }
}

/// The phase after `finished` checks of a running cycle have finished.
pub open spec fn after_finishes(
    phase: CyclePhase,
    finished: nat,
    endpoints: usize,
    interval_seconds: u64,
    timeout_seconds: u64,
) -> CyclePhase
    decreases finished,
{
    if finished == 0 {
        phase
    } else {
        cycle_step(
            after_finishes(
                phase,
                (finished - 1) as nat,
                endpoints,
                interval_seconds,
                timeout_seconds,
            ),
            CycleEvent::CheckFinished,
            endpoints,
            interval_seconds,
            timeout_seconds,
        ).0
    }
}

/// A cycle waits for every check it launched: while fewer checks have
/// finished than were launched the cycle is still running, with the
/// rest outstanding, and the check that finishes last, and no other,
/// starts the sleep.
pub proof fn lemma_cycle_waits_for_every_check(
    launched: usize,
    finished: nat,
    endpoints: usize,
    interval_seconds: u64,
    timeout_seconds: u64,
)
    requires
        0 < launched,
        finished <= launched,
    ensures
        after_finishes(
            CyclePhase::Running { outstanding: launched },
            finished,
            endpoints,
            interval_seconds,
            timeout_seconds,
        ) == (if finished < launched {
            CyclePhase::Running { outstanding: (launched - finished) as usize }
        } else {
            CyclePhase::Sleeping
        }),
        finished > 0 ==> cycle_step(
            after_finishes(
                CyclePhase::Running { outstanding: launched },
                (finished - 1) as nat,
                endpoints,
                interval_seconds,
                timeout_seconds,
            ),
            CycleEvent::CheckFinished,
            endpoints,
            interval_seconds,
            timeout_seconds,
        ).1 == (if finished < launched {
            CycleAction::Wait
        } else {
            CycleAction::Sleep { seconds: interval_seconds }
        }),
    decreases finished,
{
    if finished > 0 {
        lemma_cycle_waits_for_every_check(
            launched,
            (finished - 1) as nat,
            endpoints,
            interval_seconds,
            timeout_seconds,
        );
    }
}

/// Why a configuration cannot be monitored.
#[derive(Debug, Clone, Copy, PartialEq, Eq)]
pub enum ConfigError {
    /// Host and port of the proxy do not make a socket address.
    InvalidProxyAddress,
}

impl ConfigError {
    /// The error as a sentence for people.
    pub fn message(&self) -> (text: &'static str)
        ensures
            text@ == "Invalid proxy address"@,
    {
        match self {
            ConfigError::InvalidProxyAddress => "Invalid proxy address",
        }
    }
}

/// The monitor of one configuration: its status store and the state of
/// its scheduler.
#[derive(Debug, Clone, PartialEq, Eq)]
pub struct MonitorService {
    config: Config,
    status_store: StatusStore,
    phase: CyclePhase,
}

impl MonitorService {
    /// The configuration the service was made with.
    pub closed spec fn spec_config(&self) -> Config {
        self.config
    }

    /// The table of the status store.
    pub closed spec fn table(&self) -> Map<(Seq<char>, u16), RecordView> {
        self.status_store@
    }

    /// The scheduler's phase.
    pub closed spec fn spec_phase(&self) -> CyclePhase {
        self.phase
    }

    /// The store holds one record per key, and a time of last check
    /// for every record that is `Online` or `Offline` and for none that
    /// is `Unknown`.
    pub closed spec fn wf(&self) -> bool {
        self.status_store.wf() && times_settled(self.status_store@)
    }

    /// Whatever checks a service has run, in its store a record that is
    /// `Online` or `Offline` has a time of last check and a record that
    /// is `Unknown` has none.
    pub proof fn lemma_times_settled(&self)
        requires
            self.wf(),
        ensures
            times_settled(self.table()),
    {
    }

    /// A service that has not started: the store holds a never-probed
    /// record for every configured endpoint, and no other.
    pub fn new(config: Config) -> (service: MonitorService)
        ensures
            service.wf(),
            service.spec_config() == config,
            service.table() == table_of(initial_records(config.endpoints@)),
            service.spec_phase() == CyclePhase::Idle,
    {
        let status_store = StatusStore::new(&config.endpoints);
        proof {
            lemma_initial_table(config.endpoints@, (Seq::<char>::empty(), 0u16));
        }
        MonitorService { config, status_store, phase: CyclePhase::Idle }
    }

    /// The status store, for reading.
    pub fn get_status_store(&self) -> (store: &StatusStore)
        ensures
            store@ == self.table(),
            self.wf() ==> store.wf(),
    {
        &self.status_store
    }

    /// The configuration.
    pub fn config(&self) -> (config: &Config)
        ensures
            *config == self.spec_config(),
    {
        &self.config
    }

    /// The scheduler's phase.
    pub fn phase(&self) -> (phase: CyclePhase)
        ensures
            phase == self.spec_phase(),
    {
        self.phase
    }

    /// The proxy's address as text, host and port.
    pub fn proxy_address(&self) -> (text: String)
        ensures
            text@ == host_port_text(
                self.spec_config().proxy.host@,
                self.spec_config().proxy.port,
            ),
    {
        host_port_string(self.config.proxy.host.as_str(), self.config.proxy.port)
    }

    /// Starts the scheduler, given whether the proxy's address, as
    /// `proxy_address` writes it, could be read as a socket address.
    /// Where it could, the first cycle opens at once. Where it could
    /// not, the configuration is refused and nothing is launched: the
    /// service stays as it was.
    pub fn start_monitoring(&mut self, proxy_address_valid: bool) -> (started: Result<
        CycleAction,
        ConfigError,
    >)
        ensures
            final(self).wf() == old(self).wf(),
            final(self).spec_config() == old(self).spec_config(),
            final(self).table() == old(self).table(),
            match started {
                Ok(action) => proxy_address_valid && (final(self).spec_phase(), action)
                    == cycle_step(
                    old(self).spec_phase(),
                    CycleEvent::Wake,
                    old(self).spec_config().endpoints.len(),
                    old(self).spec_config().monitoring.check_interval_seconds,
                    old(self).spec_config().monitoring.connection_timeout_seconds,
                ),
                Err(error) => !proxy_address_valid && error == ConfigError::InvalidProxyAddress
                    && final(self).spec_phase() == old(self).spec_phase(),
            },
    {
        if !proxy_address_valid {
            return Err(ConfigError::InvalidProxyAddress);
        }
        Ok(self.advance(CycleEvent::Wake))
    }

    /// Tells the scheduler what happened and returns what to do next.
    pub fn advance(&mut self, event: CycleEvent) -> (action: CycleAction)
        ensures
            final(self).wf() == old(self).wf(),
            final(self).spec_config() == old(self).spec_config(),
            final(self).table() == old(self).table(),
            (final(self).spec_phase(), action) == cycle_step(
                old(self).spec_phase(),
                event,
                old(self).spec_config().endpoints.len(),
                old(self).spec_config().monitoring.check_interval_seconds,
                old(self).spec_config().monitoring.connection_timeout_seconds,
            ),
    {
        let interval = self.config.monitoring.check_interval_seconds;
        let timeout = self.config.monitoring.connection_timeout_seconds;
        let endpoints = self.config.endpoints.len();
        match (self.phase, event) {
            (CyclePhase::Running { outstanding }, CycleEvent::CheckFinished) => {
                if outstanding <= 1 {
                    self.phase = CyclePhase::Sleeping;
                    CycleAction::Sleep { seconds: interval }
                } else {
                    self.phase = CyclePhase::Running { outstanding: outstanding - 1 };
                    CycleAction::Wait
                }
            },
            (CyclePhase::Running { .. }, CycleEvent::Wake) => CycleAction::Wait,
            (_, CycleEvent::CheckFinished) => CycleAction::Wait,
            (_, CycleEvent::Wake) => {
                if endpoints == 0 {
                    self.phase = CyclePhase::Sleeping;
                    CycleAction::Sleep { seconds: interval }
                } else {
                    self.phase = CyclePhase::Running { outstanding: endpoints };
                    CycleAction::Launch { checks: endpoints, timeout_seconds: timeout }
                }
            },
        }
    }

    /// The first write of a check: the endpoint's record becomes
    /// `Checking`, its time of last check stays.
    pub fn begin_check(&mut self, endpoint: &Endpoint)
        requires
            old(self).wf(),
        ensures
            final(self).wf(),
            final(self).spec_config() == old(self).spec_config(),
            final(self).spec_phase() == old(self).spec_phase(),
            final(self).table() == marked_checking(old(self).table(), endpoint@.key()),
            final(self).table().dom() == old(self).table().dom(),
    {
        proof {
            lemma_write_keeps_times_settled(
                self.status_store@,
                StoreWrite::Started { key: endpoint@.key() },
            );
        }
        self.status_store.mark_checking(endpoint);
    }

    /// The last write of a check: the outcome, judged against the
    /// configured timeout, and the time of completion go into the
    /// endpoint's record together.
    pub fn check_endpoint(&mut self, endpoint: &Endpoint, outcome: ProbeOutcome, completed_at: i64)
        requires
            old(self).wf(),
        ensures
            final(self).wf(),
            final(self).spec_config() == old(self).spec_config(),
            final(self).spec_phase() == old(self).spec_phase(),
            final(self).table() == completed(
                old(self).table(),
                endpoint@.key(),
                status_of(
                    outcome@,
                    old(self).spec_config().monitoring.connection_timeout_seconds,
                ),
                completed_at,
            ),
            final(self).table().dom() == old(self).table().dom(),
    {
        let status = status_from_outcome(
            outcome,
            self.config.monitoring.connection_timeout_seconds,
        );
        proof {
            lemma_write_keeps_times_settled(
                self.status_store@,
                StoreWrite::Completed { key: endpoint@.key(), status: status@, at: completed_at },
            );
        }
        self.status_store.record_result(endpoint, status, completed_at);
    }
}

} // verus!
