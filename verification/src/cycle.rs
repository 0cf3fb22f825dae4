//! The cycle driver: one pass after the other, for ever.
//!
//! A pass probes, writes the results file and, where there is something to
//! publish, updates the DNS record. The driver decides what is done next and
//! what a failure means; doing it is the caller's part. The caller hands in
//! what happened and gets back what to do.

use vstd::prelude::*;
use crate::address::Address;
use crate::config::Config;
use crate::dns::{
    outcome_of,
    update_outcome,
    update_request,
    update_request_for,
    DnsFailure,
    DnsResponse,
    DnsUpdateRequest,
};
use crate::ranking::{present, rank, ranking, ProbeResult};
use crate::sink::{artifact_text, plan_sink, publish_target};

verus! {

/// The part of a pass that is under way.
#[derive(Debug, Clone, Copy, PartialEq, Eq, Hash, Structural)]
pub enum Stage {
    /// The candidates are being probed.
    Probing,
    /// The results file is being written.
    Persisting,
    /// The DNS record is being updated.
    Publishing,
}

/// Where the driver stands.
#[derive(Debug, Clone, Copy, PartialEq, Eq, Hash, Structural)]
pub enum CycleState {
    /// Between passes, ready to begin one.
    Idle,
    /// In a pass.
    Running(Stage),
    /// A pass has ended well and waits to be reported.
    Success,
    /// A pass has ended in a failure that waits to be reported.
    Failed,
    /// Waiting for the time of the next pass.
    Sleeping,
}

/// Why a pass failed.
#[derive(Debug, Clone)]
pub enum CycleFailure {
    /// The results file could not be written; the text says why.
    Persistence(String),
    /// The DNS record could not be updated.
    Collaborator(DnsFailure),
}

/// What the caller reports to the driver.
#[derive(Debug, Clone)]
pub enum CycleEvent {
    /// It is time for a pass.
    Wake,
    /// Every probe has ended; these are their results.
    ProbesFinished(Vec<ProbeResult>),
    /// The results file has been written.
    ArtifactWritten,
    /// The results file could not be written; the text says why.
    ArtifactFailed(String),
    /// The exchange with the DNS provider has ended.
    DnsAnswered(DnsResponse),
    /// The end of the pass has been logged.
    Reported,
    /// The pause is over.
    SleepElapsed,
}

/// What the driver asks the caller to do.
#[derive(Debug, Clone)]
pub enum CycleAction {
    /// Expand the configured ranges, probe every address, and report
    /// `ProbesFinished`.
    Probe,
    /// Replace the content of the results file by this text, and report
    /// `ArtifactWritten` or `ArtifactFailed`.
    WriteArtifact(String),
    /// Send this request, and report `DnsAnswered`.
    UpdateDns(DnsUpdateRequest),
    /// Log that the pass ended well, and report `Reported`.
    ReportSuccess { elapsed_seconds: u64 },
    /// Log that the pass failed and why, and report `Reported`.
    ReportFailure { cause: CycleFailure, elapsed_seconds: u64 },
    /// Wait this long, and report `SleepElapsed`.
    Sleep { seconds: u64 },
    /// Nothing to do outside: report `Wake`.
    Resume,
    /// The event does not belong to the state the driver is in; nothing changed.
    Ignore,
}

/// Seconds from `started_at` to `now`, 0 where the clock went back.
pub open spec fn elapsed_between(started_at: u64, now: u64) -> u64 {
    if now >= started_at {
        (now - started_at) as u64
    } else {
        0
    }
}

/// The state that follows `state` on `event`. Events that do not belong to
/// the state leave it as it is.
pub open spec fn next_state(state: CycleState, target: Option<Address>, event: CycleEvent) -> CycleState {
    match (state, event) {
        (CycleState::Idle, CycleEvent::Wake) => CycleState::Running(Stage::Probing),
        (CycleState::Running(Stage::Probing), CycleEvent::ProbesFinished(_)) => CycleState::Running(
            Stage::Persisting,
        ),
        (CycleState::Running(Stage::Persisting), CycleEvent::ArtifactWritten) => if target is Some {
            CycleState::Running(Stage::Publishing)
        } else {
            CycleState::Success
        },
        (CycleState::Running(Stage::Persisting), CycleEvent::ArtifactFailed(_)) => CycleState::Failed,
        (CycleState::Running(Stage::Publishing), CycleEvent::DnsAnswered(response)) => if outcome_of(
            response,
        ) is Ok {
            CycleState::Success
        } else {
            CycleState::Failed
        },
        (CycleState::Success, CycleEvent::Reported) => CycleState::Sleeping,
        (CycleState::Failed, CycleEvent::Reported) => CycleState::Sleeping,
        (CycleState::Sleeping, CycleEvent::SleepElapsed) => CycleState::Idle,
        _ => state,
    }
}

/// The address that waits to be published after `event`: chosen when the
/// probes have ended, kept while the file is written, and gone after that.
pub open spec fn next_target(
    config: Config,
    state: CycleState,
    target: Option<Address>,
    event: CycleEvent,
) -> Option<Address> {
    match (state, event) {
        (CycleState::Running(Stage::Probing), CycleEvent::ProbesFinished(results)) => publish_target(
            config.cloudflare.update_dns,
            ranking(present(results@)),
        ),
        (CycleState::Running(Stage::Persisting), CycleEvent::ArtifactWritten) => None,
        (CycleState::Running(Stage::Persisting), CycleEvent::ArtifactFailed(_)) => None,
        _ => target,
    }
}

/// Whether `action` is what the driver asks for in `state` on `event`.
pub open spec fn expected_action(
    config: Config,
    state: CycleState,
    target: Option<Address>,
    started_at: u64,
    event: CycleEvent,
    now: u64,
    action: CycleAction,
) -> bool {
    let elapsed_seconds = elapsed_between(started_at, now);
    match (state, event) {
        (CycleState::Idle, CycleEvent::Wake) => action is Probe,
        (CycleState::Running(Stage::Probing), CycleEvent::ProbesFinished(results)) => {
            &&& action matches CycleAction::WriteArtifact(text)
            &&& text@ == artifact_text(
                ranking(present(results@)),
                config.optimization.top_ips_to_save,
            )
        },
        (CycleState::Running(Stage::Persisting), CycleEvent::ArtifactWritten) => match target {
            Some(address) => {
                &&& action matches CycleAction::UpdateDns(request)
                &&& request@ == update_request_for(
                    config.cloudflare.api_token@,
                    config.cloudflare.zone_id@,
                    config.cloudflare.record_id@,
                    config.cloudflare.domain@,
                    address.text(),
                )
            },
            None => action == (CycleAction::ReportSuccess { elapsed_seconds }),
        },
        (CycleState::Running(Stage::Persisting), CycleEvent::ArtifactFailed(reason)) => action == (
            CycleAction::ReportFailure { cause: CycleFailure::Persistence(reason), elapsed_seconds }
        ),
        (CycleState::Running(Stage::Publishing), CycleEvent::DnsAnswered(response)) => match outcome_of(
            response,
        ) {
            Ok(_) => action == (CycleAction::ReportSuccess { elapsed_seconds }),
            Err(failure) => action == (
                CycleAction::ReportFailure {
                    cause: CycleFailure::Collaborator(failure),
                    elapsed_seconds,
                }
            ),
        },
        (CycleState::Success, CycleEvent::Reported) => action == (
            CycleAction::Sleep { seconds: config.optimization.run_interval_seconds }
        ),
        (CycleState::Failed, CycleEvent::Reported) => action == (
            CycleAction::Sleep { seconds: config.optimization.run_interval_seconds }
        ),
        (CycleState::Sleeping, CycleEvent::SleepElapsed) => action is Resume,
        _ => action is Ignore,
    }
}

/// Runs one pass at a time and never ends.
pub struct CycleDriver {
    config: Config,
    state: CycleState,
    target: Option<Address>,
    started_at: u64,
}

impl CycleDriver {
    /// The settings the driver was made with.
    pub closed spec fn config(&self) -> Config {
        self.config
    }

    /// Where the driver stands.
    pub closed spec fn state(&self) -> CycleState {
        self.state
    }

    /// The address that waits to be published in this pass, if any.
    pub closed spec fn target(&self) -> Option<Address> {
        self.target
    }

    /// The clock reading at which the pass under way began.
    pub closed spec fn started_at(&self) -> u64 {
        self.started_at
    }

    /// A driver that has not begun a pass yet.
    pub fn new(config: Config) -> (driver: CycleDriver)
        ensures
            driver.config() == config,
            driver.state() == CycleState::Idle,
            driver.target() is None,
            driver.started_at() == 0,
    {
        CycleDriver { config, state: CycleState::Idle, target: None, started_at: 0 }
    }

    /// Where the driver stands.
    pub fn current_state(&self) -> (state: CycleState)
        ensures
            state == self.state(),
    {
        self.state
    }

    /// The settings the driver was made with.
    pub fn settings(&self) -> (config: &Config)
        ensures
            *config == self.config(),
    {
        &self.config
    }

    /// Takes note of what happened at clock reading `now` (in seconds) and
    /// says what to do next. A failure of the pass is reported and followed
    /// by the pause like a success; an event that does not belong to the
    /// state changes nothing.
    pub fn step(&mut self, event: CycleEvent, now: u64) -> (action: CycleAction)
        ensures
            final(self).config() == old(self).config(),
            final(self).state() == next_state(old(self).state(), old(self).target(), event),
            final(self).target() == next_target(
                old(self).config(),
                old(self).state(),
                old(self).target(),
                event,
            ),
            final(self).started_at() == if old(self).state() == CycleState::Idle && event is Wake {
                now
            } else {
                old(self).started_at()
            },
            expected_action(
                old(self).config(),
                old(self).state(),
                old(self).target(),
                old(self).started_at(),
                event,
                now,
                action,
            ),
    {
        let elapsed_seconds = if now >= self.started_at {
            now - self.started_at
        } else {
            0
        };
        match self.state {
            CycleState::Idle => match event {
                CycleEvent::Wake => {
                    self.state = CycleState::Running(Stage::Probing);
                    self.started_at = now;
                    CycleAction::Probe
                },
                _ => CycleAction::Ignore,
            },
            CycleState::Running(Stage::Probing) => match event {
                CycleEvent::ProbesFinished(results) => {
                    let ranked = rank(&results);
                    let plan = plan_sink(
                        &ranked,
                        self.config.optimization.top_ips_to_save,
                        self.config.cloudflare.update_dns,
                    );
                    self.state = CycleState::Running(Stage::Persisting);
                    self.target = plan.publish;
                    CycleAction::WriteArtifact(plan.artifact)
                },
                _ => CycleAction::Ignore,
            },
            CycleState::Running(Stage::Persisting) => match event {
                CycleEvent::ArtifactWritten => {
                    let target = self.target;
                    self.target = None;
                    match target {
                        Some(address) => {
                            let text = address.to_text();
                            let request = update_request(
                                self.config.cloudflare.api_token.as_str(),
                                self.config.cloudflare.zone_id.as_str(),
                                self.config.cloudflare.record_id.as_str(),
                                self.config.cloudflare.domain.as_str(),
                                text.as_str(),
                            );
                            self.state = CycleState::Running(Stage::Publishing);
                            CycleAction::UpdateDns(request)
                        },
                        None => {
                            self.state = CycleState::Success;
                            CycleAction::ReportSuccess { elapsed_seconds }
                        },
                    }
                },
                CycleEvent::ArtifactFailed(reason) => {
                    self.target = None;
                    self.state = CycleState::Failed;
                    CycleAction::ReportFailure {
                        cause: CycleFailure::Persistence(reason),
                        elapsed_seconds,
                    }
                },
                _ => CycleAction::Ignore,
            },
            CycleState::Running(Stage::Publishing) => match event {
                CycleEvent::DnsAnswered(response) => {
                    match update_outcome(response) {
                        Ok(_) => {
                            self.state = CycleState::Success;
                            CycleAction::ReportSuccess { elapsed_seconds }
                        },
                        Err(failure) => {
                            self.state = CycleState::Failed;
                            CycleAction::ReportFailure {
                                cause: CycleFailure::Collaborator(failure),
                                elapsed_seconds,
                            }
                        },
                    }
                },
                _ => CycleAction::Ignore,
            },
            CycleState::Success => match event {
                CycleEvent::Reported => {
                    self.state = CycleState::Sleeping;
                    CycleAction::Sleep { seconds: self.config.optimization.run_interval_seconds }
                },
                _ => CycleAction::Ignore,
            },
            CycleState::Failed => match event {
                CycleEvent::Reported => {
                    self.state = CycleState::Sleeping;
                    CycleAction::Sleep { seconds: self.config.optimization.run_interval_seconds }
                },
                _ => CycleAction::Ignore,
            },
            CycleState::Sleeping => match event {
                CycleEvent::SleepElapsed => {
                    self.state = CycleState::Idle;
                    CycleAction::Resume
                },
                _ => CycleAction::Ignore,
            },
        }
    }
}


/// The driver has no last state: from each of its states some event leads on,
/// round the cycle from `Idle` through a pass and the pause back to `Idle`.
pub proof fn cycle_never_ends(
    target: Option<Address>,
    results: Vec<ProbeResult>,
    errors: Vec<crate::dns::ProviderError>,
)
    ensures
        next_state(CycleState::Idle, target, CycleEvent::Wake) == CycleState::Running(
            Stage::Probing,
        ),
        next_state(
            CycleState::Running(Stage::Probing),
            target,
            CycleEvent::ProbesFinished(results),
        ) == CycleState::Running(Stage::Persisting),
        next_state(CycleState::Running(Stage::Persisting), target, CycleEvent::ArtifactWritten)
            != CycleState::Running(Stage::Persisting),
        next_state(
            CycleState::Running(Stage::Publishing),
            target,
            CycleEvent::DnsAnswered(DnsResponse::Answered { success: true, errors }),
        ) == CycleState::Success,
        next_state(CycleState::Success, target, CycleEvent::Reported) == CycleState::Sleeping,
        next_state(CycleState::Failed, target, CycleEvent::Reported) == CycleState::Sleeping,
        next_state(CycleState::Sleeping, target, CycleEvent::SleepElapsed) == CycleState::Idle,
{
}

/// A failure ends the pass and nothing else: a file that could not be
/// written, or a DNS update that did not take place, leads to `Failed`, and
/// from there the driver goes on to the pause exactly as after a success,
/// with the same interval.
pub proof fn failure_is_absorbed(
    config: Config,
    target: Option<Address>,
    started_at: u64,
    now: u64,
    reason: String,
    response: DnsResponse,
    action: CycleAction,
)
    ensures
        next_state(
            CycleState::Running(Stage::Persisting),
            target,
            CycleEvent::ArtifactFailed(reason),
        ) == CycleState::Failed,
        outcome_of(response) is Err ==> next_state(
            CycleState::Running(Stage::Publishing),
            target,
            CycleEvent::DnsAnswered(response),
        ) == CycleState::Failed,
        next_state(CycleState::Failed, target, CycleEvent::Reported) == next_state(
            CycleState::Success,
            target,
            CycleEvent::Reported,
        ),
        expected_action(
            config,
            CycleState::Failed,
            target,
            started_at,
            CycleEvent::Reported,
            now,
            action,
        ) == expected_action(
            config,
            CycleState::Success,
            target,
            started_at,
            CycleEvent::Reported,
            now,
            action,
        ),
{
}

/// No pass begins while another is under way: probing starts from `Idle`, on
/// `Wake`, and from nowhere else.
pub proof fn passes_do_not_overlap(state: CycleState, target: Option<Address>, event: CycleEvent)
    requires
        next_state(state, target, event) == CycleState::Running(Stage::Probing),
        state != CycleState::Running(Stage::Probing),
    ensures
        state == CycleState::Idle,
        event is Wake,
{
}

/// The DNS record is updated only after the results file has been written,
/// and only where an address waits to be published.
pub proof fn publishing_follows_persisting(
    config: Config,
    state: CycleState,
    target: Option<Address>,
    started_at: u64,
    event: CycleEvent,
    now: u64,
    action: CycleAction,
)
    requires
        expected_action(config, state, target, started_at, event, now, action),
        action is UpdateDns,
    ensures
        state == CycleState::Running(Stage::Persisting),
        event is ArtifactWritten,
        target is Some,
        next_state(state, target, event) == CycleState::Running(Stage::Publishing),
{
}

/// Where no probe measured a latency there is nothing to publish, and the
/// pass ends well once the file is written: that nothing answered is no
/// failure.
pub proof fn unreachable_candidates_are_no_failure(
    config: Config,
    target: Option<Address>,
    results: Vec<ProbeResult>,
)
    requires
        present(results@).len() == 0,
    ensures
        next_target(
            config,
            CycleState::Running(Stage::Probing),
            target,
            CycleEvent::ProbesFinished(results),
        ) is None,
        next_state(CycleState::Running(Stage::Persisting), None, CycleEvent::ArtifactWritten)
            == CycleState::Success,
{
    crate::ranking::ranking_is_stable(present(results@));
}

} // verus!
