//! The connector for the code-assistant command-line tool: its retry and
//! health accounting, and its output parsing. Spawning the process and
//! reading its output are the caller's part of an attempt.

use vstd::prelude::*;
use crate::connector_output::{event_of, line_event};
use crate::connector_types::{
    ConnectorConfig, ConnectorHealth, ConnectorMessage, ConnectorMetrics, EventView,
};
use crate::retry::{after_failure, attempt_limit, capped_backoff, is_backoff};
use crate::blackboard::running_mean;
use crate::text::join2;

verus! {

/// Errors of the code-assistant connector.
#[derive(Debug, Clone, PartialEq, Eq)]
pub enum ClaudeCodeError {
    /// The process could not be spawned
    SpawnError(String),
    /// The process exited with a failure status
    ProcessTerminated(String),
    /// The process did not finish in time
    Timeout,
    /// Output could not be parsed
    ParseError(String),
    /// Reading or writing the process failed
    IoError(String),
    /// Every attempt failed
    MaxRetriesExceeded,
}

impl ClaudeCodeError {
    /// A human-readable description.
    pub fn message(&self) -> (r: String)
        ensures
            self matches ClaudeCodeError::SpawnError(s) ==> r@ == "Failed to spawn CLI process: "@ + s@,
            self matches ClaudeCodeError::ProcessTerminated(s) ==> r@ == "Process terminated unexpectedly: "@ + s@,
            self matches ClaudeCodeError::Timeout ==> r@ == "Timeout waiting for response"@,
            self matches ClaudeCodeError::ParseError(s) ==> r@ == "Failed to parse output: "@ + s@,
            self matches ClaudeCodeError::IoError(s) ==> r@ == "IO error: "@ + s@,
            self matches ClaudeCodeError::MaxRetriesExceeded ==> r@ == "Max retries exceeded"@,
    {
        match self {
            ClaudeCodeError::SpawnError(s) => join2("Failed to spawn CLI process: ", s.as_str()),
            ClaudeCodeError::ProcessTerminated(s) => join2("Process terminated unexpectedly: ", s.as_str()),
            ClaudeCodeError::Timeout => String::from_str("Timeout waiting for response"),
            ClaudeCodeError::ParseError(s) => join2("Failed to parse output: ", s.as_str()),
            ClaudeCodeError::IoError(s) => join2("IO error: ", s.as_str()),
            ClaudeCodeError::MaxRetriesExceeded => String::from_str("Max retries exceeded"),
        }
    }
}

/// Connector for the code-assistant command-line tool, which takes the
/// prompt as its last argument.
pub struct ClaudeCodeConnector {
    config: ConnectorConfig,
    metrics: ConnectorMetrics,
    health: ConnectorHealth,
}

impl ClaudeCodeConnector {
    /// The configuration.
    pub closed spec fn configuration(&self) -> ConnectorConfig {
        self.config
    }

    /// The counters.
    pub closed spec fn counters(&self) -> ConnectorMetrics {
        self.metrics
    }

    /// The health.
    pub closed spec fn state(&self) -> ConnectorHealth {
        self.health
    }

    /// A healthy connector with zero counters.
    pub fn new(config: ConnectorConfig) -> (r: ClaudeCodeConnector)
        ensures
            r.configuration() == config,
            r.counters() == ConnectorMetrics::new_spec(),
            r.state() == ConnectorHealth::Healthy,
    {
        ClaudeCodeConnector { config, metrics: ConnectorMetrics::new(), health: ConnectorHealth::Healthy }
    }

    /// The configuration.
    pub fn config(&self) -> (r: &ConnectorConfig)
        ensures
            *r == self.configuration(),
    {
        &self.config
    }

    /// Current health.
    pub fn health(&self) -> (r: ConnectorHealth)
        ensures
            r == self.state(),
    {
        self.health.duplicate()
    }

    /// Current counters.
    pub fn metrics(&self) -> (r: ConnectorMetrics)
        ensures
            r == self.counters(),
    {
        self.metrics
    }

    /// Adds token usage to the counters (saturating).
    pub fn record_usage(&mut self, input_tokens: u64, output_tokens: u64)
        ensures
            final(self).counters() == (ConnectorMetrics {
                total_input_tokens: crate::connector_types::sat_sum(
                    old(self).counters().total_input_tokens,
                    input_tokens,
                ),
                total_output_tokens: crate::connector_types::sat_sum(
                    old(self).counters().total_output_tokens,
                    output_tokens,
                ),
                ..old(self).counters()
            }),
            final(self).configuration() == old(self).configuration(),
            final(self).state() == old(self).state(),
    {
        self.metrics.record_usage(input_tokens, output_tokens);
    }

    /// Runs `attempt` until it succeeds or `max_retries` attempts have
    /// failed, pausing `100 ms * 2^(k - 1)` after failure `k`. Each attempt
    /// is counted; a success (which reports its duration in milliseconds)
    /// updates the mean response time and marks the connector healthy; when
    /// the retries are spent it is marked unhealthy and the call fails with
    /// `MaxRetriesExceeded`.
    pub fn execute<A: Fn() -> Result<u64, ClaudeCodeError>, P: Fn(u64)>(
        &mut self,
        attempt: A,
        pause: P,
    ) -> (r: Result<(), ClaudeCodeError>)
        requires
            old(self).counters().balanced(),
            attempt.requires(()),
            forall|ms: u64| is_backoff(ms) ==> #[trigger] pause.requires((ms,)),
        ensures
            final(self).counters().balanced(),
            final(self).configuration() == old(self).configuration(),
            r is Ok ==> final(self).state() == ConnectorHealth::Healthy && exists|t: u64|
                #[trigger] attempt.ensures((), Ok::<u64, ClaudeCodeError>(t))
                    && final(self).counters().avg_response_time_ms == running_mean(
                    old(self).counters().avg_response_time_ms,
                    final(self).counters().spawn_count,
                    t,
                ),
            r is Err ==> r == Err::<(), ClaudeCodeError>(ClaudeCodeError::MaxRetriesExceeded)
                && final(self).state() is Unhealthy && exists|e: ClaudeCodeError|
                #[trigger] attempt.ensures((), Err::<u64, ClaudeCodeError>(e)),
            final(self).counters().spawn_count >= old(self).counters().spawn_count,
            (forall|o: Result<u64, ClaudeCodeError>| #[trigger] attempt.ensures((), o) ==> o is Ok) ==> r is Ok
                && final(self).counters().error_count == old(self).counters().error_count && (old(
                self,
            ).counters().spawn_count < u64::MAX ==> final(self).counters().spawn_count == old(
                self,
            ).counters().spawn_count + 1 && final(self).counters().success_count == old(
                self,
            ).counters().success_count + 1),
            final(self).counters().total_input_tokens == old(self).counters().total_input_tokens,
            final(self).counters().total_output_tokens == old(self).counters().total_output_tokens,
            old(self).counters().spawn_count + attempt_limit(old(self).configuration().max_retries)
                <= u64::MAX ==> {
                &&& r is Ok ==> final(self).counters().success_count == old(self).counters().success_count + 1
                    && final(self).counters().error_count < old(self).counters().error_count
                    + attempt_limit(old(self).configuration().max_retries)
                    && final(self).counters().spawn_count == old(self).counters().spawn_count + (
                    final(self).counters().error_count - old(self).counters().error_count) + 1
                &&& r is Err ==> final(self).counters().error_count == old(self).counters().error_count
                    + attempt_limit(old(self).configuration().max_retries)
                    && final(self).counters().success_count == old(self).counters().success_count
                    && final(self).counters().spawn_count == old(self).counters().spawn_count
                    + attempt_limit(old(self).configuration().max_retries)
            },
    {
        let max_retries = self.config.max_retries;
        let mut retries: u32 = 0;
        loop
            invariant
                self.metrics.balanced(),
                self.config == old(self).config,
                    max_retries == self.config.max_retries,
                attempt.requires(()),
                forall|ms: u64| is_backoff(ms) ==> #[trigger] pause.requires((ms,)),
                retries < max_retries || retries == 0,
                self.metrics.spawn_count >= old(self).metrics.spawn_count,
                self.metrics.avg_response_time_ms == old(self).metrics.avg_response_time_ms,
                (forall|o: Result<u64, ClaudeCodeError>| #[trigger] attempt.ensures((), o) ==> o is Ok) ==> retries == 0
                    && self.metrics == old(self).metrics,
                self.metrics.total_input_tokens == old(self).metrics.total_input_tokens,
                self.metrics.total_output_tokens == old(self).metrics.total_output_tokens,
                old(self).metrics.spawn_count + attempt_limit(max_retries) <= u64::MAX ==> {
                    &&& self.metrics.spawn_count == old(self).metrics.spawn_count + retries
                    &&& self.metrics.error_count == old(self).metrics.error_count + retries
                    &&& self.metrics.success_count == old(self).metrics.success_count
                },
            decreases max_retries - retries,
        {
            let outcome = attempt();
            assert(attempt.ensures((), outcome));
            match outcome {
                Ok(elapsed) => {
                    self.metrics.record_attempt(true);
                    self.metrics.update_response_time(elapsed);
                    self.health = ConnectorHealth::Healthy;
                    return Ok(());
                },
                Err(e) => {
                    retries = retries + 1;
                    self.metrics.record_attempt(false);
                    match after_failure(retries, max_retries) {
                        None => {
                            self.health = ConnectorHealth::Unhealthy {
                                reason: join2("Max retries exceeded: ", e.message().as_str()),
                            };
                            return Err(ClaudeCodeError::MaxRetriesExceeded);
                        },
                        Some(ms) => {
                            assert(is_backoff(ms)) by {
                                assert(capped_backoff(retries as nat) == ms as nat);
                            }
                            pause(ms);
                        },
                    }
                },
            }
        }
    }

    /// The event one stdout line yields, if any.
    pub fn parse_output_line(line: &str) -> (r: Option<ConnectorMessage>)
        ensures
            event_of(r) == line_event(line@),
    {
        crate::connector_output::parse_output_line(line)
    }

    /// Token usage found by a loose scan of `line`, if any count is non-zero.
    pub fn parse_usage(line: &str) -> (r: Option<ConnectorMessage>)
        ensures
            event_of(r) == crate::connector_output::loose_usage(line@),
    {
        crate::connector_output::scan_usage(line)
    }

    /// The event of a line of stderr.
    pub fn error_event(line: String) -> (r: ConnectorMessage)
        ensures
            r@ == EventView::Error(line@),
    {
        ConnectorMessage::Error { message: line }
    }
}

} // verus!
