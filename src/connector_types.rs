//! Events, configuration, health and metrics shared by the model connectors.

use vstd::prelude::*;

verus! {

/// An event of a connector's output stream.
#[derive(Debug, Clone, PartialEq)]
pub enum ConnectorMessage {
    /// Text content streamed from the model
    Content { content: String },
    /// Tool call or function invocation
    ToolCall { name: String, args: String },
    /// Error from the connector
    Error { message: String },
    /// Token usage
    Usage { input_tokens: u64, output_tokens: u64 },
    /// End of the stream
    Done,
}

/// The value of an event, with texts as character sequences.
pub ghost enum EventView {
    Content(Seq<char>),
    ToolCall(Seq<char>, Seq<char>),
    Error(Seq<char>),
    Usage(u64, u64),
    Done,
}

impl View for ConnectorMessage {
    type V = EventView;

    open spec fn view(&self) -> EventView {
        match self {
            ConnectorMessage::Content { content } => EventView::Content(content@),
            ConnectorMessage::ToolCall { name, args } => EventView::ToolCall(name@, args@),
            ConnectorMessage::Error { message } => EventView::Error(message@),
            ConnectorMessage::Usage { input_tokens, output_tokens } => EventView::Usage(
                *input_tokens,
                *output_tokens,
            ),
            ConnectorMessage::Done => EventView::Done,
        }
    }
}

/// Configuration of a command-line connector.
#[derive(Debug, Clone)]
pub struct ConnectorConfig {
    /// Path to the CLI binary (empty until the caller names one)
    pub cli_path: String,
    /// Additional command-line flags
    pub flags: Vec<String>,
    /// Environment variables to pass through
    pub env: std::collections::HashMap<String, String>,
    /// Timeout in milliseconds (`None`: no timeout)
    pub timeout_ms: Option<u64>,
    /// Attempts allowed before giving up
    pub max_retries: u32,
}

impl Default for ConnectorConfig {
    fn default() -> (r: ConnectorConfig)
        ensures
            r.cli_path@ == Seq::<char>::empty(),
            r.flags@.len() == 0,
            r.env@ == Map::<String, String>::empty(),
            r.timeout_ms == Some(300000u64),
            r.max_retries == 3,
    {
        ConnectorConfig {
            cli_path: String::new(),
            flags: Vec::new(),
            env: std::collections::HashMap::new(),
            timeout_ms: Some(300000),
            max_retries: 3,
        }
    }
}

/// Health of a connector.
#[derive(Debug, Clone, PartialEq)]
pub enum ConnectorHealth {
    Healthy,
    Degraded { reason: String },
    Unhealthy { reason: String },
}

impl ConnectorHealth {
    /// A copy of this health.
    pub fn duplicate(&self) -> (r: ConnectorHealth)
        ensures
            r == *self,
    {
        match self {
            ConnectorHealth::Healthy => ConnectorHealth::Healthy,
            ConnectorHealth::Degraded { reason } => ConnectorHealth::Degraded { reason: reason.clone() },
            ConnectorHealth::Unhealthy { reason } => ConnectorHealth::Unhealthy {
                reason: reason.clone(),
            },
        }
    }
}

/// Counters of a connector. Every attempt is a spawn and either a success
/// or an error.
#[derive(Debug, Clone, Copy, Default, PartialEq, Eq, Structural)]
pub struct ConnectorMetrics {
    pub spawn_count: u64,
    pub success_count: u64,
    pub error_count: u64,
    pub total_input_tokens: u64,
    pub total_output_tokens: u64,
    /// Running mean of the response time of successful attempts, in whole
    /// milliseconds.
    pub avg_response_time_ms: u64,
}

/// `x + y`, or `u64::MAX` when that does not fit.
pub open spec fn sat_sum(x: u64, y: u64) -> u64 {
    if x + y <= u64::MAX {
        (x + y) as u64
    } else {
        u64::MAX
    }
}

impl ConnectorMetrics {
    /// All counters zero.
    pub open spec fn new_spec() -> ConnectorMetrics {
        ConnectorMetrics {
            spawn_count: 0,
            success_count: 0,
            error_count: 0,
            total_input_tokens: 0,
            total_output_tokens: 0,
            avg_response_time_ms: 0,
        }
    }

    /// Every attempt counted is a success or an error.
    pub open spec fn balanced(&self) -> bool {
        self.spawn_count == self.success_count + self.error_count
    }

    /// All counters zero.
    pub fn new() -> (r: ConnectorMetrics)
        ensures
            r.balanced(),
            r == (ConnectorMetrics {
                spawn_count: 0,
                success_count: 0,
                error_count: 0,
                total_input_tokens: 0,
                total_output_tokens: 0,
                avg_response_time_ms: 0,
            }),
    {
        ConnectorMetrics {
            spawn_count: 0,
            success_count: 0,
            error_count: 0,
            total_input_tokens: 0,
            total_output_tokens: 0,
            avg_response_time_ms: 0,
        }
    }

    /// Counts one attempt as a success or an error. Once the spawn counter
    /// is full nothing more is counted, so the accounts stay balanced.
    pub fn record_attempt(&mut self, success: bool)
        requires
            old(self).balanced(),
        ensures
            final(self).balanced(),
            old(self).spawn_count < u64::MAX ==> final(self).spawn_count == old(self).spawn_count + 1
                && final(self).success_count == old(self).success_count + (if success {
                1int
            } else {
                0int
            }) && final(self).error_count == old(self).error_count + (if success {
                0int
            } else {
                1int
            }),
            old(self).spawn_count == u64::MAX ==> *final(self) == *old(self),
            final(self).total_input_tokens == old(self).total_input_tokens,
            final(self).total_output_tokens == old(self).total_output_tokens,
            final(self).avg_response_time_ms == old(self).avg_response_time_ms,
    {
        if self.spawn_count < u64::MAX {
            self.spawn_count = self.spawn_count + 1;
            if success {
                self.success_count = self.success_count + 1;
            } else {
                self.error_count = self.error_count + 1;
            }
        }
    }

    /// Folds a response time into the running mean, with `n` the current
    /// spawn count: `avg <- (avg * (n - 1) + sample) / n`, rounded down.
    pub fn update_response_time(&mut self, elapsed_ms: u64)
        ensures
            *final(self) == (ConnectorMetrics {
                avg_response_time_ms: crate::blackboard::running_mean(
                    old(self).avg_response_time_ms,
                    old(self).spawn_count,
                    elapsed_ms,
                ),
                ..*old(self)
            }),
    {
        self.avg_response_time_ms = crate::blackboard::mean_step(
            self.avg_response_time_ms,
            self.spawn_count,
            elapsed_ms,
        );
    }

    /// Adds token usage (saturating).
    pub fn record_usage(&mut self, input_tokens: u64, output_tokens: u64)
        ensures
            *final(self) == (ConnectorMetrics {
                total_input_tokens: sat_sum(old(self).total_input_tokens, input_tokens),
                total_output_tokens: sat_sum(old(self).total_output_tokens, output_tokens),
                ..*old(self)
            }),
    {
        self.total_input_tokens = if self.total_input_tokens <= u64::MAX - input_tokens {
            self.total_input_tokens + input_tokens
        } else {
            u64::MAX
        };
        self.total_output_tokens = if self.total_output_tokens <= u64::MAX - output_tokens {
            self.total_output_tokens + output_tokens
        } else {
            u64::MAX
        };
    }
}

} // verus!
