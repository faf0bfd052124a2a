//! The connector for an Ollama model server: its configuration, the events a
//! chat reply yields, retry and health accounting, and the checks on an
//! embedding. The HTTP exchanges are the caller's part of an attempt.

use vstd::prelude::*;
use crate::connector_types::{ConnectorHealth, ConnectorMessage, ConnectorMetrics, EventView, sat_sum};
use crate::retry::{after_failure, capped_backoff, is_backoff};
use crate::text::{decimal, decimal_text, join2};

verus! {

/// Errors of the Ollama connector.
#[derive(Debug, Clone, PartialEq, Eq)]
pub enum OllamaError {
    /// The server could not be reached
    ConnectionError(String),
    /// The request failed or was answered with an error status
    RequestError(String),
    /// No answer in time
    Timeout,
    /// The answer could not be decoded
    ParseError(String),
    /// The model is not available
    ModelNotAvailable(String),
    /// Every attempt failed
    MaxRetriesExceeded,
}

impl OllamaError {
    /// A human-readable description.
    pub fn message(&self) -> (r: String)
        ensures
            self matches OllamaError::ConnectionError(s) ==> r@ == "Failed to connect to Ollama: "@ + s@,
            self matches OllamaError::RequestError(s) ==> r@ == "HTTP request failed: "@ + s@,
            self matches OllamaError::Timeout ==> r@ == "Timeout waiting for response"@,
            self matches OllamaError::ParseError(s) ==> r@ == "Failed to parse response: "@ + s@,
            self matches OllamaError::ModelNotAvailable(s) ==> r@ == "Model not available: "@ + s@,
            self matches OllamaError::MaxRetriesExceeded ==> r@ == "Max retries exceeded"@,
    {
        match self {
            OllamaError::ConnectionError(s) => join2("Failed to connect to Ollama: ", s.as_str()),
            OllamaError::RequestError(s) => join2("HTTP request failed: ", s.as_str()),
            OllamaError::Timeout => String::from_str("Timeout waiting for response"),
            OllamaError::ParseError(s) => join2("Failed to parse response: ", s.as_str()),
            OllamaError::ModelNotAvailable(s) => join2("Model not available: ", s.as_str()),
            OllamaError::MaxRetriesExceeded => String::from_str("Max retries exceeded"),
        }
    }
}

/// Configuration of the Ollama connector.
#[derive(Debug, Clone)]
pub struct OllamaConfig {
    /// Host address, with scheme
    pub host: String,
    /// Port
    pub port: u16,
    /// Timeout in milliseconds
    pub timeout_ms: u64,
    /// Attempts allowed before giving up
    pub max_retries: u32,
    /// Chat model
    pub chat_model: String,
    /// Embedding model
    pub embedding_model: String,
}

impl Default for OllamaConfig {
    fn default() -> (r: OllamaConfig)
        ensures
            r.host@ == "http://localhost"@,
            r.port == 11434,
            r.timeout_ms == 300000,
            r.max_retries == 3,
            r.chat_model@ == "llama2"@,
            r.embedding_model@ == "nomic-embed-text"@,
    {
        OllamaConfig {
            host: String::from_str("http://localhost"),
            port: 11434,
            timeout_ms: 300000,
            max_retries: 3,
            chat_model: String::from_str("llama2"),
            embedding_model: String::from_str("nomic-embed-text"),
        }
    }
}

/// The decoded answer to a generate request.
#[derive(Debug, Clone)]
pub struct ChatReply {
    pub response: String,
    pub prompt_eval_count: Option<u64>,
    pub eval_count: Option<u64>,
}

/// A count reported by the server, zero when absent.
pub open spec fn count_or_zero(c: Option<u64>) -> u64 {
    match c {
        Some(x) => x,
        None => 0,
    }
}

/// The events of a successful chat: the reply's text, its usage when a
/// count is non-zero, then `Done`.
pub open spec fn chat_events(reply: ChatReply) -> Seq<EventView> {
    let i = count_or_zero(reply.prompt_eval_count);
    let o = count_or_zero(reply.eval_count);
    if i > 0 || o > 0 {
        seq![EventView::Content(reply.response@), EventView::Usage(i, o), EventView::Done]
    } else {
        seq![EventView::Content(reply.response@), EventView::Done]
    }
}

/// The IEEE-754 single-precision pattern `bits` is a finite number.
pub open spec fn finite_bits(bits: u32) -> bool {
    (bits >> 23u32) & 0xffu32 != 0xffu32
}

/// Connector for an Ollama server.
pub struct OllamaConnector {
    config: OllamaConfig,
    metrics: ConnectorMetrics,
    health: ConnectorHealth,
}

impl OllamaConnector {
    /// The configuration.
    pub closed spec fn configuration(&self) -> OllamaConfig {
        self.config
    }

    /// The counters.
    pub closed spec fn counters(&self) -> ConnectorMetrics {
        self.metrics
    }

    /// The health.
    pub closed spec fn state(&self) -> ConnectorHealth {
        self.health
    }

    /// A healthy connector with zero counters.
    pub fn new(config: OllamaConfig) -> (r: OllamaConnector)
        ensures
            r.configuration() == config,
            r.counters() == ConnectorMetrics::new_spec(),
            r.state() == ConnectorHealth::Healthy,
    {
        OllamaConnector { config, metrics: ConnectorMetrics::new(), health: ConnectorHealth::Healthy }
    }

    /// The configuration.
    pub fn config(&self) -> (r: &OllamaConfig)
        ensures
            *r == self.configuration(),
    {
        &self.config
    }

    /// Current health.
    pub fn health(&self) -> (r: ConnectorHealth)
        ensures
            r == self.state(),
    {
        self.health.duplicate()
    }

    /// Current counters.
    pub fn metrics(&self) -> (r: ConnectorMetrics)
        ensures
            r == self.counters(),
    {
        self.metrics
    }

    /// Sets the health.
    pub fn update_health(&mut self, health: ConnectorHealth)
        ensures
            final(self).state() == health,
            final(self).configuration() == old(self).configuration(),
            final(self).counters() == old(self).counters(),
    {
        self.health = health;
    }

    /// The server's base address: `host:port`.
    pub fn base_url(&self) -> (r: String)
        ensures
            r@ == self.configuration().host@ + ":"@ + decimal(self.configuration().port as nat),
    {
        let mut s = join2(self.config.host.as_str(), ":");
        let port = decimal_text(self.config.port as u64);
        s.append(port.as_str());
        s
    }

    /// Address of an API path on the server: the base address, then `path`.
    pub fn endpoint(&self, path: &str) -> (r: String)
        ensures
            r@ == self.configuration().host@ + ":"@ + decimal(self.configuration().port as nat) + path@,
    {
        let mut s = self.base_url();
        s.append(path);
        s
    }

    /// Runs `attempt` until it succeeds or `max_retries` attempts have
    /// failed, pausing `100 ms * 2^(k - 1)` after failure `k`. When the
    /// retries are spent the connector is marked unhealthy and the call fails
    /// with `MaxRetriesExceeded`.
    pub fn request_with<T, A: Fn() -> Result<T, OllamaError>, P: Fn(u64)>(
        &mut self,
        attempt: A,
        pause: P,
    ) -> (r: Result<T, OllamaError>)
        requires
            attempt.requires(()),
            forall|ms: u64| is_backoff(ms) ==> #[trigger] pause.requires((ms,)),
        ensures
            final(self).configuration() == old(self).configuration(),
            final(self).counters() == old(self).counters(),
            r is Ok ==> final(self).state() == old(self).state(),
            r matches Ok(v) ==> attempt.ensures((), Ok::<T, OllamaError>(v)),
            (forall|o: Result<T, OllamaError>| #[trigger] attempt.ensures((), o) ==> o is Ok) ==> r is Ok,
            r is Err ==> r->Err_0 == OllamaError::MaxRetriesExceeded && final(self).state() is Unhealthy
                && exists|e: OllamaError| #[trigger] attempt.ensures((), Err::<T, OllamaError>(e)),
    {
        let max_retries = self.config.max_retries;
        let mut retries: u32 = 0;
        loop
            invariant
                self.config == old(self).config,
                self.metrics == old(self).metrics,
                self.health == old(self).health,
                max_retries == self.config.max_retries,
                attempt.requires(()),
                forall|ms: u64| is_backoff(ms) ==> #[trigger] pause.requires((ms,)),
                retries < max_retries || retries == 0,
            decreases max_retries - retries,
        {
            let outcome = attempt();
            match outcome {
                Ok(v) => {
                    return Ok(v);
                },
                Err(e) => {
                    retries = retries + 1;
                    match after_failure(retries, max_retries) {
                        None => {
                            self.health = ConnectorHealth::Unhealthy {
                                reason: join2("Max retries exceeded: ", e.message().as_str()),
                            };
                            return Err(OllamaError::MaxRetriesExceeded);
                        },
                        Some(ms) => {
                            assert(is_backoff(ms)) by {
                                assert(capped_backoff(retries as nat) == ms as nat);
                            }
                            pause(ms);
                        },
                    }
                },
            }
        }
    }

    /// Records the outcome of a health check and says whether the server
    /// answered.
    pub fn record_health_check(&mut self, outcome: Result<(), OllamaError>) -> (r: bool)
        ensures
            r == outcome is Ok,
            r ==> final(self).state() == ConnectorHealth::Healthy,
            !r ==> final(self).state() is Unhealthy,
            final(self).configuration() == old(self).configuration(),
            final(self).counters() == old(self).counters(),
    {
        match outcome {
            Ok(()) => {
                self.health = ConnectorHealth::Healthy;
                true
            },
            Err(e) => {
                self.health = ConnectorHealth::Unhealthy {
                    reason: join2("Health check failed: ", e.message().as_str()),
                };
                false
            },
        }
    }

    /// Records the outcome of a chat that took `elapsed_ms` and returns the
    /// events of its stream. A reply counts a success, adds its usage,
    /// updates the mean response time, marks the connector healthy and
    /// yields `chat_events`; a failure counts an error, marks the connector
    /// degraded and yields an `Error` event then `Done`.
    pub fn record_chat(&mut self, outcome: Result<ChatReply, OllamaError>, elapsed_ms: u64) -> (r: Vec<ConnectorMessage>)
        requires
            old(self).counters().balanced(),
        ensures
            final(self).counters().balanced(),
            final(self).configuration() == old(self).configuration(),
            match outcome {
                Ok(reply) => {
                    &&& r@.map_values(|m: ConnectorMessage| m@) == chat_events(reply)
                    &&& final(self).state() == ConnectorHealth::Healthy
                    &&& final(self).counters().total_input_tokens == sat_sum(
                        old(self).counters().total_input_tokens,
                        count_or_zero(reply.prompt_eval_count),
                    )
                    &&& final(self).counters().total_output_tokens == sat_sum(
                        old(self).counters().total_output_tokens,
                        count_or_zero(reply.eval_count),
                    )
                    &&& old(self).counters().spawn_count < u64::MAX ==> final(self).counters().success_count
                        == old(self).counters().success_count + 1 && final(self).counters().spawn_count
                        == old(self).counters().spawn_count + 1 && final(self).counters().error_count
                        == old(self).counters().error_count
                },
                Err(_) => {
                    &&& r@.len() == 2
                    &&& r@[0]@ is Error
                    &&& r@[1]@ == EventView::Done
                    &&& final(self).state() is Degraded
                    &&& old(self).counters().spawn_count < u64::MAX ==> final(self).counters().error_count
                        == old(self).counters().error_count + 1 && final(self).counters().spawn_count
                        == old(self).counters().spawn_count + 1 && final(self).counters().success_count
                        == old(self).counters().success_count
                    &&& final(self).counters().total_input_tokens == old(self).counters().total_input_tokens
                    &&& final(self).counters().total_output_tokens == old(self).counters().total_output_tokens
                },
            },
    {
        let mut events: Vec<ConnectorMessage> = Vec::new();
        match outcome {
            Ok(reply) => {
                let i = match reply.prompt_eval_count {
                    Some(x) => x,
                    None => 0,
                };
                let o = match reply.eval_count {
                    Some(x) => x,
                    None => 0,
                };
                self.metrics.record_attempt(true);
                self.metrics.record_usage(i, o);
                self.metrics.update_response_time(elapsed_ms);
                self.health = ConnectorHealth::Healthy;
                let ghost text = reply.response@;
                events.push(ConnectorMessage::Content { content: reply.response });
                if i > 0 || o > 0 {
                    events.push(ConnectorMessage::Usage { input_tokens: i, output_tokens: o });
                }
                events.push(ConnectorMessage::Done);
                proof {
                    assert(events@.map_values(|m: ConnectorMessage| m@) =~= chat_events(reply));
                }
            },
            Err(e) => {
                self.metrics.record_attempt(false);
                let text = e.message();
                self.health = ConnectorHealth::Degraded { reason: join2("Chat failed: ", text.as_str()) };
                events.push(ConnectorMessage::Error { message: join2("Chat error: ", text.as_str()) });
                events.push(ConnectorMessage::Done);
            },
        }
        events
    }

    /// Records a successful embedding request that took `elapsed_ms`: one
    /// more spawn and success, and the mean response time updated.
    pub fn record_embedding(&mut self, elapsed_ms: u64)
        requires
            old(self).counters().balanced(),
        ensures
            final(self).counters().balanced(),
            final(self).configuration() == old(self).configuration(),
            final(self).state() == old(self).state(),
            old(self).counters().spawn_count < u64::MAX ==> final(self).counters().success_count
                == old(self).counters().success_count + 1 && final(self).counters().spawn_count
                == old(self).counters().spawn_count + 1,
    {
        self.metrics.record_attempt(true);
        self.metrics.update_response_time(elapsed_ms);
    }

    /// Accepts or rejects an embedding the server returned after
    /// `elapsed_ms`: a usable one (see `validate_embedding`) is recorded as a
    /// successful request; an unusable one is a parse failure and records
    /// nothing.
    pub fn accept_embedding(&mut self, embedding: Vec<u32>, elapsed_ms: u64) -> (r: Result<Vec<u32>, OllamaError>)
        requires
            old(self).counters().balanced(),
        ensures
            final(self).counters().balanced(),
            final(self).configuration() == old(self).configuration(),
            final(self).state() == old(self).state(),
            (r is Ok) == (embedding@.len() > 0 && forall|i: int|
                0 <= i < embedding@.len() ==> finite_bits(#[trigger] embedding@[i])),
            r matches Ok(v) ==> v@ == embedding@,
            r is Err ==> r->Err_0 is ParseError && final(self).counters() == old(self).counters(),
            r is Ok && old(self).counters().spawn_count < u64::MAX ==> final(self).counters().success_count
                == old(self).counters().success_count + 1 && final(self).counters().spawn_count
                == old(self).counters().spawn_count + 1,
    {
        if !Self::validate_embedding(&embedding) {
            return Err(OllamaError::ParseError(String::from_str("embedding is empty or not finite")));
        }
        self.record_embedding(elapsed_ms);
        Ok(embedding)
    }

    /// Whether an embedding (the bit patterns of its `f32` components) is
    /// usable: non-empty, and every component finite.
    pub fn validate_embedding(embedding: &Vec<u32>) -> (r: bool)
        ensures
            r == (embedding@.len() > 0 && forall|i: int|
                0 <= i < embedding@.len() ==> finite_bits(#[trigger] embedding@[i])),
    {
        if embedding.len() == 0 {
            return false;
        }
        let mut i: usize = 0;
        while i < embedding.len()
            invariant
                i <= embedding@.len(),
                forall|j: int| 0 <= j < i ==> finite_bits(#[trigger] embedding@[j]),
            decreases embedding@.len() - i,
        {
            if (embedding[i] >> 23u32) & 0xffu32 == 0xffu32 {
                return false;
            }
            i = i + 1;
        }
        true
    }
}

} // verus!
