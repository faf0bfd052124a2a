//! The scheduler: passes over the registered agents, one message per agent
//! per pass, with retry and backoff, under three loop guards.

use vstd::prelude::*;
use crate::agent::{AgentConfig, AgentId, AgentMessage, AgentStatus};
use crate::mailbox::MessageBus;
use crate::registry::AgentRegistry;
use crate::retry::{after_failure, attempt_limit, capped_backoff, is_backoff};
use crate::mailbox::{is_top, sat_inc};
use crate::agent::same_message;

verus! {

broadcast use vstd::std_specs::hash::group_hash_axioms;

/// Limits that stop a scheduling run.
#[derive(Debug, Clone, Copy, PartialEq, Eq, Structural)]
pub struct LoopGuard {
    /// Maximum passes before stopping
    pub max_iterations: u32,
    /// Maximum messages processed for one agent
    pub max_messages_per_agent: u32,
    /// Maximum run time in milliseconds
    pub max_execution_time_ms: u64,
}

impl Default for LoopGuard {
    fn default() -> (r: LoopGuard)
        ensures
            r == (LoopGuard {
                max_iterations: 100,
                max_messages_per_agent: 50,
                max_execution_time_ms: 600000,
            }),
    {
        LoopGuard { max_iterations: 100, max_messages_per_agent: 50, max_execution_time_ms: 600000 }
    }
}

/// Why a scheduling run stopped.
#[derive(Debug, Clone)]
pub enum StopReason {
    /// Every mailbox drained, or no agent registered
    Completed,
    /// The pass limit was reached
    MaxIterations,
    /// An agent reached its message limit
    MaxMessagesPerAgent { agent_id: AgentId, count: u32 },
    /// The time limit was reached
    MaxExecutionTime,
    /// An agent's message failed after its retries
    AgentError { agent_id: AgentId, error: String },
    /// A stop was requested
    ManualStop,
}

/// Counters of the scheduler.
#[derive(Debug, Clone)]
pub struct OrchestratorMetrics {
    pub total_iterations: u32,
    pub total_messages: u64,
    pub messages_per_agent: std::collections::HashMap<AgentId, u32>,
    pub retry_count: u64,
    pub error_count: u64,
    pub queue_depth: usize,
}

impl OrchestratorMetrics {
    /// All counters zero.
    pub fn new() -> (r: OrchestratorMetrics)
        ensures
            r.total_iterations == 0,
            r.total_messages == 0,
            r.messages_per_agent@ == Map::<AgentId, u32>::empty(),
            r.retry_count == 0,
            r.error_count == 0,
            r.queue_depth == 0,
    {
        OrchestratorMetrics {
            total_iterations: 0,
            total_messages: 0,
            messages_per_agent: std::collections::HashMap::new(),
            retry_count: 0,
            error_count: 0,
            queue_depth: 0,
        }
    }

    /// A copy of these counters.
    pub fn duplicate(&self) -> (r: OrchestratorMetrics)
        ensures
            r.total_iterations == self.total_iterations,
            r.total_messages == self.total_messages,
            r.messages_per_agent@ == self.messages_per_agent@,
            r.retry_count == self.retry_count,
            r.error_count == self.error_count,
            r.queue_depth == self.queue_depth,
    {
        OrchestratorMetrics {
            total_iterations: self.total_iterations,
            total_messages: self.total_messages,
            messages_per_agent: self.messages_per_agent.clone(),
            retry_count: self.retry_count,
            error_count: self.error_count,
            queue_depth: self.queue_depth,
        }
    }
}

/// Messages processed so far for `id`.
pub open spec fn processed(m: Map<AgentId, u32>, id: AgentId) -> u32 {
    if m.contains_key(id) {
        m[id]
    } else {
        0
    }
}

/// Every agent has processed at most `max` messages.
pub open spec fn counts_within(m: Map<AgentId, u32>, max: u32) -> bool {
    forall|id: AgentId| #[trigger] processed(m, id) <= max
}

/// Time elapsed from `start` to `now` (zero when the clock went back).
pub open spec fn elapsed(start: u64, now: u64) -> u64 {
    if now >= start {
        (now - start) as u64
    } else {
        0
    }
}

/// The stop decided before a pass, checked in this order: a stop was asked
/// for; `passes` reached the pass limit; the time since `start` reached the
/// time limit; no agent is registered.
pub open spec fn stop_before(guard: LoopGuard, asked: bool, passes: u32, start: u64, now: u64, agents: nat) -> Option<StopReason> {
    if asked {
        Some(StopReason::ManualStop)
    } else if passes >= guard.max_iterations {
        Some(StopReason::MaxIterations)
    } else if elapsed(start, now) >= guard.max_execution_time_ms {
        Some(StopReason::MaxExecutionTime)
    } else if agents == 0 {
        Some(StopReason::Completed)
    } else {
        None
    }
}

/// The stop decided before a pass; see `stop_before`.
pub fn stop_before_pass(guard: &LoopGuard, asked: bool, passes: u32, start: u64, now: u64, agents: usize) -> (r: Option<StopReason>)
    ensures
        r == stop_before(*guard, asked, passes, start, now, agents as nat),
{
    if asked {
        return Some(StopReason::ManualStop);
    }
    if passes >= guard.max_iterations {
        return Some(StopReason::MaxIterations);
    }
    let spent = if now >= start {
        now - start
    } else {
        0
    };
    if spent >= guard.max_execution_time_ms {
        return Some(StopReason::MaxExecutionTime);
    }
    if agents == 0 {
        return Some(StopReason::Completed);
    }
    None
}

/// The stop decided for an agent that has processed `count` messages: at
/// the per-agent limit the run stops.
pub fn stop_for_agent(guard: &LoopGuard, agent_id: AgentId, count: u32) -> (r: Option<StopReason>)
    ensures
        count >= guard.max_messages_per_agent <==> r is Some,
        r is Some ==> r == Some(StopReason::MaxMessagesPerAgent { agent_id, count }),
{
    if count >= guard.max_messages_per_agent {
        Some(StopReason::MaxMessagesPerAgent { agent_id, count })
    } else {
        None
    }
}

/// The stop decided after a pass: `Completed` when the pass processed
/// nothing and no message is queued.
pub fn stop_after_pass(processed_any: bool, depth: usize) -> (r: Option<StopReason>)
    ensures
        r is Some <==> !processed_any && depth == 0,
        r is Some ==> r == Some(StopReason::Completed),
{
    if !processed_any && depth == 0 {
        Some(StopReason::Completed)
    } else {
        None
    }
}

/// Messages queued for `id` in the mailboxes `m` (zero without a mailbox).
pub open spec fn queued(m: Map<AgentId, Seq<AgentMessage>>, id: AgentId) -> nat {
    if m.contains_key(id) {
        m[id].len()
    } else {
        0
    }
}

/// The agent an `AgentError` stop names (zero for other outcomes).
pub open spec fn failed_agent(r: Result<StopReason, String>) -> AgentId {
    match r {
        Ok(StopReason::AgentError { agent_id, .. }) => agent_id,
        _ => 0,
    }
}

/// The agent a `MaxMessagesPerAgent` stop names (zero for other outcomes).
pub open spec fn limited_agent(r: Result<StopReason, String>) -> AgentId {
    match r {
        Ok(StopReason::MaxMessagesPerAgent { agent_id, .. }) => agent_id,
        _ => 0,
    }
}

/// The run stopped in the middle of a pass.
pub open spec fn stopped_mid_pass(r: Result<StopReason, String>) -> bool {
    r matches Ok(StopReason::MaxMessagesPerAgent { .. }) || r matches Ok(StopReason::AgentError { .. })
}

/// The pauses the scheduler makes: `PASS_PAUSE_MS` between passes, and a
/// backoff after a failed attempt.
pub open spec fn scheduler_pause(ms: u64) -> bool {
    ms == PASS_PAUSE_MS || is_backoff(ms)
}

/// Every run of `execute` succeeds.
pub open spec fn always_succeeds<E: Fn(AgentId, AgentMessage, u64) -> Result<(), String>>(execute: E) -> bool {
    forall|a: AgentId, m: AgentMessage, t: u64, o: Result<(), String>|
        #[trigger] execute.ensures((a, m, t), o) ==> o is Ok
}

/// `stop_requested` never asks for a stop.
pub open spec fn never_stops<S: Fn() -> bool>(stop_requested: S) -> bool {
    forall|b: bool| #[trigger] stop_requested.ensures((), b) ==> !b
}

/// No two readings of `clock` are `limit` or more apart.
pub open spec fn clock_within<C: Fn() -> u64>(clock: C, limit: u64) -> bool {
    forall|t1: u64, t2: u64|
        #[trigger] clock.ensures((), t1) && #[trigger] clock.ensures((), t2) ==> elapsed(t1, t2) < limit
}

/// Pause between two passes, in milliseconds.
pub const PASS_PAUSE_MS: u64 = 10;

/// Schedules the registered agents' messages.
///
/// The work outside the scheduler's own state is handed in by the caller:
/// `execute(agent, message, timeout_ms)` runs one message for an agent
/// within the timeout; `pause(ms)` waits; `clock()` reads a monotonic clock
/// in milliseconds; `stop_requested()` says whether a stop was asked for.
pub struct Orchestrator {
    registry: AgentRegistry,
    message_bus: MessageBus,
    loop_guard: LoopGuard,
    metrics: OrchestratorMetrics,
    running: bool,
}

impl Orchestrator {
    /// Internal consistency of the registry and the bus.
    pub closed spec fn wf(&self) -> bool {
        self.registry.wf() && self.message_bus.wf()
    }

    /// Every registered agent has a mailbox (the bus holds one per agent).
    pub open spec fn mailbox_for_each_agent(&self) -> bool {
        forall|id: AgentId| #[trigger] self.agents()@.contains_key(id) ==> self.bus()@.contains_key(id)
    }

    /// A run from this state can drain every mailbox: each mailbox belongs
    /// to a registered agent, the pass limit exceeds the queued messages, no
    /// agent can reach its message limit by processing all of them, and the
    /// counters cannot overflow.
    pub open spec fn drainable(&self) -> bool {
        &&& forall|id: AgentId| #[trigger] self.bus()@.contains_key(id) ==> self.agents()@.contains_key(id)
        &&& self.guard().max_iterations > self.bus().depth()
        &&& forall|id: AgentId|
            #[trigger] processed(self.counters().messages_per_agent@, id) + self.bus().depth()
                < self.guard().max_messages_per_agent
        &&& self.counters().total_messages + self.bus().depth() <= u64::MAX
        &&& self.bus().received() + self.bus().depth() <= u64::MAX
    }

    /// The registry.
    pub closed spec fn agents(&self) -> AgentRegistry {
        self.registry
    }

    /// The message bus.
    pub closed spec fn bus(&self) -> MessageBus {
        self.message_bus
    }

    /// The loop guard.
    pub closed spec fn guard(&self) -> LoopGuard {
        self.loop_guard
    }

    /// The counters.
    pub closed spec fn counters(&self) -> OrchestratorMetrics {
        self.metrics
    }

    /// Whether a run is in progress.
    pub closed spec fn is_running(&self) -> bool {
        self.running
    }

    /// A scheduler over `registry` and `message_bus` with the default loop
    /// guard and zero counters.
    pub fn new(registry: AgentRegistry, message_bus: MessageBus) -> (r: Orchestrator)
        requires
            registry.wf(),
            message_bus.wf(),
        ensures
            r.wf(),
            r.agents() == registry,
            r.bus() == message_bus,
            r.guard() == (LoopGuard {
                max_iterations: 100,
                max_messages_per_agent: 50,
                max_execution_time_ms: 600000,
            }),
            r.counters().total_messages == 0,
            r.counters().messages_per_agent@ == Map::<AgentId, u32>::empty(),
            !r.is_running(),
    {
        Orchestrator {
            registry,
            message_bus,
            loop_guard: LoopGuard::default(),
            metrics: OrchestratorMetrics::new(),
            running: false,
        }
    }

    /// This scheduler with `guard` as its loop guard.
    pub fn with_loop_guard(self, guard: LoopGuard) -> (r: Orchestrator)
        ensures
            r.guard() == guard,
            r.agents() == self.agents(),
            r.bus() == self.bus(),
            r.counters() == self.counters(),
            r.is_running() == self.is_running(),
            self.wf() ==> r.wf(),
    {
        let mut o = self;
        o.loop_guard = guard;
        o
    }

    /// The registry.
    pub fn registry(&self) -> (r: &AgentRegistry)
        ensures
            *r == self.agents(),
    {
        &self.registry
    }

    /// The message bus.
    pub fn message_bus(&self) -> (r: &MessageBus)
        ensures
            *r == self.bus(),
    {
        &self.message_bus
    }

    /// Registers an agent and gives it an empty mailbox; returns its
    /// identifier.
    pub fn register_agent(&mut self, config: AgentConfig) -> (r: AgentId)
        requires
            old(self).wf(),
        ensures
            final(self).wf(),
            !old(self).agents()@.contains_key(r),
            final(self).agents()@.contains_key(r),
            final(self).agents()@.dom() == old(self).agents()@.dom().insert(r),
            final(self).bus()@ == old(self).bus()@.insert(r, Seq::<AgentMessage>::empty()),
            old(self).mailbox_for_each_agent() ==> final(self).mailbox_for_each_agent(),
    {
        let id = self.registry.register(config);
        self.message_bus.create_mailbox(id);
        proof {
            assert(self.registry@.dom() =~= old(self).registry@.dom().insert(id));
        }
        id
    }

    /// Unregisters an agent and removes its mailbox; says whether it was
    /// registered.
    pub fn unregister_agent(&mut self, agent_id: AgentId) -> (r: bool)
        requires
            old(self).wf(),
        ensures
            final(self).wf(),
            r == old(self).agents()@.contains_key(agent_id),
            !final(self).agents()@.contains_key(agent_id),
            r ==> !final(self).bus()@.contains_key(agent_id),
            final(self).agents()@ == old(self).agents()@.remove(agent_id),
            old(self).mailbox_for_each_agent() ==> final(self).mailbox_for_each_agent(),
    {
        let removed = self.registry.unregister(agent_id);
        if removed {
            self.message_bus.remove_mailbox(agent_id);
        }
        removed
    }

    /// Sends a message through the bus.
    pub fn send(&mut self, message: AgentMessage) -> (r: Result<(), String>)
        requires
            old(self).wf(),
        ensures
            final(self).wf(),
            r is Ok <==> old(self).bus()@.contains_key(message.to),
            final(self).agents() == old(self).agents(),
            final(self).bus()@.dom() == old(self).bus()@.dom(),
    {
        self.message_bus.send(message)
    }

    /// Asks a run in progress to stop at its next check.
    pub fn stop(&mut self)
        ensures
            !final(self).is_running(),
            final(self).agents() == old(self).agents(),
            final(self).bus() == old(self).bus(),
    {
        self.running = false;
    }

    /// A copy of the counters.
    pub fn metrics(&self) -> (r: OrchestratorMetrics)
        ensures
            r.total_iterations == self.counters().total_iterations,
            r.total_messages == self.counters().total_messages,
            r.messages_per_agent@ == self.counters().messages_per_agent@,
            r.retry_count == self.counters().retry_count,
            r.error_count == self.counters().error_count,
            r.queue_depth == self.counters().queue_depth,
    {
        self.metrics.duplicate()
    }

    /// Sets every counter back to zero.
    pub fn reset_metrics(&mut self)
        ensures
            final(self).counters().total_iterations == 0,
            final(self).counters().total_messages == 0,
            final(self).counters().messages_per_agent@ == Map::<AgentId, u32>::empty(),
            final(self).counters().retry_count == 0,
            final(self).counters().error_count == 0,
            final(self).counters().queue_depth == 0,
            final(self).agents() == old(self).agents(),
            final(self).bus() == old(self).bus(),
    {
        self.metrics = OrchestratorMetrics::new();
    }

    /// Runs one message through `execute` with the agent's timeout, retrying
    /// after each failure with exponential backoff until `max_retries`
    /// failures (at least one attempt). Counts a retry for each backoff and
    /// an error when the retries are spent.
    fn execute_with_retry<E: Fn(AgentId, AgentMessage, u64) -> Result<(), String>, P: Fn(u64)>(
        &mut self,
        agent_id: AgentId,
        message: &AgentMessage,
        config: &AgentConfig,
        execute: &E,
        pause: &P,
    ) -> (r: Result<(), String>)
        requires
            forall|a: AgentId, m: AgentMessage, t: u64| execute.requires((a, m, t)),
            forall|ms: u64| scheduler_pause(ms) ==> #[trigger] pause.requires((ms,)),
        ensures
            final(self).registry == old(self).registry,
            final(self).message_bus == old(self).message_bus,
            final(self).loop_guard == old(self).loop_guard,
            final(self).running == old(self).running,
            final(self).metrics.messages_per_agent == old(self).metrics.messages_per_agent,
            final(self).metrics.total_messages == old(self).metrics.total_messages,
            final(self).metrics.total_iterations == old(self).metrics.total_iterations,
            final(self).metrics.queue_depth == old(self).metrics.queue_depth,
            final(self).metrics.retry_count >= old(self).metrics.retry_count,
            r is Ok ==> final(self).metrics.error_count == old(self).metrics.error_count
                && exists|m: AgentMessage, o: Result<(), String>|
                #[trigger] execute.ensures((agent_id, m, config.timeout_ms), o) && o is Ok && same_message(
                    m,
                    *message,
                ),
            r is Err ==> final(self).metrics.error_count == sat_inc(old(self).metrics.error_count)
                && exists|m: AgentMessage, o: Result<(), String>|
                #[trigger] execute.ensures((agent_id, m, config.timeout_ms), o) && o is Err && same_message(
                    m,
                    *message,
                ),
            (forall|a: AgentId, m: AgentMessage, t: u64, o: Result<(), String>|
                #[trigger] execute.ensures((a, m, t), o) ==> o is Ok) ==> r is Ok
                && final(self).metrics.retry_count == old(self).metrics.retry_count,
            old(self).metrics.retry_count + attempt_limit(config.max_retries) <= u64::MAX ==> {
                &&& r is Ok ==> final(self).metrics.retry_count < old(self).metrics.retry_count
                    + attempt_limit(config.max_retries)
                &&& r is Err ==> final(self).metrics.retry_count == old(self).metrics.retry_count
                    + attempt_limit(config.max_retries) - 1
            },
    {
        let mut retries: u32 = 0;
        loop
            invariant
                forall|a: AgentId, m: AgentMessage, t: u64| execute.requires((a, m, t)),
                forall|ms: u64| scheduler_pause(ms) ==> #[trigger] pause.requires((ms,)),
                retries < config.max_retries || retries == 0,
                self.registry == old(self).registry,
                self.message_bus == old(self).message_bus,
                self.loop_guard == old(self).loop_guard,
                self.running == old(self).running,
                self.metrics.messages_per_agent == old(self).metrics.messages_per_agent,
                self.metrics.total_messages == old(self).metrics.total_messages,
                self.metrics.total_iterations == old(self).metrics.total_iterations,
                self.metrics.queue_depth == old(self).metrics.queue_depth,
                self.metrics.error_count == old(self).metrics.error_count,
                self.metrics.retry_count >= old(self).metrics.retry_count,
                old(self).metrics.retry_count + attempt_limit(config.max_retries) <= u64::MAX
                    ==> self.metrics.retry_count == old(self).metrics.retry_count + retries,
                (forall|a: AgentId, m: AgentMessage, t: u64, o: Result<(), String>|
                    #[trigger] execute.ensures((a, m, t), o) ==> o is Ok) ==> retries == 0
                    && self.metrics.retry_count == old(self).metrics.retry_count,
            decreases config.max_retries - retries,
        {
            let copy = message.duplicate();
            let ghost handed = copy;
            let outcome = execute(agent_id, copy, config.timeout_ms);
            assert(execute.ensures((agent_id, handed, config.timeout_ms), outcome));
            match outcome {
                Ok(()) => {
                    return Ok(());
                },
                Err(e) => {
                    retries = retries + 1;
                    match after_failure(retries, config.max_retries) {
                        None => {
                            if self.metrics.error_count < u64::MAX {
                                self.metrics.error_count = self.metrics.error_count + 1;
                            }
                            let mut text = String::from_str("Max retries exceeded: ");
                            text.append(e.as_str());
                            return Err(text);
                        },
                        Some(ms) => {
                            assert(scheduler_pause(ms)) by {
                                assert(capped_backoff(retries as nat) == ms as nat);
                            }
                            if self.metrics.retry_count < u64::MAX {
                                self.metrics.retry_count = self.metrics.retry_count + 1;
                            }
                            pause(ms);
                        },
                    }
                },
            }
        }
    }

    /// Pops the next message of `agent_id`, a registered agent, marks the
    /// agent Processing and runs the message with its configuration. On
    /// success the agent is Idle again, the message counts as received and as
    /// processed (for the agent and in total); on failure the agent is
    /// Failed. `None`, changing nothing, when the agent's mailbox is missing
    /// or empty.
    fn process_agent_message<E: Fn(AgentId, AgentMessage, u64) -> Result<(), String>, P: Fn(u64)>(
        &mut self,
        agent_id: AgentId,
        execute: &E,
        pause: &P,
    ) -> (r: Option<Result<(), String>>)
        requires
            old(self).wf(),
            old(self).registry@.contains_key(agent_id),
            forall|a: AgentId, m: AgentMessage, t: u64| execute.requires((a, m, t)),
            forall|ms: u64| scheduler_pause(ms) ==> #[trigger] pause.requires((ms,)),
        ensures
            final(self).wf(),
            final(self).registry@.dom() == old(self).registry@.dom(),
            final(self).message_bus@.dom() == old(self).message_bus@.dom(),
            final(self).loop_guard == old(self).loop_guard,
            final(self).running == old(self).running,
            final(self).metrics.total_iterations == old(self).metrics.total_iterations,
            final(self).metrics.error_count >= old(self).metrics.error_count,
            final(self).metrics.retry_count >= old(self).metrics.retry_count,
            r is None <==> !old(self).message_bus@.contains_key(agent_id) || old(
                self,
            ).message_bus@[agent_id].len() == 0,
            r is None ==> final(self).message_bus@ == old(self).message_bus@ && final(self).registry@
                == old(self).registry@ && final(self).message_bus.received() == old(
                self,
            ).message_bus.received() && final(self).metrics.error_count == old(self).metrics.error_count
                && final(self).metrics.total_messages == old(self).metrics.total_messages,
            r is None ==> final(self).message_bus.depth() == old(self).message_bus.depth(),
            r is Some ==> final(self).message_bus.depth() + 1 == old(self).message_bus.depth(),
            r is Some ==> exists|i: int|
                #[trigger] is_top(old(self).message_bus@[agent_id], i) && final(self).message_bus@
                    == old(self).message_bus@.insert(
                    agent_id,
                    old(self).message_bus@[agent_id].remove(i),
                ),
            r matches Some(res) ==> exists|i: int, m: AgentMessage, o: Result<(), String>|
                #![trigger is_top(old(self).message_bus@[agent_id], i), execute.ensures((agent_id, m, old(self).registry@[agent_id].1.timeout_ms), o)]
                is_top(old(self).message_bus@[agent_id], i) && same_message(
                    m,
                    old(self).message_bus@[agent_id][i],
                ) && execute.ensures((agent_id, m, old(self).registry@[agent_id].1.timeout_ms), o)
                    && (o is Ok <==> res is Ok),
            r matches Some(Ok(())) ==> final(self).registry@[agent_id].0.status == AgentStatus::Idle
                && final(self).message_bus.received() == sat_inc(old(self).message_bus.received())
                && final(self).metrics.total_messages == sat_inc(old(self).metrics.total_messages)
                && final(self).metrics.error_count == old(self).metrics.error_count,
            r matches Some(Err(_)) ==> exists|m: AgentMessage, t: u64, o: Result<(), String>|
                #[trigger] execute.ensures((agent_id, m, t), o) && o is Err,
            r matches Some(Err(_)) ==> final(self).registry@[agent_id].0.status is Failed
                && final(self).message_bus.received() == old(self).message_bus.received()
                && final(self).metrics.total_messages == old(self).metrics.total_messages
                && final(self).metrics.error_count == sat_inc(old(self).metrics.error_count),
            r matches Some(Ok(())) ==> final(self).metrics.messages_per_agent@ == old(
                self,
            ).metrics.messages_per_agent@.insert(
                agent_id,
                if processed(old(self).metrics.messages_per_agent@, agent_id) < u32::MAX {
                    (processed(old(self).metrics.messages_per_agent@, agent_id) + 1) as u32
                } else {
                    u32::MAX
                },
            ),
            !(r matches Some(Ok(()))) ==> final(self).metrics.messages_per_agent@ == old(
                self,
            ).metrics.messages_per_agent@,
    {
        let message = match self.message_bus.pop_from(agent_id) {
            Some(m) => m,
            None => {
                return None;
            },
        };
        self.registry.update_status(agent_id, AgentStatus::Processing);
        let config = match self.registry.get_config(agent_id) {
            Some(c) => c,
            None => {
                return Some(Err(String::from_str("Agent has no configuration")));
            },
        };
        let ghost popped = message;
        let result = self.execute_with_retry(agent_id, &message, &config, execute, pause);
        proof {
            let pi = choose|pi: int| #[trigger] is_top(old(self).message_bus@[agent_id], pi)
                && old(self).message_bus@[agent_id][pi] == popped && self.message_bus@ == old(
                self,
            ).message_bus@.insert(agent_id, old(self).message_bus@[agent_id].remove(pi));
            assert(is_top(old(self).message_bus@[agent_id], pi));
        }
        match &result {
            Ok(()) => {
                self.registry.update_status(agent_id, AgentStatus::Idle);
                self.message_bus.mark_received();
                let count: u32 = match self.metrics.messages_per_agent.get(&agent_id) {
                    Some(c) => *c,
                    None => 0,
                };
                let next = if count < u32::MAX {
                    count + 1
                } else {
                    u32::MAX
                };
                self.metrics.messages_per_agent.insert(agent_id, next);
                if self.metrics.total_messages < u64::MAX {
                    self.metrics.total_messages = self.metrics.total_messages + 1;
                }
            },
            Err(_) => {
                self.registry.update_status(
                    agent_id,
                    AgentStatus::Failed { reason: String::from_str("Processing failed") },
                );
            },
        }
        proof {
            assert(self.registry@.dom() =~= old(self).registry@.dom());
        }
        Some(result)
    }

    /// The scheduling loop. Each pass: `stop_before_pass` decides whether to
    /// stop (stop requested, pass limit, time limit, no agent); then, for each
    /// agent, `stop_for_agent` stops the run when the agent has reached
    /// `max_messages_per_agent`, else at most one of its messages is processed
    /// (an exhausted retry stops the run); after the pass `stop_after_pass`
    /// stops `Completed` when nothing was processed and every mailbox is
    /// empty; else it pauses and goes on. `total_iterations` counts the
    /// passes completed in this run. The run always ends.
    fn run<
        E: Fn(AgentId, AgentMessage, u64) -> Result<(), String>,
        P: Fn(u64),
        C: Fn() -> u64,
        S: Fn() -> bool,
    >(&mut self, execute: E, pause: P, clock: C, stop_requested: S) -> (r: Result<StopReason, String>)
        requires
            old(self).wf(),
            forall|a: AgentId, m: AgentMessage, t: u64| execute.requires((a, m, t)),
            forall|ms: u64| scheduler_pause(ms) ==> #[trigger] pause.requires((ms,)),
            clock.requires(()),
            stop_requested.requires(()),
        ensures
            final(self).wf(),
            r is Ok,
            final(self).agents()@.dom() == old(self).agents()@.dom(),
            final(self).bus()@.dom() == old(self).bus()@.dom(),
            final(self).guard() == old(self).guard(),
            final(self).counters().total_iterations <= final(self).guard().max_iterations,
            r matches Ok(StopReason::MaxIterations) ==> final(self).counters().total_iterations
                == final(self).guard().max_iterations,
            r matches Ok(StopReason::Completed) ==> final(self).agents()@.dom().len() == 0
                || final(self).bus().depth() == 0,
            r matches Ok(StopReason::MaxMessagesPerAgent { agent_id, count }) ==> count
                >= final(self).guard().max_messages_per_agent && count == processed(
                final(self).counters().messages_per_agent@,
                agent_id,
            ),
            counts_within(old(self).counters().messages_per_agent@, old(self).guard().max_messages_per_agent)
                ==> counts_within(final(self).counters().messages_per_agent@, final(self).guard().max_messages_per_agent)
                && (r matches Ok(StopReason::MaxMessagesPerAgent { count, .. }) ==> count
                == final(self).guard().max_messages_per_agent),
            r matches Ok(StopReason::AgentError { .. }) && old(self).counters().error_count < u64::MAX
                ==> final(self).counters().error_count > old(self).counters().error_count,
            final(self).counters().error_count >= old(self).counters().error_count,
            r matches Ok(StopReason::ManualStop) ==> !final(self).is_running(),
            r matches Ok(StopReason::MaxMessagesPerAgent { .. }) ==> final(self).agents()@.contains_key(
                limited_agent(r),
            ),
            forall|x: AgentId|
                #[trigger] processed(final(self).counters().messages_per_agent@, x) <= processed(
                    old(self).counters().messages_per_agent@,
                    x,
                ) + final(self).counters().total_iterations + 1,
            !stopped_mid_pass(r) ==> forall|x: AgentId|
                #[trigger] processed(final(self).counters().messages_per_agent@, x) <= processed(
                    old(self).counters().messages_per_agent@,
                    x,
                ) + final(self).counters().total_iterations,
            r matches Ok(StopReason::AgentError { .. }) ==> exists|m: AgentMessage, t: u64, o: Result<(), String>|
                #[trigger] execute.ensures((failed_agent(r), m, t), o) && o is Err,
            r matches Ok(StopReason::Completed) ==> final(self).agents()@.dom().len() == 0
                || old(self).bus().depth() <= final(self).counters().total_iterations as nat
                * final(self).agents()@.dom().len(),
            (forall|a: AgentId, m: AgentMessage, t: u64, o: Result<(), String>|
                #[trigger] execute.ensures((a, m, t), o) ==> o is Ok) ==> !(r matches Ok(
                StopReason::AgentError { .. },
            )),
            (forall|b: bool| #[trigger] stop_requested.ensures((), b) ==> !b) ==> !(r matches Ok(
                StopReason::ManualStop,
            )),
            (forall|t1: u64, t2: u64|
                #[trigger] clock.ensures((), t1) && #[trigger] clock.ensures((), t2) ==> elapsed(t1, t2)
                    < old(self).guard().max_execution_time_ms) ==> !(r matches Ok(
                StopReason::MaxExecutionTime,
            )),
            always_succeeds(execute) && never_stops(stop_requested) && clock_within(
                clock,
                old(self).guard().max_execution_time_ms,
            ) && old(self).drainable() ==> {
                &&& r matches Ok(StopReason::Completed)
                &&& final(self).bus().depth() == 0
                &&& final(self).counters().total_messages == old(self).counters().total_messages + old(
                    self,
                ).bus().depth()
                &&& forall|id: AgentId|
                    #[trigger] old(self).agents()@.contains_key(id) ==> processed(
                        final(self).counters().messages_per_agent@,
                        id,
                    ) == processed(old(self).counters().messages_per_agent@, id) + queued(
                        old(self).bus()@,
                        id,
                    )
            },
    {
        self.running = true;
        self.metrics.total_iterations = 0;
        let start_ms = clock();
        let ghost n: nat = old(self).registry@.dom().len();
        let ghost ideal = always_succeeds(execute) && never_stops(stop_requested) && clock_within(
            clock,
            old(self).loop_guard.max_execution_time_ms,
        ) && old(self).drainable();
        let mut iterations: u32 = 0;
        loop
            invariant
                self.wf(),
                forall|a: AgentId, m: AgentMessage, t: u64| execute.requires((a, m, t)),
                forall|ms: u64| scheduler_pause(ms) ==> #[trigger] pause.requires((ms,)),
                clock.requires(()),
                stop_requested.requires(()),
                iterations <= self.loop_guard.max_iterations,
                self.metrics.total_iterations == iterations,
                self.registry@.dom() == old(self).registry@.dom(),
                self.message_bus@.dom() == old(self).message_bus@.dom(),
                self.loop_guard == old(self).loop_guard,
                self.metrics.error_count >= old(self).metrics.error_count,
                counts_within(old(self).metrics.messages_per_agent@, old(self).loop_guard.max_messages_per_agent)
                    ==> counts_within(self.metrics.messages_per_agent@, self.loop_guard.max_messages_per_agent),
                self.running,
                forall|x: AgentId|
                    #[trigger] processed(self.metrics.messages_per_agent@, x) <= processed(
                        old(self).metrics.messages_per_agent@,
                        x,
                    ) + iterations,
                clock.ensures((), start_ms),
                n == old(self).registry@.dom().len(),
                old(self).message_bus.depth() <= self.message_bus.depth() + iterations as nat * n,
                (forall|a: AgentId, m: AgentMessage, t: u64, o: Result<(), String>|
                    #[trigger] execute.ensures((a, m, t), o) ==> o is Ok) ==> self.metrics.error_count
                    == old(self).metrics.error_count,
                ideal == (always_succeeds(execute) && never_stops(stop_requested) && clock_within(
                    clock,
                    old(self).loop_guard.max_execution_time_ms,
                ) && old(self).drainable()),
                ideal ==> {
                    &&& self.metrics.total_messages + self.message_bus.depth() == old(self).metrics.total_messages
                        + old(self).message_bus.depth()
                    &&& self.message_bus.received() + self.message_bus.depth() == old(self).message_bus.received()
                        + old(self).message_bus.depth()
                    &&& forall|x: AgentId|
                        #[trigger] processed(self.metrics.messages_per_agent@, x) + queued(self.message_bus@, x)
                            == processed(old(self).metrics.messages_per_agent@, x) + queued(
                            old(self).message_bus@,
                            x,
                        )
                    &&& forall|x: AgentId|
                        #[trigger] processed(self.metrics.messages_per_agent@, x) + self.message_bus.depth()
                            <= processed(old(self).metrics.messages_per_agent@, x) + old(self).message_bus.depth()

                    &&& self.message_bus.depth() + iterations <= old(self).message_bus.depth()
                },
            decreases self.loop_guard.max_iterations - iterations,
        {
            let stop_now = stop_requested();
            let asked = stop_now || !self.running;
            let now = clock();
            assert(clock.ensures((), now));
            let agents = self.registry.list_agents();
            match stop_before_pass(&self.loop_guard, asked, iterations, start_ms, now, agents.len()) {
                Some(reason) => {
                    proof {
                        if ideal {
                            assert(stop_requested.ensures((), stop_now));
                            assert(!asked);
                            assert(elapsed(start_ms, now) < self.loop_guard.max_execution_time_ms);
                            assert(iterations < self.loop_guard.max_iterations);
                            assert(agents@.len() == 0);
                            assert(self.registry@.dom().len() == 0);
                            assert forall|x: AgentId| #[trigger] self.message_bus@.contains_key(x) implies self.message_bus@[x].len() == 0 by {
                                assert(old(self).message_bus@.contains_key(x));
                                assert(old(self).registry@.contains_key(x));
                                assert(self.registry@.dom().contains(x));
                            }
                            self.message_bus.lemma_empty_depth();
                            assert forall|x: AgentId| #[trigger] old(self).agents()@.contains_key(x) implies processed(
                                self.metrics.messages_per_agent@, x) == processed(old(self).metrics.messages_per_agent@, x)
                                + queued(old(self).message_bus@, x) by {
                                assert(processed(self.metrics.messages_per_agent@, x) + queued(self.message_bus@, x)
                                    == processed(old(self).metrics.messages_per_agent@, x) + queued(old(self).message_bus@, x));
                            }
                        }
                    }
                    if asked {
                        self.running = false;
                    }
                    return Ok(reason);
                },
                None => {},
            }
            let mut processed_any = false;
            let ghost start_depth = self.message_bus.depth();
            let mut j: usize = 0;
            while j < agents.len()
                invariant
                    self.wf(),
                    forall|a: AgentId, m: AgentMessage, t: u64| execute.requires((a, m, t)),
                    forall|ms: u64| scheduler_pause(ms) ==> #[trigger] pause.requires((ms,)),
                    j <= agents@.len(),
                    forall|k: int| 0 <= k < agents@.len() ==> self.registry@.contains_key(#[trigger] agents@[k].id),
                    forall|x: AgentId| #[trigger] old(self).registry@.contains_key(x) ==> exists|k: int|
                        0 <= k < agents@.len() && agents@[k].id == x,
                    self.registry@.dom() == old(self).registry@.dom(),
                    self.message_bus@.dom() == old(self).message_bus@.dom(),
                    self.loop_guard == old(self).loop_guard,
                    iterations < self.loop_guard.max_iterations,
                    self.metrics.total_iterations == iterations,
                    self.metrics.error_count >= old(self).metrics.error_count,
                    counts_within(old(self).metrics.messages_per_agent@, old(self).loop_guard.max_messages_per_agent)
                        ==> counts_within(self.metrics.messages_per_agent@, self.loop_guard.max_messages_per_agent),
                    self.running,
                    forall|a: int, b: int|
                        0 <= a < agents@.len() && 0 <= b < agents@.len() && a != b ==> (#[trigger] agents@[a]).id
                            != (#[trigger] agents@[b]).id,
                    forall|x: AgentId|
                        #[trigger] processed(self.metrics.messages_per_agent@, x) <= processed(
                            old(self).metrics.messages_per_agent@,
                            x,
                        ) + iterations + (if exists|k: int| 0 <= k < j && agents@[k].id == x {
                            1int
                        } else {
                            0int
                        }),
                    agents@.len() == n,
                    n == old(self).registry@.dom().len(),
                    old(self).message_bus.depth() <= self.message_bus.depth() + iterations as nat * n + j,
                    (forall|a: AgentId, m: AgentMessage, t: u64, o: Result<(), String>|
                        #[trigger] execute.ensures((a, m, t), o) ==> o is Ok) ==> self.metrics.error_count
                        == old(self).metrics.error_count,
                    ideal == (always_succeeds(execute) && never_stops(stop_requested) && clock_within(
                        clock,
                        old(self).loop_guard.max_execution_time_ms,
                    ) && old(self).drainable()),
                    ideal ==> {
                        &&& self.metrics.total_messages + self.message_bus.depth() == old(self).metrics.total_messages
                        + old(self).message_bus.depth()
                        &&& self.message_bus.received() + self.message_bus.depth() == old(self).message_bus.received()
                        + old(self).message_bus.depth()
                        &&& forall|x: AgentId|
                            #[trigger] processed(self.metrics.messages_per_agent@, x) + queued(self.message_bus@, x)
                            == processed(old(self).metrics.messages_per_agent@, x) + queued(
                            old(self).message_bus@,
                            x,
                        )
                        &&& forall|x: AgentId|
                            #[trigger] processed(self.metrics.messages_per_agent@, x) + self.message_bus.depth()
                            <= processed(old(self).metrics.messages_per_agent@, x) + old(self).message_bus.depth()

                        &&& start_depth + iterations <= old(self).message_bus.depth()
                        &&& processed_any ==> self.message_bus.depth() + 1 <= start_depth
                        &&& !processed_any ==> self.message_bus.depth() == start_depth && forall|k: int|
                            0 <= k < j ==> queued(self.message_bus@, #[trigger] agents@[k].id) == 0
                    },
                decreases agents@.len() - j,
            {
                let id = agents[j].id;
                let count: u32 = match self.metrics.messages_per_agent.get(&id) {
                    Some(c) => *c,
                    None => 0,
                };
                match stop_for_agent(&self.loop_guard, id, count) {
                    Some(reason) => {
                        assert(processed(self.metrics.messages_per_agent@, id) == count);
                        return Ok(reason);
                    },
                    None => {},
                }
                let ghost before = self.metrics.messages_per_agent@;
                let ghost errors_before = self.metrics.error_count;
                let ghost bus_before = self.message_bus@;
                let ghost depth_before = self.message_bus.depth();
                let ghost total_before = self.metrics.total_messages;
                let ghost received_before = self.message_bus.received();
                let ghost any_before = processed_any;
                let outcome = self.process_agent_message(id, &execute, &pause);
                proof {
                    if ideal && outcome is None {
                        assert(queued(self.message_bus@, id) == 0);
                        assert forall|k: int| 0 <= k < j + 1 && !processed_any implies queued(
                            self.message_bus@, #[trigger] agents@[k].id) == 0 by {
                            if k < j {
                                assert(queued(bus_before, agents@[k].id) == 0);
                            }
                        }
                    }
                    if ideal && outcome matches Some(Ok(())) {
                        let pi = choose|pi: int| #[trigger] is_top(bus_before[id], pi) && self.message_bus@
                            == bus_before.insert(id, bus_before[id].remove(pi));
                        assert(queued(self.message_bus@, id) + 1 == queued(bus_before, id));
                        assert(processed(before, id) + depth_before <= processed(old(self).metrics.messages_per_agent@, id)
                            + old(self).message_bus.depth());
                        assert(processed(old(self).metrics.messages_per_agent@, id) + old(self).message_bus.depth()
                            < old(self).loop_guard.max_messages_per_agent);
                        assert(processed(before, id) < u32::MAX);
                        assert(processed(self.metrics.messages_per_agent@, id) == processed(before, id) + 1);
                        assert forall|x: AgentId| x != id implies processed(self.metrics.messages_per_agent@, x)
                            == processed(before, x) && queued(self.message_bus@, x) == queued(bus_before, x) by {}
                        assert(total_before < u64::MAX);
                        assert(received_before < u64::MAX);
                        assert forall|x: AgentId| #[trigger] processed(self.metrics.messages_per_agent@, x) + queued(self.message_bus@, x)
                            == processed(old(self).metrics.messages_per_agent@, x) + queued(old(self).message_bus@, x) by {
                            assert(processed(before, x) + queued(bus_before, x)
                                == processed(old(self).metrics.messages_per_agent@, x) + queued(old(self).message_bus@, x));
                        }
                        assert forall|x: AgentId| #[trigger] processed(self.metrics.messages_per_agent@, x) + self.message_bus.depth()
                            <= processed(old(self).metrics.messages_per_agent@, x) + old(self).message_bus.depth() by {
                            assert(processed(before, x) + depth_before
                                <= processed(old(self).metrics.messages_per_agent@, x) + old(self).message_bus.depth());
                        }
                    }
                    if ideal && outcome is None {
                        assert forall|x: AgentId| #[trigger] processed(self.metrics.messages_per_agent@, x) + queued(self.message_bus@, x)
                            == processed(old(self).metrics.messages_per_agent@, x) + queued(old(self).message_bus@, x) by {
                            assert(processed(before, x) + queued(bus_before, x)
                                == processed(old(self).metrics.messages_per_agent@, x) + queued(old(self).message_bus@, x));
                        }
                        assert forall|x: AgentId| #[trigger] processed(self.metrics.messages_per_agent@, x) + self.message_bus.depth()
                            <= processed(old(self).metrics.messages_per_agent@, x) + old(self).message_bus.depth() by {
                            assert(processed(before, x) + depth_before
                                <= processed(old(self).metrics.messages_per_agent@, x) + old(self).message_bus.depth());
                        }
                    }
                }
                match outcome {
                    None => {},
                    Some(Ok(())) => {
                        processed_any = true;
                        proof {
                            assert forall|x: AgentId|
                                counts_within(old(self).metrics.messages_per_agent@, old(self).loop_guard.max_messages_per_agent)
                                    implies #[trigger] processed(self.metrics.messages_per_agent@, x)
                                    <= self.loop_guard.max_messages_per_agent by {
                                if x != id {
                                    assert(processed(before, x) <= self.loop_guard.max_messages_per_agent);
                                }
                            }
                        }
                    },
                    Some(Err(e)) => {
                        let stop = StopReason::AgentError { agent_id: id, error: e };
                        proof {
                            let (m, t, o) = choose|m: AgentMessage, t: u64, o: Result<(), String>|
                                #[trigger] execute.ensures((id, m, t), o) && o is Err;
                            assert(failed_agent(Ok(stop)) == id);
                            assert(execute.ensures((failed_agent(Ok(stop)), m, t), o) && o is Err);
                        }
                        return Ok(stop);
                    },
                }
                proof {
                    assert forall|x: AgentId|
                        #[trigger] processed(self.metrics.messages_per_agent@, x) <= processed(
                            old(self).metrics.messages_per_agent@,
                            x,
                        ) + iterations + (if exists|k: int| 0 <= k < j + 1 && agents@[k].id == x {
                            1int
                        } else {
                            0int
                        }) by {
                        assert(processed(before, x) <= processed(old(self).metrics.messages_per_agent@, x)
                            + iterations + (if exists|k: int| 0 <= k < j && agents@[k].id == x {
                            1int
                        } else {
                            0int
                        }));
                        if x == id {
                            assert(0 <= j < j + 1 && agents@[j as int].id == x);
                            if exists|k: int| 0 <= k < j && agents@[k].id == x {
                                let k = choose|k: int| 0 <= k < j && agents@[k].id == x;
                                assert(agents@[k].id != agents@[j as int].id);
                            }
                        } else {
                            assert(processed(self.metrics.messages_per_agent@, x) == processed(before, x));
                            if exists|k: int| 0 <= k < j && agents@[k].id == x {
                                let k = choose|k: int| 0 <= k < j && agents@[k].id == x;
                                assert(0 <= k < j + 1 && agents@[k].id == x);
                            }
                        }
                    }
                }
                j = j + 1;
            }
            proof {
                if ideal && !processed_any {
                    assert forall|x: AgentId| #[trigger] self.message_bus@.contains_key(x) implies self.message_bus@[x].len() == 0 by {
                        assert(old(self).message_bus@.contains_key(x));
                        assert(old(self).registry@.contains_key(x));
                        let k = choose|k: int| 0 <= k < agents@.len() && agents@[k].id == x;
                        assert(queued(self.message_bus@, agents@[k].id) == 0);
                    }
                    self.message_bus.lemma_empty_depth();
                    assert forall|x: AgentId| #[trigger] old(self).agents()@.contains_key(x) implies processed(
                        self.metrics.messages_per_agent@, x) == processed(old(self).metrics.messages_per_agent@, x)
                        + queued(old(self).message_bus@, x) by {
                        assert(processed(self.metrics.messages_per_agent@, x) + queued(self.message_bus@, x)
                            == processed(old(self).metrics.messages_per_agent@, x) + queued(old(self).message_bus@, x));
                    }
                }
            }
            let depth = self.message_bus.queue_depth();
            self.metrics.queue_depth = depth;
            proof {
                assert((iterations as nat) * n + n == (iterations as nat + 1) * n) by (nonlinear_arith);
            }
            iterations = iterations + 1;
            self.metrics.total_iterations = iterations;
            match stop_after_pass(processed_any, depth) {
                Some(reason) => {
                    return Ok(reason);
                },
                None => {},
            }
            pause(PASS_PAUSE_MS);
        }
    }

    /// Runs passes over the registered agents until a loop guard trips, the
    /// mailboxes are drained, an agent fails, or a stop is requested; see
    /// `run`. The run always ends, and agents keep their mailboxes.
    pub fn start<
        E: Fn(AgentId, AgentMessage, u64) -> Result<(), String>,
        P: Fn(u64),
        C: Fn() -> u64,
        S: Fn() -> bool,
    >(&mut self, execute: E, pause: P, clock: C, stop_requested: S) -> (r: Result<StopReason, String>)
        requires
            old(self).wf(),
            forall|a: AgentId, m: AgentMessage, t: u64| execute.requires((a, m, t)),
            forall|ms: u64| scheduler_pause(ms) ==> #[trigger] pause.requires((ms,)),
            clock.requires(()),
            stop_requested.requires(()),
        ensures
            final(self).wf(),
            r is Ok,
            final(self).agents()@.dom() == old(self).agents()@.dom(),
            final(self).bus()@.dom() == old(self).bus()@.dom(),
            final(self).guard() == old(self).guard(),
            final(self).counters().total_iterations <= final(self).guard().max_iterations,
            r matches Ok(StopReason::MaxIterations) ==> final(self).counters().total_iterations
                == final(self).guard().max_iterations,
            r matches Ok(StopReason::Completed) ==> final(self).agents()@.dom().len() == 0
                || final(self).bus().depth() == 0,
            r matches Ok(StopReason::MaxMessagesPerAgent { agent_id, count }) ==> count
                >= final(self).guard().max_messages_per_agent && count == processed(
                final(self).counters().messages_per_agent@,
                agent_id,
            ),
            counts_within(old(self).counters().messages_per_agent@, old(self).guard().max_messages_per_agent)
                ==> counts_within(final(self).counters().messages_per_agent@, final(self).guard().max_messages_per_agent)
                && (r matches Ok(StopReason::MaxMessagesPerAgent { count, .. }) ==> count
                == final(self).guard().max_messages_per_agent),
            r matches Ok(StopReason::AgentError { .. }) && old(self).counters().error_count < u64::MAX
                ==> final(self).counters().error_count > old(self).counters().error_count,
            final(self).counters().error_count >= old(self).counters().error_count,
            r matches Ok(StopReason::ManualStop) ==> !final(self).is_running(),
            r matches Ok(StopReason::MaxMessagesPerAgent { .. }) ==> final(self).agents()@.contains_key(
                limited_agent(r),
            ),
            forall|x: AgentId|
                #[trigger] processed(final(self).counters().messages_per_agent@, x) <= processed(
                    old(self).counters().messages_per_agent@,
                    x,
                ) + final(self).counters().total_iterations + 1,
            !stopped_mid_pass(r) ==> forall|x: AgentId|
                #[trigger] processed(final(self).counters().messages_per_agent@, x) <= processed(
                    old(self).counters().messages_per_agent@,
                    x,
                ) + final(self).counters().total_iterations,
            r matches Ok(StopReason::AgentError { .. }) ==> exists|m: AgentMessage, t: u64, o: Result<(), String>|
                #[trigger] execute.ensures((failed_agent(r), m, t), o) && o is Err,
            r matches Ok(StopReason::Completed) ==> final(self).agents()@.dom().len() == 0
                || old(self).bus().depth() <= final(self).counters().total_iterations as nat
                * final(self).agents()@.dom().len(),
            (forall|a: AgentId, m: AgentMessage, t: u64, o: Result<(), String>|
                #[trigger] execute.ensures((a, m, t), o) ==> o is Ok) ==> !(r matches Ok(
                StopReason::AgentError { .. },
            )),
            (forall|b: bool| #[trigger] stop_requested.ensures((), b) ==> !b) ==> !(r matches Ok(
                StopReason::ManualStop,
            )),
            (forall|t1: u64, t2: u64|
                #[trigger] clock.ensures((), t1) && #[trigger] clock.ensures((), t2) ==> elapsed(t1, t2)
                    < old(self).guard().max_execution_time_ms) ==> !(r matches Ok(
                StopReason::MaxExecutionTime,
            )),
            always_succeeds(execute) && never_stops(stop_requested) && clock_within(
                clock,
                old(self).guard().max_execution_time_ms,
            ) && old(self).drainable() ==> {
                &&& r matches Ok(StopReason::Completed)
                &&& final(self).bus().depth() == 0
                &&& final(self).counters().total_messages == old(self).counters().total_messages + old(
                    self,
                ).bus().depth()
                &&& forall|id: AgentId|
                    #[trigger] old(self).agents()@.contains_key(id) ==> processed(
                        final(self).counters().messages_per_agent@,
                        id,
                    ) == processed(old(self).counters().messages_per_agent@, id) + queued(
                        old(self).bus()@,
                        id,
                    )
            },
            old(self).mailbox_for_each_agent() ==> final(self).mailbox_for_each_agent(),
    {
        let r = self.run(execute, pause, clock, stop_requested);
        proof {
            if old(self).mailbox_for_each_agent() {
                assert forall|id: AgentId| #[trigger] self.agents()@.contains_key(id) implies self.bus()@.contains_key(id) by {
                    assert(self.registry@.dom().contains(id));
                    assert(old(self).registry@.dom().contains(id));
                    assert(old(self).agents()@.contains_key(id));
                    assert(old(self).message_bus@.dom().contains(id));
                }
            }
        }
        r
    }
}

} // verus!
