//! The client side of the connection lifecycle as a state machine: the
//! governing loop's bookkeeping (current URL, retry counter, backoff delay)
//! and its decisions on every event. The surrounding transport work — the
//! socket, the two tasks per connection, the timers — lives outside the
//! library and merely performs the actions decided here.

use vstd::prelude::*;

use crate::handler::HandlerService;
use crate::request::ReqView;
use crate::response::{Response, Status};
use crate::{decisive, dispatch_spec, NextDoor};

verus! {

/// Why a run ended with an error.
#[derive(Debug)]
pub enum ConnectError {
    /// A transport-level connect failure with no retry policy configured;
    /// carries the transport's description of the failure.
    WsError(String),
    /// The configured number of connect retries was used up.
    MaxRetriesExceeded,
}

/// Backoff configuration for connect-failure retries. The factor is a ratio
/// expressed in thousandths, so `1500` multiplies the delay by 1.5 per step.
#[derive(Debug, Clone, PartialEq, Eq, Structural)]
pub struct ReconnectConfig {
    pub initial_delay: u64,
    pub max_delay: u64,
    pub max_retries: u32,
    pub backoff_factor: u64,
}

impl Default for ReconnectConfig {
    /// One second growing by half each retry, capped at thirty seconds,
    /// with eight retries.
    fn default() -> (r: Self)
        ensures
            r == (ReconnectConfig {
                initial_delay: 1000u64,
                max_delay: 30000u64,
                max_retries: 8u32,
                backoff_factor: 1500u64,
            }),
    {
        ReconnectConfig { initial_delay: 1000, max_delay: 30000, max_retries: 8, backoff_factor: 1500 }
    }
}

/// The delay that follows `current_delay` under a backoff factor given in
/// thousandths: the product truncated to whole units, capped at `max_delay`.
pub open spec fn next_delay_spec(current_delay: u64, backoff_factor: u64, max_delay: u64) -> u64 {
    let raw = (current_delay * backoff_factor) / 1000;
    if raw > max_delay {
        max_delay
    } else {
        raw as u64
    }
}

/// Computes the delay for the next retry: the current delay scaled by the
/// factor with integer truncation, capped at `max_delay`.
pub fn calculate_next_delay(current_delay: u64, backoff_factor: u64, max_delay: u64) -> (r: u64)
    ensures
        r == next_delay_spec(current_delay, backoff_factor, max_delay),
{
    let a = current_delay as u128;
    let b = backoff_factor as u128;
    proof {
        assert((a as int) * (b as int) <= (u64::MAX as int) * (u64::MAX as int))
            by (nonlinear_arith)
            requires
                a as int <= u64::MAX as int,
                b as int <= u64::MAX as int,
                a as int >= 0,
                b as int >= 0,
        ;
        assert((u64::MAX as int) * (u64::MAX as int) <= u128::MAX as int) by (nonlinear_arith);
    }
    let raw = (a * b) / 1000;
    if raw > max_delay as u128 {
        max_delay
    } else {
        raw as u64
    }
}

/// Mutable bookkeeping of one `run`: the URL to connect to next, how many
/// retries were spent, and the delay the next connect failure will wait.
#[derive(Debug, Clone)]
pub struct RunState {
    pub current_url: String,
    pub retry_count: u32,
    pub delay: u64,
}

/// The bookkeeping a run starts from: the configured URL, no retries spent,
/// and the policy's initial delay (zero without a policy).
pub fn initial_run_state(url: String, config: &Option<ReconnectConfig>) -> (r: RunState)
    ensures
        r.current_url == url,
        r.retry_count == 0,
        r.delay == (match *config {
            Some(c) => c.initial_delay,
            None => 0u64,
        }),
{
    let delay = match config {
        Some(c) => c.initial_delay,
        None => 0,
    };
    RunState { current_url: url, retry_count: 0, delay }
}

/// What the governing loop observes while a connection is being opened or is
/// live.
#[derive(Debug)]
pub enum ConnectionEvent {
    /// Opening the transport connection failed; carries the transport's
    /// description of the failure.
    ConnectFailed { error: String },
    /// The reader task finished: either a handler requested a reconnect
    /// (optionally naming a new URL), or the transport stopped yielding
    /// messages.
    ReaderFinished { reconnect: bool, new_url: Option<String> },
    /// The writer task finished: the channel closed or a send failed.
    WriterFinished,
    /// The external shutdown signal fired.
    ShutdownRequested,
}

/// What the governing loop must do next.
#[derive(Debug)]
pub enum RunAction {
    /// Sleep for the carried backoff delay, then connect to the same URL.
    RetryAfter(u64),
    /// Sleep for the fixed short pause, then connect to the state's URL;
    /// this path never consumes a retry.
    ReconnectAfterPause,
    /// Connect again immediately after a transport-level drop.
    Reconnect,
    /// Stop the run with the carried result.
    Finish(Result<(), ConnectError>),
}

/// The fixed pause before a handler-requested reconnect, in the same units
/// as the backoff delays.
pub fn reconnect_pause() -> (r: u64)
    ensures
        r == 1000u64,
{
    1000
}

/// One step of the governing loop, mathematically: from the current
/// bookkeeping and an observed event to the next bookkeeping and the action
/// to perform.
///
/// A connect failure without a policy ends the run with the transport error;
/// with a policy it either ends the run once the retries are used up — with
/// no further delay — or spends one retry, waits the current delay, and
/// scales the delay for the next failure. A handler-requested reconnect
/// adopts the new URL when one was named and waits only the fixed pause,
/// leaving the retry bookkeeping untouched. A transport-level drop
/// reconnects immediately, and shutdown ends the run successfully.
pub open spec fn on_event_spec(
    state: RunState,
    config: Option<ReconnectConfig>,
    event: ConnectionEvent,
) -> (RunState, RunAction) {
    match event {
        ConnectionEvent::ConnectFailed { error } => match config {
            None => (state, RunAction::Finish(Err(ConnectError::WsError(error)))),
            Some(c) => {
                if state.retry_count >= c.max_retries {
                    (state, RunAction::Finish(Err(ConnectError::MaxRetriesExceeded)))
                } else {
                    (
                        RunState {
                            current_url: state.current_url,
                            retry_count: (state.retry_count + 1) as u32,
                            delay: next_delay_spec(state.delay, c.backoff_factor, c.max_delay),
                        },
                        RunAction::RetryAfter(state.delay),
                    )
                }
            },
        },
        ConnectionEvent::ReaderFinished { reconnect, new_url } => {
            if reconnect {
                (
                    RunState {
                        current_url: match new_url {
                            Some(u) => u,
                            None => state.current_url,
                        },
                        retry_count: state.retry_count,
                        delay: state.delay,
                    },
                    RunAction::ReconnectAfterPause,
                )
            } else {
                (state, RunAction::Reconnect)
            }
        },
        ConnectionEvent::WriterFinished => (state, RunAction::Reconnect),
        ConnectionEvent::ShutdownRequested => (state, RunAction::Finish(Ok(()))),
    }
}

/// One step of the governing loop; answers exactly as [`on_event_spec`]
/// states.
pub fn on_event(state: RunState, config: &Option<ReconnectConfig>, event: ConnectionEvent) -> (r:
    (RunState, RunAction))
    ensures
        r == on_event_spec(state, *config, event),
{
    match event {
        ConnectionEvent::ConnectFailed { error } => match config {
            None => (state, RunAction::Finish(Err(ConnectError::WsError(error)))),
            Some(c) => {
                if state.retry_count >= c.max_retries {
                    (state, RunAction::Finish(Err(ConnectError::MaxRetriesExceeded)))
                } else {
                    let wait = state.delay;
                    let next = calculate_next_delay(state.delay, c.backoff_factor, c.max_delay);
                    let updated = RunState {
                        current_url: state.current_url,
                        retry_count: state.retry_count + 1,
                        delay: next,
                    };
                    (updated, RunAction::RetryAfter(wait))
                }
            },
        },
        ConnectionEvent::ReaderFinished { reconnect, new_url } => {
            if reconnect {
                let url = match new_url {
                    Some(u) => u,
                    None => state.current_url,
                };
                let updated = RunState {
                    current_url: url,
                    retry_count: state.retry_count,
                    delay: state.delay,
                };
                (updated, RunAction::ReconnectAfterPause)
            } else {
                (state, RunAction::Reconnect)
            }
        },
        ConnectionEvent::WriterFinished => (state, RunAction::Reconnect),
        ConnectionEvent::ShutdownRequested => (state, RunAction::Finish(Ok(()))),
    }
}

/// Bookkeeping after a connection was opened: the retry counter and the
/// delay start over, so a connection that later drops gets the policy's full
/// retry budget again. (Whether to reset on success is a policy choice; this
/// library resets.)
pub fn on_connect_success(state: RunState, config: &Option<ReconnectConfig>) -> (r: RunState)
    ensures
        r.current_url == state.current_url,
        r.retry_count == 0,
        r.delay == (match *config {
            Some(c) => c.initial_delay,
            None => 0u64,
        }),
{
    let delay = match config {
        Some(c) => c.initial_delay,
        None => 0,
    };
    RunState { current_url: state.current_url, retry_count: 0, delay }
}

/// What the reader task does with one dispatched response.
#[derive(Debug)]
pub enum MessageOutcome {
    /// Stop reading and ask the governing loop to reconnect, to the carried
    /// URL when one is named.
    RequestReconnect(Option<String>),
    /// Forward the body as an outbound text message.
    Forward(String),
    /// Log and keep reading: a handler-level error never ends the
    /// connection.
    Ignore,
}

/// Decision of the reader task on one response, mathematically: a reconnect
/// status stops reading and carries the body as the new URL when it is
/// non-empty, a success forwards the body outbound, and every other status
/// is ignored — a handler-level error never ends the connection.
pub open spec fn outcome_spec(response: Response) -> MessageOutcome {
    if response.status == Status::Reconnect {
        if response.body@.len() > 0 {
            MessageOutcome::RequestReconnect(Some(response.body))
        } else {
            MessageOutcome::RequestReconnect(None)
        }
    } else if response.status == Status::OK {
        MessageOutcome::Forward(response.body)
    } else {
        MessageOutcome::Ignore
    }
}

/// Decision of the reader task on one response; answers exactly as
/// [`outcome_spec`] states.
pub fn handle_response(response: Response) -> (r: MessageOutcome)
    ensures
        r == outcome_spec(response),
{
    if response.status.is_reconnect() {
        if response.body.as_str().is_empty() {
            MessageOutcome::RequestReconnect(None)
        } else {
            MessageOutcome::RequestReconnect(Some(response.body))
        }
    } else if response.status.is_success() {
        MessageOutcome::Forward(response.body)
    } else {
        MessageOutcome::Ignore
    }
}

/// A configured client: the router, the target URL, the outbound channel
/// capacity, and the optional retry policy.
pub struct Client<S, H> {
    pub url: String,
    pub router: NextDoor<S, H>,
    pub capacity: usize,
    pub reconnect_config: Option<ReconnectConfig>,
}

/// Pairs a router with a target URL, with the default channel capacity and
/// no retry policy: without one, a connect failure is fatal.
pub fn connect<S, H>(router: NextDoor<S, H>, url: String) -> (c: Client<S, H>)
    ensures
        c.url == url,
        c.router == router,
        c.capacity == 100,
        c.reconnect_config is None,
{
    Client { url, router, capacity: 100, reconnect_config: None }
}

impl<S, H> Client<S, H> {
    /// Sets the outbound channel capacity; it must stay positive so the
    /// channel can be created.
    pub fn set_capacity(&mut self, capacity: usize)
        requires
            capacity >= 1,
        ensures
            final(self).capacity == capacity,
            final(self).url == old(self).url,
            final(self).router == old(self).router,
            final(self).reconnect_config == old(self).reconnect_config,
    {
        self.capacity = capacity;
    }

    /// Installs a retry policy for connect failures.
    pub fn with_reconnect_config(self, config: ReconnectConfig) -> (r: Self)
        ensures
            r.reconnect_config == Some(config),
            r.url == self.url,
            r.router == self.router,
            r.capacity == self.capacity,
    {
        Client {
            url: self.url,
            router: self.router,
            capacity: self.capacity,
            reconnect_config: Some(config),
        }
    }
}

/// A handler-triggered reconnect, end to end: when the first decisive
/// handler for a request answers a reconnect request with a non-empty body,
/// dispatch surfaces that response, the reader reports its body as the new
/// URL, and the governing loop targets that URL after the fixed pause —
/// without spending a retry or consulting the retry limit.
pub proof fn lemma_handler_reconnect_pipeline<S, H: HandlerService<S>>(
    router: NextDoor<S, H>,
    req: ReqView,
    i: int,
    response: Response,
    state: RunState,
    config: Option<ReconnectConfig>,
)
    requires
        0 <= i < router.routes(req.path).len(),
        router.routes(req.path)[i].handler.on_call(req, router.state).status == Status::Reconnect,
        forall|j: int| 0 <= j < i ==> !decisive(
            router.routes(req.path)[j].handler.on_call(req, router.state).status,
        ),
        response@ == dispatch_spec(router, req),
        response.body@.len() > 0,
    ensures
        outcome_spec(response) == MessageOutcome::RequestReconnect(Some(response.body)),
        ({
            let r = on_event_spec(
                state,
                config,
                ConnectionEvent::ReaderFinished {
                    reconnect: true,
                    new_url: Some(response.body),
                },
            );
            r.0.current_url == response.body && r.0.retry_count == state.retry_count && r.1
                == RunAction::ReconnectAfterPause
        }),
{
    crate::lemma_dispatch_first_decisive(router, req, i);
}

/// A handler-requested reconnect adopts the named URL after the fixed pause
/// and neither consumes a retry nor consults the retry limit, whatever the
/// policy says.
pub proof fn lemma_reconnect_keeps_retry_budget(
    state: RunState,
    config: Option<ReconnectConfig>,
    url: String,
)
    ensures
        ({
            let r = on_event_spec(
                state,
                config,
                ConnectionEvent::ReaderFinished { reconnect: true, new_url: Some(url) },
            );
            r.0.current_url == url && r.0.retry_count == state.retry_count && r.1
                == RunAction::ReconnectAfterPause
        }),
{
}

} // verus!
