use vstd::prelude::*;
use vstd::string::StrSliceExecFns;
use vstd::string::StringExecFns;

use crate::config::Config;
use crate::errors::BridgeError;
use crate::errors::Error;
use crate::errors::ProjectError;
use crate::jsonrpc::Request;
use crate::jsonrpc::Response;
use crate::text::dec_chars_signed;
use crate::text::push_dec_chars_signed;

verus! {

/// Milliseconds the `initialize` request may take before startup fails.
pub const START_TIMEOUT_MS: u64 = 30000;

/// Milliseconds an ordinary request may take before it fails.
pub const REQUEST_TIMEOUT_MS: u64 = 60000;

/// Milliseconds a caller waits for the sidecar to become ready.
pub const READY_WAIT_TIMEOUT_MS: u64 = 30000;

/// Seconds before the first health ping, so that the initial heavy
/// analysis can finish undisturbed.
pub const HEALTH_GRACE_SECS: u64 = 60;

/// Seconds between health pings.
pub const HEALTH_INTERVAL_SECS: u64 = 30;

/// Milliseconds a health ping may take before it counts as failed.
pub const HEALTH_PING_TIMEOUT_MS: u64 = 30000;

/// Consecutive ping failures after which the sidecar is degraded.
pub const MAX_PING_FAILURES: u32 = 3;

/// Lifecycle states of the supervised sidecar process.
#[derive(Debug, Clone, Copy, PartialEq, Eq, Structural)]
pub enum SidecarState {
    Starting,
    Ready,
    Degraded,
    Restarting,
    Stopped,
}

/// The events that drive the sidecar lifecycle.
#[derive(Debug, Clone, Copy, PartialEq, Eq, Structural)]
pub enum StateEvent {
    /// `start` was called: spawning begins.
    StartRequested,
    /// The `initialize` request was answered successfully.
    InitSucceeded,
    /// `initialize` failed, its channel dropped, or it timed out.
    InitFailed,
    /// The sidecar process or one of its pipes could not be set up.
    SpawnFailed,
    /// The sidecar's output stream closed or could not be read.
    ReaderClosed,
    /// Too many consecutive health pings failed.
    PingFailuresExhausted,
    /// `shutdown` was called.
    ShutdownRequested,
}

/// The state machine of the sidecar lifecycle.  A reader-side close is
/// ignored once the bridge is already stopped; every other event moves
/// to a fixed target state.
pub open spec fn step_state(s: SidecarState, e: StateEvent) -> SidecarState {
    match e {
        StateEvent::StartRequested => SidecarState::Starting,
        StateEvent::InitSucceeded => SidecarState::Ready,
        StateEvent::InitFailed => SidecarState::Stopped,
        StateEvent::SpawnFailed => SidecarState::Stopped,
        StateEvent::ReaderClosed => if s == SidecarState::Stopped {
            SidecarState::Stopped
        } else {
            SidecarState::Degraded
        },
        StateEvent::PingFailuresExhausted => SidecarState::Degraded,
        StateEvent::ShutdownRequested => SidecarState::Stopped,
    }
}

/// What a caller parked on the state watch should do next.
#[derive(Debug, Clone, Copy, PartialEq, Eq, Structural)]
pub enum WaitVerdict {
    /// The sidecar is ready: send the request.
    Proceed,
    /// The sidecar is stopped or degraded: fail with `NotReady`.
    Fail,
    /// The sidecar is still starting: keep waiting.
    KeepWaiting,
}

/// The waiting policy of request buffering: proceed only in `Ready`,
/// fail in the terminal states, keep waiting through startup.
pub open spec fn wait_decision(s: SidecarState) -> WaitVerdict {
    match s {
        SidecarState::Ready => WaitVerdict::Proceed,
        SidecarState::Stopped => WaitVerdict::Fail,
        SidecarState::Degraded => WaitVerdict::Fail,
        SidecarState::Starting => WaitVerdict::KeepWaiting,
        SidecarState::Restarting => WaitVerdict::KeepWaiting,
    }
}

/// A request issued while the sidecar is starting is released exactly
/// when startup succeeds; when startup fails or the bridge is shut
/// down, it is told the sidecar is unavailable.
pub proof fn lemma_startup_buffering(e: StateEvent)
    requires
        e == StateEvent::InitSucceeded || e == StateEvent::InitFailed || e
            == StateEvent::SpawnFailed || e == StateEvent::ShutdownRequested,
    ensures
        wait_decision(SidecarState::Starting) == WaitVerdict::KeepWaiting,
        wait_decision(step_state(SidecarState::Starting, e)) == (if e
            == StateEvent::InitSucceeded {
            WaitVerdict::Proceed
        } else {
            WaitVerdict::Fail
        }),
{
}

/// The concrete step a parked caller takes, with the error it reports
/// when the sidecar is unavailable.
#[derive(Debug, Clone, PartialEq, Eq)]
pub enum WaitStep {
    Proceed,
    Fail(BridgeError),
    KeepWaiting,
}

/// Decides what a caller observing `state` on the watch channel does.
/// Callers re-run this on every state change, up to their timeout.
pub fn wait_for_ready(state: SidecarState) -> (w: WaitStep)
    ensures
        w is Proceed <==> wait_decision(state) == WaitVerdict::Proceed,
        w is Fail <==> wait_decision(state) == WaitVerdict::Fail,
        w is KeepWaiting <==> wait_decision(state) == WaitVerdict::KeepWaiting,
        state == SidecarState::Stopped ==> (w matches WaitStep::Fail(e) && e matches
            BridgeError::NotReady(m) && m@ == "sidecar is Stopped"@),
        state == SidecarState::Degraded ==> (w matches WaitStep::Fail(e) && e matches
            BridgeError::NotReady(m) && m@ == "sidecar is Degraded"@),
{
    match state {
        SidecarState::Ready => WaitStep::Proceed,
        SidecarState::Stopped => WaitStep::Fail(
            BridgeError::NotReady(String::from_str("sidecar is Stopped")),
        ),
        SidecarState::Degraded => WaitStep::Fail(
            BridgeError::NotReady(String::from_str("sidecar is Degraded")),
        ),
        SidecarState::Starting => WaitStep::KeepWaiting,
        SidecarState::Restarting => WaitStep::KeepWaiting,
    }
}

/// How the wait for the `initialize` response ended.
#[derive(Debug)]
pub enum InitOutcome {
    /// The sidecar answered the `initialize` request.
    Succeeded,
    /// The sidecar answered with an error, which is propagated.
    Failed(Error),
    /// The response channel dropped before an answer arrived.
    ChannelDropped,
    /// No answer arrived within `START_TIMEOUT_MS`.
    TimedOut,
}

/// How the wait for an ordinary response ended.
#[derive(Debug)]
pub enum AwaitOutcome {
    /// The reader delivered this payload for the request's id.
    Delivered(Result<Option<serde_json::Value>, Error>),
    /// The response channel dropped before an answer arrived.
    ChannelDropped,
    /// No answer arrived within `REQUEST_TIMEOUT_MS`.
    TimedOut,
}

/// Where a decoded sidecar message goes.
#[derive(Debug)]
pub enum DispatchOutcome {
    /// The message had no id; nothing is expected from the sidecar
    /// without one, so it is dropped.
    NoId,
    /// No pending request matches the id: stale or duplicate; dropped.
    UnknownId { id: u64 },
    /// The payload to hand to the waiter parked under `id`.
    Deliver { id: u64, payload: Result<Option<serde_json::Value>, Error> },
}

/// Everything `shutdown` decides: which waiters to cancel, with what
/// error, and the farewell request to enqueue.
#[derive(Debug)]
pub struct ShutdownActions {
    pub cancelled: Vec<u64>,
    pub cancel_error: BridgeError,
    pub shutdown_request: Option<Request>,
}

/// The synchronized core of the bridge: the lifecycle state, the id
/// counter, the set of pending request ids, and the configuration.
/// The asynchronous shell owns the channels and the child process and
/// calls in here for every decision.
pub struct BridgeCore {
    pub state: SidecarState,
    pub next_id: u64,
    pub pending: Vec<u64>,
    pub config: Config,
    /// Every id ever assigned, in assignment order.
    pub issued: Ghost<Seq<u64>>,
}

impl BridgeCore {
    /// Ids start at 1 and rise by one per assignment; the issued ids
    /// are therefore 1..next_id, and the pending ones a subset of
    /// them, each at most once.
    pub open spec fn wf(self) -> bool {
        &&& 1 <= self.next_id
        &&& self.issued@.len() == self.next_id - 1
        &&& (forall|k: int| 0 <= k < self.issued@.len() ==> self.issued@[k] == k + 1)
        &&& (forall|k: int|
            0 <= k < self.pending@.len() ==> 1 <= #[trigger] self.pending@[k] < self.next_id)
        &&& (forall|a: int, b: int|
            #![trigger self.pending@[a], self.pending@[b]]
            0 <= a < b < self.pending@.len() ==> self.pending@[a] != self.pending@[b])
    }

    /// A fresh bridge: stopped, no pending requests, ids from 1.
    pub fn new(config: Config) -> (c: BridgeCore)
        ensures
            c.wf(),
            c.state == SidecarState::Stopped,
            c.next_id == 1,
            c.pending@ == Seq::<u64>::empty(),
            c.issued@ == Seq::<u64>::empty(),
            c.config == config,
    {
        BridgeCore {
            state: SidecarState::Stopped,
            next_id: 1,
            pending: Vec::new(),
            config,
            issued: Ghost(Seq::empty()),
        }
    }

    /// The current lifecycle state.
    pub fn state(&self) -> (s: SidecarState)
        ensures
            s == self.state,
    {
        self.state
    }

    /// Replaces the live configuration; affects future starts only.
    pub fn update_config(&mut self, config: Config)
        requires
            old(self).wf(),
        ensures
            final(self).wf(),
            final(self).config == config,
            final(self).state == old(self).state,
            final(self).next_id == old(self).next_id,
            final(self).pending == old(self).pending,
            final(self).issued == old(self).issued,
    {
        self.config = config;
    }

    /// Assigns the next request id: the counter's value, counter up by
    /// one.  The id has never been assigned before.
    pub fn next_id(&mut self) -> (id: u64)
        requires
            old(self).wf(),
            old(self).next_id < u64::MAX,
        ensures
            final(self).wf(),
            id == old(self).next_id,
            final(self).next_id == old(self).next_id + 1,
            final(self).issued@ == old(self).issued@.push(id),
            !old(self).issued@.contains(id),
            !old(self).pending@.contains(id),
            final(self).pending == old(self).pending,
            final(self).state == old(self).state,
            final(self).config == old(self).config,
    {
        let id = self.next_id;
        self.next_id = self.next_id + 1;
        self.issued = Ghost(self.issued@.push(id));
        id
    }

    /// Builds a request under a fresh id and parks that id as pending.
    pub fn begin_request(&mut self, method: &str, params: Option<String>) -> (r: Request)
        requires
            old(self).wf(),
            old(self).next_id < u64::MAX,
        ensures
            final(self).wf(),
            r.jsonrpc@ == "2.0"@,
            r.id == Some(old(self).next_id),
            r.method@ == method@,
            r.params == params,
            final(self).next_id == old(self).next_id + 1,
            final(self).issued@ == old(self).issued@.push(old(self).next_id),
            final(self).pending@ == old(self).pending@.push(old(self).next_id),
            !old(self).pending@.contains(old(self).next_id),
            final(self).state == old(self).state,
            final(self).config == old(self).config,
    {
        let id = self.next_id();
        self.pending.push(id);
        Request::new(id, method, params)
    }

    /// Moves to `Starting`; called when `start` begins spawning.
    pub fn begin_start(&mut self)
        requires
            old(self).wf(),
        ensures
            final(self).wf(),
            final(self).state == step_state(old(self).state, StateEvent::StartRequested),
            final(self).next_id == old(self).next_id,
            final(self).pending == old(self).pending,
            final(self).issued == old(self).issued,
            final(self).config == old(self).config,
    {
        self.state = SidecarState::Starting;
    }

    /// Applies the outcome of the `initialize` wait: success makes the
    /// sidecar ready; every failure stops it and is reported.
    pub fn on_init_outcome(&mut self, outcome: InitOutcome) -> (r: Result<(), Error>)
        requires
            old(self).wf(),
        ensures
            final(self).wf(),
            final(self).next_id == old(self).next_id,
            final(self).pending == old(self).pending,
            final(self).issued == old(self).issued,
            final(self).config == old(self).config,
            outcome is Succeeded ==> final(self).state == step_state(
                old(self).state,
                StateEvent::InitSucceeded,
            ) && r is Ok,
            !(outcome is Succeeded) ==> final(self).state == step_state(
                old(self).state,
                StateEvent::InitFailed,
            ) && r is Err,
            outcome matches InitOutcome::Failed(e) ==> r == Err::<(), Error>(e),
            outcome is ChannelDropped ==> (r matches Err(Error::Bridge(BridgeError::Crashed(m)))
                && m@ == "response channel dropped"@),
            outcome is TimedOut ==> r == Err::<(), Error>(
                Error::Bridge(BridgeError::Timeout(START_TIMEOUT_MS)),
            ),
    {
        match outcome {
            InitOutcome::Succeeded => {
                self.state = SidecarState::Ready;
                Ok(())
            },
            InitOutcome::Failed(e) => {
                self.state = SidecarState::Stopped;
                Err(e)
            },
            InitOutcome::ChannelDropped => {
                self.state = SidecarState::Stopped;
                Err(Error::Bridge(BridgeError::Crashed(String::from_str("response channel dropped"))))
            },
            InitOutcome::TimedOut => {
                self.state = SidecarState::Stopped;
                Err(Error::Bridge(BridgeError::Timeout(START_TIMEOUT_MS)))
            },
        }
    }

    /// Maps the end of an ordinary response wait to the caller's
    /// result: a delivered payload passes through; a dropped channel
    /// reads as a crash; silence is a timeout.
    pub fn finish_request(outcome: AwaitOutcome) -> (r: Result<Option<serde_json::Value>, Error>)
        ensures
            outcome matches AwaitOutcome::Delivered(x) ==> r == x,
            outcome is ChannelDropped ==> (r matches Err(Error::Bridge(BridgeError::Crashed(m)))
                && m@ == "response channel dropped"@),
            outcome is TimedOut ==> r == Err::<Option<serde_json::Value>, Error>(
                Error::Bridge(BridgeError::Timeout(REQUEST_TIMEOUT_MS)),
            ),
    {
        match outcome {
            AwaitOutcome::Delivered(x) => x,
            AwaitOutcome::ChannelDropped => Err(
                Error::Bridge(BridgeError::Crashed(String::from_str("response channel dropped"))),
            ),
            AwaitOutcome::TimedOut => Err(Error::Bridge(BridgeError::Timeout(REQUEST_TIMEOUT_MS))),
        }
    }

    /// Drains the pending set and returns the drained ids in order.
    pub fn cancel_all_pending(&mut self) -> (ids: Vec<u64>)
        requires
            old(self).wf(),
        ensures
            final(self).wf(),
            ids@ == old(self).pending@,
            final(self).pending@ == Seq::<u64>::empty(),
            final(self).state == old(self).state,
            final(self).next_id == old(self).next_id,
            final(self).issued == old(self).issued,
            final(self).config == old(self).config,
    {
        let mut ids: Vec<u64> = Vec::new();
        while self.pending.len() > 0
            invariant
                old(self).pending@ == ids@ + self.pending@,
                self.next_id == old(self).next_id,
                self.state == old(self).state,
                self.issued == old(self).issued,
                self.config == old(self).config,
            decreases self.pending@.len(),
        {
            let id = self.pending.remove(0);
            ids.push(id);
            proof {
                assert(old(self).pending@ =~= ids@ + self.pending@);
            }
        }
        proof {
            assert(ids@ =~= old(self).pending@);
        }
        ids
    }

    /// The sidecar's output stream closed or failed: every pending
    /// waiter is cancelled with a crash error carrying `reason`, and
    /// the state degrades unless the bridge was already stopped.
    pub fn on_reader_closed(&mut self, reason: &str) -> (r: (Vec<u64>, BridgeError))
        requires
            old(self).wf(),
        ensures
            final(self).wf(),
            r.0@ == old(self).pending@,
            r.1 matches BridgeError::Crashed(m) && m@ == reason@,
            final(self).pending@ == Seq::<u64>::empty(),
            final(self).state == step_state(old(self).state, StateEvent::ReaderClosed),
            final(self).next_id == old(self).next_id,
            final(self).issued == old(self).issued,
            final(self).config == old(self).config,
    {
        let ids = self.cancel_all_pending();
        let stopped = match self.state {
            SidecarState::Stopped => true,
            _ => false,
        };
        if !stopped {
            self.state = SidecarState::Degraded;
        }
        (ids, BridgeError::Crashed(reason.to_owned()))
    }

    /// Spawning the sidecar failed (the process itself, or capturing
    /// one of its pipes): nothing is running, so the bridge stops and
    /// the failure is reported to the caller of `start`.
    pub fn on_spawn_failure(&mut self, message: &str) -> (e: Error)
        requires
            old(self).wf(),
        ensures
            final(self).wf(),
            final(self).state == step_state(old(self).state, StateEvent::SpawnFailed),
            e matches Error::Bridge(BridgeError::SpawnFailed(m)) && m@ == message@,
            final(self).next_id == old(self).next_id,
            final(self).pending == old(self).pending,
            final(self).issued == old(self).issued,
            final(self).config == old(self).config,
    {
        self.state = SidecarState::Stopped;
        Error::Bridge(BridgeError::SpawnFailed(message.to_owned()))
    }

    /// The health monitor exhausted its ping failures: degrade.
    pub fn on_health_exhausted(&mut self)
        requires
            old(self).wf(),
        ensures
            final(self).wf(),
            final(self).state == step_state(old(self).state, StateEvent::PingFailuresExhausted),
            final(self).next_id == old(self).next_id,
            final(self).pending == old(self).pending,
            final(self).issued == old(self).issued,
            final(self).config == old(self).config,
    {
        self.state = SidecarState::Degraded;
    }

    /// Shuts the bridge down.  Already stopped: nothing to do.
    /// Otherwise every pending waiter is cancelled with a shutdown
    /// error, a best-effort `shutdown` request is produced for the
    /// writer, and the state becomes `Stopped`.
    pub fn on_shutdown(&mut self) -> (r: ShutdownActions)
        requires
            old(self).wf(),
            old(self).next_id < u64::MAX,
        ensures
            final(self).wf(),
            final(self).config == old(self).config,
            r.cancel_error matches BridgeError::Crashed(m) && m@ == "server shutting down"@,
            old(self).state == SidecarState::Stopped ==> {
                &&& r.cancelled@ == Seq::<u64>::empty()
                &&& r.shutdown_request is None
                &&& *final(self) == *old(self)
            },
            old(self).state != SidecarState::Stopped ==> {
                &&& r.cancelled@ == old(self).pending@
                &&& final(self).pending@ == Seq::<u64>::empty()
                &&& final(self).state == step_state(old(self).state, StateEvent::ShutdownRequested)
                &&& r.shutdown_request matches Some(req) && req.id == Some(old(self).next_id)
                    && req.method@ == "shutdown"@ && req.params is None
                &&& final(self).next_id == old(self).next_id + 1
            },
    {
        let stopped = match self.state {
            SidecarState::Stopped => true,
            _ => false,
        };
        if stopped {
            ShutdownActions {
                cancelled: Vec::new(),
                cancel_error: BridgeError::Crashed(String::from_str("server shutting down")),
                shutdown_request: None,
            }
        } else {
            let cancelled = self.cancel_all_pending();
            let id = self.next_id();
            let req = Request::new(id, "shutdown", None);
            self.state = SidecarState::Stopped;
            ShutdownActions {
                cancelled,
                cancel_error: BridgeError::Crashed(String::from_str("server shutting down")),
                shutdown_request: Some(req),
            }
        }
    }

    /// Routes one decoded sidecar message.  A message without an id or
    /// with an unknown id is dropped; a matching id consumes exactly
    /// that pending entry, and the payload is the message's `result`
    /// field, or a `MalformedResponse` error carrying the message's
    /// error code and text.
    pub fn dispatch_response(&mut self, resp: Response) -> (out: DispatchOutcome)
        requires
            old(self).wf(),
        ensures
            final(self).wf(),
            final(self).state == old(self).state,
            final(self).next_id == old(self).next_id,
            final(self).issued == old(self).issued,
            final(self).config == old(self).config,
            resp.id is None ==> out is NoId && final(self).pending == old(self).pending,
            resp.id matches Some(i) ==> (!old(self).pending@.contains(i) ==> out
                == (DispatchOutcome::UnknownId { id: i }) && final(self).pending == old(
                self,
            ).pending),
            resp.id matches Some(i) ==> (old(self).pending@.contains(i) ==> {
                &&& exists|k: int|
                    0 <= k < old(self).pending@.len() && #[trigger] old(self).pending@[k] == i
                        && final(self).pending@ == old(self).pending@.remove(k)
                &&& !final(self).pending@.contains(i)
                &&& out matches DispatchOutcome::Deliver { id, payload } && id == i && {
                    &&& resp.error matches Some(e) ==> (payload matches Err(
                        Error::Bridge(BridgeError::MalformedResponse(m)),
                    ) && m@ == "error "@ + dec_chars_signed(e.code as int) + ": "@ + e.message@)
                    &&& resp.error is None ==> payload == Ok::<
                        Option<serde_json::Value>,
                        Error,
                    >(resp.result)
                }
            }),
    {
        let Response { jsonrpc: _, id, result, error } = resp;
        match id {
            None => DispatchOutcome::NoId,
            Some(i) => {
                match find_index(&self.pending, i) {
                    None => DispatchOutcome::UnknownId { id: i },
                    Some(k) => {
                        self.pending.remove(k);
                        proof {
                            let p0 = old(self).pending@;
                            let p1 = self.pending@;
                            assert forall|a: int, b: int|
                                #![trigger p1[a], p1[b]]
                                0 <= a < b < p1.len() implies p1[a] != p1[b] by {
                                if b < k {
                                    assert(p1[a] == p0[a] && p1[b] == p0[b]);
                                } else if a < k {
                                    assert(p1[a] == p0[a] && p1[b] == p0[b + 1]);
                                } else {
                                    assert(p1[a] == p0[a + 1] && p1[b] == p0[b + 1]);
                                }
                            }
                            assert forall|a: int|
                                0 <= a < p1.len() implies 1 <= #[trigger] p1[a] < self.next_id by {
                                if a < k {
                                    assert(p1[a] == p0[a]);
                                } else {
                                    assert(p1[a] == p0[a + 1]);
                                }
                            }
                            assert forall|a: int| 0 <= a < p1.len() implies p1[a] != i by {
                                if a < k {
                                    assert(p1[a] == p0[a]);
                                } else {
                                    assert(p1[a] == p0[a + 1]);
                                }
                            }
                            assert(!p1.contains(i));
                        }
                        let payload = match error {
                            Some(e) => Err(
                                Error::Bridge(
                                    BridgeError::MalformedResponse(
                                        malformed_message(e.code, e.message.as_str()),
                                    ),
                                ),
                            ),
                            None => Ok(result),
                        };
                        DispatchOutcome::Deliver { id: i, payload }
                    },
                }
            },
        }
    }
}

/// Index of the first occurrence of `x` in `v`, if any.
fn find_index(v: &Vec<u64>, x: u64) -> (r: Option<usize>)
    ensures
        r matches Some(k) ==> 0 <= k < v@.len() && v@[k as int] == x,
        r is None ==> !v@.contains(x),
{
    let mut i: usize = 0;
    while i < v.len()
        invariant
            0 <= i <= v@.len(),
            forall|k: int| 0 <= k < i ==> v@[k] != x,
        decreases v@.len() - i,
    {
        if v[i] == x {
            return Some(i);
        }
        i = i + 1;
    }
    None
}

/// The text of a `MalformedResponse`: the sidecar's error code and
/// message.
fn malformed_message(code: i32, message: &str) -> (r: String)
    ensures
        r@ == "error "@ + dec_chars_signed(code as int) + ": "@ + message@,
{
    let mut out = String::from_str("error ");
    push_dec_chars_signed(code as i64, &mut out);
    out.append(": ");
    out.append(message);
    proof {
        assert(out@ =~= "error "@ + dec_chars_signed(code as int) + ": "@ + message@);
    }
    out
}

/// The ids a bridge has assigned are pairwise distinct and form
/// exactly the range 1..=K for K assignments; notifications take no
/// id, so this is the whole id story of the bridge's lifetime.
pub proof fn lemma_issued_ids_exact(c: BridgeCore)
    requires
        c.wf(),
    ensures
        forall|a: int, b: int|
            #![trigger c.issued@[a], c.issued@[b]]
            0 <= a < b < c.issued@.len() ==> c.issued@[a] != c.issued@[b],
        forall|n: u64| #[trigger] c.issued@.contains(n) <==> 1 <= n <= c.issued@.len(),
{
    assert forall|n: u64| #[trigger] c.issued@.contains(n) <==> 1 <= n <= c.issued@.len() by {
        if 1 <= n <= c.issued@.len() {
            assert(c.issued@[n as int - 1] == n);
        }
        if c.issued@.contains(n) {
            let k = choose|k: int| 0 <= k < c.issued@.len() && c.issued@[k] == n;
            assert(c.issued@[k] == k + 1);
        }
    }
}

/// The ping bookkeeping of the health task: successes reset the
/// failure count, failures accumulate until the limit.
pub struct HealthMonitor {
    pub consecutive_failures: u32,
}

/// How one health ping ended.
#[derive(Debug, Clone, Copy, PartialEq, Eq, Structural)]
pub enum PingOutcome {
    /// The sidecar answered the ping.
    Success,
    /// The sidecar answered with an error payload.
    ErrorResponse,
    /// The ping's response channel dropped.
    ChannelDropped,
    /// No answer within `HEALTH_PING_TIMEOUT_MS`.
    TimedOut,
}

/// What the health task does after a ping.
#[derive(Debug, Clone, Copy, PartialEq, Eq, Structural)]
pub enum HealthDecision {
    /// Keep pinging on the next tick.
    Continue,
    /// Mark the sidecar degraded and stop the health task.
    Degrade,
}

impl HealthMonitor {
    pub fn new() -> (m: HealthMonitor)
        ensures
            m.consecutive_failures == 0,
    {
        HealthMonitor { consecutive_failures: 0 }
    }

    /// A success clears the failure streak; an error or a timeout
    /// lengthens it, degrading at `MAX_PING_FAILURES`; a dropped
    /// channel degrades at once.
    pub fn on_ping_outcome(&mut self, outcome: PingOutcome) -> (d: HealthDecision)
        ensures
            outcome == PingOutcome::Success ==> final(self).consecutive_failures == 0 && d
                == HealthDecision::Continue,
            outcome == PingOutcome::ErrorResponse || outcome == PingOutcome::TimedOut ==> {
                &&& final(self).consecutive_failures == (if old(self).consecutive_failures
                    < MAX_PING_FAILURES {
                    old(self).consecutive_failures + 1
                } else {
                    old(self).consecutive_failures as int
                })
                &&& d == (if final(self).consecutive_failures >= MAX_PING_FAILURES {
                    HealthDecision::Degrade
                } else {
                    HealthDecision::Continue
                })
            },
            outcome == PingOutcome::ChannelDropped ==> final(self).consecutive_failures == old(
                self,
            ).consecutive_failures && d == HealthDecision::Degrade,
    {
        match outcome {
            PingOutcome::Success => {
                self.consecutive_failures = 0;
                HealthDecision::Continue
            },
            PingOutcome::ErrorResponse | PingOutcome::TimedOut => {
                if self.consecutive_failures < MAX_PING_FAILURES {
                    self.consecutive_failures = self.consecutive_failures + 1;
                }
                if self.consecutive_failures >= MAX_PING_FAILURES {
                    HealthDecision::Degrade
                } else {
                    HealthDecision::Continue
                }
            },
            PingOutcome::ChannelDropped => HealthDecision::Degrade,
        }
    }
}

/// Whether a health tick should send a ping at all: only while the
/// sidecar is ready; in any other state the health task exits.
pub fn health_should_ping(state: SidecarState) -> (r: bool)
    ensures
        r == (state == SidecarState::Ready),
{
    match state {
        SidecarState::Ready => true,
        _ => false,
    }
}

/// What the environment offers as JVM launchers; filled in by the
/// caller from the environment variables and the PATH lookup.
#[derive(Debug, Clone)]
pub struct JvmProbe {
    /// Value of the tool-specific JAVA_HOME override, when set.
    pub tool_home: Option<String>,
    /// Whether `<tool_home>/bin/java` exists.
    pub tool_home_java_exists: bool,
    /// Value of JAVA_HOME, when set.
    pub java_home: Option<String>,
    /// Whether `<java_home>/bin/java` exists.
    pub java_home_java_exists: bool,
    /// Trimmed output of the PATH lookup of `java`, when it succeeded.
    pub path_java: Option<String>,
}

/// Whether the tool-specific home yields a launcher.
pub open spec fn jvm_from_tool_home(p: JvmProbe) -> bool {
    p.tool_home is Some && p.tool_home_java_exists
}

/// Whether JAVA_HOME yields a launcher.
pub open spec fn jvm_from_java_home(p: JvmProbe) -> bool {
    p.java_home is Some && p.java_home_java_exists
}

/// Whether the PATH lookup yields a launcher.
pub open spec fn jvm_from_path(p: JvmProbe) -> bool {
    p.path_java matches Some(q) && q@.len() > 0
}

/// Discovers the JVM launcher: the tool-specific home wins, then
/// JAVA_HOME, then the PATH lookup; with none usable, an error.
pub fn find_java(p: &JvmProbe) -> (r: Result<String, ProjectError>)
    ensures
        p.tool_home matches Some(h) ==> (p.tool_home_java_exists ==> (r matches Ok(j) && j@ == h@
            + "/"@ + "bin/java"@)),
        !jvm_from_tool_home(*p) ==> (p.java_home matches Some(h) ==> (p.java_home_java_exists
            ==> (r matches Ok(j) && j@ == h@ + "/"@ + "bin/java"@))),
        !jvm_from_tool_home(*p) && !jvm_from_java_home(*p) ==> (p.path_java matches Some(q) ==> (
        q@.len() > 0 ==> (r matches Ok(j) && j@ == q@))),
        !jvm_from_tool_home(*p) && !jvm_from_java_home(*p) && !jvm_from_path(*p) ==> (r matches Err(
            ProjectError::JvmNotFound(m),
        ) && m@ == "No JVM found. Set JAVA_HOME or KOTLIN_LS_JAVA_HOME environment variable."@),
{
    match &p.tool_home {
        Some(h) => {
            if p.tool_home_java_exists {
                return Ok(crate::text::path_join(h.as_str(), "bin/java"));
            }
        },
        None => {},
    }
    match &p.java_home {
        Some(h) => {
            if p.java_home_java_exists {
                return Ok(crate::text::path_join(h.as_str(), "bin/java"));
            }
        },
        None => {},
    }
    match &p.path_java {
        Some(q) => {
            if !q.as_str().is_empty() {
                return Ok(q.clone());
            }
        },
        None => {},
    }
    Err(
        ProjectError::JvmNotFound(
            String::from_str(
                "No JVM found. Set JAVA_HOME or KOTLIN_LS_JAVA_HOME environment variable.",
            ),
        ),
    )
}

} // verus!

verus! {

/// The command line that launches the sidecar JVM: the memory cap,
/// the module-access flags the analyzer needs, and the jar.  The
/// caller prepends the launcher from `find_java`.
pub fn sidecar_command_args(max_memory: &str, sidecar_jar: &str) -> (r: Vec<String>)
    ensures
        r@.len() == 9,
        r@[0]@ == "-Xmx"@ + max_memory@,
        r@[1]@ == "--add-opens"@,
        r@[2]@ == "java.base/java.lang=ALL-UNNAMED"@,
        r@[3]@ == "--add-opens"@,
        r@[4]@ == "java.base/java.lang.reflect=ALL-UNNAMED"@,
        r@[5]@ == "--add-opens"@,
        r@[6]@ == "java.base/java.util=ALL-UNNAMED"@,
        r@[7]@ == "-jar"@,
        r@[8]@ == sidecar_jar@,
{
    let mut xmx = String::from_str("-Xmx");
    xmx.append(max_memory);
    let mut out: Vec<String> = Vec::new();
    out.push(xmx);
    out.push(String::from_str("--add-opens"));
    out.push(String::from_str("java.base/java.lang=ALL-UNNAMED"));
    out.push(String::from_str("--add-opens"));
    out.push(String::from_str("java.base/java.lang.reflect=ALL-UNNAMED"));
    out.push(String::from_str("--add-opens"));
    out.push(String::from_str("java.base/java.util=ALL-UNNAMED"));
    out.push(String::from_str("-jar"));
    out.push(sidecar_jar.to_owned());
    out
}

} // verus!
