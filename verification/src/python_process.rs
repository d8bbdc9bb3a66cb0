//! The supervisor of one worker process, as a state machine.
//!
//! The worker itself lives outside this crate: spawning, killing and
//! probing it, writing its input and reading its output are performed by
//! the caller, who reports each observation here as a plain value. This
//! type owns the decision logic: it tracks whether a worker is attached
//! (running) or not (absent), owns the correlation table, frames each
//! outgoing request, and resolves each incoming line against the table.
//! Every transition is stated exactly in the contracts.

use vstd::prelude::*;
use crate::correlation::CorrelationTable;
use crate::json::{JsonValue, JsonData};
use crate::messages::{
    IpcRequest, IpcResponse, RequestData, encode_request, encode_request_data,
    decode_response_line,
};
use crate::messages::decode_response;
use vstd::string::StringExecFns;

verus! {

/// Why a call did not produce a value.
#[derive(Debug)]
pub enum CallError {
    /// The worker could not be started: the executable is missing or the
    /// spawn was refused.
    StartFailure(String),
    /// The channel to the worker failed: no worker attached, a write or
    /// flush error, or a broken stream.
    TransportFailure(String),
    /// No matching response arrived within the timeout window.
    Timeout,
    /// The worker itself reported failure; its message passes through
    /// verbatim.
    RemoteError(String),
}

/// Why a lifecycle operation was refused.
#[derive(Debug, PartialEq, Eq, Structural)]
pub enum ControlError {
    /// There is no worker to stop.
    NotRunning,
}

/// What one line read from the worker's output meant.
#[derive(Debug)]
pub enum LineOutcome {
    /// The line answered the call with this identifier; hand the
    /// response to its waiting caller.
    Delivered(IpcResponse),
    /// A well-formed response whose identifier has no slot: a call that
    /// already timed out or was never made. Dropped.
    Orphan(String),
    /// Not a well-formed response line. Logged and dropped; other calls
    /// are unaffected.
    Malformed,
}

/// The mathematical state of a supervisor: whether a worker is attached,
/// and the identifiers of the calls in flight.
pub struct ProcessState {
    pub running: bool,
    pub pending: Set<Seq<char>>,
}

/// The supervisor of one worker process.
pub struct PythonProcess {
    running: bool,
    pending: CorrelationTable,
}

impl View for PythonProcess {
    type V = ProcessState;

    closed spec fn view(&self) -> ProcessState {
        ProcessState { running: self.running, pending: self.pending@ }
    }
}

impl PythonProcess {
    pub closed spec fn wf(&self) -> bool {
        self.pending.wf()
    }

    /// A fresh supervisor: no worker attached, nothing in flight.
    pub fn new() -> (r: Self)
        ensures
            r.wf(),
            !r@.running,
            r@.pending == Set::<Seq<char>>::empty(),
    {
        PythonProcess { running: false, pending: CorrelationTable::new() }
    }

    /// Whether a worker is attached.
    pub fn is_alive(&self) -> (r: bool)
        ensures
            r == self@.running,
    {
        self.running
    }
}

impl Default for PythonProcess {
    /// A fresh supervisor, exactly as `new` builds it.
    fn default() -> (r: Self)
        ensures
            r.wf(),
            !r@.running,
            r@.pending == Set::<Seq<char>>::empty(),
    {
        PythonProcess::new()
    }
}

impl PythonProcess {
    /// Whether a start must spawn a worker: true exactly when none is
    /// attached.
    pub fn needs_spawn(&self) -> (r: bool)
        ensures
            r == !self@.running,
    {
        !self.running
    }

    /// The identifiers of every call now in flight, for the caller to
    /// fail when the worker is torn down.
    pub fn pending_ids(&self) -> (r: Vec<String>)
        ensures
            r.deep_view().to_set() == self@.pending,
    {
        self.pending.snapshot()
    }

    /// Applies the outcome of a start: a no-op success when a worker is
    /// already attached; otherwise the reported spawn outcome decides
    /// between Running and a start failure that leaves the state as it
    /// was.
    pub fn start(&mut self, spawn: Result<(), String>) -> (r: Result<(), CallError>)
        requires
            old(self).wf(),
        ensures
            final(self).wf(),
            old(self)@.running ==> r is Ok && *final(self) == *old(self),
            !old(self)@.running && spawn is Ok ==> r is Ok && final(self)@.running && final(self)@.pending == old(self)@.pending,
            !old(self)@.running && spawn is Err ==> (r matches Err(CallError::StartFailure(m))
                && m@ == spawn->Err_0@) && *final(self) == *old(self),
    {
        if self.running {
            return Ok(());
        }
        match spawn {
            Ok(()) => {
                self.running = true;
                Ok(())
            },
            Err(m) => Err(CallError::StartFailure(m)),
        }
    }

    /// Detaches the worker, discarding every slot: the caller must kill
    /// the process and fail each returned identifier's waiter, so that no
    /// call hangs. Refused when no worker is attached.
    pub fn stop(&mut self) -> (r: Result<Vec<String>, ControlError>)
        requires
            old(self).wf(),
        ensures
            final(self).wf(),
            old(self)@.running ==> (r matches Ok(ids) && ids.deep_view().to_set() == old(self)@.pending) && !final(self)@.running && final(self)@.pending == Set::<Seq<char>>::empty(),
            !old(self)@.running ==> (r matches Err(ControlError::NotRunning)) && *final(self) == *old(self),
    {
        if !self.running {
            return Err(ControlError::NotRunning);
        }
        self.running = false;
        Ok(self.pending.drain())
    }

    /// Applies a liveness probe: absent stays absent and is unhealthy;
    /// a worker seen exited is detached, its slots discarded, and
    /// reported unhealthy exactly once; a live worker changes nothing.
    pub fn check_health(&mut self, exited: bool) -> (healthy: bool)
        requires
            old(self).wf(),
        ensures
            final(self).wf(),
            (final(self)@, healthy) == crate::laws::probe_spec(old(self)@, exited),
            healthy == (old(self)@.running && !exited),
            !old(self)@.running ==> *final(self) == *old(self),
            old(self)@.running && exited ==> !final(self)@.running && final(self)@.pending
                == Set::<Seq<char>>::empty(),
            old(self)@.running && !exited ==> *final(self) == *old(self),
    {
        if !self.running {
            return false;
        }
        if exited {
            self.running = false;
            let _orphans = self.pending.drain();
            false
        } else {
            true
        }
    }

    /// The teardown half of a restart: detaches whatever worker there
    /// is, ignoring whether one was attached, and discards every slot.
    /// The caller kills the old process, waits briefly, spawns anew and
    /// reports the outcome to `start`.
    pub fn begin_restart(&mut self) -> (r: Vec<String>)
        requires
            old(self).wf(),
        ensures
            final(self).wf(),
            !final(self)@.running,
            final(self)@.pending == Set::<Seq<char>>::empty(),
            r.deep_view().to_set() == old(self)@.pending,
    {
        self.running = false;
        self.pending.drain()
    }

    /// Registers a fresh call and frames its request as the one line to
    /// write. Succeeds exactly when a worker is attached and the
    /// identifier is not already in flight.
    pub fn begin_call(&mut self, function: &str, args: &JsonValue, id: String) -> (r: Result<
        String,
        CallError,
    >)
        requires
            old(self).wf(),
        ensures
            final(self).wf(),
            !old(self)@.running ==> (r matches Err(CallError::TransportFailure(_)))
                && *final(self) == *old(self),
            old(self)@.running && old(self)@.pending.contains(id@) ==> (r matches Err(
                CallError::TransportFailure(_),
            )) && *final(self) == *old(self),
            old(self)@.running && !old(self)@.pending.contains(id@) ==> (r matches Ok(line)
                && line@ == encode_request_data(
                RequestData { id: id@, function: function@, args: args@ },
            )) && final(self)@.running == old(self)@.running && final(self)@.pending == old(self)@.pending.insert(id@),
    {
        if !self.running {
            return Err(CallError::TransportFailure(String::from_str("worker not started")));
        }
        let ghost idv = id@;
        let req = IpcRequest {
            id,
            function: String::from_str(function),
            args: crate::json::clone_json(args),
        };
        if !self.pending.register(req.id.clone()) {
            return Err(
                CallError::TransportFailure(String::from_str("request identifier already in flight")),
            );
        }
        let line = encode_request(&req);
        Ok(line)
    }

    /// Resolves one line read from the worker's output: a well-formed
    /// response whose identifier is in flight is delivered and its slot
    /// removed; one whose identifier is unknown is an orphan and changes
    /// nothing; an ill-formed line is malformed and changes nothing.
    pub fn handle_line(&mut self, line: &str) -> (r: LineOutcome)
        requires
            old(self).wf(),
        ensures
            final(self).wf(),
            final(self)@.running == old(self)@.running,
            (final(self)@.pending, crate::laws::resolution_of(r)) == crate::laws::resolve_line_spec(
                old(self)@.pending,
                line@,
            ),
            match decode_response_line(line@) {
                Option::None => r is Malformed && *final(self) == *old(self),
                Option::Some(resp) => {
                    if old(self)@.pending.contains(resp.id) {
                        (r matches LineOutcome::Delivered(out) && out@ == resp) && final(self)@.pending == old(self)@.pending.remove(resp.id)
                    } else {
                        (r matches LineOutcome::Orphan(idt) && idt@ == resp.id) && *final(self)
                            == *old(self)
                    }
                },
            },
    {
        match decode_response(line) {
            Option::None => LineOutcome::Malformed,
            Option::Some(resp) => {
                if self.pending.remove_id(&resp.id) {
                    LineOutcome::Delivered(resp)
                } else {
                    proof {
                        assert(old(self)@.pending.remove(resp@.id) =~= old(self)@.pending);
                    }
                    LineOutcome::Orphan(resp.id)
                }
            },
        }
    }

    /// Discards the slot of a call that timed out; the identifier may
    /// already be gone if a response won the race. A late response will
    /// then resolve to no slot and be dropped as an orphan.
    pub fn time_out_call(&mut self, id: &String) -> (r: CallError)
        requires
            old(self).wf(),
        ensures
            final(self).wf(),
            final(self)@.running == old(self)@.running,
            final(self)@.pending == old(self)@.pending.remove(id@),
            r is Timeout,
    {
        let _was_pending = self.pending.remove_id(id);
        CallError::Timeout
    }

    /// Discards the slot of a call whose request could not be written,
    /// and shapes the transport failure to hand its caller.
    pub fn write_failed(&mut self, id: &String, message: String) -> (r: CallError)
        requires
            old(self).wf(),
        ensures
            final(self).wf(),
            final(self)@.running == old(self)@.running,
            final(self)@.pending == old(self)@.pending.remove(id@),
            r matches CallError::TransportFailure(m) && m@ == message@,
    {
        let _was_pending = self.pending.remove_id(id);
        CallError::TransportFailure(message)
    }

    /// Turns a delivered response into the call's outcome: a successful
    /// response yields exactly the value the worker produced, or the
    /// null value when it produced none; a failed response yields the
    /// worker's message verbatim, or a fixed message when it sent none.
    pub fn conclude_call(resp: IpcResponse) -> (r: Result<JsonValue, CallError>)
        ensures
            resp@.success && resp@.result is Some ==> (r matches Ok(out) && out@
                == resp@.result.unwrap()),
            resp@.success && resp@.result is None ==> (r matches Ok(out) && out@ == JsonData::Null),
            !resp@.success && resp@.error is Some ==> (r matches Err(CallError::RemoteError(e))
                && e@ == resp@.error.unwrap()),
            !resp@.success && resp@.error is None ==> (r matches Err(CallError::RemoteError(e))
                && e@ == "Unknown error"@),
            r matches Ok(out) ==> crate::laws::conclude_spec(resp@) == Ok::<JsonData, Seq<char>>(
                out@,
            ),
            r matches Err(CallError::RemoteError(e)) ==> crate::laws::conclude_spec(resp@)
                == Err::<JsonData, Seq<char>>(e@),
            r is Ok || (r matches Err(CallError::RemoteError(_))),
    {
        if resp.success {
            match resp.result {
                Option::Some(v) => Ok(v),
                Option::None => Ok(JsonValue::Null),
            }
        } else {
            match resp.error {
                Option::Some(m) => Err(CallError::RemoteError(m)),
                Option::None => Err(CallError::RemoteError(String::from_str("Unknown error"))),
            }
        }
    }
}

} // verus!
