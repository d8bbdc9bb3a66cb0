//! The call gateway: admission control, lazy start and per-call
//! bookkeeping around one supervisor.
//!
//! The gateway owns a fixed pool of admission permits. A caller takes a
//! permit before anything else and gives it back when the call concludes,
//! however it concludes, so that never more than `MAX_CONCURRENT_CALLS`
//! calls stand past admission at once. The waiting itself — on a permit,
//! on a response, on a timeout clock — is the caller's; every decision is
//! made and proved here.

use vstd::prelude::*;
use crate::json::JsonValue;
use crate::messages::{RequestData, encode_request_data, decode_response_line};
use crate::python_process::{PythonProcess, ProcessState, CallError, ControlError, LineOutcome};

verus! {

/// The fixed timeout, in seconds, applied to every call.
pub const CALL_TIMEOUT_SECS: u64 = 30;

/// How long, in milliseconds, a restart waits between tearing the old
/// worker down and spawning the new one.
pub const RESTART_WAIT_MILLIS: u64 = 100;

/// The fixed interval, in seconds, of the background health probe.
pub const HEALTH_CHECK_INTERVAL_SECS: u64 = 30;

/// Relies on `uuid::Uuid::new_v4` and its `Display` form: a random
/// identifier rendered hyphenated and lower-case, 36 characters long,
/// each a hexadecimal digit or a hyphen. Nothing is assumed about which
/// identifier comes back.
#[verifier::external_body]
fn fresh_request_id() -> (r: String)
    ensures
        r@.len() == 36,
        forall|i: int|
            0 <= i < 36 ==> ((48 <= #[trigger] (r@[i] as u32) && (r@[i] as u32) <= 57) || (97 <= (
            r@[i] as u32) && (r@[i] as u32) <= 102) || r@[i] == '-'),
{
    uuid::Uuid::new_v4().to_string()
}

/// Whether a worker path names a script for the interpreter: true
/// exactly when it ends in `.py`. Such a path is run through the
/// interpreter; any other path is run directly.
pub open spec fn names_script(path: Seq<char>) -> bool {
    path.len() >= 3 && path[path.len() - 3] == '.' && path[path.len() - 2] == 'p' && path[path.len()
        - 1] == 'y'
}

/// Decides whether the worker at this path must be run through the
/// interpreter.
pub fn uses_interpreter(engine_path: &str) -> (r: bool)
    ensures
        r == names_script(engine_path@),
{
    let cs = crate::text::chars_of(engine_path);
    let n = cs.len();
    n >= 3 && cs[n - 3] == '.' && cs[n - 2] == 'p' && cs[n - 1] == 'y'
}

/// The mathematical state of a gateway.
pub struct GatewayState {
    pub process: ProcessState,
    pub engine_path: Seq<char>,
    pub active_calls: int,
}

/// The call gateway around one supervisor.
pub struct PythonState {
    process: PythonProcess,
    engine_path: String,
    active_calls: usize,
}

impl View for PythonState {
    type V = GatewayState;

    closed spec fn view(&self) -> GatewayState {
        GatewayState {
            process: self.process@,
            engine_path: self.engine_path@,
            active_calls: self.active_calls as int,
        }
    }
}

impl PythonState {
    /// The admission bound is never exceeded.
    pub closed spec fn wf(&self) -> bool {
        self.process.wf() && self.active_calls <= crate::MAX_CONCURRENT_CALLS
    }

    /// A fresh gateway for a worker at this path: nothing attached,
    /// nothing in flight, every permit free.
    pub fn new(engine_path: String) -> (r: Self)
        ensures
            r.wf(),
            r@.engine_path == engine_path@,
            !r@.process.running,
            r@.process.pending == Set::<Seq<char>>::empty(),
            r@.active_calls == 0,
    {
        PythonState { process: PythonProcess::new(), engine_path, active_calls: 0 }
    }

    /// The path of the worker executable this gateway starts.
    pub fn engine_path(&self) -> (r: &str)
        ensures
            r@ == self@.engine_path,
    {
        self.engine_path.as_str()
    }

    /// How many calls are past admission and not yet concluded.
    pub fn active_calls(&self) -> (r: usize)
        ensures
            r == self@.active_calls,
    {
        self.active_calls
    }

    /// Takes one admission permit if any is free: succeeds exactly when
    /// fewer than `MAX_CONCURRENT_CALLS` calls are outstanding. A caller
    /// refused here waits and asks again; it may do nothing else with
    /// the call.
    pub fn try_admit(&mut self) -> (admitted: bool)
        requires
            old(self).wf(),
        ensures
            final(self).wf(),
            admitted == (old(self)@.active_calls < crate::MAX_CONCURRENT_CALLS),
            admitted ==> final(self)@.active_calls > 0,
            (final(self)@.active_calls, admitted) == crate::laws::admit_spec(
                old(self)@.active_calls,
            ),
            admitted ==> final(self)@ == (GatewayState {
                active_calls: old(self)@.active_calls + 1,
                ..old(self)@
            }),
            !admitted ==> *final(self) == *old(self),
    {
        if self.active_calls < crate::MAX_CONCURRENT_CALLS {
            self.active_calls = self.active_calls + 1;
            true
        } else {
            false
        }
    }

    /// Gives one admission permit back when a call concludes, however it
    /// concluded.
    pub fn release_permit(&mut self)
        requires
            old(self).wf(),
            old(self)@.active_calls > 0,
        ensures
            final(self).wf(),
            final(self)@ == (GatewayState {
                active_calls: old(self)@.active_calls - 1,
                ..old(self)@
            }),
    {
        self.active_calls = self.active_calls - 1;
    }

    /// Whether a start must spawn a worker: true exactly when none is
    /// attached. The lazy-start rule: a caller asks this under the lock,
    /// spawns only if told to, and reports the outcome to `start`.
    pub fn needs_spawn(&self) -> (r: bool)
        ensures
            r == !self@.process.running,
    {
        self.process.needs_spawn()
    }

    /// Whether a worker is attached.
    pub fn is_alive(&self) -> (r: bool)
        ensures
            r == self@.process.running,
    {
        self.process.is_alive()
    }

    /// The identifiers of every call now in flight.
    pub fn pending_ids(&self) -> (r: Vec<String>)
        ensures
            r.deep_view().to_set() == self@.process.pending,
    {
        self.process.pending_ids()
    }

    /// Applies the outcome of a start attempt; a no-op success when a
    /// worker is already attached.
    pub fn start(&mut self, spawn: Result<(), String>) -> (r: Result<(), CallError>)
        requires
            old(self).wf(),
        ensures
            final(self).wf(),
            final(self)@.engine_path == old(self)@.engine_path,
            final(self)@.active_calls == old(self)@.active_calls,
            old(self)@.process.running ==> r is Ok && final(self)@.process == old(self)@.process,
            !old(self)@.process.running && spawn is Ok ==> r is Ok && final(self)@.process.running
                && final(self)@.process.pending == old(self)@.process.pending,
            !old(self)@.process.running && spawn is Err ==> (r matches Err(
                CallError::StartFailure(m),
            ) && m@ == spawn->Err_0@) && final(self)@.process == old(self)@.process,
    {
        self.process.start(spawn)
    }

    /// Detaches the worker and hands back every in-flight identifier,
    /// each of whose waiters must be failed. Refused when none is
    /// attached.
    pub fn stop(&mut self) -> (r: Result<Vec<String>, ControlError>)
        requires
            old(self).wf(),
        ensures
            final(self).wf(),
            final(self)@.engine_path == old(self)@.engine_path,
            final(self)@.active_calls == old(self)@.active_calls,
            old(self)@.process.running ==> (r matches Ok(ids) && ids.deep_view().to_set() == old(self)@.process.pending) && !final(self)@.process.running && final(self)@.process.pending
                == Set::<Seq<char>>::empty(),
            !old(self)@.process.running ==> (r matches Err(ControlError::NotRunning)) && final(self)@.process == old(self)@.process,
    {
        self.process.stop()
    }

    /// Applies a liveness probe, exactly as the supervisor does.
    pub fn check_health(&mut self, exited: bool) -> (healthy: bool)
        requires
            old(self).wf(),
        ensures
            final(self).wf(),
            final(self)@.engine_path == old(self)@.engine_path,
            final(self)@.active_calls == old(self)@.active_calls,
            healthy == (old(self)@.process.running && !exited),
            !old(self)@.process.running ==> final(self)@.process == old(self)@.process,
            old(self)@.process.running && exited ==> !final(self)@.process.running && final(self)@.process.pending == Set::<Seq<char>>::empty(),
            old(self)@.process.running && !exited ==> final(self)@.process == old(self)@.process,
    {
        self.process.check_health(exited)
    }

    /// The teardown half of a restart.
    pub fn begin_restart(&mut self) -> (r: Vec<String>)
        requires
            old(self).wf(),
        ensures
            final(self).wf(),
            final(self)@.engine_path == old(self)@.engine_path,
            final(self)@.active_calls == old(self)@.active_calls,
            !final(self)@.process.running,
            final(self)@.process.pending == Set::<Seq<char>>::empty(),
            r.deep_view().to_set() == old(self)@.process.pending,
    {
        self.process.begin_restart()
    }

    /// Mints a fresh identifier, registers the call and frames its
    /// request line. Whatever identifier the mint produced: if no worker
    /// is attached, or the identifier collides with one in flight,
    /// nothing changes and a transport failure comes back; otherwise the
    /// call is in flight under the returned identifier and the returned
    /// line renders exactly this request. With a worker attached and
    /// nothing in flight no collision is possible, so success is owed.
    pub fn open_call(&mut self, function: &str, args: &JsonValue) -> (r: Result<
        (String, String),
        CallError,
    >)
        requires
            old(self).wf(),
        ensures
            final(self).wf(),
            final(self)@.engine_path == old(self)@.engine_path,
            final(self)@.active_calls == old(self)@.active_calls,
            final(self)@.process.running == old(self)@.process.running,
            !old(self)@.process.running ==> r is Err,
            old(self)@.process.running && old(self)@.process.pending == Set::<Seq<char>>::empty()
                ==> r is Ok,
            r is Err ==> (r matches Err(CallError::TransportFailure(_))) && final(self)@.process
                == old(self)@.process,
            r matches Ok((id, line)) ==> old(self)@.process.running && !old(self)@.process.pending.contains(id@) && line@ == encode_request_data(
                RequestData { id: id@, function: function@, args: args@ },
            ) && final(self)@.process.pending == old(self)@.process.pending.insert(id@)
                && id@.len() == 36,
    {
        let id = fresh_request_id();
        let id_copy = id.clone();
        match self.process.begin_call(function, args, id) {
            Ok(line) => Ok((id_copy, line)),
            Err(e) => Err(e),
        }
    }

    /// Resolves one line read from the worker's output against the
    /// correlation table.
    pub fn handle_line(&mut self, line: &str) -> (r: LineOutcome)
        requires
            old(self).wf(),
        ensures
            final(self).wf(),
            final(self)@.engine_path == old(self)@.engine_path,
            final(self)@.active_calls == old(self)@.active_calls,
            final(self)@.process.running == old(self)@.process.running,
            match decode_response_line(line@) {
                Option::None => r is Malformed && final(self)@.process == old(self)@.process,
                Option::Some(resp) => {
                    if old(self)@.process.pending.contains(resp.id) {
                        (r matches LineOutcome::Delivered(out) && out@ == resp) && final(self)@.process.pending == old(self)@.process.pending.remove(resp.id)
                    } else {
                        (r matches LineOutcome::Orphan(idt) && idt@ == resp.id) && final(self)@.process == old(self)@.process
                    }
                },
            },
    {
        self.process.handle_line(line)
    }

    /// Discards a timed-out call's slot and shapes its timeout failure.
    pub fn time_out_call(&mut self, id: &String) -> (r: CallError)
        requires
            old(self).wf(),
        ensures
            final(self).wf(),
            final(self)@.engine_path == old(self)@.engine_path,
            final(self)@.active_calls == old(self)@.active_calls,
            final(self)@.process.running == old(self)@.process.running,
            final(self)@.process.pending == old(self)@.process.pending.remove(id@),
            r is Timeout,
    {
        self.process.time_out_call(id)
    }

    /// Discards the slot of a call whose request could not be written,
    /// and shapes the transport failure to hand its caller.
    pub fn write_failed(&mut self, id: &String, message: String) -> (r: CallError)
        requires
            old(self).wf(),
        ensures
            final(self).wf(),
            final(self)@.engine_path == old(self)@.engine_path,
            final(self)@.active_calls == old(self)@.active_calls,
            final(self)@.process.running == old(self)@.process.running,
            final(self)@.process.pending == old(self)@.process.pending.remove(id@),
            r matches CallError::TransportFailure(m) && m@ == message@,
    {
        self.process.write_failed(id, message)
    }
}

} // verus!
