//! The laws of the supervisor, stated over its mathematical model and
//! proved once and for all.
//!
//! Each executable operation promises in its contract that it takes the
//! model along the transition functions written here; the proofs below
//! then hold of every run of the system, however calls, responses,
//! timeouts and teardowns interleave.

use vstd::prelude::*;
use crate::json::JsonData;
use crate::messages::{ResponseData, decode_response_line};
use crate::python_process::{ProcessState, LineOutcome};

verus! {

/// What resolving one line does to the set of in-flight identifiers,
/// and what the line turned out to be.
pub enum LineResolution {
    Delivered(ResponseData),
    Orphan(Seq<char>),
    Malformed,
}

/// What an executable line outcome says in the model.
pub open spec fn resolution_of(r: LineOutcome) -> LineResolution {
    match r {
        LineOutcome::Delivered(resp) => LineResolution::Delivered(resp@),
        LineOutcome::Orphan(id) => LineResolution::Orphan(id@),
        LineOutcome::Malformed => LineResolution::Malformed,
    }
}

/// The resolution of one output line against the in-flight set: a
/// well-formed response whose identifier is in flight removes exactly
/// that identifier and is delivered; any other line changes nothing.
pub open spec fn resolve_line_spec(pending: Set<Seq<char>>, line: Seq<char>) -> (
    Set<Seq<char>>,
    LineResolution,
) {
    match decode_response_line(line) {
        Option::None => (pending, LineResolution::Malformed),
        Option::Some(resp) => {
            if pending.contains(resp.id) {
                (pending.remove(resp.id), LineResolution::Delivered(resp))
            } else {
                (pending, LineResolution::Orphan(resp.id))
            }
        },
    }
}

/// The outcome a delivered response hands its caller: the produced
/// value (the null value where none was produced), or the worker's
/// message (a fixed one where none was sent).
pub open spec fn conclude_spec(resp: ResponseData) -> Result<JsonData, Seq<char>> {
    if resp.success {
        Ok(
            match resp.result {
                Option::Some(v) => v,
                Option::None => JsonData::Null,
            },
        )
    } else {
        Err(
            match resp.error {
                Option::Some(m) => m,
                Option::None => "Unknown error"@,
            },
        )
    }
}

/// What a liveness probe does: an absent worker is unhealthy without
/// side effects; one seen exited is detached, every slot discarded,
/// and reported unhealthy; a live one is healthy and untouched.
pub open spec fn probe_spec(p: ProcessState, exited: bool) -> (ProcessState, bool) {
    if !p.running {
        (p, false)
    } else if exited {
        (ProcessState { running: false, pending: Set::empty() }, false)
    } else {
        (p, true)
    }
}

/// What an admission attempt does to the count of outstanding calls.
pub open spec fn admit_spec(active: int) -> (int, bool) {
    if active < crate::MAX_CONCURRENT_CALLS {
        (active + 1, true)
    } else {
        (active, false)
    }
}

/// A successful response that arrives for a call in flight is delivered
/// as exactly the response the worker sent, its slot alone leaves the
/// table, and the value the worker produced reaches the caller
/// unaltered.
pub proof fn lemma_success_returns_exact_value(
    pending: Set<Seq<char>>,
    line: Seq<char>,
    resp: ResponseData,
    v: JsonData,
)
    requires
        decode_response_line(line) == Some(resp),
        pending.contains(resp.id),
        resp.success,
        resp.result == Some(v),
    ensures
        resolve_line_spec(pending, line) == (
            pending.remove(resp.id),
            LineResolution::Delivered(resp),
        ),
        conclude_spec(resp) == Ok::<JsonData, Seq<char>>(v),
{
}

/// Once a timeout has discarded a call's identifier, that identifier is
/// no longer in flight, and a late response bearing it resolves no
/// slot: it is reported an orphan and the in-flight set is unchanged.
pub proof fn lemma_timed_out_call_is_gone(
    pending: Set<Seq<char>>,
    line: Seq<char>,
    resp: ResponseData,
)
    requires
        decode_response_line(line) == Some(resp),
    ensures
        !pending.remove(resp.id).contains(resp.id),
        resolve_line_spec(pending.remove(resp.id), line) == (
            pending.remove(resp.id),
            LineResolution::Orphan(resp.id),
        ),
{
}

/// The count of calls past admission never passes the bound: within the
/// bound an admission raises it by one and stays within; at the bound an
/// admission is refused and changes nothing, and only a release makes
/// the next admission succeed.
pub proof fn lemma_admission_bound(active: int)
    requires
        0 <= active <= crate::MAX_CONCURRENT_CALLS,
    ensures
        0 <= admit_spec(active).0 <= crate::MAX_CONCURRENT_CALLS,
        active == crate::MAX_CONCURRENT_CALLS ==> admit_spec(active) == (active, false),
        active == crate::MAX_CONCURRENT_CALLS ==> admit_spec(active - 1).1,
        active < crate::MAX_CONCURRENT_CALLS ==> admit_spec(active) == (active + 1, true),
{
}

/// A stop hands back exactly the identifiers of the calls outstanding
/// at that moment — each of their waiters is failed, none is left
/// hanging — and afterwards no line, whatever it holds, is delivered
/// to anyone.
pub proof fn lemma_stop_fails_every_outstanding_call(
    pending: Set<Seq<char>>,
    returned: Set<Seq<char>>,
    line: Seq<char>,
)
    requires
        returned == pending,
    ensures
        forall|id: Seq<char>| pending.contains(id) ==> returned.contains(id),
        !(resolve_line_spec(Set::empty(), line).1 is Delivered),
        resolve_line_spec(Set::empty(), line).0 == Set::<Seq<char>>::empty(),
{
}

/// A worker that exited on its own is reported unhealthy on the probe
/// that observes it, with the one transition out of Running; a second
/// probe reports unhealthy again without further effect; and a start
/// whose spawn succeeded puts the supervisor back in Running.
pub proof fn lemma_exit_observed_once_then_restart(p: ProcessState)
    requires
        p.running,
    ensures
        probe_spec(p, true) == (
            ProcessState { running: false, pending: Set::<Seq<char>>::empty() },
            false,
        ),
        probe_spec(probe_spec(p, true).0, true) == (probe_spec(p, true).0, false),
        probe_spec(probe_spec(p, true).0, false) == (probe_spec(p, true).0, false),
{
}

/// Two calls in flight together receive each its own response, in
/// whatever order the worker answers: resolving the second call's line
/// first delivers the second response and leaves the first call in
/// flight; resolving the first call's line then delivers the first
/// response; nothing else leaves the table.
pub proof fn lemma_out_of_order_delivery(
    pending: Set<Seq<char>>,
    line_a: Seq<char>,
    resp_a: ResponseData,
    line_b: Seq<char>,
    resp_b: ResponseData,
)
    requires
        decode_response_line(line_a) == Some(resp_a),
        decode_response_line(line_b) == Some(resp_b),
        pending.contains(resp_a.id),
        pending.contains(resp_b.id),
        resp_a.id != resp_b.id,
    ensures
        resolve_line_spec(pending, line_b).1 == LineResolution::Delivered(resp_b),
        resolve_line_spec(pending, line_b).0.contains(resp_a.id),
        resolve_line_spec(resolve_line_spec(pending, line_b).0, line_a).1
            == LineResolution::Delivered(resp_a),
        resolve_line_spec(resolve_line_spec(pending, line_b).0, line_a).0 == pending.remove(
            resp_b.id,
        ).remove(resp_a.id),
{
}

} // verus!
