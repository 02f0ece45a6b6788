use vstd::prelude::*;
use crate::sundials_context::{SUNContext, SUNErrHandlerFn, SUNErrHandler_};
use crate::sundials_futils::SUNFile;
use crate::sundials_logger::{SUNLogLevel, SUNLogger, SUNLogger_QueueMsg, SUN_LOGLEVEL_ERROR, queue_msg_outcome};
use crate::sundials_types::SUNErrCode;
use crate::sundials_utils::{file_and_line, sunCombineFileAndLine};

verus! {

pub const SUN_SUCCESS: SUNErrCode = 0;
pub const SUN_ERR_MINIMUM: SUNErrCode = -10000;
pub const SUN_ERR_ARG_CORRUPT: SUNErrCode = -9999;
pub const SUN_ERR_ARG_INCOMPATIBLE: SUNErrCode = -9998;
pub const SUN_ERR_ARG_OUTOFRANGE: SUNErrCode = -9997;
pub const SUN_ERR_ARG_WRONGTYPE: SUNErrCode = -9996;
pub const SUN_ERR_ARG_DIMSMISMATCH: SUNErrCode = -9995;
pub const SUN_ERR_GENERIC: SUNErrCode = -9994;
pub const SUN_ERR_CORRUPT: SUNErrCode = -9993;
pub const SUN_ERR_OUTOFRANGE: SUNErrCode = -9992;
pub const SUN_ERR_FILE_OPEN: SUNErrCode = -9991;
pub const SUN_ERR_OP_FAIL: SUNErrCode = -9990;
pub const SUN_ERR_MEM_FAIL: SUNErrCode = -9989;
pub const SUN_ERR_MALLOC_FAIL: SUNErrCode = -9988;
pub const SUN_ERR_EXT_FAIL: SUNErrCode = -9987;
pub const SUN_ERR_DESTROY_FAIL: SUNErrCode = -9986;
pub const SUN_ERR_NOT_IMPLEMENTED: SUNErrCode = -9985;
pub const SUN_ERR_USER_FCN_FAIL: SUNErrCode = -9984;
pub const SUN_ERR_DATANODE_NODENOTFOUND: SUNErrCode = -9983;
pub const SUN_ERR_PROFILER_MAPFULL: SUNErrCode = -9982;
pub const SUN_ERR_PROFILER_MAPGET: SUNErrCode = -9981;
pub const SUN_ERR_PROFILER_MAPINSERT: SUNErrCode = -9980;
pub const SUN_ERR_PROFILER_MAPKEYNOTFOUND: SUNErrCode = -9979;
pub const SUN_ERR_PROFILER_MAPSORT: SUNErrCode = -9978;
pub const SUN_ERR_ADJOINT_STEPPERFAILED: SUNErrCode = -9977;
pub const SUN_ERR_ADJOINT_STEPPERINVALIDSTOP: SUNErrCode = -9976;
pub const SUN_ERR_CHECKPOINT_NOT_FOUND: SUNErrCode = -9975;
pub const SUN_ERR_CHECKPOINT_MISMATCH: SUNErrCode = -9974;
pub const SUN_ERR_SUNCTX_CORRUPT: SUNErrCode = -9973;
pub const SUN_ERR_MPI_FAIL: SUNErrCode = -9972;
pub const SUN_ERR_UNREACHABLE: SUNErrCode = -9971;
pub const SUN_ERR_UNKNOWN: SUNErrCode = -9970;
pub const SUN_ERR_MAXIMUM: SUNErrCode = -1000;

/// The message for an error code.
pub open spec fn spec_err_msg(code: SUNErrCode) -> Seq<char> {
    if code == SUN_ERR_ARG_CORRUPT {
        "argument provided is NULL or corrupted"@
    } else if code == SUN_ERR_ARG_INCOMPATIBLE {
        "argument provided is not compatible"@
    } else if code == SUN_ERR_ARG_OUTOFRANGE {
        "argument is out of the valid range"@
    } else if code == SUN_ERR_ARG_WRONGTYPE {
        "argument provided is not the right type"@
    } else if code == SUN_ERR_ARG_DIMSMISMATCH {
        "argument dimensions do not agree"@
    } else if code == SUN_ERR_GENERIC {
        "an error occurred"@
    } else if code == SUN_ERR_CORRUPT {
        "value is NULL or corrupt"@
    } else if code == SUN_ERR_OUTOFRANGE {
        "Value is out of the expected range"@
    } else if code == SUN_ERR_FILE_OPEN {
        "Unable to open file"@
    } else if code == SUN_ERR_OP_FAIL {
        "an operation failed"@
    } else if code == SUN_ERR_MEM_FAIL {
        "a memory operation failed"@
    } else if code == SUN_ERR_MALLOC_FAIL {
        "malloc returned NULL"@
    } else if code == SUN_ERR_EXT_FAIL {
        "a failure occurred in an external library"@
    } else if code == SUN_ERR_DESTROY_FAIL {
        "a destroy function returned an error"@
    } else if code == SUN_ERR_NOT_IMPLEMENTED {
        "operation is not implemented: function pointer is NULL"@
    } else if code == SUN_ERR_USER_FCN_FAIL {
        "the user provided callback function failed"@
    } else if code == SUN_ERR_DATANODE_NODENOTFOUND {
        "the data node could not be found"@
    } else if code == SUN_ERR_PROFILER_MAPFULL {
        "the number of profiler entries exceeded SUNPROFILER_MAX_ENTRIES"@
    } else if code == SUN_ERR_PROFILER_MAPGET {
        "unknown error getting SUNProfiler timer"@
    } else if code == SUN_ERR_PROFILER_MAPINSERT {
        "unknown error inserting SUNProfiler timer"@
    } else if code == SUN_ERR_PROFILER_MAPKEYNOTFOUND {
        "timer was not found in SUNProfiler"@
    } else if code == SUN_ERR_PROFILER_MAPSORT {
        "error sorting SUNProfiler map"@
    } else if code == SUN_ERR_ADJOINT_STEPPERFAILED {
        "SUNStepper stopped without successfully reaching the requested output time when solving the adjoint system"@
    } else if code == SUN_ERR_ADJOINT_STEPPERINVALIDSTOP {
        "SUNStepper stopped with a flag not supported by the adjoint solver"@
    } else if code == SUN_ERR_CHECKPOINT_NOT_FOUND {
        "the requested checkpoint was not found"@
    } else if code == SUN_ERR_CHECKPOINT_MISMATCH {
        "the expected time for the checkpoint and the stored time do not match"@
    } else if code == SUN_ERR_SUNCTX_CORRUPT {
        "SUNContext is NULL or corrupt"@
    } else if code == SUN_ERR_MPI_FAIL {
        "an MPI call returned something other than MPI_SUCCESS"@
    } else if code == SUN_ERR_UNREACHABLE {
        "Reached code that should be unreachable: open an issue at: https://github.com/LLNL/sundials"@
    } else if code == SUN_ERR_UNKNOWN {
        "Unknown error occurred: open an issue at https://github.com/LLNL/sundials"@
    } else {
        "unknown error"@
    }
}

/// The error codes from `SUN_ERR_ARG_CORRUPT` to `SUN_ERR_UNKNOWN` each
/// have a message of their own, none of them "unknown error"; every other
/// code has "unknown error".
pub proof fn law_err_msgs_distinct(a: SUNErrCode, b: SUNErrCode)
    ensures
        SUN_ERR_ARG_CORRUPT <= a <= SUN_ERR_UNKNOWN ==> spec_err_msg(a) != "unknown error"@,
        !(SUN_ERR_ARG_CORRUPT <= a <= SUN_ERR_UNKNOWN) ==> spec_err_msg(a) == "unknown error"@,
        SUN_ERR_ARG_CORRUPT <= a <= SUN_ERR_UNKNOWN && SUN_ERR_ARG_CORRUPT <= b <= SUN_ERR_UNKNOWN && a != b
            ==> spec_err_msg(a) != spec_err_msg(b),
{
    reveal_strlit("argument provided is NULL or corrupted");
    reveal_strlit("argument provided is not compatible");
    reveal_strlit("argument is out of the valid range");
    reveal_strlit("argument provided is not the right type");
    reveal_strlit("argument dimensions do not agree");
    reveal_strlit("an error occurred");
    reveal_strlit("value is NULL or corrupt");
    reveal_strlit("Value is out of the expected range");
    reveal_strlit("Unable to open file");
    reveal_strlit("an operation failed");
    reveal_strlit("a memory operation failed");
    reveal_strlit("malloc returned NULL");
    reveal_strlit("a failure occurred in an external library");
    reveal_strlit("a destroy function returned an error");
    reveal_strlit("operation is not implemented: function pointer is NULL");
    reveal_strlit("the user provided callback function failed");
    reveal_strlit("the data node could not be found");
    reveal_strlit("the number of profiler entries exceeded SUNPROFILER_MAX_ENTRIES");
    reveal_strlit("unknown error getting SUNProfiler timer");
    reveal_strlit("unknown error inserting SUNProfiler timer");
    reveal_strlit("timer was not found in SUNProfiler");
    reveal_strlit("error sorting SUNProfiler map");
    reveal_strlit("SUNStepper stopped without successfully reaching the requested output time when solving the adjoint system");
    reveal_strlit("SUNStepper stopped with a flag not supported by the adjoint solver");
    reveal_strlit("the requested checkpoint was not found");
    reveal_strlit("the expected time for the checkpoint and the stored time do not match");
    reveal_strlit("SUNContext is NULL or corrupt");
    reveal_strlit("an MPI call returned something other than MPI_SUCCESS");
    reveal_strlit("Reached code that should be unreachable: open an issue at: https://github.com/LLNL/sundials");
    reveal_strlit("Unknown error occurred: open an issue at https://github.com/LLNL/sundials");
    reveal_strlit("unknown error");
    if SUN_ERR_ARG_CORRUPT <= a <= SUN_ERR_UNKNOWN {
        assert(spec_err_msg(a).len() != spec_err_msg(SUN_SUCCESS).len() || spec_err_msg(a)[0] != spec_err_msg(SUN_SUCCESS)[0]);
        if SUN_ERR_ARG_CORRUPT <= b <= SUN_ERR_UNKNOWN && a != b {
            assert(spec_err_msg(a).len() != spec_err_msg(b).len() || spec_err_msg(a)[0] != spec_err_msg(b)[0]);
        }
    }
}

/// A message describing the error code; "unknown error" for a code that
/// names no error.
pub fn SUNGetErrMsg(code: SUNErrCode) -> (msg: &'static str)
    ensures
        msg@ == spec_err_msg(code),
{
    if code == SUN_ERR_ARG_CORRUPT {
        "argument provided is NULL or corrupted"
    } else if code == SUN_ERR_ARG_INCOMPATIBLE {
        "argument provided is not compatible"
    } else if code == SUN_ERR_ARG_OUTOFRANGE {
        "argument is out of the valid range"
    } else if code == SUN_ERR_ARG_WRONGTYPE {
        "argument provided is not the right type"
    } else if code == SUN_ERR_ARG_DIMSMISMATCH {
        "argument dimensions do not agree"
    } else if code == SUN_ERR_GENERIC {
        "an error occurred"
    } else if code == SUN_ERR_CORRUPT {
        "value is NULL or corrupt"
    } else if code == SUN_ERR_OUTOFRANGE {
        "Value is out of the expected range"
    } else if code == SUN_ERR_FILE_OPEN {
        "Unable to open file"
    } else if code == SUN_ERR_OP_FAIL {
        "an operation failed"
    } else if code == SUN_ERR_MEM_FAIL {
        "a memory operation failed"
    } else if code == SUN_ERR_MALLOC_FAIL {
        "malloc returned NULL"
    } else if code == SUN_ERR_EXT_FAIL {
        "a failure occurred in an external library"
    } else if code == SUN_ERR_DESTROY_FAIL {
        "a destroy function returned an error"
    } else if code == SUN_ERR_NOT_IMPLEMENTED {
        "operation is not implemented: function pointer is NULL"
    } else if code == SUN_ERR_USER_FCN_FAIL {
        "the user provided callback function failed"
    } else if code == SUN_ERR_DATANODE_NODENOTFOUND {
        "the data node could not be found"
    } else if code == SUN_ERR_PROFILER_MAPFULL {
        "the number of profiler entries exceeded SUNPROFILER_MAX_ENTRIES"
    } else if code == SUN_ERR_PROFILER_MAPGET {
        "unknown error getting SUNProfiler timer"
    } else if code == SUN_ERR_PROFILER_MAPINSERT {
        "unknown error inserting SUNProfiler timer"
    } else if code == SUN_ERR_PROFILER_MAPKEYNOTFOUND {
        "timer was not found in SUNProfiler"
    } else if code == SUN_ERR_PROFILER_MAPSORT {
        "error sorting SUNProfiler map"
    } else if code == SUN_ERR_ADJOINT_STEPPERFAILED {
        "SUNStepper stopped without successfully reaching the requested output time when solving the adjoint system"
    } else if code == SUN_ERR_ADJOINT_STEPPERINVALIDSTOP {
        "SUNStepper stopped with a flag not supported by the adjoint solver"
    } else if code == SUN_ERR_CHECKPOINT_NOT_FOUND {
        "the requested checkpoint was not found"
    } else if code == SUN_ERR_CHECKPOINT_MISMATCH {
        "the expected time for the checkpoint and the stored time do not match"
    } else if code == SUN_ERR_SUNCTX_CORRUPT {
        "SUNContext is NULL or corrupt"
    } else if code == SUN_ERR_MPI_FAIL {
        "an MPI call returned something other than MPI_SUCCESS"
    } else if code == SUN_ERR_UNREACHABLE {
        "Reached code that should be unreachable: open an issue at: https://github.com/LLNL/sundials"
    } else if code == SUN_ERR_UNKNOWN {
        "Unknown error occurred: open an issue at https://github.com/LLNL/sundials"
    } else {
        "unknown error"
    }
}

/// The text an error handler logs: the message, or the code's standard
/// message when there is none.
pub open spec fn handler_text(msg: Seq<char>, code: SUNErrCode) -> Seq<char> {
    if msg.len() == 0 {
        spec_err_msg(code)
    } else {
        msg
    }
}

/// What the logging error handler does with the context's logger: with a
/// logger, an error record is queued with the location as its scope, the
/// function as its label, and the handler's text.
pub open spec fn logged_error<W: Fn(SUNFile, &str), Q: Fn(u64, &SUNLogger, SUNLogLevel, &str, i32, &str, &str, &str) -> SUNErrCode>(
    sunctx: &SUNContext,
    line: i32,
    func: Seq<char>,
    file: Seq<char>,
    msg: Seq<char>,
    code: SUNErrCode,
    write: W,
    queue: Q,
) -> bool {
    sunctx.logger matches Some(l) ==> exists|r: SUNErrCode|
        queue_msg_outcome(&l, SUN_LOGLEVEL_ERROR, file_and_line(file, line), func, handler_text(msg, code), write, queue, r)
}

/// The library's error handler that logs: queue an error record on the
/// context's logger, if it has one; `write` writes a record to a stream
/// and `queue` runs a caller's queue routine.
pub fn SUNLogErrHandlerFn<W: Fn(SUNFile, &str), Q: Fn(u64, &SUNLogger, SUNLogLevel, &str, i32, &str, &str, &str) -> SUNErrCode>(
    line: i32,
    func: &str,
    file: &str,
    msg: &str,
    err_code: SUNErrCode,
    sunctx: &SUNContext,
    write: W,
    queue: Q,
)
    requires
        forall|f: SUNFile, t: &str| write.requires((f, t)),
        forall|i: u64, l: &SUNLogger, v: SUNLogLevel, p: &str, r: i32, s: &str, b: &str, t: &str|
            queue.requires((i, l, v, p, r, s, b, t)),
    ensures
        logged_error(sunctx, line, func@, file@, msg@, err_code, write, queue),
{
    let loc = sunCombineFileAndLine(line, file);
    let text: &str = if msg.is_empty() {
        SUNGetErrMsg(err_code)
    } else {
        msg
    };
    assert(text@ == handler_text(msg@, err_code));
    match &sunctx.logger {
        Some(logger) => {
            let r = SUNLogger_QueueMsg(logger, SUN_LOGLEVEL_ERROR, loc.as_str(), func, text, write, queue);
            assert(queue_msg_outcome(
                logger,
                SUN_LOGLEVEL_ERROR,
                file_and_line(file@, line),
                func@,
                handler_text(msg@, err_code),
                write,
                queue,
                r,
            ));
        },
        None => {},
    }
}

/// What handling an error does to each handler: the logging handler logs
/// it, and a caller's routine is called with its handle, its data, the
/// error and the context.
pub open spec fn handler_ran<U: Fn(u64, Option<u64>, i32, &str, &str, &str, SUNErrCode, &SUNContext), W: Fn(SUNFile, &str), Q: Fn(u64, &SUNLogger, SUNLogLevel, &str, i32, &str, &str, &str) -> SUNErrCode>(
    eh: SUNErrHandler_,
    sunctx: &SUNContext,
    line: i32,
    func: &str,
    file: &str,
    msg: &str,
    code: SUNErrCode,
    user: U,
    write: W,
    queue: Q,
) -> bool {
    match eh.call {
        SUNErrHandlerFn::SUNLogErrHandlerFn => logged_error(sunctx, line, func@, file@, msg@, code, write, queue),
        SUNErrHandlerFn::User(id) => user.ensures((id, eh.data, line, func, file, msg, code, sunctx), ()),
    }
}

/// Record `code` as the context's last error and run every error handler,
/// the most recently pushed first; `user` runs a caller's handler, and
/// `write` and `queue` serve the logger as in `SUNLogger_QueueMsg`.
pub fn SUNHandleErrWithMsg<U: Fn(u64, Option<u64>, i32, &str, &str, &str, SUNErrCode, &SUNContext), W: Fn(SUNFile, &str) + Copy, Q: Fn(u64, &SUNLogger, SUNLogLevel, &str, i32, &str, &str, &str) -> SUNErrCode + Copy>(
    line: i32,
    func: &str,
    file: &str,
    msg: &str,
    code: SUNErrCode,
    sunctx: &mut SUNContext,
    user: U,
    write: W,
    queue: Q,
)
    requires
        forall|i: u64, d: Option<u64>, l: i32, f: &str, fi: &str, m: &str, c: SUNErrCode, x: &SUNContext|
            user.requires((i, d, l, f, fi, m, c, x)),
        forall|f: SUNFile, t: &str| write.requires((f, t)),
        forall|i: u64, l: &SUNLogger, v: SUNLogLevel, p: &str, r: i32, s: &str, b: &str, t: &str|
            queue.requires((i, l, v, p, r, s, b, t)),
    ensures
        final(sunctx).last_err == code,
        final(sunctx).err_handler@ == old(sunctx).err_handler@,
        final(sunctx).logger == old(sunctx).logger,
        final(sunctx).own_logger == old(sunctx).own_logger,
        final(sunctx).own_profiler == old(sunctx).own_profiler,
        final(sunctx).comm == old(sunctx).comm,
        forall|k: int| 0 <= k < old(sunctx).err_handler@.len() ==> handler_ran(
            #[trigger] old(sunctx).err_handler@[k], final(sunctx), line, func, file, msg, code, user, write, queue,
        ),
{
    sunctx.last_err = code;
    let ctx: &SUNContext = sunctx;
    let n = ctx.err_handler.len();
    let mut k: usize = n;
    while k > 0
        invariant
            k <= n,
            n == ctx.err_handler@.len(),
            forall|i: u64, d: Option<u64>, l: i32, f: &str, fi: &str, m: &str, c: SUNErrCode, x: &SUNContext|
                user.requires((i, d, l, f, fi, m, c, x)),
            forall|f: SUNFile, t: &str| write.requires((f, t)),
            forall|i: u64, l: &SUNLogger, v: SUNLogLevel, p: &str, r: i32, s: &str, b: &str, t: &str|
                queue.requires((i, l, v, p, r, s, b, t)),
            forall|j: int| k <= j < n ==> handler_ran(
                #[trigger] ctx.err_handler@[j], ctx, line, func, file, msg, code, user, write, queue,
            ),
        decreases k,
    {
        k = k - 1;
        let eh = ctx.err_handler[k];
        match eh.call {
            SUNErrHandlerFn::SUNLogErrHandlerFn => {
                SUNLogErrHandlerFn(line, func, file, msg, code, ctx, write, queue);
            },
            SUNErrHandlerFn::User(id) => {
                user(id, eh.data, line, func, file, msg, code, ctx);
            },
        }
    }
}

} // verus!
