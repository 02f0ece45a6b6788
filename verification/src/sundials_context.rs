use vstd::prelude::*;
use crate::sundials_errors::SUN_SUCCESS;
use crate::sundials_futils::SUNFile;
use crate::sundials_logger::{SUNLogger, SUNLogger_CreateFromEnv, env_logger_result};
use crate::sundials_types::{SUNComm, SUNErrCode, SUNFALSE, SUN_COMM_NULL, sunbooleantype};

verus! {

/// An error handler: the library's handler that logs the error, or a
/// routine of the caller's, which the caller names by a handle.
#[derive(Clone, Copy, PartialEq, Eq, Structural, Debug)]
pub enum SUNErrHandlerFn {
    SUNLogErrHandlerFn,
    User(u64),
}

/// A registered error handler with the caller's data handle for it.
#[derive(Clone, Copy, PartialEq, Eq, Structural, Debug)]
pub struct SUNErrHandler_ {
    pub call: SUNErrHandlerFn,
    pub data: Option<u64>,
}

/// The library context: the logger, the last error, and the stack of error
/// handlers, the most recently pushed last. Profiling is not built in, so
/// the context holds no profiler.
pub struct SUNContext_ {
    pub own_profiler: sunbooleantype,
    pub logger: Option<SUNLogger>,
    pub own_logger: sunbooleantype,
    pub last_err: SUNErrCode,
    pub err_handler: Vec<SUNErrHandler_>,
    pub comm: SUNComm,
}

pub type SUNContext = SUNContext_;

/// The handler a new context starts with: the logging handler, no data.
pub open spec fn default_handler() -> SUNErrHandler_ {
    SUNErrHandler_ { call: SUNErrHandlerFn::SUNLogErrHandlerFn, data: None }
}

/// Create a context whose logger is made from the environment's logging
/// settings (see `SUNLogger_CreateFromEnv`): its error is returned, with no
/// context, when that fails; otherwise the context owns that logger, has
/// no error recorded, and has the logging handler as its only handler.
pub fn SUNContext_Create<O: Fn(&str, &str) -> SUNFile + Copy>(
    comm: SUNComm,
    output_rank_env: Option<&str>,
    error_fname_env: Option<&str>,
    warning_fname_env: Option<&str>,
    info_fname_env: Option<&str>,
    debug_fname_env: Option<&str>,
    fopen: O,
    sunctx_out: &mut Option<SUNContext>,
) -> (err: SUNErrCode)
    requires
        forall|n: &str, m: &str| fopen.requires((n, m)),
    ensures
        exists|lg: Option<SUNLogger>, e: SUNErrCode| {
            &&& #[trigger] env_logger_result(
                lg, e, output_rank_env, error_fname_env, warning_fname_env, info_fname_env,
                debug_fname_env, fopen,
            )
            &&& e != SUN_SUCCESS ==> err == e && *final(sunctx_out) is None
            &&& e == SUN_SUCCESS ==> err == SUN_SUCCESS && (*final(sunctx_out) matches Some(c) && {
                &&& c.logger == lg
                &&& c.own_logger == lg is Some
                &&& !c.own_profiler
                &&& c.last_err == SUN_SUCCESS
                &&& c.err_handler@ == seq![default_handler()]
                &&& c.comm == comm
            })
        },
{
    *sunctx_out = None;
    let mut logger: Option<SUNLogger> = None;
    let err = SUNLogger_CreateFromEnv(
        SUN_COMM_NULL,
        output_rank_env,
        error_fname_env,
        warning_fname_env,
        info_fname_env,
        debug_fname_env,
        fopen,
        &mut logger,
    );
    assert(env_logger_result(
        logger, err, output_rank_env, error_fname_env, warning_fname_env, info_fname_env,
        debug_fname_env, fopen,
    ));
    if err != SUN_SUCCESS {
        return err;
    }
    let eh = SUNErrHandler_ { call: SUNErrHandlerFn::SUNLogErrHandlerFn, data: None };
    let own_logger = logger.is_some();
    let mut handlers: Vec<SUNErrHandler_> = Vec::new();
    handlers.push(eh);
    assert(handlers@ == seq![default_handler()]);
    *sunctx_out = Some(
        SUNContext_ {
            own_profiler: SUNFALSE,
            logger,
            own_logger,
            last_err: SUN_SUCCESS,
            err_handler: handlers,
            comm,
        },
    );
    SUN_SUCCESS
}

/// The last error recorded, which is then cleared.
pub fn SUNContext_GetLastError(sunctx: &mut SUNContext) -> (err: SUNErrCode)
    ensures
        err == old(sunctx).last_err,
        final(sunctx).last_err == SUN_SUCCESS,
        final(sunctx).err_handler@ == old(sunctx).err_handler@,
        final(sunctx).logger == old(sunctx).logger,
        final(sunctx).own_logger == old(sunctx).own_logger,
        final(sunctx).own_profiler == old(sunctx).own_profiler,
        final(sunctx).comm == old(sunctx).comm,
{
    let err = sunctx.last_err;
    sunctx.last_err = SUN_SUCCESS;
    err
}

/// The last error recorded, left in place.
pub fn SUNContext_PeekLastError(sunctx: &SUNContext) -> (err: SUNErrCode)
    ensures
        err == sunctx.last_err,
{
    sunctx.last_err
}

/// Push an error handler; it runs before those pushed earlier.
pub fn SUNContext_PushErrHandler(sunctx: &mut SUNContext, err_fn: SUNErrHandlerFn, err_user_data: Option<u64>) -> (err: SUNErrCode)
    ensures
        err == SUN_SUCCESS,
        final(sunctx).err_handler@ == old(sunctx).err_handler@.push(
            SUNErrHandler_ { call: err_fn, data: err_user_data },
        ),
        final(sunctx).last_err == old(sunctx).last_err,
        final(sunctx).logger == old(sunctx).logger,
        final(sunctx).own_logger == old(sunctx).own_logger,
        final(sunctx).own_profiler == old(sunctx).own_profiler,
        final(sunctx).comm == old(sunctx).comm,
{
    sunctx.err_handler.push(SUNErrHandler_ { call: err_fn, data: err_user_data });
    SUN_SUCCESS
}

/// Remove the most recently pushed error handler, if there is one.
pub fn SUNContext_PopErrHandler(sunctx: &mut SUNContext) -> (err: SUNErrCode)
    ensures
        err == SUN_SUCCESS,
        final(sunctx).err_handler@ == if old(sunctx).err_handler@.len() > 0 {
            old(sunctx).err_handler@.drop_last()
        } else {
            old(sunctx).err_handler@
        },
        final(sunctx).last_err == old(sunctx).last_err,
        final(sunctx).logger == old(sunctx).logger,
        final(sunctx).own_logger == old(sunctx).own_logger,
        final(sunctx).own_profiler == old(sunctx).own_profiler,
        final(sunctx).comm == old(sunctx).comm,
{
    let _ = sunctx.err_handler.pop();
    SUN_SUCCESS
}

/// Remove every error handler.
pub fn SUNContext_ClearErrHandlers(sunctx: &mut SUNContext) -> (err: SUNErrCode)
    ensures
        err == SUN_SUCCESS,
        final(sunctx).err_handler@.len() == 0,
        final(sunctx).last_err == old(sunctx).last_err,
        final(sunctx).logger == old(sunctx).logger,
        final(sunctx).own_logger == old(sunctx).own_logger,
        final(sunctx).own_profiler == old(sunctx).own_profiler,
        final(sunctx).comm == old(sunctx).comm,
{
    while sunctx.err_handler.len() > 0
        invariant
            sunctx.last_err == old(sunctx).last_err,
            sunctx.logger == old(sunctx).logger,
            sunctx.own_logger == old(sunctx).own_logger,
            sunctx.own_profiler == old(sunctx).own_profiler,
            sunctx.comm == old(sunctx).comm,
        decreases sunctx.err_handler@.len(),
    {
        let _ = SUNContext_PopErrHandler(sunctx);
    }
    SUN_SUCCESS
}

/// The context's logger.
pub fn SUNContext_GetLogger(sunctx: &SUNContext) -> (logger: &Option<SUNLogger>)
    ensures
        *logger == sunctx.logger,
{
    &sunctx.logger
}

/// Replace the context's logger with one the context does not own.
pub fn SUNContext_SetLogger(sunctx: &mut SUNContext, logger: Option<SUNLogger>) -> (err: SUNErrCode)
    ensures
        err == SUN_SUCCESS,
        final(sunctx).logger == logger,
        !final(sunctx).own_logger,
        final(sunctx).last_err == old(sunctx).last_err,
        final(sunctx).err_handler@ == old(sunctx).err_handler@,
        final(sunctx).own_profiler == old(sunctx).own_profiler,
        final(sunctx).comm == old(sunctx).comm,
{
    sunctx.logger = logger;
    sunctx.own_logger = SUNFALSE;
    SUN_SUCCESS
}

/// Drop the context and its handlers.
pub fn SUNContext_Free(sunctx: &mut Option<SUNContext>) -> (err: SUNErrCode)
    ensures
        err == SUN_SUCCESS,
        *final(sunctx) is None,
{
    *sunctx = None;
    SUN_SUCCESS
}

/// Pushing an error handler and popping one leaves the handler stack as it
/// was.
pub proof fn law_push_then_pop(handlers: Seq<SUNErrHandler_>, h: SUNErrHandler_)
    ensures
        handlers.push(h).len() > 0,
        handlers.push(h).drop_last() == handlers,
{
    assert(handlers.push(h).drop_last() =~= handlers);
}

} // verus!
