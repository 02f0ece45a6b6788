use std::cell::RefCell;

use sundials_core::sundials_context::{
    SUNContext, SUNContext_ClearErrHandlers, SUNContext_Create, SUNContext_Free,
    SUNContext_GetLastError, SUNContext_GetLogger, SUNContext_PeekLastError,
    SUNContext_PopErrHandler, SUNContext_PushErrHandler, SUNContext_SetLogger, SUNErrHandlerFn,
    SUNErrHandler_,
};
use sundials_core::sundials_errors::{
    SUNHandleErrWithMsg, SUNLogErrHandlerFn, SUN_ERR_CORRUPT, SUN_ERR_FILE_OPEN, SUN_ERR_MEM_FAIL,
    SUN_SUCCESS,
};
use sundials_core::sundials_futils::SUNFile;
use sundials_core::sundials_logger::{
    SUNLogger, SUNLogger_CreateFromEnv, SUNLogLevel,
};
use sundials_core::sundials_utils::{sunCombineFileAndLine, sunSignedToString};

fn no_files(_: &str, _: &str) -> SUNFile {
    SUNFile::Null
}

fn make_context() -> SUNContext {
    let mut out = None;
    assert_eq!(SUNContext_Create(0, None, None, None, None, None, no_files, &mut out), SUN_SUCCESS);
    out.unwrap()
}

#[test]
fn signed_numbers_and_locations_as_text() {
    assert_eq!(sunSignedToString(0), "0");
    assert_eq!(sunSignedToString(42), "42");
    assert_eq!(sunSignedToString(-7), "-7");
    assert_eq!(sunSignedToString(i64::MIN), "-9223372036854775808");
    assert_eq!(sunSignedToString(i64::MAX), "9223372036854775807");
    assert_eq!(sunCombineFileAndLine(12, "cvode.c"), "cvode.c:12");
    assert_eq!(sunCombineFileAndLine(-3, ""), ":-3");
}

#[test]
fn logger_from_environment() {
    let mut out: Option<SUNLogger> = None;
    assert_eq!(
        SUNLogger_CreateFromEnv(0, Some(" 3x"), None, None, None, None, no_files, &mut out),
        SUN_SUCCESS
    );
    let l = out.take().unwrap();
    assert_eq!(l.output_rank, 3);
    assert_eq!(l.error_fp, SUNFile::Stderr);
    assert_eq!(l.warning_fp, SUNFile::Stdout);

    let opened = RefCell::new(Vec::<String>::new());
    let fopen = |n: &str, m: &str| {
        opened.borrow_mut().push(format!("{}:{}", n, m));
        if n == "bad" { SUNFile::Null } else { SUNFile::File(5) }
    };
    assert_eq!(
        SUNLogger_CreateFromEnv(0, None, Some("err.log"), Some("stdout"), Some("info.log"), Some(""), &fopen, &mut out),
        SUN_SUCCESS
    );
    let l = out.take().unwrap();
    assert_eq!(l.output_rank, 0);
    assert_eq!(l.error_fp, SUNFile::File(5));
    assert_eq!(l.warning_fp, SUNFile::Stdout);
    // informational and debugging records are compiled out: untouched
    assert_eq!(l.info_fp, SUNFile::Stdout);
    assert_eq!(l.debug_fp, SUNFile::Stdout);
    assert_eq!(opened.borrow().clone(), vec!["err.log:w+".to_string()]);

    // a file that will not open stops the settings, and no logger is made
    assert_eq!(
        SUNLogger_CreateFromEnv(0, None, Some("bad"), Some("w.log"), None, None, &fopen, &mut out),
        SUN_ERR_FILE_OPEN
    );
    assert!(out.is_none());
    assert_eq!(opened.borrow().len(), 2);

    // only the null communicator is supported; the output is left alone
    let mut keep: Option<SUNLogger> = None;
    assert_eq!(SUNLogger_CreateFromEnv(7, None, None, None, None, None, no_files, &mut keep), SUN_ERR_CORRUPT);
    assert!(keep.is_none());
}

#[test]
fn context_starts_with_the_logging_handler() {
    let ctx = make_context();
    assert_eq!(ctx.last_err, SUN_SUCCESS);
    assert!(ctx.own_logger);
    assert!(ctx.logger.is_some());
    assert_eq!(
        ctx.err_handler,
        vec![SUNErrHandler_ { call: SUNErrHandlerFn::SUNLogErrHandlerFn, data: None }]
    );
    let mut failed = None;
    assert_eq!(
        SUNContext_Create(0, None, Some("bad"), None, None, None, no_files, &mut failed),
        SUN_ERR_FILE_OPEN
    );
    assert!(failed.is_none());
}

#[test]
fn last_error_is_cleared_by_a_read_not_by_a_peek() {
    let mut ctx = make_context();
    ctx.last_err = SUN_ERR_MEM_FAIL;
    assert_eq!(SUNContext_PeekLastError(&ctx), SUN_ERR_MEM_FAIL);
    assert_eq!(SUNContext_GetLastError(&mut ctx), SUN_ERR_MEM_FAIL);
    assert_eq!(SUNContext_GetLastError(&mut ctx), SUN_SUCCESS);
    assert_eq!(SUNContext_PeekLastError(&ctx), SUN_SUCCESS);
}

#[test]
fn handler_stack_push_pop_clear() {
    let mut ctx = make_context();
    assert_eq!(SUNContext_PushErrHandler(&mut ctx, SUNErrHandlerFn::User(9), Some(1)), SUN_SUCCESS);
    assert_eq!(ctx.err_handler.len(), 2);
    assert_eq!(ctx.err_handler[1], SUNErrHandler_ { call: SUNErrHandlerFn::User(9), data: Some(1) });
    assert_eq!(SUNContext_PopErrHandler(&mut ctx), SUN_SUCCESS);
    assert_eq!(ctx.err_handler.len(), 1);
    assert_eq!(SUNContext_PushErrHandler(&mut ctx, SUNErrHandlerFn::User(1), None), SUN_SUCCESS);
    assert_eq!(SUNContext_ClearErrHandlers(&mut ctx), SUN_SUCCESS);
    assert!(ctx.err_handler.is_empty());
    assert_eq!(SUNContext_PopErrHandler(&mut ctx), SUN_SUCCESS);
    assert!(ctx.err_handler.is_empty());
}

#[test]
fn set_logger_is_not_owned_and_free_drops() {
    let mut ctx = make_context();
    assert_eq!(SUNContext_SetLogger(&mut ctx, None), SUN_SUCCESS);
    assert!(!ctx.own_logger);
    assert!(SUNContext_GetLogger(&ctx).is_none());
    let mut holder = Some(ctx);
    assert_eq!(SUNContext_Free(&mut holder), SUN_SUCCESS);
    assert!(holder.is_none());
}

#[test]
fn handling_an_error_records_it_and_runs_handlers_newest_first() {
    let mut ctx = make_context();
    SUNContext_PushErrHandler(&mut ctx, SUNErrHandlerFn::User(1), Some(10));
    SUNContext_PushErrHandler(&mut ctx, SUNErrHandlerFn::User(2), None);
    let calls = RefCell::new(Vec::<String>::new());
    let logged = RefCell::new(Vec::<String>::new());
    let user = |id: u64, data: Option<u64>, line: i32, func: &str, file: &str, msg: &str, code: i32, c: &SUNContext| {
        assert_eq!(c.last_err, SUN_ERR_MEM_FAIL);
        calls.borrow_mut().push(format!("{} {:?} {} {} {} {} {}", id, data, line, func, file, msg, code));
    };
    let write = |f: SUNFile, t: &str| logged.borrow_mut().push(format!("{:?} {}", f, t));
    let queue = |_i: u64, _l: &SUNLogger, _v: SUNLogLevel, _p: &str, _r: i32, _s: &str, _b: &str, _t: &str| -> i32 {
        panic!("no caller queue routine is installed")
    };
    SUNHandleErrWithMsg(40, "CVode", "cvode.c", "", SUN_ERR_MEM_FAIL, &mut ctx, &user, &write, &queue);
    assert_eq!(ctx.last_err, SUN_ERR_MEM_FAIL);
    assert_eq!(
        calls.into_inner(),
        vec![
            format!("2 None 40 CVode cvode.c  {}", SUN_ERR_MEM_FAIL),
            format!("1 Some(10) 40 CVode cvode.c  {}", SUN_ERR_MEM_FAIL),
        ]
    );
    assert_eq!(
        logged.into_inner(),
        vec!["Stderr [ERROR][rank 0][cvode.c:40][CVode] a memory operation failed\n".to_string()]
    );
}

#[test]
fn logging_handler_uses_the_message_when_given() {
    let ctx = make_context();
    let logged = RefCell::new(Vec::<String>::new());
    let write = |_f: SUNFile, t: &str| logged.borrow_mut().push(t.to_string());
    let queue = |_i: u64, _l: &SUNLogger, _v: SUNLogLevel, _p: &str, _r: i32, _s: &str, _b: &str, _t: &str| -> i32 {
        panic!("no caller queue routine is installed")
    };
    SUNLogErrHandlerFn(7, "f", "a.c", "custom", SUN_ERR_MEM_FAIL, &ctx, &write, &queue);
    assert_eq!(logged.into_inner(), vec!["[ERROR][rank 0][a.c:7][f] custom\n".to_string()]);
}
