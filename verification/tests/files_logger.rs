use std::cell::RefCell;

use sundials_core::sundials_errors::{SUN_ERR_ARG_CORRUPT, SUN_ERR_FILE_OPEN, SUN_ERR_UNREACHABLE, SUN_SUCCESS};
use sundials_core::sundials_futils::{SUNDIALSFileClose, SUNDIALSFileOpen, SUNFile, SUNFileClose, SUNFileOpen};
use sundials_core::sundials_logger::{
    sunCreateLogMessage, sunFlushLogMessage, SUNLogger, SUNLogger_Create,
    SUNLogger_Destroy, SUNLogger_Flush, SUNLogger_GetDebugFile, SUNLogger_GetErrorFile,
    SUNLogger_GetInfoFile, SUNLogger_GetOutputRank, SUNLogger_GetWarningFile, SUNLogger_QueueMsg,
    SUNLogger_SetDebugFilename, SUNLogger_SetErrorFile, SUNLogger_SetErrorFilename,
    SUNLogger_SetInfoFile, SUNLogger_SetQueueAndFlushMsgFns, SUNLogger_SetWarningFilename,
    SUNLoggerMsgFn, SUN_LOGLEVEL_ALL, SUN_LOGLEVEL_DEBUG, SUN_LOGLEVEL_ERROR, SUN_LOGLEVEL_INFO,
    SUN_LOGLEVEL_WARNING,
};

#[test]
fn file_open_names_and_failures() {
    let opened = RefCell::new(Vec::<String>::new());
    let fopen = |n: &str, m: &str| {
        opened.borrow_mut().push(format!("{}:{}", n, m));
        if n == "missing/dir/x" { SUNFile::Null } else { SUNFile::File(7) }
    };
    let mut fp = SUNFile::Null;
    assert_eq!(SUNFileOpen(Some("stdout"), "w", &mut fp, &fopen), SUN_SUCCESS);
    assert_eq!(fp, SUNFile::Stdout);
    assert_eq!(SUNFileOpen(Some("stderr"), "w", &mut fp, &fopen), SUN_SUCCESS);
    assert_eq!(fp, SUNFile::Stderr);
    assert!(opened.borrow().is_empty());
    assert_eq!(SUNFileOpen(Some("out.txt"), "a", &mut fp, &fopen), SUN_SUCCESS);
    assert_eq!(fp, SUNFile::File(7));
    assert_eq!(opened.borrow().clone(), vec!["out.txt:a".to_string()]);
    assert_eq!(SUNDIALSFileOpen(Some("missing/dir/x"), "w", &mut fp, &fopen), SUN_ERR_FILE_OPEN);
    assert_eq!(fp, SUNFile::Null);
    let mut keep = SUNFile::Stderr;
    assert_eq!(SUNFileOpen(None, "w", &mut keep, &fopen), SUN_SUCCESS);
    assert_eq!(keep, SUNFile::Stderr);
    let mut none = SUNFile::Null;
    assert_eq!(SUNFileOpen(None, "w", &mut none, &fopen), SUN_ERR_FILE_OPEN);
}

#[test]
fn file_close_only_closes_files() {
    let closed = RefCell::new(Vec::<SUNFile>::new());
    let fclose = |f: SUNFile| closed.borrow_mut().push(f);
    let mut f = SUNFile::File(3);
    assert_eq!(SUNFileClose(&mut f, &fclose), SUN_SUCCESS);
    assert_eq!(f, SUNFile::Null);
    let mut s = SUNFile::Stdout;
    assert_eq!(SUNDIALSFileClose(&mut s, &fclose), SUN_SUCCESS);
    assert_eq!(s, SUNFile::Stdout);
    let mut n = SUNFile::Null;
    assert_eq!(SUNFileClose(&mut n, &fclose), SUN_SUCCESS);
    assert_eq!(closed.borrow().clone(), vec![SUNFile::File(3)]);
}

#[test]
fn log_message_format() {
    assert_eq!(
        sunCreateLogMessage("ERROR", 0, "file.c:12", "CVode", "step failed"),
        "[ERROR][rank 0][file.c:12][CVode] step failed\n"
    );
    assert_eq!(sunCreateLogMessage("", -305, "s", "l", ""), "[][rank -305][s][l] \n");
    assert_eq!(
        sunCreateLogMessage("W", i32::MIN, "", "", "p"),
        "[W][rank -2147483648][][] p\n"
    );
}

fn new_logger() -> SUNLogger {
    let mut lp: Option<SUNLogger> = None;
    assert_eq!(SUNLogger_Create(0, 3, &mut lp), SUN_SUCCESS);
    lp.unwrap()
}

#[test]
fn create_sets_defaults() {
    let mut bad: Option<SUNLogger> = None;
    assert_eq!(SUNLogger_Create(5, 0, &mut bad), SUN_ERR_ARG_CORRUPT);
    assert!(bad.is_none());
    let l = new_logger();
    let mut f = SUNFile::Null;
    SUNLogger_GetErrorFile(&l, &mut f);
    assert_eq!(f, SUNFile::Stderr);
    SUNLogger_GetWarningFile(&l, &mut f);
    assert_eq!(f, SUNFile::Stdout);
    SUNLogger_GetInfoFile(&l, &mut f);
    assert_eq!(f, SUNFile::Stdout);
    SUNLogger_GetDebugFile(&l, &mut f);
    assert_eq!(f, SUNFile::Stdout);
    let mut r = 0;
    assert_eq!(SUNLogger_GetOutputRank(&l, &mut r), SUN_SUCCESS);
    assert_eq!(r, 3);
    assert_eq!(l.queue_msg, Some(SUNLoggerMsgFn::Default));
}

#[test]
fn same_file_name_is_opened_once() {
    let count = RefCell::new(0u64);
    let fopen = |_n: &str, m: &str| {
        assert_eq!(m, "w+");
        *count.borrow_mut() += 1;
        SUNFile::File(100 + *count.borrow())
    };
    let mut l = new_logger();
    assert_eq!(SUNLogger_SetErrorFilename(&mut l, Some("run.log"), &fopen), SUN_SUCCESS);
    assert_eq!(SUNLogger_SetWarningFilename(&mut l, Some("run.log"), &fopen), SUN_SUCCESS);
    assert_eq!(*count.borrow(), 1);
    assert_eq!(l.error_fp, SUNFile::File(101));
    assert_eq!(l.warning_fp, SUNFile::File(101));
    assert_eq!(SUNLogger_SetWarningFilename(&mut l, Some("stdout"), &fopen), SUN_SUCCESS);
    assert_eq!(l.warning_fp, SUNFile::Stdout);
    assert_eq!(SUNLogger_SetWarningFilename(&mut l, Some(""), &fopen), SUN_SUCCESS);
    assert_eq!(l.warning_fp, SUNFile::Null);
    assert_eq!(*count.borrow(), 1);
}

#[test]
fn failed_open_leaves_stream() {
    let fopen = |_n: &str, _m: &str| SUNFile::Null;
    let mut l = new_logger();
    assert_eq!(SUNLogger_SetErrorFilename(&mut l, Some("/nope/x.log"), &fopen), SUN_ERR_FILE_OPEN);
    assert_eq!(l.error_fp, SUNFile::Stderr);
}

#[test]
fn info_and_debug_are_compiled_out() {
    let fopen = |_n: &str, _m: &str| SUNFile::File(1);
    let mut l = new_logger();
    assert_eq!(SUNLogger_SetDebugFilename(&mut l, Some("d.log"), &fopen), SUN_SUCCESS);
    assert_eq!(l.debug_fp, SUNFile::Stdout);
    assert_eq!(SUNLogger_SetInfoFile(&mut l, SUNFile::Null), SUN_SUCCESS);
    assert_eq!(l.info_fp, SUNFile::Stdout);
    assert_eq!(SUNLogger_SetErrorFile(&mut l, SUNFile::Null), SUN_SUCCESS);
    assert_eq!(l.error_fp, SUNFile::Null);
}

#[test]
fn queue_routes_by_level() {
    let l = new_logger();
    let written = RefCell::new(Vec::<(SUNFile, String)>::new());
    let write = |f: SUNFile, t: &str| written.borrow_mut().push((f, t.to_string()));
    let user = |_id: u64, _lg: &SUNLogger, _lvl: i32, _p: &str, _r: i32, _s: &str, _b: &str, _t: &str| -> i32 {
        panic!("no caller routine is installed")
    };
    assert_eq!(SUNLogger_QueueMsg(&l, SUN_LOGLEVEL_ERROR, "sc", "lb", "boom", &write, &user), SUN_SUCCESS);
    assert_eq!(SUNLogger_QueueMsg(&l, SUN_LOGLEVEL_WARNING, "sc", "lb", "hm", &write, &user), SUN_SUCCESS);
    assert_eq!(SUNLogger_QueueMsg(&l, 9, "sc", "lb", "x", &write, &user), SUN_ERR_UNREACHABLE);
    assert_eq!(
        written.borrow().clone(),
        vec![
            (SUNFile::Stderr, "[ERROR][rank 0][sc][lb] boom\n".to_string()),
            (SUNFile::Stdout, "[WARNING][rank 0][sc][lb] hm\n".to_string()),
        ]
    );
}

#[test]
fn default_queue_writes_the_record_to_the_level_file() {
    let mut l = new_logger();
    assert_eq!(sundials_core::sundials_logger::SUNLogger_SetWarningFile(&mut l, SUNFile::File(3)), SUN_SUCCESS);
    let written = RefCell::new(Vec::<(SUNFile, String)>::new());
    let write = |f: SUNFile, t: &str| written.borrow_mut().push((f, t.to_string()));
    let user = |_id: u64, _lg: &SUNLogger, _lvl: i32, _p: &str, _r: i32, _s: &str, _b: &str, _t: &str| -> i32 { -1 };
    assert_eq!(SUNLogger_QueueMsg(&l, SUN_LOGLEVEL_WARNING, "scope", "label", "text", &write, &user), SUN_SUCCESS);
    assert_eq!(
        written.into_inner(),
        vec![(SUNFile::File(3), "[WARNING][rank 0][scope][label] text\n".to_string())]
    );
}

#[test]
fn queue_skips_null_streams_and_custom_routines_are_used() {
    let mut l = new_logger();
    SUNLogger_SetErrorFile(&mut l, SUNFile::Null);
    let calls = RefCell::new(Vec::<u64>::new());
    let write = |_f: SUNFile, _t: &str| panic!("the default routine is not installed");
    let user = |id: u64, _lg: &SUNLogger, _lvl: i32, _p: &str, _r: i32, _s: &str, _b: &str, _t: &str| {
        calls.borrow_mut().push(id);
        -5
    };
    let nowrite = |_f: SUNFile, _t: &str| {};
    assert_eq!(SUNLogger_QueueMsg(&l, SUN_LOGLEVEL_ERROR, "s", "l", "m", &nowrite, &user), SUN_SUCCESS);
    assert!(calls.borrow().is_empty());
    assert_eq!(SUNLogger_SetQueueAndFlushMsgFns(&mut l, Some(4), None, Some(9)), SUN_SUCCESS);
    assert_eq!(l.queue_msg, Some(SUNLoggerMsgFn::User(4)));
    assert_eq!(l.flush_msg, None);
    assert_eq!(l.content, Some(9));
    assert_eq!(SUNLogger_QueueMsg(&l, SUN_LOGLEVEL_WARNING, "s", "l", "m", &write, &user), -5);
    assert_eq!(calls.borrow().clone(), vec![4]);
    let no_flush = |_f: SUNFile| panic!("nothing to flush");
    assert_eq!(SUNLogger_Flush(&l, SUN_LOGLEVEL_ALL, &no_flush, |_i: u64, _l: &SUNLogger, _v: i32| -7), SUN_SUCCESS);
    SUNLogger_SetQueueAndFlushMsgFns(&mut l, Some(4), Some(3), Some(1));
    assert_eq!(SUNLogger_Flush(&l, SUN_LOGLEVEL_ALL, &no_flush, |i: u64, _l: &SUNLogger, _v: i32| -(i as i32)), -3);
    SUNLogger_SetQueueAndFlushMsgFns(&mut l, None, Some(3), Some(1));
    assert_eq!(l.queue_msg, Some(SUNLoggerMsgFn::Default));
    assert_eq!(l.flush_msg, Some(SUNLoggerMsgFn::Default));
    assert_eq!(l.content, None);
}

#[test]
fn default_flush_answers_by_level() {
    let l = new_logger();
    let flushed = RefCell::new(Vec::<SUNFile>::new());
    let fflush = |f: SUNFile| flushed.borrow_mut().push(f);
    let user = |_i: u64, _l: &SUNLogger, _v: i32| -> i32 { panic!("no caller routine is installed") };
    assert_eq!(SUNLogger_Flush(&l, SUN_LOGLEVEL_ALL, &fflush, &user), SUN_SUCCESS);
    for lvl in [SUN_LOGLEVEL_ERROR, SUN_LOGLEVEL_WARNING, SUN_LOGLEVEL_INFO, SUN_LOGLEVEL_DEBUG] {
        assert_eq!(SUNLogger_Flush(&l, lvl, &fflush, &user), SUN_SUCCESS);
    }
    assert_eq!(SUNLogger_Flush(&l, 0, &fflush, &user), SUN_ERR_UNREACHABLE);
    assert_eq!(SUNLogger_Flush(&l, 7, &fflush, &user), SUN_ERR_UNREACHABLE);
}

#[test]
fn flush_touches_non_null_streams() {
    let mut l = new_logger();
    SUNLogger_SetErrorFile(&mut l, SUNFile::Null);
    let flushed = RefCell::new(Vec::<SUNFile>::new());
    let fflush = |f: SUNFile| flushed.borrow_mut().push(f);
    assert_eq!(sunFlushLogMessage(&l, SUN_LOGLEVEL_ALL, &fflush), SUN_SUCCESS);
    assert_eq!(flushed.borrow().len(), 3);
    assert_eq!(sunFlushLogMessage(&l, SUN_LOGLEVEL_ERROR, &fflush), SUN_SUCCESS);
    assert_eq!(flushed.borrow().len(), 3);
    assert_eq!(sunFlushLogMessage(&l, SUN_LOGLEVEL_DEBUG, &fflush), SUN_SUCCESS);
    assert_eq!(flushed.borrow().len(), 4);
    assert_eq!(sunFlushLogMessage(&l, SUN_LOGLEVEL_INFO + 10, &fflush), SUN_ERR_UNREACHABLE);
}

#[test]
fn destroy_drops_the_logger() {
    let mut lp = Some(new_logger());
    assert_eq!(SUNLogger_Destroy(&mut lp), SUN_SUCCESS);
    assert!(lp.is_none());
}
