use vstd::prelude::*;
use vstd::string::StringExecFns;
use crate::sundials_errors::{SUN_ERR_ARG_CORRUPT, SUN_ERR_CORRUPT, SUN_ERR_FILE_OPEN, SUN_ERR_UNREACHABLE, SUN_SUCCESS};
use crate::sundials_futils::{SUNFile, standard_stream};
use crate::sundials_hashmap::{
    SUNHashMap, SUNHashMap_GetValue, SUNHashMap_Insert, SUNHashMap_New, spec_get, spec_insert,
};
use crate::sundials_types::{SUNComm, SUNErrCode, SUN_COMM_NULL};
use crate::sundials_utils::{append_decimal, atoi, int_decimal, spec_atoi, str_eq, sunIsNullOrEmpty};

verus! {

/// The logging level the library is built with: errors and warnings.
pub const SUNDIALS_LOGGING_LEVEL: i32 = 2;

pub const SUNDIALS_LOGGING_ERROR: i32 = 1;
pub const SUNDIALS_LOGGING_WARNING: i32 = 2;
pub const SUNDIALS_LOGGING_INFO: i32 = 3;
pub const SUNDIALS_LOGGING_DEBUG: i32 = 4;

pub type SUNLogLevel = i32;

pub const SUN_LOGLEVEL_ALL: SUNLogLevel = -1;
pub const SUN_LOGLEVEL_NONE: SUNLogLevel = 0;
pub const SUN_LOGLEVEL_ERROR: SUNLogLevel = 1;
pub const SUN_LOGLEVEL_WARNING: SUNLogLevel = 2;
pub const SUN_LOGLEVEL_INFO: SUNLogLevel = 3;
pub const SUN_LOGLEVEL_DEBUG: SUNLogLevel = 4;

/// How many files the logger's file-name table has room for at first.
pub const SUN_DEFAULT_LOGFILE_HANDLES_: i64 = 8;

/// Which message routine the logger calls: its own, or one registered by
/// the host under a number.
#[derive(Debug, Clone, Copy, PartialEq, Eq, Structural)]
pub enum SUNLoggerMsgFn {
    Default,
    User(u64),
}

/// A logger: a stream per level, a table of the files it has opened by
/// name (so a file named for several levels is opened once), and the
/// routines that queue and flush messages.
pub struct SUNLogger_ {
    pub comm: SUNComm,
    pub output_rank: i32,
    pub debug_fp: SUNFile,
    pub warning_fp: SUNFile,
    pub info_fp: SUNFile,
    pub error_fp: SUNFile,
    pub filenames: Option<SUNHashMap<SUNFile>>,
    pub content: Option<u64>,
    pub queue_msg: Option<SUNLoggerMsgFn>,
    pub flush_msg: Option<SUNLoggerMsgFn>,
}

pub type SUNLogger = SUNLogger_;

impl SUNLogger_ {
    /// The stream for a level, if the level names one.
    pub open spec fn stream(&self, lvl: SUNLogLevel) -> Option<SUNFile> {
        if lvl == SUN_LOGLEVEL_DEBUG {
            Some(self.debug_fp)
        } else if lvl == SUN_LOGLEVEL_WARNING {
            Some(self.warning_fp)
        } else if lvl == SUN_LOGLEVEL_INFO {
            Some(self.info_fp)
        } else if lvl == SUN_LOGLEVEL_ERROR {
            Some(self.error_fp)
        } else {
            None
        }
    }

    /// The file-name table is there and usable.
    pub open spec fn table_ok(&self) -> bool {
        self.filenames matches Some(m) && m.well_sized()
    }

    /// `self` is `other` with the stream of level `which` replaced by `fp`,
    /// when `fp` is given.
    pub open spec fn same_streams_except(&self, other: &SUNLogger_, which: SUNLogLevel, fp: Option<SUNFile>) -> bool {
        &&& forall|lvl: SUNLogLevel|
            #![trigger self.stream(lvl)]
            SUN_LOGLEVEL_ERROR <= lvl <= SUN_LOGLEVEL_DEBUG ==> self.stream(lvl) == if lvl == which
                && fp is Some {
                fp
            } else {
                other.stream(lvl)
            }
        &&& self.comm == other.comm
        &&& self.output_rank == other.output_rank
        &&& self.content == other.content
        &&& self.queue_msg == other.queue_msg
        &&& self.flush_msg == other.flush_msg
    }
}

/// The text of a log record:
/// `[<prefix>][rank <rank>][<scope>][<label>] <payload>` and a newline.
pub open spec fn log_message(
    prefix: Seq<char>,
    rank: i32,
    scope: Seq<char>,
    label: Seq<char>,
    payload: Seq<char>,
) -> Seq<char> {
    "["@ + prefix + "][rank "@ + int_decimal(rank as int) + "]["@ + scope + "]["@ + label + "] "@
        + payload + "\n"@
}

/// The record prefix for a level.
pub open spec fn level_prefix(lvl: SUNLogLevel) -> Seq<char> {
    if lvl == SUN_LOGLEVEL_DEBUG {
        "DEBUG"@
    } else if lvl == SUN_LOGLEVEL_WARNING {
        "WARNING"@
    } else if lvl == SUN_LOGLEVEL_INFO {
        "INFO"@
    } else if lvl == SUN_LOGLEVEL_ERROR {
        "ERROR"@
    } else {
        ""@
    }
}

/// The record text `[<prefix>][rank <rank>][<scope>][<label>] <payload>`
/// followed by a newline.
pub fn sunCreateLogMessage(prefix: &str, rank: i32, scope: &str, label: &str, payload: &str) -> (msg: String)
    ensures
        msg@ == log_message(prefix@, rank, scope@, label@, payload@),
{
    let mut s = String::new();
    s.append("[");
    s.append(prefix);
    s.append("][rank ");
    let ghost before = s@;
    proof {
        reveal_strlit("-");
    }
    if rank < 0 {
        s.append("-");
        let m: i64 = -(rank as i64);
        assert(m as u64 as nat == -(rank as int));
        append_decimal(&mut s, m as u64);
    } else {
        append_decimal(&mut s, rank as u64);
    }
    assert(s@ =~= before + int_decimal(rank as int));
    s.append("][");
    s.append(scope);
    s.append("][");
    s.append(label);
    s.append("] ");
    s.append(payload);
    s.append("\n");
    assert(s@ =~= log_message(prefix@, rank, scope@, label@, payload@));
    s
}

/// The stream for a level; a level that names none is unreachable.
pub fn sunLoggerGetFilePointer(logger: &SUNLogger_, lvl: SUNLogLevel) -> (r: Result<SUNFile, SUNErrCode>)
    ensures
        logger.stream(lvl) matches Some(f) ==> r == Ok::<SUNFile, SUNErrCode>(f),
        logger.stream(lvl) is None ==> r == Err::<SUNFile, SUNErrCode>(SUN_ERR_UNREACHABLE),
{
    if lvl == SUN_LOGLEVEL_DEBUG {
        Ok(logger.debug_fp)
    } else if lvl == SUN_LOGLEVEL_WARNING {
        Ok(logger.warning_fp)
    } else if lvl == SUN_LOGLEVEL_INFO {
        Ok(logger.info_fp)
    } else if lvl == SUN_LOGLEVEL_ERROR {
        Ok(logger.error_fp)
    } else {
        Err(SUN_ERR_UNREACHABLE)
    }
}

/// Every process writes (there is one rank, numbered zero).
pub fn sunLoggerIsOutputRank(logger: &SUNLogger_, rank_ref: &mut i32) -> (r: bool)
    ensures
        r,
        *final(rank_ref) == 0,
{
    *rank_ref = 0;
    true
}

/// The logger's own routine for a record: write its text to the level's
/// stream, unless that stream is NULL.
pub fn sunQueueLogMessage<W: Fn(SUNFile, &str)>(
    logger: &SUNLogger_,
    lvl: SUNLogLevel,
    prefix: &str,
    rank: i32,
    scope: &str,
    label: &str,
    payload: &str,
    write: W,
) -> (err: SUNErrCode)
    requires
        forall|f: SUNFile, t: &str| write.requires((f, t)),
    ensures
        logger.stream(lvl) is None ==> err == SUN_ERR_UNREACHABLE,
        logger.stream(lvl) is Some ==> err == SUN_SUCCESS,
        logger.stream(lvl) matches Some(f) ==> (!(f is Null) ==> exists|t: &str|
            t@ == log_message(prefix@, rank, scope@, label@, payload@) && write.ensures((f, t), ())),
{
    match sunLoggerGetFilePointer(logger, lvl) {
        Ok(fp) => {
            if !fp.is_null() {
                let log_msg = sunCreateLogMessage(prefix, rank, scope, label, payload);
                write(fp, log_msg.as_str());
            }
            SUN_SUCCESS
        },
        Err(code) => code,
    }
}

/// The logger's own flush: flush every non-NULL stream for
/// `SUN_LOGLEVEL_ALL`, else the level's stream unless it is NULL.
pub fn sunFlushLogMessage<Fl: Fn(SUNFile)>(logger: &SUNLogger_, lvl: SUNLogLevel, fflush: Fl) -> (err: SUNErrCode)
    requires
        forall|f: SUNFile| fflush.requires((f,)),
    ensures
        lvl == SUN_LOGLEVEL_ALL ==> err == SUN_SUCCESS && forall|l: SUNLogLevel|
            SUN_LOGLEVEL_ERROR <= l <= SUN_LOGLEVEL_DEBUG && !(logger.stream(l).unwrap() is Null)
                ==> fflush.ensures((#[trigger] logger.stream(l).unwrap(),), ()),
        lvl != SUN_LOGLEVEL_ALL && logger.stream(lvl) is None ==> err == SUN_ERR_UNREACHABLE,
        lvl != SUN_LOGLEVEL_ALL && logger.stream(lvl) is Some ==> err == SUN_SUCCESS && (!(
        logger.stream(lvl).unwrap() is Null) ==> fflush.ensures((logger.stream(lvl).unwrap(),), ())),
{
    if lvl == SUN_LOGLEVEL_ALL {
        if !logger.debug_fp.is_null() {
            fflush(logger.debug_fp);
        }
        if !logger.warning_fp.is_null() {
            fflush(logger.warning_fp);
        }
        if !logger.info_fp.is_null() {
            fflush(logger.info_fp);
        }
        if !logger.error_fp.is_null() {
            fflush(logger.error_fp);
        }
        SUN_SUCCESS
    } else {
        match sunLoggerGetFilePointer(logger, lvl) {
            Ok(fp) => {
                if !fp.is_null() {
                    fflush(fp);
                }
                SUN_SUCCESS
            },
            Err(code) => code,
        }
    }
}

/// Open a log file: `stdout` and `stderr` name the standard streams, any
/// other name goes to `fopen` with `mode`.
pub fn sunOpenLogFile<O: Fn(&str, &str) -> SUNFile>(fname: &str, mode: &str, fopen: O) -> (fp: SUNFile)
    requires
        forall|n: &str, m: &str| fopen.requires((n, m)),
    ensures
        standard_stream(fname@) matches Some(f) ==> fp == f,
        standard_stream(fname@) is None ==> exists|na: &str, mo: &str|
            na@ == fname@ && mo@ == mode@ && fopen.ensures((na, mo), fp),
{
    if str_eq(fname, "stdout") {
        SUNFile::Stdout
    } else if str_eq(fname, "stderr") {
        SUNFile::Stderr
    } else {
        fopen(fname, mode)
    }
}

/// A file the logger opened for `name`: a standard stream, or what
/// `fopen` gave for the name in mode `w+`.
pub open spec fn opened_for<O: Fn(&str, &str) -> SUNFile>(fopen: O, name: Seq<char>, fp: SUNFile) -> bool {
    match standard_stream(name) {
        Some(f) => fp == f,
        None => exists|na: &str, mo: &str| na@ == name && mo@ == "w+"@ && fopen.ensures((na, mo), fp),
    }
}

fn set_stream(logger: &mut SUNLogger_, which: SUNLogLevel, fp: SUNFile)
    requires
        SUN_LOGLEVEL_ERROR <= which <= SUN_LOGLEVEL_DEBUG,
    ensures
        final(logger).same_streams_except(old(logger), which, Some(fp)),
        final(logger).filenames == old(logger).filenames,
{
    if which == SUN_LOGLEVEL_DEBUG {
        logger.debug_fp = fp;
    } else if which == SUN_LOGLEVEL_WARNING {
        logger.warning_fp = fp;
    } else if which == SUN_LOGLEVEL_INFO {
        logger.info_fp = fp;
    } else {
        logger.error_fp = fp;
    }
}

/// What setting the file of level `which` to `filename` does (see
/// `sunLoggerSetFilename`).
pub open spec fn set_filename_outcome<O: Fn(&str, &str) -> SUNFile>(
    old_l: &SUNLogger_,
    new_l: &SUNLogger_,
    filename: Option<&str>,
    which: SUNLogLevel,
    fopen: O,
    err: SUNErrCode,
) -> bool {
    &&& (filename is None || filename.unwrap()@.len() == 0) ==> err == SUN_SUCCESS
            && new_l.same_streams_except(old_l, which, Some(SUNFile::Null))
            && new_l.filenames == old_l.filenames
    &&& filename matches Some(n) ==> (n@.len() > 0 ==> ({
            let s = old_l.filenames.unwrap().slots();
            new_l.table_ok() && match spec_get(s, n@) {
                Some(f) => err == SUN_SUCCESS && new_l.same_streams_except(
                    old_l,
                    which,
                    Some(f),
                ) && new_l.filenames == old_l.filenames,
                None => exists|fp: SUNFile|
                    opened_for(fopen, n@, fp) && if fp is Null {
                        err == SUN_ERR_FILE_OPEN && new_l.same_streams_except(
                            old_l,
                            which,
                            None,
                        ) && new_l.filenames == old_l.filenames
                    } else {
                        new_l.filenames.unwrap().slots() == spec_insert(s, n@, fp).0 && if spec_insert(
                            s,
                            n@,
                            fp,
                        ).1 != 0 {
                            err == SUN_ERR_FILE_OPEN && new_l.same_streams_except(
                                old_l,
                                which,
                                None,
                            )
                        } else {
                            err == SUN_SUCCESS && new_l.same_streams_except(
                                old_l,
                                which,
                                Some(fp),
                            )
                        }
                    },
            }
        }))
}

/// Point the stream of level `which` at the file named `filename`: no name
/// or an empty one silences the stream; a name the logger has opened before
/// reuses that file; a new name is opened in mode `w+` and remembered. An
/// open that fails, or a table that cannot take the name, is
/// `SUN_ERR_FILE_OPEN` and leaves the stream alone.
pub fn sunLoggerSetFilename<O: Fn(&str, &str) -> SUNFile>(
    logger: &mut SUNLogger_,
    filename: Option<&str>,
    which: SUNLogLevel,
    fopen: O,
) -> (err: SUNErrCode)
    requires
        SUN_LOGLEVEL_ERROR <= which <= SUN_LOGLEVEL_DEBUG,
        filename matches Some(n) && n@.len() > 0 ==> old(logger).table_ok(),
        forall|n: &str, m: &str| fopen.requires((n, m)),
    ensures
        set_filename_outcome(old(logger), final(logger), filename, which, fopen, err),

{
    let mut rank: i32 = 0;
    if !sunLoggerIsOutputRank(logger, &mut rank) {
        return SUN_SUCCESS;
    }
    if sunIsNullOrEmpty(filename) {
        set_stream(logger, which, SUNFile::Null);
        return SUN_SUCCESS;
    }
    let name = filename.unwrap();
    let mut map = logger.filenames.take().unwrap();
    let found: Option<SUNFile> = match SUNHashMap_GetValue(&map, name) {
        (_, Some(f)) => Some(*f),
        (_, None) => None,
    };
    match found {
        Some(f) => {
            logger.filenames = Some(map);
            set_stream(logger, which, f);
            SUN_SUCCESS
        },
        None => {
            proof {
                reveal_strlit("w+");
            }
            let fp = sunOpenLogFile(name, "w+", fopen);
            assert(opened_for(fopen, name@, fp));
            if fp.is_null() {
                logger.filenames = Some(map);
                return SUN_ERR_FILE_OPEN;
            }
            let ierr = SUNHashMap_Insert(&mut map, name, fp);
            logger.filenames = Some(map);
            if ierr != 0 {
                return SUN_ERR_FILE_OPEN;
            }
            set_stream(logger, which, fp);
            SUN_SUCCESS
        },
    }
}


/// A fresh logger: errors to standard error, everything else to standard
/// output, the logger's own message routines, an empty file-name table.
pub open spec fn fresh_logger(l: SUNLogger_, output_rank: i32) -> bool {
    &&& l.comm == SUN_COMM_NULL
    &&& l.output_rank == output_rank
    &&& l.error_fp == SUNFile::Stderr
    &&& l.warning_fp == SUNFile::Stdout
    &&& l.info_fp == SUNFile::Stdout
    &&& l.debug_fp == SUNFile::Stdout
    &&& l.content is None
    &&& l.queue_msg == Some(SUNLoggerMsgFn::Default)
    &&& l.flush_msg == Some(SUNLoggerMsgFn::Default)
    &&& l.filenames matches Some(m) && m.well_sized() && m.slots() == Seq::new(
        SUN_DEFAULT_LOGFILE_HANDLES_ as nat,
        |i: int| None::<(Seq<char>, SUNFile)>,
    )
}

/// Create a logger in `*logger_ptr`; only the null communicator is
/// supported, any other is `SUN_ERR_ARG_CORRUPT` and leaves no logger.
pub fn SUNLogger_Create(comm: SUNComm, output_rank: i32, logger_ptr: &mut Option<SUNLogger>) -> (err: SUNErrCode)
    ensures
        comm != SUN_COMM_NULL ==> err == SUN_ERR_ARG_CORRUPT && *final(logger_ptr) is None,
        comm == SUN_COMM_NULL ==> err == SUN_SUCCESS && (*final(logger_ptr) matches Some(l)
            && fresh_logger(l, output_rank)),
{
    *logger_ptr = None;
    if comm != SUN_COMM_NULL {
        return SUN_ERR_ARG_CORRUPT;
    }
    let filenames = match SUNHashMap_New(SUN_DEFAULT_LOGFILE_HANDLES_) {
        Ok(map) => Some(map),
        Err(_) => None,
    };
    let logger = SUNLogger_ {
        comm: SUN_COMM_NULL,
        output_rank,
        content: None,
        queue_msg: Some(SUNLoggerMsgFn::Default),
        flush_msg: Some(SUNLoggerMsgFn::Default),
        filenames,
        error_fp: SUNFile::Stderr,
        warning_fp: SUNFile::Stdout,
        debug_fp: SUNFile::Stdout,
        info_fp: SUNFile::Stdout,
    };
    *logger_ptr = Some(logger);
    SUN_SUCCESS
}

/// Send error records to the file named `error_filename` (see
/// `sunLoggerSetFilename`).
pub fn SUNLogger_SetErrorFilename<O: Fn(&str, &str) -> SUNFile>(
    logger: &mut SUNLogger,
    error_filename: Option<&str>,
    fopen: O,
) -> (err: SUNErrCode)
    requires
        error_filename matches Some(n) && n@.len() > 0 ==> old(logger).table_ok(),
        forall|n: &str, m: &str| fopen.requires((n, m)),
    ensures
        set_filename_outcome(old(logger), final(logger), error_filename, SUN_LOGLEVEL_ERROR, fopen, err),

{
    sunLoggerSetFilename(logger, error_filename, SUN_LOGLEVEL_ERROR, fopen)
}

/// Send error records to `error_fp`.
pub fn SUNLogger_SetErrorFile(logger: &mut SUNLogger, error_fp: SUNFile) -> (err: SUNErrCode)
    ensures
        err == SUN_SUCCESS,
        final(logger).same_streams_except(old(logger), SUN_LOGLEVEL_ERROR, Some(error_fp)),
        final(logger).filenames == old(logger).filenames,
{
    logger.error_fp = error_fp;
    SUN_SUCCESS
}

/// The stream error records go to.
pub fn SUNLogger_GetErrorFile(logger: &SUNLogger, error_fp: &mut SUNFile) -> (err: SUNErrCode)
    ensures
        err == SUN_SUCCESS,
        *final(error_fp) == logger.error_fp,
{
    *error_fp = logger.error_fp;
    SUN_SUCCESS
}

/// Send warning records to the file named `warning_filename` (see
/// `sunLoggerSetFilename`).
pub fn SUNLogger_SetWarningFilename<O: Fn(&str, &str) -> SUNFile>(
    logger: &mut SUNLogger,
    warning_filename: Option<&str>,
    fopen: O,
) -> (err: SUNErrCode)
    requires
        warning_filename matches Some(n) && n@.len() > 0 ==> old(logger).table_ok(),
        forall|n: &str, m: &str| fopen.requires((n, m)),
    ensures
        set_filename_outcome(old(logger), final(logger), warning_filename, SUN_LOGLEVEL_WARNING, fopen, err),

{
    sunLoggerSetFilename(logger, warning_filename, SUN_LOGLEVEL_WARNING, fopen)
}

/// Send warning records to `warning_fp`.
pub fn SUNLogger_SetWarningFile(logger: &mut SUNLogger, warning_fp: SUNFile) -> (err: SUNErrCode)
    ensures
        err == SUN_SUCCESS,
        final(logger).same_streams_except(old(logger), SUN_LOGLEVEL_WARNING, Some(warning_fp)),
        final(logger).filenames == old(logger).filenames,
{
    logger.warning_fp = warning_fp;
    SUN_SUCCESS
}

/// The stream warning records go to.
pub fn SUNLogger_GetWarningFile(logger: &SUNLogger, warning_fp: &mut SUNFile) -> (err: SUNErrCode)
    ensures
        err == SUN_SUCCESS,
        *final(warning_fp) == logger.warning_fp,
{
    *warning_fp = logger.warning_fp;
    SUN_SUCCESS
}

/// Informational records are compiled out at this logging level: the
/// logger is left as it is.
pub fn SUNLogger_SetInfoFilename<O: Fn(&str, &str) -> SUNFile>(
    logger: &mut SUNLogger,
    info_filename: Option<&str>,
    fopen: O,
) -> (err: SUNErrCode)
    ensures
        err == SUN_SUCCESS,
        final(logger).same_streams_except(old(logger), SUN_LOGLEVEL_INFO, None),
        final(logger).filenames == old(logger).filenames,
{
    SUN_SUCCESS
}

/// Informational records are compiled out at this logging level: the
/// logger is left as it is.
pub fn SUNLogger_SetInfoFile(logger: &mut SUNLogger, info_fp: SUNFile) -> (err: SUNErrCode)
    ensures
        err == SUN_SUCCESS,
        final(logger).same_streams_except(old(logger), SUN_LOGLEVEL_INFO, None),
        final(logger).filenames == old(logger).filenames,
{
    SUN_SUCCESS
}

/// The stream informational records go to.
pub fn SUNLogger_GetInfoFile(logger: &SUNLogger, info_fp: &mut SUNFile) -> (err: SUNErrCode)
    ensures
        err == SUN_SUCCESS,
        *final(info_fp) == logger.info_fp,
{
    *info_fp = logger.info_fp;
    SUN_SUCCESS
}

/// Debugging records are compiled out at this logging level: the logger is
/// left as it is.
pub fn SUNLogger_SetDebugFilename<O: Fn(&str, &str) -> SUNFile>(
    logger: &mut SUNLogger,
    debug_filename: Option<&str>,
    fopen: O,
) -> (err: SUNErrCode)
    ensures
        err == SUN_SUCCESS,
        final(logger).same_streams_except(old(logger), SUN_LOGLEVEL_DEBUG, None),
        final(logger).filenames == old(logger).filenames,
{
    SUN_SUCCESS
}

/// Debugging records are compiled out at this logging level: the logger is
/// left as it is.
pub fn SUNLogger_SetDebugFile(logger: &mut SUNLogger, debug_fp: SUNFile) -> (err: SUNErrCode)
    ensures
        err == SUN_SUCCESS,
        final(logger).same_streams_except(old(logger), SUN_LOGLEVEL_DEBUG, None),
        final(logger).filenames == old(logger).filenames,
{
    SUN_SUCCESS
}

/// The stream debugging records go to.
pub fn SUNLogger_GetDebugFile(logger: &SUNLogger, debug_fp: &mut SUNFile) -> (err: SUNErrCode)
    ensures
        err == SUN_SUCCESS,
        *final(debug_fp) == logger.debug_fp,
{
    *debug_fp = logger.debug_fp;
    SUN_SUCCESS
}

/// Install the host's message routines (known by number) with their
/// content; with no queue routine, go back to the logger's own routines
/// and drop the content.
pub fn SUNLogger_SetQueueAndFlushMsgFns(
    logger: &mut SUNLogger,
    queue_msg: Option<u64>,
    flush_msg: Option<u64>,
    lptr: Option<u64>,
) -> (err: SUNErrCode)
    ensures
        err == SUN_SUCCESS,
        queue_msg matches Some(q) ==> final(logger).queue_msg == Some(SUNLoggerMsgFn::User(q))
            && final(logger).flush_msg == (match flush_msg {
            Some(f) => Some(SUNLoggerMsgFn::User(f)),
            None => None,
        }) && final(logger).content == lptr,
        queue_msg is None ==> final(logger).queue_msg == Some(SUNLoggerMsgFn::Default)
            && final(logger).flush_msg == Some(SUNLoggerMsgFn::Default) && final(logger).content
            is None,
        final(logger).comm == old(logger).comm,
        final(logger).output_rank == old(logger).output_rank,
        final(logger).error_fp == old(logger).error_fp,
        final(logger).warning_fp == old(logger).warning_fp,
        final(logger).info_fp == old(logger).info_fp,
        final(logger).debug_fp == old(logger).debug_fp,
        final(logger).filenames == old(logger).filenames,
{
    match queue_msg {
        Some(q) => {
            logger.queue_msg = Some(SUNLoggerMsgFn::User(q));
            logger.flush_msg = match flush_msg {
                Some(f) => Some(SUNLoggerMsgFn::User(f)),
                None => None,
            };
            logger.content = lptr;
        },
        None => {
            logger.queue_msg = Some(SUNLoggerMsgFn::Default);
            logger.flush_msg = Some(SUNLoggerMsgFn::Default);
            logger.content = None;
        },
    }
    SUN_SUCCESS
}

/// The record prefix for a level: `DEBUG`, `WARNING`, `INFO`, `ERROR`, or
/// empty.
pub fn sunLogLevelPrefix(lvl: SUNLogLevel) -> (p: &'static str)
    ensures
        p@ == level_prefix(lvl),
{
    if lvl == SUN_LOGLEVEL_DEBUG {
        "DEBUG"
    } else if lvl == SUN_LOGLEVEL_WARNING {
        "WARNING"
    } else if lvl == SUN_LOGLEVEL_INFO {
        "INFO"
    } else if lvl == SUN_LOGLEVEL_ERROR {
        "ERROR"
    } else {
        ""
    }
}

/// A record is tagged with the name of the level it is queued at: the four
/// levels get the four different names `ERROR`, `WARNING`, `INFO` and
/// `DEBUG`, and every other level an empty tag; the logger's own routine
/// writes a record that starts with that name in brackets.
pub proof fn law_level_names(lvl: SUNLogLevel, rank: i32, scope: Seq<char>, label: Seq<char>, txt: Seq<char>)
    ensures
        level_prefix(SUN_LOGLEVEL_ERROR) == "ERROR"@,
        level_prefix(SUN_LOGLEVEL_WARNING) == "WARNING"@,
        level_prefix(SUN_LOGLEVEL_INFO) == "INFO"@,
        level_prefix(SUN_LOGLEVEL_DEBUG) == "DEBUG"@,
        !(SUN_LOGLEVEL_ERROR <= lvl <= SUN_LOGLEVEL_DEBUG) ==> level_prefix(lvl).len() == 0,
        forall|a: SUNLogLevel, b: SUNLogLevel|
            SUN_LOGLEVEL_ERROR <= a <= SUN_LOGLEVEL_DEBUG && SUN_LOGLEVEL_ERROR <= b <= SUN_LOGLEVEL_DEBUG && a != b
                ==> #[trigger] level_prefix(a) != #[trigger] level_prefix(b),
        log_message(level_prefix(lvl), rank, scope, label, txt).subrange(0, level_prefix(lvl).len() + 2int)
            == "["@ + level_prefix(lvl) + "]"@,
{
    reveal_strlit("ERROR");
    reveal_strlit("WARNING");
    reveal_strlit("INFO");
    reveal_strlit("DEBUG");
    reveal_strlit("");
    reveal_strlit("[");
    reveal_strlit("]");
    reveal_strlit("][rank ");
    assert("ERROR"@[0] != "WARNING"@[0]);
    assert("ERROR"@[0] != "INFO"@[0]);
    assert("ERROR"@[0] != "DEBUG"@[0]);
    assert("WARNING"@[0] != "INFO"@[0]);
    assert("WARNING"@[0] != "DEBUG"@[0]);
    assert("INFO"@[0] != "DEBUG"@[0]);
    let m = log_message(level_prefix(lvl), rank, scope, label, txt);
    assert(m.subrange(0, level_prefix(lvl).len() + 2int) =~= "["@ + level_prefix(lvl) + "]"@);
}

/// What queueing a record at level `lvl` returns: without a queue routine
/// nothing happens; a level with no stream is unreachable; a NULL stream
/// takes nothing. Otherwise the logger's own routine writes the record
/// (the level's prefix, rank zero, the scope, the label and the text) to
/// the level's stream through `write` and succeeds, and a caller's routine
/// `id` is run through `user` on those same parts and its answer returned.
pub open spec fn queue_msg_outcome<
    W: Fn(SUNFile, &str),
    Q: Fn(u64, &SUNLogger, SUNLogLevel, &str, i32, &str, &str, &str) -> SUNErrCode,
>(
    logger: &SUNLogger,
    lvl: SUNLogLevel,
    scope: Seq<char>,
    label: Seq<char>,
    msg_txt: Seq<char>,
    write: W,
    user: Q,
    err: SUNErrCode,
) -> bool {
    &&& logger.queue_msg is None ==> err == SUN_SUCCESS
    &&& logger.queue_msg is Some && logger.stream(lvl) is None ==> err == SUN_ERR_UNREACHABLE
    &&& logger.queue_msg is Some && logger.stream(lvl) == Some(SUNFile::Null) ==> err == SUN_SUCCESS
    &&& logger.queue_msg == Some(SUNLoggerMsgFn::Default) ==> (logger.stream(lvl) matches Some(f) ==> (!(
    f is Null) ==> err == SUN_SUCCESS && exists|t: &str|
        t@ == log_message(level_prefix(lvl), 0, scope, label, msg_txt) && write.ensures((f, t), ())))
    &&& logger.queue_msg matches Some(SUNLoggerMsgFn::User(id)) ==> (logger.stream(lvl) matches Some(f) ==> (!(
    f is Null) ==> exists|p: &str, s: &str, b: &str, t: &str|
        p@ == level_prefix(lvl) && s@ == scope && b@ == label && t@ == msg_txt
            && user.ensures((id, logger, lvl, p, 0i32, s, b, t), err)))
}

/// Queue a record at level `lvl`: with a queue routine installed and a
/// non-NULL stream for the level, the logger's own routine writes the
/// record to that stream through `write`, and a caller's routine is run
/// through `user` with its handle and the record's parts, its answer
/// returned. A level with no stream is unreachable.
pub fn SUNLogger_QueueMsg<
    W: Fn(SUNFile, &str),
    Q: Fn(u64, &SUNLogger, SUNLogLevel, &str, i32, &str, &str, &str) -> SUNErrCode,
>(
    logger: &SUNLogger,
    lvl: SUNLogLevel,
    scope: &str,
    label: &str,
    msg_txt: &str,
    write: W,
    user: Q,
) -> (err: SUNErrCode)
    requires
        forall|f: SUNFile, t: &str| write.requires((f, t)),
        forall|i: u64, l: &SUNLogger, v: SUNLogLevel, p: &str, r: i32, s: &str, b: &str, t: &str|
            user.requires((i, l, v, p, r, s, b, t)),
    ensures
        queue_msg_outcome(logger, lvl, scope@, label@, msg_txt@, write, user, err),
{
    let routine = match logger.queue_msg {
        Some(q) => q,
        None => {
            return SUN_SUCCESS;
        },
    };
    let mut rank: i32 = 0;
    if !sunLoggerIsOutputRank(logger, &mut rank) {
        return SUN_SUCCESS;
    }
    match sunLoggerGetFilePointer(logger, lvl) {
        Ok(fp) => {
            if fp.is_null() {
                return SUN_SUCCESS;
            }
        },
        Err(code) => {
            return code;
        },
    }
    let prefix = sunLogLevelPrefix(lvl);
    match routine {
        SUNLoggerMsgFn::Default => sunQueueLogMessage(logger, lvl, prefix, rank, scope, label, msg_txt, write),
        SUNLoggerMsgFn::User(id) => user(id, logger, lvl, prefix, rank, scope, label, msg_txt),
    }
}

/// What flushing at level `lvl` returns: without a flush routine nothing
/// happens; the logger's own routine flushes every non-NULL stream for
/// `SUN_LOGLEVEL_ALL`, or the level's stream unless it is NULL, and
/// succeeds, a level with no stream being unreachable; a caller's routine
/// `id` is run through `user` and its answer returned.
pub open spec fn flush_outcome<Fl: Fn(SUNFile), U: Fn(u64, &SUNLogger, SUNLogLevel) -> SUNErrCode>(
    logger: &SUNLogger,
    lvl: SUNLogLevel,
    fflush: Fl,
    user: U,
    err: SUNErrCode,
) -> bool {
    &&& logger.flush_msg is None ==> err == SUN_SUCCESS
    &&& logger.flush_msg == Some(SUNLoggerMsgFn::Default) ==> {
        &&& lvl == SUN_LOGLEVEL_ALL ==> err == SUN_SUCCESS && forall|l: SUNLogLevel|
            SUN_LOGLEVEL_ERROR <= l <= SUN_LOGLEVEL_DEBUG && !(logger.stream(l).unwrap() is Null)
                ==> fflush.ensures((#[trigger] logger.stream(l).unwrap(),), ())
        &&& lvl != SUN_LOGLEVEL_ALL && logger.stream(lvl) is None ==> err == SUN_ERR_UNREACHABLE
        &&& lvl != SUN_LOGLEVEL_ALL && logger.stream(lvl) is Some ==> err == SUN_SUCCESS && (!(
        logger.stream(lvl).unwrap() is Null) ==> fflush.ensures((logger.stream(lvl).unwrap(),), ()))
    }
    &&& logger.flush_msg matches Some(SUNLoggerMsgFn::User(id)) ==> user.ensures((id, logger, lvl), err)
}

/// Flush the records at level `lvl` (all levels for `SUN_LOGLEVEL_ALL`):
/// the logger's own routine flushes its streams through `fflush`, and a
/// caller's routine is run through `user` with its handle; with none
/// installed there is nothing to do.
pub fn SUNLogger_Flush<Fl: Fn(SUNFile), U: Fn(u64, &SUNLogger, SUNLogLevel) -> SUNErrCode>(
    logger: &SUNLogger,
    lvl: SUNLogLevel,
    fflush: Fl,
    user: U,
) -> (err: SUNErrCode)
    requires
        forall|f: SUNFile| fflush.requires((f,)),
        forall|i: u64, l: &SUNLogger, v: SUNLogLevel| user.requires((i, l, v)),
    ensures
        flush_outcome(logger, lvl, fflush, user, err),
{
    let mut rank: i32 = 0;
    if !sunLoggerIsOutputRank(logger, &mut rank) {
        return SUN_SUCCESS;
    }
    match logger.flush_msg {
        Some(SUNLoggerMsgFn::Default) => sunFlushLogMessage(logger, lvl, fflush),
        Some(SUNLoggerMsgFn::User(id)) => user(id, logger, lvl),
        None => SUN_SUCCESS,
    }
}

/// The rank that writes records.
pub fn SUNLogger_GetOutputRank(logger: &SUNLogger, output_rank: &mut i32) -> (err: SUNErrCode)
    ensures
        err == SUN_SUCCESS,
        *final(output_rank) == logger.output_rank,
{
    *output_rank = logger.output_rank;
    SUN_SUCCESS
}

/// Drop the logger.
pub fn SUNLogger_Destroy(logger_ptr: &mut Option<SUNLogger>) -> (err: SUNErrCode)
    ensures
        err == SUN_SUCCESS,
        *final(logger_ptr) is None,
{
    *logger_ptr = None;
    SUN_SUCCESS
}

/// One setting from the environment applied to a logger: an error or
/// warning filename that is set goes through the filename routine, one that
/// is not set leaves the logger alone; informational and debugging records
/// are compiled out, so their settings leave it alone too.
#[verifier::opaque]
pub open spec fn env_set_outcome<O: Fn(&str, &str) -> SUNFile>(
    l0: &SUNLogger_,
    l1: &SUNLogger_,
    name: Option<&str>,
    which: SUNLogLevel,
    fopen: O,
    err: SUNErrCode,
) -> bool {
    if (which == SUN_LOGLEVEL_ERROR || which == SUN_LOGLEVEL_WARNING) && name is Some {
        set_filename_outcome(l0, l1, name, which, fopen, err)
    } else {
        l1.same_streams_except(l0, which, None) && l1.filenames == l0.filenames && err == SUN_SUCCESS
    }
}

/// The rank the environment names, read as C's `atoi` does; zero when the
/// variable is not set.
pub open spec fn env_rank(output_rank: Option<&str>) -> i32 {
    match output_rank {
        Some(s) => spec_atoi(s@),
        None => 0,
    }
}

fn apply_env_setting<O: Fn(&str, &str) -> SUNFile + Copy>(
    logger: &mut SUNLogger,
    name: Option<&str>,
    which: SUNLogLevel,
    fopen: O,
) -> (err: SUNErrCode)
    requires
        old(logger).table_ok(),
        SUN_LOGLEVEL_ERROR <= which <= SUN_LOGLEVEL_DEBUG,
        forall|n: &str, m: &str| fopen.requires((n, m)),
    ensures
        env_set_outcome(old(logger), final(logger), name, which, fopen, err),
        final(logger).table_ok(),
{
    reveal(env_set_outcome);
    match name {
        None => SUN_SUCCESS,
        Some(_) => {
            if which == SUN_LOGLEVEL_ERROR {
                SUNLogger_SetErrorFilename(logger, name, fopen)
            } else if which == SUN_LOGLEVEL_WARNING {
                SUNLogger_SetWarningFilename(logger, name, fopen)
            } else if which == SUN_LOGLEVEL_DEBUG {
                SUNLogger_SetDebugFilename(logger, name, fopen)
            } else {
                SUNLogger_SetInfoFilename(logger, name, fopen)
            }
        },
    }
}

/// The loggers and return codes of the settings from the environment, in
/// order: a fresh logger with the environment's rank, then the error,
/// warning, debug and info filenames, each applied while all before it
/// succeeded.
pub open spec fn env_chain<O: Fn(&str, &str) -> SUNFile>(
    l0: SUNLogger,
    l1: SUNLogger,
    l2: SUNLogger,
    l3: SUNLogger,
    l4: SUNLogger,
    e1: SUNErrCode,
    e2: SUNErrCode,
    e3: SUNErrCode,
    e4: SUNErrCode,
    output_rank_env: Option<&str>,
    error_fname_env: Option<&str>,
    warning_fname_env: Option<&str>,
    info_fname_env: Option<&str>,
    debug_fname_env: Option<&str>,
    fopen: O,
) -> bool {
    &&& fresh_logger(l0, env_rank(output_rank_env))
    &&& env_set_outcome(&l0, &l1, error_fname_env, SUN_LOGLEVEL_ERROR, fopen, e1)
    &&& e1 == SUN_SUCCESS ==> env_set_outcome(&l1, &l2, warning_fname_env, SUN_LOGLEVEL_WARNING, fopen, e2)
    &&& e1 == SUN_SUCCESS && e2 == SUN_SUCCESS ==> env_set_outcome(&l2, &l3, debug_fname_env, SUN_LOGLEVEL_DEBUG, fopen, e3)
    &&& e1 == SUN_SUCCESS && e2 == SUN_SUCCESS && e3 == SUN_SUCCESS ==> env_set_outcome(&l3, &l4, info_fname_env, SUN_LOGLEVEL_INFO, fopen, e4)
    &&& e1 != SUN_SUCCESS ==> e2 == SUN_SUCCESS && e3 == SUN_SUCCESS && e4 == SUN_SUCCESS && l4 == l1
    &&& e1 == SUN_SUCCESS && e2 != SUN_SUCCESS ==> e3 == SUN_SUCCESS && e4 == SUN_SUCCESS && l4 == l2
    &&& e1 == SUN_SUCCESS && e2 == SUN_SUCCESS && e3 != SUN_SUCCESS ==> e4 == SUN_SUCCESS && l4 == l3
}

/// The logger and the return code that the environment's settings give:
/// the first failing setting's code and no logger, or success and the
/// logger after every setting.
pub open spec fn env_logger_result<O: Fn(&str, &str) -> SUNFile>(
    out: Option<SUNLogger>,
    err: SUNErrCode,
    output_rank_env: Option<&str>,
    error_fname_env: Option<&str>,
    warning_fname_env: Option<&str>,
    info_fname_env: Option<&str>,
    debug_fname_env: Option<&str>,
    fopen: O,
) -> bool {
    exists|l0: SUNLogger, l1: SUNLogger, l2: SUNLogger, l3: SUNLogger, l4: SUNLogger,
        e1: SUNErrCode, e2: SUNErrCode, e3: SUNErrCode, e4: SUNErrCode|
        #[trigger] env_chain(
            l0, l1, l2, l3, l4, e1, e2, e3, e4, output_rank_env, error_fname_env, warning_fname_env,
            info_fname_env, debug_fname_env, fopen,
        ) && err == if e1 != SUN_SUCCESS {
            e1
        } else if e2 != SUN_SUCCESS {
            e2
        } else if e3 != SUN_SUCCESS {
            e3
        } else {
            e4
        } && (err == SUN_SUCCESS ==> out == Some(l4)) && (err != SUN_SUCCESS ==> out is None)
}

/// Create a logger as the environment asks. `output_rank_env` and the
/// filenames are the values of `SUNLOGGER_OUTPUT_RANK` and of
/// `SUNLOGGER_{ERROR,WARNING,INFO,DEBUG}_FILENAME`, where set. The rank is
/// read as C's `atoi` reads it; the filenames are applied in the order
/// error, warning, debug, info, and the first that fails is returned with
/// no logger made. A communicator other than the null one is
/// `SUN_ERR_CORRUPT`, and `*logger_out` is left untouched.
pub fn SUNLogger_CreateFromEnv<O: Fn(&str, &str) -> SUNFile + Copy>(
    comm: SUNComm,
    output_rank_env: Option<&str>,
    error_fname_env: Option<&str>,
    warning_fname_env: Option<&str>,
    info_fname_env: Option<&str>,
    debug_fname_env: Option<&str>,
    fopen: O,
    logger_out: &mut Option<SUNLogger>,
) -> (err: SUNErrCode)
    requires
        forall|n: &str, m: &str| fopen.requires((n, m)),
    ensures
        comm != SUN_COMM_NULL ==> err == SUN_ERR_CORRUPT && *final(logger_out) == *old(logger_out),
        comm == SUN_COMM_NULL ==> env_logger_result(
            *final(logger_out), err, output_rank_env, error_fname_env, warning_fname_env,
            info_fname_env, debug_fname_env, fopen,
        ),
{
    let output_rank: i32 = match output_rank_env {
        Some(s) => atoi(s),
        None => 0,
    };
    let mut created: Option<SUNLogger> = None;
    if SUNLogger_Create(comm, output_rank, &mut created) != SUN_SUCCESS {
        return SUN_ERR_CORRUPT;
    }
    let mut lg = created.unwrap();
    let ghost l0 = lg;
    let e1 = apply_env_setting(&mut lg, error_fname_env, SUN_LOGLEVEL_ERROR, fopen);
    let ghost l1 = lg;
    let mut e2 = SUN_SUCCESS;
    let mut e3 = SUN_SUCCESS;
    let mut e4 = SUN_SUCCESS;
    if e1 == SUN_SUCCESS {
        e2 = apply_env_setting(&mut lg, warning_fname_env, SUN_LOGLEVEL_WARNING, fopen);
    }
    let ghost l2 = lg;
    if e1 == SUN_SUCCESS && e2 == SUN_SUCCESS {
        e3 = apply_env_setting(&mut lg, debug_fname_env, SUN_LOGLEVEL_DEBUG, fopen);
    }
    let ghost l3 = lg;
    if e1 == SUN_SUCCESS && e2 == SUN_SUCCESS && e3 == SUN_SUCCESS {
        e4 = apply_env_setting(&mut lg, info_fname_env, SUN_LOGLEVEL_INFO, fopen);
    }
    let ghost l4 = lg;
    let err = if e1 != SUN_SUCCESS {
        e1
    } else if e2 != SUN_SUCCESS {
        e2
    } else if e3 != SUN_SUCCESS {
        e3
    } else {
        e4
    };
    if err != SUN_SUCCESS {
        *logger_out = None;
    } else {
        *logger_out = Some(lg);
    }
    assert(fresh_logger(l0, env_rank(output_rank_env)));
    assert(env_set_outcome(&l0, &l1, error_fname_env, SUN_LOGLEVEL_ERROR, fopen, e1));
    assert(e1 == SUN_SUCCESS ==> env_set_outcome(&l1, &l2, warning_fname_env, SUN_LOGLEVEL_WARNING, fopen, e2));
    assert(e1 == SUN_SUCCESS && e2 == SUN_SUCCESS ==> env_set_outcome(&l2, &l3, debug_fname_env, SUN_LOGLEVEL_DEBUG, fopen, e3));
    assert(e1 == SUN_SUCCESS && e2 == SUN_SUCCESS && e3 == SUN_SUCCESS ==> env_set_outcome(&l3, &l4, info_fname_env, SUN_LOGLEVEL_INFO, fopen, e4));
    assert(err == SUN_SUCCESS ==> *logger_out == Some(l4));
    assert(err != SUN_SUCCESS ==> *logger_out is None);
    assert(env_chain(
        l0, l1, l2, l3, l4, e1, e2, e3, e4, output_rank_env, error_fname_env, warning_fname_env,
        info_fname_env, debug_fname_env, fopen,
    ));
    err
}

} // verus!
