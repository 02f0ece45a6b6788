use vstd::prelude::*;
use crate::sundials_errors::{SUN_ERR_FILE_OPEN, SUN_SUCCESS};
use crate::sundials_types::SUNErrCode;
use crate::sundials_utils::str_eq;

verus! {

/// A C `FILE*`: none, one of the standard streams, or an open file that
/// the host knows by its handle number.
#[derive(Debug, Clone, Copy, PartialEq, Eq, Structural)]
pub enum SUNFile {
    Null,
    Stdout,
    Stderr,
    File(u64),
}

impl SUNFile {
    /// The handle is the NULL `FILE*`.
    pub fn is_null(&self) -> (r: bool)
        ensures
            r == (*self is Null),
    {
        match self {
            SUNFile::Null => true,
            _ => false,
        }
    }

    /// The two handles name the same stream.
    pub fn ptr_eq(&self, other: &SUNFile) -> (r: bool)
        ensures
            r == (*self == *other),
    {
        *self == *other
    }
}

/// The stream a file name selects without opening anything: the names
/// `stdout` and `stderr` pick the standard streams.
pub open spec fn standard_stream(name: Seq<char>) -> Option<SUNFile> {
    if name == "stdout"@ {
        Some(SUNFile::Stdout)
    } else if name == "stderr"@ {
        Some(SUNFile::Stderr)
    } else {
        None
    }
}

/// Open `filename` with `mode` into `*fp_out`: the names `stdout` and
/// `stderr` give the standard streams, any other name is handed to
/// `fopen`, and no name keeps the incoming handle. The result is
/// `SUN_ERR_FILE_OPEN` exactly when the handle left in `*fp_out` is NULL.
pub fn SUNFileOpen<O: Fn(&str, &str) -> SUNFile>(
    filename: Option<&str>,
    mode: &str,
    fp_out: &mut SUNFile,
    fopen: O,
) -> (err: SUNErrCode)
    requires
        forall|n: &str, m: &str| fopen.requires((n, m)),
    ensures
        filename is None ==> *final(fp_out) == *old(fp_out),
        filename matches Some(n) ==> (standard_stream(n@) is Some ==> *final(fp_out)
            == standard_stream(n@).unwrap()),
        filename matches Some(n) ==> (standard_stream(n@) is None ==> exists|na: &str, mo: &str|
            na@ == n@ && mo@ == mode@ && fopen.ensures((na, mo), *final(fp_out))),
        err == if *final(fp_out) is Null {
            SUN_ERR_FILE_OPEN
        } else {
            SUN_SUCCESS
        },
{
    let mut err: SUNErrCode = SUN_SUCCESS;
    let mut fp = *fp_out;
    match filename {
        Some(name) => {
            if str_eq(name, "stdout") {
                fp = SUNFile::Stdout;
            } else if str_eq(name, "stderr") {
                fp = SUNFile::Stderr;
            } else {
                fp = fopen(name, mode);
            }
        },
        None => {},
    }
    if fp.is_null() {
        err = SUN_ERR_FILE_OPEN;
    }
    *fp_out = fp;
    err
}

/// The older name of `SUNFileOpen`.
pub fn SUNDIALSFileOpen<O: Fn(&str, &str) -> SUNFile>(
    filename: Option<&str>,
    mode: &str,
    fp_out: &mut SUNFile,
    fopen: O,
) -> (err: SUNErrCode)
    requires
        forall|n: &str, m: &str| fopen.requires((n, m)),
    ensures
        filename is None ==> *final(fp_out) == *old(fp_out),
        filename matches Some(n) ==> (standard_stream(n@) is Some ==> *final(fp_out)
            == standard_stream(n@).unwrap()),
        filename matches Some(n) ==> (standard_stream(n@) is None ==> exists|na: &str, mo: &str|
            na@ == n@ && mo@ == mode@ && fopen.ensures((na, mo), *final(fp_out))),
        err == if *final(fp_out) is Null {
            SUN_ERR_FILE_OPEN
        } else {
            SUN_SUCCESS
        },
{
    SUNFileOpen(filename, mode, fp_out, fopen)
}

/// Close the file in `*fp_ptr`: an open file is handed to `fclose` and the
/// handle reset to NULL; the standard streams and NULL stay as they are.
pub fn SUNFileClose<C: Fn(SUNFile)>(fp_ptr: &mut SUNFile, fclose: C) -> (err: SUNErrCode)
    requires
        forall|f: SUNFile| fclose.requires((f,)),
    ensures
        err == SUN_SUCCESS,
        *old(fp_ptr) is File ==> *final(fp_ptr) == SUNFile::Null && fclose.ensures((*old(fp_ptr),), ()),
        !(*old(fp_ptr) is File) ==> *final(fp_ptr) == *old(fp_ptr),
{
    if !fp_ptr.is_null() && !fp_ptr.ptr_eq(&SUNFile::Stdout) && !fp_ptr.ptr_eq(&SUNFile::Stderr) {
        fclose(*fp_ptr);
        *fp_ptr = SUNFile::Null;
    }
    SUN_SUCCESS
}

/// The older name of `SUNFileClose`.
pub fn SUNDIALSFileClose<C: Fn(SUNFile)>(fp_ptr: &mut SUNFile, fclose: C) -> (err: SUNErrCode)
    requires
        forall|f: SUNFile| fclose.requires((f,)),
    ensures
        err == SUN_SUCCESS,
        *old(fp_ptr) is File ==> *final(fp_ptr) == SUNFile::Null && fclose.ensures((*old(fp_ptr),), ()),
        !(*old(fp_ptr) is File) ==> *final(fp_ptr) == *old(fp_ptr),
{
    SUNFileClose(fp_ptr, fclose)
}

} // verus!
