use sundials_core::sundials_errors::{
    SUNGetErrMsg, SUN_ERR_ARG_OUTOFRANGE, SUN_ERR_FILE_OPEN, SUN_ERR_UNKNOWN, SUN_SUCCESS,
};
use sundials_core::sundials_version::{SUNDIALSGetVersion, SUNDIALSGetVersionNumber};

#[test]
fn version_string_needs_room() {
    let mut v = String::from("old");
    assert_eq!(SUNDIALSGetVersion(&mut v, 5), SUN_ERR_ARG_OUTOFRANGE);
    assert_eq!(v, "old");
    assert_eq!(SUNDIALSGetVersion(&mut v, 6), SUN_SUCCESS);
    assert_eq!(v, "7.8.0");
    let mut w = String::new();
    assert_eq!(SUNDIALSGetVersion(&mut w, -1), SUN_SUCCESS);
    assert_eq!(w, "7.8.0");
}

#[test]
fn version_numbers() {
    let (mut a, mut b, mut c) = (0, 0, 0);
    let mut label = String::from("x");
    assert_eq!(SUNDIALSGetVersionNumber(&mut a, &mut b, &mut c, &mut label, 0), SUN_ERR_ARG_OUTOFRANGE);
    assert_eq!((a, b, c), (0, 0, 0));
    assert_eq!(SUNDIALSGetVersionNumber(&mut a, &mut b, &mut c, &mut label, 10), SUN_SUCCESS);
    assert_eq!((a, b, c), (7, 8, 0));
    assert_eq!(label, "");
}

#[test]
fn error_messages() {
    assert_eq!(SUNGetErrMsg(SUN_ERR_FILE_OPEN), "Unable to open file");
    assert_eq!(SUNGetErrMsg(SUN_ERR_ARG_OUTOFRANGE), "argument is out of the valid range");
    assert_eq!(
        SUNGetErrMsg(SUN_ERR_UNKNOWN),
        "Unknown error occurred: open an issue at https://github.com/LLNL/sundials"
    );
    assert_eq!(SUNGetErrMsg(SUN_SUCCESS), "unknown error");
    assert_eq!(SUNGetErrMsg(12345), "unknown error");
}
