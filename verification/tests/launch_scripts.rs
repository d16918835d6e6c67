use openshell_relay::launch_scripts::{
    capture_preloads_realpath, find_text, runner_limits_grants,
};

/// The lines of a capture script that the order of loading turns on.
const CAPTURE: &str = "import fs, { syncBuiltinESMExports } from \"node:fs\";
fs.promises.realpath = promisify(fs.realpath);
syncBuiltinESMExports();
await import(pathToFileURL(entry).href);
";

/// The lines of a runner script that grant access to directories.
const RUNNER: &str = "& icacls $Path /grant \"*S-1-15-2-1:(OI)(CI)(M)\"
& icacls $Path /grant \"*S-1-15-2-2:(OI)(CI)(M)\"
Grant-AppContainerWritableDirectory (Join-Path $shareDirNorm \"home\")
Grant-AppContainerWritableDirectory (Join-Path $shareDirNorm \"temp\")
";

#[test]
fn capture_preloads_appcontainer_safe_realpath_before_openclaw() {
    let patch = find_text(CAPTURE, "fs.promises.realpath = promisify(fs.realpath)")
        .expect("capture must install the callback realpath compatibility binding");
    let import = find_text(CAPTURE, "await import(pathToFileURL(entry).href)")
        .expect("capture must import the OpenClaw entry point");

    assert!(
        patch < import,
        "realpath compatibility must be installed before OpenClaw loads"
    );
    assert!(find_text(CAPTURE, "syncBuiltinESMExports()").is_some());
    assert!(capture_preloads_realpath(CAPTURE));
}

#[test]
fn runner_limits_package_group_dacl_grants_to_writable_data_directories() {
    assert!(find_text(RUNNER, "*S-1-15-2-1:(OI)(CI)(M)").is_some());
    assert!(find_text(RUNNER, "*S-1-15-2-2:(OI)(CI)(M)").is_some());
    assert!(find_text(
        RUNNER,
        "Grant-AppContainerWritableDirectory (Join-Path $shareDirNorm \"home\")"
    )
    .is_some());
    assert!(find_text(
        RUNNER,
        "Grant-AppContainerWritableDirectory (Join-Path $shareDirNorm \"temp\")"
    )
    .is_some());
    assert!(find_text(RUNNER, "Grant-AppContainerWritableDirectory $shareDirNorm").is_none());
    assert!(runner_limits_grants(RUNNER));
}

#[test]
fn capture_that_loads_too_early_is_found_out() {
    let late = "await import(pathToFileURL(entry).href);
fs.promises.realpath = promisify(fs.realpath);
syncBuiltinESMExports();
";
    assert!(!capture_preloads_realpath(late));
    let twice = format!("{late}{CAPTURE}");
    assert!(!capture_preloads_realpath(&twice));
    assert!(!capture_preloads_realpath(&CAPTURE.replace("syncBuiltinESMExports();", "")));
    assert!(!capture_preloads_realpath(""));
}

#[test]
fn runner_that_grants_the_whole_share_is_found_out() {
    let wide = format!("{RUNNER}Grant-AppContainerWritableDirectory $shareDirNorm\n");
    assert!(!runner_limits_grants(&wide));
    assert!(!runner_limits_grants(&RUNNER.replace("S-1-15-2-2", "S-1-15-2-3")));
    assert!(!runner_limits_grants(&RUNNER.replace("\"home\"", "\"away\"")));
}

#[test]
fn text_is_found_where_it_stands_first() {
    assert_eq!(find_text("abcabc", "bc"), Some(1));
    assert_eq!(find_text("aab", "ab"), Some(1));
    assert_eq!(find_text("é€x", "x"), Some(5));
    assert_eq!(find_text("abc", ""), Some(0));
    assert_eq!(find_text("abc", "abcd"), None);
    assert_eq!(find_text("", ""), Some(0));
}
