use ampfuzz::check_dep::{
    check_asan, check_dep, check_fast, check_io_dir, check_target_binary, check_track_llvm,
    containt_string, DepError, IoDirs, TargetFile,
};

#[test]
fn marker_is_found_anywhere_in_the_file() {
    assert!(containt_string(b"xx__angora_cond_cmpidyy", "__angora_cond_cmpid"));
    assert!(containt_string(b"__angora_cond_cmpid", "__angora_cond_cmpid"));
    assert!(!containt_string(b"__angora_cond_cmpi", "__angora_cond_cmpid"));
    assert!(!containt_string(b"", "x"));
    assert!(containt_string(b"", ""));
}

#[test]
fn sanitizer_marks() {
    assert!(check_asan(b"\x7fELF...libasan.so.5..."));
    assert!(check_asan(b"..__msan_init.."));
    assert!(!check_asan(b"\x7fELF plain binary"));
}

#[test]
fn directories_are_checked_first() {
    let fast = TargetFile { is_file: true, data: b"__angora_cond_cmpid" };
    let track = TargetFile { is_file: true, data: b"__dfsw___angora_trace_cmp_tt" };
    let ok = IoDirs { resume: false, in_is_dir: true, out_exists: false };
    assert_eq!(check_dep(ok, &fast, Some(&track)), Ok(()));
    assert_eq!(check_dep(ok, &fast, None), Ok(()));
    let resume_missing = IoDirs { resume: true, in_is_dir: false, out_exists: false };
    assert_eq!(check_dep(resume_missing, &fast, Some(&track)), Err(DepError::MissingOutputDir));
    let resume_ok = IoDirs { resume: true, in_is_dir: false, out_exists: true };
    assert_eq!(check_io_dir(resume_ok), Ok(()));
    let no_input = IoDirs { resume: false, in_is_dir: false, out_exists: true };
    assert_eq!(check_dep(no_input, &fast, Some(&track)), Err(DepError::MissingInputDir));
}

#[test]
fn targets_must_be_instrumented() {
    let ok = IoDirs { resume: false, in_is_dir: true, out_exists: false };
    let fast = TargetFile { is_file: true, data: b"__angora_cond_cmpid" };
    let plain = TargetFile { is_file: true, data: b"nothing here" };
    let missing = TargetFile { is_file: false, data: b"" };
    let track = TargetFile { is_file: true, data: b"__dfsw___angora_trace_cmp_tt" };
    assert_eq!(check_dep(ok, &plain, Some(&track)), Err(DepError::NotInstrumented));
    assert_eq!(check_dep(ok, &missing, Some(&track)), Err(DepError::InvalidExecutable));
    assert_eq!(check_dep(ok, &fast, Some(&plain)), Err(DepError::NotTracking));
    assert_eq!(check_dep(ok, &fast, Some(&missing)), Err(DepError::InvalidExecutable));
    assert_eq!(check_fast(&fast), Ok(()));
    assert_eq!(check_track_llvm(&fast), Err(DepError::NotTracking));
    assert_eq!(check_target_binary(&missing), Err(DepError::InvalidExecutable));
    assert_eq!(check_target_binary(&plain), Ok(()));
}
