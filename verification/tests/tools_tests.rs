use quern::config::{LoggingConfig, QuernConfig};
use quern::launcher::{
    exit_result, start_failure, log_file_name, parse_qvm_args, plan, quern_script_arg, select_operation, LaunchMode, LauncherArgs,
    QvmArgsError,
};
use quern::logging::{Logger, TraceContext};

fn strings(v: &[&str]) -> Vec<String> {
    v.iter().map(|s| s.to_string()).collect()
}

fn no_args() -> LauncherArgs {
    LauncherArgs {
        run: None,
        vm_verbose: None,
        vm_check: None,
        qvm_run: None,
        logs: false,
        no_print_trace: false,
        aot_clang_o_size: false,
        aot_clang_o_size_best: false,
        aot_clang_o_debug: false,
        aot_clang_ofast: false,
        aot_not_o: false,
        aot_c_verbose: false,
        aot_force_warn: false,
        aot_no_warn: false,
    }
}

fn trace() -> TraceContext {
    TraceContext { trace_id: "id-1".to_string(), timestamp: "2024-01-02 03:04:05.678".to_string() }
}

#[test]
fn default_config_values() {
    let c = QuernConfig::default();
    assert!(c.security.enable_sandbox);
    assert_eq!(c.security.max_loop_iterations, 1000000);
    assert_eq!(c.security.allowed_import_paths, vec!["./scripts".to_string()]);
    assert_eq!(c.logging.level, "INFO");
    assert!(c.logging.output_trace_id);
    assert_eq!(c.runtime.default_stack_size, 1024);
    assert!(!c.runtime.enable_jit);
}

#[test]
fn logger_lines_with_trace_id() {
    let logger = Logger::new(LoggingConfig { level: "INFO".to_string(), output_trace_id: true });
    let t = trace();
    assert_eq!(logger.info("hello", &t), "\x1b[34m[2024-01-02 03:04:05.678] [INFO] [Trace: id-1] hello\x1b[0m");
    assert_eq!(logger.warn("careful", &t), "\x1b[33m[2024-01-02 03:04:05.678] [WARN] [Trace: id-1] careful\x1b[0m");
    assert_eq!(logger.error("bad", &t), "\x1b[31m[2024-01-02 03:04:05.678] [ERROR] [Trace: id-1] bad\x1b[0m");
}

#[test]
fn logger_lines_without_trace_id() {
    let logger = Logger::new(LoggingConfig { level: "INFO".to_string(), output_trace_id: false });
    assert_eq!(logger.info("hello", &trace()), "\x1b[34m[2024-01-02 03:04:05.678] [INFO] hello\x1b[0m");
}

#[test]
fn new_trace_has_a_v4_uuid_and_a_timestamp() {
    let t = TraceContext::new();
    assert_eq!(t.trace_id.len(), 36);
    assert_eq!(t.trace_id.as_bytes()[14], b'4');
    assert_eq!(t.trace_id.matches('-').count(), 4);
    let ts = t.timestamp.as_bytes();
    assert_eq!(ts.len(), 23);
    assert_eq!(ts[4], b'-');
    assert_eq!(ts[10], b' ');
    assert_eq!(ts[19], b'.');
    assert!(ts[..4].iter().all(|c| c.is_ascii_digit()));
    let other = TraceContext::new();
    assert_ne!(t.trace_id, other.trace_id);
}

#[test]
fn the_first_given_operation_is_chosen() {
    let mut a = no_args();
    assert!(select_operation(&a).is_none());
    a.qvm_run = Some("q.qb".to_string());
    assert_eq!(select_operation(&a).map(|(m, s)| (m, s)), Some((LaunchMode::QvmRun, "q.qb".to_string())));
    a.vm_check = Some("c.q".to_string());
    assert_eq!(select_operation(&a), Some((LaunchMode::VMCheck, "c.q".to_string())));
    a.vm_verbose = Some("v.q".to_string());
    assert_eq!(select_operation(&a), Some((LaunchMode::VMVerbose, "v.q".to_string())));
    a.run = Some("r.q".to_string());
    assert_eq!(select_operation(&a), Some((LaunchMode::Run, "r.q".to_string())));
}

#[test]
fn plans_start_quernc_then_qvm() {
    let mut a = no_args();
    a.aot_clang_ofast = true;
    a.aot_no_warn = true;
    let s = "x.q".to_string();
    let p = plan(LaunchMode::Run, &s, &a);
    assert_eq!(p.len(), 1);
    assert_eq!(p[0].program, "Quernc");
    assert_eq!(p[0].args, strings(&["--run", "x.q", "--clang-ofast", "--no-warn"]));
    let p = plan(LaunchMode::VMVerbose, &s, &a);
    assert_eq!(p.len(), 2);
    assert_eq!(p[1].program, "Qvm");
    assert_eq!(p[1].args, strings(&["--run", "--verbose", "x.q"]));
    let p = plan(LaunchMode::VMCheck, &s, &no_args());
    assert_eq!(p[0].args, strings(&["--run", "x.q"]));
    assert_eq!(p[1].args, strings(&["--run", "--check", "x.q"]));
    let p = plan(LaunchMode::QvmRun, &s, &a);
    assert_eq!(p.len(), 1);
    assert_eq!(p[0].program, "Qvm");
    assert_eq!(p[0].args, strings(&["--run", "x.q"]));
}

#[test]
fn log_file_names() {
    assert_eq!(
        log_file_name(&"120000".to_string(), LaunchMode::VMCheck, &"abc".to_string()),
        "120000_VMCheck_abc_log.log"
    );
    assert_eq!(LaunchMode::QvmRun.name(), "QvmRun");
}

#[test]
fn qvm_arguments() {
    let o = parse_qvm_args(&strings(&["qvm", "--Check", "--Run", "a.qb"])).ok().unwrap();
    assert!(o.check_mode);
    assert!(!o.verbose_mode);
    assert_eq!(o.filename, "a.qb");
    let o = parse_qvm_args(&strings(&["qvm", "--Run", "a.qb", "--Verbose", "--Run", "b.qb"])).ok().unwrap();
    assert!(o.verbose_mode);
    assert_eq!(o.filename, "b.qb");
    assert_eq!(parse_qvm_args(&strings(&["qvm", "--Run"])).err(), Some(QvmArgsError::Usage));
    assert_eq!(parse_qvm_args(&strings(&["qvm", "--Check", "--Run"])).err(), Some(QvmArgsError::RunNeedsFilename));
    assert_eq!(parse_qvm_args(&strings(&["qvm", "--Check", "--Verbose"])).err(), Some(QvmArgsError::MissingRun));
    assert_eq!(parse_qvm_args(&strings(&["qvm", "--Run", ""])).err(), Some(QvmArgsError::MissingRun));
}

#[test]
fn quern_script_argument() {
    assert_eq!(quern_script_arg(&strings(&["quern", "--Run", "s.q"])), Some("s.q".to_string()));
    assert_eq!(quern_script_arg(&strings(&["quern", "--run", "s.q"])), None);
    assert_eq!(quern_script_arg(&strings(&["quern", "--Run"])), None);
}

#[test]
fn exit_status_becomes_a_result() {
    assert_eq!(exit_result("Qvm", true, "ignored"), Ok(()));
    assert_eq!(exit_result("Quernc", false, "boom\n"), Err("Quernc exited with error: boom\n".to_string()));
    assert_eq!(start_failure("Qvm", "not found"), "Failed to execute Qvm: not found");
}
