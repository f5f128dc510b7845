//! Runtime configuration (the contents of `Config.yaml`).
use vstd::prelude::*;

verus! {

/// The whole configuration.
pub struct QuernConfig {
    pub security: SecurityConfig,
    pub logging: LoggingConfig,
    pub runtime: RuntimeConfig,
}

/// Sandbox and import restrictions.
pub struct SecurityConfig {
    pub enable_sandbox: bool,
    pub max_loop_iterations: u64,
    pub allowed_import_paths: Vec<String>,
}

/// Logger settings.
pub struct LoggingConfig {
    /// One of `INFO`, `WARN`, `ERROR`.
    pub level: String,
    pub output_trace_id: bool,
}

/// Interpreter settings.
pub struct RuntimeConfig {
    pub default_stack_size: usize,
    pub enable_jit: bool,
}

impl LoggingConfig {
    /// A copy of these settings.
    pub fn duplicate(&self) -> (r: LoggingConfig)
        ensures
            r.level@ == self.level@,
            r.output_trace_id == self.output_trace_id,
    {
        LoggingConfig { level: self.level.clone(), output_trace_id: self.output_trace_id }
    }
}

impl Default for QuernConfig {
    /// The configuration written to `Config.yaml` when none exists: sandbox on, a
    /// million loop iterations, imports from `./scripts`, `INFO` logging with trace ids,
    /// a stack of 1024 and no JIT.
    fn default() -> (r: Self)
        ensures
            r.security.enable_sandbox,
            r.security.max_loop_iterations == 1000000,
            r.security.allowed_import_paths@.len() == 1,
            r.security.allowed_import_paths@[0]@ == "./scripts"@,
            r.logging.level@ == "INFO"@,
            r.logging.output_trace_id,
            r.runtime.default_stack_size == 1024,
            !r.runtime.enable_jit,
    {
        let mut paths: Vec<String> = Vec::new();
        paths.push("./scripts".to_string());
        QuernConfig {
            security: SecurityConfig {
                enable_sandbox: true,
                max_loop_iterations: 1000000,
                allowed_import_paths: paths,
            },
            logging: LoggingConfig { level: "INFO".to_string(), output_trace_id: true },
            runtime: RuntimeConfig { default_stack_size: 1024, enable_jit: false },
        }
    }
}

} // verus!
