//! Command-line decisions of the Quern tools: which operation the launcher runs and
//! which programs it invokes with which arguments, and the arguments of `qvm` and
//! `quern` themselves.
use vstd::prelude::*;
use crate::text::{lit, copy_string, concat, concat_lit, string_is};

verus! {

broadcast use vstd::string::group_string_axioms;

/// The launcher's options.
pub struct LauncherArgs {
    /// `--run <script>`: compile and run with Quernc.
    pub run: Option<String>,
    /// `--vm-verbose <script>`: Quernc, then Qvm with `--verbose`.
    pub vm_verbose: Option<String>,
    /// `--vm-check <script>`: Quernc, then Qvm with `--check`.
    pub vm_check: Option<String>,
    /// `--qvm-run <script>`: Qvm only.
    pub qvm_run: Option<String>,
    /// `--logs`: also log to a file.
    pub logs: bool,
    /// `--no-print-trace`: do not print the trace id.
    pub no_print_trace: bool,
    pub aot_clang_o_size: bool,
    pub aot_clang_o_size_best: bool,
    pub aot_clang_o_debug: bool,
    pub aot_clang_ofast: bool,
    pub aot_not_o: bool,
    pub aot_c_verbose: bool,
    pub aot_force_warn: bool,
    pub aot_no_warn: bool,
}

/// What the launcher does.
#[derive(Clone, Copy, Debug, PartialEq, Eq, Structural)]
pub enum LaunchMode {
    Run,
    VMVerbose,
    VMCheck,
    QvmRun,
}

/// The name of a mode, as it appears in logs and log file names.
pub open spec fn mode_name(m: LaunchMode) -> Seq<char> {
    match m {
        LaunchMode::Run => "Run"@,
        LaunchMode::VMVerbose => "VMVerbose"@,
        LaunchMode::VMCheck => "VMCheck"@,
        LaunchMode::QvmRun => "QvmRun"@,
    }
}

impl LaunchMode {
    /// The name of the mode (see `mode_name`).
    pub fn name(&self) -> (r: String)
        ensures
            r@ == mode_name(*self),
    {
        match self {
            LaunchMode::Run => lit("Run"),
            LaunchMode::VMVerbose => lit("VMVerbose"),
            LaunchMode::VMCheck => lit("VMCheck"),
            LaunchMode::QvmRun => lit("QvmRun"),
        }
    }
}

/// One program to start, with its arguments.
pub struct Invocation {
    pub program: String,
    pub args: Vec<String>,
}

/// The operation chosen by the options: the first of `--run`, `--vm-verbose`,
/// `--vm-check`, `--qvm-run` that is given, with its script.
pub open spec fn selected(a: LauncherArgs) -> Option<(LaunchMode, Seq<char>)> {
    match a.run {
        Some(s) => Some((LaunchMode::Run, s@)),
        None => match a.vm_verbose {
            Some(s) => Some((LaunchMode::VMVerbose, s@)),
            None => match a.vm_check {
                Some(s) => Some((LaunchMode::VMCheck, s@)),
                None => match a.qvm_run {
                    Some(s) => Some((LaunchMode::QvmRun, s@)),
                    None => None,
                },
            },
        },
    }
}

/// The operation the options choose (see `selected`).
pub fn select_operation(args: &LauncherArgs) -> (r: Option<(LaunchMode, String)>)
    ensures
        match r {
            Some((m, t)) => selected(*args) == Some((m, t@)),
            None => selected(*args) is None,
        },
{
    if let Some(s) = &args.run {
        Some((LaunchMode::Run, copy_string(s)))
    } else if let Some(s) = &args.vm_verbose {
        Some((LaunchMode::VMVerbose, copy_string(s)))
    } else if let Some(s) = &args.vm_check {
        Some((LaunchMode::VMCheck, copy_string(s)))
    } else if let Some(s) = &args.qvm_run {
        Some((LaunchMode::QvmRun, copy_string(s)))
    } else {
        None
    }
}

/// `flag` when `on`, nothing otherwise.
pub open spec fn flag_if(on: bool, flag: Seq<char>) -> Seq<Seq<char>> {
    if on {
        seq![flag]
    } else {
        Seq::empty()
    }
}

/// The arguments of Quernc for `script`: `--run <script>`, then the AOT options that are
/// set, in a fixed order.
pub open spec fn quernc_args_spec(script: Seq<char>, a: LauncherArgs) -> Seq<Seq<char>> {
    seq!["--run"@, script] + flag_if(a.aot_clang_o_size, "--clang-o-size"@) + flag_if(
        a.aot_clang_o_size_best,
        "--clang-o-size-best"@,
    ) + flag_if(a.aot_clang_o_debug, "--clang-o-debug"@) + flag_if(a.aot_clang_ofast, "--clang-ofast"@)
        + flag_if(a.aot_not_o, "--not-o"@) + flag_if(a.aot_c_verbose, "--c-verbose"@) + flag_if(
        a.aot_force_warn,
        "--force-warn"@,
    ) + flag_if(a.aot_no_warn, "--no-warn"@)
}

/// The arguments of Qvm for `script` with `extra`: `--run`, the extra options, the script.
pub open spec fn qvm_args_spec(script: Seq<char>, extra: Seq<Seq<char>>) -> Seq<Seq<char>> {
    seq!["--run"@] + extra + seq![script]
}

/// The texts of a list of strings.
pub open spec fn texts(v: Seq<String>) -> Seq<Seq<char>> {
    v.map_values(|s: String| s@)
}

fn push_flag(v: &mut Vec<String>, on: bool, flag: &str)
    ensures
        texts(final(v)@) == texts(old(v)@) + flag_if(on, flag@),
{
    let ghost before = texts(v@);
    if on {
        v.push(lit(flag));
    }
    assert(texts(v@) =~= before + flag_if(on, flag@));
}

/// The Quernc invocation for `script` (see `quernc_args_spec`).
pub fn quernc_invocation(script: &String, args: &LauncherArgs) -> (r: Invocation)
    ensures
        r.program@ == "Quernc"@,
        texts(r.args@) == quernc_args_spec(script@, *args),
{
    let mut v: Vec<String> = Vec::new();
    v.push(lit("--run"));
    v.push(copy_string(script));
    assert(texts(v@) =~= seq!["--run"@, script@]);
    push_flag(&mut v, args.aot_clang_o_size, "--clang-o-size");
    push_flag(&mut v, args.aot_clang_o_size_best, "--clang-o-size-best");
    push_flag(&mut v, args.aot_clang_o_debug, "--clang-o-debug");
    push_flag(&mut v, args.aot_clang_ofast, "--clang-ofast");
    push_flag(&mut v, args.aot_not_o, "--not-o");
    push_flag(&mut v, args.aot_c_verbose, "--c-verbose");
    push_flag(&mut v, args.aot_force_warn, "--force-warn");
    push_flag(&mut v, args.aot_no_warn, "--no-warn");
    Invocation { program: lit("Quernc"), args: v }
}

/// The Qvm invocation for `script` with the option `extra`, if any (see `qvm_args_spec`).
pub fn qvm_invocation(script: &String, extra: Option<&str>) -> (r: Invocation)
    ensures
        r.program@ == "Qvm"@,
        texts(r.args@) == qvm_args_spec(
            script@,
            match extra {
                Some(e) => seq![e@],
                None => Seq::empty(),
            },
        ),
{
    let mut v: Vec<String> = Vec::new();
    v.push(lit("--run"));
    if let Some(e) = extra {
        v.push(lit(e));
    }
    v.push(copy_string(script));
    assert(texts(v@) =~= qvm_args_spec(
        script@,
        match extra {
            Some(e) => seq![e@],
            None => Seq::empty(),
        },
    ));
    Invocation { program: lit("Qvm"), args: v }
}

/// The programs a mode starts, in order: Quernc for `Run`; Quernc then Qvm with
/// `--verbose` or `--check` for `VMVerbose` and `VMCheck`; Qvm alone for `QvmRun`.
/// They run one after the other and the first failure stops the rest.
pub fn plan(mode: LaunchMode, script: &String, args: &LauncherArgs) -> (r: Vec<Invocation>)
    ensures
        mode == LaunchMode::Run ==> r@.len() == 1 && r@[0].program@ == "Quernc"@ && texts(r@[0].args@)
            == quernc_args_spec(script@, *args),
        mode == LaunchMode::VMVerbose ==> r@.len() == 2 && r@[0].program@ == "Quernc"@ && texts(
            r@[0].args@,
        ) == quernc_args_spec(script@, *args) && r@[1].program@ == "Qvm"@ && texts(r@[1].args@)
            == qvm_args_spec(script@, seq!["--verbose"@]),
        mode == LaunchMode::VMCheck ==> r@.len() == 2 && r@[0].program@ == "Quernc"@ && texts(
            r@[0].args@,
        ) == quernc_args_spec(script@, *args) && r@[1].program@ == "Qvm"@ && texts(r@[1].args@)
            == qvm_args_spec(script@, seq!["--check"@]),
        mode == LaunchMode::QvmRun ==> r@.len() == 1 && r@[0].program@ == "Qvm"@ && texts(r@[0].args@)
            == qvm_args_spec(script@, Seq::empty()),
{
    let mut v: Vec<Invocation> = Vec::new();
    match mode {
        LaunchMode::Run => {
            v.push(quernc_invocation(script, args));
        },
        LaunchMode::VMVerbose => {
            v.push(quernc_invocation(script, args));
            v.push(qvm_invocation(script, Some("--verbose")));
        },
        LaunchMode::VMCheck => {
            v.push(quernc_invocation(script, args));
            v.push(qvm_invocation(script, Some("--check")));
        },
        LaunchMode::QvmRun => {
            v.push(qvm_invocation(script, None));
        },
    }
    v
}

/// The name of the log file of a run: `<time>_<mode>_<trace id>_log.log`.
pub fn log_file_name(time: &String, mode: LaunchMode, trace_id: &String) -> (r: String)
    ensures
        r@ == time@ + "_"@ + mode_name(mode) + "_"@ + trace_id@ + "_log.log"@,
{
    let m = mode.name();
    let r = concat_lit(time, "_");
    let r = concat(&r, &m);
    let r = concat_lit(&r, "_");
    let r = concat(&r, trace_id);
    concat_lit(&r, "_log.log")
}

/// The options of `qvm`.
pub struct QvmOptions {
    /// `--Check`: only check the syntax.
    pub check_mode: bool,
    /// `--Verbose`: report syntax errors at length.
    pub verbose_mode: bool,
    /// The script given after `--Run`.
    pub filename: String,
}

/// Why `qvm`'s arguments were refused.
#[derive(Clone, Copy, Debug, PartialEq, Eq, Structural)]
pub enum QvmArgsError {
    /// Fewer than two arguments after the program name.
    Usage,
    /// `--Run` is the last argument.
    RunNeedsFilename,
    /// No `--Run`, or an empty file name.
    MissingRun,
}

/// The options that `args[from..]` sets, scanning left to right: `--Check`, `--Verbose`,
/// and `--Run <file>` (a later `--Run` replaces an earlier file); other arguments are
/// ignored. `Err` when `--Run` is last.
pub open spec fn scan_qvm_args(args: Seq<Seq<char>>, from: int, acc: (bool, bool, Option<Seq<char>>)) -> Result<
    (bool, bool, Option<Seq<char>>),
    QvmArgsError,
>
    decreases args.len() - from,
{
    if from >= args.len() || from < 0 {
        Ok(acc)
    } else {
        let a = args[from];
        if a == "--Check"@ {
            scan_qvm_args(args, from + 1, (true, acc.1, acc.2))
        } else if a == "--Verbose"@ {
            scan_qvm_args(args, from + 1, (acc.0, true, acc.2))
        } else if a == "--Run"@ {
            if from + 1 < args.len() {
                scan_qvm_args(args, from + 2, (acc.0, acc.1, Some(args[from + 1])))
            } else {
                Err(QvmArgsError::RunNeedsFilename)
            }
        } else {
            scan_qvm_args(args, from + 1, acc)
        }
    }
}

/// What `qvm` makes of its command line (`args[0]` is the program).
pub open spec fn qvm_args_result(args: Seq<Seq<char>>) -> Result<(bool, bool, Seq<char>), QvmArgsError> {
    if args.len() < 3 {
        Err(QvmArgsError::Usage)
    } else {
        match scan_qvm_args(args, 1, (false, false, None)) {
            Err(e) => Err(e),
            Ok((c, v, f)) => match f {
                Some(name) => if name.len() == 0 {
                    Err(QvmArgsError::MissingRun)
                } else {
                    Ok((c, v, name))
                },
                None => Err(QvmArgsError::MissingRun),
            },
        }
    }
}

/// Reads `qvm`'s command line (see `qvm_args_result`).
pub fn parse_qvm_args(args: &Vec<String>) -> (r: Result<QvmOptions, QvmArgsError>)
    ensures
        r matches Ok(o) ==> qvm_args_result(texts(args@)) == Ok::<(bool, bool, Seq<char>), QvmArgsError>(
            (o.check_mode, o.verbose_mode, o.filename@),
        ),
        r matches Err(e) ==> qvm_args_result(texts(args@)) == Err::<(bool, bool, Seq<char>), QvmArgsError>(e),
{
    let ghost ta = texts(args@);
    if args.len() < 3 {
        return Err(QvmArgsError::Usage);
    }
    let mut check_mode = false;
    let mut verbose_mode = false;
    let mut filename: Option<String> = None;
    let mut i: usize = 1;
    while i < args.len()
        invariant
            ta == texts(args@),
            args@.len() >= 3,
            1 <= i <= args@.len(),
            scan_qvm_args(ta, i as int, (check_mode, verbose_mode, match filename {
                Some(f) => Some(f@),
                None => None,
            })) == scan_qvm_args(ta, 1, (false, false, None)),
        decreases args@.len() - i,
    {
        assert(ta[i as int] == args@[i as int]@);
        if string_is(&args[i], "--Check") {
            check_mode = true;
        } else if string_is(&args[i], "--Verbose") {
            verbose_mode = true;
        } else if string_is(&args[i], "--Run") {
            if i + 1 < args.len() {
                assert(ta[i + 1] == args@[i + 1]@);
                filename = Some(copy_string(&args[i + 1]));
                i = i + 1;
            } else {
                assert(scan_qvm_args(ta, i as int, (check_mode, verbose_mode, match filename {
                    Some(f) => Some(f@),
                    None => None,
                })) == Err::<(bool, bool, Option<Seq<char>>), QvmArgsError>(QvmArgsError::RunNeedsFilename));
                return Err(QvmArgsError::RunNeedsFilename);
            }
        }
        i = i + 1;
    }
    match filename {
        Some(f) => {
            if f.as_str().is_empty() {
                Err(QvmArgsError::MissingRun)
            } else {
                Ok(QvmOptions { check_mode, verbose_mode, filename: f })
            }
        },
        None => Err(QvmArgsError::MissingRun),
    }
}

/// The script that `quern --Run <script>` names: `args[2]` when there are at least three
/// arguments and the second is `--Run`.
pub fn quern_script_arg(args: &Vec<String>) -> (r: Option<String>)
    ensures
        r matches Some(s) ==> args@.len() >= 3 && args@[1]@ == "--Run"@ && s@ == args@[2]@,
        r is None ==> args@.len() < 3 || args@[1]@ != "--Run"@,
{
    if args.len() < 3 || !string_is(&args[1], "--Run") {
        None
    } else {
        Some(copy_string(&args[2]))
    }
}

/// What a started program came to: `Ok` when it exited with success, else the message
/// `<program> exited with error: <what it wrote to standard error>`.
pub fn exit_result(program: &str, success: bool, stderr: &str) -> (r: Result<(), String>)
    ensures
        success ==> r is Ok,
        !success ==> (r matches Err(e) && e@ == program@ + " exited with error: "@ + stderr@),
{
    if success {
        Ok(())
    } else {
        let mut m = lit(program);
        m.append(" exited with error: ");
        m.append(stderr);
        Err(m)
    }
}

/// The message for a program that could not be started: `Failed to execute <program>:
/// <reason>`.
pub fn start_failure(program: &str, reason: &str) -> (r: String)
    ensures
        r@ == "Failed to execute "@ + program@ + ": "@ + reason@,
{
    let mut m = lit("Failed to execute ");
    m.append(program);
    m.append(": ");
    m.append(reason);
    m
}

/// A list joined to another holds what either holds.
proof fn lemma_contains_concat(x: Seq<Seq<char>>, y: Seq<Seq<char>>, t: Seq<char>)
    ensures
        (x + y).contains(t) <==> x.contains(t) || y.contains(t),
{
    if (x + y).contains(t) {
        let i = choose|i: int| 0 <= i < (x + y).len() && (x + y)[i] == t;
        if i < x.len() {
            assert(x[i] == t);
        } else {
            assert(y[i - x.len()] == t);
        }
    }
    if x.contains(t) {
        let i = choose|i: int| 0 <= i < x.len() && x[i] == t;
        assert((x + y)[i] == t);
    }
    if y.contains(t) {
        let i = choose|i: int| 0 <= i < y.len() && y[i] == t;
        assert((x + y)[x.len() + i] == t);
    }
}

/// An option's flag is in the list exactly when the option is set.
proof fn lemma_flag_if_contains(on: bool, f: Seq<char>, t: Seq<char>)
    ensures
        flag_if(on, f).contains(t) <==> on && f == t,
{
    if on {
        assert(flag_if(on, f)[0] == f);
    }
}

/// What Quernc's arguments hold: `--run`, the script, and the flag of each option set.
proof fn lemma_quernc_args_contain(script: Seq<char>, a: LauncherArgs, t: Seq<char>)
    ensures
        quernc_args_spec(script, a).contains(t) <==> {
            ||| t == "--run"@
            ||| t == script
            ||| a.aot_clang_o_size && t == "--clang-o-size"@
            ||| a.aot_clang_o_size_best && t == "--clang-o-size-best"@
            ||| a.aot_clang_o_debug && t == "--clang-o-debug"@
            ||| a.aot_clang_ofast && t == "--clang-ofast"@
            ||| a.aot_not_o && t == "--not-o"@
            ||| a.aot_c_verbose && t == "--c-verbose"@
            ||| a.aot_force_warn && t == "--force-warn"@
            ||| a.aot_no_warn && t == "--no-warn"@
        },
{
    let head = seq!["--run"@, script];
    let l1 = head + flag_if(a.aot_clang_o_size, "--clang-o-size"@);
    let l2 = l1 + flag_if(a.aot_clang_o_size_best, "--clang-o-size-best"@);
    let l3 = l2 + flag_if(a.aot_clang_o_debug, "--clang-o-debug"@);
    let l4 = l3 + flag_if(a.aot_clang_ofast, "--clang-ofast"@);
    let l5 = l4 + flag_if(a.aot_not_o, "--not-o"@);
    let l6 = l5 + flag_if(a.aot_c_verbose, "--c-verbose"@);
    let l7 = l6 + flag_if(a.aot_force_warn, "--force-warn"@);
    lemma_contains_concat(head, flag_if(a.aot_clang_o_size, "--clang-o-size"@), t);
    lemma_contains_concat(l1, flag_if(a.aot_clang_o_size_best, "--clang-o-size-best"@), t);
    lemma_contains_concat(l2, flag_if(a.aot_clang_o_debug, "--clang-o-debug"@), t);
    lemma_contains_concat(l3, flag_if(a.aot_clang_ofast, "--clang-ofast"@), t);
    lemma_contains_concat(l4, flag_if(a.aot_not_o, "--not-o"@), t);
    lemma_contains_concat(l5, flag_if(a.aot_c_verbose, "--c-verbose"@), t);
    lemma_contains_concat(l6, flag_if(a.aot_force_warn, "--force-warn"@), t);
    lemma_contains_concat(l7, flag_if(a.aot_no_warn, "--no-warn"@), t);
    lemma_flag_if_contains(a.aot_clang_o_size, "--clang-o-size"@, t);
    lemma_flag_if_contains(a.aot_clang_o_size_best, "--clang-o-size-best"@, t);
    lemma_flag_if_contains(a.aot_clang_o_debug, "--clang-o-debug"@, t);
    lemma_flag_if_contains(a.aot_clang_ofast, "--clang-ofast"@, t);
    lemma_flag_if_contains(a.aot_not_o, "--not-o"@, t);
    lemma_flag_if_contains(a.aot_c_verbose, "--c-verbose"@, t);
    lemma_flag_if_contains(a.aot_force_warn, "--force-warn"@, t);
    lemma_flag_if_contains(a.aot_no_warn, "--no-warn"@, t);
    if head.contains(t) {
        let i = choose|i: int| 0 <= i < head.len() && head[i] == t;
        assert(i == 0 || i == 1);
    }
    if t == "--run"@ {
        assert(head[0] == t);
    }
    if t == script {
        assert(head[1] == t);
    }
}

/// Quernc is asked to `--run` the script, and every AOT option of the launcher goes on
/// to it: each option's flag is among Quernc's arguments exactly when that option is set
/// (or the script itself has that name).
pub proof fn law_aot_options_reach_quernc(script: Seq<char>, a: LauncherArgs)
    ensures
        quernc_args_spec(script, a)[0] == "--run"@,
        quernc_args_spec(script, a)[1] == script,
        quernc_args_spec(script, a).contains("--clang-o-size"@) <==> a.aot_clang_o_size || script == "--clang-o-size"@,
        quernc_args_spec(script, a).contains("--clang-o-size-best"@) <==> a.aot_clang_o_size_best || script
            == "--clang-o-size-best"@,
        quernc_args_spec(script, a).contains("--clang-o-debug"@) <==> a.aot_clang_o_debug || script
            == "--clang-o-debug"@,
        quernc_args_spec(script, a).contains("--clang-ofast"@) <==> a.aot_clang_ofast || script == "--clang-ofast"@,
        quernc_args_spec(script, a).contains("--not-o"@) <==> a.aot_not_o || script == "--not-o"@,
        quernc_args_spec(script, a).contains("--c-verbose"@) <==> a.aot_c_verbose || script == "--c-verbose"@,
        quernc_args_spec(script, a).contains("--force-warn"@) <==> a.aot_force_warn || script == "--force-warn"@,
        quernc_args_spec(script, a).contains("--no-warn"@) <==> a.aot_no_warn || script == "--no-warn"@,
{
    reveal_strlit("--run");
    reveal_strlit("--clang-o-size");
    reveal_strlit("--clang-o-size-best");
    reveal_strlit("--clang-o-debug");
    reveal_strlit("--clang-ofast");
    reveal_strlit("--not-o");
    reveal_strlit("--c-verbose");
    reveal_strlit("--force-warn");
    reveal_strlit("--no-warn");
    assert("--run"@.len() == 5);
    assert("--clang-o-size"@.len() == 14);
    assert("--clang-o-size-best"@.len() == 19);
    assert("--clang-o-debug"@.len() == 15);
    assert("--clang-ofast"@.len() == 13);
    assert("--not-o"@.len() == 7);
    assert("--c-verbose"@.len() == 11);
    assert("--force-warn"@.len() == 12);
    assert("--no-warn"@.len() == 9);
    lemma_quernc_args_contain(script, a, "--clang-o-size"@);
    lemma_quernc_args_contain(script, a, "--clang-o-size-best"@);
    lemma_quernc_args_contain(script, a, "--clang-o-debug"@);
    lemma_quernc_args_contain(script, a, "--clang-ofast"@);
    lemma_quernc_args_contain(script, a, "--not-o"@);
    lemma_quernc_args_contain(script, a, "--c-verbose"@);
    lemma_quernc_args_contain(script, a, "--force-warn"@);
    lemma_quernc_args_contain(script, a, "--no-warn"@);
}

} // verus!
