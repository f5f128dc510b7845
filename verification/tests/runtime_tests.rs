use std::sync::Arc;

use quern::config::QuernConfig;
use quern::logging::Logger;
use quern::runtime::context::ExecutionContext;
use quern::runtime::grammar::import_target;
use quern::runtime::imports::{check_import_path, import_plan, imported_text, join_lines, ImportLine};
use quern::runtime::interpreter::{extract_main_function, Interpreter, Status};
use quern::runtime::literal::{float_text, parse_i64, parse_literal};
use quern::runtime::statement::{LineOutcome, Output};
use quern::runtime::value::{AccessLevel, Failure, QuernValue};
use quern::table::Table;

fn chars(s: &str) -> Vec<char> {
    s.chars().collect()
}

fn context(sandbox: bool) -> ExecutionContext {
    let mut config = QuernConfig::default();
    config.security.enable_sandbox = sandbox;
    let logger = Arc::new(Logger::new(config.logging.duplicate()));
    ExecutionContext::new(logger, Arc::new(config))
}

/// Runs a script to its end: the lines it printed to standard output and standard error,
/// and how it ended.
fn run(src: &str) -> (Vec<String>, Vec<String>, Result<(), String>) {
    let mut interp = Interpreter::new(Arc::new(QuernConfig::default()));
    let mut out = Vec::new();
    let mut err = Vec::new();
    if let Err(f) = interp.start(src) {
        return match f {
            Failure::Error(e) => (out, err, Err(e)),
            Failure::Fault(e) => panic!("{}", e),
        };
    }
    for _ in 0..10000 {
        let step = interp.step();
        match step.output {
            Some(Output::Info(l)) => out.push(l),
            Some(Output::Warn(l)) => err.push(l),
            Some(Output::InfoNumber(t)) => {
                let n: f64 = t.parse().unwrap();
                out.push(interp.ctx().logger.info(&format!("{}", n), &interp.ctx().trace));
            }
            None => {}
        }
        match step.status {
            Status::Running => {}
            Status::Finished => return (out, err, Ok(())),
            Status::Failed(e) => return (out, err, Err(e)),
            Status::Fault(e) => panic!("{}", e),
        }
    }
    panic!("script did not finish");
}

fn message(line: &str) -> &str {
    let end = line.rfind("\x1b[0m").unwrap();
    let t = line.find("[Trace: ").unwrap();
    let start = t + line[t..].find("] ").unwrap() + 2;
    &line[start..end]
}

#[test]
fn integers_parse_as_i64_does() {
    assert_eq!(parse_i64(&chars("42")), Some(42));
    assert_eq!(parse_i64(&chars("-42")), Some(-42));
    assert_eq!(parse_i64(&chars("+7")), Some(7));
    assert_eq!(parse_i64(&chars("9223372036854775807")), Some(i64::MAX));
    assert_eq!(parse_i64(&chars("-9223372036854775808")), Some(i64::MIN));
    assert_eq!(parse_i64(&chars("9223372036854775808")), None);
    assert_eq!(parse_i64(&chars("-")), None);
    assert_eq!(parse_i64(&chars("")), None);
    assert_eq!(parse_i64(&chars("1_000")), None);
    assert_eq!(parse_i64(&chars(" 1")), None);
}

#[test]
fn float_literals_follow_f64_from_str() {
    for t in ["1.5", ".5", "5.", "1e10", "-2.5E-3", "inf", "-Infinity", "NaN", "+3"] {
        assert!(float_text(&chars(t)), "{}", t);
        assert!(t.parse::<f64>().is_ok());
    }
    for t in [".", "e5", "1e", "1.2.3", "abc", "", "1 ", "--1"] {
        assert!(!float_text(&chars(t)), "{}", t);
        assert!(t.parse::<f64>().is_err());
    }
}

#[test]
fn literals_read_their_values() {
    let ctx = context(true);
    assert!(matches!(parse_literal(&ctx, &chars(" true ")), Ok(QuernValue::Bool(true))));
    assert!(matches!(parse_literal(&ctx, &chars("false")), Ok(QuernValue::Bool(false))));
    assert!(matches!(parse_literal(&ctx, &chars("null")), Ok(QuernValue::Null)));
    assert!(matches!(parse_literal(&ctx, &chars("\"hi there\"")), Ok(QuernValue::Str(s)) if s == "hi there"));
    assert!(matches!(parse_literal(&ctx, &chars("-12")), Ok(QuernValue::Int(-12))));
    assert!(matches!(parse_literal(&ctx, &chars("2.5")), Ok(QuernValue::Float(t)) if t == "2.5"));
    assert!(matches!(parse_literal(&ctx, &chars("nope")), Err(Failure::Error(e)) if e == "Cannot parse literal: nope"));
    assert!(matches!(parse_literal(&ctx, &chars("\"")), Err(Failure::Fault(_))));
}

#[test]
fn literal_reads_a_public_variable() {
    let mut ctx = context(true);
    ctx.define_var("x", QuernValue::Int(5), AccessLevel::Public).unwrap();
    assert!(matches!(parse_literal(&ctx, &chars("x")), Ok(QuernValue::Int(5))));
    ctx.define_var("y", QuernValue::Int(6), AccessLevel::Default).unwrap();
    assert!(matches!(parse_literal(&ctx, &chars("y")), Err(Failure::Error(e)) if e == "Cannot parse literal: y"));
}

#[test]
fn variables_read_back_by_access() {
    let mut ctx = context(true);
    ctx.define_var("pub", QuernValue::Str("a".to_string()), AccessLevel::Public).unwrap();
    ctx.define_var("priv", QuernValue::Int(1), AccessLevel::Private).unwrap();
    ctx.define_var("loc", QuernValue::Int(2), AccessLevel::Default).unwrap();
    assert!(matches!(ctx.get_var("pub", "Anywhere"), Ok(QuernValue::Str(s)) if s == "a"));
    assert_eq!(
        ctx.get_var("priv", "Main").err().unwrap(),
        "Private variable 'priv' access denied in function 'Main'"
    );
    assert_eq!(ctx.get_var("loc", "Main").err().unwrap(), "Variable 'loc' is local to another scope");
    assert_eq!(ctx.get_var("none", "Main").err().unwrap(), "Variable 'none' not found");
    ctx.call_stack.push("Main".to_string());
    assert!(matches!(ctx.get_var("priv", "Main"), Ok(QuernValue::Int(1))));
    assert!(matches!(ctx.get_var("loc", "Main"), Ok(QuernValue::Int(2))));
    assert!(ctx.get_var("loc", "Other").is_err());
}

#[test]
fn system_variables_are_refused_without_sandbox() {
    let mut ctx = context(false);
    assert_eq!(
        ctx.define_var("__sys", QuernValue::Null, AccessLevel::Public).err().unwrap(),
        "Access to system variables denied"
    );
    assert!(ctx.get_var("__sys", "Main").is_err());
    assert!(ctx.define_var("_one", QuernValue::Null, AccessLevel::Public).is_ok());
    let mut ctx = context(true);
    assert!(ctx.define_var("__sys", QuernValue::Null, AccessLevel::Public).is_ok());
}

#[test]
fn redefining_a_variable_replaces_it() {
    let mut ctx = context(true);
    ctx.define_var("v", QuernValue::Int(1), AccessLevel::Public).unwrap();
    ctx.define_var("v", QuernValue::Int(2), AccessLevel::Public).unwrap();
    assert!(matches!(ctx.get_var("v", "Main"), Ok(QuernValue::Int(2))));
}

#[test]
fn lists_and_dicts_are_defined() {
    let mut ctx = context(true);
    ctx.define_list("l", vec![QuernValue::Int(1), QuernValue::Bool(true)]);
    let mut d = Table::new();
    d.insert("k".to_string(), QuernValue::Str("v".to_string()));
    ctx.define_dict("d", d);
    assert!(ctx.lists.contains(&"l".to_string()));
    assert!(ctx.dicts.contains(&"d".to_string()));
    let i = ctx.lists.find(&"l".to_string()).unwrap();
    assert_eq!(ctx.lists.value(i).len(), 2);
}

#[test]
fn missing_template_is_an_error() {
    let mut ctx = context(true);
    assert_eq!(ctx.apply_template("Nope").err().unwrap(), "Class template 'Nope' not found");
}

#[test]
fn import_lines_name_their_file() {
    assert_eq!(import_target("Import \"lib.q\""), Some("lib.q".to_string()));
    assert_eq!(import_target("  Import   \"a b.q\" rest"), Some("a b.q".to_string()));
    assert_eq!(import_target("Import lib.q"), None);
    assert_eq!(import_target("Import \"\""), None);
    assert_eq!(import_target("Console.Info(\"x\")"), None);
}

#[test]
fn main_function_is_extracted() {
    let src = "Function \"Main\" (a, b ,) {\n  Console.Info(\"hi\")\n\n  Data.Var Int x = 1\n}";
    let f = extract_main_function(&chars(src)).unwrap();
    assert_eq!(f.name, "Main");
    assert_eq!(f.params, vec!["a".to_string(), "b".to_string()]);
    assert_eq!(f.body, vec!["Console.Info(\"hi\")".to_string(), "Data.Var Int x = 1".to_string()]);
    assert_eq!(extract_main_function(&chars("Function \"Other\" () {}")).err().unwrap(), "No Main function found");
}

#[test]
fn console_info_prints_text_and_values() {
    let src = "Function \"Main\" () {\nConsole.Info(\"Hello World!\")\nData.Var Public n = 42\nConsole.Info(n)\nData.Var Public f = 2.50\nConsole.Info(f)\nData.Var Public b = true\nConsole.Info(b)\n}";
    let (out, err, r) = run(src);
    assert!(r.is_ok());
    assert!(err.is_empty());
    let msgs: Vec<&str> = out.iter().map(|l| message(l)).collect();
    assert_eq!(msgs, vec!["Hello World!", "42", "2.5", "true"]);
    assert!(out[0].starts_with("\x1b[34m["));
    assert!(out[0].contains("] [INFO] [Trace: "));
}

#[test]
fn three_words_before_the_equals_sign_are_not_a_definition() {
    let src = "Function \"Main\" () {\nData.Var Public Int n = 42\n}";
    let (_, _, r) = run(src);
    assert_eq!(r.err().unwrap(), "Panic in Main at line 1: Invalid Var definition: Data.Var Public Int n = 42");
}

#[test]
fn private_variables_are_not_printed_from_main() {
    let src = "Function \"Main\" () {\nData.Var Private p = 1\nConsole.Info(p)\n}";
    let (out, _, r) = run(src);
    assert!(r.is_ok());
    assert_eq!(message(&out[0]), "p");
}

#[test]
fn functions_are_called_and_return() {
    let src = "Function \"Greet\" () {\nConsole.Info(\"in greet\")\n}\nFunction \"Main\" () {\nConsole.Info(\"before\")\nGreet\nConsole.Info(\"after\")\n}";
    let (out, _, r) = run(src);
    assert!(r.is_ok());
    let msgs: Vec<&str> = out.iter().map(|l| message(l)).collect();
    assert_eq!(msgs, vec!["before", "in greet", "after"]);
}

#[test]
fn unknown_statement_fails_the_run() {
    let src = "Function \"Main\" () {\nConsole.Info(\"one\")\nFrobnicate\n}";
    let (out, _, r) = run(src);
    assert_eq!(out.len(), 1);
    assert_eq!(r.err().unwrap(), "Panic in Main at line 2: Unknown or unsupported statement: Frobnicate");
}

#[test]
fn errors_are_caught_by_a_later_catch() {
    let src = "Function \"Main\" () {\nFrobnicate\nConsole.Info(\"skipped\")\nCatch\nConsole.Info(\"recovered\")\n}";
    let (out, err, r) = run(src);
    assert!(r.is_ok());
    let msgs: Vec<&str> = out.iter().map(|l| message(l)).collect();
    assert_eq!(msgs, vec!["recovered"]);
    assert_eq!(err.len(), 1);
    assert!(err[0].contains("[WARN]"));
    assert!(err[0].contains("Caught error in Main: Unknown or unsupported statement: Frobnicate"));
}

#[test]
fn errors_in_a_function_reach_the_caller() {
    let src = "Function \"Inner\" () {\nData.Var x\n}\nFunction \"Main\" () {\nConsole.Info(\"a\")\nInner\n}";
    let (_, _, r) = run(src);
    assert_eq!(
        r.err().unwrap(),
        "Panic in Main at line 2: Panic in Inner at line 1: Invalid Var definition: Data.Var x"
    );
}

#[test]
fn simulated_statements_warn() {
    let src = "Function \"Main\" () {\nLoop (3)\nIf (a)\nEntrust x\n}";
    let (out, err, r) = run(src);
    assert!(r.is_ok());
    assert!(out.is_empty());
    assert_eq!(err.len(), 3);
    assert!(err[0].contains("Loop structure requires AST block support (Simulated)"));
    assert!(err[1].contains("If structure requires AST block support (Simulated)"));
    assert!(err[2].contains("Entrust structure requires AST block support (Simulated)"));
}

#[test]
fn templates_define_class_variables() {
    let src = "Class \"Point\" {\nData.Var Int x = 3\nData.Var Str label = \"p\"\n}\nFunction \"Main\" () {\nTemplate \"Point\"\n}";
    let mut interp = Interpreter::new(Arc::new(QuernConfig::default()));
    interp.start(src).ok().unwrap();
    assert!(interp.ctx().classes.contains(&"Point".to_string()));
    loop {
        let step = interp.step();
        if !matches!(step.status, Status::Running) {
            assert!(matches!(step.status, Status::Finished));
            break;
        }
    }
    assert!(interp.ctx().variables.contains(&"x".to_string()));
    assert!(interp.ctx().variables.contains(&"label".to_string()));
}

#[test]
fn missing_main_is_reported() {
    let (_, _, r) = run("Function \"Helper\" () {\n}");
    assert_eq!(r.err().unwrap(), "No Main function found");
}

#[test]
fn lists_dicts_and_aliases_from_script_lines() {
    let mut ctx = context(true);
    let r = ctx.execute_line(&chars("DataStruct.List \"nums\" = [1, 2, \"three\"]"));
    assert!(matches!(r, LineOutcome::Done(None)));
    let i = ctx.lists.find(&"nums".to_string()).unwrap();
    assert_eq!(ctx.lists.value(i).len(), 3);
    let r = ctx.execute_line(&chars("DataStruct.Dict \"d\" = [a = 1, b = true, junk]"));
    assert!(matches!(r, LineOutcome::Done(None)));
    let j = ctx.dicts.find(&"d".to_string()).unwrap();
    assert_eq!(ctx.dicts.value(j).len(), 2);
    let r = ctx.execute_line(&chars("Alias \"short\" = \"long.name\""));
    assert!(matches!(r, LineOutcome::Done(None)));
    let k = ctx.aliases.find(&"short".to_string()).unwrap();
    assert_eq!(ctx.aliases.value(k), "long.name");
    let r = ctx.execute_line(&chars("DataStruct.List nums = [1]"));
    assert!(matches!(r, LineOutcome::Error(e) if e == "Invalid List definition: DataStruct.List nums = [1]"));
}

#[test]
fn console_info_needs_parentheses() {
    let ctx = &mut context(true);
    assert!(matches!(ctx.execute_line(&chars("Console.Info x")), LineOutcome::Error(e) if e == "Missing ("));
    assert!(matches!(ctx.execute_line(&chars("Console.Info(x")), LineOutcome::Error(e) if e == "Missing )"));
    assert!(matches!(ctx.execute_line(&chars("Console.Info)x(")), LineOutcome::Fault(_)));
}

#[test]
fn values_are_shown_as_display_writes_them() {
    assert_eq!(QuernValue::Null.display().unwrap(), "null");
    assert_eq!(QuernValue::Int(-9223372036854775808).display().unwrap(), "-9223372036854775808");
    assert_eq!(QuernValue::Bool(false).display().unwrap(), "false");
    assert_eq!(QuernValue::List(vec![]).display().unwrap(), "[List]");
    assert_eq!(QuernValue::Dict(vec![]).display().unwrap(), "[Dict]");
    assert_eq!(QuernValue::Function("f".to_string()).display().unwrap(), "<Fn: f>");
    assert!(QuernValue::Float("1.0".to_string()).display().is_none());
}

#[test]
fn unicode_word_names_are_variable_names() {
    let mut ctx = context(true);
    let r = ctx.execute_line(&chars("Data.Var Public café = 1"));
    assert!(matches!(r, LineOutcome::Done(None)));
    assert!(matches!(ctx.get_var("café", "Main"), Ok(QuernValue::Int(1))));
    let r = ctx.execute_line(&chars("Data.Var Public a-b = 1"));
    assert!(matches!(r, LineOutcome::Error(e) if e == "Invalid Var definition: Data.Var Public a-b = 1"));
}

#[test]
fn shown_integers_read_back() {
    for v in [0i64, 7, -7, 1234567890, i64::MAX, i64::MIN] {
        let text = QuernValue::Int(v).display().unwrap();
        assert_eq!(text, v.to_string());
        assert_eq!(parse_i64(&chars(&text)), Some(v));
    }
}

#[test]
fn a_finished_run_stays_finished() {
    let mut interp = Interpreter::new(Arc::new(QuernConfig::default()));
    interp.start("Function \"Main\" () {\n}").ok().unwrap();
    let first = interp.step();
    assert!(matches!(first.status, Status::Finished));
    for _ in 0..3 {
        let s = interp.step();
        assert!(s.output.is_none());
        assert!(matches!(s.status, Status::Finished));
    }
}

#[test]
fn import_lines_are_planned_and_joined() {
    let plan = import_plan("Main()\r\n  Import \"lib.q\"\nx = 1\n");
    assert_eq!(plan.len(), 3);
    match &plan[0] {
        ImportLine::Text(t) => assert_eq!(t, "Main()"),
        ImportLine::Import(_) => panic!("expected text"),
    }
    match &plan[1] {
        ImportLine::Import(f) => assert_eq!(f, "lib.q"),
        ImportLine::Text(_) => panic!("expected an import"),
    }
    match &plan[2] {
        ImportLine::Text(t) => assert_eq!(t, "x = 1"),
        ImportLine::Import(_) => panic!("expected text"),
    }
    assert!(import_plan("").is_empty());
    let parts = vec!["a".to_string(), "b\nc".to_string(), String::new()];
    assert_eq!(join_lines(&parts), "a\nb\nc\n\n");
    assert_eq!(join_lines(&Vec::new()), "");
}

#[test]
fn import_answers_follow_the_path_check_and_the_read() {
    assert_eq!(check_import_path(true), Ok(()));
    assert_eq!(check_import_path(false), Err("Directory traversal attempt detected in Import".to_string()));
    assert_eq!(imported_text(Ok("Main()".to_string())), Ok("Main()".to_string()));
    assert_eq!(
        imported_text(Err("No such file or directory (os error 2)".to_string())),
        Err("Import failed: No such file or directory (os error 2)".to_string())
    );
}
