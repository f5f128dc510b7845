use quern::qvm::error::SyntaxError;
use quern::qvm::interpolate::compare;
use quern::qvm::parser::Parser;
use quern::qvm::syntax::{ArithmeticOp, ComparisonOp, Dialect, Instruction};
use quern::qvm::vm::{Effect, Request, VM};

fn numeric(left: &str, right: &str, op: ComparisonOp) -> Option<bool> {
    match (left.parse::<f64>(), right.parse::<f64>()) {
        (Ok(ln), Ok(rn)) => Some(match op {
            ComparisonOp::Equal => (ln - rn).abs() < f64::EPSILON,
            ComparisonOp::NotEqual => (ln - rn).abs() >= f64::EPSILON,
            ComparisonOp::LessThan => ln < rn,
            ComparisonOp::GreaterThan => ln > rn,
            ComparisonOp::LessEqual => ln <= rn,
            ComparisonOp::GreaterEqual => ln >= rn,
        }),
        _ => None,
    }
}

fn arith(left: &str, right: &str, op: ArithmeticOp, err: &mut Vec<String>) -> Option<String> {
    match (left.parse::<f64>(), right.parse::<f64>()) {
        (Ok(l), Ok(r)) => {
            let result = match op {
                ArithmeticOp::Add => l + r,
                ArithmeticOp::Subtract => l - r,
                ArithmeticOp::Multiply => l * r,
                ArithmeticOp::Divide => {
                    if r == 0.0 {
                        err.push("Runtime Error: Division by zero".to_string());
                        0.0
                    } else {
                        l / r
                    }
                }
            };
            Some(if result.fract() == 0.0 && result.abs() < f64::MAX.exp() {
                format!("{}", result as i64)
            } else {
                format!("{}", result)
            })
        }
        _ => None,
    }
}

fn collect(effects: Vec<Effect>, out: &mut String, err: &mut Vec<String>) {
    for e in effects {
        match e {
            Effect::Stdout(s) => out.push_str(&s),
            Effect::Stderr(s) => err.push(s),
        }
    }
}

fn run(src: &str, d: Dialect) -> (String, Vec<String>) {
    let program = match Parser::new(src, d).parse() {
        Ok(p) => p,
        Err(e) => panic!("{}", e.format_normal("test")),
    };
    let mut vm = VM::new(d);
    vm.execute(program);
    let mut out = String::new();
    let mut err = Vec::new();
    for _ in 0..100000 {
        let o = vm.step();
        collect(o.effects, &mut out, &mut err);
        match o.request {
            Request::Continue => {}
            Request::Finished => return (out, err),
            Request::Compare { left, right, op } => {
                let n = numeric(&left, &right, op);
                collect(vm.resume_compare(n), &mut out, &mut err);
            }
            Request::Arithmetic { left, right, operator } => {
                let r = arith(&left, &right, operator, &mut err);
                collect(vm.resume_arithmetic(r), &mut out, &mut err);
            }
        }
    }
    panic!("program did not finish");
}

fn parse_err(src: &str, d: Dialect) -> SyntaxError {
    match Parser::new(src, d).parse() {
        Ok(_) => panic!("expected a syntax error"),
        Err(e) => e,
    }
}

#[test]
fn tokenizer_keeps_quoted_spaces_and_drops_quotes() {
    let p = Parser::new("crt a\npsh a \"hello world\"\r\n", Dialect::V4);
    assert_eq!(p.tokens(), &vec!["crt", "a", "psh", "a", "hello world"]);
    assert_eq!(p.line_map(), &vec![1, 1, 2, 2, 2]);
    assert_eq!(p.source_lines(), &vec!["crt a", "psh a \"hello world\""]);
}

#[test]
fn tokenizer_splits_braces_only_in_v5() {
    let v5 = Parser::new("fnc f{out x}", Dialect::V5);
    assert_eq!(v5.tokens(), &vec!["fnc", "f", "{", "out", "x", "}"]);
    let v4 = Parser::new("fnc f{out x}", Dialect::V4);
    assert_eq!(v4.tokens(), &vec!["fnc", "f{out", "x}"]);
}

#[test]
fn push_and_out_variable() {
    let (out, err) = run("crt a\npsh a 5\nout @a@\notn", Dialect::V4);
    assert_eq!(out, "5 \n");
    assert!(err.is_empty());
}

#[test]
fn out_of_a_named_stack_and_of_plain_text() {
    let (out, _) = run("crt s\nout s\npsh s top\nout s\nout hello", Dialect::V4);
    assert_eq!(out, "(empty) top hello ");
}

#[test]
fn v4_interpolation_replaces_references() {
    let (out, _) = run("crt n\npsh n 7\nout \"value=@n@!\"\nout \"@missing@\"", Dialect::V4);
    assert_eq!(out, "value=7! (undefined) ");
}

#[test]
fn v5_resolve_string_replaces_all_occurrences() {
    let (out, _) = run("crt n\npsh n 7\nout \"x@n@+@n@\"\nout \"@none@x\"", Dialect::V5);
    assert_eq!(out, "x7+7 x ");
}

#[test]
fn missing_stack_and_function_are_reported() {
    let (_, err) = run("psh nowhere 1\npop nowhere\ncal f\npsh x @y@", Dialect::V4);
    assert_eq!(
        err,
        vec![
            "Runtime Error: Stack 'nowhere' not found",
            "Runtime Error: Stack 'nowhere' not found",
            "Runtime Error: Function 'f' not defined",
            "Warning: Variable 'y' not found, pushing empty string.",
            "Runtime Error: Stack 'x' not found",
        ]
    );
}

#[test]
fn functions_and_jumps_v4() {
    let src = "crt c\npsh c 3\nfnc big {\nout yes\n}\njmp @c@ 2 > cal big\njmp @c@ 10 > cal big\nout end";
    let (out, err) = run(src, Dialect::V4);
    assert_eq!(out, "yes end ");
    assert!(err.is_empty());
}

#[test]
fn taken_jump_ends_the_block_in_v5() {
    let src = "crt c\npsh c 3\nfnc f {\nout inner\n}\njmp @c@ 3 = cal f\nout after";
    let (out, _) = run(src, Dialect::V5);
    assert_eq!(out, "inner ");
    let (out4, _) = run("crt c\npsh c 3\nfnc f {\nout inner\n}\njmp @c@ 3 = cal f\nout after", Dialect::V4);
    assert_eq!(out4, "inner after ");
}

#[test]
fn text_comparison_when_not_numbers() {
    let (out, _) = run("fnc yes {\nout y\n}\njmp apple banana < cal yes\njmp b a < cal yes", Dialect::V5);
    assert_eq!(out, "y ");
}

#[test]
fn arithmetic_push_in_v5() {
    let src = "crt n\npsh n 1\npsh @n@ + 5\npsh n * 2\nout @n@\npsh n / 0\nout @n@";
    let (out, err) = run(src, Dialect::V5);
    assert_eq!(out, "12 0 ");
    assert_eq!(err, vec!["Runtime Error: Division by zero"]);
}

#[test]
fn arithmetic_on_text_is_refused() {
    let (out, err) = run("crt n\npsh n abc\npsh n + 1\nout n", Dialect::V5);
    assert_eq!(out, "(empty) ");
    assert_eq!(err, vec!["Runtime Error: Cannot perform arithmetic on non-numeric values"]);
}

#[test]
fn parse_builds_instructions() {
    let p = Parser::new("psh s @v@\njmp @a@ b >= cal f", Dialect::V5).parse().ok().unwrap();
    match &p.instructions[0] {
        Instruction::Push(s, (v, is_var)) => {
            assert_eq!(s, "s");
            assert_eq!(v, "v");
            assert!(*is_var);
        }
        _ => panic!("expected a push"),
    }
    match &p.instructions[1] {
        Instruction::ConditionalJump { left_stack, right_stack, op, target_func } => {
            assert_eq!(left_stack, &("a".to_string(), true));
            assert_eq!(right_stack, &("b".to_string(), false));
            assert_eq!(*op, ComparisonOp::GreaterEqual);
            assert_eq!(target_func, "f");
        }
        _ => panic!("expected a jump"),
    }
}

#[test]
fn unknown_command_error() {
    let e = parse_err("crt a\nfoo bar", Dialect::V4);
    assert_eq!(e.error_name, "UnknownCommand");
    assert_eq!(e.error_code, 1000);
    assert_eq!(e.line_number, 2);
    assert_eq!(e.source_line, "foo bar");
    assert_eq!(e.token_content, "foo");
    assert_eq!(
        e.format_normal("prog.qb"),
        "[Error!]In prog.qb Detected UnknownCommand,Code 1000 at line 2.Source:foo bar<-[HERE!]foo"
    );
}

#[test]
fn unexpected_end_is_reported_at_eof() {
    let e = parse_err("crt", Dialect::V4);
    assert_eq!(e.error_name, "UnexpectedEnd");
    assert_eq!(e.error_code, 1002);
    assert_eq!(e.line_number, 1);
    assert_eq!(e.source_line, "EOF");
}

#[test]
fn errors_inside_a_function_body_are_block_errors() {
    let e = parse_err("fnc f {\nbogus\n}", Dialect::V5);
    assert_eq!(e.error_name, "BlockParseError");
    assert_eq!(e.error_code, 1005);
    assert_eq!(e.token_content, "fnc");
    assert_eq!(e.line_number, 2);
    let e = parse_err("fnc f {\nout x", Dialect::V5);
    assert_eq!(e.error_code, 1005);
    assert_eq!(e.source_line, "EOF");
}

#[test]
fn missing_brace_invalid_operator_and_missing_cal() {
    assert_eq!(parse_err("fnc f out", Dialect::V4).error_code, 1004);
    let e = parse_err("jmp a b ~ cal f", Dialect::V4);
    assert_eq!((e.error_name.as_str(), e.error_code, e.token_content.as_str()), ("InvalidOperator", 1006, "~"));
    let e = parse_err("jmp a b = go f", Dialect::V4);
    assert_eq!((e.error_name.as_str(), e.error_code), ("MissingCalKeyword", 1007));
}

#[test]
fn nested_functions_are_registered() {
    let p = Parser::new("fnc outer {\nfnc inner {\nout i\n}\ncal inner\n}\ncal outer", Dialect::V5)
        .parse()
        .ok()
        .unwrap();
    assert_eq!(p.functions.len(), 2);
    let (out, _) = run("fnc outer {\nfnc inner {\nout i\n}\ncal inner\n}\ncal outer", Dialect::V5);
    assert_eq!(out, "i ");
}

#[test]
fn verbose_report_points_at_the_token() {
    let e = SyntaxError {
        error_name: "UnknownCommand".to_string(),
        error_code: 1000,
        line_number: 3,
        source_line: "  foo bar".to_string(),
        token_content: "bar".to_string(),
    };
    assert_eq!(e.find_token_position_in_line(), 6);
    assert_eq!(
        e.format_verbose("x.qb"),
        "[Error!]In x.qb Detected UnknownCommand, Code 1000\nAt 3, Source:\n~~~~~~~~~~~~~\nfoo bar\n         ^"
    );
    assert_eq!(
        e.describe(),
        "SyntaxError [UnknownCommand]: code=1000, line=3, token='bar', source='  foo bar'"
    );
}

#[test]
fn pop_undoes_push() {
    let (out, err) = run("crt s\npsh s a\npsh s b\npop s\nout s", Dialect::V4);
    assert_eq!(out, "a ");
    assert!(err.is_empty());
}

#[test]
fn creating_an_existing_stack_keeps_it() {
    let (out, _) = run("crt s\npsh s x\ncrt s\nout s", Dialect::V5);
    assert_eq!(out, "x ");
}

#[test]
fn plain_output_text_is_written_at_once() {
    let (out, _) = run("out \"no refs here\"", Dialect::V4);
    assert_eq!(out, "no refs here ");
}

#[test]
fn a_finished_machine_stays_finished() {
    let program = Parser::new("crt s", Dialect::V4).parse().ok().unwrap();
    let mut vm = VM::new(Dialect::V4);
    vm.execute(program);
    loop {
        let o = vm.step();
        if matches!(o.request, Request::Finished) {
            break;
        }
    }
    for _ in 0..3 {
        let o = vm.step();
        assert!(o.effects.is_empty());
        assert!(matches!(o.request, Request::Finished));
    }
}

#[test]
fn a_waiting_machine_asks_again() {
    let program = Parser::new("crt a\npsh a 1\nfnc t {\nout yes\n}\njmp @a@ 1 = cal t", Dialect::V4).parse().ok().unwrap();
    let mut vm = VM::new(Dialect::V4);
    vm.execute(program);
    loop {
        let o = vm.step();
        match o.request {
            Request::Compare { left, right, op } => {
                assert_eq!((left.as_str(), right.as_str(), op), ("1", "1", ComparisonOp::Equal));
                let again = vm.step();
                assert!(again.effects.is_empty());
                assert!(matches!(again.request, Request::Compare { .. }));
                break;
            }
            Request::Finished => panic!("no comparison was asked for"),
            _ => {}
        }
    }
}

#[test]
fn texts_are_ordered_by_characters() {
    let c = |s: &str| s.chars().collect::<Vec<char>>();
    assert!(compare(&c("abc"), &c("abd"), ComparisonOp::LessThan, None));
    assert!(compare(&c("ab"), &c("abc"), ComparisonOp::LessThan, None));
    assert!(compare(&c("b"), &c("a"), ComparisonOp::GreaterThan, None));
    assert!(compare(&c("é"), &c("z"), ComparisonOp::GreaterThan, None));
    assert!(compare(&c("same"), &c("same"), ComparisonOp::Equal, None));
    assert!(compare(&c("same"), &c("same"), ComparisonOp::LessEqual, None));
    assert!(!compare(&c("same"), &c("same"), ComparisonOp::LessThan, None));
    assert!(compare(&c("x"), &c("y"), ComparisonOp::NotEqual, None));
    assert!(compare(&c("10"), &c("9"), ComparisonOp::LessThan, None));
    assert!(!compare(&c("10"), &c("9"), ComparisonOp::LessThan, Some(false)));
    for (a, b) in [("abc", "abd"), ("ab", "abc"), ("é", "z"), ("10", "9")] {
        assert_eq!(compare(&c(a), &c(b), ComparisonOp::LessThan, None), a < b);
    }
}

#[test]
fn a_jump_between_texts_is_decided_by_the_machine() {
    let program = Parser::new("crt a\npsh a x\nfnc t {\nout yes\n}\njmp @a@ x = cal t", Dialect::V4).parse().ok().unwrap();
    let mut vm = VM::new(Dialect::V4);
    vm.execute(program);
    let mut out = String::new();
    let mut err = Vec::new();
    loop {
        let o = vm.step();
        collect(o.effects, &mut out, &mut err);
        match o.request {
            Request::Continue => {}
            Request::Finished => break,
            _ => panic!("the machine asked for an answer"),
        }
    }
    assert_eq!(out, "yes ");
}

#[test]
fn arithmetic_on_a_text_is_refused_by_the_machine() {
    let program = Parser::new("crt s\npsh s abc\npsh s + 1\nout s", Dialect::V5).parse().ok().unwrap();
    let mut vm = VM::new(Dialect::V5);
    vm.execute(program);
    let mut out = String::new();
    let mut err = Vec::new();
    loop {
        let o = vm.step();
        collect(o.effects, &mut out, &mut err);
        match o.request {
            Request::Continue => {}
            Request::Finished => break,
            _ => panic!("the machine asked for an answer"),
        }
    }
    assert_eq!(err, vec!["Runtime Error: Cannot perform arithmetic on non-numeric values".to_string()]);
    assert_eq!(out, "(empty) ");
}

fn stack_tops(src: &str, d: Dialect, names: &[&str]) -> (Vec<Option<String>>, String) {
    let program = Parser::new(src, d).parse().ok().unwrap();
    let mut vm = VM::new(d);
    vm.execute(program);
    let mut out = String::new();
    let mut err = Vec::new();
    loop {
        let o = vm.step();
        collect(o.effects, &mut out, &mut err);
        match o.request {
            Request::Continue => {}
            Request::Finished => break,
            Request::Compare { left, right, op } => {
                let n = numeric(&left, &right, op);
                collect(vm.resume_compare(n), &mut out, &mut err);
            }
            Request::Arithmetic { left, right, operator } => {
                let r = arith(&left, &right, operator, &mut err);
                collect(vm.resume_arithmetic(r), &mut out, &mut err);
            }
        }
    }
    let tops = names.iter().map(|n| vm.get_stack_top(&n.to_string())).collect();
    (tops, out)
}

#[test]
fn calling_a_function_equals_running_its_body() {
    let bodies = [
        (Dialect::V4, "crt s\npsh s 4\nout \"@s@\"\njmp @s@ 4 = cal g\npsh s x", "4 g ", "x"),
        (Dialect::V5, "crt s\npsh s 4\npsh s + 3\nout \"@s@\"\njmp @s@ 7 = cal g\npsh s x", "7 g ", "7"),
    ];
    for (d, body, out, top) in bodies {
        let called = format!("fnc g {{\nout g\n}}\nfnc f {{\n{}\n}}\ncal f", body);
        let direct = format!("fnc g {{\nout g\n}}\n{}", body);
        let a = stack_tops(&called, d, &["s"]);
        let b = stack_tops(&direct, d, &["s"]);
        assert_eq!(a, b);
        assert_eq!(a, (vec![Some(top.to_string())], out.to_string()));
    }
    let (_, err) = run("crt s\ncal nothing\npsh s 1\nout s", Dialect::V5);
    assert_eq!(err, vec!["Runtime Error: Function 'nothing' not defined".to_string()]);
}

fn show(i: &Instruction) -> String {
    match i {
        Instruction::CreateStack(n) => format!("crt {}", n),
        Instruction::Push(s, (v, b)) => format!("psh {} {} {}", s, v, b),
        Instruction::Pop(s) => format!("pop {}", s),
        Instruction::Out((v, b)) => format!("out {} {}", v, b),
        Instruction::PrintNewLine => "otn".to_string(),
        Instruction::DeleteStack(n) => format!("del {}", n),
        Instruction::CallFunction(f) => format!("cal {}", f),
        Instruction::Arithmetic { stack, operator, value } => format!("ari {} {:?} {}", stack, operator, value),
        Instruction::ConditionalJump { left_stack, right_stack, op, target_func } => {
            format!("jmp {:?} {:?} {:?} {}", left_stack, right_stack, op, target_func)
        }
    }
}

#[test]
fn a_block_parses_like_top_level_text() {
    let body = "crt a\npsh a 1\nout a\njmp @a@ 1 = cal a";
    for d in [Dialect::V4, Dialect::V5] {
        let top = Parser::new(body, d).parse().ok().unwrap();
        let wrapped = Parser::new(&format!("fnc f {{\n{}\n}}", body), d).parse().ok().unwrap();
        assert!(wrapped.instructions.is_empty());
        assert_eq!(wrapped.functions.len(), 1);
        let i = wrapped.functions.find(&"f".to_string()).unwrap();
        let shown: Vec<String> = wrapped.functions.value(i).iter().map(show).collect();
        assert_eq!(shown, top.instructions.iter().map(show).collect::<Vec<String>>());
        assert_eq!(shown.len(), 4);
    }
}

#[test]
fn tokens_are_well_made() {
    for d in [Dialect::V4, Dialect::V5] {
        let src = "crt a\n\n  psh  a \"x y\" \"\"\r\nfnc f{out \"}\"}\n\"\"";
        let p = Parser::new(src, d);
        assert_eq!(p.tokens().len(), p.line_map().len());
        let lines = p.source_lines().len();
        let mut last = 1;
        for (t, l) in p.tokens().iter().zip(p.line_map().iter()) {
            assert!(!t.is_empty());
            assert!(!t.contains('"'));
            assert!(1 <= *l && *l <= lines);
            assert!(last <= *l);
            last = *l;
        }
        for (k, line) in p.source_lines().iter().enumerate() {
            let joined: String = p
                .tokens()
                .iter()
                .zip(p.line_map().iter())
                .filter(|(_, l)| **l == k + 1)
                .map(|(t, _)| t.as_str())
                .collect();
            let mut kept = String::new();
            let mut quoted = false;
            for c in line.chars() {
                if c == '"' {
                    quoted = !quoted;
                } else if c != ' ' || quoted {
                    kept.push(c);
                }
            }
            assert_eq!(joined, kept);
        }
    }
}

#[test]
fn text_comparison_is_symmetric() {
    let c = |s: &str| s.chars().collect::<Vec<char>>();
    let texts = ["", "a", "ab", "b", "é", "10", "9"];
    for l in texts {
        for r in texts {
            let (l, r) = (c(l), c(r));
            assert_eq!(
                compare(&l, &r, ComparisonOp::GreaterThan, None),
                compare(&r, &l, ComparisonOp::LessThan, None)
            );
            assert_eq!(
                compare(&l, &r, ComparisonOp::GreaterEqual, None),
                compare(&r, &l, ComparisonOp::LessEqual, None)
            );
            assert_eq!(compare(&l, &r, ComparisonOp::Equal, None), compare(&r, &l, ComparisonOp::Equal, None));
            assert_eq!(
                compare(&l, &r, ComparisonOp::NotEqual, None),
                compare(&r, &l, ComparisonOp::NotEqual, None)
            );
        }
    }
}

#[test]
fn text_without_a_reference_is_written_unchanged() {
    let (out, _) = run("crt n\npsh n 7\nout \"a@@b@\"\nout \"mail@host\"", Dialect::V4);
    assert_eq!(out, "a@@b@ mail@host ");
}

#[test]
fn v5_resolution_leaves_at_most_one_at() {
    let (out, _) = run("crt n\npsh n 7\nout \"x@n@@n@@\"\nout \"z@a@b@c@\"", Dialect::V5);
    assert_eq!(out, "x77@ zb ");
}
