use stackup::{ArithOp, Effect, Env, Expr, Op, OpErr, Piece, Type, Val};

fn num(x: f64) -> Expr {
    Expr::Value(Val::Number(x.to_bits()))
}

fn text(s: &str) -> Expr {
    Expr::Value(Val::Text(s.to_string()))
}

fn block(es: Vec<Expr>) -> Expr {
    Expr::Value(Val::Block(es))
}

fn word(s: &str) -> Expr {
    Expr::Opname(s.to_string())
}

fn apply(op: ArithOp, a: u64, b: u64) -> u64 {
    let (a, b) = (f64::from_bits(a), f64::from_bits(b));
    let r = match op {
        ArithOp::Add => a + b,
        ArithOp::Sub => a - b,
        ArithOp::Mul => a * b,
        ArithOp::Div => a / b,
    };
    r.to_bits()
}

fn show(pieces: &[Piece]) -> String {
    let mut line = String::new();
    for p in pieces {
        match p {
            Piece::Text(t) => line.push_str(t),
            Piece::Number(n) => line.push_str(&format!("{}", f64::from_bits(*n))),
        }
    }
    line
}

/// Runs `program` until the machine is idle or a word fails; hands out the lines written.
fn run(env: &mut Env, program: Vec<Expr>) -> Result<Vec<String>, OpErr> {
    let mut lines = Vec::new();
    env.load(program);
    let mut steps = 0;
    while !env.is_idle() {
        steps += 1;
        assert!(steps < 100_000);
        match env.step()? {
            Effect::Nothing => {}
            Effect::Compute { op, lhs, rhs } => env.push(Val::Number(apply(op, lhs, rhs))),
            Effect::Emit(pieces) => lines.push(show(&pieces)),
            Effect::Run(_) => unreachable!(),
        }
    }
    Ok(lines)
}

fn numbers(env: &mut Env) -> Vec<f64> {
    let mut out = Vec::new();
    while let Ok(n) = env.pop_num() {
        out.push(f64::from_bits(n));
    }
    out.reverse();
    out
}

#[test]
fn a_fresh_machine_is_idle_and_empty() {
    let mut env = Env::new();
    assert!(env.is_idle());
    assert_eq!(env.stack().len(), 0);
    assert_eq!(env.dict().len(), 20);
    assert_eq!(env.step(), Ok(Effect::Nothing));
    assert!(env.is_idle());
}

#[test]
fn literals_are_pushed_in_order() {
    let mut env = Env::new();
    assert_eq!(run(&mut env, vec![num(1.0), num(2.0), num(3.0)]), Ok(vec![]));
    assert_eq!(numbers(&mut env), vec![1.0, 2.0, 3.0]);
}

#[test]
fn arithmetic_keeps_the_order_of_the_text() {
    let mut env = Env::new();
    run(&mut env, vec![num(10.0), num(4.0), word("sub")]).unwrap();
    assert_eq!(numbers(&mut env), vec![6.0]);
    run(&mut env, vec![num(10.0), num(4.0), word("div")]).unwrap();
    assert_eq!(numbers(&mut env), vec![2.5]);
    run(&mut env, vec![num(3.0), num(4.0), word("mul"), num(1.0), word("add")]).unwrap();
    assert_eq!(numbers(&mut env), vec![13.0]);
}

#[test]
fn division_by_zero_is_no_error() {
    let mut env = Env::new();
    run(&mut env, vec![num(1.0), num(0.0), word("div")]).unwrap();
    assert_eq!(numbers(&mut env), vec![f64::INFINITY]);
    run(&mut env, vec![num(0.0), num(0.0), word("div")]).unwrap();
    let out = numbers(&mut env);
    assert!(out.len() == 1 && out[0].is_nan());
}

#[test]
fn add_on_one_value_fails_with_one_found() {
    let mut env = Env::new();
    assert_eq!(
        run(&mut env, vec![num(1.0), word("add")]),
        Err(OpErr::MissingItems { expected: 2, found: 1 })
    );
    let mut env = Env::new();
    assert_eq!(
        run(&mut env, vec![word("add")]),
        Err(OpErr::MissingItems { expected: 2, found: 0 })
    );
}

#[test]
fn redefinition_replaces_the_body() {
    let mut env = Env::new();
    run(&mut env, vec![text("x"), block(vec![num(1.0)]), word("def"), word("x")]).unwrap();
    assert_eq!(env.dict().len(), 21);
    assert_eq!(numbers(&mut env), vec![1.0]);
    run(&mut env, vec![text("x"), block(vec![num(2.0)]), word("def"), word("x")]).unwrap();
    assert_eq!(env.dict().len(), 21);
    assert_eq!(numbers(&mut env), vec![2.0]);
    assert_eq!(env.dict().get("x"), Some(&Op::Defined(vec![num(2.0)])));
}

#[test]
fn a_native_word_can_be_redefined() {
    let mut env = Env::new();
    run(&mut env, vec![text("dup"), block(vec![num(5.0)]), word("def"), num(1.0), word("dup")])
        .unwrap();
    assert_eq!(env.dict().len(), 20);
    assert_eq!(numbers(&mut env), vec![1.0, 5.0]);
}

#[test]
fn a_word_that_redefines_itself_finishes_its_old_body() {
    let mut env = Env::new();
    let old_body = vec![
        num(1.0),
        text("self"),
        block(vec![num(7.0)]),
        word("def"),
        word("self"),
        num(99.0),
    ];
    run(&mut env, vec![text("self"), block(old_body), word("def")]).unwrap();
    run(&mut env, vec![word("self")]).unwrap();
    assert_eq!(numbers(&mut env), vec![1.0, 7.0, 99.0]);
    run(&mut env, vec![word("self")]).unwrap();
    assert_eq!(numbers(&mut env), vec![7.0]);
}

#[test]
fn if_runs_the_chosen_block() {
    let mut env = Env::new();
    let branches = || vec![block(vec![num(10.0)]), block(vec![num(20.0)]), word("if")];
    let mut program = vec![num(1.0)];
    program.extend(branches());
    run(&mut env, program).unwrap();
    assert_eq!(numbers(&mut env), vec![10.0]);
    let mut program = vec![num(0.0)];
    program.extend(branches());
    run(&mut env, program).unwrap();
    assert_eq!(numbers(&mut env), vec![20.0]);
}

#[test]
fn a_branch_is_no_scope_of_its_own() {
    let mut env = Env::new();
    let program = vec![
        num(1.0),
        block(vec![text("y"), block(vec![num(3.0)]), word("def")]),
        block(vec![num(0.0)]),
        word("if"),
        word("y"),
    ];
    run(&mut env, program).unwrap();
    assert_eq!(numbers(&mut env), vec![3.0]);
}

#[test]
fn evl_is_the_same_as_writing_the_block_out() {
    let mut applied = Env::new();
    run(&mut applied, vec![block(vec![num(1.0), num(2.0), word("add")]), word("evl")]).unwrap();
    let mut inline = Env::new();
    run(&mut inline, vec![num(1.0), num(2.0), word("add")]).unwrap();
    assert_eq!(numbers(&mut applied), vec![3.0]);
    assert_eq!(numbers(&mut inline), vec![3.0]);
}

#[test]
fn def_with_a_number_is_a_type_mismatch() {
    let mut env = Env::new();
    assert_eq!(
        run(&mut env, vec![num(1.0), num(2.0), word("def")]),
        Err(OpErr::TypeMismatch { expected: Type::Block, found: Type::Number })
    );
}

#[test]
fn an_unknown_word_is_reported_by_name() {
    let mut env = Env::new();
    assert_eq!(
        run(&mut env, vec![num(1.0), word("no_such_word"), num(2.0)]),
        Err(OpErr::UnknownOp("no_such_word".to_string()))
    );
    assert!(env.is_idle());
    assert_eq!(numbers(&mut env), vec![1.0]);
}

#[test]
fn a_failure_keeps_what_was_done_and_drops_what_was_waiting() {
    let mut env = Env::new();
    let body = vec![num(1.0), num(2.0), num(3.0), text("t"), word("add"), num(4.0)];
    run(&mut env, vec![text("w"), block(body), word("def")]).unwrap();
    assert_eq!(
        run(&mut env, vec![word("w"), num(5.0)]),
        Err(OpErr::TypeMismatch { expected: Type::Number, found: Type::Text })
    );
    assert!(env.is_idle());
    assert_eq!(numbers(&mut env), vec![1.0, 2.0, 3.0]);
}

#[test]
fn recursion_by_name_counts_down() {
    let mut env = Env::new();
    // count: n -> pushes nothing, stops when n is not above zero
    let body = vec![
        word("dup"),
        block(vec![num(1.0), word("sub"), word("count")]),
        block(vec![word("pop")]),
        word("if"),
    ];
    run(&mut env, vec![text("count"), block(body), word("def")]).unwrap();
    run(&mut env, vec![num(50.0), word("count"), num(8.0)]).unwrap();
    assert_eq!(numbers(&mut env), vec![8.0]);
}

#[test]
fn prt_and_stk_write_lines() {
    let mut env = Env::new();
    let lines = run(
        &mut env,
        vec![num(1.5), text("hi"), num(-2.0), word("stk"), word("prt"), word("prt"), word("stk")],
    )
    .unwrap();
    assert_eq!(lines, vec!["1.5,hi,-2", "-2", "hi", "1.5"]);
}

#[test]
fn find_op_runs_a_native_word_and_hands_out_a_defined_body() {
    let mut env = Env::new();
    env.push(Val::Number(3.0f64.to_bits()));
    assert_eq!(env.find_op("dup"), Ok(Effect::Nothing));
    assert_eq!(env.stack().len(), 2);
    env.bind_op("two".to_string(), vec![num(2.0)]);
    assert_eq!(env.find_op("two"), Ok(Effect::Run(vec![num(2.0)])));
    assert!(env.is_idle());
    assert_eq!(env.find_op("three"), Err(OpErr::UnknownOp("three".to_string())));
}

#[test]
fn the_machine_pops_like_its_stack() {
    let mut env = Env::new();
    env.push(Val::Block(vec![num(1.0)]));
    env.push(Val::Text("t".to_string()));
    env.push(Val::Number(1.0f64.to_bits()));
    env.push(Val::Number(2.0f64.to_bits()));
    assert_eq!(env.pop(), Ok(Val::Number(2.0f64.to_bits())));
    assert_eq!(env.pop_num(), Ok(1.0f64.to_bits()));
    assert_eq!(env.pop_text(), Ok("t".to_string()));
    assert_eq!(env.pop_anonop(), Ok(vec![num(1.0)]));
    assert_eq!(env.pop(), Err(OpErr::MissingItems { expected: 1, found: 0 }));
}

#[test]
fn load_puts_a_program_in_front() {
    let mut env = Env::new();
    env.load(vec![num(3.0)]);
    env.load(vec![num(1.0), num(2.0)]);
    while !env.is_idle() {
        env.step().unwrap();
    }
    assert_eq!(numbers(&mut env), vec![1.0, 2.0, 3.0]);
}

#[test]
fn run_stops_at_what_the_host_must_do() {
    let mut env = Env::new();
    env.load(vec![num(1.0), num(2.0), word("add"), num(4.0), word("prt"), word("nope"), num(5.0)]);
    assert_eq!(
        env.run(100),
        Ok(Effect::Compute { op: ArithOp::Add, lhs: 1.0f64.to_bits(), rhs: 2.0f64.to_bits() })
    );
    env.push(Val::Number(3.0f64.to_bits()));
    assert_eq!(env.run(100), Ok(Effect::Emit(vec![Piece::Number(4.0f64.to_bits())])));
    assert_eq!(env.run(100), Err(OpErr::UnknownOp("nope".to_string())));
    assert!(env.is_idle());
    assert_eq!(env.run(100), Ok(Effect::Nothing));
    assert_eq!(numbers(&mut env), vec![3.0]);
}

#[test]
fn run_stops_at_its_limit() {
    let mut env = Env::new();
    // a word that calls itself for ever
    env.bind_op("spin".to_string(), vec![word("spin")]);
    env.load(vec![num(1.0), word("spin")]);
    assert_eq!(env.run(0), Ok(Effect::Nothing));
    assert_eq!(env.stack().len(), 0);
    assert_eq!(env.run(1000), Ok(Effect::Nothing));
    assert!(!env.is_idle());
    assert_eq!(numbers(&mut env), vec![1.0]);
}

#[test]
fn words_report_their_own_arity() {
    let mut env = Env::new();
    assert_eq!(run(&mut env, vec![word("not")]), Err(OpErr::MissingItems { expected: 1, found: 0 }));
    assert_eq!(
        run(&mut env, vec![block(vec![num(1.0)]), word("def")]),
        Err(OpErr::MissingItems { expected: 2, found: 1 })
    );
    assert_eq!(
        run(&mut env, vec![block(vec![num(1.0)]), block(vec![num(2.0)]), word("if")]),
        Err(OpErr::MissingItems { expected: 3, found: 2 })
    );
    assert_eq!(run(&mut env, vec![word("dup")]), Err(OpErr::MissingItems { expected: 1, found: 0 }));
    assert_eq!(run(&mut env, vec![word("evl")]), Err(OpErr::MissingItems { expected: 1, found: 0 }));
    assert_eq!(run(&mut env, vec![word("prt")]), Err(OpErr::MissingItems { expected: 1, found: 0 }));
    assert_eq!(run(&mut env, vec![word("pop")]), Err(OpErr::MissingItems { expected: 1, found: 0 }));
    assert_eq!(
        run(&mut env, vec![num(1.0), word("swp")]),
        Err(OpErr::MissingItems { expected: 2, found: 1 })
    );
    assert_eq!(env.stack().len(), 0);
}
