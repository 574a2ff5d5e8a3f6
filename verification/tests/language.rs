use evaluator::fault::{Fault, FaultKind};
use evaluator::host::{Arithmetic, Host, Session};
use evaluator::interpreter::{inner_interpret, interpret, interpret_function, interpret_operation};
use evaluator::state::{Emission, State};
use evaluator::syntax::{Operation, StringSegment, Syntax, VarType};
use evaluator::value::{Boolean, Keyword, Member, Pointer, Value};

const LIMIT: usize = 64;

/// The kind of failure that a message reports.
fn kind_of(message: &str) -> FaultKind {
    let kinds = [
        FaultKind::IfArity,
        FaultKind::FunctionShape,
        FaultKind::ParameterName,
        FaultKind::EvalArity,
        FaultKind::NotAnObject,
        FaultKind::MissingMember,
        FaultKind::NotImplemented,
        FaultKind::Unbound,
        FaultKind::Unassignable,
        FaultKind::MalformedOperator,
        FaultKind::StackExhausted,
        FaultKind::NotAFunction,
    ];
    for kind in kinds {
        let bare = Fault::bare(kind).message();
        let full = Fault::with_detail(kind, String::from("\u{0}")).message();
        let (opening, closing) = full.split_once('\u{0}').unwrap();
        if message == bare
            || (message.len() >= opening.len() + closing.len()
                && message.starts_with(opening)
                && message.ends_with(closing)
                && !(opening.is_empty() && closing.is_empty()))
        {
            return kind;
        }
    }
    FaultKind::Frontend
}

/// A host on real doubles, with a front end for sums of identifiers.
struct Ieee;

impl Host for Ieee {
    fn arithmetic(&mut self, op: Arithmetic, left: u64, right: u64) -> u64 {
        let a = f64::from_bits(left);
        let b = f64::from_bits(right);
        let r = match op {
            Arithmetic::Add => a + b,
            Arithmetic::Sub => a - b,
            Arithmetic::Mul => a * b,
            Arithmetic::Div => a / b,
            Arithmetic::Rem => a % b,
        };
        r.to_bits()
    }

    fn numeral(&mut self, text: &str) -> Option<u64> {
        match text.chars().next() {
            Some(c) if c.is_ascii_digit() => text.parse::<f64>().ok().map(f64::to_bits),
            _ => None,
        }
    }

    fn format(&mut self, number: u64) -> String {
        f64::from_bits(number).to_string()
    }

    fn parse(&mut self, text: &str) -> Result<Syntax, String> {
        let mut words = text.split_whitespace();
        let first = match words.next() {
            Some(word) => word,
            None => return Err(String::from("nothing to parse")),
        };
        let mut tree = Syntax::Ident(String::from(first));
        loop {
            let op = match words.next() {
                None => return Ok(tree),
                Some("+") => Operation::Add,
                Some("-") => Operation::Sub,
                Some("*") => Operation::Mul,
                Some("/") => Operation::Div,
                Some(other) => return Err(format!("unexpected `{other}`")),
            };
            let right = match words.next() {
                Some(word) => Syntax::Ident(String::from(word)),
                None => return Err(String::from("operand expected")),
            };
            tree = Syntax::Operation(Box::new(tree), op, Box::new(right));
        }
    }
}

fn ident(name: &str) -> Syntax {
    Syntax::Ident(String::from(name))
}

fn binary(lhs: Syntax, op: Operation, rhs: Syntax) -> Syntax {
    Syntax::Operation(Box::new(lhs), op, Box::new(rhs))
}

fn declare(kind: VarType, name: &str, value: Syntax) -> Syntax {
    Syntax::Declare(kind, String::from(name), Box::new(value))
}

fn call(name: &str, args: Vec<Syntax>) -> Syntax {
    Syntax::Call(String::from(name), args)
}

fn text(literal: &str) -> Syntax {
    Syntax::String(vec![StringSegment::String(String::from(literal))])
}

fn number(x: f64) -> Value {
    Value::Number(x.to_bits())
}

fn fixed(value: Value) -> Pointer {
    Pointer::ConstConst(value)
}

/// Evaluates the nodes in order in one state and gives the last result.
fn run(nodes: Vec<Syntax>) -> (Result<Pointer, String>, State) {
    let mut session = Session::new(Ieee);
    let mut state = State::new();
    let mut last = Ok(Pointer::ConstConst(Value::Undefined));
    for node in &nodes {
        last = inner_interpret(node, &mut state, &mut session, LIMIT);
    }
    (last, state)
}

fn value_of(nodes: Vec<Syntax>) -> Value {
    let (result, state) = run(nodes);
    result.expect("evaluation failed").clone_inner(&state)
}

fn fault_of(nodes: Vec<Syntax>) -> FaultKind {
    let (result, _) = run(nodes);
    kind_of(&result.expect_err("evaluation succeeded"))
}

#[test]
fn sum_of_numerals() {
    assert_eq!(value_of(vec![binary(ident("1"), Operation::Add, ident("2"))]), number(3.0));
}

#[test]
fn arithmetic_on_doubles() {
    assert_eq!(value_of(vec![binary(ident("7"), Operation::Sub, ident("2"))]), number(5.0));
    assert_eq!(value_of(vec![binary(ident("7"), Operation::Mul, ident("2"))]), number(14.0));
    assert_eq!(value_of(vec![binary(ident("7"), Operation::Div, ident("2"))]), number(3.5));
    assert_eq!(value_of(vec![binary(ident("7"), Operation::Mod, ident("2"))]), number(1.0));
}

#[test]
fn division_by_zero_is_undefined() {
    assert_eq!(value_of(vec![binary(ident("1"), Operation::Div, ident("0"))]), Value::Undefined);
    assert_eq!(value_of(vec![binary(ident("0"), Operation::Div, ident("0"))]), Value::Undefined);
    assert_eq!(
        value_of(vec![binary(
            ident("5"),
            Operation::Div,
            Syntax::Negate(Box::new(ident("0"))),
        )]),
        Value::Undefined
    );
    assert_eq!(
        value_of(vec![binary(text("a"), Operation::Div, ident("0"))]),
        Value::Undefined
    );
}

#[test]
fn division_by_zero_does_not_ask_the_host() {
    struct Silent;
    impl Host for Silent {
        fn arithmetic(&mut self, _: Arithmetic, _: u64, _: u64) -> u64 {
            panic!("asked")
        }
        fn numeral(&mut self, _: &str) -> Option<u64> {
            None
        }
        fn format(&mut self, _: u64) -> String {
            String::new()
        }
        fn parse(&mut self, _: &str) -> Result<Syntax, String> {
            Err(String::new())
        }
    }
    let mut session = Session::new(Silent);
    let state = State::new();
    let one = fixed(number(1.0));
    let zero = fixed(number(0.0));
    let negative_zero = fixed(number(-0.0));
    assert_eq!(one.div(&zero, &state, &mut session), fixed(Value::Undefined));
    assert_eq!(one.div(&negative_zero, &state, &mut session), fixed(Value::Undefined));
}

#[test]
fn declaration_reads_back() {
    for kind in [VarType::ConstConst, VarType::ConstVar, VarType::VarConst, VarType::VarVar] {
        let (result, state) = run(vec![
            declare(kind, "x", binary(ident("2"), Operation::Mul, ident("21"))),
            binary(ident("x"), Operation::Equal(2), ident("42")),
        ]);
        assert_eq!(result.unwrap(), fixed(Value::Boolean(Boolean::True)));
        let mut session = Session::new(Ieee);
        let mut state = state;
        let read = inner_interpret(&ident("x"), &mut state, &mut session, LIMIT).unwrap();
        assert_eq!(read.clone_inner(&state), number(42.0));
    }
}

#[test]
fn declaration_gives_undefined_and_the_declared_kind() {
    let (result, mut state) = run(vec![declare(VarType::VarVar, "x", ident("1"))]);
    assert_eq!(result.unwrap(), fixed(Value::Undefined));
    assert_eq!(state.get(&String::from("x")), Some(Pointer::VarVar(0)));
    let mut session = Session::new(Ieee);
    inner_interpret(&declare(VarType::ConstVar, "y", ident("2")), &mut state, &mut session, LIMIT)
        .unwrap();
    inner_interpret(&declare(VarType::VarConst, "z", ident("3")), &mut state, &mut session, LIMIT)
        .unwrap();
    inner_interpret(&declare(VarType::ConstConst, "w", ident("4")), &mut state, &mut session, LIMIT)
        .unwrap();
    assert_eq!(state.get(&String::from("y")), Some(Pointer::ConstVar(1)));
    assert_eq!(state.get(&String::from("z")), Some(Pointer::VarConst(number(3.0))));
    assert_eq!(state.get(&String::from("w")), Some(Pointer::ConstConst(number(4.0))));
}

#[test]
fn auto_vivification_gives_the_same_shared_handle() {
    let access = || binary(ident("o"), Operation::Dot, ident("k"));
    let mut session = Session::new(Ieee);
    let mut state = State::new();
    inner_interpret(&declare(VarType::VarVar, "o", ident("object")), &mut state, &mut session, LIMIT)
        .unwrap();
    let first = inner_interpret(&access(), &mut state, &mut session, LIMIT).unwrap();
    let second = inner_interpret(&access(), &mut state, &mut session, LIMIT).unwrap();
    assert_eq!(first, Pointer::ConstVar(1));
    assert_eq!(second, first);
    assert_eq!(first.clone_inner(&state), Value::Undefined);
    let assigned = first.assign(number(5.0), &mut state).unwrap();
    assert_eq!(assigned, Pointer::ConstVar(1));
    assert_eq!(second.clone_inner(&state), number(5.0));
    let third = inner_interpret(&access(), &mut state, &mut session, LIMIT).unwrap();
    assert_eq!(third.clone_inner(&state), number(5.0));
}

#[test]
fn assignment_to_a_new_member_is_legal() {
    let value = value_of(vec![
        declare(VarType::VarVar, "o", ident("object")),
        binary(binary(ident("o"), Operation::Dot, ident("k")), Operation::Equal(1), ident("7")),
        binary(ident("o"), Operation::Dot, ident("k")),
    ]);
    assert_eq!(value, number(7.0));
}

#[test]
fn a_member_of_a_snapshot_is_not_kept() {
    let (result, state) = run(vec![
        declare(VarType::ConstConst, "o", ident("object")),
        binary(binary(ident("o"), Operation::Dot, ident("k")), Operation::Equal(1), ident("7")),
        binary(ident("o"), Operation::Dot, ident("k")),
    ]);
    assert_eq!(result.unwrap().clone_inner(&state), Value::Undefined);
}

#[test]
fn one_sign_assigns_and_gives_the_right_handle() {
    let (result, state) = run(vec![
        declare(VarType::VarVar, "x", ident("1")),
        binary(ident("x"), Operation::Equal(1), ident("2")),
    ]);
    assert_eq!(result.unwrap(), fixed(number(2.0)));
    assert_eq!(state.cells[0], number(2.0));
}

#[test]
fn more_signs_compare_and_never_assign() {
    for signs in 2..=5u8 {
        let (result, state) = run(vec![
            declare(VarType::VarVar, "x", ident("1")),
            binary(ident("x"), Operation::Equal(signs), ident("2")),
        ]);
        assert_eq!(result.unwrap(), fixed(Value::Boolean(Boolean::False)));
        assert_eq!(state.cells[0], number(1.0));
        let (result, state) = run(vec![
            declare(VarType::VarVar, "x", ident("1")),
            binary(ident("x"), Operation::Equal(signs), ident("1")),
        ]);
        assert_eq!(result.unwrap(), fixed(Value::Boolean(Boolean::True)));
        assert_eq!(state.cells[0], number(1.0));
    }
}

#[test]
fn an_operator_of_no_signs_is_malformed() {
    assert_eq!(
        fault_of(vec![binary(ident("1"), Operation::Equal(0), ident("1"))]),
        FaultKind::MalformedOperator
    );
}

#[test]
fn depth_decides_how_far_objects_are_compared() {
    let member = |object: &str, value: &str| {
        binary(
            binary(binary(ident(object), Operation::Dot, ident("k")), Operation::Dot, ident("j")),
            Operation::Equal(1),
            ident(value),
        )
    };
    let setup = |left: &str, right: &str| {
        vec![
            declare(VarType::VarVar, "a", ident("object")),
            declare(VarType::VarVar, "b", ident("object")),
            binary(
                binary(ident("a"), Operation::Dot, ident("k")),
                Operation::Equal(1),
                ident("object"),
            ),
            binary(
                binary(ident("b"), Operation::Dot, ident("k")),
                Operation::Equal(1),
                ident("object"),
            ),
            member("a", left),
            member("b", right),
        ]
    };
    let compared = |left: &str, right: &str, signs: u8| {
        let mut nodes = setup(left, right);
        nodes.push(binary(ident("a"), Operation::Equal(signs), ident("b")));
        value_of(nodes)
    };
    assert_eq!(compared("1", "1", 2), Value::Boolean(Boolean::Maybe));
    assert_eq!(compared("1", "1", 3), Value::Boolean(Boolean::True));
    assert_eq!(compared("1", "1", 4), Value::Boolean(Boolean::True));
    assert_eq!(compared("1", "2", 2), Value::Boolean(Boolean::Maybe));
    assert_eq!(compared("1", "2", 3), Value::Boolean(Boolean::False));
    let mut same = setup("1", "2");
    same.push(binary(ident("a"), Operation::Equal(2), ident("a")));
    assert_eq!(value_of(same), Value::Boolean(Boolean::True));
    let mut other_kind = setup("1", "1");
    other_kind.push(binary(ident("a"), Operation::Equal(2), ident("1")));
    assert_eq!(value_of(other_kind), Value::Boolean(Boolean::False));
    let mut fewer = setup("1", "1");
    fewer.push(binary(
        binary(ident("b"), Operation::Dot, ident("extra")),
        Operation::Equal(1),
        ident("1"),
    ));
    fewer.push(binary(ident("a"), Operation::Equal(9), ident("b")));
    assert_eq!(value_of(fewer), Value::Boolean(Boolean::False));
}

#[test]
fn assignment_through_a_snapshot_fails() {
    assert_eq!(
        fault_of(vec![
            declare(VarType::ConstConst, "x", ident("1")),
            binary(ident("x"), Operation::Equal(1), ident("2")),
        ]),
        FaultKind::Unassignable
    );
    assert_eq!(
        fault_of(vec![binary(ident("1"), Operation::AddEq, ident("2"))]),
        FaultKind::Unassignable
    );
}

#[test]
fn assignment_through_an_owned_handle_is_seen_by_its_holder_alone() {
    let value = value_of(vec![
        declare(VarType::VarConst, "x", ident("1")),
        binary(ident("x"), Operation::Equal(1), ident("2")),
        ident("x"),
    ]);
    assert_eq!(value, number(2.0));
    let (result, state) = run(vec![
        declare(VarType::VarConst, "x", ident("1")),
        declare(VarType::VarConst, "y", ident("x")),
        binary(ident("x"), Operation::Equal(1), ident("2")),
        ident("y"),
    ]);
    assert_eq!(result.unwrap(), Pointer::VarConst(number(1.0)));
    assert_eq!(state.get(&String::from("x")), Some(Pointer::VarConst(number(2.0))));
    assert!(state.cells.is_empty());
    let (result, state) = run(vec![
        declare(VarType::VarConst, "x", ident("1")),
        Syntax::Block(vec![
            declare(VarType::VarVar, "inner", ident("5")),
            binary(ident("x"), Operation::Equal(1), ident("inner")),
        ]),
    ]);
    assert_eq!(result.unwrap(), Pointer::VarVar(0));
    assert_eq!(state.get(&String::from("x")), Some(Pointer::VarConst(number(5.0))));
    assert_eq!(state.frames.len(), 1);
    assert_eq!(state.frames[0].bindings.len(), 10);
    let (result, state) = run(vec![
        declare(VarType::VarConst, "x", ident("10")),
        binary(ident("x"), Operation::SubEq, ident("3")),
        binary(ident("x"), Operation::MulEq, ident("2")),
    ]);
    assert_eq!(result.unwrap(), Pointer::VarConst(number(14.0)));
    assert_eq!(state.get(&String::from("x")), Some(Pointer::VarConst(number(14.0))));
    let (result, state) = run(vec![
        declare(VarType::VarConst, "x", ident("1")),
        binary(
            ident("x"),
            Operation::Equal(1),
            Syntax::Block(vec![declare(VarType::VarConst, "x", ident("7")), ident("9")]),
        ),
        ident("x"),
    ]);
    assert_eq!(result.unwrap(), Pointer::VarConst(number(9.0)));
    assert_eq!(state.frames[0].bindings.len(), 10);
    let (result, state) = run(vec![
        declare(VarType::VarConst, "x", ident("1")),
        binary(
            ident("x"),
            Operation::Equal(1),
            call("if", vec![ident("true"), declare(VarType::VarConst, "x", ident("7"))]),
        ),
        ident("x"),
    ]);
    assert_eq!(result.unwrap(), Pointer::VarConst(number(7.0)));
    assert_eq!(state.cells.len(), 0);
}

#[test]
fn compound_assignment_writes_back() {
    let cases = [
        (Operation::AddEq, 12.0),
        (Operation::SubEq, 8.0),
        (Operation::MulEq, 20.0),
        (Operation::DivEq, 5.0),
        (Operation::ModEq, 0.0),
    ];
    for (op, expected) in cases {
        let (result, state) = run(vec![
            declare(VarType::VarVar, "x", ident("10")),
            binary(ident("x"), op, ident("2")),
        ]);
        assert_eq!(result.unwrap(), Pointer::VarVar(0));
        assert_eq!(state.cells[0], number(expected));
    }
    let (result, state) = run(vec![
        declare(VarType::VarConst, "x", ident("10")),
        binary(ident("x"), Operation::AddEq, ident("2")),
    ]);
    assert_eq!(result.unwrap(), Pointer::VarConst(number(12.0)));
    assert_eq!(state.get(&String::from("x")), Some(Pointer::VarConst(number(12.0))));
}

#[test]
fn empty_block_is_undefined() {
    let (result, state) = run(vec![Syntax::Block(vec![])]);
    assert_eq!(result.unwrap(), fixed(Value::Undefined));
    assert_eq!(state, State::new());
}

#[test]
fn block_gives_its_last() {
    let (result, state) = run(vec![
        declare(VarType::VarVar, "x", ident("1")),
        Syntax::Block(vec![
            binary(ident("x"), Operation::Equal(1), ident("2")),
            binary(ident("x"), Operation::AddEq, ident("3")),
            binary(ident("x"), Operation::Mul, ident("10")),
        ]),
    ]);
    assert_eq!(result.unwrap(), fixed(number(50.0)));
    assert_eq!(state.cells[0], number(5.0));
    assert_eq!(state.frames.len(), 1);
}

#[test]
fn block_scope_ends_with_the_block() {
    assert_eq!(
        fault_of(vec![
            Syntax::Block(vec![declare(VarType::VarVar, "inner", ident("1"))]),
            ident("inner"),
        ]),
        FaultKind::Unbound
    );
    let (result, state) = run(vec![Syntax::Block(vec![
        declare(VarType::VarVar, "inner", ident("1")),
        ident("missing"),
        ident("1"),
    ])]);
    assert_eq!(kind_of(&result.unwrap_err()), FaultKind::Unbound);
    assert_eq!(state.frames.len(), 1);
}

#[test]
fn scoping_is_dynamic() {
    let define = || call("function", vec![ident("f"), Syntax::Block(vec![]), ident("x")]);
    let value = value_of(vec![
        Syntax::Block(vec![declare(VarType::VarVar, "x", ident("1")), define()]),
    ]);
    assert_eq!(value, Value::Undefined);
    let value = value_of(vec![
        declare(VarType::VarVar, "x", ident("1")),
        define(),
        Syntax::Block(vec![declare(VarType::VarVar, "x", ident("2")), call("f", vec![])]),
    ]);
    assert_eq!(value, number(2.0));
    assert_eq!(
        fault_of(vec![define(), call("f", vec![])]),
        FaultKind::Unbound
    );
    let value = value_of(vec![
        define(),
        declare(VarType::VarVar, "x", ident("3")),
        call("f", vec![]),
    ]);
    assert_eq!(value, number(3.0));
}

#[test]
fn function_literal_captures_nothing() {
    let literal = Syntax::Function(vec![String::from("a")], Box::new(ident("a")));
    let (result, _) = run(vec![literal]);
    assert_eq!(
        result.unwrap(),
        fixed(Value::Function(vec![String::from("a")], ident("a")))
    );
}

#[test]
fn parameters_bind_in_order_and_missing_ones_are_undefined() {
    let define = call(
        "function",
        vec![
            ident("f"),
            Syntax::Block(vec![ident("a"), ident("b")]),
            binary(ident("a"), Operation::Sub, ident("b")),
        ],
    );
    assert_eq!(
        value_of(vec![define, call("f", vec![ident("5"), ident("3"), ident("missing")])]),
        number(2.0)
    );
    let second = call(
        "function",
        vec![ident("g"), Syntax::Block(vec![ident("a"), ident("b")]), ident("b")],
    );
    assert_eq!(value_of(vec![second, call("g", vec![ident("5")])]), Value::Undefined);
    let single = call("function", vec![ident("h"), ident("a"), ident("a")]);
    assert_eq!(value_of(vec![single, call("h", vec![ident("9")])]), number(9.0));
}

#[test]
fn arguments_are_evaluated_in_the_callers_scope() {
    let define = call(
        "function",
        vec![ident("f"), Syntax::Block(vec![ident("a"), ident("b")]), ident("b")],
    );
    let value = value_of(vec![
        define,
        declare(VarType::VarVar, "a", ident("1")),
        call("f", vec![ident("2"), ident("a")]),
    ]);
    assert_eq!(value, number(1.0));
}

#[test]
fn maybe_takes_the_fourth_branch() {
    let branches = |condition: &str, count: usize| {
        let mut args = vec![ident(condition), text("then"), text("else"), text("maybe")];
        args.truncate(count);
        call("if", args)
    };
    let shown = |s: &str| Value::String(String::from(s));
    assert_eq!(value_of(vec![branches("maybe", 4)]), shown("maybe"));
    assert_eq!(value_of(vec![branches("maybe", 3)]), shown("else"));
    assert_eq!(value_of(vec![branches("maybe", 2)]), Value::Undefined);
    assert_eq!(value_of(vec![branches("true", 4)]), shown("then"));
    assert_eq!(value_of(vec![branches("true", 2)]), shown("then"));
    assert_eq!(value_of(vec![branches("false", 4)]), shown("else"));
    assert_eq!(value_of(vec![branches("false", 3)]), shown("else"));
    assert_eq!(value_of(vec![branches("false", 2)]), Value::Undefined);
    assert_eq!(value_of(vec![branches("undefined", 3)]), shown("else"));
    assert_eq!(value_of(vec![branches("1", 3)]), shown("then"));
    assert_eq!(value_of(vec![branches("0", 3)]), shown("else"));
}

#[test]
fn only_the_chosen_branch_is_evaluated() {
    let value = value_of(vec![
        declare(VarType::VarVar, "x", ident("0")),
        call(
            "if",
            vec![
                ident("maybe"),
                binary(ident("x"), Operation::Equal(1), ident("1")),
                binary(ident("x"), Operation::Equal(1), ident("2")),
                binary(ident("x"), Operation::AddEq, ident("4")),
            ],
        ),
        ident("x"),
    ]);
    assert_eq!(value, number(4.0));
}

#[test]
fn if_needs_two_arguments() {
    assert_eq!(fault_of(vec![call("if", vec![])]), FaultKind::IfArity);
    assert_eq!(fault_of(vec![call("if", vec![ident("true")])]), FaultKind::IfArity);
}

#[test]
fn eval_evaluates_text_made_at_run_time() {
    let source = binary(text("1 +"), Operation::Add, text(" 2"));
    assert_eq!(value_of(vec![call("eval", vec![source])]), number(3.0));
    let spliced = Syntax::String(vec![
        StringSegment::Ident(String::from("n")),
        StringSegment::String(String::from(" * ")),
        StringSegment::Ident(String::from("n")),
    ]);
    assert_eq!(
        value_of(vec![declare(VarType::VarVar, "n", ident("4")), call("eval", vec![spliced])]),
        number(16.0)
    );
}

#[test]
fn eval_sees_the_current_scope() {
    let value = value_of(vec![Syntax::Block(vec![
        declare(VarType::VarVar, "x", ident("20")),
        call("eval", vec![text("x + 1")]),
    ])]);
    assert_eq!(value, number(21.0));
}

#[test]
fn eval_hands_on_the_front_ends_failure() {
    let (result, _) = run(vec![call("eval", vec![text("1 ? 2")])]);
    assert_eq!(result.unwrap_err(), "unexpected `?`");
    let (result, _) = run(vec![call("eval", vec![text("")])]);
    assert_eq!(result.unwrap_err(), "nothing to parse");
}

#[test]
fn eval_takes_one_argument() {
    assert_eq!(fault_of(vec![call("eval", vec![])]), FaultKind::EvalArity);
    assert_eq!(
        fault_of(vec![call("eval", vec![text("1"), text("2")])]),
        FaultKind::EvalArity
    );
}

#[test]
fn delete_touches_the_innermost_scope_only() {
    assert_eq!(
        fault_of(vec![
            declare(VarType::VarVar, "x", ident("1")),
            call("delete", vec![ident("x")]),
            ident("x"),
        ]),
        FaultKind::Unbound
    );
    let value = value_of(vec![
        declare(VarType::VarVar, "x", ident("1")),
        Syntax::Block(vec![call("delete", vec![ident("x")])]),
        ident("x"),
    ]);
    assert_eq!(value, number(1.0));
    let value = value_of(vec![
        declare(VarType::VarVar, "x", ident("1")),
        Syntax::Block(vec![
            declare(VarType::VarVar, "x", ident("2")),
            call("delete", vec![ident("x")]),
            ident("x"),
        ]),
    ]);
    assert_eq!(value, number(1.0));
}

#[test]
fn delete_of_anything_else_does_nothing() {
    let (result, state) = run(vec![
        declare(VarType::VarVar, "x", ident("1")),
        call("delete", vec![ident("x"), ident("x")]),
    ]);
    assert_eq!(result.unwrap(), fixed(Value::Undefined));
    assert_eq!(state.get(&String::from("x")), Some(Pointer::VarVar(0)));
    let (result, state) = run(vec![
        declare(VarType::VarVar, "x", ident("1")),
        call("delete", vec![text("x")]),
    ]);
    assert_eq!(result.unwrap(), fixed(Value::Undefined));
    assert_eq!(state.get(&String::from("x")), Some(Pointer::VarVar(0)));
    let (result, _) = run(vec![call("delete", vec![])]);
    assert_eq!(result.unwrap(), fixed(Value::Undefined));
}

#[test]
fn function_needs_a_name_parameters_and_a_body() {
    assert_eq!(fault_of(vec![call("function", vec![])]), FaultKind::FunctionShape);
    assert_eq!(
        fault_of(vec![call("function", vec![ident("f"), ident("a")])]),
        FaultKind::FunctionShape
    );
    assert_eq!(
        fault_of(vec![call("function", vec![text("f"), ident("a"), ident("a")])]),
        FaultKind::FunctionShape
    );
    assert_eq!(
        fault_of(vec![call("function", vec![ident("f"), text("a"), ident("a")])]),
        FaultKind::ParameterName
    );
    assert_eq!(
        fault_of(vec![call(
            "function",
            vec![ident("f"), Syntax::Block(vec![ident("a"), text("b")]), ident("a")],
        )]),
        FaultKind::ParameterName
    );
}

#[test]
fn function_binds_in_the_current_scope_and_gives_undefined() {
    let (result, state) = run(vec![call(
        "function",
        vec![ident("f"), Syntax::Block(vec![ident("a")]), ident("a")],
    )]);
    assert_eq!(result.unwrap(), fixed(Value::Undefined));
    assert_eq!(
        state.get(&String::from("f")),
        Some(fixed(Value::Function(vec![String::from("a")], ident("a"))))
    );
}

#[test]
fn an_object_is_called_through_its_call_member() {
    let value = value_of(vec![
        declare(VarType::VarVar, "o", ident("object")),
        binary(binary(ident("o"), Operation::Dot, ident("size")), Operation::Equal(1), ident("3")),
        binary(
            binary(ident("o"), Operation::Dot, ident("call")),
            Operation::Equal(1),
            Syntax::Function(
                vec![String::from("n")],
                Box::new(binary(
                    binary(ident("self"), Operation::Dot, ident("size")),
                    Operation::Mul,
                    ident("n"),
                )),
            ),
        ),
        call("o", vec![ident("5")]),
    ]);
    assert_eq!(value, number(15.0));
}

#[test]
fn what_cannot_be_called_is_not_a_function() {
    assert_eq!(fault_of(vec![call("object", vec![])]), FaultKind::NotAFunction);
    assert_eq!(fault_of(vec![call("true", vec![])]), FaultKind::NotAFunction);
    assert_eq!(fault_of(vec![call("undefined", vec![])]), FaultKind::NotAFunction);
    assert_eq!(
        fault_of(vec![declare(VarType::VarVar, "n", ident("1")), call("n", vec![])]),
        FaultKind::NotAFunction
    );
    assert_eq!(fault_of(vec![call("nowhere", vec![])]), FaultKind::Unbound);
}

#[test]
fn an_object_that_calls_itself_runs_out_of_stack() {
    assert_eq!(
        fault_of(vec![
            declare(VarType::VarVar, "o", ident("object")),
            binary(
                binary(ident("o"), Operation::Dot, ident("call")),
                Operation::Equal(1),
                ident("o"),
            ),
            call("o", vec![]),
        ]),
        FaultKind::StackExhausted
    );
}

#[test]
fn a_function_that_calls_itself_runs_out_of_stack() {
    let (result, state) = run(vec![
        call("function", vec![ident("f"), Syntax::Block(vec![]), call("f", vec![])]),
        call("f", vec![]),
    ]);
    assert_eq!(kind_of(&result.unwrap_err()), FaultKind::StackExhausted);
    assert_eq!(state.frames.len(), 1);
}

#[test]
fn depth_is_needed_for_parts_only() {
    let mut session = Session::new(Ieee);
    let (result, state) = interpret(&ident("1"), &mut session, 0);
    assert_eq!(result.unwrap(), fixed(number(1.0)));
    assert_eq!(state, State::new());
    let (result, _) = interpret(&text("a"), &mut session, 0);
    assert_eq!(result.unwrap(), fixed(Value::String(String::from("a"))));
    let (result, state) = interpret(&Syntax::Block(vec![]), &mut session, 0);
    assert_eq!(result.unwrap(), fixed(Value::Undefined));
    assert_eq!(state, State::new());
    let literal = || Syntax::Function(vec![], Box::new(ident("x")));
    let (result, _) = interpret(&literal(), &mut session, 0);
    assert_eq!(result.unwrap(), fixed(Value::Function(vec![], ident("x"))));
    let sum = || binary(ident("1"), Operation::Add, ident("2"));
    let (result, state) = interpret(&sum(), &mut session, 0);
    assert_eq!(result.unwrap_err(), "stack exhausted");
    assert_eq!(state, State::new());
    let (result, _) = interpret(&sum(), &mut session, 1);
    assert_eq!(result.unwrap(), fixed(number(3.0)));
    let nested = || binary(sum(), Operation::Mul, ident("2"));
    let (result, _) = interpret(&nested(), &mut session, 1);
    assert_eq!(result.unwrap_err(), "stack exhausted");
    let (result, _) = interpret(&nested(), &mut session, 2);
    assert_eq!(result.unwrap(), fixed(number(6.0)));
    for node in [
        Syntax::Negate(Box::new(ident("1"))),
        Syntax::Statement(false, Box::new(ident("1")), 0),
        Syntax::Block(vec![ident("1")]),
        declare(VarType::VarVar, "x", ident("1")),
        call("if", vec![ident("true"), ident("1")]),
    ] {
        let (result, state) = interpret(&node, &mut session, 0);
        assert_eq!(result.unwrap_err(), "stack exhausted");
        assert_eq!(state, State::new());
        let (result, _) = interpret(&node, &mut session, 1);
        assert!(result.is_ok());
    }
}

#[test]
fn only_what_starts_with_a_digit_is_a_numeral() {
    struct Eager;
    impl Host for Eager {
        fn arithmetic(&mut self, _: Arithmetic, left: u64, _: u64) -> u64 {
            left
        }
        fn numeral(&mut self, text: &str) -> Option<u64> {
            text.parse::<f64>().ok().map(f64::to_bits)
        }
        fn format(&mut self, number: u64) -> String {
            f64::from_bits(number).to_string()
        }
        fn parse(&mut self, _: &str) -> Result<Syntax, String> {
            Err(String::from("no front end"))
        }
    }
    let mut session = Session::new(Eager);
    let mut read = |name: &str| interpret(&ident(name), &mut session, 0).0;
    assert_eq!(read("1e3"), Ok(fixed(number(1000.0))));
    assert_eq!(read("0.5"), Ok(fixed(number(0.5))));
    assert_eq!(read("9"), Ok(fixed(number(9.0))));
    assert_eq!(read("inf"), Err(String::from("unbound identifier: inf")));
    assert_eq!(read("nan"), Err(String::from("unbound identifier: nan")));
    assert_eq!(read("infinity"), Err(String::from("unbound identifier: infinity")));
    assert_eq!(read(".5"), Err(String::from("unbound identifier: .5")));
    assert_eq!(read("-1"), Err(String::from("unbound identifier: -1")));
    assert_eq!(read("+1"), Err(String::from("unbound identifier: +1")));
    assert_eq!(read(""), Err(String::from("unbound identifier: ")));
    assert_eq!(read("1x"), Err(String::from("unbound identifier: 1x")));
    assert_eq!(read("\u{661}"), Err(String::from("unbound identifier: \u{661}")));
}

#[test]
fn member_access_by_value() {
    let keyed = |key: Syntax| {
        vec![
            declare(VarType::VarVar, "o", ident("object")),
            binary(binary(ident("o"), Operation::Dot, ident("k")), Operation::Equal(1), ident("7")),
            binary(ident("o"), Operation::Dot, key),
        ]
    };
    assert_eq!(value_of(keyed(text("k"))), number(7.0));
    assert_eq!(fault_of(keyed(text("other"))), FaultKind::MissingMember);
    assert_eq!(fault_of(keyed(Syntax::Negate(Box::new(ident("1"))))), FaultKind::MissingMember);
    assert_eq!(
        fault_of(vec![binary(ident("1"), Operation::Dot, ident("2"))]),
        FaultKind::NotAnObject
    );
    assert_eq!(
        fault_of(vec![binary(text("s"), Operation::Dot, text("k"))]),
        FaultKind::NotAnObject
    );
    assert_eq!(
        fault_of(vec![binary(ident("1"), Operation::Dot, ident("k"))]),
        FaultKind::Unbound
    );
}

#[test]
fn the_arrow_is_reserved() {
    assert_eq!(
        fault_of(vec![binary(ident("1"), Operation::Arrow, ident("2"))]),
        FaultKind::NotImplemented
    );
}

#[test]
fn an_unbound_identifier_is_named_in_the_failure() {
    let (result, _) = run(vec![ident("nowhere")]);
    assert_eq!(result.unwrap_err(), "unbound identifier: nowhere");
}

#[test]
fn a_binding_shadows_a_numeral() {
    let value = value_of(vec![declare(VarType::VarVar, "1", ident("2")), ident("1")]);
    assert_eq!(value, number(2.0));
}

#[test]
fn built_ins_are_values() {
    assert_eq!(value_of(vec![ident("if")]), Value::Keyword(Keyword::If));
    assert_eq!(value_of(vec![ident("delete")]), Value::Keyword(Keyword::Delete));
    assert_eq!(value_of(vec![ident("function")]), Value::Keyword(Keyword::Function));
    assert_eq!(value_of(vec![ident("eval")]), Value::Keyword(Keyword::Eval));
    assert_eq!(value_of(vec![ident("object")]), Value::Object(vec![]));
    let value = value_of(vec![
        declare(VarType::VarVar, "when", ident("if")),
        call("when", vec![ident("true"), text("yes")]),
    ]);
    assert_eq!(value, Value::String(String::from("yes")));
    let value = value_of(vec![
        Syntax::Block(vec![
            declare(VarType::VarVar, "if", ident("1")),
            ident("if"),
        ]),
    ]);
    assert_eq!(value, number(1.0));
}

#[test]
fn addition_joins_texts() {
    let shown = |s: &str| Value::String(String::from(s));
    assert_eq!(value_of(vec![binary(text("a"), Operation::Add, text("b"))]), shown("ab"));
    assert_eq!(value_of(vec![binary(text("a"), Operation::Add, ident("1.5"))]), shown("a1.5"));
    assert_eq!(value_of(vec![binary(ident("2"), Operation::Add, text("b"))]), shown("2b"));
    assert_eq!(value_of(vec![binary(text("a"), Operation::Add, ident("true"))]), shown("atrue"));
    assert_eq!(value_of(vec![binary(text("a"), Operation::Add, ident("maybe"))]), shown("amaybe"));
    assert_eq!(
        value_of(vec![binary(text("a"), Operation::Add, ident("undefined"))]),
        shown("aundefined")
    );
    assert_eq!(value_of(vec![binary(text("a"), Operation::Add, ident("if"))]), shown("aif"));
    assert_eq!(
        value_of(vec![binary(text("a"), Operation::Add, ident("object"))]),
        shown("a[object]")
    );
    assert_eq!(value_of(vec![binary(text("a"), Operation::Sub, text("b"))]), Value::Undefined);
    assert_eq!(value_of(vec![binary(ident("true"), Operation::Add, ident("1"))]), Value::Undefined);
}

#[test]
fn interpolation_splices_display_forms() {
    let node = Syntax::String(vec![
        StringSegment::String(String::from("x is ")),
        StringSegment::Ident(String::from("x")),
        StringSegment::String(String::from(", and ")),
        StringSegment::Ident(String::from("maybe")),
        StringSegment::Ident(String::from("2")),
    ]);
    let (result, _) = run(vec![declare(VarType::VarVar, "x", ident("1.5")), node]);
    assert_eq!(result.unwrap(), fixed(Value::String(String::from("x is 1.5, and maybe2"))));
    let (result, _) = run(vec![Syntax::String(vec![])]);
    assert_eq!(result.unwrap(), fixed(Value::String(String::new())));
    assert_eq!(
        fault_of(vec![Syntax::String(vec![StringSegment::Ident(String::from("nowhere"))])]),
        FaultKind::Unbound
    );
}

#[test]
fn negation_flips_the_sign() {
    assert_eq!(value_of(vec![Syntax::Negate(Box::new(ident("3")))]), number(-3.0));
    assert_eq!(
        value_of(vec![Syntax::Negate(Box::new(Syntax::Negate(Box::new(ident("3")))))]),
        number(3.0)
    );
    assert_eq!(value_of(vec![Syntax::Negate(Box::new(ident("0")))]), number(-0.0));
    assert_eq!(value_of(vec![Syntax::Negate(Box::new(text("a")))]), Value::Undefined);
    assert_eq!(value_of(vec![Syntax::Negate(Box::new(ident("true")))]), Value::Undefined);
}

#[test]
fn comparisons_follow_the_total_order() {
    let holds = |lhs: Syntax, op: Operation, rhs: Syntax| {
        value_of(vec![binary(lhs, op, rhs)]) == Value::Boolean(Boolean::True)
    };
    assert!(holds(ident("1"), Operation::Lt, ident("2")));
    assert!(!holds(ident("2"), Operation::Lt, ident("2")));
    assert!(holds(ident("2"), Operation::Le, ident("2")));
    assert!(holds(ident("3"), Operation::Gt, ident("2")));
    assert!(!holds(ident("2"), Operation::Gt, ident("2")));
    assert!(holds(ident("2"), Operation::Ge, ident("2")));
    assert!(holds(Syntax::Negate(Box::new(ident("5"))), Operation::Lt, ident("1")));
    assert!(holds(
        Syntax::Negate(Box::new(ident("5"))),
        Operation::Lt,
        Syntax::Negate(Box::new(ident("4")))
    ));
    assert!(holds(Syntax::Negate(Box::new(ident("0"))), Operation::Lt, ident("0")));
    assert!(holds(text("abc"), Operation::Lt, text("abd")));
    assert!(holds(text("ab"), Operation::Lt, text("abc")));
    assert!(holds(text(""), Operation::Lt, text("a")));
    assert!(!holds(text("b"), Operation::Lt, text("abc")));
    assert!(holds(text("b"), Operation::Gt, text("abc")));
    assert!(holds(text("abc"), Operation::Le, text("abc")));
    assert!(holds(text("abc"), Operation::Ge, text("abc")));
    for op in [Operation::Lt, Operation::Le, Operation::Gt, Operation::Ge] {
        assert_eq!(
            value_of(vec![binary(ident("1"), op, text("1"))]),
            Value::Boolean(Boolean::False)
        );
        assert_eq!(
            value_of(vec![binary(ident("true"), op, ident("true"))]),
            Value::Boolean(Boolean::False)
        );
    }
}

#[test]
fn and_and_or_are_three_valued() {
    let truth = |name: &str| match name {
        "true" => Boolean::True,
        "false" => Boolean::False,
        _ => Boolean::Maybe,
    };
    let names = ["true", "false", "maybe"];
    for a in names {
        for b in names {
            let both = match (truth(a), truth(b)) {
                (Boolean::False, _) | (_, Boolean::False) => Boolean::False,
                (Boolean::True, Boolean::True) => Boolean::True,
                _ => Boolean::Maybe,
            };
            let either = match (truth(a), truth(b)) {
                (Boolean::True, _) | (_, Boolean::True) => Boolean::True,
                (Boolean::False, Boolean::False) => Boolean::False,
                _ => Boolean::Maybe,
            };
            assert_eq!(
                value_of(vec![binary(ident(a), Operation::And, ident(b))]),
                Value::Boolean(both)
            );
            assert_eq!(
                value_of(vec![binary(ident(a), Operation::Or, ident(b))]),
                Value::Boolean(either)
            );
        }
    }
    assert_eq!(
        value_of(vec![binary(ident("1"), Operation::And, text(""))]),
        Value::Boolean(Boolean::False)
    );
    assert_eq!(
        value_of(vec![binary(ident("0"), Operation::Or, text("a"))]),
        Value::Boolean(Boolean::True)
    );
}

#[test]
fn plain_statement_gives_undefined() {
    let (result, state) = run(vec![
        declare(VarType::VarVar, "x", ident("1")),
        Syntax::Statement(
            false,
            Box::new(binary(ident("x"), Operation::Equal(1), ident("2"))),
            3,
        ),
    ]);
    assert_eq!(result.unwrap(), fixed(Value::Undefined));
    assert_eq!(state.cells[0], number(2.0));
    assert!(state.output.is_empty());
    assert_eq!(
        fault_of(vec![Syntax::Statement(false, Box::new(ident("nowhere")), 0)]),
        FaultKind::Unbound
    );
}

#[test]
fn printing_statement_emits_by_level() {
    let printed = |level: u8| {
        run(vec![
            declare(VarType::VarVar, "x", ident("1.5")),
            Syntax::Statement(true, Box::new(ident("x")), level),
        ])
    };
    for level in [0, 1] {
        let (result, state) = printed(level);
        assert_eq!(result.unwrap(), Pointer::VarVar(0));
        assert_eq!(state.output, vec![Emission::Text(String::from("1.5"))]);
    }
    let (result, state) = printed(2);
    assert_eq!(result.unwrap(), Pointer::VarVar(0));
    assert_eq!(state.output, vec![Emission::Handle(Pointer::VarVar(0), number(1.5))]);
    for level in [3, 4, 255] {
        let (result, state) = printed(level);
        assert_eq!(result.unwrap(), Pointer::VarVar(0));
        assert_eq!(
            state.output,
            vec![Emission::Node(ident("x")), Emission::Handle(Pointer::VarVar(0), number(1.5))]
        );
    }
}

#[test]
fn emission_does_not_change_evaluation() {
    let quiet = value_of(vec![
        declare(VarType::VarVar, "x", ident("1")),
        binary(ident("x"), Operation::AddEq, ident("1")),
        binary(ident("x"), Operation::Mul, ident("3")),
    ]);
    let loud = value_of(vec![
        Syntax::Statement(true, Box::new(declare(VarType::VarVar, "x", ident("1"))), 3),
        Syntax::Statement(true, Box::new(binary(ident("x"), Operation::AddEq, ident("1"))), 1),
        Syntax::Statement(true, Box::new(binary(ident("x"), Operation::Mul, ident("3"))), 2),
    ]);
    assert_eq!(quiet, number(6.0));
    assert_eq!(loud, quiet);
}

#[test]
fn a_failing_printing_statement_emits_only_the_node() {
    let (result, state) = run(vec![Syntax::Statement(true, Box::new(ident("nowhere")), 3)]);
    assert_eq!(kind_of(&result.unwrap_err()), FaultKind::Unbound);
    assert_eq!(state.output, vec![Emission::Node(ident("nowhere"))]);
}

#[test]
fn shared_handles_alias_and_snapshots_do_not() {
    let value = value_of(vec![
        declare(VarType::VarVar, "a", ident("1")),
        declare(VarType::VarVar, "b", ident("a")),
        binary(ident("b"), Operation::Equal(1), ident("2")),
        ident("a"),
    ]);
    assert_eq!(value, number(2.0));
    let value = value_of(vec![
        declare(VarType::VarVar, "a", ident("1")),
        declare(VarType::ConstConst, "b", ident("a")),
        binary(ident("a"), Operation::Equal(1), ident("2")),
        ident("b"),
    ]);
    assert_eq!(value, number(1.0));
    let value = value_of(vec![
        declare(VarType::ConstVar, "a", ident("1")),
        declare(VarType::ConstVar, "b", ident("a")),
        binary(ident("b"), Operation::AddEq, ident("2")),
        ident("a"),
    ]);
    assert_eq!(value, number(3.0));
    let value = value_of(vec![
        declare(VarType::ConstConst, "a", ident("1")),
        declare(VarType::VarVar, "b", ident("a")),
        binary(ident("b"), Operation::Equal(1), ident("2")),
        ident("a"),
    ]);
    assert_eq!(value, number(1.0));
}

#[test]
fn objects_copied_by_value_share_their_members() {
    let value = value_of(vec![
        declare(VarType::VarVar, "a", ident("object")),
        binary(binary(ident("a"), Operation::Dot, ident("k")), Operation::Equal(1), ident("1")),
        declare(VarType::ConstConst, "b", ident("a")),
        binary(binary(ident("a"), Operation::Dot, ident("k")), Operation::Equal(1), ident("2")),
        binary(ident("b"), Operation::Dot, ident("k")),
    ]);
    assert_eq!(value, number(2.0));
    let (result, state) = run(vec![
        declare(VarType::VarVar, "a", ident("object")),
        declare(VarType::ConstConst, "b", ident("a")),
        binary(binary(ident("a"), Operation::Dot, ident("k")), Operation::Equal(1), ident("2")),
        ident("b"),
    ]);
    assert_eq!(result.unwrap().clone_inner(&state), Value::Object(vec![]));
    assert_eq!(
        state.cells[0],
        Value::Object(vec![Member {
            key: Value::String(String::from("k")),
            slot: Pointer::ConstVar(1),
        }])
    );
}

#[test]
fn operation_and_invocation_can_be_called_directly() {
    let mut session = Session::new(Ieee);
    let mut state = State::new();
    let sum = interpret_operation(
        &ident("1"),
        Operation::Add,
        &ident("2"),
        &mut state,
        &mut session,
        LIMIT,
    );
    assert_eq!(sum.unwrap(), fixed(number(3.0)));
    let callee = fixed(Value::Function(
        vec![String::from("a"), String::from("b")],
        binary(ident("a"), Operation::Mul, ident("b")),
    ));
    let product = interpret_function(
        &callee,
        &vec![ident("6"), ident("7")],
        &mut state,
        &mut session,
        LIMIT,
    );
    assert_eq!(product.unwrap(), fixed(number(42.0)));
    assert_eq!(state, State::new());
    let chosen = interpret_function(
        &fixed(Value::Keyword(Keyword::If)),
        &vec![ident("maybe"), ident("1"), ident("2"), ident("3")],
        &mut state,
        &mut session,
        LIMIT,
    );
    assert_eq!(chosen.unwrap(), fixed(number(3.0)));
}

#[test]
fn the_session_gives_the_host_back() {
    struct Counting(u32);
    impl Host for Counting {
        fn arithmetic(&mut self, _: Arithmetic, left: u64, right: u64) -> u64 {
            self.0 += 1;
            (f64::from_bits(left) + f64::from_bits(right)).to_bits()
        }
        fn numeral(&mut self, text: &str) -> Option<u64> {
            text.parse::<f64>().ok().map(f64::to_bits)
        }
        fn format(&mut self, number: u64) -> String {
            f64::from_bits(number).to_string()
        }
        fn parse(&mut self, _: &str) -> Result<Syntax, String> {
            Err(String::from("no front end"))
        }
    }
    let mut session = Session::new(Counting(0));
    let tree = binary(binary(ident("1"), Operation::Add, ident("2")), Operation::Add, ident("3"));
    let (result, _) = interpret(&tree, &mut session, LIMIT);
    assert_eq!(result.unwrap(), fixed(number(6.0)));
    assert_eq!(session.into_host().0, 2);
}

#[test]
fn failure_texts() {
    let message = |nodes: Vec<Syntax>| run(nodes).0.unwrap_err();
    assert_eq!(
        message(vec![call("if", vec![])]),
        "If statement requires two arguments: condition and body"
    );
    assert_eq!(
        message(vec![call("if", vec![ident("true")])]),
        "If statement requires two arguments: condition and body"
    );
    let args = || vec![ident("f"), ident("a")];
    assert_eq!(
        message(vec![call("function", args())]),
        format!("Invalid arguments for `function`: `{:?}`; expected name, args, and body", args())
    );
    let args = || vec![text("f"), ident("a"), ident("b")];
    assert_eq!(
        message(vec![call("function", args())]),
        format!("Invalid arguments for `function`: `{:?}`; expected name, args, and body", args())
    );
    assert_eq!(
        message(vec![call(
            "function",
            vec![ident("f"), Syntax::Block(vec![ident("a"), text("b"), text("c")]), ident("a")],
        )]),
        format!("Invalid parameter name: `{:?}`", text("b"))
    );
    assert_eq!(
        message(vec![call("function", vec![ident("f"), text("p"), ident("a")])]),
        format!("Invalid parameter name: `{:?}`", text("p"))
    );
    let args = || vec![text("1"), text("2")];
    assert_eq!(
        message(vec![call("eval", args())]),
        format!("You can only `eval` one thing at a time; got `{:?}`", args())
    );
    assert_eq!(
        message(vec![call("eval", vec![])]),
        "You can only `eval` one thing at a time; got `[]`"
    );
    assert_eq!(
        message(vec![call("true", vec![])]),
        format!("`{:?}` is not a function", Value::Boolean(Boolean::True))
    );
    assert_eq!(message(vec![call("undefined", vec![])]), "`Undefined` is not a function");
    assert_eq!(message(vec![call("object", vec![])]), "`Object([])` is not a function");
}
