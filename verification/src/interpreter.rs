//! The evaluator: a recursive walk over the syntax tree.
//!
//! Each function here computes what the function of the same role in
//! `semantics` describes, for every oracle that explains what the host said
//! during the call.

use vstd::prelude::*;
use vstd::string::StringExecFns;
use crate::fault::{FaultKind, detailed, plain};
use crate::structure::{
    node_structure,
    structure_of_node,
    structure_of_nodes,
    structure_of_value,
};
use crate::host::{Arithmetic, Host, Oracle, Session};
use crate::pointer::{arithmetic, display, member, vivify};
use crate::record::{
    heard_after_application,
    heard_after_applied,
    heard_after_arguments,
    heard_after_conditional,
    heard_after_evaluation,
    heard_after_interpolation,
    heard_after_invocation,
    heard_after_operation,
    heard_after_reentry,
    heard_after_resolve,
    heard_after_sequence,
    heard_after_statement,
};
use crate::semantics::{
    Gathered,
    Outcome,
    application,
    applied,
    arguments,
    arithmetic_of,
    assigns,
    block,
    bound_all,
    conditional,
    declaration,
    definition,
    deletion,
    evaluation,
    held,
    interpolation,
    invocation,
    negated_outcome,
    operation,
    names_from,
    parameter_names,
    reentry,
    resolve,
    satisfies,
    sequence,
    statement,
};
use crate::state::{Emission, State, StateModel};
use crate::syntax::{
    Operation,
    StringSegment,
    Syntax,
    SyntaxModel,
    VarType,
    duplicate_names,
    name_models,
    segment_models,
    syntax_models,
};
use crate::value::{
    Boolean,
    Keyword,
    Order,
    Pointer,
    PointerModel,
    Value,
    find_member,
    starts_with_digit,
};

verus! {

/// The model of what an evaluation hands back.
pub open spec fn result_model(r: Result<Pointer, String>) -> Result<PointerModel, Seq<char>> {
    match r {
        Ok(handle) => Ok(handle@),
        Err(text) => Err(text@),
    }
}

/// What an evaluation handed back and the state it left, as an outcome.
pub open spec fn outcome_of(r: Result<Pointer, String>, state: State) -> Outcome {
    Outcome { result: result_model(r), state: state@ }
}

/// The models of a list of handles.
pub open spec fn pointer_models(handles: Vec<Pointer>) -> Seq<PointerModel> {
    Seq::new(handles@.len(), |i: int| handles@[i]@)
}

/// What an identifier stands for.
pub fn look_up<H: Host>(name: &String, state: &State, session: &mut Session<H>) -> (r: Result<
    Pointer,
    String,
>)
    ensures
        forall|o: Oracle| #[trigger]
            o.explains(final(session).heard()) ==> o.explains(old(session).heard()) && final(session).heard()
                == heard_after_resolve(o, state@, name@, old(session).heard())
                && result_model(r) == resolve(o, state@, name@),
{
    match state.get(name) {
        Some(handle) => Ok(handle),
        None => {
            if starts_with_digit(name.as_str()) {
                match session.numeral(name.as_str()) {
                    Some(bits) => Ok(Pointer::ConstConst(Value::Number(bits))),
                    None => Err(detailed(FaultKind::Unbound, name.clone())),
                }
            } else {
                Err(detailed(FaultKind::Unbound, name.clone()))
            }
        },
    }
}

/// The arithmetic that an operator asks for, if it asks for any.
pub fn arithmetic_kind(op: Operation) -> (r: Option<Arithmetic>)
    ensures
        r == arithmetic_of(op),
{
    match op {
        Operation::Add | Operation::AddEq => Some(Arithmetic::Add),
        Operation::Sub | Operation::SubEq => Some(Arithmetic::Sub),
        Operation::Mul | Operation::MulEq => Some(Arithmetic::Mul),
        Operation::Div | Operation::DivEq => Some(Arithmetic::Div),
        Operation::Mod | Operation::ModEq => Some(Arithmetic::Rem),
        _ => None,
    }
}

/// Whether an ordering satisfies a comparison operator.
pub fn satisfied(op: Operation, order: Option<Order>) -> (r: bool)
    ensures
        r == satisfies(op, order),
{
    match (op, order) {
        (Operation::Lt, Some(Order::Less)) => true,
        (Operation::Le, Some(Order::Less)) => true,
        (Operation::Le, Some(Order::Equal)) => true,
        (Operation::Gt, Some(Order::Greater)) => true,
        (Operation::Ge, Some(Order::Greater)) => true,
        (Operation::Ge, Some(Order::Equal)) => true,
        _ => false,
    }
}

/// Whether a handle refers to an object.
pub fn refers_to_object(handle: &Pointer, state: &State) -> (r: bool)
    ensures
        r == (state@.target(handle@) is Object),
{
    match handle {
        Pointer::ConstConst(value) | Pointer::VarConst(value) => match value {
            Value::Object(_) => true,
            _ => false,
        },
        Pointer::ConstVar(cell) | Pointer::VarVar(cell) => {
            if *cell < state.cells.len() {
                match &state.cells[*cell] {
                    Value::Object(_) => true,
                    _ => false,
                }
            } else {
                false
            }
        },
    }
}

/// Applies a binary operator to two handles.
pub fn apply_operation<H: Host>(
    op: Operation,
    left: Pointer,
    right: Pointer,
    state: &mut State,
    session: &mut Session<H>,
) -> (r: Result<Pointer, String>)
    ensures
        forall|o: Oracle| #[trigger]
            o.explains(final(session).heard()) ==> o.explains(old(session).heard()) && final(session).heard()
                == heard_after_applied(o, op, left@, right@, old(state)@, old(session).heard()) && outcome_of(
                r,
                *final(state),
            ) == applied(o, op, left@, right@, old(state)@),
{
    match op {
        Operation::Equal(signs) => {
            if signs == 0 {
                Err(plain(FaultKind::MalformedOperator))
            } else if signs == 1 {
                let value = right.clone_inner(state);
                match left.assign(value, state) {
                    Ok(_) => Ok(right),
                    Err(fault) => Err(fault),
                }
            } else {
                Ok(left.eq(&right, signs - 1, state))
            }
        },
        Operation::Add | Operation::Sub | Operation::Mul | Operation::Div | Operation::Mod => {
            match arithmetic_kind(op) {
                Some(kind) => Ok(left.combine(kind, &right, state, session)),
                None => Err(plain(FaultKind::NotImplemented)),
            }
        },
        Operation::AddEq
        | Operation::SubEq
        | Operation::MulEq
        | Operation::DivEq
        | Operation::ModEq => {
            match arithmetic_kind(op) {
                Some(kind) => {
                    let a = left.clone_inner(state);
                    let b = right.clone_inner(state);
                    let value = arithmetic(kind, &a, &b, session);
                    left.assign(value, state)
                },
                None => Err(plain(FaultKind::NotImplemented)),
            }
        },
        Operation::Dot => {
            let a = left.clone_inner(state);
            let b = right.clone_inner(state);
            member(&a, &b)
        },
        Operation::And => {
            let a = left.clone_inner(state);
            let b = right.clone_inner(state);
            Ok(Pointer::truth(a.truth().and(b.truth())))
        },
        Operation::Or => {
            let a = left.clone_inner(state);
            let b = right.clone_inner(state);
            Ok(Pointer::truth(a.truth().or(b.truth())))
        },
        Operation::Lt | Operation::Le | Operation::Gt | Operation::Ge => {
            let a = left.clone_inner(state);
            let b = right.clone_inner(state);
            Ok(Pointer::truth(Boolean::from_bool(satisfied(op, a.order(&b)))))
        },
        Operation::Arrow => Err(plain(FaultKind::NotImplemented)),
    }
}

/// The text of an interpolated string.
pub fn interpolate<H: Host>(
    segments: &Vec<StringSegment>,
    state: &State,
    session: &mut Session<H>,
) -> (r: Result<String, String>)
    ensures
        forall|o: Oracle| #[trigger]
            o.explains(final(session).heard()) ==> o.explains(old(session).heard()) && final(session).heard()
                == heard_after_interpolation(o, segment_models(*segments), 0, state@, old(session).heard()) && match r {
                Ok(text) => interpolation(o, segment_models(*segments), 0, Seq::empty(), state@)
                    == Ok::<Seq<char>, Seq<char>>(text@),
                Err(fault) => interpolation(o, segment_models(*segments), 0, Seq::empty(), state@)
                    == Err::<Seq<char>, Seq<char>>(fault@),
            },
{
    let ghost models = segment_models(*segments);
    let ghost heard = session.heard();
    let mut text = String::new();
    let mut i: usize = 0;
    while i < segments.len()
        invariant
            i <= segments@.len(),
            models == segment_models(*segments),
            heard == old(session).heard(),
            forall|o: Oracle| #[trigger]
                o.explains(session.heard()) ==> o.explains(heard) && interpolation(
                    o,
                    models,
                    0,
                    Seq::empty(),
                    state@,
                ) == interpolation(o, models, i as int, text@, state@)
                    && heard_after_interpolation(o, models, 0, state@, heard)
                    == heard_after_interpolation(o, models, i as int, state@, session.heard()),
        decreases segments@.len() - i,
    {
        assert(models[i as int] == segments@[i as int]@);
        match &segments[i] {
            StringSegment::String(literal) => {
                text.append(literal.as_str());
            },
            StringSegment::Ident(name) => {
                match look_up(name, state, session) {
                    Ok(handle) => {
                        let value = handle.clone_inner(state);
                        let shown = display(&value, session);
                        text.append(shown.as_str());
                    },
                    Err(fault) => {
                        return Err(fault);
                    },
                }
            },
        }
        i += 1;
    }
    Ok(text)
}

/// The names that a parameter list declares, or the structural form of its
/// first node that is not an identifier.
pub fn parameter_list(node: &Syntax) -> (r: Result<Vec<String>, String>)
    ensures
        match r {
            Ok(names) => parameter_names(node@) == Ok::<Seq<Seq<char>>, SyntaxModel>(
                name_models(names),
            ),
            Err(text) => parameter_names(node@) is Err && text@ == node_structure(
                parameter_names(node@)->Err_0,
            ),
        },
{
    match node {
        Syntax::Block(items) => {
            let ghost models = syntax_models(*items);
            let mut names: Vec<String> = Vec::new();
            let mut i: usize = 0;
            assert(name_models(names) =~= Seq::empty());
            while i < items.len()
                invariant
                    i <= items@.len(),
                    models == syntax_models(*items),
                    node@ == SyntaxModel::Block(models),
                    names_from(models, 0, Seq::empty()) == names_from(
                        models,
                        i as int,
                        name_models(names),
                    ),
                decreases items@.len() - i,
            {
                assert(models[i as int] == items@[i as int]@);
                let ghost before = name_models(names);
                match &items[i] {
                    Syntax::Ident(name) => {
                        names.push(name.clone());
                        assert(name_models(names) =~= before.push(name@));
                    },
                    other => {
                        return Err(structure_of_node(other));
                    },
                }
                i += 1;
            }
            Ok(names)
        },
        Syntax::Ident(name) => {
            let mut names: Vec<String> = Vec::new();
            names.push(name.clone());
            assert(name_models(names) =~= seq![name@]);
            Ok(names)
        },
        other => Err(structure_of_node(other)),
    }
}

/// The built-in `function`.
pub fn define(args: &Vec<Syntax>, state: &mut State) -> (r: Result<Pointer, String>)
    ensures
        outcome_of(r, *final(state)) == definition(syntax_models(*args), old(state)@),
{
    if args.len() != 3 {
        return Err(detailed(FaultKind::FunctionShape, structure_of_nodes(args)));
    }
    assert(syntax_models(*args)[0] == args@[0]@);
    assert(syntax_models(*args)[1] == args@[1]@);
    assert(syntax_models(*args)[2] == args@[2]@);
    match &args[0] {
        Syntax::Ident(name) => match parameter_list(&args[1]) {
            Ok(names) => {
                let made = Value::Function(names, args[2].duplicate());
                state.insert(name.clone(), Pointer::ConstConst(made));
                Ok(Pointer::undefined())
            },
            Err(shown) => Err(detailed(FaultKind::ParameterName, shown)),
        },
        _ => Err(detailed(FaultKind::FunctionShape, structure_of_nodes(args))),
    }
}

/// The built-in `delete`.
pub fn delete(args: &Vec<Syntax>, state: &mut State) -> (r: Result<Pointer, String>)
    ensures
        outcome_of(r, *final(state)) == deletion(syntax_models(*args), old(state)@),
{
    if args.len() == 1 {
        assert(syntax_models(*args)[0] == args@[0]@);
        match &args[0] {
            Syntax::Ident(name) => {
                state.delete(name);
            },
            _ => {},
        }
    }
    Ok(Pointer::undefined())
}

/// Binds each parameter, in order, to the handle in its place.
pub fn bind_all(params: &Vec<String>, handles: &Vec<Pointer>, state: &mut State)
    ensures
        final(state)@ == bound_all(old(state)@, name_models(*params), pointer_models(*handles), 0),
{
    let ghost names = name_models(*params);
    let ghost models = pointer_models(*handles);
    let ghost start = state@;
    let mut i: usize = 0;
    while i < params.len() && i < handles.len()
        invariant
            i <= params@.len(),
            i <= handles@.len(),
            names == name_models(*params),
            models == pointer_models(*handles),
            bound_all(start, names, models, 0) == bound_all(state@, names, models, i as int),
        decreases params@.len() - i,
    {
        state.insert(params[i].clone(), handles[i].duplicate());
        i += 1;
    }
}

/// Evaluates `src` in `state`, nesting at most `depth` levels deep.
pub fn inner_interpret<H: Host>(
    src: &Syntax,
    state: &mut State,
    session: &mut Session<H>,
    depth: usize,
) -> (r: Result<Pointer, String>)
    ensures
        forall|o: Oracle| #[trigger]
            o.explains(final(session).heard()) ==> o.explains(old(session).heard()) && final(session).heard()
                == heard_after_evaluation(o, src@, old(state)@, old(session).heard(), depth as nat) && outcome_of(
                r,
                *final(state),
            ) == evaluation(o, src@, old(state)@, depth as nat),
    decreases depth, 0int, 0int,
{
    match src {
        Syntax::String(segments) => {
            return match interpolate(segments, state, session) {
                Ok(text) => Ok(Pointer::ConstConst(Value::String(text))),
                Err(fault) => Err(fault),
            };
        },
        Syntax::Ident(name) => {
            return look_up(name, state, session);
        },
        Syntax::Function(params, body) => {
            return Ok(
                Pointer::ConstConst(Value::Function(duplicate_names(params), body.duplicate())),
            );
        },
        Syntax::Block(items) => {
            if items.len() == 0 {
                assert(syntax_models(*items).len() == 0);
                return Ok(Pointer::undefined());
            }
        },
        _ => {},
    }
    if depth == 0 {
        return Err(plain(FaultKind::StackExhausted));
    }
    let d = depth - 1;
    match src {
        Syntax::Statement(printing, content, level) => interpret_statement(
            *printing,
            content,
            *level,
            state,
            session,
            d,
        ),
        Syntax::Negate(content) => interpret_negation(content, state, session, d),
        Syntax::Operation(lhs, op, rhs) => interpret_operation(lhs, *op, rhs, state, session, d),
        Syntax::Block(items) => interpret_block(items, state, session, d),
        Syntax::Declare(kind, name, value) => interpret_declaration(
            *kind,
            name,
            value,
            state,
            session,
            d,
        ),
        Syntax::Call(name, args) => match look_up(name, state, session) {
            Ok(callee) => interpret_function(&callee, args, state, session, d),
            Err(fault) => Err(fault),
        },
        _ => Err(plain(FaultKind::StackExhausted)),
    }
}

/// Evaluates a statement.
pub fn interpret_statement<H: Host>(
    printing: bool,
    content: &Syntax,
    level: u8,
    state: &mut State,
    session: &mut Session<H>,
    d: usize,
) -> (r: Result<Pointer, String>)
    ensures
        forall|o: Oracle| #[trigger]
            o.explains(final(session).heard()) ==> o.explains(old(session).heard()) && final(session).heard()
                == heard_after_statement(
                o,
                printing,
                content@,
                level,
                old(state)@,
                old(session).heard(),
                d as nat,
            ) && outcome_of(
                r,
                *final(state),
            ) == statement(o, printing, content@, level, old(state)@, d as nat),
    decreases d, 1int, 0int,
{
    if !printing {
        return match inner_interpret(content, state, session, d) {
            Ok(_) => Ok(Pointer::undefined()),
            Err(fault) => Err(fault),
        };
    }
    if level >= 3 {
        state.emit(Emission::Node(content.duplicate()));
    }
    match inner_interpret(content, state, session, d) {
        Ok(handle) => {
            let value = handle.clone_inner(state);
            if level >= 2 {
                state.emit(Emission::Handle(handle.duplicate(), value));
            } else {
                let text = display(&value, session);
                state.emit(Emission::Text(text));
            }
            Ok(handle)
        },
        Err(fault) => Err(fault),
    }
}

/// Evaluates a negation.
pub fn interpret_negation<H: Host>(
    content: &Syntax,
    state: &mut State,
    session: &mut Session<H>,
    d: usize,
) -> (r: Result<Pointer, String>)
    ensures
        forall|o: Oracle| #[trigger]
            o.explains(final(session).heard()) ==> o.explains(old(session).heard()) && final(session).heard()
                == heard_after_evaluation(o, content@, old(state)@, old(session).heard(), d as nat) && outcome_of(
                r,
                *final(state),
            ) == negated_outcome(o, content@, old(state)@, d as nat),
    decreases d, 1int, 0int,
{
    match inner_interpret(content, state, session, d) {
        Ok(handle) => {
            let value = handle.clone_inner(state);
            Ok(Pointer::ConstConst(value.negation()))
        },
        Err(fault) => Err(fault),
    }
}

/// Evaluates a declaration.
pub fn interpret_declaration<H: Host>(
    kind: VarType,
    name: &String,
    value: &Syntax,
    state: &mut State,
    session: &mut Session<H>,
    d: usize,
) -> (r: Result<Pointer, String>)
    ensures
        forall|o: Oracle| #[trigger]
            o.explains(final(session).heard()) ==> o.explains(old(session).heard()) && final(session).heard()
                == heard_after_evaluation(o, value@, old(state)@, old(session).heard(), d as nat) && outcome_of(
                r,
                *final(state),
            ) == declaration(o, kind, name@, value@, old(state)@, d as nat),
    decreases d, 1int, 0int,
{
    match inner_interpret(value, state, session, d) {
        Ok(handle) => {
            let made = handle.convert(kind, state);
            state.insert(name.clone(), made);
            Ok(Pointer::undefined())
        },
        Err(fault) => Err(fault),
    }
}

/// Evaluates a block.
pub fn interpret_block<H: Host>(
    items: &Vec<Syntax>,
    state: &mut State,
    session: &mut Session<H>,
    d: usize,
) -> (r: Result<Pointer, String>)
    ensures
        forall|o: Oracle| #[trigger]
            o.explains(final(session).heard()) ==> o.explains(old(session).heard()) && final(session).heard()
                == heard_after_sequence(
                o,
                syntax_models(*items),
                0,
                old(state)@.entered(),
                old(session).heard(),
                d as nat,
            ) && outcome_of(
                r,
                *final(state),
            ) == block(o, syntax_models(*items), old(state)@, d as nat),
    decreases d, 2int, 0int,
{
    let ghost models = syntax_models(*items);
    let ghost heard = session.heard();
    state.enter();
    let ghost entered = state@;
    let n = items.len();
    if n == 0 {
        state.leave();
        return Ok(Pointer::undefined());
    }
    let mut i: usize = 0;
    loop
        invariant
            i < n,
            n == items@.len(),
            models == syntax_models(*items),
            heard == old(session).heard(),
            entered == old(state)@.entered(),
            forall|o: Oracle| #[trigger]
                o.explains(session.heard()) ==> o.explains(heard) && sequence(
                    o,
                    models,
                    0,
                    entered,
                    d as nat,
                ) == sequence(o, models, i as int, state@, d as nat) && heard_after_sequence(
                    o,
                    models,
                    0,
                    entered,
                    heard,
                    d as nat,
                ) == heard_after_sequence(o, models, i as int, state@, session.heard(), d as nat),
        decreases n - i,
    {
        assert(models[i as int] == items@[i as int]@);
        let r = inner_interpret(&items[i], state, session, d);
        let stop = match &r {
            Ok(_) => i + 1 == n,
            Err(_) => true,
        };
        if stop {
            state.leave();
            return r;
        }
        i += 1;
    }
}

/// Whether an operator assigns through its left handle.
pub fn assigning(op: Operation) -> (r: bool)
    ensures
        r == assigns(op),
{
    match op {
        Operation::Equal(signs) => signs == 1,
        Operation::AddEq
        | Operation::SubEq
        | Operation::MulEq
        | Operation::DivEq
        | Operation::ModEq => true,
        _ => false,
    }
}

/// Applies a binary operator to the handles of its two operands and tells
/// the holder of the left handle of an assignment.
pub fn settle_operation<H: Host>(
    lhs: &Syntax,
    op: Operation,
    left: Pointer,
    right: Pointer,
    state: &mut State,
    session: &mut Session<H>,
) -> (r: Result<Pointer, String>)
    ensures
        forall|o: Oracle| #[trigger]
            o.explains(final(session).heard()) ==> o.explains(old(session).heard())
                && final(session).heard() == heard_after_applied(
                o,
                op,
                left@,
                right@,
                old(state)@,
                old(session).heard(),
            ) && outcome_of(r, *final(state)) == held(o, lhs@, op, left@, right@, old(state)@),
{
    let held_by = match (lhs, &left) {
        (Syntax::Ident(name), Pointer::VarConst(_)) => {
            if assigning(op) {
                match state.get(name) {
                    Some(found) => {
                        if found.same(&left) {
                            Some(name)
                        } else {
                            None
                        }
                    },
                    None => None,
                }
            } else {
                None
            }
        },
        _ => None,
    };
    match held_by {
        Some(name) => {
            let a = left.clone_inner(state);
            let b = right.clone_inner(state);
            match arithmetic_kind(op) {
                Some(kind) => {
                    let value = arithmetic(kind, &a, &b, session);
                    state.rebind(name, Pointer::VarConst(value.duplicate()));
                    Ok(Pointer::VarConst(value))
                },
                None => {
                    state.rebind(name, Pointer::VarConst(b));
                    Ok(right)
                },
            }
        },
        None => apply_operation(op, left, right, state, session),
    }
}

/// Evaluates a binary operation.
pub fn interpret_operation<H: Host>(
    lhs: &Syntax,
    op: Operation,
    rhs: &Syntax,
    state: &mut State,
    session: &mut Session<H>,
    d: usize,
) -> (r: Result<Pointer, String>)
    ensures
        forall|o: Oracle| #[trigger]
            o.explains(final(session).heard()) ==> o.explains(old(session).heard()) && final(session).heard()
                == heard_after_operation(o, lhs@, op, rhs@, old(state)@, old(session).heard(), d as nat) && outcome_of(
                r,
                *final(state),
            ) == operation(o, lhs@, op, rhs@, old(state)@, d as nat),
    decreases d, 1int, 0int,
{
    let left = match inner_interpret(lhs, state, session, d) {
        Ok(handle) => handle,
        Err(fault) => {
            return Err(fault);
        },
    };
    if refers_to_object(&left, state) {
        if let (Operation::Dot, Syntax::Ident(name)) = (op, rhs) {
            return Ok(vivify(&left, name, state));
        }
    }
    let right = match inner_interpret(rhs, state, session, d) {
        Ok(handle) => handle,
        Err(fault) => {
            return Err(fault);
        },
    };
    settle_operation(lhs, op, left, right, state, session)
}

/// The built-in `if`.
pub fn interpret_conditional<H: Host>(
    args: &Vec<Syntax>,
    state: &mut State,
    session: &mut Session<H>,
    d: usize,
) -> (r: Result<Pointer, String>)
    ensures
        forall|o: Oracle| #[trigger]
            o.explains(final(session).heard()) ==> o.explains(old(session).heard()) && final(session).heard()
                == heard_after_conditional(o, syntax_models(*args), old(state)@, old(session).heard(), d as nat) && outcome_of(
                r,
                *final(state),
            ) == conditional(o, syntax_models(*args), old(state)@, d as nat),
    decreases d, 1int, 0int,
{
    let ghost models = syntax_models(*args);
    if args.len() < 2 {
        return Err(plain(FaultKind::IfArity));
    }
    assert(models[0] == args@[0]@);
    assert(models[1] == args@[1]@);
    let handle = match inner_interpret(&args[0], state, session, d) {
        Ok(handle) => handle,
        Err(fault) => {
            return Err(fault);
        },
    };
    let truth = handle.clone_inner(state).truth();
    match truth {
        Boolean::True => inner_interpret(&args[1], state, session, d),
        Boolean::Maybe if args.len() > 3 => {
            assert(models[3] == args@[3]@);
            inner_interpret(&args[3], state, session, d)
        },
        _ => {
            if args.len() > 2 {
                assert(models[2] == args@[2]@);
                inner_interpret(&args[2], state, session, d)
            } else {
                Ok(Pointer::undefined())
            }
        },
    }
}

/// The built-in `eval`.
pub fn interpret_reentry<H: Host>(
    args: &Vec<Syntax>,
    state: &mut State,
    session: &mut Session<H>,
    d: usize,
) -> (r: Result<Pointer, String>)
    ensures
        forall|o: Oracle| #[trigger]
            o.explains(final(session).heard()) ==> o.explains(old(session).heard()) && final(session).heard()
                == heard_after_reentry(o, syntax_models(*args), old(state)@, old(session).heard(), d as nat) && outcome_of(
                r,
                *final(state),
            ) == reentry(o, syntax_models(*args), old(state)@, d as nat),
    decreases d, 1int, 0int,
{
    if args.len() != 1 {
        return Err(detailed(FaultKind::EvalArity, structure_of_nodes(args)));
    }
    assert(syntax_models(*args)[0] == args@[0]@);
    let handle = match inner_interpret(&args[0], state, session, d) {
        Ok(handle) => handle,
        Err(fault) => {
            return Err(fault);
        },
    };
    let value = handle.clone_inner(state);
    let text = display(&value, session);
    match session.parse(text.as_str()) {
        Ok(tree) => inner_interpret(&tree, state, session, d),
        Err(message) => Err(detailed(FaultKind::Frontend, message)),
    }
}

/// Evaluates the arguments of a call of a function of `count` parameters.
pub fn gather<H: Host>(
    count: usize,
    args: &Vec<Syntax>,
    state: &mut State,
    session: &mut Session<H>,
    d: usize,
) -> (r: Result<Vec<Pointer>, String>)
    ensures
        forall|o: Oracle| #[trigger]
            o.explains(final(session).heard()) ==> o.explains(old(session).heard()) && final(session).heard()
                == heard_after_arguments(
                o,
                count as nat,
                syntax_models(*args),
                0,
                old(state)@,
                old(session).heard(),
                d as nat,
            ) && arguments(
                o,
                count as nat,
                syntax_models(*args),
                0,
                Seq::empty(),
                old(state)@,
                d as nat,
            ) == (Gathered {
                result: match r {
                    Ok(handles) => Ok(pointer_models(handles)),
                    Err(fault) => Err(fault@),
                },
                state: final(state)@,
            }),
    decreases d, 1int, count,
{
    let ghost models = syntax_models(*args);
    let ghost heard = session.heard();
    let ghost start = state@;
    let mut handles: Vec<Pointer> = Vec::new();
    let mut i: usize = 0;
    assert(pointer_models(handles) =~= Seq::empty());
    while i < count
        invariant
            i <= count,
            models == syntax_models(*args),
            heard == old(session).heard(),
            start == old(state)@,
            forall|o: Oracle| #[trigger]
                o.explains(session.heard()) ==> o.explains(heard) && arguments(
                    o,
                    count as nat,
                    models,
                    0,
                    Seq::empty(),
                    start,
                    d as nat,
                ) == arguments(
                    o,
                    count as nat,
                    models,
                    i as int,
                    pointer_models(handles),
                    state@,
                    d as nat,
                ) && heard_after_arguments(o, count as nat, models, 0, start, heard, d as nat)
                    == heard_after_arguments(
                    o,
                    count as nat,
                    models,
                    i as int,
                    state@,
                    session.heard(),
                    d as nat,
                ),
        decreases count - i,
    {
        let ghost before = pointer_models(handles);
        if i < args.len() {
            assert(models[i as int] == args@[i as int]@);
            match inner_interpret(&args[i], state, session, d) {
                Ok(handle) => {
                    handles.push(handle);
                    assert(pointer_models(handles) =~= before.push(handle@));
                },
                Err(fault) => {
                    return Err(fault);
                },
            }
        } else {
            handles.push(Pointer::undefined());
            assert(pointer_models(handles) =~= before.push(PointerModel::undefined()));
        }
        i += 1;
    }
    Ok(handles)
}

/// Calls a function value.
pub fn interpret_application<H: Host>(
    params: &Vec<String>,
    body: &Syntax,
    args: &Vec<Syntax>,
    state: &mut State,
    session: &mut Session<H>,
    d: usize,
) -> (r: Result<Pointer, String>)
    ensures
        forall|o: Oracle| #[trigger]
            o.explains(final(session).heard()) ==> o.explains(old(session).heard()) && final(session).heard()
                == heard_after_application(
                o,
                name_models(*params),
                body@,
                syntax_models(*args),
                old(state)@,
                old(session).heard(),
                d as nat,
            ) && outcome_of(
                r,
                *final(state),
            ) == application(
                o,
                name_models(*params),
                body@,
                syntax_models(*args),
                old(state)@,
                d as nat,
            ),
    decreases d, 2int, 0int,
{
    let handles = match gather(params.len(), args, state, session, d) {
        Ok(handles) => handles,
        Err(fault) => {
            return Err(fault);
        },
    };
    state.enter();
    bind_all(params, &handles, state);
    let r = inner_interpret(body, state, session, d);
    state.leave();
    r
}

/// Calls `func` with unevaluated arguments.
pub fn interpret_function<H: Host>(
    func: &Pointer,
    args: &Vec<Syntax>,
    state: &mut State,
    session: &mut Session<H>,
    depth: usize,
) -> (r: Result<Pointer, String>)
    ensures
        forall|o: Oracle| #[trigger]
            o.explains(final(session).heard()) ==> o.explains(old(session).heard()) && final(session).heard()
                == heard_after_invocation(o, func@, syntax_models(*args), old(state)@, old(session).heard(), depth as nat) && outcome_of(
                r,
                *final(state),
            ) == invocation(o, func@, syntax_models(*args), old(state)@, depth as nat),
    decreases depth, 3int, 0int,
{
    let callee = func.clone_inner(state);
    match &callee {
        Value::Keyword(Keyword::If) => interpret_conditional(args, state, session, depth),
        Value::Keyword(Keyword::Delete) => delete(args, state),
        Value::Keyword(Keyword::Function) => define(args, state),
        Value::Keyword(Keyword::Eval) => interpret_reentry(args, state, session, depth),
        Value::Function(params, body) => interpret_application(
            params,
            body,
            args,
            state,
            session,
            depth,
        ),
        Value::Object(members) => {
            let key = Value::String(String::from_str("call"));
            match find_member(members, &key) {
                Some(i) => {
                    if depth == 0 {
                        Err(plain(FaultKind::StackExhausted))
                    } else {
                        state.enter();
                        state.insert(String::from_str("self"), func.duplicate());
                        let r = interpret_function(
                            &members[i].slot,
                            args,
                            state,
                            session,
                            depth - 1,
                        );
                        state.leave();
                        r
                    }
                },
                None => Err(detailed(FaultKind::NotAFunction, structure_of_value(&callee))),
            }
        },
        other => Err(detailed(FaultKind::NotAFunction, structure_of_value(other))),
    }
}

/// Evaluates `src` in a new state, nesting at most `limit` levels deep, and
/// hands back the result together with the state it left.
pub fn interpret<H: Host>(src: &Syntax, session: &mut Session<H>, limit: usize) -> (r: (
    Result<Pointer, String>,
    State,
))
    ensures
        forall|o: Oracle| #[trigger]
            o.explains(final(session).heard()) ==> o.explains(old(session).heard()) && final(session).heard()
                == heard_after_evaluation(o, src@, StateModel::initial(), old(session).heard(), limit as nat) && outcome_of(
                r.0,
                r.1,
            ) == evaluation(o, src@, StateModel::initial(), limit as nat),
{
    let mut state = State::new();
    let result = inner_interpret(src, &mut state, session, limit);
    (result, state)
}

} // verus!
