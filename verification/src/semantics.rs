//! What evaluation means: the result and the final state of evaluating a
//! node, as mathematical functions of the node, the state before, the depth
//! that evaluation may nest to, and an oracle that stands for the host.
//!
//! The depth is what keeps evaluation finite. Every step from a node into
//! one of its parts, into the body of a function, or into the tree that
//! `eval` was given, uses up one level; a node that has parts and finds no
//! level left fails with `StackExhausted` and leaves the state as it is.

use vstd::prelude::*;
use crate::fault::{FaultKind, message_of};
use crate::structure::{node_structure, nodes_structure, value_structure};
use crate::host::{Arithmetic, Oracle};
use crate::pointer::{arithmetic_result, shown};
use crate::state::{EmissionModel, StateModel};
use crate::syntax::{Operation, SegmentModel, SyntaxModel, VarType};
use crate::value::{Boolean, Keyword, Order, PointerModel, ValueModel, numeral_shaped};

verus! {

/// How an evaluation ended, and the state it left.
pub struct Outcome {
    pub result: Result<PointerModel, Seq<char>>,
    pub state: StateModel,
}

/// The handles that the arguments of a call evaluated to, or the failure
/// that stopped them, and the state after.
pub struct Gathered {
    pub result: Result<Seq<PointerModel>, Seq<char>>,
    pub state: StateModel,
}

/// An evaluation that gave `handle`.
pub open spec fn done(handle: PointerModel, state: StateModel) -> Outcome {
    Outcome { result: Ok(handle), state }
}

/// An evaluation that failed, with the message of the kind alone.
pub open spec fn failed(kind: FaultKind, state: StateModel) -> Outcome {
    Outcome { result: Err(message_of(kind, Seq::empty())), state }
}

/// An evaluation that failed, with the message of the kind around `detail`.
pub open spec fn failed_on(kind: FaultKind, detail: Seq<char>, state: StateModel) -> Outcome {
    Outcome { result: Err(message_of(kind, detail)), state }
}

/// What an identifier stands for: what the innermost scope that binds it
/// binds it to. Where no scope binds it and it starts with a digit, the
/// host is asked which number it denotes, and it stands for that number,
/// as an owned, fixed handle. Otherwise, a failure that names it.
pub open spec fn resolve(o: Oracle, state: StateModel, name: Seq<char>) -> Result<
    PointerModel,
    Seq<char>,
> {
    match state.lookup(name) {
        Some(handle) => Ok(handle),
        None => {
            if numeral_shaped(name) && (o.numeral)(name) is Some {
                Ok(PointerModel::ConstConst(ValueModel::Number((o.numeral)(name)->Some_0)))
            } else {
                Err(message_of(FaultKind::Unbound, name))
            }
        },
    }
}

/// The arithmetic that an operator asks for, if it asks for any.
pub open spec fn arithmetic_of(op: Operation) -> Option<Arithmetic> {
    match op {
        Operation::Add | Operation::AddEq => Some(Arithmetic::Add),
        Operation::Sub | Operation::SubEq => Some(Arithmetic::Sub),
        Operation::Mul | Operation::MulEq => Some(Arithmetic::Mul),
        Operation::Div | Operation::DivEq => Some(Arithmetic::Div),
        Operation::Mod | Operation::ModEq => Some(Arithmetic::Rem),
        _ => None,
    }
}

/// Whether an ordering satisfies a comparison operator. Values that are not
/// ordered satisfy none.
pub open spec fn satisfies(op: Operation, order: Option<Order>) -> bool {
    match op {
        Operation::Lt => order == Some(Order::Less),
        Operation::Le => order == Some(Order::Less) || order == Some(Order::Equal),
        Operation::Gt => order == Some(Order::Greater),
        Operation::Ge => order == Some(Order::Greater) || order == Some(Order::Equal),
        _ => false,
    }
}

/// A binary operator applied to two handles.
///
/// One `=` assigns the right target through the left handle and gives the
/// right handle. Two or more compare the targets, looking one level less
/// into objects than there are signs, and change nothing. The arithmetic
/// operators give an owned, fixed handle on the result; their compound
/// forms assign the result through the left handle and give that handle as
/// it is afterwards. `.` gives the handle that the left target, an object,
/// stores under the right target. `And` and `Or` combine truth
/// values in three-valued logic, the comparisons give true or false, and the
/// arrow is reserved.
pub open spec fn applied(
    o: Oracle,
    op: Operation,
    left: PointerModel,
    right: PointerModel,
    state: StateModel,
) -> Outcome {
    let a = state.target(left);
    let b = state.target(right);
    match op {
        Operation::Equal(signs) => {
            if signs == 0 {
                failed(FaultKind::MalformedOperator, state)
            } else if signs == 1 {
                match state.assigned(left, b) {
                    Some(after) => done(right, after.1),
                    None => failed(FaultKind::Unassignable, state),
                }
            } else {
                done(PointerModel::truth(state.equality(a, b, (signs - 1) as nat)), state)
            }
        },
        Operation::Add | Operation::Sub | Operation::Mul | Operation::Div | Operation::Mod => done(
            PointerModel::ConstConst(arithmetic_result(o, arithmetic_of(op)->0, a, b)),
            state,
        ),
        Operation::AddEq
        | Operation::SubEq
        | Operation::MulEq
        | Operation::DivEq
        | Operation::ModEq => {
            match state.assigned(left, arithmetic_result(o, arithmetic_of(op)->0, a, b)) {
                Some(after) => done(after.0, after.1),
                None => failed(FaultKind::Unassignable, state),
            }
        },
        Operation::Dot => Outcome { result: StateModel::member(a, b), state },
        Operation::And => done(PointerModel::truth(a.truth().conj(b.truth())), state),
        Operation::Or => done(PointerModel::truth(a.truth().disj(b.truth())), state),
        Operation::Lt | Operation::Le | Operation::Gt | Operation::Ge => done(
            PointerModel::truth(Boolean::of(satisfies(op, a.order(b)))),
            state,
        ),
        Operation::Arrow => failed(FaultKind::NotImplemented, state),
    }
}

/// Whether an operator assigns through its left handle: one `=`, and the
/// compound forms of the arithmetic operators.
pub open spec fn assigns(op: Operation) -> bool {
    match op {
        Operation::Equal(signs) => signs == 1,
        Operation::AddEq
        | Operation::SubEq
        | Operation::MulEq
        | Operation::DivEq
        | Operation::ModEq => true,
        _ => false,
    }
}

/// The value that an assigning operator assigns: the right target, or the
/// result of the arithmetic on the two targets.
pub open spec fn assigned_value(
    o: Oracle,
    op: Operation,
    left: PointerModel,
    right: PointerModel,
    state: StateModel,
) -> ValueModel {
    match arithmetic_of(op) {
        Some(kind) => arithmetic_result(o, kind, state.target(left), state.target(right)),
        None => state.target(right),
    }
}

/// A binary operator applied to the handles of its two operands, and what
/// becomes of the holder of the left handle.
///
/// An owned, reassignable handle has one holder, and assigning through it
/// gives that holder a new target which no other handle sees. Where the
/// left operand is an identifier that still stands for the handle it gave,
/// its binding is the holder, and takes the new handle where it is. A
/// handle that came from anywhere else has no holder to be told.
pub open spec fn held(
    o: Oracle,
    lhs: SyntaxModel,
    op: Operation,
    left: PointerModel,
    right: PointerModel,
    state: StateModel,
) -> Outcome {
    let out = applied(o, op, left, right, state);
    if assigns(op) && left is VarConst && lhs is Ident && state.lookup(lhs->Ident_0) == Some(
        left,
    ) {
        Outcome {
            result: out.result,
            state: out.state.rebound(
                lhs->Ident_0,
                PointerModel::VarConst(assigned_value(o, op, left, right, state)),
            ),
        }
    } else {
        out
    }
}

/// The text of an interpolated string from segment `i` on, after `text`:
/// literal segments as they are, identifiers by the display form of what
/// they stand for.
pub open spec fn interpolation(
    o: Oracle,
    segments: Seq<SegmentModel>,
    i: int,
    text: Seq<char>,
    state: StateModel,
) -> Result<Seq<char>, Seq<char>>
    decreases segments.len() - i,
{
    if i < 0 || i >= segments.len() {
        Ok(text)
    } else {
        match segments[i] {
            SegmentModel::String(literal) => interpolation(o, segments, i + 1, text + literal, state),
            SegmentModel::Ident(name) => match resolve(o, state, name) {
                Ok(handle) => interpolation(
                    o,
                    segments,
                    i + 1,
                    text + shown(o, state.target(handle)),
                    state,
                ),
                Err(fault) => Err(fault),
            },
        }
    }
}

/// The names of the nodes from `i` on, after `names`, or the first node
/// that is not an identifier.
pub open spec fn names_from(items: Seq<SyntaxModel>, i: int, names: Seq<Seq<char>>) -> Result<
    Seq<Seq<char>>,
    SyntaxModel,
>
    decreases items.len() - i,
{
    if i < 0 || i >= items.len() {
        Ok(names)
    } else {
        match items[i] {
            SyntaxModel::Ident(name) => names_from(items, i + 1, names.push(name)),
            other => Err(other),
        }
    }
}

/// The names that a parameter list declares: those of a block of
/// identifiers, or the one of a single identifier. Otherwise the first
/// node that is not an identifier.
pub open spec fn parameter_names(node: SyntaxModel) -> Result<Seq<Seq<char>>, SyntaxModel> {
    match node {
        SyntaxModel::Block(items) => names_from(items, 0, Seq::empty()),
        SyntaxModel::Ident(name) => Ok(seq![name]),
        other => Err(other),
    }
}

/// The built-in `function`: given a name, a parameter list and a body, it
/// binds the name in the innermost scope to the function they make. Given
/// anything else it fails and shows its arguments; given a parameter that
/// is not an identifier it fails and shows that parameter.
pub open spec fn definition(args: Seq<SyntaxModel>, state: StateModel) -> Outcome {
    if args.len() == 3 && args[0] is Ident {
        match parameter_names(args[1]) {
            Ok(names) => done(
                PointerModel::undefined(),
                state.bound(
                    args[0]->Ident_0,
                    PointerModel::ConstConst(ValueModel::Function(names, args[2])),
                ),
            ),
            Err(other) => failed_on(FaultKind::ParameterName, node_structure(other), state),
        }
    } else {
        failed_on(FaultKind::FunctionShape, nodes_structure(args), state)
    }
}

/// The built-in `delete`: given one identifier, it removes the innermost
/// scope's binding of it; given anything else, it does nothing.
pub open spec fn deletion(args: Seq<SyntaxModel>, state: StateModel) -> Outcome {
    if args.len() == 1 && args[0] is Ident {
        done(PointerModel::undefined(), state.unbound(args[0]->Ident_0))
    } else {
        done(PointerModel::undefined(), state)
    }
}

/// The state with each parameter from `i` on bound, in order, to the handle
/// in its place.
pub open spec fn bound_all(
    state: StateModel,
    params: Seq<Seq<char>>,
    handles: Seq<PointerModel>,
    i: int,
) -> StateModel
    decreases params.len() - i,
{
    if i < 0 || i >= params.len() || i >= handles.len() {
        state
    } else {
        bound_all(state.bound(params[i], handles[i]), params, handles, i + 1)
    }
}

/// An evaluation that could not go one level deeper.
pub open spec fn exhausted(state: StateModel) -> Outcome {
    failed(FaultKind::StackExhausted, state)
}

/// The result and the final state of evaluating `node` in `state`.
///
/// An identifier, a text, a function literal and the empty block have no
/// parts to evaluate and need no depth. Every other node needs one level
/// for its parts and fails with `StackExhausted` where there is none.
pub open spec fn evaluation(o: Oracle, node: SyntaxModel, state: StateModel, depth: nat) -> Outcome
    decreases depth, 0int, 0int,
{
    let d = (depth - 1) as nat;
    match node {
        SyntaxModel::Statement(printing, content, level) => {
            if depth == 0 {
                exhausted(state)
            } else {
                statement(o, printing, *content, level, state, d)
            }
        },
        SyntaxModel::Negate(content) => {
            if depth == 0 {
                exhausted(state)
            } else {
                negated_outcome(o, *content, state, d)
            }
        },
        SyntaxModel::Operation(lhs, op, rhs) => {
            if depth == 0 {
                exhausted(state)
            } else {
                operation(o, *lhs, op, *rhs, state, d)
            }
        },
        SyntaxModel::Block(items) => {
            if items.len() == 0 {
                done(PointerModel::undefined(), state)
            } else if depth == 0 {
                exhausted(state)
            } else {
                block(o, items, state, d)
            }
        },
        SyntaxModel::Declare(kind, name, value) => {
            if depth == 0 {
                exhausted(state)
            } else {
                declaration(o, kind, name, *value, state, d)
            }
        },
        SyntaxModel::String(segments) => match interpolation(o, segments, 0, Seq::empty(), state) {
            Ok(text) => done(PointerModel::ConstConst(ValueModel::String(text)), state),
            Err(fault) => Outcome { result: Err(fault), state },
        },
        SyntaxModel::Call(name, args) => {
            if depth == 0 {
                exhausted(state)
            } else {
                match resolve(o, state, name) {
                    Ok(callee) => invocation(o, callee, args, state, d),
                    Err(fault) => Outcome { result: Err(fault), state },
                }
            }
        },
        SyntaxModel::Ident(name) => Outcome { result: resolve(o, state, name), state },
        SyntaxModel::Function(params, body) => done(
            PointerModel::ConstConst(ValueModel::Function(params, *body)),
            state,
        ),
    }
}

/// A statement. The plain form evaluates its content and gives undefined.
/// The printing form gives what its content gives, and emits: at level
/// three and above the content itself, before evaluating it; then the
/// result, at level two and above as handle and value, below that in its
/// display form.
pub open spec fn statement(
    o: Oracle,
    printing: bool,
    content: SyntaxModel,
    level: u8,
    state: StateModel,
    d: nat,
) -> Outcome
    decreases d, 1int, 0int,
{
    if !printing {
        let out = evaluation(o, content, state, d);
        match out.result {
            Ok(_) => done(PointerModel::undefined(), out.state),
            Err(_) => out,
        }
    } else {
        let announced = if level >= 3 {
            state.emitted(EmissionModel::Node(content))
        } else {
            state
        };
        let out = evaluation(o, content, announced, d);
        match out.result {
            Ok(handle) => {
                let value = out.state.target(handle);
                let emission = if level >= 2 {
                    EmissionModel::Handle(handle, value)
                } else {
                    EmissionModel::Text(shown(o, value))
                };
                done(handle, out.state.emitted(emission))
            },
            Err(_) => out,
        }
    }
}

/// A negation: an owned, fixed handle on the arithmetic negation of what
/// the content gives.
pub open spec fn negated_outcome(o: Oracle, content: SyntaxModel, state: StateModel, d: nat)
    -> Outcome
    decreases d, 1int, 0int,
{
    let out = evaluation(o, content, state, d);
    match out.result {
        Ok(handle) => done(
            PointerModel::ConstConst(out.state.target(handle).negation()),
            out.state,
        ),
        Err(_) => out,
    }
}

/// A declaration: the value's handle, converted to the declared kind, is
/// bound to the name in the innermost scope. Gives undefined.
pub open spec fn declaration(
    o: Oracle,
    kind: VarType,
    name: Seq<char>,
    value: SyntaxModel,
    state: StateModel,
    d: nat,
) -> Outcome
    decreases d, 1int, 0int,
{
    let out = evaluation(o, value, state, d);
    match out.result {
        Ok(handle) => {
            let made = out.state.converted(handle, kind);
            done(PointerModel::undefined(), made.1.bound(name, made.0))
        },
        Err(_) => out,
    }
}

/// A block: its nodes are evaluated in order in a new scope, which is
/// closed again whatever happens. Gives what the last node gives, and
/// undefined where there is none.
pub open spec fn block(o: Oracle, items: Seq<SyntaxModel>, state: StateModel, d: nat) -> Outcome
    decreases d, 2int, 0int,
{
    let out = sequence(o, items, 0, state.entered(), d);
    Outcome { result: out.result, state: out.state.left() }
}

/// The nodes from `i` on, evaluated in order: the first failure ends the
/// sequence, the results before the last are dropped.
pub open spec fn sequence(o: Oracle, items: Seq<SyntaxModel>, i: int, state: StateModel, d: nat)
    -> Outcome
    decreases d, 1int, items.len() - i,
{
    if i < 0 || i >= items.len() {
        done(PointerModel::undefined(), state)
    } else {
        let out = evaluation(o, items[i], state, d);
        if out.result is Err || i + 1 == items.len() {
            out
        } else {
            sequence(o, items, i + 1, out.state, d)
        }
    }
}

/// A binary operation. The left operand is evaluated first. Where it gives
/// an object, the operator is `.` and the right operand is a bare
/// identifier, that identifier names a member, which is made if the object
/// does not have it. Otherwise the right operand is evaluated, the
/// operator is applied to the two handles, and the holder of the left
/// handle is told of an assignment.
pub open spec fn operation(
    o: Oracle,
    lhs: SyntaxModel,
    op: Operation,
    rhs: SyntaxModel,
    state: StateModel,
    d: nat,
) -> Outcome
    decreases d, 1int, 0int,
{
    let left = evaluation(o, lhs, state, d);
    match left.result {
        Ok(handle) => {
            if left.state.target(handle) is Object && op is Dot && rhs is Ident {
                let found = left.state.vivified(handle, rhs->Ident_0);
                done(found.0, found.1)
            } else {
                let right = evaluation(o, rhs, left.state, d);
                match right.result {
                    Ok(other) => held(o, lhs, op, handle, other, right.state),
                    Err(_) => right,
                }
            }
        },
        Err(_) => left,
    }
}

/// The built-in `if`: the condition's truth value picks the branch. True
/// picks the second argument; maybe picks the fourth where there is one;
/// anything else picks the third, and gives undefined where there is none.
pub open spec fn conditional(o: Oracle, args: Seq<SyntaxModel>, state: StateModel, d: nat)
    -> Outcome
    decreases d, 1int, 0int,
{
    if args.len() < 2 {
        failed(FaultKind::IfArity, state)
    } else {
        let condition = evaluation(o, args[0], state, d);
        match condition.result {
            Ok(handle) => {
                let truth = condition.state.target(handle).truth();
                if truth is True {
                    evaluation(o, args[1], condition.state, d)
                } else if truth is Maybe && args.len() > 3 {
                    evaluation(o, args[3], condition.state, d)
                } else if args.len() > 2 {
                    evaluation(o, args[2], condition.state, d)
                } else {
                    done(PointerModel::undefined(), condition.state)
                }
            },
            Err(_) => condition,
        }
    }
}

/// The built-in `eval`: the display form of its one argument's value is
/// handed to the host's front end, and the tree that comes back is
/// evaluated in the current scope.
pub open spec fn reentry(o: Oracle, args: Seq<SyntaxModel>, state: StateModel, d: nat) -> Outcome
    decreases d, 1int, 0int,
{
    if args.len() != 1 {
        failed_on(FaultKind::EvalArity, nodes_structure(args), state)
    } else {
        let source = evaluation(o, args[0], state, d);
        match source.result {
            Ok(handle) => match (o.parse)(shown(o, source.state.target(handle))) {
                Ok(tree) => evaluation(o, tree, source.state, d),
                Err(message) => failed_on(FaultKind::Frontend, message, source.state),
            },
            Err(_) => source,
        }
    }
}

/// The handles for the first `count` parameters of a call from parameter
/// `i` on, after `handles`: each argument evaluated in order in the
/// caller's scope, undefined where the call gives fewer arguments than
/// there are parameters. Arguments beyond the parameters are not evaluated.
pub open spec fn arguments(
    o: Oracle,
    count: nat,
    args: Seq<SyntaxModel>,
    i: int,
    handles: Seq<PointerModel>,
    state: StateModel,
    d: nat,
) -> Gathered
    decreases d, 1int, count - i,
{
    if i < 0 || i >= count {
        Gathered { result: Ok(handles), state }
    } else if i < args.len() {
        let out = evaluation(o, args[i], state, d);
        match out.result {
            Ok(handle) => arguments(o, count, args, i + 1, handles.push(handle), out.state, d),
            Err(fault) => Gathered { result: Err(fault), state: out.state },
        }
    } else {
        arguments(o, count, args, i + 1, handles.push(PointerModel::undefined()), state, d)
    }
}

/// A call of a function value: the arguments are evaluated in the caller's
/// scope; the body is evaluated in a new scope inside the caller's, which
/// binds the parameters and is closed again whatever happens. Nothing of
/// the place where the function was made takes part.
pub open spec fn application(
    o: Oracle,
    params: Seq<Seq<char>>,
    body: SyntaxModel,
    args: Seq<SyntaxModel>,
    state: StateModel,
    d: nat,
) -> Outcome
    decreases d, 2int, 0int,
{
    let gathered = arguments(o, params.len(), args, 0, Seq::empty(), state, d);
    match gathered.result {
        Ok(handles) => {
            let out = evaluation(
                o,
                body,
                bound_all(gathered.state.entered(), params, handles, 0),
                d,
            );
            Outcome { result: out.result, state: out.state.left() }
        },
        Err(fault) => Outcome { result: Err(fault), state: gathered.state },
    }
}

/// A call of `callee` with unevaluated arguments. A built-in does its
/// work; a function value is applied; an object is called through its
/// `call` member, in a new scope that binds `self` to the object's handle,
/// which uses up one level; anything else is not a function.
pub open spec fn invocation(
    o: Oracle,
    callee: PointerModel,
    args: Seq<SyntaxModel>,
    state: StateModel,
    d: nat,
) -> Outcome
    decreases d, 3int, 0int,
{
    match state.target(callee) {
        ValueModel::Keyword(Keyword::If) => conditional(o, args, state, d),
        ValueModel::Keyword(Keyword::Delete) => deletion(args, state),
        ValueModel::Keyword(Keyword::Function) => definition(args, state),
        ValueModel::Keyword(Keyword::Eval) => reentry(o, args, state, d),
        ValueModel::Function(params, body) => application(o, params, body, args, state, d),
        ValueModel::Object(members) => match ValueModel::find(
            members,
            ValueModel::String("call"@),
        ) {
            Some(i) => {
                if d == 0 {
                    failed(FaultKind::StackExhausted, state)
                } else {
                    let out = invocation(
                        o,
                        members[i].slot,
                        args,
                        state.entered().bound("self"@, callee),
                        (d - 1) as nat,
                    );
                    Outcome { result: out.result, state: out.state.left() }
                }
            },
            None => failed_on(
                FaultKind::NotAFunction,
                value_structure(state.target(callee)),
                state,
            ),
        },
        _ => failed_on(FaultKind::NotAFunction, value_structure(state.target(callee)), state),
    }
}

} // verus!
