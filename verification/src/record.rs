//! What evaluation puts to the host.
//!
//! For every step of evaluation, the functions here give the record of the
//! exchanges with the host after the step, from the record before it: which
//! questions are asked, in which order, and nothing else. A number is
//! printed where its display form is needed, a numeral is read where an
//! unbound identifier starts with a digit, arithmetic is asked for on two
//! numbers unless a division is by zero, and the front end is asked by
//! `eval` alone.

use vstd::prelude::*;
use crate::host::{Arithmetic, Exchange, Oracle};
use crate::pointer::shown;
use crate::semantics::{
    arguments,
    arithmetic_of,
    bound_all,
    evaluation,
    resolve,
};
use crate::state::StateModel;
use crate::syntax::{Operation, SegmentModel, SyntaxModel};
use crate::value::{Keyword, PointerModel, ValueModel, is_zero, numeral_shaped};

verus! {

/// The record after the display form of a value was made: the host is
/// asked to print a number, and nothing for any other value.
pub open spec fn heard_after_shown(o: Oracle, value: ValueModel, heard: Seq<Exchange>) -> Seq<
    Exchange,
> {
    match value {
        ValueModel::Number(bits) => heard.push(
            Exchange::Format { number: bits, answer: (o.format)(bits) },
        ),
        _ => heard,
    }
}

/// The record after arithmetic on two values: one question for two
/// numbers, unless a division is by zero; the questions of two display
/// forms where texts are joined; nothing otherwise.
pub open spec fn heard_after_arithmetic(
    o: Oracle,
    op: Arithmetic,
    a: ValueModel,
    b: ValueModel,
    heard: Seq<Exchange>,
) -> Seq<Exchange> {
    if op is Div && b is Number && is_zero(b->Number_0) {
        heard
    } else if a is Number && b is Number {
        heard.push(
            Exchange::Arithmetic {
                op,
                left: a->Number_0,
                right: b->Number_0,
                answer: (o.arithmetic)(op, a->Number_0, b->Number_0),
            },
        )
    } else if op is Add && (a is String || b is String) {
        heard_after_shown(o, b, heard_after_shown(o, a, heard))
    } else {
        heard
    }
}

/// The record after an identifier was resolved: the host is asked to read
/// a numeral where no scope binds the identifier and it starts with a
/// digit.
pub open spec fn heard_after_resolve(
    o: Oracle,
    state: StateModel,
    name: Seq<char>,
    heard: Seq<Exchange>,
) -> Seq<Exchange> {
    if state.lookup(name) is None && numeral_shaped(name) {
        heard.push(Exchange::Numeral { text: name, answer: (o.numeral)(name) })
    } else {
        heard
    }
}

/// The record after an operator was applied to two handles: that of the
/// arithmetic, where the operator asks for any.
pub open spec fn heard_after_applied(
    o: Oracle,
    op: Operation,
    left: PointerModel,
    right: PointerModel,
    state: StateModel,
    heard: Seq<Exchange>,
) -> Seq<Exchange> {
    match arithmetic_of(op) {
        Some(kind) => heard_after_arithmetic(
            o,
            kind,
            state.target(left),
            state.target(right),
            heard,
        ),
        None => heard,
    }
}

/// The record after the segments of a text from `i` on were put together.
pub open spec fn heard_after_interpolation(
    o: Oracle,
    segments: Seq<SegmentModel>,
    i: int,
    state: StateModel,
    heard: Seq<Exchange>,
) -> Seq<Exchange>
    decreases segments.len() - i,
{
    if i < 0 || i >= segments.len() {
        heard
    } else {
        match segments[i] {
            SegmentModel::String(_) => heard_after_interpolation(o, segments, i + 1, state, heard),
            SegmentModel::Ident(name) => {
                let asked = heard_after_resolve(o, state, name, heard);
                match resolve(o, state, name) {
                    Ok(handle) => heard_after_interpolation(
                        o,
                        segments,
                        i + 1,
                        state,
                        heard_after_shown(o, state.target(handle), asked),
                    ),
                    Err(_) => asked,
                }
            },
        }
    }
}

/// The record after `node` was evaluated in `state`.
pub open spec fn heard_after_evaluation(
    o: Oracle,
    node: SyntaxModel,
    state: StateModel,
    heard: Seq<Exchange>,
    depth: nat,
) -> Seq<Exchange>
    decreases depth, 0int, 0int,
{
    let d = (depth - 1) as nat;
    match node {
        SyntaxModel::Statement(printing, content, level) => {
            if depth == 0 {
                heard
            } else {
                heard_after_statement(o, printing, *content, level, state, heard, d)
            }
        },
        SyntaxModel::Negate(content) => {
            if depth == 0 {
                heard
            } else {
                heard_after_evaluation(o, *content, state, heard, d)
            }
        },
        SyntaxModel::Operation(lhs, op, rhs) => {
            if depth == 0 {
                heard
            } else {
                heard_after_operation(o, *lhs, op, *rhs, state, heard, d)
            }
        },
        SyntaxModel::Block(items) => {
            if items.len() == 0 || depth == 0 {
                heard
            } else {
                heard_after_sequence(o, items, 0, state.entered(), heard, d)
            }
        },
        SyntaxModel::Declare(_, _, value) => {
            if depth == 0 {
                heard
            } else {
                heard_after_evaluation(o, *value, state, heard, d)
            }
        },
        SyntaxModel::String(segments) => heard_after_interpolation(o, segments, 0, state, heard),
        SyntaxModel::Call(name, args) => {
            if depth == 0 {
                heard
            } else {
                let asked = heard_after_resolve(o, state, name, heard);
                match resolve(o, state, name) {
                    Ok(callee) => heard_after_invocation(o, callee, args, state, asked, d),
                    Err(_) => asked,
                }
            }
        },
        SyntaxModel::Ident(name) => heard_after_resolve(o, state, name, heard),
        SyntaxModel::Function(_, _) => heard,
    }
}

/// The record after a statement: that of its content, and the question of
/// the display form where the result is printed below level two.
pub open spec fn heard_after_statement(
    o: Oracle,
    printing: bool,
    content: SyntaxModel,
    level: u8,
    state: StateModel,
    heard: Seq<Exchange>,
    d: nat,
) -> Seq<Exchange>
    decreases d, 1int, 0int,
{
    let announced = if printing && level >= 3 {
        state.emitted(crate::state::EmissionModel::Node(content))
    } else {
        state
    };
    let out = evaluation(o, content, announced, d);
    let asked = heard_after_evaluation(o, content, announced, heard, d);
    if printing && out.result is Ok && level < 2 {
        heard_after_shown(o, out.state.target(out.result->Ok_0), asked)
    } else {
        asked
    }
}

/// The record after the nodes from `i` on were evaluated in order.
pub open spec fn heard_after_sequence(
    o: Oracle,
    items: Seq<SyntaxModel>,
    i: int,
    state: StateModel,
    heard: Seq<Exchange>,
    d: nat,
) -> Seq<Exchange>
    decreases d, 1int, items.len() - i,
{
    if i < 0 || i >= items.len() {
        heard
    } else {
        let out = evaluation(o, items[i], state, d);
        let asked = heard_after_evaluation(o, items[i], state, heard, d);
        if out.result is Err || i + 1 == items.len() {
            asked
        } else {
            heard_after_sequence(o, items, i + 1, out.state, asked, d)
        }
    }
}

/// The record after a binary operation: that of the left operand, then,
/// unless a member is looked up by name, that of the right operand and of
/// the operator.
pub open spec fn heard_after_operation(
    o: Oracle,
    lhs: SyntaxModel,
    op: Operation,
    rhs: SyntaxModel,
    state: StateModel,
    heard: Seq<Exchange>,
    d: nat,
) -> Seq<Exchange>
    decreases d, 1int, 0int,
{
    let left = evaluation(o, lhs, state, d);
    let first = heard_after_evaluation(o, lhs, state, heard, d);
    match left.result {
        Ok(handle) => {
            if left.state.target(handle) is Object && op is Dot && rhs is Ident {
                first
            } else {
                let right = evaluation(o, rhs, left.state, d);
                let second = heard_after_evaluation(o, rhs, left.state, first, d);
                match right.result {
                    Ok(other) => heard_after_applied(o, op, handle, other, right.state, second),
                    Err(_) => second,
                }
            }
        },
        Err(_) => first,
    }
}

/// The record after the built-in `if`: that of the condition and of the
/// one branch that is taken.
pub open spec fn heard_after_conditional(
    o: Oracle,
    args: Seq<SyntaxModel>,
    state: StateModel,
    heard: Seq<Exchange>,
    d: nat,
) -> Seq<Exchange>
    decreases d, 1int, 0int,
{
    if args.len() < 2 {
        heard
    } else {
        let condition = evaluation(o, args[0], state, d);
        let asked = heard_after_evaluation(o, args[0], state, heard, d);
        match condition.result {
            Ok(handle) => {
                let truth = condition.state.target(handle).truth();
                if truth is True {
                    heard_after_evaluation(o, args[1], condition.state, asked, d)
                } else if truth is Maybe && args.len() > 3 {
                    heard_after_evaluation(o, args[3], condition.state, asked, d)
                } else if args.len() > 2 {
                    heard_after_evaluation(o, args[2], condition.state, asked, d)
                } else {
                    asked
                }
            },
            Err(_) => asked,
        }
    }
}

/// The record after the built-in `eval`: that of its argument, the
/// question of its display form, the text put to the front end, and the
/// record of the tree that came back.
pub open spec fn heard_after_reentry(
    o: Oracle,
    args: Seq<SyntaxModel>,
    state: StateModel,
    heard: Seq<Exchange>,
    d: nat,
) -> Seq<Exchange>
    decreases d, 1int, 0int,
{
    if args.len() != 1 {
        heard
    } else {
        let source = evaluation(o, args[0], state, d);
        let asked = heard_after_evaluation(o, args[0], state, heard, d);
        match source.result {
            Ok(handle) => {
                let value = source.state.target(handle);
                let text = shown(o, value);
                let parsed = heard_after_shown(o, value, asked).push(
                    Exchange::Parse { text, answer: (o.parse)(text) },
                );
                match (o.parse)(text) {
                    Ok(tree) => heard_after_evaluation(o, tree, source.state, parsed, d),
                    Err(_) => parsed,
                }
            },
            Err(_) => asked,
        }
    }
}

/// The record after the arguments for the parameters from `i` on were
/// evaluated.
pub open spec fn heard_after_arguments(
    o: Oracle,
    count: nat,
    args: Seq<SyntaxModel>,
    i: int,
    state: StateModel,
    heard: Seq<Exchange>,
    d: nat,
) -> Seq<Exchange>
    decreases d, 1int, count - i,
{
    if i < 0 || i >= count {
        heard
    } else if i < args.len() {
        let out = evaluation(o, args[i], state, d);
        let asked = heard_after_evaluation(o, args[i], state, heard, d);
        match out.result {
            Ok(_) => heard_after_arguments(o, count, args, i + 1, out.state, asked, d),
            Err(_) => asked,
        }
    } else {
        heard_after_arguments(o, count, args, i + 1, state, heard, d)
    }
}

/// The record after a call of a function value: that of the arguments,
/// then that of the body.
pub open spec fn heard_after_application(
    o: Oracle,
    params: Seq<Seq<char>>,
    body: SyntaxModel,
    args: Seq<SyntaxModel>,
    state: StateModel,
    heard: Seq<Exchange>,
    d: nat,
) -> Seq<Exchange>
    decreases d, 2int, 0int,
{
    let gathered = arguments(o, params.len(), args, 0, Seq::empty(), state, d);
    let asked = heard_after_arguments(o, params.len(), args, 0, state, heard, d);
    match gathered.result {
        Ok(handles) => heard_after_evaluation(
            o,
            body,
            bound_all(gathered.state.entered(), params, handles, 0),
            asked,
            d,
        ),
        Err(_) => asked,
    }
}

/// The record after a call.
pub open spec fn heard_after_invocation(
    o: Oracle,
    callee: PointerModel,
    args: Seq<SyntaxModel>,
    state: StateModel,
    heard: Seq<Exchange>,
    d: nat,
) -> Seq<Exchange>
    decreases d, 3int, 0int,
{
    match state.target(callee) {
        ValueModel::Keyword(Keyword::If) => heard_after_conditional(o, args, state, heard, d),
        ValueModel::Keyword(Keyword::Eval) => heard_after_reentry(o, args, state, heard, d),
        ValueModel::Function(params, body) => heard_after_application(
            o,
            params,
            body,
            args,
            state,
            heard,
            d,
        ),
        ValueModel::Object(members) => match ValueModel::find(
            members,
            ValueModel::String("call"@),
        ) {
            Some(i) => {
                if d == 0 {
                    heard
                } else {
                    heard_after_invocation(
                        o,
                        members[i].slot,
                        args,
                        state.entered().bound("self"@, callee),
                        heard,
                        (d - 1) as nat,
                    )
                }
            },
            None => heard,
        },
        _ => heard,
    }
}

} // verus!
