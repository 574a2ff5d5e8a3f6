//! The side channel is write-only: what has been emitted never changes what
//! evaluation gives or does to the cells and the scopes.

use vstd::prelude::*;
use crate::host::Oracle;
use crate::pointer::shown;
use crate::semantics::{
    application,
    applied,
    arguments,
    block,
    bound_all,
    conditional,
    declaration,
    definition,
    deletion,
    evaluation,
    interpolation,
    invocation,
    negated_outcome,
    operation,
    reentry,
    resolve,
    sequence,
    statement,
};
use crate::state::{EmissionModel, StateModel};
use crate::syntax::{Operation, SegmentModel, SyntaxModel, VarType};
use crate::value::{Keyword, MemberModel, PointerModel, ValueModel};

verus! {

impl StateModel {
    /// This state and `other` have the same cells and the same scopes;
    /// they may differ in what has been emitted.
    pub open spec fn alike(self, other: StateModel) -> bool {
        self.cells == other.cells && self.frames == other.frames
    }
}

/// Equality of values does not read what has been emitted.
pub proof fn lemma_equality_alike(
    s: StateModel,
    t: StateModel,
    a: ValueModel,
    b: ValueModel,
    depth: nat,
)
    requires
        s.alike(t),
    ensures
        s.equality(a, b, depth) == t.equality(a, b, depth),
    decreases depth, 0int,
{
    if !(a == b || a.reads_as(b)) && a is Object && b is Object && depth > 0 {
        lemma_members_equality_alike(s, t, a->Object_0, b->Object_0, 0, (depth - 1) as nat);
    }
}

/// Equality of members does not read what has been emitted.
pub proof fn lemma_members_equality_alike(
    s: StateModel,
    t: StateModel,
    x: Seq<MemberModel>,
    y: Seq<MemberModel>,
    i: int,
    depth: nat,
)
    requires
        s.alike(t),
    ensures
        s.members_equality(x, y, i, depth) == t.members_equality(x, y, i, depth),
    decreases depth, x.len() - i + 1,
{
    if !(i < 0 || i >= x.len()) {
        match ValueModel::find(y, x[i].key) {
            Some(j) => {
                lemma_equality_alike(s, t, s.target(x[i].slot), s.target(y[j].slot), depth);
                lemma_members_equality_alike(s, t, x, y, i + 1, depth);
            },
            None => {},
        }
    }
}

/// Interpolation does not read what has been emitted.
pub proof fn lemma_interpolation_alike(
    o: Oracle,
    segments: Seq<SegmentModel>,
    i: int,
    text: Seq<char>,
    s: StateModel,
    t: StateModel,
)
    requires
        s.alike(t),
    ensures
        interpolation(o, segments, i, text, s) == interpolation(o, segments, i, text, t),
    decreases segments.len() - i,
{
    if !(i < 0 || i >= segments.len()) {
        match segments[i] {
            SegmentModel::String(literal) => {
                lemma_interpolation_alike(o, segments, i + 1, text + literal, s, t);
            },
            SegmentModel::Ident(name) => {
                if resolve(o, s, name) is Ok {
                    let handle = resolve(o, s, name)->Ok_0;
                    lemma_interpolation_alike(
                        o,
                        segments,
                        i + 1,
                        text + shown(o, s.target(handle)),
                        s,
                        t,
                    );
                }
            },
        }
    }
}

/// Binding parameters does not read what has been emitted.
pub proof fn lemma_bound_all_alike(
    s: StateModel,
    t: StateModel,
    params: Seq<Seq<char>>,
    handles: Seq<PointerModel>,
    i: int,
)
    requires
        s.alike(t),
    ensures
        bound_all(s, params, handles, i).alike(bound_all(t, params, handles, i)),
    decreases params.len() - i,
{
    if !(i < 0 || i >= params.len() || i >= handles.len()) {
        lemma_bound_all_alike(
            s.bound(params[i], handles[i]),
            t.bound(params[i], handles[i]),
            params,
            handles,
            i + 1,
        );
    }
}

/// An operator does not read what has been emitted.
pub proof fn lemma_applied_alike(
    o: Oracle,
    op: Operation,
    left: PointerModel,
    right: PointerModel,
    s: StateModel,
    t: StateModel,
)
    requires
        s.alike(t),
    ensures
        applied(o, op, left, right, s).result == applied(o, op, left, right, t).result,
        applied(o, op, left, right, s).state.alike(applied(o, op, left, right, t).state),
{
    if op is Equal && op->Equal_0 >= 2 {
        lemma_equality_alike(s, t, s.target(left), s.target(right), (op->Equal_0 - 1) as nat);
    }
}

/// What has been emitted is never read: evaluated in two states that have
/// the same cells and scopes, a node gives the same result and leaves
/// states that again have the same cells and scopes.
pub proof fn law_emissions_are_never_read(
    o: Oracle,
    node: SyntaxModel,
    s: StateModel,
    t: StateModel,
    depth: nat,
)
    requires
        s.alike(t),
    ensures
        evaluation(o, node, s, depth).result == evaluation(o, node, t, depth).result,
        evaluation(o, node, s, depth).state.alike(evaluation(o, node, t, depth).state),
    decreases depth, 0int, 0int,
{
    let d = (depth - 1) as nat;
    match node {
        SyntaxModel::Statement(printing, content, level) => {
            if depth > 0 {
                lemma_statement_alike(o, printing, *content, level, s, t, d);
            }
        },
        SyntaxModel::Negate(content) => {
            if depth > 0 {
                lemma_negation_alike(o, *content, s, t, d);
            }
        },
        SyntaxModel::Operation(lhs, op, rhs) => {
            if depth > 0 {
                lemma_operation_alike(o, *lhs, op, *rhs, s, t, d);
            }
        },
        SyntaxModel::Block(items) => {
            if items.len() > 0 && depth > 0 {
                lemma_block_alike(o, items, s, t, d);
            }
        },
        SyntaxModel::Declare(kind, name, value) => {
            if depth > 0 {
                lemma_declaration_alike(o, kind, name, *value, s, t, d);
            }
        },
        SyntaxModel::String(segments) => {
            lemma_interpolation_alike(o, segments, 0, Seq::empty(), s, t);
        },
        SyntaxModel::Call(name, args) => {
            if depth > 0 && resolve(o, s, name) is Ok {
                lemma_invocation_alike(o, resolve(o, s, name)->Ok_0, args, s, t, d);
            }
        },
        SyntaxModel::Ident(name) => {},
        SyntaxModel::Function(params, body) => {},
    }
}

/// A statement does not read what has been emitted.
pub proof fn lemma_statement_alike(
    o: Oracle,
    printing: bool,
    content: SyntaxModel,
    level: u8,
    s: StateModel,
    t: StateModel,
    d: nat,
)
    requires
        s.alike(t),
    ensures
        statement(o, printing, content, level, s, d).result == statement(
            o,
            printing,
            content,
            level,
            t,
            d,
        ).result,
        statement(o, printing, content, level, s, d).state.alike(
            statement(o, printing, content, level, t, d).state,
        ),
    decreases d, 1int, 0int,
{
    if !printing {
        law_emissions_are_never_read(o, content, s, t, d);
    } else {
        let announced_s = if level >= 3 {
            s.emitted(EmissionModel::Node(content))
        } else {
            s
        };
        let announced_t = if level >= 3 {
            t.emitted(EmissionModel::Node(content))
        } else {
            t
        };
        law_emissions_are_never_read(o, content, announced_s, announced_t, d);
    }
}

/// A negation does not read what has been emitted.
pub proof fn lemma_negation_alike(
    o: Oracle,
    content: SyntaxModel,
    s: StateModel,
    t: StateModel,
    d: nat,
)
    requires
        s.alike(t),
    ensures
        negated_outcome(o, content, s, d).result == negated_outcome(o, content, t, d).result,
        negated_outcome(o, content, s, d).state.alike(negated_outcome(o, content, t, d).state),
    decreases d, 1int, 0int,
{
    law_emissions_are_never_read(o, content, s, t, d);
}

/// A declaration does not read what has been emitted.
pub proof fn lemma_declaration_alike(
    o: Oracle,
    kind: VarType,
    name: Seq<char>,
    value: SyntaxModel,
    s: StateModel,
    t: StateModel,
    d: nat,
)
    requires
        s.alike(t),
    ensures
        declaration(o, kind, name, value, s, d).result == declaration(
            o,
            kind,
            name,
            value,
            t,
            d,
        ).result,
        declaration(o, kind, name, value, s, d).state.alike(
            declaration(o, kind, name, value, t, d).state,
        ),
    decreases d, 1int, 0int,
{
    law_emissions_are_never_read(o, value, s, t, d);
}

/// A block does not read what has been emitted.
pub proof fn lemma_block_alike(
    o: Oracle,
    items: Seq<SyntaxModel>,
    s: StateModel,
    t: StateModel,
    d: nat,
)
    requires
        s.alike(t),
    ensures
        block(o, items, s, d).result == block(o, items, t, d).result,
        block(o, items, s, d).state.alike(block(o, items, t, d).state),
    decreases d, 2int, 0int,
{
    lemma_sequence_alike(o, items, 0, s.entered(), t.entered(), d);
}

/// A sequence of nodes does not read what has been emitted.
pub proof fn lemma_sequence_alike(
    o: Oracle,
    items: Seq<SyntaxModel>,
    i: int,
    s: StateModel,
    t: StateModel,
    d: nat,
)
    requires
        s.alike(t),
    ensures
        sequence(o, items, i, s, d).result == sequence(o, items, i, t, d).result,
        sequence(o, items, i, s, d).state.alike(sequence(o, items, i, t, d).state),
    decreases d, 1int, items.len() - i,
{
    if !(i < 0 || i >= items.len()) {
        law_emissions_are_never_read(o, items[i], s, t, d);
        let out = evaluation(o, items[i], s, d);
        if !(out.result is Err || i + 1 == items.len()) {
            lemma_sequence_alike(
                o,
                items,
                i + 1,
                out.state,
                evaluation(o, items[i], t, d).state,
                d,
            );
        }
    }
}

/// A binary operation does not read what has been emitted.
pub proof fn lemma_operation_alike(
    o: Oracle,
    lhs: SyntaxModel,
    op: Operation,
    rhs: SyntaxModel,
    s: StateModel,
    t: StateModel,
    d: nat,
)
    requires
        s.alike(t),
    ensures
        operation(o, lhs, op, rhs, s, d).result == operation(o, lhs, op, rhs, t, d).result,
        operation(o, lhs, op, rhs, s, d).state.alike(operation(o, lhs, op, rhs, t, d).state),
    decreases d, 1int, 0int,
{
    law_emissions_are_never_read(o, lhs, s, t, d);
    let left_s = evaluation(o, lhs, s, d);
    let left_t = evaluation(o, lhs, t, d);
    if left_s.result is Ok {
        let handle = left_s.result->Ok_0;
        if !(left_s.state.target(handle) is Object && op is Dot && rhs is Ident) {
            law_emissions_are_never_read(o, rhs, left_s.state, left_t.state, d);
            let right_s = evaluation(o, rhs, left_s.state, d);
            let right_t = evaluation(o, rhs, left_t.state, d);
            if right_s.result is Ok {
                lemma_applied_alike(
                    o,
                    op,
                    handle,
                    right_s.result->Ok_0,
                    right_s.state,
                    right_t.state,
                );
            }
        }
    }
}

/// The built-in `if` does not read what has been emitted.
pub proof fn lemma_conditional_alike(
    o: Oracle,
    args: Seq<SyntaxModel>,
    s: StateModel,
    t: StateModel,
    d: nat,
)
    requires
        s.alike(t),
    ensures
        conditional(o, args, s, d).result == conditional(o, args, t, d).result,
        conditional(o, args, s, d).state.alike(conditional(o, args, t, d).state),
    decreases d, 1int, 0int,
{
    if args.len() >= 2 {
        law_emissions_are_never_read(o, args[0], s, t, d);
        let condition_s = evaluation(o, args[0], s, d);
        let condition_t = evaluation(o, args[0], t, d);
        if condition_s.result is Ok {
            law_emissions_are_never_read(o, args[1], condition_s.state, condition_t.state, d);
            if args.len() > 2 {
                law_emissions_are_never_read(o, args[2], condition_s.state, condition_t.state, d);
            }
            if args.len() > 3 {
                law_emissions_are_never_read(o, args[3], condition_s.state, condition_t.state, d);
            }
        }
    }
}

/// The built-in `eval` does not read what has been emitted.
pub proof fn lemma_reentry_alike(
    o: Oracle,
    args: Seq<SyntaxModel>,
    s: StateModel,
    t: StateModel,
    d: nat,
)
    requires
        s.alike(t),
    ensures
        reentry(o, args, s, d).result == reentry(o, args, t, d).result,
        reentry(o, args, s, d).state.alike(reentry(o, args, t, d).state),
    decreases d, 1int, 0int,
{
    if args.len() == 1 {
        law_emissions_are_never_read(o, args[0], s, t, d);
        let source_s = evaluation(o, args[0], s, d);
        let source_t = evaluation(o, args[0], t, d);
        if source_s.result is Ok {
            let parsed = (o.parse)(shown(o, source_s.state.target(source_s.result->Ok_0)));
            if parsed is Ok {
                law_emissions_are_never_read(o, parsed->Ok_0, source_s.state, source_t.state, d);
            }
        }
    }
}

/// Evaluating the arguments of a call does not read what has been emitted.
pub proof fn lemma_arguments_alike(
    o: Oracle,
    count: nat,
    args: Seq<SyntaxModel>,
    i: int,
    handles: Seq<PointerModel>,
    s: StateModel,
    t: StateModel,
    d: nat,
)
    requires
        s.alike(t),
    ensures
        arguments(o, count, args, i, handles, s, d).result == arguments(
            o,
            count,
            args,
            i,
            handles,
            t,
            d,
        ).result,
        arguments(o, count, args, i, handles, s, d).state.alike(
            arguments(o, count, args, i, handles, t, d).state,
        ),
    decreases d, 1int, count - i,
{
    if !(i < 0 || i >= count) {
        if i < args.len() {
            law_emissions_are_never_read(o, args[i], s, t, d);
            let out_s = evaluation(o, args[i], s, d);
            let out_t = evaluation(o, args[i], t, d);
            if out_s.result is Ok {
                lemma_arguments_alike(
                    o,
                    count,
                    args,
                    i + 1,
                    handles.push(out_s.result->Ok_0),
                    out_s.state,
                    out_t.state,
                    d,
                );
            }
        } else {
            lemma_arguments_alike(
                o,
                count,
                args,
                i + 1,
                handles.push(PointerModel::undefined()),
                s,
                t,
                d,
            );
        }
    }
}

/// A call of a function value does not read what has been emitted.
pub proof fn lemma_application_alike(
    o: Oracle,
    params: Seq<Seq<char>>,
    body: SyntaxModel,
    args: Seq<SyntaxModel>,
    s: StateModel,
    t: StateModel,
    d: nat,
)
    requires
        s.alike(t),
    ensures
        application(o, params, body, args, s, d).result == application(
            o,
            params,
            body,
            args,
            t,
            d,
        ).result,
        application(o, params, body, args, s, d).state.alike(
            application(o, params, body, args, t, d).state,
        ),
    decreases d, 2int, 0int,
{
    lemma_arguments_alike(o, params.len(), args, 0, Seq::empty(), s, t, d);
    let gathered_s = arguments(o, params.len(), args, 0, Seq::empty(), s, d);
    let gathered_t = arguments(o, params.len(), args, 0, Seq::empty(), t, d);
    if gathered_s.result is Ok {
        let handles = gathered_s.result->Ok_0;
        lemma_bound_all_alike(
            gathered_s.state.entered(),
            gathered_t.state.entered(),
            params,
            handles,
            0,
        );
        law_emissions_are_never_read(
            o,
            body,
            bound_all(gathered_s.state.entered(), params, handles, 0),
            bound_all(gathered_t.state.entered(), params, handles, 0),
            d,
        );
    }
}

/// A call does not read what has been emitted.
pub proof fn lemma_invocation_alike(
    o: Oracle,
    callee: PointerModel,
    args: Seq<SyntaxModel>,
    s: StateModel,
    t: StateModel,
    d: nat,
)
    requires
        s.alike(t),
    ensures
        invocation(o, callee, args, s, d).result == invocation(o, callee, args, t, d).result,
        invocation(o, callee, args, s, d).state.alike(invocation(o, callee, args, t, d).state),
    decreases d, 3int, 0int,
{
    match s.target(callee) {
        ValueModel::Keyword(Keyword::If) => lemma_conditional_alike(o, args, s, t, d),
        ValueModel::Keyword(Keyword::Delete) => {
            assert(deletion(args, s).state.alike(deletion(args, t).state));
        },
        ValueModel::Keyword(Keyword::Function) => {
            assert(definition(args, s).state.alike(definition(args, t).state));
        },
        ValueModel::Keyword(Keyword::Eval) => lemma_reentry_alike(o, args, s, t, d),
        ValueModel::Function(params, body) => lemma_application_alike(
            o,
            params,
            body,
            args,
            s,
            t,
            d,
        ),
        ValueModel::Object(members) => {
            match ValueModel::find(members, ValueModel::String("call"@)) {
                Some(i) => {
                    if d > 0 {
                        lemma_invocation_alike(
                            o,
                            members[i].slot,
                            args,
                            s.entered().bound("self"@, callee),
                            t.entered().bound("self"@, callee),
                            (d - 1) as nat,
                        );
                    }
                },
                None => {},
            }
        },
        _ => {},
    }
}

} // verus!
