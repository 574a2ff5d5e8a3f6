//! Laws of the language, proved of the semantics for every oracle.

use vstd::prelude::*;
use crate::fault::FaultKind;
use crate::host::{Arithmetic, Oracle};
use crate::pointer::arithmetic_result;
use crate::semantics::{
    Outcome,
    application,
    applied,
    arguments,
    block,
    bound_all,
    conditional,
    declaration,
    done,
    evaluation,
    failed,
    invocation,
    operation,
    resolve,
    sequence,
};
use crate::state::{BindingModel, StateModel, frame_find, frame_find_from, lookup_in};
use crate::syntax::{Operation, SyntaxModel, VarType};
use crate::value::{Boolean, Keyword, MemberModel, PointerModel, ValueModel, is_zero};

verus! {

/// What `frame_find_from` finds is the first binding of the name at or
/// after the starting index.
pub proof fn lemma_frame_find_from(frame: Seq<BindingModel>, name: Seq<char>, k: int)
    requires
        0 <= k <= frame.len(),
    ensures
        match frame_find_from(frame, name, k) {
            Some(i) => k <= i < frame.len() && frame[i].name == name && forall|j: int|
                k <= j < i ==> (#[trigger] frame[j]).name != name,
            None => forall|j: int| k <= j < frame.len() ==> (#[trigger] frame[j]).name != name,
        },
    decreases frame.len() - k,
{
    if k < frame.len() && frame[k].name != name {
        lemma_frame_find_from(frame, name, k + 1);
    }
}

/// The first binding of a name at or after the starting index is what
/// `frame_find_from` finds.
pub proof fn lemma_frame_find_first(frame: Seq<BindingModel>, name: Seq<char>, k: int, i: int)
    requires
        0 <= k <= i < frame.len(),
        frame[i].name == name,
        forall|j: int| k <= j < i ==> (#[trigger] frame[j]).name != name,
    ensures
        frame_find_from(frame, name, k) == Some(i),
    decreases i - k,
{
    if k < i {
        assert(frame[k].name != name);
        lemma_frame_find_first(frame, name, k + 1, i);
    }
}

/// Where no binding at or after the starting index has the name,
/// `frame_find_from` finds none.
pub proof fn lemma_frame_find_none(frame: Seq<BindingModel>, name: Seq<char>, k: int)
    requires
        0 <= k <= frame.len(),
        forall|j: int| k <= j < frame.len() ==> (#[trigger] frame[j]).name != name,
    ensures
        frame_find_from(frame, name, k) is None,
    decreases frame.len() - k,
{
    if k < frame.len() {
        assert(frame[k].name != name);
        lemma_frame_find_none(frame, name, k + 1);
    }
}

/// Lookup from frame `k` outward reads frames `0` to `k` only.
pub proof fn lemma_lookup_in_prefix(
    a: Seq<Seq<BindingModel>>,
    b: Seq<Seq<BindingModel>>,
    name: Seq<char>,
    k: int,
)
    requires
        k < a.len(),
        k < b.len(),
        forall|j: int| 0 <= j <= k ==> a[j] == b[j],
    ensures
        lookup_in(a, name, k) == lookup_in(b, name, k),
    decreases k + 1,
{
    if k >= 0 {
        assert(a[k] == b[k]);
        lemma_lookup_in_prefix(a, b, name, k - 1);
    }
}

/// A name reads back as what it was just bound to.
pub proof fn lemma_lookup_bound_same(state: StateModel, name: Seq<char>, handle: PointerModel)
    ensures
        state.bound(name, handle).lookup(name) == Some(handle),
        state.bound(name, handle).cells == state.cells,
        state.bound(name, handle).output == state.output,
{
    let binding = BindingModel { name, handle };
    let after = state.bound(name, handle);
    if state.frames.len() == 0 {
        assert(after.frames[0] == seq![binding]);
        lemma_frame_find_first(after.frames[0], name, 0, 0);
    } else {
        let last = state.frames.last();
        lemma_frame_find_from(last, name, 0);
        let frame = after.frames[after.frames.len() - 1];
        match frame_find(last, name) {
            Some(i) => {
                assert(frame == last.update(i, binding));
                assert forall|j: int| 0 <= j < i implies (#[trigger] frame[j]).name != name by {
                    assert(frame[j] == last[j]);
                }
                lemma_frame_find_first(frame, name, 0, i);
            },
            None => {
                assert(frame == last.push(binding));
                assert forall|j: int| 0 <= j < last.len() implies (#[trigger] frame[j]).name
                    != name by {
                    assert(frame[j] == last[j]);
                }
                lemma_frame_find_first(frame, name, 0, last.len() as int);
            },
        }
    }
}

/// Binding one name leaves what every other name stands for.
pub proof fn lemma_lookup_bound_other(
    state: StateModel,
    name: Seq<char>,
    handle: PointerModel,
    other: Seq<char>,
)
    requires
        name != other,
    ensures
        state.bound(name, handle).lookup(other) == state.lookup(other),
{
    let binding = BindingModel { name, handle };
    let after = state.bound(name, handle);
    if state.frames.len() == 0 {
        assert(after.frames[0] == seq![binding]);
        lemma_frame_find_none(after.frames[0], other, 0);
    } else {
        let n = state.frames.len() as int;
        let last = state.frames.last();
        let frame = after.frames[n - 1];
        lemma_frame_find_from(last, name, 0);
        lemma_frame_find_from(last, other, 0);
        assert(frame.len() >= last.len());
        assert forall|j: int| 0 <= j < last.len() implies ((#[trigger] frame[j]).name == other
            <==> last[j].name == other) && (last[j].name == other ==> frame[j] == last[j]) by {
            match frame_find(last, name) {
                Some(i) => {
                    assert(frame == last.update(i, binding));
                },
                None => {
                    assert(frame == last.push(binding));
                },
            }
        }
        assert(after.frames.len() == n);
        assert(after.frames =~= state.frames.drop_last().push(frame));
        assert(state.frames[n - 1] == last);
        assert(state.lookup(other) == lookup_in(state.frames, other, n - 1));
        assert(after.lookup(other) == lookup_in(after.frames, other, n - 1));
        match frame_find(last, other) {
            Some(i) => {
                assert forall|j: int| 0 <= j < i implies (#[trigger] frame[j]).name != other by {
                    assert(last[j].name != other);
                }
                assert(frame[i].name == other);
                lemma_frame_find_first(frame, other, 0, i);
                assert(frame[i] == last[i]);
            },
            None => {
                assert forall|j: int| 0 <= j < frame.len() implies (#[trigger] frame[j]).name
                    != other by {
                    if j < last.len() {
                        assert(last[j].name != other);
                    } else {
                        assert(frame_find(last, name) is None);
                        assert(frame == last.push(binding));
                    }
                }
                lemma_frame_find_none(frame, other, 0);
                if n >= 2 {
                    assert forall|j: int| 0 <= j <= n - 2 implies after.frames[j]
                        == state.frames[j] by {
                        assert(state.frames.drop_last()[j] == state.frames[j]);
                    }
                    lemma_lookup_in_prefix(after.frames, state.frames, other, n - 2);
                }
                assert(lookup_in(after.frames, other, n - 1) == lookup_in(
                    after.frames,
                    other,
                    n - 2,
                ));
                assert(lookup_in(state.frames, other, n - 1) == lookup_in(
                    state.frames,
                    other,
                    n - 2,
                ));
            },
        }
    }
}

/// A new, empty scope hides nothing.
pub proof fn lemma_lookup_entered(state: StateModel, name: Seq<char>)
    ensures
        state.entered().lookup(name) == state.lookup(name),
{
    let after = state.entered();
    let n = state.frames.len() as int;
    assert(after.frames[n] == Seq::<BindingModel>::empty());
    if n >= 1 {
        lemma_lookup_in_prefix(after.frames, state.frames, name, n - 1);
    }
}

/// Binding touches the innermost frame only: the cells, the output and the
/// frames further out stay as they are.
pub proof fn lemma_bound_all_frame(
    state: StateModel,
    params: Seq<Seq<char>>,
    handles: Seq<PointerModel>,
    i: int,
)
    requires
        state.frames.len() > 0,
    ensures
        bound_all(state, params, handles, i).cells == state.cells,
        bound_all(state, params, handles, i).output == state.output,
        bound_all(state, params, handles, i).frames.len() == state.frames.len(),
        bound_all(state, params, handles, i).frames.drop_last() == state.frames.drop_last(),
    decreases params.len() - i,
{
    if !(i < 0 || i >= params.len() || i >= handles.len()) {
        let next = state.bound(params[i], handles[i]);
        assert(next.frames.drop_last() =~= state.frames.drop_last());
        lemma_bound_all_frame(next, params, handles, i + 1);
    }
}

/// Binding parameters leaves what every name that is not among them stands
/// for.
pub proof fn lemma_bound_all_lookup(
    state: StateModel,
    params: Seq<Seq<char>>,
    handles: Seq<PointerModel>,
    i: int,
    name: Seq<char>,
)
    requires
        0 <= i,
        forall|j: int| i <= j < params.len() ==> params[j] != name,
    ensures
        bound_all(state, params, handles, i).lookup(name) == state.lookup(name),
    decreases params.len() - i,
{
    if !(i >= params.len() || i >= handles.len()) {
        let next = state.bound(params[i], handles[i]);
        lemma_lookup_bound_other(state, params[i], handles[i], name);
        lemma_bound_all_lookup(next, params, handles, i + 1, name);
    }
}

/// A call without arguments evaluates nothing: every parameter gets
/// undefined and the state stays as it is.
pub proof fn lemma_no_arguments(
    o: Oracle,
    count: nat,
    i: int,
    handles: Seq<PointerModel>,
    state: StateModel,
    d: nat,
)
    requires
        0 <= i,
    ensures
        arguments(o, count, Seq::empty(), i, handles, state, d).result is Ok,
        arguments(o, count, Seq::empty(), i, handles, state, d).state == state,
    decreases count - i,
{
    if i < count {
        lemma_no_arguments(
            o,
            count,
            i + 1,
            handles.push(PointerModel::undefined()),
            state,
            d,
        );
    }
}

/// What `find_from` finds is the first member under the key at or after the
/// starting index.
pub proof fn lemma_find_from(members: Seq<MemberModel>, key: ValueModel, k: int)
    requires
        0 <= k <= members.len(),
    ensures
        match ValueModel::find_from(members, key, k) {
            Some(i) => k <= i < members.len() && members[i].key == key,
            None => forall|j: int| k <= j < members.len() ==> (#[trigger] members[j]).key != key,
        },
    decreases members.len() - k,
{
    if k < members.len() && members[k].key != key {
        lemma_find_from(members, key, k + 1);
    }
}

/// A member added at the end under a key that the object did not have is
/// what a search for that key finds.
pub proof fn lemma_find_pushed(members: Seq<MemberModel>, member: MemberModel, k: int)
    requires
        0 <= k <= members.len(),
        forall|j: int| k <= j < members.len() ==> (#[trigger] members[j]).key != member.key,
    ensures
        ValueModel::find_from(members.push(member), member.key, k) == Some(members.len() as int),
    decreases members.len() - k,
{
    let grown = members.push(member);
    if k < members.len() {
        assert(grown[k] == members[k]);
        assert(members[k].key != member.key);
        lemma_find_pushed(members, member, k + 1);
    } else {
        assert(grown[k] == member);
    }
}

/// Opening a scope and closing it again changes nothing.
pub proof fn lemma_entered_left(state: StateModel)
    ensures
        state.entered().left() == state,
{
    assert(state.entered().frames.drop_last() =~= state.frames);
}

/// Conversion keeps the target: whatever kind a handle is converted to, the
/// new handle refers, in the state after, to what the old one referred to
/// before. Holds of every state whose cells can be counted in a `usize`, as
/// those of every executable state can.
pub proof fn law_conversion_keeps_target(state: StateModel, handle: PointerModel, kind: VarType)
    requires
        state.cells.len() <= usize::MAX,
    ensures
        state.converted(handle, kind).1.target(state.converted(handle, kind).0) == state.target(
            handle,
        ),
        state.converted(handle, kind).1.frames == state.frames,
        state.converted(handle, kind).1.output == state.output,
{
}

/// Division by zero is undefined: whatever number is divided by a zero of
/// either sign, the result is undefined, and the host is not asked.
pub proof fn law_division_by_zero_is_undefined(o: Oracle, a: u64, b: u64)
    requires
        is_zero(b),
    ensures
        arithmetic_result(o, Arithmetic::Div, ValueModel::Number(a), ValueModel::Number(b))
            == ValueModel::Undefined,
{
}

/// Division by zero is undefined for the operator too: where the right
/// operand refers to a zero, `/` gives an owned, fixed handle on undefined
/// and leaves the state as it is, and `/=` assigns undefined through the
/// left handle.
pub proof fn law_dividing_by_zero_gives_undefined(
    o: Oracle,
    left: PointerModel,
    right: PointerModel,
    state: StateModel,
)
    requires
        state.target(right) is Number,
        is_zero(state.target(right)->Number_0),
    ensures
        applied(o, Operation::Div, left, right, state) == done(PointerModel::undefined(), state),
        applied(o, Operation::DivEq, left, right, state) == (match state.assigned(
            left,
            ValueModel::Undefined,
        ) {
            Some(after) => done(after.0, after.1),
            None => failed(FaultKind::Unassignable, state),
        }),
{
}

/// A declared name reads back: right after a declaration that succeeded,
/// the name stands for a handle whose target is the declared value, which
/// equals it at depth one, and reading it changes nothing.
pub proof fn law_declaration_reads_back(
    o: Oracle,
    kind: VarType,
    name: Seq<char>,
    value: SyntaxModel,
    state: StateModel,
    depth: nat,
    later: nat,
)
    requires
        depth > 0,
        evaluation(o, value, state, (depth - 1) as nat).result is Ok,
        evaluation(o, value, state, (depth - 1) as nat).state.cells.len() <= usize::MAX,
    ensures
        ({
            let source = evaluation(o, value, state, (depth - 1) as nat);
            let declared = evaluation(
                o,
                SyntaxModel::Declare(kind, name, Box::new(value)),
                state,
                depth,
            );
            let read = evaluation(o, SyntaxModel::Ident(name), declared.state, later);
            &&& declared.result == Ok::<PointerModel, Seq<char>>(
                PointerModel::undefined(),
            )
            &&& read.result is Ok
            &&& read.state == declared.state
            &&& declared.state.target(read.result->Ok_0) == source.state.target(
                source.result->Ok_0,
            )
            &&& declared.state.equality(
                declared.state.target(read.result->Ok_0),
                source.state.target(source.result->Ok_0),
                1,
            ) == Boolean::True
        }),
{
    let source = evaluation(o, value, state, (depth - 1) as nat);
    let handle = source.result->Ok_0;
    let made = source.state.converted(handle, kind);
    let declared = evaluation(o, SyntaxModel::Declare(kind, name, Box::new(value)), state, depth);
    assert(declared == declaration(o, kind, name, value, state, (depth - 1) as nat));
    assert(declared.state == made.1.bound(name, made.0));
    law_conversion_keeps_target(source.state, handle, kind);
    lemma_lookup_bound_same(made.1, name, made.0);
    assert(resolve(o, declared.state, name) == Ok::<PointerModel, Seq<char>>(
        made.0,
    ));
    assert(declared.state.target(made.0) == made.1.target(made.0));
}

/// What `.` with a bare identifier finds once, it finds again: looked up in
/// an object that a shared handle refers to, a name gives the same handle
/// the second time as the first, and the second lookup changes nothing.
pub proof fn law_member_is_found_again(state: StateModel, handle: PointerModel, name: Seq<char>)
    requires
        handle.shared(),
        state.target(handle) is Object,
    ensures
        ({
            let first = state.vivified(handle, name);
            &&& first.1.target(handle) is Object
            &&& first.1.vivified(handle, name) == first
            &&& first.1.frames == state.frames
            &&& first.1.output == state.output
        }),
{
    let key = ValueModel::String(name);
    let members = state.target(handle)->Object_0;
    let first = state.vivified(handle, name);
    lemma_find_from(members, key, 0);
    match ValueModel::find(members, key) {
        Some(i) => {},
        None => {
            let slot = PointerModel::ConstVar(state.next_cell());
            let member = MemberModel { key, slot };
            lemma_find_pushed(members, member, 0);
            let cell = match handle {
                PointerModel::ConstVar(cell) => cell,
                PointerModel::VarVar(cell) => cell,
                _ => 0,
            };
            assert(cell < state.cells.len());
            assert(first.1.target(handle) == ValueModel::Object(members.push(member)));
            assert(members.push(member)[members.len() as int] == member);
        },
    }
}

/// Auto-vivification gives one handle: where a name stands for a shared
/// handle on an object, evaluating `name.member` twice in a row gives the
/// same shared handle both times, and the second evaluation changes
/// nothing, so that what is assigned through the first is read through the
/// second.
pub proof fn law_vivified_member_is_shared(
    o: Oracle,
    object: Seq<char>,
    member: Seq<char>,
    state: StateModel,
    depth: nat,
)
    requires
        depth >= 1,
        state.lookup(object) is Some,
        state.lookup(object)->Some_0.shared(),
        state.target(state.lookup(object)->Some_0) is Object,
    ensures
        ({
            let access = SyntaxModel::Operation(
                Box::new(SyntaxModel::Ident(object)),
                Operation::Dot,
                Box::new(SyntaxModel::Ident(member)),
            );
            let first = evaluation(o, access, state, depth);
            let second = evaluation(o, access, first.state, depth);
            &&& first.result is Ok
            &&& second == first
            &&& ValueModel::find(
                state.target(state.lookup(object)->Some_0)->Object_0,
                ValueModel::String(member),
            ) is None ==> first.result->Ok_0 == PointerModel::ConstVar(state.next_cell())
        }),
{
    let handle = state.lookup(object)->Some_0;
    let lhs = SyntaxModel::Ident(object);
    let rhs = SyntaxModel::Ident(member);
    let access = SyntaxModel::Operation(Box::new(lhs), Operation::Dot, Box::new(rhs));
    let d = (depth - 1) as nat;
    let first = evaluation(o, access, state, depth);
    assert(first == operation(o, lhs, Operation::Dot, rhs, state, d));
    assert(evaluation(o, lhs, state, d) == done(handle, state));
    assert(first == done(state.vivified(handle, member).0, state.vivified(handle, member).1));
    law_member_is_found_again(state, handle, member);
    let second = evaluation(o, access, first.state, depth);
    assert(second == operation(o, lhs, Operation::Dot, rhs, first.state, d));
    assert(first.state.lookup(object) == state.lookup(object));
    assert(evaluation(o, lhs, first.state, d) == done(handle, first.state));
    lemma_find_from(state.target(handle)->Object_0, ValueModel::String(member), 0);
}

/// What is written through one shared handle is read through every other:
/// assigning through a shared handle changes what every handle on the same
/// cell refers to, whichever of the two shared kinds each is.
pub proof fn law_shared_handles_alias(state: StateModel, cell: usize, value: ValueModel)
    requires
        cell < state.cells.len(),
    ensures
        state.assigned(PointerModel::ConstVar(cell), value) == Some(
            (PointerModel::ConstVar(cell), state.written(cell, value)),
        ),
        state.assigned(PointerModel::VarVar(cell), value) == Some(
            (PointerModel::VarVar(cell), state.written(cell, value)),
        ),
        state.written(cell, value).target(PointerModel::ConstVar(cell)) == value,
        state.written(cell, value).target(PointerModel::VarVar(cell)) == value,
{
}

/// What is assigned through an owned handle is seen by no other handle:
/// the cells stay as they are.
pub proof fn law_owned_handles_do_not_alias(
    state: StateModel,
    held: ValueModel,
    value: ValueModel,
)
    ensures
        state.assigned(PointerModel::VarConst(held), value) == Some(
            (PointerModel::VarConst(value), state),
        ),
        state.assigned(PointerModel::ConstConst(held), value) is None,
{
}

/// One `=` assigns: it writes the right operand's target through the left
/// handle and gives the right handle, and fails only through an owned,
/// fixed handle.
pub proof fn law_one_sign_assigns(
    o: Oracle,
    left: PointerModel,
    right: PointerModel,
    state: StateModel,
)
    ensures
        ({
            let out = applied(o, Operation::Equal(1), left, right, state);
            if left is ConstConst {
                out.result is Err && out.state == state
            } else {
                &&& out.result == Ok::<PointerModel, Seq<char>>(right)
                &&& left.shared() ==> out.state == state.written(
                    match left {
                        PointerModel::ConstVar(cell) => cell,
                        PointerModel::VarVar(cell) => cell,
                        _ => 0,
                    },
                    state.target(right),
                )
                &&& !left.shared() ==> out.state == state
            }
        }),
{
}

/// More than one `=` never assigns: `n` signs, for `n` of two and more,
/// compare the two targets at depth `n - 1` and leave the state as it is.
pub proof fn law_more_signs_compare(
    o: Oracle,
    signs: u8,
    left: PointerModel,
    right: PointerModel,
    state: StateModel,
)
    requires
        signs >= 2,
    ensures
        applied(o, Operation::Equal(signs), left, right, state) == done(
            PointerModel::truth(
                state.equality(state.target(left), state.target(right), (signs - 1) as nat),
            ),
            state,
        ),
{
}

/// A value equals itself at every depth.
pub proof fn law_equality_is_reflexive(state: StateModel, value: ValueModel, depth: nat)
    ensures
        state.equality(value, value, depth) == Boolean::True,
{
}

/// The empty block gives undefined and changes nothing, with however
/// little depth.
pub proof fn law_empty_block_is_undefined(o: Oracle, state: StateModel, depth: nat)
    ensures
        evaluation(o, SyntaxModel::Block(Seq::empty()), state, depth) == done(
            PointerModel::undefined(),
            state,
        ),
{
}

/// A block of three gives what its last node gives: the first two are
/// evaluated in order in the block's scope, for what they do to the state,
/// and the third is evaluated in the state they leave. The scope is closed
/// afterwards.
pub proof fn law_block_gives_its_last(
    o: Oracle,
    a: SyntaxModel,
    b: SyntaxModel,
    c: SyntaxModel,
    state: StateModel,
    depth: nat,
)
    requires
        depth > 0,
        evaluation(o, a, state.entered(), (depth - 1) as nat).result is Ok,
        evaluation(
            o,
            b,
            evaluation(o, a, state.entered(), (depth - 1) as nat).state,
            (depth - 1) as nat,
        ).result is Ok,
    ensures
        ({
            let d = (depth - 1) as nat;
            let first = evaluation(o, a, state.entered(), d);
            let second = evaluation(o, b, first.state, d);
            let third = evaluation(o, c, second.state, d);
            evaluation(o, SyntaxModel::Block(seq![a, b, c]), state, depth) == (Outcome {
                result: third.result,
                state: third.state.left(),
            })
        }),
{
    let d = (depth - 1) as nat;
    let items = seq![a, b, c];
    let first = evaluation(o, a, state.entered(), d);
    let second = evaluation(o, b, first.state, d);
    let third = evaluation(o, c, second.state, d);
    assert(evaluation(o, SyntaxModel::Block(items), state, depth) == block(o, items, state, d));
    assert(items[0] == a && items[1] == b && items[2] == c);
    assert(sequence(o, items, 2, second.state, d) == third);
    assert(sequence(o, items, 1, first.state, d) == third);
    assert(sequence(o, items, 0, state.entered(), d) == third);
}

/// Scoping is dynamic: a function whose body is an identifier that is not
/// one of its parameters gives what that identifier stands for where the
/// function is called. The arguments are evaluated first, in the caller's
/// scope; the identifier is then resolved in the state they leave, which
/// is also the state that the call leaves. Where the function was made
/// plays no part: the function value holds no scope.
pub proof fn law_free_identifier_resolves_at_call_site(
    o: Oracle,
    callee: PointerModel,
    params: Seq<Seq<char>>,
    free: Seq<char>,
    args: Seq<SyntaxModel>,
    state: StateModel,
    d: nat,
)
    requires
        state.target(callee) == ValueModel::Function(params, SyntaxModel::Ident(free)),
        forall|j: int| 0 <= j < params.len() ==> params[j] != free,
        arguments(o, params.len(), args, 0, Seq::empty(), state, d).result is Ok,
    ensures
        ({
            let after = arguments(o, params.len(), args, 0, Seq::empty(), state, d).state;
            invocation(o, callee, args, state, d) == (Outcome {
                result: resolve(o, after, free),
                state: after,
            })
        }),
{
    let body = SyntaxModel::Ident(free);
    assert(invocation(o, callee, args, state, d) == application(o, params, body, args, state, d));
    let gathered = arguments(o, params.len(), args, 0, Seq::empty(), state, d);
    let handles = gathered.result->Ok_0;
    let after = gathered.state;
    let inner = bound_all(after.entered(), params, handles, 0);
    lemma_bound_all_frame(after.entered(), params, handles, 0);
    lemma_bound_all_lookup(after.entered(), params, handles, 0, free);
    lemma_lookup_entered(after, free);
    assert(inner.lookup(free) == after.lookup(free));
    assert(evaluation(o, body, inner, d) == (Outcome { result: resolve(o, inner, free), state: inner }));
    assert(after.entered().frames.drop_last() =~= after.frames);
    assert(inner.left() == after);
}

/// A call without arguments evaluates nothing, so that a function whose
/// body is a free identifier, called without arguments, gives what the
/// identifier stands for in the caller's state and leaves that state.
pub proof fn law_free_identifier_without_arguments(
    o: Oracle,
    callee: PointerModel,
    params: Seq<Seq<char>>,
    free: Seq<char>,
    state: StateModel,
    d: nat,
)
    requires
        state.target(callee) == ValueModel::Function(params, SyntaxModel::Ident(free)),
        forall|j: int| 0 <= j < params.len() ==> params[j] != free,
    ensures
        invocation(o, callee, Seq::empty(), state, d) == (Outcome {
            result: resolve(o, state, free),
            state,
        }),
{
    lemma_no_arguments(o, params.len(), 0, Seq::empty(), state, d);
    law_free_identifier_resolves_at_call_site(o, callee, params, free, Seq::empty(), state, d);
}

/// A condition that is maybe takes the fourth argument: called with a
/// condition, a then-branch, an else-branch and a maybe-branch, `if`
/// evaluates the maybe-branch where the condition's truth value is maybe,
/// in the state that the condition left, and not the else-branch.
pub proof fn law_maybe_takes_the_fourth_branch(
    o: Oracle,
    callee: PointerModel,
    args: Seq<SyntaxModel>,
    state: StateModel,
    d: nat,
)
    requires
        state.target(callee) == ValueModel::Keyword(Keyword::If),
        args.len() >= 4,
        evaluation(o, args[0], state, d).result is Ok,
        evaluation(o, args[0], state, d).state.target(
            evaluation(o, args[0], state, d).result->Ok_0,
        ).truth() is Maybe,
    ensures
        invocation(o, callee, args, state, d) == evaluation(
            o,
            args[3],
            evaluation(o, args[0], state, d).state,
            d,
        ),
{
    assert(invocation(o, callee, args, state, d) == conditional(o, args, state, d));
}

} // verus!
