//! What every state that evaluation reaches has in common.
//!
//! A state is well formed where it has a scope, no scope binds a name
//! twice, no object anywhere in it stores two members under one key, and
//! every shared handle anywhere in it names a cell that exists. The first
//! state is well formed, and evaluation keeps states well formed: it leaves
//! the scopes outside the innermost as they are, leaves as many scopes as
//! it found, and never takes a cell away.

use vstd::prelude::*;
use crate::host::Oracle;
use crate::laws::{lemma_find_from, lemma_frame_find_from};
use crate::pointer::arithmetic_result;
use crate::semantics::{
    Outcome,
    assigned_value,
    assigns,
    application,
    applied,
    arguments,
    arithmetic_of,
    block,
    bound_all,
    conditional,
    declaration,
    definition,
    deletion,
    evaluation,
    held,
    invocation,
    negated_outcome,
    operation,
    reentry,
    resolve,
    sequence,
    statement,
};
use crate::state::{BindingModel, StateModel, frame_find, located_in, lookup_in};
use crate::syntax::{Operation, SyntaxModel, VarType};
use crate::value::{Boolean, Keyword, MemberModel, PointerModel, ValueModel};

verus! {

broadcast use vstd::seq::axiom_seq_index_decreases;

/// No two members are stored under one key.
pub open spec fn distinct_keys(members: Seq<MemberModel>) -> bool {
    forall|i: int, j: int| 0 <= i < j < members.len() ==> members[i].key != members[j].key
}

/// No name is bound twice.
pub open spec fn distinct_names(frame: Seq<BindingModel>) -> bool {
    forall|i: int, j: int| 0 <= i < j < frame.len() ==> frame[i].name != frame[j].name
}

impl ValueModel {
    /// Every object in this value, however deep in owned handles, stores
    /// its members under distinct keys, and every shared handle in it
    /// names one of the first `cells` cells.
    pub open spec fn well_formed(self, cells: nat) -> bool
        decreases self,
    {
        match self {
            ValueModel::Object(members) => distinct_keys(members) && forall|i: int|
                0 <= i < members.len() ==> (#[trigger] members[i]).key.well_formed(cells)
                    && members[i].slot.well_formed(cells),
            _ => true,
        }
    }
}

impl PointerModel {
    /// A shared handle names one of the first `cells` cells; the value
    /// that an owned handle holds is well formed.
    pub open spec fn well_formed(self, cells: nat) -> bool
        decreases self,
    {
        match self {
            PointerModel::ConstConst(value) => value.well_formed(cells),
            PointerModel::VarConst(value) => value.well_formed(cells),
            PointerModel::ConstVar(cell) => cell < cells,
            PointerModel::VarVar(cell) => cell < cells,
        }
    }
}

/// A binding is kept where it binds the same name to the same handle, or
/// to an owned, reassignable handle in place of another: the holder of
/// such a handle may have been given a new target.
pub open spec fn binding_kept(before: BindingModel, after: BindingModel) -> bool {
    after.name == before.name && (after.handle == before.handle || (before.handle is VarConst
        && after.handle is VarConst))
}

/// A frame is kept where it has the same bindings in the same places, each
/// of them kept.
pub open spec fn frame_kept(before: Seq<BindingModel>, after: Seq<BindingModel>) -> bool {
    after.len() == before.len() && forall|i: int|
        0 <= i < before.len() ==> binding_kept(before[i], #[trigger] after[i])
}

/// Every handle that a frame binds is well formed, and no name is bound
/// twice.
pub open spec fn frame_well_formed(frame: Seq<BindingModel>, cells: nat) -> bool {
    distinct_names(frame) && forall|i: int|
        0 <= i < frame.len() ==> (#[trigger] frame[i]).handle.well_formed(cells)
}

impl StateModel {
    /// There is a scope, every scope is well formed, and so is the value
    /// in every cell; no handle names a cell that does not exist.
    pub open spec fn well_formed(self) -> bool {
        &&& self.frames.len() >= 1
        &&& forall|k: int|
            0 <= k < self.frames.len() ==> frame_well_formed(
                #[trigger] self.frames[k],
                self.cells.len(),
            )
        &&& forall|c: int|
            0 <= c < self.cells.len() ==> (#[trigger] self.cells[c]).well_formed(self.cells.len())
    }

    /// `after` has as many scopes as this state, and every scope but the
    /// innermost is kept.
    pub open spec fn outer_scopes_kept(self, after: StateModel) -> bool {
        &&& after.frames.len() == self.frames.len()
        &&& forall|k: int|
            0 <= k < self.frames.len() - 1 ==> frame_kept(
                self.frames[k],
                #[trigger] after.frames[k],
            )
    }

    /// `after` has as many scopes as this state, and every scope is kept.
    pub open spec fn scopes_kept(self, after: StateModel) -> bool {
        &&& after.frames.len() == self.frames.len()
        &&& forall|k: int|
            0 <= k < self.frames.len() ==> frame_kept(self.frames[k], #[trigger] after.frames[k])
    }

    /// `after` is well formed, keeps the outer scopes of this state and
    /// has at least as many cells.
    pub open spec fn settles_as(self, after: StateModel) -> bool {
        &&& after.well_formed()
        &&& self.outer_scopes_kept(after)
        &&& after.cells.len() >= self.cells.len()
    }

    /// The outcome's state settles this one, and the handle it gives, if
    /// any, is well formed in it.
    pub open spec fn keeps(self, out: Outcome) -> bool {
        self.settles_as(out.state) && (out.result is Ok ==> out.result->Ok_0.well_formed(
            out.state.cells.len(),
        ))
    }
}

/// Every handle of the list is well formed.
pub open spec fn all_well_formed(handles: Seq<PointerModel>, cells: nat) -> bool {
    forall|i: int| 0 <= i < handles.len() ==> (#[trigger] handles[i]).well_formed(cells)
}

/// A value that is well formed stays so when cells are added.
pub proof fn lemma_value_grows(value: ValueModel, cells: nat, more: nat)
    requires
        value.well_formed(cells),
        cells <= more,
    ensures
        value.well_formed(more),
    decreases value,
{
    if value is Object {
        let members = value->Object_0;
        assert forall|i: int| 0 <= i < members.len() implies (#[trigger] members[i]).key.well_formed(
            more,
        ) && members[i].slot.well_formed(more) by {
            lemma_value_grows(members[i].key, cells, more);
            lemma_pointer_grows(members[i].slot, cells, more);
        }
    }
}

/// A handle that is well formed stays so when cells are added.
pub proof fn lemma_pointer_grows(handle: PointerModel, cells: nat, more: nat)
    requires
        handle.well_formed(cells),
        cells <= more,
    ensures
        handle.well_formed(more),
    decreases handle,
{
    match handle {
        PointerModel::ConstConst(value) => lemma_value_grows(value, cells, more),
        PointerModel::VarConst(value) => lemma_value_grows(value, cells, more),
        _ => {},
    }
}

/// Handles that are well formed stay so when cells are added.
pub proof fn lemma_handles_grow(handles: Seq<PointerModel>, cells: nat, more: nat)
    requires
        all_well_formed(handles, cells),
        cells <= more,
    ensures
        all_well_formed(handles, more),
{
    assert forall|i: int| 0 <= i < handles.len() implies (#[trigger] handles[i]).well_formed(
        more,
    ) by {
        lemma_pointer_grows(handles[i], cells, more);
    }
}

/// A frame that is well formed stays so when cells are added.
pub proof fn lemma_frame_grows(frame: Seq<BindingModel>, cells: nat, more: nat)
    requires
        frame_well_formed(frame, cells),
        cells <= more,
    ensures
        frame_well_formed(frame, more),
{
    assert forall|i: int| 0 <= i < frame.len() implies (#[trigger] frame[i]).handle.well_formed(
        more,
    ) by {
        lemma_pointer_grows(frame[i].handle, cells, more);
    }
}

/// Keeping a frame twice is keeping it.
pub proof fn lemma_frame_kept_twice(
    a: Seq<BindingModel>,
    b: Seq<BindingModel>,
    c: Seq<BindingModel>,
)
    requires
        frame_kept(a, b),
        frame_kept(b, c),
    ensures
        frame_kept(a, c),
{
    assert forall|i: int| 0 <= i < a.len() implies binding_kept(a[i], #[trigger] c[i]) by {
        assert(binding_kept(a[i], b[i]));
        assert(binding_kept(b[i], c[i]));
    }
}

/// Settling twice is settling.
pub proof fn lemma_settles_twice(a: StateModel, b: StateModel, c: StateModel)
    requires
        a.settles_as(b),
        b.settles_as(c),
    ensures
        a.settles_as(c),
{
    assert forall|k: int| 0 <= k < a.frames.len() - 1 implies frame_kept(
        a.frames[k],
        #[trigger] c.frames[k],
    ) by {
        assert(frame_kept(a.frames[k], b.frames[k]));
        assert(frame_kept(b.frames[k], c.frames[k]));
        lemma_frame_kept_twice(a.frames[k], b.frames[k], c.frames[k]);
    }
}

/// What keeps a state that settled another keeps that other.
pub proof fn lemma_keeps_after(a: StateModel, b: StateModel, out: Outcome)
    requires
        a.settles_as(b),
        b.keeps(out),
    ensures
        a.keeps(out),
{
    lemma_settles_twice(a, b, out.state);
}

/// A well-formed state settles as itself.
pub proof fn lemma_settles_as_itself(state: StateModel)
    requires
        state.well_formed(),
    ensures
        state.settles_as(state),
        state.scopes_kept(state),
{
    assert forall|k: int| 0 <= k < state.frames.len() implies frame_kept(
        state.frames[k],
        #[trigger] state.frames[k],
    ) by {
    }
}

/// A state with the same scopes as a well-formed one is told from it by
/// its cells alone, and keeps its scopes.
pub proof fn lemma_same_frames_kept(state: StateModel, after: StateModel)
    requires
        after.frames == state.frames,
    ensures
        state.scopes_kept(after),
        state.outer_scopes_kept(after),
{
    assert forall|k: int| 0 <= k < state.frames.len() implies frame_kept(
        state.frames[k],
        #[trigger] after.frames[k],
    ) by {
    }
}

/// The first state is well formed.
pub proof fn lemma_initial_is_well_formed()
    ensures
        StateModel::initial().well_formed(),
{
    reveal_strlit("if");
    reveal_strlit("delete");
    reveal_strlit("function");
    reveal_strlit("eval");
    reveal_strlit("true");
    reveal_strlit("false");
    reveal_strlit("maybe");
    reveal_strlit("undefined");
    reveal_strlit("object");
    let state = StateModel::initial();
    let frame = state.frames[0];
    assert(frame.len() == 9);
    assert(frame[0].name.len() == 2);
    assert(frame[1].name.len() == 6);
    assert(frame[2].name.len() == 8);
    assert(frame[3].name.len() == 4 && frame[3].name[0] == 'e');
    assert(frame[4].name.len() == 4 && frame[4].name[0] == 't');
    assert(frame[5].name.len() == 5 && frame[5].name[0] == 'f');
    assert(frame[6].name.len() == 5 && frame[6].name[0] == 'm');
    assert(frame[7].name.len() == 9);
    assert(frame[8].name.len() == 6 && frame[8].name[0] == 'o');
    assert(frame[1].name[0] == 'd');
    assert(distinct_names(frame));
    assert(ValueModel::Object(Seq::<MemberModel>::empty()).well_formed(0));
    assert forall|i: int| 0 <= i < frame.len() implies (#[trigger] frame[i]).handle.well_formed(
        0,
    ) by {
    }
    assert forall|k: int| 0 <= k < state.frames.len() implies frame_well_formed(
        #[trigger] state.frames[k],
        state.cells.len(),
    ) by {
        assert(state.frames[k] == frame);
    }
}

/// What a well-formed handle refers to in a well-formed state is well
/// formed.
pub proof fn lemma_target_is_well_formed(state: StateModel, handle: PointerModel)
    requires
        state.well_formed(),
        handle.well_formed(state.cells.len()),
    ensures
        state.target(handle).well_formed(state.cells.len()),
{
}

/// What a name stands for in well-formed frames is well formed.
pub proof fn lemma_lookup_is_well_formed(
    frames: Seq<Seq<BindingModel>>,
    name: Seq<char>,
    k: int,
    cells: nat,
)
    requires
        k < frames.len(),
        forall|j: int| 0 <= j < frames.len() ==> frame_well_formed(#[trigger] frames[j], cells),
    ensures
        lookup_in(frames, name, k) is Some ==> lookup_in(frames, name, k)->Some_0.well_formed(
            cells,
        ),
    decreases k + 1,
{
    if k >= 0 {
        lemma_frame_find_from(frames[k], name, 0);
        assert(frame_well_formed(frames[k], cells));
        if frame_find(frames[k], name) is None {
            lemma_lookup_is_well_formed(frames, name, k - 1, cells);
        }
    }
}

/// What an identifier resolves to in a well-formed state is well formed.
pub proof fn lemma_resolve_is_well_formed(o: Oracle, state: StateModel, name: Seq<char>)
    requires
        state.well_formed(),
    ensures
        resolve(o, state, name) is Ok ==> resolve(o, state, name)->Ok_0.well_formed(
            state.cells.len(),
        ),
{
    lemma_lookup_is_well_formed(state.frames, name, state.frames.len() - 1, state.cells.len());
}

/// Binding a well-formed handle keeps a state well formed, with the same
/// outer scopes and cells.
pub proof fn lemma_bound_keeps(state: StateModel, name: Seq<char>, handle: PointerModel)
    requires
        state.well_formed(),
        handle.well_formed(state.cells.len()),
    ensures
        state.settles_as(state.bound(name, handle)),
        state.bound(name, handle).cells == state.cells,
{
    let cells = state.cells.len();
    let binding = BindingModel { name, handle };
    let after = state.bound(name, handle);
    let n = state.frames.len() as int;
    let last = state.frames.last();
    let frame = after.frames[n - 1];
    assert(frame_well_formed(state.frames[n - 1], cells));
    lemma_frame_find_from(last, name, 0);
    match frame_find(last, name) {
        Some(i) => {
            assert(frame == last.update(i, binding));
            assert forall|a: int, b: int| 0 <= a < b < frame.len() implies frame[a].name
                != frame[b].name by {
                assert(last[a].name != last[b].name);
            }
            assert forall|a: int| 0 <= a < frame.len() implies (#[trigger] frame[a]).handle.well_formed(
                cells,
            ) by {
                if a != i {
                    assert(frame[a] == last[a]);
                }
            }
        },
        None => {
            assert(frame == last.push(binding));
            assert forall|a: int, b: int| 0 <= a < b < frame.len() implies frame[a].name
                != frame[b].name by {
                if b < last.len() {
                    assert(last[a].name != last[b].name);
                } else {
                    assert(frame[a] == last[a]);
                    assert(last[a].name != name);
                }
            }
            assert forall|a: int| 0 <= a < frame.len() implies (#[trigger] frame[a]).handle.well_formed(
                cells,
            ) by {
                if a < last.len() {
                    assert(frame[a] == last[a]);
                }
            }
        },
    }
    assert forall|k: int| 0 <= k < after.frames.len() implies frame_well_formed(
        #[trigger] after.frames[k],
        cells,
    ) by {
        if k < n - 1 {
            assert(after.frames[k] == state.frames[k]);
        }
    }
    assert forall|k: int| 0 <= k < n - 1 implies frame_kept(
        state.frames[k],
        #[trigger] after.frames[k],
    ) by {
        assert(after.frames[k] == state.frames[k]);
    }
}

/// Removing a binding keeps a state well formed, with the same outer
/// scopes and cells.
pub proof fn lemma_unbound_keeps(state: StateModel, name: Seq<char>)
    requires
        state.well_formed(),
    ensures
        state.settles_as(state.unbound(name)),
{
    let cells = state.cells.len();
    let after = state.unbound(name);
    let n = state.frames.len() as int;
    let last = state.frames.last();
    assert(frame_well_formed(state.frames[n - 1], cells));
    lemma_frame_find_from(last, name, 0);
    match frame_find(last, name) {
        Some(i) => {
            let frame = last.remove(i);
            assert(after.frames[n - 1] == frame);
            assert forall|a: int, b: int| 0 <= a < b < frame.len() implies frame[a].name
                != frame[b].name by {
                let x = if a < i { a } else { a + 1 };
                let y = if b < i { b } else { b + 1 };
                assert(frame[a] == last[x]);
                assert(frame[b] == last[y]);
                assert(last[x].name != last[y].name);
            }
            assert forall|a: int| 0 <= a < frame.len() implies (#[trigger] frame[a]).handle.well_formed(
                cells,
            ) by {
                let x = if a < i { a } else { a + 1 };
                assert(frame[a] == last[x]);
            }
            assert forall|k: int| 0 <= k < after.frames.len() implies frame_well_formed(
                #[trigger] after.frames[k],
                cells,
            ) by {
                if k < n - 1 {
                    assert(after.frames[k] == state.frames[k]);
                }
            }
            assert forall|k: int| 0 <= k < n - 1 implies frame_kept(
                state.frames[k],
                #[trigger] after.frames[k],
            ) by {
                assert(after.frames[k] == state.frames[k]);
            }
        },
        None => {
            lemma_settles_as_itself(state);
        },
    }
}

/// Opening a scope keeps a state well formed and adds one scope inside
/// the ones there are.
pub proof fn lemma_entered_keeps(state: StateModel)
    requires
        state.well_formed(),
    ensures
        state.entered().well_formed(),
        state.entered().frames.len() == state.frames.len() + 1,
        state.entered().frames.drop_last() == state.frames,
        state.entered().cells == state.cells,
{
    let after = state.entered();
    assert forall|k: int| 0 <= k < after.frames.len() implies frame_well_formed(
        #[trigger] after.frames[k],
        after.cells.len(),
    ) by {
        if k < state.frames.len() {
            assert(after.frames[k] == state.frames[k]);
        }
    }
    assert(after.frames.drop_last() =~= state.frames);
}

/// Closing a scope that is not the last keeps a state well formed and
/// takes the innermost scope away.
pub proof fn lemma_left_keeps(state: StateModel)
    requires
        state.well_formed(),
        state.frames.len() >= 2,
    ensures
        state.left().well_formed(),
        state.left().frames == state.frames.drop_last(),
        state.left().cells == state.cells,
{
    let after = state.left();
    assert forall|k: int| 0 <= k < after.frames.len() implies frame_well_formed(
        #[trigger] after.frames[k],
        after.cells.len(),
    ) by {
        assert(after.frames[k] == state.frames[k]);
    }
}

/// A scope that was opened on `outside`, settled and closed again leaves
/// every scope of `outside` kept.
pub proof fn lemma_scope_closes(outside: StateModel, inside: StateModel)
    requires
        outside.well_formed(),
        outside.entered().settles_as(inside),
    ensures
        inside.left().well_formed(),
        outside.scopes_kept(inside.left()),
        inside.left().cells == inside.cells,
        outside.settles_as(inside.left()),
{
    lemma_entered_keeps(outside);
    lemma_left_keeps(inside);
    let n = outside.frames.len() as int;
    assert forall|k: int| 0 <= k < n implies frame_kept(
        outside.frames[k],
        #[trigger] inside.left().frames[k],
    ) by {
        assert(outside.entered().frames[k] == outside.frames[k]);
        assert(frame_kept(outside.entered().frames[k], inside.frames[k]));
        assert(inside.left().frames[k] == inside.frames[k]);
    }
}

/// Where a name is bound is where lookup finds what it stands for.
pub proof fn lemma_located(frames: Seq<Seq<BindingModel>>, name: Seq<char>, k: int)
    requires
        k < frames.len(),
    ensures
        match located_in(frames, name, k) {
            Some(place) => 0 <= place.0 <= k && 0 <= place.1 < frames[place.0].len()
                && frames[place.0][place.1].name == name && lookup_in(frames, name, k) == Some(
                frames[place.0][place.1].handle,
            ),
            None => lookup_in(frames, name, k) is None,
        },
    decreases k + 1,
{
    if k >= 0 {
        lemma_frame_find_from(frames[k], name, 0);
        if frame_find(frames[k], name) is None {
            lemma_located(frames, name, k - 1);
        }
    }
}

/// Giving the holder of an owned, reassignable handle another such handle
/// keeps a state well formed and keeps every scope.
pub proof fn lemma_rebound_keeps(state: StateModel, name: Seq<char>, handle: PointerModel)
    requires
        state.well_formed(),
        handle is VarConst,
        handle.well_formed(state.cells.len()),
        state.lookup(name) is Some,
        state.lookup(name)->Some_0 is VarConst,
    ensures
        state.settles_as(state.rebound(name, handle)),
        state.scopes_kept(state.rebound(name, handle)),
        state.rebound(name, handle).cells == state.cells,
        state.rebound(name, handle).lookup(name) == Some(handle),
{
    let cells = state.cells.len();
    let n = state.frames.len() as int;
    let after = state.rebound(name, handle);
    lemma_located(state.frames, name, n - 1);
    let place = state.located(name)->Some_0;
    let f = place.0;
    let i = place.1;
    let before = state.frames[f];
    let frame = before.update(i, BindingModel { name, handle });
    assert(after.frames == state.frames.update(f, frame));
    assert(frame_well_formed(before, cells));
    assert forall|a: int, b: int| 0 <= a < b < frame.len() implies frame[a].name != frame[b].name by {
        assert(before[a].name != before[b].name);
    }
    assert forall|a: int| 0 <= a < frame.len() implies (#[trigger] frame[a]).handle.well_formed(
        cells,
    ) by {
        if a != i {
            assert(frame[a] == before[a]);
        }
    }
    assert forall|a: int| 0 <= a < before.len() implies binding_kept(before[a], #[trigger] frame[a]) by {
    }
    assert forall|k: int| 0 <= k < n implies frame_well_formed(#[trigger] after.frames[k], cells)
        && frame_kept(state.frames[k], after.frames[k]) by {
        if k != f {
            assert(after.frames[k] == state.frames[k]);
        } else {
            assert(after.frames[k] == frame);
        }
    }
    lemma_frame_find_from(before, name, 0);
    lemma_located_same_names(state.frames, after.frames, name, n - 1);
    lemma_located(after.frames, name, n - 1);
}

/// Where frames bind the same names in the same places, a name is bound
/// in the same place.
pub proof fn lemma_located_same_names(
    a: Seq<Seq<BindingModel>>,
    b: Seq<Seq<BindingModel>>,
    name: Seq<char>,
    k: int,
)
    requires
        k < a.len(),
        a.len() == b.len(),
        forall|j: int| 0 <= j < a.len() ==> frame_kept(a[j], #[trigger] b[j]),
    ensures
        located_in(a, name, k) == located_in(b, name, k),
    decreases k + 1,
{
    if k >= 0 {
        assert(frame_kept(a[k], b[k]));
        lemma_frame_find_from(a[k], name, 0);
        lemma_frame_find_from(b[k], name, 0);
        match frame_find(a[k], name) {
            Some(i) => {
                assert(binding_kept(a[k][i], b[k][i]));
                assert forall|j: int| 0 <= j < i implies (#[trigger] b[k][j]).name != name by {
                    assert(binding_kept(a[k][j], b[k][j]));
                }
                crate::laws::lemma_frame_find_first(b[k], name, 0, i);
            },
            None => {
                assert forall|j: int| 0 <= j < b[k].len() implies (#[trigger] b[k][j]).name
                    != name by {
                    assert(binding_kept(a[k][j], b[k][j]));
                }
                crate::laws::lemma_frame_find_none(b[k], name, 0);
                lemma_located_same_names(a, b, name, k - 1);
            },
        }
    }
}

/// A new cell with a well-formed value keeps a state well formed.
pub proof fn lemma_stored_keeps(state: StateModel, value: ValueModel)
    requires
        state.well_formed(),
        value.well_formed(state.cells.len()),
    ensures
        state.settles_as(state.stored(value)),
        state.stored(value).frames == state.frames,
        state.stored(value).cells.len() == state.cells.len() + 1,
{
    let after = state.stored(value);
    let cells = state.cells.len();
    let more = after.cells.len();
    lemma_value_grows(value, cells, more);
    assert forall|c: int| 0 <= c < after.cells.len() implies (#[trigger] after.cells[c]).well_formed(
        more,
    ) by {
        if c < state.cells.len() {
            assert(after.cells[c] == state.cells[c]);
            lemma_value_grows(state.cells[c], cells, more);
        }
    }
    assert forall|k: int| 0 <= k < after.frames.len() implies frame_well_formed(
        #[trigger] after.frames[k],
        more,
    ) by {
        lemma_frame_grows(state.frames[k], cells, more);
    }
}

/// Writing a well-formed value into a cell keeps a state well formed.
pub proof fn lemma_written_keeps(state: StateModel, cell: usize, value: ValueModel)
    requires
        state.well_formed(),
        value.well_formed(state.cells.len()),
    ensures
        state.settles_as(state.written(cell, value)),
        state.written(cell, value).frames == state.frames,
        state.written(cell, value).cells.len() == state.cells.len(),
{
    let after = state.written(cell, value);
    assert forall|c: int| 0 <= c < after.cells.len() implies (#[trigger] after.cells[c]).well_formed(
        after.cells.len(),
    ) by {
        if c != cell {
            assert(after.cells[c] == state.cells[c]);
        }
    }
}

/// Conversion keeps a state well formed and gives a well-formed handle.
pub proof fn lemma_converted_keeps(state: StateModel, handle: PointerModel, kind: VarType)
    requires
        state.well_formed(),
        handle.well_formed(state.cells.len()),
    ensures
        state.settles_as(state.converted(handle, kind).1),
        state.converted(handle, kind).1.frames == state.frames,
        state.converted(handle, kind).0.well_formed(state.converted(handle, kind).1.cells.len()),
{
    lemma_target_is_well_formed(state, handle);
    lemma_stored_keeps(state, state.target(handle));
    lemma_value_grows(state.target(handle), state.cells.len(), state.cells.len() + 1);
}

/// Assignment of a well-formed value keeps a state well formed and gives
/// a well-formed handle.
pub proof fn lemma_assigned_keeps(state: StateModel, handle: PointerModel, value: ValueModel)
    requires
        state.well_formed(),
        handle.well_formed(state.cells.len()),
        value.well_formed(state.cells.len()),
    ensures
        state.assigned(handle, value) is Some ==> state.settles_as(
            state.assigned(handle, value)->Some_0.1,
        ) && state.assigned(handle, value)->Some_0.0.well_formed(
            state.assigned(handle, value)->Some_0.1.cells.len(),
        ),
{
    match handle {
        PointerModel::ConstVar(cell) => lemma_written_keeps(state, cell, value),
        PointerModel::VarVar(cell) => lemma_written_keeps(state, cell, value),
        _ => {},
    }
}

/// Looking a member up, and making it where it is missing, keeps a state
/// well formed and gives a well-formed handle.
pub proof fn lemma_vivified_keeps(state: StateModel, handle: PointerModel, name: Seq<char>)
    requires
        state.well_formed(),
        handle.well_formed(state.cells.len()),
        state.target(handle) is Object,
    ensures
        state.settles_as(state.vivified(handle, name).1),
        state.vivified(handle, name).0.well_formed(state.vivified(handle, name).1.cells.len()),
{
    let cells = state.cells.len();
    let key = ValueModel::String(name);
    lemma_target_is_well_formed(state, handle);
    let members = state.target(handle)->Object_0;
    lemma_find_from(members, key, 0);
    match ValueModel::find(members, key) {
        Some(i) => {
            assert(members[i].slot.well_formed(cells));
        },
        None => {
            let slot = PointerModel::ConstVar(state.next_cell());
            let member = MemberModel { key, slot };
            let grown = members.push(member);
            let made = state.stored(ValueModel::Undefined);
            lemma_stored_keeps(state, ValueModel::Undefined);
            let more = made.cells.len();
            assert(slot.well_formed(more));
            assert forall|a: int, b: int| 0 <= a < b < grown.len() implies grown[a].key
                != grown[b].key by {
                if b < members.len() {
                    assert(members[a].key != members[b].key);
                } else {
                    assert(grown[a] == members[a]);
                    assert(members[a].key != key);
                }
            }
            assert forall|a: int| 0 <= a < grown.len() implies (#[trigger] grown[a]).key.well_formed(
                more,
            ) && grown[a].slot.well_formed(more) by {
                if a < members.len() {
                    assert(grown[a] == members[a]);
                    lemma_value_grows(members[a].key, cells, more);
                    lemma_pointer_grows(members[a].slot, cells, more);
                }
            }
            assert(ValueModel::Object(grown).well_formed(more));
            match handle {
                PointerModel::ConstVar(cell) => lemma_written_keeps(
                    made,
                    cell,
                    ValueModel::Object(grown),
                ),
                PointerModel::VarVar(cell) => lemma_written_keeps(
                    made,
                    cell,
                    ValueModel::Object(grown),
                ),
                _ => {},
            }
        },
    }
}

/// The handle that a well-formed object stores under a key is well formed.
pub proof fn lemma_member_is_well_formed(object: ValueModel, key: ValueModel, cells: nat)
    requires
        object.well_formed(cells),
    ensures
        StateModel::member(object, key) is Ok ==> StateModel::member(
            object,
            key,
        )->Ok_0.well_formed(cells),
{
    if object is Object {
        let members = object->Object_0;
        lemma_find_from(members, key, 0);
        if ValueModel::find(members, key) is Some {
            assert(members[ValueModel::find(members, key)->Some_0].slot.well_formed(cells));
        }
    }
}

/// Applying an operator to well-formed handles keeps a state well formed
/// and gives a well-formed handle.
pub proof fn lemma_applied_keeps(
    o: Oracle,
    op: Operation,
    left: PointerModel,
    right: PointerModel,
    state: StateModel,
)
    requires
        state.well_formed(),
        left.well_formed(state.cells.len()),
        right.well_formed(state.cells.len()),
    ensures
        state.keeps(applied(o, op, left, right, state)),
{
    let a = state.target(left);
    let b = state.target(right);
    lemma_target_is_well_formed(state, left);
    lemma_target_is_well_formed(state, right);
    lemma_assigned_keeps(state, left, b);
    lemma_member_is_well_formed(a, b, state.cells.len());
    if arithmetic_of(op) is Some {
        lemma_assigned_keeps(state, left, arithmetic_result(o, arithmetic_of(op)->0, a, b));
    }
}

/// Applying an operator and telling the holder of the left handle keeps a
/// state well formed and gives a well-formed handle.
pub proof fn lemma_held_keeps(
    o: Oracle,
    lhs: SyntaxModel,
    op: Operation,
    left: PointerModel,
    right: PointerModel,
    state: StateModel,
)
    requires
        state.well_formed(),
        left.well_formed(state.cells.len()),
        right.well_formed(state.cells.len()),
    ensures
        state.keeps(held(o, lhs, op, left, right, state)),
{
    lemma_applied_keeps(o, op, left, right, state);
    if assigns(op) && left is VarConst && lhs is Ident && state.lookup(lhs->Ident_0) == Some(
        left,
    ) {
        lemma_target_is_well_formed(state, left);
        lemma_target_is_well_formed(state, right);
        let value = assigned_value(o, op, left, right, state);
        assert(value.well_formed(state.cells.len()));
        assert(applied(o, op, left, right, state).state == state);
        lemma_rebound_keeps(state, lhs->Ident_0, PointerModel::VarConst(value));
    }
}

/// The built-in `function` keeps a state well formed.
pub proof fn lemma_definition_keeps(args: Seq<SyntaxModel>, state: StateModel)
    requires
        state.well_formed(),
    ensures
        state.keeps(definition(args, state)),
{
    let out = definition(args, state);
    if out.result is Ok {
        let made = PointerModel::ConstConst(
            ValueModel::Function(crate::semantics::parameter_names(args[1])->Ok_0, args[2]),
        );
        lemma_bound_keeps(state, args[0]->Ident_0, made);
    }
}

/// The built-in `delete` keeps a state well formed.
pub proof fn lemma_deletion_keeps(args: Seq<SyntaxModel>, state: StateModel)
    requires
        state.well_formed(),
    ensures
        state.keeps(deletion(args, state)),
{
    if args.len() == 1 && args[0] is Ident {
        lemma_unbound_keeps(state, args[0]->Ident_0);
    }
}

/// Binding parameters to well-formed handles keeps a state well formed.
pub proof fn lemma_bound_all_keeps(
    state: StateModel,
    params: Seq<Seq<char>>,
    handles: Seq<PointerModel>,
    i: int,
)
    requires
        0 <= i,
        state.well_formed(),
        all_well_formed(handles, state.cells.len()),
    ensures
        state.settles_as(bound_all(state, params, handles, i)),
        bound_all(state, params, handles, i).cells == state.cells,
    decreases params.len() - i,
{
    if !(i >= params.len() || i >= handles.len()) {
        assert(handles[i].well_formed(state.cells.len()));
        lemma_bound_keeps(state, params[i], handles[i]);
        lemma_bound_all_keeps(state.bound(params[i], handles[i]), params, handles, i + 1);
    }
}

/// Evaluation keeps a state well formed: whatever the node, the host and
/// the depth, whether it succeeds or fails, the state it leaves is well
/// formed, has the outer scopes of the state it found and at least as many
/// cells, and the handle it gives is well formed: every shared handle
/// names a cell that exists.
pub proof fn law_evaluation_keeps_states_well_formed(
    o: Oracle,
    node: SyntaxModel,
    state: StateModel,
    depth: nat,
)
    requires
        state.well_formed(),
    ensures
        state.keeps(evaluation(o, node, state, depth)),
    decreases depth, 0int, 0int,
{
    let d = (depth - 1) as nat;
    match node {
        SyntaxModel::Statement(printing, content, level) => {
            if depth > 0 {
                lemma_statement_keeps(o, printing, *content, level, state, d);
            }
        },
        SyntaxModel::Negate(content) => {
            if depth > 0 {
                lemma_negation_keeps(o, *content, state, d);
            }
        },
        SyntaxModel::Operation(lhs, op, rhs) => {
            if depth > 0 {
                lemma_operation_keeps(o, *lhs, op, *rhs, state, d);
            }
        },
        SyntaxModel::Block(items) => {
            if items.len() > 0 && depth > 0 {
                lemma_block_keeps(o, items, state, d);
            }
        },
        SyntaxModel::Declare(kind, name, value) => {
            if depth > 0 {
                lemma_declaration_keeps(o, kind, name, *value, state, d);
            }
        },
        SyntaxModel::String(segments) => {},
        SyntaxModel::Call(name, args) => {
            lemma_resolve_is_well_formed(o, state, name);
            if depth > 0 && resolve(o, state, name) is Ok {
                lemma_invocation_keeps(o, resolve(o, state, name)->Ok_0, args, state, d);
            }
        },
        SyntaxModel::Ident(name) => {
            lemma_resolve_is_well_formed(o, state, name);
        },
        SyntaxModel::Function(params, body) => {},
    }
}

/// A statement keeps a state well formed.
pub proof fn lemma_statement_keeps(
    o: Oracle,
    printing: bool,
    content: SyntaxModel,
    level: u8,
    state: StateModel,
    d: nat,
)
    requires
        state.well_formed(),
    ensures
        state.keeps(statement(o, printing, content, level, state, d)),
    decreases d, 1int, 0int,
{
    if !printing {
        law_evaluation_keeps_states_well_formed(o, content, state, d);
    } else {
        let announced = if level >= 3 {
            state.emitted(crate::state::EmissionModel::Node(content))
        } else {
            state
        };
        assert(announced.well_formed());
        law_evaluation_keeps_states_well_formed(o, content, announced, d);
    }
}

/// A negation keeps a state well formed.
pub proof fn lemma_negation_keeps(o: Oracle, content: SyntaxModel, state: StateModel, d: nat)
    requires
        state.well_formed(),
    ensures
        state.keeps(negated_outcome(o, content, state, d)),
    decreases d, 1int, 0int,
{
    law_evaluation_keeps_states_well_formed(o, content, state, d);
}

/// A declaration keeps a state well formed.
pub proof fn lemma_declaration_keeps(
    o: Oracle,
    kind: VarType,
    name: Seq<char>,
    value: SyntaxModel,
    state: StateModel,
    d: nat,
)
    requires
        state.well_formed(),
    ensures
        state.keeps(declaration(o, kind, name, value, state, d)),
    decreases d, 1int, 0int,
{
    law_evaluation_keeps_states_well_formed(o, value, state, d);
    let out = evaluation(o, value, state, d);
    if out.result is Ok {
        let made = out.state.converted(out.result->Ok_0, kind);
        lemma_converted_keeps(out.state, out.result->Ok_0, kind);
        lemma_bound_keeps(made.1, name, made.0);
    }
}

/// A block keeps a state well formed and keeps every scope: the scope it
/// opens, it closes.
pub proof fn lemma_block_keeps(o: Oracle, items: Seq<SyntaxModel>, state: StateModel, d: nat)
    requires
        state.well_formed(),
    ensures
        state.keeps(block(o, items, state, d)),
        state.scopes_kept(block(o, items, state, d).state),
    decreases d, 2int, 0int,
{
    lemma_entered_keeps(state);
    lemma_sequence_keeps(o, items, 0, state.entered(), d);
    lemma_scope_closes(state, sequence(o, items, 0, state.entered(), d).state);
}

/// A sequence of nodes keeps a state well formed.
pub proof fn lemma_sequence_keeps(
    o: Oracle,
    items: Seq<SyntaxModel>,
    i: int,
    state: StateModel,
    d: nat,
)
    requires
        state.well_formed(),
    ensures
        state.keeps(sequence(o, items, i, state, d)),
    decreases d, 1int, items.len() - i,
{
    if !(i < 0 || i >= items.len()) {
        law_evaluation_keeps_states_well_formed(o, items[i], state, d);
        let out = evaluation(o, items[i], state, d);
        if !(out.result is Err || i + 1 == items.len()) {
            lemma_sequence_keeps(o, items, i + 1, out.state, d);
        }
    }
}

/// A binary operation keeps a state well formed.
pub proof fn lemma_operation_keeps(
    o: Oracle,
    lhs: SyntaxModel,
    op: Operation,
    rhs: SyntaxModel,
    state: StateModel,
    d: nat,
)
    requires
        state.well_formed(),
    ensures
        state.keeps(operation(o, lhs, op, rhs, state, d)),
    decreases d, 1int, 0int,
{
    law_evaluation_keeps_states_well_formed(o, lhs, state, d);
    let left = evaluation(o, lhs, state, d);
    if left.result is Ok {
        let handle = left.result->Ok_0;
        if left.state.target(handle) is Object && op is Dot && rhs is Ident {
            lemma_vivified_keeps(left.state, handle, rhs->Ident_0);
        } else {
            law_evaluation_keeps_states_well_formed(o, rhs, left.state, d);
            let right = evaluation(o, rhs, left.state, d);
            if right.result is Ok {
                lemma_pointer_grows(handle, left.state.cells.len(), right.state.cells.len());
                lemma_held_keeps(o, lhs, op, handle, right.result->Ok_0, right.state);
                lemma_settles_twice(state, left.state, right.state);
                lemma_keeps_after(
                    state,
                    right.state,
                    held(o, lhs, op, handle, right.result->Ok_0, right.state),
                );
            }
        }
    }
}

/// The built-in `if` keeps a state well formed.
pub proof fn lemma_conditional_keeps(o: Oracle, args: Seq<SyntaxModel>, state: StateModel, d: nat)
    requires
        state.well_formed(),
    ensures
        state.keeps(conditional(o, args, state, d)),
    decreases d, 1int, 0int,
{
    if args.len() >= 2 {
        law_evaluation_keeps_states_well_formed(o, args[0], state, d);
        let condition = evaluation(o, args[0], state, d);
        if condition.result is Ok {
            law_evaluation_keeps_states_well_formed(o, args[1], condition.state, d);
            if args.len() > 2 {
                law_evaluation_keeps_states_well_formed(o, args[2], condition.state, d);
            }
            if args.len() > 3 {
                law_evaluation_keeps_states_well_formed(o, args[3], condition.state, d);
            }
        }
    }
}

/// The built-in `eval` keeps a state well formed, whatever tree the host
/// hands back.
pub proof fn lemma_reentry_keeps(o: Oracle, args: Seq<SyntaxModel>, state: StateModel, d: nat)
    requires
        state.well_formed(),
    ensures
        state.keeps(reentry(o, args, state, d)),
    decreases d, 1int, 0int,
{
    if args.len() == 1 {
        law_evaluation_keeps_states_well_formed(o, args[0], state, d);
        let source = evaluation(o, args[0], state, d);
        if source.result is Ok {
            let parsed = (o.parse)(crate::pointer::shown(o, source.state.target(source.result->Ok_0)));
            if parsed is Ok {
                law_evaluation_keeps_states_well_formed(o, parsed->Ok_0, source.state, d);
            }
        }
    }
}

/// Evaluating the arguments of a call keeps a state well formed and gives
/// well-formed handles.
pub proof fn lemma_arguments_keep(
    o: Oracle,
    count: nat,
    args: Seq<SyntaxModel>,
    i: int,
    handles: Seq<PointerModel>,
    state: StateModel,
    d: nat,
)
    requires
        state.well_formed(),
        all_well_formed(handles, state.cells.len()),
    ensures
        state.settles_as(arguments(o, count, args, i, handles, state, d).state),
        arguments(o, count, args, i, handles, state, d).result is Ok ==> all_well_formed(
            arguments(o, count, args, i, handles, state, d).result->Ok_0,
            arguments(o, count, args, i, handles, state, d).state.cells.len(),
        ),
    decreases d, 1int, count - i,
{
    if !(i < 0 || i >= count) {
        if i < args.len() {
            law_evaluation_keeps_states_well_formed(o, args[i], state, d);
            let out = evaluation(o, args[i], state, d);
            if out.result is Ok {
                let more = handles.push(out.result->Ok_0);
                lemma_handles_grow(handles, state.cells.len(), out.state.cells.len());
                assert forall|j: int| 0 <= j < more.len() implies (#[trigger] more[j]).well_formed(
                    out.state.cells.len(),
                ) by {
                    if j < handles.len() {
                        assert(more[j] == handles[j]);
                    }
                }
                lemma_arguments_keep(o, count, args, i + 1, more, out.state, d);
            }
        } else {
            let more = handles.push(PointerModel::undefined());
            assert forall|j: int| 0 <= j < more.len() implies (#[trigger] more[j]).well_formed(
                state.cells.len(),
            ) by {
                if j < handles.len() {
                    assert(more[j] == handles[j]);
                }
            }
            lemma_arguments_keep(o, count, args, i + 1, more, state, d);
        }
    }
}

/// A call of a function value keeps a state well formed: the scope it
/// opens, it closes.
pub proof fn lemma_application_keeps(
    o: Oracle,
    params: Seq<Seq<char>>,
    body: SyntaxModel,
    args: Seq<SyntaxModel>,
    state: StateModel,
    d: nat,
)
    requires
        state.well_formed(),
    ensures
        state.keeps(application(o, params, body, args, state, d)),
    decreases d, 2int, 0int,
{
    lemma_arguments_keep(o, params.len(), args, 0, Seq::empty(), state, d);
    let gathered = arguments(o, params.len(), args, 0, Seq::empty(), state, d);
    if gathered.result is Ok {
        let handles = gathered.result->Ok_0;
        lemma_entered_keeps(gathered.state);
        lemma_bound_all_keeps(gathered.state.entered(), params, handles, 0);
        let inner = bound_all(gathered.state.entered(), params, handles, 0);
        law_evaluation_keeps_states_well_formed(o, body, inner, d);
        lemma_scope_closes(gathered.state, evaluation(o, body, inner, d).state);
    }
}

/// A call keeps a state well formed.
pub proof fn lemma_invocation_keeps(
    o: Oracle,
    callee: PointerModel,
    args: Seq<SyntaxModel>,
    state: StateModel,
    d: nat,
)
    requires
        state.well_formed(),
        callee.well_formed(state.cells.len()),
    ensures
        state.keeps(invocation(o, callee, args, state, d)),
    decreases d, 3int, 0int,
{
    lemma_target_is_well_formed(state, callee);
    match state.target(callee) {
        ValueModel::Keyword(Keyword::If) => lemma_conditional_keeps(o, args, state, d),
        ValueModel::Keyword(Keyword::Delete) => lemma_deletion_keeps(args, state),
        ValueModel::Keyword(Keyword::Function) => lemma_definition_keeps(args, state),
        ValueModel::Keyword(Keyword::Eval) => lemma_reentry_keeps(o, args, state, d),
        ValueModel::Function(params, body) => lemma_application_keeps(
            o,
            params,
            body,
            args,
            state,
            d,
        ),
        ValueModel::Object(members) => {
            let key = ValueModel::String("call"@);
            lemma_find_from(members, key, 0);
            match ValueModel::find(members, key) {
                Some(i) => {
                    if d > 0 {
                        assert(members[i].slot.well_formed(state.cells.len()));
                        lemma_entered_keeps(state);
                        lemma_bound_keeps(state.entered(), "self"@, callee);
                        let inner = state.entered().bound("self"@, callee);
                        lemma_invocation_keeps(o, members[i].slot, args, inner, (d - 1) as nat);
                        lemma_scope_closes(
                            state,
                            invocation(o, members[i].slot, args, inner, (d - 1) as nat).state,
                        );
                    }
                },
                None => {},
            }
        },
        _ => {},
    }
}

/// A block leaves the scopes it found: whatever its nodes do, and whether
/// they succeed or fail, every scope of the state binds the same names
/// afterwards, in the same places, to the same handles. The one thing that
/// may differ is the target of an owned, reassignable handle that was
/// assigned to through its name.
pub proof fn law_block_leaves_the_scopes_it_found(
    o: Oracle,
    items: Seq<SyntaxModel>,
    state: StateModel,
    depth: nat,
)
    requires
        state.well_formed(),
    ensures
        state.scopes_kept(evaluation(o, SyntaxModel::Block(items), state, depth).state),
{
    if items.len() > 0 && depth > 0 {
        lemma_block_keeps(o, items, state, (depth - 1) as nat);
    } else {
        lemma_settles_as_itself(state);
    }
}

/// One `=` assigns: where a name stands for a handle that is shared or
/// reassignable, and still does after the right operand was evaluated,
/// `name = right` gives the right handle, and the name stands for the
/// right operand's value afterwards. Through a shared handle the value is
/// written into the cell, where every handle on that cell reads it;
/// through an owned handle no cell changes, and the binding takes the
/// new target.
pub proof fn law_assignment_is_read_back(
    o: Oracle,
    name: Seq<char>,
    rhs: SyntaxModel,
    state: StateModel,
    d: nat,
)
    requires
        state.well_formed(),
        state.lookup(name) is Some,
        !(state.lookup(name)->Some_0 is ConstConst),
        evaluation(o, rhs, state, d).result is Ok,
        evaluation(o, rhs, state, d).state.lookup(name) == state.lookup(name),
    ensures
        ({
            let left = state.lookup(name)->Some_0;
            let right = evaluation(o, rhs, state, d);
            let value = right.state.target(right.result->Ok_0);
            let out = operation(o, SyntaxModel::Ident(name), Operation::Equal(1), rhs, state, d);
            let read = evaluation(o, SyntaxModel::Ident(name), out.state, 0);
            &&& out.result == right.result
            &&& read.result is Ok
            &&& read.state == out.state
            &&& out.state.target(read.result->Ok_0) == value
            &&& left.shared() ==> out.state.target(left) == value && out.state.frames
                == right.state.frames
            &&& !left.shared() ==> out.state.cells == right.state.cells
        }),
{
    let left = state.lookup(name)->Some_0;
    let lhs = SyntaxModel::Ident(name);
    let right = evaluation(o, rhs, state, d);
    let other = right.result->Ok_0;
    let value = right.state.target(other);
    assert(evaluation(o, lhs, state, d) == (Outcome { result: Ok(left), state }));
    lemma_resolve_is_well_formed(o, state, name);
    law_evaluation_keeps_states_well_formed(o, rhs, state, d);
    lemma_pointer_grows(left, state.cells.len(), right.state.cells.len());
    lemma_target_is_well_formed(right.state, other);
    let out = operation(o, lhs, Operation::Equal(1), rhs, state, d);
    assert(out == held(o, lhs, Operation::Equal(1), left, other, right.state));
    if left is VarConst {
        assert(assigned_value(o, Operation::Equal(1), left, other, right.state) == value);
        lemma_rebound_keeps(right.state, name, PointerModel::VarConst(value));
    }
}

/// Among members with distinct keys, a key is found where it is.
pub proof fn lemma_find_the_only(members: Seq<MemberModel>, key: ValueModel, k: int)
    requires
        distinct_keys(members),
        0 <= k < members.len(),
        members[k].key == key,
    ensures
        ValueModel::find(members, key) == Some(k),
{
    lemma_find_from(members, key, 0);
    assert(members[k].key == key);
}

/// A well-formed value reads as itself.
pub proof fn lemma_value_reads_as_itself(value: ValueModel, cells: nat)
    requires
        value.well_formed(cells),
    ensures
        value.reads_as(value),
    decreases value,
{
    if value is Object {
        let x = value->Object_0;
        assert forall|i: int| 0 <= i < x.len() implies ValueModel::find(x, (#[trigger] x[i]).key)
            is Some && x[i].slot.reads_as(x[ValueModel::find(x, x[i].key)->Some_0].slot) by {
            lemma_find_the_only(x, x[i].key, i);
            lemma_handle_reads_as_itself(x[i].slot, cells);
        }
    }
}

/// A well-formed handle reads as itself.
pub proof fn lemma_handle_reads_as_itself(handle: PointerModel, cells: nat)
    requires
        handle.well_formed(cells),
    ensures
        handle.reads_as(handle),
    decreases handle,
{
    match handle {
        PointerModel::ConstConst(value) => lemma_value_reads_as_itself(value, cells),
        PointerModel::VarConst(value) => lemma_value_reads_as_itself(value, cells),
        _ => {},
    }
}

/// The order of members is irrelevant: two objects with the same members,
/// in whatever order, are equal at every depth.
pub proof fn law_member_order_is_irrelevant(
    state: StateModel,
    x: Seq<MemberModel>,
    y: Seq<MemberModel>,
    cells: nat,
    depth: nat,
)
    requires
        ValueModel::Object(x).well_formed(cells),
        distinct_keys(y),
        x.len() == y.len(),
        forall|i: int| 0 <= i < x.len() ==> y.contains(#[trigger] x[i]),
    ensures
        state.equality(ValueModel::Object(x), ValueModel::Object(y), depth) == Boolean::True,
        state.equality(ValueModel::Object(y), ValueModel::Object(x), 0) != Boolean::False,
{
    assert forall|i: int| 0 <= i < x.len() implies ValueModel::find(y, (#[trigger] x[i]).key)
        is Some && x[i].slot.reads_as(y[ValueModel::find(y, x[i].key)->Some_0].slot) by {
        assert(y.contains(x[i]));
        let k = choose|k: int| 0 <= k < y.len() && y[k] == x[i];
        lemma_find_the_only(y, x[i].key, k);
        lemma_handle_reads_as_itself(x[i].slot, cells);
    }
    assert(ValueModel::Object(x).reads_as(ValueModel::Object(y)));
}

} // verus!
