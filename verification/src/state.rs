//! The state of an evaluation: the shared cells, the chain of scopes, and
//! what has been emitted to the side channel.
//!
//! Shared storage is an arena of cells; a shared handle names a cell by its
//! index. Cells are never freed, so an index, once handed out, stays good.
//! Reading a cell that does not exist gives undefined and writing to one
//! does nothing, which makes every operation total.
//!
//! The scopes form a chain with the innermost frame last. Lookup walks from
//! the innermost frame outward; insertion and deletion touch the innermost
//! frame only.

use vstd::prelude::*;
use vstd::string::StringExecFns;
use crate::syntax::{Syntax, SyntaxModel};
use crate::value::{Boolean, Keyword, Pointer, PointerModel, Value, ValueModel};

verus! {

/// A name and the handle bound to it.
#[derive(Debug, PartialEq)]
pub struct Binding {
    pub name: String,
    pub handle: Pointer,
}

/// One scope: its bindings, in the order in which the names were first bound.
#[derive(Debug, PartialEq)]
pub struct Frame {
    pub bindings: Vec<Binding>,
}

/// Something a printing statement sent to the side channel.
#[derive(Debug, PartialEq)]
pub enum Emission {
    /// The structural form of a node, emitted before it is evaluated.
    Node(Syntax),
    /// The structural form of a result: the handle and the value it refers to.
    Handle(Pointer, Value),
    /// The display form of a result.
    Text(String),
}

/// The state of an evaluation.
#[derive(Debug, PartialEq)]
pub struct State {
    /// The shared cells.
    pub cells: Vec<Value>,
    /// The chain of scopes, innermost last.
    pub frames: Vec<Frame>,
    /// What has been emitted, oldest first.
    pub output: Vec<Emission>,
}

/// Model of [`Binding`].
pub struct BindingModel {
    pub name: Seq<char>,
    pub handle: PointerModel,
}

/// Model of [`Emission`].
pub enum EmissionModel {
    Node(SyntaxModel),
    Handle(PointerModel, ValueModel),
    Text(Seq<char>),
}

/// Model of [`State`].
pub struct StateModel {
    pub cells: Seq<ValueModel>,
    pub frames: Seq<Seq<BindingModel>>,
    pub output: Seq<EmissionModel>,
}

impl View for Binding {
    type V = BindingModel;

    open spec fn view(&self) -> BindingModel {
        BindingModel { name: self.name@, handle: self.handle@ }
    }
}

impl View for Emission {
    type V = EmissionModel;

    open spec fn view(&self) -> EmissionModel {
        match self {
            Emission::Node(node) => EmissionModel::Node(node@),
            Emission::Handle(handle, value) => EmissionModel::Handle(handle@, value@),
            Emission::Text(text) => EmissionModel::Text(text@),
        }
    }
}

/// The models of a list of values.
pub open spec fn value_models(values: Vec<Value>) -> Seq<ValueModel> {
    Seq::new(values@.len(), |i: int| values@[i]@)
}

/// The models of a list of bindings.
pub open spec fn binding_models(bindings: Vec<Binding>) -> Seq<BindingModel> {
    Seq::new(bindings@.len(), |i: int| bindings@[i]@)
}

/// The models of a chain of frames.
pub open spec fn frame_models(frames: Vec<Frame>) -> Seq<Seq<BindingModel>> {
    Seq::new(frames@.len(), |i: int| binding_models(frames@[i].bindings))
}

/// The models of a list of emissions.
pub open spec fn emission_models(output: Vec<Emission>) -> Seq<EmissionModel> {
    Seq::new(output@.len(), |i: int| output@[i]@)
}

impl View for State {
    type V = StateModel;

    open spec fn view(&self) -> StateModel {
        StateModel {
            cells: value_models(self.cells),
            frames: frame_models(self.frames),
            output: emission_models(self.output),
        }
    }
}

/// The index of the first binding of `name` in a frame, looking from `i` on.
pub open spec fn frame_find_from(frame: Seq<BindingModel>, name: Seq<char>, i: int) -> Option<int>
    decreases frame.len() - i,
{
    if i < 0 || i >= frame.len() {
        None
    } else if frame[i].name == name {
        Some(i)
    } else {
        frame_find_from(frame, name, i + 1)
    }
}

/// The index of the first binding of `name` in a frame.
pub open spec fn frame_find(frame: Seq<BindingModel>, name: Seq<char>) -> Option<int> {
    frame_find_from(frame, name, 0)
}

/// What `name` is bound to in frame `k` or, failing that, in a frame
/// further out.
pub open spec fn lookup_in(frames: Seq<Seq<BindingModel>>, name: Seq<char>, k: int) -> Option<
    PointerModel,
>
    decreases k + 1,
{
    if k < 0 || k >= frames.len() {
        None
    } else {
        match frame_find(frames[k], name) {
            Some(i) => Some(frames[k][i].handle),
            None => lookup_in(frames, name, k - 1),
        }
    }
}

/// Where `name` is bound, looking from frame `k` outward: the frame, and
/// the place in it.
pub open spec fn located_in(frames: Seq<Seq<BindingModel>>, name: Seq<char>, k: int) -> Option<
    (int, int),
>
    decreases k + 1,
{
    if k < 0 || k >= frames.len() {
        None
    } else {
        match frame_find(frames[k], name) {
            Some(i) => Some((k, i)),
            None => located_in(frames, name, k - 1),
        }
    }
}

/// A binding of `name` to an owned, fixed handle on `value`.
pub open spec fn builtin(name: Seq<char>, value: ValueModel) -> BindingModel {
    BindingModel { name, handle: PointerModel::ConstConst(value) }
}

impl StateModel {
    /// The state in which every evaluation starts: no cells, nothing
    /// emitted, and one frame that binds the built-in functions `if`,
    /// `delete`, `function` and `eval`, the truth values `true`, `false` and
    /// `maybe`, `undefined`, and `object`, an object without members.
    pub open spec fn initial() -> StateModel {
        StateModel {
            cells: Seq::empty(),
            frames: seq![
                seq![
                    builtin("if"@, ValueModel::Keyword(Keyword::If)),
                    builtin("delete"@, ValueModel::Keyword(Keyword::Delete)),
                    builtin("function"@, ValueModel::Keyword(Keyword::Function)),
                    builtin("eval"@, ValueModel::Keyword(Keyword::Eval)),
                    builtin("true"@, ValueModel::Boolean(Boolean::True)),
                    builtin("false"@, ValueModel::Boolean(Boolean::False)),
                    builtin("maybe"@, ValueModel::Boolean(Boolean::Maybe)),
                    builtin("undefined"@, ValueModel::Undefined),
                    builtin("object"@, ValueModel::Object(Seq::empty())),
                ],
            ],
            output: Seq::empty(),
        }
    }

    /// The value in a cell; undefined where there is no such cell.
    pub open spec fn value_at(self, cell: usize) -> ValueModel {
        if cell < self.cells.len() {
            self.cells[cell as int]
        } else {
            ValueModel::Undefined
        }
    }

    /// The value that a handle refers to.
    pub open spec fn target(self, handle: PointerModel) -> ValueModel {
        match handle {
            PointerModel::ConstConst(value) => value,
            PointerModel::VarConst(value) => value,
            PointerModel::ConstVar(cell) => self.value_at(cell),
            PointerModel::VarVar(cell) => self.value_at(cell),
        }
    }

    /// The index that the next new cell gets.
    pub open spec fn next_cell(self) -> usize {
        self.cells.len() as usize
    }

    /// The state with one more cell, holding `value`.
    pub open spec fn stored(self, value: ValueModel) -> StateModel {
        StateModel { cells: self.cells.push(value), frames: self.frames, output: self.output }
    }

    /// The state with `value` written into a cell; unchanged where there is
    /// no such cell.
    pub open spec fn written(self, cell: usize, value: ValueModel) -> StateModel {
        if cell < self.cells.len() {
            StateModel {
                cells: self.cells.update(cell as int, value),
                frames: self.frames,
                output: self.output,
            }
        } else {
            self
        }
    }

    /// What `name` is bound to: the innermost binding, looking outward.
    pub open spec fn lookup(self, name: Seq<char>) -> Option<PointerModel> {
        lookup_in(self.frames, name, self.frames.len() - 1)
    }

    /// Where `name` is bound: the innermost frame that binds it, and the
    /// place in that frame.
    pub open spec fn located(self, name: Seq<char>) -> Option<(int, int)> {
        located_in(self.frames, name, self.frames.len() - 1)
    }

    /// The state with the binding that `name` stands for holding `handle`
    /// instead: the binding stays where it is, in whichever frame. A state
    /// that binds the name nowhere stays as it is.
    pub open spec fn rebound(self, name: Seq<char>, handle: PointerModel) -> StateModel {
        match self.located(name) {
            Some(place) => StateModel {
                cells: self.cells,
                frames: self.frames.update(
                    place.0,
                    self.frames[place.0].update(place.1, BindingModel { name, handle }),
                ),
                output: self.output,
            },
            None => self,
        }
    }

    /// The state with `name` bound to `handle` in the innermost frame, in
    /// place of what that frame bound it to before. A state without frames
    /// gets one.
    pub open spec fn bound(self, name: Seq<char>, handle: PointerModel) -> StateModel {
        let binding = BindingModel { name, handle };
        if self.frames.len() == 0 {
            StateModel { cells: self.cells, frames: seq![seq![binding]], output: self.output }
        } else {
            let last = self.frames.last();
            let frame = match frame_find(last, name) {
                Some(i) => last.update(i, binding),
                None => last.push(binding),
            };
            StateModel {
                cells: self.cells,
                frames: self.frames.drop_last().push(frame),
                output: self.output,
            }
        }
    }

    /// The state without the innermost frame's binding of `name`. Frames
    /// further out are not touched.
    pub open spec fn unbound(self, name: Seq<char>) -> StateModel {
        if self.frames.len() == 0 {
            self
        } else {
            let last = self.frames.last();
            match frame_find(last, name) {
                Some(i) => StateModel {
                    cells: self.cells,
                    frames: self.frames.drop_last().push(last.remove(i)),
                    output: self.output,
                },
                None => self,
            }
        }
    }

    /// The state with a new, empty innermost frame.
    pub open spec fn entered(self) -> StateModel {
        StateModel {
            cells: self.cells,
            frames: self.frames.push(Seq::empty()),
            output: self.output,
        }
    }

    /// The state without its innermost frame.
    pub open spec fn left(self) -> StateModel {
        if self.frames.len() == 0 {
            self
        } else {
            StateModel {
                cells: self.cells,
                frames: self.frames.drop_last(),
                output: self.output,
            }
        }
    }

    /// The state with one more emission.
    pub open spec fn emitted(self, emission: EmissionModel) -> StateModel {
        StateModel {
            cells: self.cells,
            frames: self.frames,
            output: self.output.push(emission),
        }
    }
}

/// Finds the first binding of `name` in a frame.
pub fn find_binding(bindings: &Vec<Binding>, name: &String) -> (r: Option<usize>)
    ensures
        match r {
            Some(i) => frame_find(binding_models(*bindings), name@) == Some(i as int) && i
                < bindings@.len(),
            None => frame_find(binding_models(*bindings), name@) is None,
        },
{
    let mut i: usize = 0;
    while i < bindings.len()
        invariant
            i <= bindings@.len(),
            frame_find(binding_models(*bindings), name@) == frame_find_from(
                binding_models(*bindings),
                name@,
                i as int,
            ),
        decreases bindings@.len() - i,
    {
        if bindings[i].name == *name {
            return Some(i);
        }
        i += 1;
    }
    None
}

/// An owned, fixed handle on `value`, bound to `name`.
fn builtin_binding(name: &str, value: Value) -> (r: Binding)
    ensures
        r@ == builtin(name@, value@),
{
    Binding { name: String::from_str(name), handle: Pointer::ConstConst(value) }
}

impl State {
    /// The state in which every evaluation starts.
    pub fn new() -> (r: State)
        ensures
            r@ == StateModel::initial(),
    {
        let mut bindings: Vec<Binding> = Vec::new();
        bindings.push(builtin_binding("if", Value::Keyword(Keyword::If)));
        bindings.push(builtin_binding("delete", Value::Keyword(Keyword::Delete)));
        bindings.push(builtin_binding("function", Value::Keyword(Keyword::Function)));
        bindings.push(builtin_binding("eval", Value::Keyword(Keyword::Eval)));
        bindings.push(builtin_binding("true", Value::Boolean(Boolean::True)));
        bindings.push(builtin_binding("false", Value::Boolean(Boolean::False)));
        bindings.push(builtin_binding("maybe", Value::Boolean(Boolean::Maybe)));
        bindings.push(builtin_binding("undefined", Value::Undefined));
        let empty = Value::Object(Vec::new());
        assert(empty@ == ValueModel::Object(Seq::empty())) by {
            assert(empty@->Object_0 =~= Seq::empty());
        }
        bindings.push(builtin_binding("object", empty));
        let mut frames: Vec<Frame> = Vec::new();
        frames.push(Frame { bindings });
        let r = State { cells: Vec::new(), frames, output: Vec::new() };
        assert(r@.cells =~= StateModel::initial().cells);
        assert(r@.output =~= StateModel::initial().output);
        assert(r@.frames[0] =~= StateModel::initial().frames[0]);
        assert(r@.frames =~= StateModel::initial().frames);
        r
    }

    /// A copy of the value in a cell; undefined where there is no such cell.
    pub fn read(&self, cell: usize) -> (r: Value)
        ensures
            r@ == self@.value_at(cell),
    {
        if cell < self.cells.len() {
            self.cells[cell].duplicate()
        } else {
            Value::Undefined
        }
    }

    /// Writes `value` into a cell; does nothing where there is no such cell.
    pub fn write(&mut self, cell: usize, value: Value)
        ensures
            final(self)@ == old(self)@.written(cell, value@),
    {
        if cell < self.cells.len() {
            self.cells.set(cell, value);
            assert(self@.cells =~= old(self)@.cells.update(cell as int, value@));
        }
    }

    /// What `name` is bound to: a copy of the innermost binding's handle.
    pub fn get(&self, name: &String) -> (r: Option<Pointer>)
        ensures
            match r {
                Some(handle) => self@.lookup(name@) == Some(handle@),
                None => self@.lookup(name@) is None,
            },
    {
        let mut k: usize = self.frames.len();
        while k > 0
            invariant
                k <= self.frames@.len(),
                self@.lookup(name@) == lookup_in(self@.frames, name@, k as int - 1),
            decreases k,
        {
            k -= 1;
            match find_binding(&self.frames[k].bindings, name) {
                Some(i) => {
                    return Some(self.frames[k].bindings[i].handle.duplicate());
                },
                None => {},
            }
        }
        None
    }

    /// Where `name` is bound: the index of the innermost frame that binds
    /// it, and the index of the binding in that frame.
    pub fn locate(&self, name: &String) -> (r: Option<(usize, usize)>)
        ensures
            match r {
                Some(place) => self@.located(name@) == Some((place.0 as int, place.1 as int))
                    && place.0 < self.frames@.len() && place.1
                    < self.frames@[place.0 as int].bindings@.len(),
                None => self@.located(name@) is None,
            },
    {
        let mut k: usize = self.frames.len();
        while k > 0
            invariant
                k <= self.frames@.len(),
                self@.located(name@) == located_in(self@.frames, name@, k as int - 1),
            decreases k,
        {
            k -= 1;
            match find_binding(&self.frames[k].bindings, name) {
                Some(i) => {
                    return Some((k, i));
                },
                None => {},
            }
        }
        None
    }

    /// Gives the binding that `name` stands for the handle `handle`, where
    /// the binding is; does nothing where the name is bound nowhere.
    pub fn rebind(&mut self, name: &String, handle: Pointer)
        ensures
            final(self)@ == old(self)@.rebound(name@, handle@),
    {
        match self.locate(name) {
            None => {},
            Some(place) => {
                let k = place.0;
                let i = place.1;
                let ghost before = self@;
                let ghost binding = BindingModel { name: name@, handle: handle@ };
                let mut frame = self.frames.remove(k);
                let ghost held = binding_models(frame.bindings);
                assert(held == before.frames[k as int]);
                frame.bindings.set(i, Binding { name: name.clone(), handle });
                assert(binding_models(frame.bindings) =~= held.update(i as int, binding));
                self.frames.insert(k, frame);
                assert(self@.frames =~= before.frames.update(
                    k as int,
                    held.update(i as int, binding),
                ));
                assert(self@.cells == before.cells);
                assert(self@.output == before.output);
            },
        }
    }

    /// Binds `name` to `handle` in the innermost frame.
    pub fn insert(&mut self, name: String, handle: Pointer)
        ensures
            final(self)@ == old(self)@.bound(name@, handle@),
    {
        let ghost before = self@;
        let ghost binding = BindingModel { name: name@, handle: handle@ };
        match self.frames.pop() {
            None => {
                let mut bindings: Vec<Binding> = Vec::new();
                bindings.push(Binding { name, handle });
                self.frames.push(Frame { bindings });
                assert(self@.frames[0] =~= seq![binding]);
                assert(self@.frames =~= seq![seq![binding]]);
            },
            Some(mut frame) => {
                let ghost last = binding_models(frame.bindings);
                assert(last == before.frames.last());
                match find_binding(&frame.bindings, &name) {
                    Some(i) => {
                        frame.bindings.set(i, Binding { name, handle });
                        assert(binding_models(frame.bindings) =~= last.update(i as int, binding));
                    },
                    None => {
                        frame.bindings.push(Binding { name, handle });
                        assert(binding_models(frame.bindings) =~= last.push(binding));
                    },
                }
                self.frames.push(frame);
                assert(self@.frames =~= before.frames.drop_last().push(
                    binding_models(frame.bindings),
                ));
            },
        }
        assert(self@.cells == before.cells);
        assert(self@.output == before.output);
    }

    /// Removes the innermost frame's binding of `name`, if it has one.
    pub fn delete(&mut self, name: &String)
        ensures
            final(self)@ == old(self)@.unbound(name@),
    {
        let ghost before = self@;
        match self.frames.pop() {
            None => {
                assert(self@.frames =~= before.frames);
            },
            Some(mut frame) => {
                let ghost last = binding_models(frame.bindings);
                assert(last == before.frames.last());
                match find_binding(&frame.bindings, name) {
                    Some(i) => {
                        frame.bindings.remove(i);
                        assert(binding_models(frame.bindings) =~= last.remove(i as int));
                        self.frames.push(frame);
                        assert(self@.frames =~= before.frames.drop_last().push(
                            last.remove(i as int),
                        ));
                    },
                    None => {
                        self.frames.push(frame);
                        assert(self@.frames =~= before.frames);
                    },
                }
            },
        }
        assert(self@.cells == before.cells);
        assert(self@.output == before.output);
    }

    /// Opens a new innermost frame.
    pub fn enter(&mut self)
        ensures
            final(self)@ == old(self)@.entered(),
    {
        let frame = Frame { bindings: Vec::new() };
        assert(binding_models(frame.bindings) =~= Seq::empty());
        self.frames.push(frame);
        assert(self@.frames =~= old(self)@.frames.push(Seq::empty()));
    }

    /// Closes the innermost frame.
    pub fn leave(&mut self)
        ensures
            final(self)@ == old(self)@.left(),
    {
        let ghost before = self@;
        self.frames.pop();
        proof {
            if before.frames.len() == 0 {
                assert(self@.frames =~= before.frames);
            } else {
                assert(self@.frames =~= before.frames.drop_last());
            }
        }
    }

    /// Sends `emission` to the side channel.
    pub fn emit(&mut self, emission: Emission)
        ensures
            final(self)@ == old(self)@.emitted(emission@),
    {
        self.output.push(emission);
        assert(self@.output =~= old(self)@.output.push(emission@));
    }
}

/// Puts `content` into a new shared cell and returns the cell's index.
pub fn rc_mut_new(state: &mut State, content: Value) -> (cell: usize)
    ensures
        cell == old(state)@.next_cell(),
        final(state)@ == old(state)@.stored(content@),
{
    let cell = state.cells.len();
    state.cells.push(content);
    assert(state@.cells =~= old(state)@.cells.push(content@));
    cell
}

} // verus!
