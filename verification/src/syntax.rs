//! The syntax tree that the evaluator walks, and its mathematical model.
//!
//! Every executable type here has a model in which text is a `Seq<char>` and
//! a list is a `Seq`. Contracts throughout the crate speak of models, so two
//! trees that were built separately but read the same are the same tree.

use vstd::prelude::*;

verus! {

broadcast use vstd::std_specs::vec::axiom_vec_index_decreases;

/// How a declaration holds its value: the first word says whether the handle
/// may be given a new target, the second whether the storage is a shared cell.
#[derive(Debug, Clone, Copy, PartialEq, Eq, Structural)]
pub enum VarType {
    /// Owned storage, fixed handle: a snapshot.
    ConstConst,
    /// Shared storage, fixed handle.
    ConstVar,
    /// Owned storage, reassignable handle.
    VarConst,
    /// Shared storage, reassignable handle.
    VarVar,
}

impl VarType {
    /// Whether a handle of this kind may be given a new target.
    pub open spec fn reassignable(self) -> bool {
        self is VarConst || self is VarVar
    }

    /// Whether a handle of this kind refers to a shared cell.
    pub open spec fn shared(self) -> bool {
        self is ConstVar || self is VarVar
    }
}

/// The binary operators. `Equal(n)` stands for `n` consecutive `=` signs.
#[derive(Debug, Clone, Copy, PartialEq, Eq, Structural)]
pub enum Operation {
    Equal(u8),
    Add,
    Sub,
    Mul,
    Div,
    Mod,
    Dot,
    And,
    Or,
    AddEq,
    SubEq,
    MulEq,
    DivEq,
    ModEq,
    Lt,
    Le,
    Gt,
    Ge,
    Arrow,
}

/// One piece of an interpolated string.
#[derive(Debug, PartialEq)]
pub enum StringSegment {
    /// An identifier whose value is spliced in.
    Ident(String),
    /// Literal text.
    String(String),
}

/// A node of the syntax tree.
#[derive(Debug, PartialEq)]
pub enum Syntax {
    /// A statement; `true` marks the printing form, the number is its verbosity.
    Statement(bool, Box<Syntax>, u8),
    Negate(Box<Syntax>),
    Operation(Box<Syntax>, Operation, Box<Syntax>),
    Block(Vec<Syntax>),
    Declare(VarType, String, Box<Syntax>),
    String(Vec<StringSegment>),
    Call(String, Vec<Syntax>),
    Ident(String),
    Function(Vec<String>, Box<Syntax>),
}

/// Model of [`StringSegment`].
pub enum SegmentModel {
    Ident(Seq<char>),
    String(Seq<char>),
}

/// Model of [`Syntax`].
pub enum SyntaxModel {
    Statement(bool, Box<SyntaxModel>, u8),
    Negate(Box<SyntaxModel>),
    Operation(Box<SyntaxModel>, Operation, Box<SyntaxModel>),
    Block(Seq<SyntaxModel>),
    Declare(VarType, Seq<char>, Box<SyntaxModel>),
    String(Seq<SegmentModel>),
    Call(Seq<char>, Seq<SyntaxModel>),
    Ident(Seq<char>),
    Function(Seq<Seq<char>>, Box<SyntaxModel>),
}

/// The texts that a list of names holds.
pub open spec fn name_models(names: Vec<String>) -> Seq<Seq<char>> {
    Seq::new(names@.len(), |i: int| names@[i]@)
}

/// The models of a list of segments.
pub open spec fn segment_models(segments: Vec<StringSegment>) -> Seq<SegmentModel> {
    Seq::new(segments@.len(), |i: int| segments@[i]@)
}

/// The models of a list of nodes.
pub open spec fn syntax_models(items: Vec<Syntax>) -> Seq<SyntaxModel>
    decreases items,
{
    Seq::new(
        items@.len(),
        |i: int|
            if 0 <= i < items@.len() {
                items@[i].model()
            } else {
                arbitrary()
            },
    )
}

impl View for StringSegment {
    type V = SegmentModel;

    open spec fn view(&self) -> SegmentModel {
        match self {
            StringSegment::Ident(name) => SegmentModel::Ident(name@),
            StringSegment::String(text) => SegmentModel::String(text@),
        }
    }
}

impl Syntax {
    /// The model of this node.
    pub open spec fn model(self) -> SyntaxModel
        decreases self,
    {
        match self {
            Syntax::Statement(printing, content, level) => SyntaxModel::Statement(
                printing,
                Box::new(content.model()),
                level,
            ),
            Syntax::Negate(content) => SyntaxModel::Negate(Box::new(content.model())),
            Syntax::Operation(lhs, op, rhs) => SyntaxModel::Operation(
                Box::new(lhs.model()),
                op,
                Box::new(rhs.model()),
            ),
            Syntax::Block(items) => SyntaxModel::Block(syntax_models(items)),
            Syntax::Declare(kind, name, value) => SyntaxModel::Declare(
                kind,
                name@,
                Box::new(value.model()),
            ),
            Syntax::String(segments) => SyntaxModel::String(segment_models(segments)),
            Syntax::Call(name, args) => SyntaxModel::Call(name@, syntax_models(args)),
            Syntax::Ident(name) => SyntaxModel::Ident(name@),
            Syntax::Function(params, body) => SyntaxModel::Function(
                name_models(params),
                Box::new(body.model()),
            ),
        }
    }
}

impl View for Syntax {
    type V = SyntaxModel;

    open spec fn view(&self) -> SyntaxModel {
        self.model()
    }
}

/// Copies a list of names.
pub fn duplicate_names(names: &Vec<String>) -> (r: Vec<String>)
    ensures
        name_models(r) == name_models(*names),
{
    let mut out: Vec<String> = Vec::new();
    let mut i: usize = 0;
    while i < names.len()
        invariant
            i <= names@.len(),
            out@.len() == i,
            forall|j: int| 0 <= j < i ==> out@[j]@ == names@[j]@,
        decreases names@.len() - i,
    {
        out.push(names[i].clone());
        i += 1;
    }
    assert(name_models(out) =~= name_models(*names));
    out
}

/// Whether two lists of names hold the same texts in the same order.
pub fn same_names(a: &Vec<String>, b: &Vec<String>) -> (r: bool)
    ensures
        r == (name_models(*a) == name_models(*b)),
{
    if a.len() != b.len() {
        assert(name_models(*a).len() != name_models(*b).len());
        return false;
    }
    let mut i: usize = 0;
    while i < a.len()
        invariant
            i <= a@.len(),
            a@.len() == b@.len(),
            forall|j: int| 0 <= j < i ==> a@[j]@ == b@[j]@,
        decreases a@.len() - i,
    {
        if a[i] != b[i] {
            assert(name_models(*a)[i as int] != name_models(*b)[i as int]);
            return false;
        }
        i += 1;
    }
    assert(name_models(*a) =~= name_models(*b));
    true
}

impl StringSegment {
    /// A copy of this segment.
    pub fn duplicate(&self) -> (r: StringSegment)
        ensures
            r@ == self@,
    {
        match self {
            StringSegment::Ident(name) => StringSegment::Ident(name.clone()),
            StringSegment::String(text) => StringSegment::String(text.clone()),
        }
    }

    /// Whether two segments read the same.
    pub fn same(&self, other: &StringSegment) -> (r: bool)
        ensures
            r == (self@ == other@),
    {
        match (self, other) {
            (StringSegment::Ident(a), StringSegment::Ident(b)) => *a == *b,
            (StringSegment::String(a), StringSegment::String(b)) => *a == *b,
            _ => false,
        }
    }
}

/// Copies a list of segments.
pub fn duplicate_segments(segments: &Vec<StringSegment>) -> (r: Vec<StringSegment>)
    ensures
        segment_models(r) == segment_models(*segments),
{
    let mut out: Vec<StringSegment> = Vec::new();
    let mut i: usize = 0;
    while i < segments.len()
        invariant
            i <= segments@.len(),
            out@.len() == i,
            forall|j: int| 0 <= j < i ==> out@[j]@ == segments@[j]@,
        decreases segments@.len() - i,
    {
        out.push(segments[i].duplicate());
        i += 1;
    }
    assert(segment_models(out) =~= segment_models(*segments));
    out
}

/// Whether two lists of segments read the same.
pub fn same_segments(a: &Vec<StringSegment>, b: &Vec<StringSegment>) -> (r: bool)
    ensures
        r == (segment_models(*a) == segment_models(*b)),
{
    if a.len() != b.len() {
        assert(segment_models(*a).len() != segment_models(*b).len());
        return false;
    }
    let mut i: usize = 0;
    while i < a.len()
        invariant
            i <= a@.len(),
            a@.len() == b@.len(),
            forall|j: int| 0 <= j < i ==> a@[j]@ == b@[j]@,
        decreases a@.len() - i,
    {
        if !a[i].same(&b[i]) {
            assert(segment_models(*a)[i as int] != segment_models(*b)[i as int]);
            return false;
        }
        i += 1;
    }
    assert(segment_models(*a) =~= segment_models(*b));
    true
}

/// Copies a list of nodes.
pub fn duplicate_syntax_list(items: &Vec<Syntax>) -> (r: Vec<Syntax>)
    ensures
        syntax_models(r) == syntax_models(*items),
    decreases items,
{
    let mut out: Vec<Syntax> = Vec::new();
    let mut i: usize = 0;
    while i < items.len()
        invariant
            i <= items@.len(),
            out@.len() == i,
            forall|j: int| 0 <= j < i ==> out@[j]@ == items@[j]@,
        decreases items@.len() - i,
    {
        assert(decreases_to!(items => items[i as int]));
        out.push(items[i].duplicate());
        i += 1;
    }
    assert(syntax_models(out) =~= syntax_models(*items));
    out
}

/// Whether two lists of nodes are the same trees in the same order.
pub fn same_syntax_list(a: &Vec<Syntax>, b: &Vec<Syntax>) -> (r: bool)
    ensures
        r == (syntax_models(*a) == syntax_models(*b)),
    decreases a,
{
    if a.len() != b.len() {
        assert(syntax_models(*a).len() != syntax_models(*b).len());
        return false;
    }
    let mut i: usize = 0;
    while i < a.len()
        invariant
            i <= a@.len(),
            a@.len() == b@.len(),
            forall|j: int| 0 <= j < i ==> a@[j]@ == b@[j]@,
        decreases a@.len() - i,
    {
        assert(decreases_to!(a => a[i as int]));
        if !a[i].same(&b[i]) {
            assert(syntax_models(*a)[i as int] != syntax_models(*b)[i as int]);
            return false;
        }
        i += 1;
    }
    assert(syntax_models(*a) =~= syntax_models(*b));
    true
}

impl Syntax {
    /// A copy of this tree.
    pub fn duplicate(&self) -> (r: Syntax)
        ensures
            r@ == self@,
        decreases self,
    {
        match self {
            Syntax::Statement(printing, content, level) => Syntax::Statement(
                *printing,
                Box::new(content.duplicate()),
                *level,
            ),
            Syntax::Negate(content) => Syntax::Negate(Box::new(content.duplicate())),
            Syntax::Operation(lhs, op, rhs) => Syntax::Operation(
                Box::new(lhs.duplicate()),
                *op,
                Box::new(rhs.duplicate()),
            ),
            Syntax::Block(items) => Syntax::Block(duplicate_syntax_list(items)),
            Syntax::Declare(kind, name, value) => Syntax::Declare(
                *kind,
                name.clone(),
                Box::new(value.duplicate()),
            ),
            Syntax::String(segments) => Syntax::String(duplicate_segments(segments)),
            Syntax::Call(name, args) => Syntax::Call(name.clone(), duplicate_syntax_list(args)),
            Syntax::Ident(name) => Syntax::Ident(name.clone()),
            Syntax::Function(params, body) => Syntax::Function(
                duplicate_names(params),
                Box::new(body.duplicate()),
            ),
        }
    }

    /// Whether two trees are the same: the same kinds of node, the same texts
    /// and numbers, in the same places.
    pub fn same(&self, other: &Syntax) -> (r: bool)
        ensures
            r == (self@ == other@),
        decreases self,
    {
        match (self, other) {
            (Syntax::Statement(pa, ca, la), Syntax::Statement(pb, cb, lb)) => {
                *pa == *pb && *la == *lb && ca.same(cb)
            },
            (Syntax::Negate(ca), Syntax::Negate(cb)) => ca.same(cb),
            (Syntax::Operation(la, oa, ra), Syntax::Operation(lb, ob, rb)) => {
                *oa == *ob && la.same(lb) && ra.same(rb)
            },
            (Syntax::Block(a), Syntax::Block(b)) => same_syntax_list(a, b),
            (Syntax::Declare(ka, na, va), Syntax::Declare(kb, nb, vb)) => {
                *ka == *kb && *na == *nb && va.same(vb)
            },
            (Syntax::String(a), Syntax::String(b)) => same_segments(a, b),
            (Syntax::Call(na, aa), Syntax::Call(nb, ab)) => *na == *nb && same_syntax_list(aa, ab),
            (Syntax::Ident(a), Syntax::Ident(b)) => *a == *b,
            (Syntax::Function(pa, ba), Syntax::Function(pb, bb)) => {
                same_names(pa, pb) && ba.same(bb)
            },
            _ => false,
        }
    }
}

} // verus!
