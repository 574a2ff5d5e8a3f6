//! Runtime values, the handles that refer to them, and their models.
//!
//! A number is held as the 64 bits of an IEEE 754 double. What can be read
//! off the bits (sign, zero, not-a-number, the total order) is decided here;
//! arithmetic, parsing and printing of numbers are asked of the host.

use vstd::prelude::*;
use crate::syntax::{Syntax, SyntaxModel, name_models, duplicate_names, same_names};

verus! {

broadcast use vstd::std_specs::vec::axiom_vec_index_decreases;

/// The sign bit of a number.
pub const SIGN_BIT: u64 = 0x8000_0000_0000_0000;

/// The bits of positive infinity; a larger magnitude is not a number.
pub const INFINITY_BITS: u64 = 0x7ff0_0000_0000_0000;

/// A truth value of three-valued logic.
#[derive(Debug, Clone, Copy, PartialEq, Eq, Structural)]
pub enum Boolean {
    True,
    False,
    Maybe,
}

/// The built-in functions.
#[derive(Debug, Clone, Copy, PartialEq, Eq, Structural)]
pub enum Keyword {
    If,
    Delete,
    Function,
    Eval,
}

/// How two values stand to each other in the total order.
#[derive(Debug, Clone, Copy, PartialEq, Eq, Structural)]
pub enum Order {
    Less,
    Equal,
    Greater,
}

/// A runtime value.
#[derive(Debug, PartialEq)]
pub enum Value {
    /// The bits of a double.
    Number(u64),
    String(String),
    Boolean(Boolean),
    /// Members in the order in which they were added.
    Object(Vec<Member>),
    /// Parameter names and body; no scope is captured.
    Function(Vec<String>, Syntax),
    Keyword(Keyword),
    Undefined,
}

/// One entry of an object: a key and the handle stored under it.
#[derive(Debug, PartialEq)]
pub struct Member {
    pub key: Value,
    pub slot: Pointer,
}

/// A handle to a value. The first word of a variant says whether the handle
/// is reassignable, the second whether its storage is shared: an owned handle
/// holds its value, a shared one names a cell of the state.
#[derive(Debug, PartialEq)]
pub enum Pointer {
    ConstConst(Value),
    ConstVar(usize),
    VarConst(Value),
    VarVar(usize),
}

/// Model of [`Value`].
pub enum ValueModel {
    Number(u64),
    String(Seq<char>),
    Boolean(Boolean),
    Object(Seq<MemberModel>),
    Function(Seq<Seq<char>>, SyntaxModel),
    Keyword(Keyword),
    Undefined,
}

/// Model of [`Member`].
pub struct MemberModel {
    pub key: ValueModel,
    pub slot: PointerModel,
}

/// Model of [`Pointer`].
pub enum PointerModel {
    ConstConst(ValueModel),
    ConstVar(usize),
    VarConst(ValueModel),
    VarVar(usize),
}

/// The models of a list of members.
pub open spec fn member_models(members: Vec<Member>) -> Seq<MemberModel>
    decreases members,
{
    Seq::new(
        members@.len(),
        |i: int|
            if 0 <= i < members@.len() {
                members@[i].model()
            } else {
                arbitrary()
            },
    )
}

impl Value {
    /// The model of this value.
    pub open spec fn model(self) -> ValueModel
        decreases self,
    {
        match self {
            Value::Number(bits) => ValueModel::Number(bits),
            Value::String(text) => ValueModel::String(text@),
            Value::Boolean(b) => ValueModel::Boolean(b),
            Value::Object(members) => ValueModel::Object(member_models(members)),
            Value::Function(params, body) => ValueModel::Function(name_models(params), body@),
            Value::Keyword(k) => ValueModel::Keyword(k),
            Value::Undefined => ValueModel::Undefined,
        }
    }
}

impl Member {
    /// The model of this member.
    pub open spec fn model(self) -> MemberModel
        decreases self,
    {
        MemberModel { key: self.key.model(), slot: self.slot.model() }
    }
}

impl Pointer {
    /// The model of this handle.
    pub open spec fn model(self) -> PointerModel
        decreases self,
    {
        match self {
            Pointer::ConstConst(value) => PointerModel::ConstConst(value.model()),
            Pointer::ConstVar(cell) => PointerModel::ConstVar(cell),
            Pointer::VarConst(value) => PointerModel::VarConst(value.model()),
            Pointer::VarVar(cell) => PointerModel::VarVar(cell),
        }
    }
}

impl View for Value {
    type V = ValueModel;

    open spec fn view(&self) -> ValueModel {
        self.model()
    }
}

impl View for Member {
    type V = MemberModel;

    open spec fn view(&self) -> MemberModel {
        self.model()
    }
}

impl View for Pointer {
    type V = PointerModel;

    open spec fn view(&self) -> PointerModel {
        self.model()
    }
}

/// The magnitude of a number: its bits without the sign.
pub open spec fn magnitude(bits: u64) -> u64 {
    if bits >= SIGN_BIT {
        (bits - SIGN_BIT) as u64
    } else {
        bits
    }
}

/// Whether a number is zero, of either sign.
pub open spec fn is_zero(bits: u64) -> bool {
    magnitude(bits) == 0
}

/// Whether the bits are not a number.
pub open spec fn is_nan(bits: u64) -> bool {
    magnitude(bits) > INFINITY_BITS
}

/// The number with its sign flipped.
pub open spec fn negated(bits: u64) -> u64 {
    if bits >= SIGN_BIT {
        (bits - SIGN_BIT) as u64
    } else {
        (bits + SIGN_BIT) as u64
    }
}

/// The place of a number in the total order of doubles: negative numbers
/// below positive ones, a larger magnitude further from zero.
pub open spec fn rank(bits: u64) -> int {
    if bits >= SIGN_BIT {
        -(bits - SIGN_BIT) - 1
    } else {
        bits as int
    }
}

/// Whether a text has the shape of a numeral: it starts with one of the
/// digits `0` to `9`.
pub open spec fn numeral_shaped(text: Seq<char>) -> bool {
    text.len() > 0 && 48 <= (text[0] as u32) <= 57
}

/// Whether text `a` comes before text `b` in dictionary order, both read
/// from position `i` on and equal before it.
pub open spec fn text_less_from(a: Seq<char>, b: Seq<char>, i: int) -> bool
    decreases a.len() - i,
{
    if i < 0 || i >= a.len() {
        0 <= i < b.len()
    } else if i >= b.len() {
        false
    } else if a[i] != b[i] {
        (a[i] as u32) < (b[i] as u32)
    } else {
        text_less_from(a, b, i + 1)
    }
}

/// Whether text `a` comes before text `b` in dictionary order.
pub open spec fn text_less(a: Seq<char>, b: Seq<char>) -> bool {
    text_less_from(a, b, 0)
}

impl Boolean {
    /// Three-valued "and": false wins, then maybe.
    pub open spec fn conj(self, other: Boolean) -> Boolean {
        if self is False || other is False {
            Boolean::False
        } else if self is Maybe || other is Maybe {
            Boolean::Maybe
        } else {
            Boolean::True
        }
    }

    /// Three-valued "or": true wins, then maybe.
    pub open spec fn disj(self, other: Boolean) -> Boolean {
        if self is True || other is True {
            Boolean::True
        } else if self is Maybe || other is Maybe {
            Boolean::Maybe
        } else {
            Boolean::False
        }
    }

    /// The truth value of a two-valued fact.
    pub open spec fn of(fact: bool) -> Boolean {
        if fact {
            Boolean::True
        } else {
            Boolean::False
        }
    }

    pub fn and(self, other: Boolean) -> (r: Boolean)
        ensures
            r == self.conj(other),
    {
        match (self, other) {
            (Boolean::False, _) => Boolean::False,
            (_, Boolean::False) => Boolean::False,
            (Boolean::Maybe, _) => Boolean::Maybe,
            (_, Boolean::Maybe) => Boolean::Maybe,
            _ => Boolean::True,
        }
    }

    pub fn or(self, other: Boolean) -> (r: Boolean)
        ensures
            r == self.disj(other),
    {
        match (self, other) {
            (Boolean::True, _) => Boolean::True,
            (_, Boolean::True) => Boolean::True,
            (Boolean::Maybe, _) => Boolean::Maybe,
            (_, Boolean::Maybe) => Boolean::Maybe,
            _ => Boolean::False,
        }
    }

    pub fn from_bool(fact: bool) -> (r: Boolean)
        ensures
            r == Boolean::of(fact),
    {
        if fact {
            Boolean::True
        } else {
            Boolean::False
        }
    }
}

impl ValueModel {
    /// The truth value that a conditional reads off a value: a Boolean is
    /// itself; undefined, zero, not-a-number and the empty text are false;
    /// everything else is true.
    pub open spec fn truth(self) -> Boolean {
        match self {
            ValueModel::Boolean(b) => b,
            ValueModel::Undefined => Boolean::False,
            ValueModel::Number(bits) => Boolean::of(!is_zero(bits) && !is_nan(bits)),
            ValueModel::String(text) => Boolean::of(text.len() > 0),
            _ => Boolean::True,
        }
    }

    /// Arithmetic negation: a number with its sign flipped, undefined for
    /// anything else.
    pub open spec fn negation(self) -> ValueModel {
        match self {
            ValueModel::Number(bits) => ValueModel::Number(negated(bits)),
            _ => ValueModel::Undefined,
        }
    }

    /// The total order on numbers and on texts; values of other kinds, or of
    /// two different kinds, are not ordered.
    pub open spec fn order(self, other: ValueModel) -> Option<Order> {
        match (self, other) {
            (ValueModel::Number(a), ValueModel::Number(b)) => Some(
                if rank(a) < rank(b) {
                    Order::Less
                } else if a == b {
                    Order::Equal
                } else {
                    Order::Greater
                },
            ),
            (ValueModel::String(a), ValueModel::String(b)) => Some(
                if a == b {
                    Order::Equal
                } else if text_less(a, b) {
                    Order::Less
                } else {
                    Order::Greater
                },
            ),
            _ => None,
        }
    }

    /// The index of the first member stored under `key`, looking from `i` on.
    pub open spec fn find_from(members: Seq<MemberModel>, key: ValueModel, i: int) -> Option<int>
        decreases members.len() - i,
    {
        if i < 0 || i >= members.len() {
            None
        } else if members[i].key == key {
            Some(i)
        } else {
            Self::find_from(members, key, i + 1)
        }
    }

    /// The index of the first member stored under `key`.
    pub open spec fn find(members: Seq<MemberModel>, key: ValueModel) -> Option<int> {
        Self::find_from(members, key, 0)
    }
}

impl ValueModel {
    /// Whether this value reads as `other`, the order of members aside:
    /// two objects, where they have as many members and each member of
    /// this one has, under its key in the other, a handle that reads as
    /// its own; anything else, where the two are the same.
    pub open spec fn reads_as(self, other: ValueModel) -> bool
        decreases self,
    {
        match (self, other) {
            (ValueModel::Object(x), ValueModel::Object(y)) => x.len() == y.len() && forall|i: int|
                0 <= i < x.len() ==> ValueModel::find(y, (#[trigger] x[i]).key) is Some
                    && x[i].slot.reads_as(y[ValueModel::find(y, x[i].key)->Some_0].slot),
            _ => self == other,
        }
    }
}

impl PointerModel {
    /// Whether this handle reads as `other`: two owned handles of one
    /// kind, where their values read as each other; anything else, where
    /// the two are the same handle.
    pub open spec fn reads_as(self, other: PointerModel) -> bool
        decreases self,
    {
        match (self, other) {
            (PointerModel::ConstConst(a), PointerModel::ConstConst(b)) => a.reads_as(b),
            (PointerModel::VarConst(a), PointerModel::VarConst(b)) => a.reads_as(b),
            _ => self == other,
        }
    }
}

/// Flips the sign of a number.
pub fn negate_number(bits: u64) -> (r: u64)
    ensures
        r == negated(bits),
{
    if bits >= SIGN_BIT {
        bits - SIGN_BIT
    } else {
        bits + SIGN_BIT
    }
}

/// Whether a number is zero, of either sign.
pub fn number_is_zero(bits: u64) -> (r: bool)
    ensures
        r == is_zero(bits),
{
    bits == 0 || bits == SIGN_BIT
}

/// Whether the bits are not a number.
pub fn number_is_nan(bits: u64) -> (r: bool)
    ensures
        r == is_nan(bits),
{
    if bits >= SIGN_BIT {
        bits - SIGN_BIT > INFINITY_BITS
    } else {
        bits > INFINITY_BITS
    }
}

/// Whether number `a` stands below number `b` in the total order.
pub fn number_less(a: u64, b: u64) -> (r: bool)
    ensures
        r == (rank(a) < rank(b)),
{
    if a >= SIGN_BIT {
        if b >= SIGN_BIT {
            a > b
        } else {
            true
        }
    } else {
        if b >= SIGN_BIT {
            false
        } else {
            a < b
        }
    }
}

/// Whether a text has the shape of a numeral: it starts with a digit.
/// Only such an identifier can stand for a number.
pub fn starts_with_digit(text: &str) -> (r: bool)
    ensures
        r == numeral_shaped(text@),
{
    if text.unicode_len() == 0 {
        false
    } else {
        let first = text.get_char(0) as u32;
        48 <= first && first <= 57
    }
}

/// Whether text `a` comes before text `b` in dictionary order.
pub fn text_precedes(a: &str, b: &str) -> (r: bool)
    ensures
        r == text_less(a@, b@),
{
    let n = a.unicode_len();
    let m = b.unicode_len();
    let mut i: usize = 0;
    while i < n && i < m
        invariant
            n == a@.len(),
            m == b@.len(),
            i <= n,
            i <= m,
            text_less(a@, b@) == text_less_from(a@, b@, i as int),
        decreases n - i,
    {
        let x = a.get_char(i);
        let y = b.get_char(i);
        if x != y {
            return (x as u32) < (y as u32);
        }
        i += 1;
    }
    i < m
}

/// Finds the first member stored under a key that reads the same as `key`.
pub fn find_member(members: &Vec<Member>, key: &Value) -> (r: Option<usize>)
    ensures
        match r {
            Some(i) => ValueModel::find(member_models(*members), key@) == Some(i as int) && i
                < members@.len(),
            None => ValueModel::find(member_models(*members), key@) is None,
        },
{
    let mut i: usize = 0;
    while i < members.len()
        invariant
            i <= members@.len(),
            ValueModel::find(member_models(*members), key@) == ValueModel::find_from(
                member_models(*members),
                key@,
                i as int,
            ),
        decreases members@.len() - i,
    {
        if members[i].key.same(key) {
            return Some(i);
        }
        i += 1;
    }
    None
}

/// Copies a list of members.
pub fn duplicate_members(members: &Vec<Member>) -> (r: Vec<Member>)
    ensures
        member_models(r) == member_models(*members),
    decreases members,
{
    let mut out: Vec<Member> = Vec::new();
    let mut i: usize = 0;
    while i < members.len()
        invariant
            i <= members@.len(),
            out@.len() == i,
            forall|j: int| 0 <= j < i ==> out@[j]@ == members@[j]@,
        decreases members@.len() - i,
    {
        assert(decreases_to!(members => members[i as int]));
        out.push(members[i].duplicate());
        i += 1;
    }
    assert(member_models(out) =~= member_models(*members));
    out
}

/// Whether two lists of members read the same, in the same order.
pub fn same_members(a: &Vec<Member>, b: &Vec<Member>) -> (r: bool)
    ensures
        r == (member_models(*a) == member_models(*b)),
    decreases a,
{
    if a.len() != b.len() {
        assert(member_models(*a).len() != member_models(*b).len());
        return false;
    }
    let mut i: usize = 0;
    while i < a.len()
        invariant
            i <= a@.len(),
            a@.len() == b@.len(),
            forall|j: int| 0 <= j < i ==> a@[j]@ == b@[j]@,
        decreases a@.len() - i,
    {
        assert(decreases_to!(a => a[i as int]));
        if !a[i].same(&b[i]) {
            assert(member_models(*a)[i as int] != member_models(*b)[i as int]);
            return false;
        }
        i += 1;
    }
    assert(member_models(*a) =~= member_models(*b));
    true
}

impl Member {
    /// A copy of this member.
    pub fn duplicate(&self) -> (r: Member)
        ensures
            r@ == self@,
        decreases self,
    {
        Member { key: self.key.duplicate(), slot: self.slot.duplicate() }
    }

    /// Whether two members have the same key and the same handle.
    pub fn same(&self, other: &Member) -> (r: bool)
        ensures
            r == (self@ == other@),
        decreases self,
    {
        self.key.same(&other.key) && self.slot.same(&other.slot)
    }
}

impl Pointer {
    /// A copy of this handle: an owned handle copies its value, a shared one
    /// names the same cell.
    pub fn duplicate(&self) -> (r: Pointer)
        ensures
            r@ == self@,
        decreases self,
    {
        match self {
            Pointer::ConstConst(value) => Pointer::ConstConst(value.duplicate()),
            Pointer::ConstVar(cell) => Pointer::ConstVar(*cell),
            Pointer::VarConst(value) => Pointer::VarConst(value.duplicate()),
            Pointer::VarVar(cell) => Pointer::VarVar(*cell),
        }
    }

    /// Whether two handles are the same handle: the same kind, and the same
    /// cell or the same owned value.
    pub fn same(&self, other: &Pointer) -> (r: bool)
        ensures
            r == (self@ == other@),
        decreases self,
    {
        match (self, other) {
            (Pointer::ConstConst(a), Pointer::ConstConst(b)) => a.same(b),
            (Pointer::ConstVar(a), Pointer::ConstVar(b)) => *a == *b,
            (Pointer::VarConst(a), Pointer::VarConst(b)) => a.same(b),
            (Pointer::VarVar(a), Pointer::VarVar(b)) => *a == *b,
            _ => false,
        }
    }
}

impl Pointer {
    /// Whether this handle reads as `other`, the order of members in owned
    /// objects aside.
    pub fn reads_as(&self, other: &Pointer) -> (r: bool)
        ensures
            r == self@.reads_as(other@),
        decreases self,
    {
        match (self, other) {
            (Pointer::ConstConst(a), Pointer::ConstConst(b)) => a.reads_as(b),
            (Pointer::VarConst(a), Pointer::VarConst(b)) => a.reads_as(b),
            _ => self.same(other),
        }
    }
}

impl Value {
    /// Whether this value reads as `other`, the order of members aside.
    pub fn reads_as(&self, other: &Value) -> (r: bool)
        ensures
            r == self@.reads_as(other@),
        decreases self,
    {
        match (self, other) {
            (Value::Object(x), Value::Object(y)) => {
                if x.len() != y.len() {
                    return false;
                }
                let ghost mx = member_models(*x);
                let ghost my = member_models(*y);
                let mut i: usize = 0;
                while i < x.len()
                    invariant
                        decreases_to!(self => x),
                        i <= x@.len(),
                        x@.len() == y@.len(),
                        mx == member_models(*x),
                        my == member_models(*y),
                        self@ == ValueModel::Object(mx),
                        other@ == ValueModel::Object(my),
                        forall|j: int|
                            0 <= j < i ==> ValueModel::find(my, (#[trigger] mx[j]).key) is Some
                                && mx[j].slot.reads_as(
                                my[ValueModel::find(my, mx[j].key)->Some_0].slot,
                            ),
                    decreases x@.len() - i,
                {
                    assert(decreases_to!(x => x[i as int]));
                    assert(mx[i as int] == x@[i as int]@);
                    match find_member(y, &x[i].key) {
                        None => {
                            return false;
                        },
                        Some(j) => {
                            assert(my[j as int] == y@[j as int]@);
                            if !x[i].slot.reads_as(&y[j].slot) {
                                return false;
                            }
                        },
                    }
                    i += 1;
                }
                true
            },
            _ => self.same(other),
        }
    }
}

impl Value {
    /// A copy of this value. Handles inside an object are copied as handles:
    /// the copy shares the cells that the members of this value name.
    pub fn duplicate(&self) -> (r: Value)
        ensures
            r@ == self@,
        decreases self,
    {
        match self {
            Value::Number(bits) => Value::Number(*bits),
            Value::String(text) => Value::String(text.clone()),
            Value::Boolean(b) => Value::Boolean(*b),
            Value::Object(members) => Value::Object(duplicate_members(members)),
            Value::Function(params, body) => Value::Function(
                duplicate_names(params),
                body.duplicate(),
            ),
            Value::Keyword(k) => Value::Keyword(*k),
            Value::Undefined => Value::Undefined,
        }
    }

    /// Whether two values read the same: the same kind and payload, objects
    /// with the same members in the same order under the same handles.
    pub fn same(&self, other: &Value) -> (r: bool)
        ensures
            r == (self@ == other@),
        decreases self,
    {
        match (self, other) {
            (Value::Number(a), Value::Number(b)) => *a == *b,
            (Value::String(a), Value::String(b)) => *a == *b,
            (Value::Boolean(a), Value::Boolean(b)) => *a == *b,
            (Value::Object(a), Value::Object(b)) => same_members(a, b),
            (Value::Function(pa, ba), Value::Function(pb, bb)) => same_names(pa, pb) && ba.same(
                bb,
            ),
            (Value::Keyword(a), Value::Keyword(b)) => *a == *b,
            (Value::Undefined, Value::Undefined) => true,
            _ => false,
        }
    }

    /// The truth value that a conditional reads off this value.
    pub fn truth(&self) -> (r: Boolean)
        ensures
            r == self@.truth(),
    {
        match self {
            Value::Boolean(b) => *b,
            Value::Undefined => Boolean::False,
            Value::Number(bits) => Boolean::from_bool(
                !number_is_zero(*bits) && !number_is_nan(*bits),
            ),
            Value::String(text) => Boolean::from_bool(!text.as_str().is_empty()),
            _ => Boolean::True,
        }
    }

    /// The arithmetic negation of this value.
    pub fn negation(&self) -> (r: Value)
        ensures
            r@ == self@.negation(),
    {
        match self {
            Value::Number(bits) => Value::Number(negate_number(*bits)),
            _ => Value::Undefined,
        }
    }

    /// How this value stands to `other` in the total order, if both are
    /// numbers or both are texts.
    pub fn order(&self, other: &Value) -> (r: Option<Order>)
        ensures
            r == self@.order(other@),
    {
        match (self, other) {
            (Value::Number(a), Value::Number(b)) => {
                if number_less(*a, *b) {
                    Some(Order::Less)
                } else if *a == *b {
                    Some(Order::Equal)
                } else {
                    Some(Order::Greater)
                }
            },
            (Value::String(a), Value::String(b)) => {
                if *a == *b {
                    Some(Order::Equal)
                } else if text_precedes(a.as_str(), b.as_str()) {
                    Some(Order::Less)
                } else {
                    Some(Order::Greater)
                }
            },
            _ => None,
        }
    }
}

} // verus!
