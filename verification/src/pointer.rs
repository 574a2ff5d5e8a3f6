//! What can be done through a handle: reading its target, converting it to
//! another kind, assigning through it, comparing and combining targets.

use vstd::prelude::*;
use vstd::string::StringExecFns;
use crate::fault::{FaultKind, message_of, plain};
use crate::host::{Arithmetic, Host, Oracle, Session};
use crate::record::{heard_after_arithmetic, heard_after_shown};
use crate::state::{State, StateModel, rc_mut_new};
use crate::syntax::VarType;
use crate::value::{
    Boolean,
    Keyword,
    Member,
    MemberModel,
    Pointer,
    PointerModel,
    Value,
    ValueModel,
    find_member,
    is_zero,
    member_models,
    number_is_zero,
};

verus! {

impl PointerModel {
    /// Whether the handle names a shared cell.
    pub open spec fn shared(self) -> bool {
        self is ConstVar || self is VarVar
    }

    /// Whether the handle may be given a new target.
    pub open spec fn reassignable(self) -> bool {
        self is VarConst || self is VarVar
    }

    /// An owned, fixed handle on a truth value.
    pub open spec fn truth(b: Boolean) -> PointerModel {
        PointerModel::ConstConst(ValueModel::Boolean(b))
    }

    /// An owned, fixed handle on undefined.
    pub open spec fn undefined() -> PointerModel {
        PointerModel::ConstConst(ValueModel::Undefined)
    }
}

impl StateModel {
    /// A handle of kind `kind` on the target of `handle`, and the state
    /// after making it. Where the two agree on sharing, the storage is
    /// reused; from owned to shared, the value moves into a new cell; from
    /// shared to owned, the handle gets a copy of what the cell holds.
    pub open spec fn converted(self, handle: PointerModel, kind: VarType) -> (
        PointerModel,
        StateModel,
    ) {
        match handle {
            PointerModel::ConstConst(value) | PointerModel::VarConst(value) => match kind {
                VarType::ConstConst => (PointerModel::ConstConst(value), self),
                VarType::VarConst => (PointerModel::VarConst(value), self),
                VarType::ConstVar => (PointerModel::ConstVar(self.next_cell()), self.stored(value)),
                VarType::VarVar => (PointerModel::VarVar(self.next_cell()), self.stored(value)),
            },
            PointerModel::ConstVar(cell) | PointerModel::VarVar(cell) => match kind {
                VarType::ConstVar => (PointerModel::ConstVar(cell), self),
                VarType::VarVar => (PointerModel::VarVar(cell), self),
                VarType::ConstConst => (PointerModel::ConstConst(self.value_at(cell)), self),
                VarType::VarConst => (PointerModel::VarConst(self.value_at(cell)), self),
            },
        }
    }

    /// The handle and the state after assigning `value` through `handle`.
    /// A shared handle writes into its cell, whoever else names it sees the
    /// new value. An owned, reassignable handle takes the value as its new
    /// target, and nothing else changes. Through an owned, fixed handle
    /// nothing can be assigned.
    pub open spec fn assigned(self, handle: PointerModel, value: ValueModel) -> Option<
        (PointerModel, StateModel),
    > {
        match handle {
            PointerModel::ConstVar(cell) | PointerModel::VarVar(cell) => Some(
                (handle, self.written(cell, value)),
            ),
            PointerModel::VarConst(_) => Some((PointerModel::VarConst(value), self)),
            PointerModel::ConstConst(_) => None,
        }
    }

    /// Whether `a` and `b` are equal, looking `depth` levels into objects.
    /// Values that read as each other, the order of members aside, are
    /// equal at every depth. Two objects that do not are compared member
    /// by member, the order of members aside, with one level less for the
    /// members' targets; with no level left the answer is maybe. Anything
    /// else is unequal.
    pub open spec fn equality(self, a: ValueModel, b: ValueModel, depth: nat) -> Boolean
        decreases depth, 0int,
    {
        if a == b || a.reads_as(b) {
            Boolean::True
        } else {
            match (a, b) {
                (ValueModel::Object(x), ValueModel::Object(y)) => {
                    if depth == 0 {
                        Boolean::Maybe
                    } else if x.len() != y.len() {
                        Boolean::False
                    } else {
                        self.members_equality(x, y, 0, (depth - 1) as nat)
                    }
                },
                _ => Boolean::False,
            }
        }
    }

    /// Whether each member of `x` from index `i` on has an equal in `y`
    /// under its key: the three-valued "and" over those members.
    pub open spec fn members_equality(
        self,
        x: Seq<MemberModel>,
        y: Seq<MemberModel>,
        i: int,
        depth: nat,
    ) -> Boolean
        decreases depth, x.len() - i + 1,
    {
        if i < 0 || i >= x.len() {
            Boolean::True
        } else {
            match ValueModel::find(y, x[i].key) {
                None => Boolean::False,
                Some(j) => self.equality(self.target(x[i].slot), self.target(y[j].slot), depth).conj(
                    self.members_equality(x, y, i + 1, depth),
                ),
            }
        }
    }

    /// The handle under `name` in the object that `handle` refers to, and
    /// the state after asking. Where the object has no such member, a new
    /// cell holding undefined is made and a shared, fixed handle on it is
    /// returned; where `handle` is shared, the object in its cell gets that
    /// handle as a new member, so that asking again finds it.
    pub open spec fn vivified(self, handle: PointerModel, name: Seq<char>) -> (
        PointerModel,
        StateModel,
    ) {
        let key = ValueModel::String(name);
        let members = self.target(handle)->Object_0;
        match ValueModel::find(members, key) {
            Some(i) => (members[i].slot, self),
            None => {
                let slot = PointerModel::ConstVar(self.next_cell());
                let grown = ValueModel::Object(members.push(MemberModel { key, slot }));
                let made = self.stored(ValueModel::Undefined);
                match handle {
                    PointerModel::ConstVar(cell) | PointerModel::VarVar(cell) => (
                        slot,
                        made.written(cell, grown),
                    ),
                    _ => (slot, made),
                }
            },
        }
    }

    /// The handle stored under `key` in `object`, or why there is none.
    pub open spec fn member(object: ValueModel, key: ValueModel) -> Result<
        PointerModel,
        Seq<char>,
    > {
        match object {
            ValueModel::Object(members) => match ValueModel::find(members, key) {
                Some(i) => Ok(members[i].slot),
                None => Err(message_of(FaultKind::MissingMember, Seq::empty())),
            },
            _ => Err(message_of(FaultKind::NotAnObject, Seq::empty())),
        }
    }
}

/// The display form of a value: a text is itself, a number is what the host
/// prints for it, everything else has a fixed name.
pub open spec fn shown(o: Oracle, value: ValueModel) -> Seq<char> {
    match value {
        ValueModel::Number(bits) => (o.format)(bits),
        ValueModel::String(text) => text,
        ValueModel::Boolean(Boolean::True) => "true"@,
        ValueModel::Boolean(Boolean::False) => "false"@,
        ValueModel::Boolean(Boolean::Maybe) => "maybe"@,
        ValueModel::Object(_) => "[object]"@,
        ValueModel::Function(_, _) => "[function]"@,
        ValueModel::Keyword(Keyword::If) => "if"@,
        ValueModel::Keyword(Keyword::Delete) => "delete"@,
        ValueModel::Keyword(Keyword::Function) => "function"@,
        ValueModel::Keyword(Keyword::Eval) => "eval"@,
        ValueModel::Undefined => "undefined"@,
    }
}

/// The result of arithmetic on two values. Dividing by a number that is
/// zero gives undefined, whatever is divided. Two numbers give the number
/// that the host computes. Adding, where either side is a text, joins the
/// display forms of the two. Anything else gives undefined.
pub open spec fn arithmetic_result(o: Oracle, op: Arithmetic, a: ValueModel, b: ValueModel)
    -> ValueModel {
    if op is Div && b is Number && is_zero(b->Number_0) {
        ValueModel::Undefined
    } else if a is Number && b is Number {
        ValueModel::Number((o.arithmetic)(op, a->Number_0, b->Number_0))
    } else if op is Add && (a is String || b is String) {
        ValueModel::String(shown(o, a) + shown(o, b))
    } else {
        ValueModel::Undefined
    }
}

/// The display form of a value.
pub fn display<H: Host>(value: &Value, session: &mut Session<H>) -> (r: String)
    ensures
        forall|o: Oracle| #[trigger]
            o.explains(final(session).heard()) ==> o.explains(old(session).heard()) && final(session).heard()
                == heard_after_shown(o, value@, old(session).heard()) && r@
                == shown(o, value@),
{
    match value {
        Value::Number(bits) => session.format(*bits),
        Value::String(text) => text.clone(),
        Value::Boolean(Boolean::True) => String::from_str("true"),
        Value::Boolean(Boolean::False) => String::from_str("false"),
        Value::Boolean(Boolean::Maybe) => String::from_str("maybe"),
        Value::Object(_) => String::from_str("[object]"),
        Value::Function(_, _) => String::from_str("[function]"),
        Value::Keyword(Keyword::If) => String::from_str("if"),
        Value::Keyword(Keyword::Delete) => String::from_str("delete"),
        Value::Keyword(Keyword::Function) => String::from_str("function"),
        Value::Keyword(Keyword::Eval) => String::from_str("eval"),
        Value::Undefined => String::from_str("undefined"),
    }
}

/// Arithmetic on two values.
pub fn arithmetic<H: Host>(op: Arithmetic, a: &Value, b: &Value, session: &mut Session<H>) -> (r:
    Value)
    ensures
        forall|o: Oracle| #[trigger]
            o.explains(final(session).heard()) ==> o.explains(old(session).heard()) && final(session).heard()
                == heard_after_arithmetic(o, op, a@, b@, old(session).heard()) && r@
                == arithmetic_result(o, op, a@, b@),
{
    if let (Arithmetic::Div, Value::Number(y)) = (op, b) {
        if number_is_zero(*y) {
            return Value::Undefined;
        }
    }
    match (a, b) {
        (Value::Number(x), Value::Number(y)) => Value::Number(session.arithmetic(op, *x, *y)),
        _ => {
            let joins = match (op, a, b) {
                (Arithmetic::Add, Value::String(_), _) => true,
                (Arithmetic::Add, _, Value::String(_)) => true,
                _ => false,
            };
            if joins {
                let mut text = display(a, session);
                let tail = display(b, session);
                text.append(tail.as_str());
                Value::String(text)
            } else {
                Value::Undefined
            }
        },
    }
}

/// Whether `a` and `b` are equal, looking `depth` levels into objects.
pub fn equality(a: &Value, b: &Value, depth: u8, state: &State) -> (r: Boolean)
    ensures
        r == state@.equality(a@, b@, depth as nat),
    decreases depth,
{
    if a.same(b) || a.reads_as(b) {
        return Boolean::True;
    }
    match (a, b) {
        (Value::Object(x), Value::Object(y)) => {
            if depth == 0 {
                Boolean::Maybe
            } else if x.len() != y.len() {
                Boolean::False
            } else {
                let ghost mx = member_models(*x);
                let ghost my = member_models(*y);
                let ghost d = (depth - 1) as nat;
                let mut verdict = Boolean::True;
                let mut i: usize = 0;
                while i < x.len()
                    invariant
                        i <= x@.len(),
                        depth > 0,
                        d == (depth - 1) as nat,
                        mx == member_models(*x),
                        my == member_models(*y),
                        state@.equality(a@, b@, depth as nat) == state@.members_equality(
                            mx,
                            my,
                            0,
                            d,
                        ),
                        state@.members_equality(mx, my, 0, d) == verdict.conj(
                            state@.members_equality(mx, my, i as int, d),
                        ),
                    decreases x@.len() - i,
                {
                    match find_member(y, &x[i].key) {
                        None => {
                            return Boolean::False;
                        },
                        Some(j) => {
                            let left = x[i].slot.clone_inner(state);
                            let right = y[j].slot.clone_inner(state);
                            let here = equality(&left, &right, depth - 1, state);
                            verdict = verdict.and(here);
                        },
                    }
                    i += 1;
                }
                verdict
            }
        },
        _ => Boolean::False,
    }
}

impl Pointer {
    /// An owned, fixed handle on `value`.
    pub fn from(value: Value) -> (r: Pointer)
        ensures
            r@ == PointerModel::ConstConst(value@),
    {
        Pointer::ConstConst(value)
    }

    /// An owned, fixed handle on undefined.
    pub fn undefined() -> (r: Pointer)
        ensures
            r@ == PointerModel::undefined(),
    {
        Pointer::ConstConst(Value::Undefined)
    }

    /// An owned, fixed handle on a truth value.
    pub fn truth(b: Boolean) -> (r: Pointer)
        ensures
            r@ == PointerModel::truth(b),
    {
        Pointer::ConstConst(Value::Boolean(b))
    }

    /// A copy of the value that this handle refers to.
    pub fn clone_inner(&self, state: &State) -> (r: Value)
        ensures
            r@ == state@.target(self@),
    {
        match self {
            Pointer::ConstConst(value) => value.duplicate(),
            Pointer::VarConst(value) => value.duplicate(),
            Pointer::ConstVar(cell) => state.read(*cell),
            Pointer::VarVar(cell) => state.read(*cell),
        }
    }

    /// A handle of kind `kind` on this handle's target.
    pub fn convert(&self, kind: VarType, state: &mut State) -> (r: Pointer)
        ensures
            (r@, final(state)@) == old(state)@.converted(self@, kind),
    {
        match self {
            Pointer::ConstConst(value) | Pointer::VarConst(value) => match kind {
                VarType::ConstConst => Pointer::ConstConst(value.duplicate()),
                VarType::VarConst => Pointer::VarConst(value.duplicate()),
                VarType::ConstVar => Pointer::ConstVar(rc_mut_new(state, value.duplicate())),
                VarType::VarVar => Pointer::VarVar(rc_mut_new(state, value.duplicate())),
            },
            Pointer::ConstVar(cell) | Pointer::VarVar(cell) => match kind {
                VarType::ConstVar => Pointer::ConstVar(*cell),
                VarType::VarVar => Pointer::VarVar(*cell),
                VarType::ConstConst => Pointer::ConstConst(state.read(*cell)),
                VarType::VarConst => Pointer::VarConst(state.read(*cell)),
            },
        }
    }

    /// Assigns `value` through this handle and returns the handle as it is
    /// afterwards.
    pub fn assign(self, value: Value, state: &mut State) -> (r: Result<Pointer, String>)
        ensures
            match r {
                Ok(handle) => old(state)@.assigned(self@, value@) == Some(
                    (handle@, final(state)@),
                ),
                Err(text) => old(state)@.assigned(self@, value@) is None && text@ == message_of(
                    FaultKind::Unassignable,
                    Seq::empty(),
                ) && final(state)@ == old(state)@,
            },
    {
        match self {
            Pointer::ConstVar(cell) => {
                state.write(cell, value);
                Ok(Pointer::ConstVar(cell))
            },
            Pointer::VarVar(cell) => {
                state.write(cell, value);
                Ok(Pointer::VarVar(cell))
            },
            Pointer::VarConst(_) => Ok(Pointer::VarConst(value)),
            Pointer::ConstConst(_) => Err(plain(FaultKind::Unassignable)),
        }
    }

    /// An owned, fixed handle on the truth value of "this handle's target
    /// equals that of `rhs`", looking `precision` levels into objects.
    pub fn eq(&self, rhs: &Pointer, precision: u8, state: &State) -> (r: Pointer)
        ensures
            r@ == PointerModel::truth(
                state@.equality(state@.target(self@), state@.target(rhs@), precision as nat),
            ),
    {
        let left = self.clone_inner(state);
        let right = rhs.clone_inner(state);
        Pointer::truth(equality(&left, &right, precision, state))
    }

    /// An owned, fixed handle on the result of arithmetic on the targets of
    /// this handle and of `rhs`.
    pub fn combine<H: Host>(
        &self,
        op: Arithmetic,
        rhs: &Pointer,
        state: &State,
        session: &mut Session<H>,
    ) -> (r: Pointer)
        ensures
            forall|o: Oracle| #[trigger]
                o.explains(final(session).heard()) ==> o.explains(old(session).heard()) && final(session).heard()
                == heard_after_arithmetic(
                o,
                op,
                state@.target(self@),
                state@.target(rhs@),
                old(session).heard(),
            ) && r@
                    == PointerModel::ConstConst(
                    arithmetic_result(o, op, state@.target(self@), state@.target(rhs@)),
                ),
    {
        let left = self.clone_inner(state);
        let right = rhs.clone_inner(state);
        Pointer::ConstConst(arithmetic(op, &left, &right, session))
    }

    /// The sum of the two targets, or their display forms joined where
    /// either is a text.
    pub fn add<H: Host>(&self, rhs: &Pointer, state: &State, session: &mut Session<H>) -> (r:
        Pointer)
        ensures
            forall|o: Oracle| #[trigger]
                o.explains(final(session).heard()) ==> o.explains(old(session).heard()) && final(session).heard()
                == heard_after_arithmetic(
                o,
                Arithmetic::Add,
                state@.target(self@),
                state@.target(rhs@),
                old(session).heard(),
            ) && r@
                    == PointerModel::ConstConst(
                    arithmetic_result(o, Arithmetic::Add, state@.target(self@), state@.target(rhs@)),
                ),
    {
        self.combine(Arithmetic::Add, rhs, state, session)
    }

    /// The difference of the two targets.
    pub fn sub<H: Host>(&self, rhs: &Pointer, state: &State, session: &mut Session<H>) -> (r:
        Pointer)
        ensures
            forall|o: Oracle| #[trigger]
                o.explains(final(session).heard()) ==> o.explains(old(session).heard()) && final(session).heard()
                == heard_after_arithmetic(
                o,
                Arithmetic::Sub,
                state@.target(self@),
                state@.target(rhs@),
                old(session).heard(),
            ) && r@
                    == PointerModel::ConstConst(
                    arithmetic_result(o, Arithmetic::Sub, state@.target(self@), state@.target(rhs@)),
                ),
    {
        self.combine(Arithmetic::Sub, rhs, state, session)
    }

    /// The product of the two targets.
    pub fn mul<H: Host>(&self, rhs: &Pointer, state: &State, session: &mut Session<H>) -> (r:
        Pointer)
        ensures
            forall|o: Oracle| #[trigger]
                o.explains(final(session).heard()) ==> o.explains(old(session).heard()) && final(session).heard()
                == heard_after_arithmetic(
                o,
                Arithmetic::Mul,
                state@.target(self@),
                state@.target(rhs@),
                old(session).heard(),
            ) && r@
                    == PointerModel::ConstConst(
                    arithmetic_result(o, Arithmetic::Mul, state@.target(self@), state@.target(rhs@)),
                ),
    {
        self.combine(Arithmetic::Mul, rhs, state, session)
    }

    /// The quotient of the two targets; undefined where `rhs` is zero.
    pub fn div<H: Host>(&self, rhs: &Pointer, state: &State, session: &mut Session<H>) -> (r:
        Pointer)
        ensures
            forall|o: Oracle| #[trigger]
                o.explains(final(session).heard()) ==> o.explains(old(session).heard()) && final(session).heard()
                == heard_after_arithmetic(
                o,
                Arithmetic::Div,
                state@.target(self@),
                state@.target(rhs@),
                old(session).heard(),
            ) && r@
                    == PointerModel::ConstConst(
                    arithmetic_result(o, Arithmetic::Div, state@.target(self@), state@.target(rhs@)),
                ),
            state@.target(rhs@) is Number && is_zero(state@.target(rhs@)->Number_0) ==> r@
                == PointerModel::undefined() && final(session).heard() == old(session).heard(),
    {
        let right = rhs.clone_inner(state);
        if let Value::Number(y) = right {
            if number_is_zero(y) {
                return Pointer::undefined();
            }
        }
        let left = self.clone_inner(state);
        Pointer::ConstConst(arithmetic(Arithmetic::Div, &left, &right, session))
    }
}

/// Looks `name` up in the object that `handle` refers to, adding the member
/// where the object does not have it.
pub fn vivify(handle: &Pointer, name: &String, state: &mut State) -> (r: Pointer)
    requires
        old(state)@.target(handle@) is Object,
    ensures
        (r@, final(state)@) == old(state)@.vivified(handle@, name@),
{
    let object = handle.clone_inner(state);
    let key = Value::String(name.clone());
    match object {
        Value::Object(mut members) => {
            match find_member(&members, &key) {
                Some(i) => members[i].slot.duplicate(),
                None => {
                    let ghost before = member_models(members);
                    let cell = rc_mut_new(state, Value::Undefined);
                    match handle {
                        Pointer::ConstVar(home) | Pointer::VarVar(home) => {
                            members.push(Member { key, slot: Pointer::ConstVar(cell) });
                            assert(member_models(members) =~= before.push(
                                MemberModel {
                                    key: ValueModel::String(name@),
                                    slot: PointerModel::ConstVar(cell),
                                },
                            ));
                            state.write(*home, Value::Object(members));
                        },
                        _ => {},
                    }
                    Pointer::ConstVar(cell)
                },
            }
        },
        _ => Pointer::undefined(),
    }
}

/// The handle stored under `key` in `object`.
pub fn member(object: &Value, key: &Value) -> (r: Result<Pointer, String>)
    ensures
        match r {
            Ok(handle) => StateModel::member(object@, key@) == Ok::<PointerModel, Seq<char>>(
                handle@,
            ),
            Err(text) => StateModel::member(object@, key@) == Err::<PointerModel, Seq<char>>(
                text@,
            ),
        },
{
    match object {
        Value::Object(members) => match find_member(members, key) {
            Some(i) => Ok(members[i].slot.duplicate()),
            None => Err(plain(FaultKind::MissingMember)),
        },
        _ => Err(plain(FaultKind::NotAnObject)),
    }
}

} // verus!
