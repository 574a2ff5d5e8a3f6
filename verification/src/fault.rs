//! The failures that end an evaluation, and the texts that report them.

use vstd::prelude::*;
use vstd::string::StringExecFns;

verus! {

/// Why an evaluation failed.
#[derive(Debug, Clone, Copy, PartialEq, Eq, Structural)]
pub enum FaultKind {
    /// `if` was called with fewer than two arguments.
    IfArity,
    /// `function` was not called with a name, parameters and a body.
    FunctionShape,
    /// A parameter of `function` is not an identifier.
    ParameterName,
    /// `eval` was not called with exactly one argument.
    EvalArity,
    /// The value that was called is not callable.
    NotAFunction,
    /// Member access on a value that is not an object.
    NotAnObject,
    /// Member access with a key that the object does not hold.
    MissingMember,
    /// The operator is reserved.
    NotImplemented,
    /// The identifier is bound nowhere and is not a numeral.
    Unbound,
    /// Assignment through an owned, fixed handle.
    Unassignable,
    /// An equality operator of no `=` signs.
    MalformedOperator,
    /// The host could not turn the text given to `eval` into a tree.
    Frontend,
    /// Evaluation nested deeper than the limit allows.
    StackExhausted,
}

/// A failure: its kind, and the text that goes with it (the structural form
/// of what was wrong, the identifier that is unbound, the message of the
/// host's front end; empty where the kind says it all).
#[derive(Debug, PartialEq)]
pub struct Fault {
    pub kind: FaultKind,
    pub detail: String,
}

/// Model of [`Fault`].
pub struct FaultModel {
    pub kind: FaultKind,
    pub detail: Seq<char>,
}

impl View for Fault {
    type V = FaultModel;

    open spec fn view(&self) -> FaultModel {
        FaultModel { kind: self.kind, detail: self.detail@ }
    }
}

impl FaultKind {
    /// The words of a message that come before the detail.
    pub open spec fn opening(self) -> Seq<char> {
        match self {
            FaultKind::IfArity => "If statement requires two arguments: condition and body"@,
            FaultKind::FunctionShape => "Invalid arguments for `function`: `"@,
            FaultKind::ParameterName => "Invalid parameter name: `"@,
            FaultKind::EvalArity => "You can only `eval` one thing at a time; got `"@,
            FaultKind::NotAFunction => "`"@,
            FaultKind::NotAnObject => "not an object"@,
            FaultKind::MissingMember => "no such member"@,
            FaultKind::NotImplemented => "not implemented"@,
            FaultKind::Unbound => "unbound identifier: "@,
            FaultKind::Unassignable => "cannot assign through a fixed snapshot"@,
            FaultKind::MalformedOperator => "malformed operator"@,
            FaultKind::Frontend => ""@,
            FaultKind::StackExhausted => "stack exhausted"@,
        }
    }

    /// The words of a message that come after the detail.
    pub open spec fn closing(self) -> Seq<char> {
        match self {
            FaultKind::FunctionShape => "`; expected name, args, and body"@,
            FaultKind::ParameterName => "`"@,
            FaultKind::EvalArity => "`"@,
            FaultKind::NotAFunction => "` is not a function"@,
            _ => ""@,
        }
    }
}

impl FaultModel {
    /// A failure without accompanying text.
    pub open spec fn bare(kind: FaultKind) -> FaultModel {
        FaultModel { kind, detail: Seq::empty() }
    }

    /// The message for the user: the detail between the opening and the
    /// closing words of the kind. The message of the host's front end has
    /// neither and is handed on as it came.
    pub open spec fn message(self) -> Seq<char> {
        self.kind.opening() + self.detail + self.kind.closing()
    }
}

/// The message of a failure of this kind with this detail.
pub open spec fn message_of(kind: FaultKind, detail: Seq<char>) -> Seq<char> {
    (FaultModel { kind, detail }).message()
}

impl Fault {
    /// A failure without accompanying text.
    pub fn bare(kind: FaultKind) -> (r: Fault)
        ensures
            r@ == FaultModel::bare(kind),
    {
        Fault { kind, detail: String::new() }
    }

    /// A failure with accompanying text.
    pub fn with_detail(kind: FaultKind, detail: String) -> (r: Fault)
        ensures
            r@ == (FaultModel { kind, detail: detail@ }),
    {
        Fault { kind, detail }
    }

    /// The message for the user.
    pub fn message(&self) -> (r: String)
        ensures
            r@ == self@.message(),
    {
        let opening = match self.kind {
            FaultKind::IfArity => "If statement requires two arguments: condition and body",
            FaultKind::FunctionShape => "Invalid arguments for `function`: `",
            FaultKind::ParameterName => "Invalid parameter name: `",
            FaultKind::EvalArity => "You can only `eval` one thing at a time; got `",
            FaultKind::NotAFunction => "`",
            FaultKind::NotAnObject => "not an object",
            FaultKind::MissingMember => "no such member",
            FaultKind::NotImplemented => "not implemented",
            FaultKind::Unbound => "unbound identifier: ",
            FaultKind::Unassignable => "cannot assign through a fixed snapshot",
            FaultKind::MalformedOperator => "malformed operator",
            FaultKind::Frontend => "",
            FaultKind::StackExhausted => "stack exhausted",
        };
        let closing = match self.kind {
            FaultKind::FunctionShape => "`; expected name, args, and body",
            FaultKind::ParameterName => "`",
            FaultKind::EvalArity => "`",
            FaultKind::NotAFunction => "` is not a function",
            _ => "",
        };
        let mut text = String::from_str(opening);
        text.append(self.detail.as_str());
        text.append(closing);
        text
    }
}

/// The message of a failure of `kind` without detail.
pub fn plain(kind: FaultKind) -> (r: String)
    ensures
        r@ == message_of(kind, Seq::empty()),
{
    Fault::bare(kind).message()
}

/// The message of a failure of `kind` with `detail`.
pub fn detailed(kind: FaultKind, detail: String) -> (r: String)
    ensures
        r@ == message_of(kind, detail@),
{
    Fault::with_detail(kind, detail).message()
}

} // verus!
