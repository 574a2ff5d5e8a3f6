//! A tree-walking evaluator for a small dynamically typed scripting language.
//!
//! The evaluator takes a syntax tree and gives a handle on a value. Values
//! are numbers, texts, three-valued truth values, objects, functions, the
//! built-in functions and undefined. A handle is either an owned snapshot of
//! a value or names a shared cell, and is either fixed or reassignable.
//! Names are bound in a chain of scopes, and a function resolves its free
//! names in the scopes of whoever calls it.
//!
//! Reading source text and arithmetic on doubles are not part of this
//! crate: the evaluator asks its [`host::Host`] for them.
//!
//! Every function is verified against a mathematical model. `semantics`
//! says what evaluation gives and `record` what it puts to the host;
//! `laws`, `invariants` and `side_channel` prove what holds of both. The
//! one thing believed and not proved is the structural form of nodes and
//! values in failure messages, which `structure` takes from the standard
//! library's formatting.

pub mod fault;
pub mod host;
pub mod interpreter;
pub mod invariants;
pub mod laws;
pub mod pointer;
pub mod record;
pub mod semantics;
pub mod side_channel;
pub mod state;
pub mod structure;
pub mod syntax;
pub mod value;

pub use fault::{Fault, FaultKind};
pub use host::{Arithmetic, Host, Session};
pub use interpreter::{inner_interpret, interpret, interpret_function, interpret_operation};
pub use state::{rc_mut_new, Emission, State};
pub use syntax::{Operation, StringSegment, Syntax, VarType};
pub use value::{Boolean, Keyword, Member, Pointer, Value};
