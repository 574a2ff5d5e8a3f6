//! The structural form of nodes and values, as failure messages show it.
//!
//! The form is the one that the standard library's formatting gives with
//! `{:?}`. It is not computed here: each function below hands its argument
//! to that formatting, and the contracts give the text a name.

use vstd::prelude::*;
use crate::syntax::{Syntax, SyntaxModel, syntax_models};
use crate::value::{Value, ValueModel};

verus! {

/// The structural form of a list of nodes.
pub uninterp spec fn nodes_structure(nodes: Seq<SyntaxModel>) -> Seq<char>;

/// The structural form of a node.
pub uninterp spec fn node_structure(node: SyntaxModel) -> Seq<char>;

/// The structural form of a value.
pub uninterp spec fn value_structure(value: ValueModel) -> Seq<char>;

/// Formats a list of nodes with `format!("{:?}", ..)`. Believed, not
/// proved: the text depends on nothing but what the nodes read as, so that
/// two lists with the same model give the same text.
#[verifier::external_body]
pub(crate) fn structure_of_nodes(nodes: &Vec<Syntax>) -> (r: String)
    ensures
        r@ == nodes_structure(syntax_models(*nodes)),
{
    format!("{nodes:?}")
}

/// Formats a node with `format!("{:?}", ..)`. Believed, not proved: the
/// text depends on nothing but what the node reads as.
#[verifier::external_body]
pub(crate) fn structure_of_node(node: &Syntax) -> (r: String)
    ensures
        r@ == node_structure(node@),
{
    format!("{node:?}")
}

/// Formats a value with `format!("{:?}", ..)`. Believed, not proved: the
/// text depends on nothing but what the value reads as.
#[verifier::external_body]
pub(crate) fn structure_of_value(value: &Value) -> (r: String)
    ensures
        r@ == value_structure(value@),
{
    format!("{value:?}")
}

} // verus!
