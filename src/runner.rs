use crate::parser::{parse_from, parse_text, ErrorModel, Expression, Filter};
use serde_json::Value;
use vstd::prelude::*;

verus! {

#[verifier::external_type_specification]
#[verifier::external_body]
pub struct ExValue(Value);

/// What indexing `v` with the string `key` gives: the member named `key`
/// when `v` is an object that has one, and `Value::Null` otherwise.
pub uninterp spec fn member_or_null(v: Value, key: Seq<char>) -> Value;

/// Relies on `serde_json::Value`'s `Index` impl for string keys, which gives
/// the member of an object, or `Value::Null` for a missing key or a value
/// that is no object; the member is cloned out.
#[verifier::external_body]
fn index_member(v: &Value, key: &str) -> (r: Value)
    ensures
        r == member_or_null(*v, key@),
{
    v[key].clone()
}

/// What applying filter `f` to document `v` gives. A field of a value that is
/// no object, or that lacks the field, is null; a pipe feeds the result of its
/// left side to its right side.
pub open spec fn apply(f: Filter, v: Value) -> Value
    decreases f,
{
    match f {
        Filter::Identity => v,
        Filter::Field { source, name } => member_or_null(apply(*source, v), name),
        Filter::Pipe { left, right } => apply(*right, apply(*left, v)),
    }
}

/// Applies `expr` to `value`.
pub fn evaluate(expr: &Expression, value: Value) -> (r: Value)
    ensures
        r == apply(expr@, value),
    decreases expr,
{
    match expr {
        Expression::Attribute { expression, name } => {
            let inner = evaluate(expression, value);
            index_member(&inner, name.as_str())
        },
        Expression::Pipe { left, right } => {
            let inner = evaluate(left, value);
            evaluate(right, inner)
        },
        Expression::This => value,
    }
}

/// Something that can be applied to a document.
pub trait Apply {
    /// The document that applying `self` to `value` gives.
    spec fn applied(&self, value: Value) -> Value;

    fn transform(&self, value: Value) -> (r: Value)
        ensures
            r == self.applied(value),
    ;
}

impl Apply for Expression {
    open spec fn applied(&self, value: Value) -> Value {
        apply(self@, value)
    }

    fn transform(&self, value: Value) -> (r: Value) {
        evaluate(self, value)
    }
}

/// Applies `expr` to `value`.
pub fn transform<A: Apply>(value: Value, expr: A) -> (r: Value)
    ensures
        r == expr.applied(value),
{
    expr.transform(value)
}

/// Parsing a text made of one or more dots gives an expression that leaves
/// every document unchanged.
pub proof fn lemma_dots_leave_document_unchanged(text: Seq<char>, doc: Value)
    requires
        text.len() >= 1,
        forall|i: int| 0 <= i < text.len() ==> text[i] == '.',
    ensures
        parse_text(text) is Ok,
        apply(parse_text(text)->Ok_0, doc) == doc,
{
    lemma_dots_parse_to_identity(text, 0, false);
}

proof fn lemma_dots_parse_to_identity(text: Seq<char>, pos: int, after_dot: bool)
    requires
        0 <= pos <= text.len(),
        forall|i: int| 0 <= i < text.len() ==> text[i] == '.',
    ensures
        parse_from(text, pos, Filter::Identity, after_dot) == Ok::<Filter, ErrorModel>(Filter::Identity),
    decreases text.len() - pos,
{
    if pos < text.len() {
        lemma_dots_parse_to_identity(text, pos + 1, true);
    }
}

/// Applying is a function of the expression and the document: two
/// applications of one expression to one document give equal values.
pub proof fn lemma_apply_is_deterministic(expr: Expression, doc: Value, first: Value, second: Value)
    requires
        first == expr.applied(doc),
        second == expr.applied(doc),
    ensures
        first == second,
{
}

} // verus!
