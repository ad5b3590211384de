//! The evaluator: what one expression does to the stack and the dictionary.

use crate::ast::{Expr, ExprView, ValView};
use crate::builtins::{invoke, invoke_spec};
use crate::dict::{Dict, Op, OpView, resolve_spec};
use crate::effect::{Effect, EffectView};
use crate::err::{OpErrView, OpResult, viewed};
use crate::stack::Stack;
use vstd::prelude::*;

verus! {

/// What running the word `name` does. The name is looked up in the
/// dictionary as it is at this moment. A native word runs at once. Of a
/// defined word the body is handed out to be run in place: the body that
/// is bound now, whatever the name is bound to later.
pub open spec fn call_spec(name: Seq<char>, s: Seq<ValView>, d: Map<Seq<char>, OpView>) -> (
    Seq<ValView>,
    Map<Seq<char>, OpView>,
    Result<EffectView, OpErrView>,
) {
    match resolve_spec(d, name) {
        Err(e) => (s, d, Err(e)),
        Ok(OpView::Native(b)) => invoke_spec(b, s, d),
        Ok(OpView::Defined(body)) => (s, d, Ok(EffectView::Run(body))),
    }
}

/// What evaluating an expression does: a literal pushes its value, a name
/// runs the word that it is bound to.
pub open spec fn eval_spec(e: ExprView, s: Seq<ValView>, d: Map<Seq<char>, OpView>) -> (
    Seq<ValView>,
    Map<Seq<char>, OpView>,
    Result<EffectView, OpErrView>,
) {
    match e {
        ExprView::Value(v) => (s.push(v), d, Ok(EffectView::Nothing)),
        ExprView::Opname(name) => call_spec(name, s, d),
    }
}

/// Runs the word `name`.
pub fn eval_opcall(name: &str, stack: &mut Stack, dict: &mut Dict) -> (r: OpResult<Effect>)
    ensures
        (final(stack)@, final(dict)@, viewed(r)) == call_spec(
            name@,
            old(stack)@,
            old(dict)@,
        ),
{
    match dict.resolve(name)? {
        Op::Native(b) => invoke(b, stack, dict),
        Op::Defined(body) => Ok(Effect::Run(body)),
    }
}

/// Evaluates one expression.
pub fn eval_expr(expr: &Expr, stack: &mut Stack, dict: &mut Dict) -> (r: OpResult<Effect>)
    ensures
        (final(stack)@, final(dict)@, viewed(r)) == eval_spec(
            expr@,
            old(stack)@,
            old(dict)@,
        ),
{
    match expr {
        Expr::Opname(name) => eval_opcall(name.as_str(), stack, dict),
        Expr::Value(v) => {
            stack.push(v.clone());
            Ok(Effect::Nothing)
        },
    }
}

} // verus!
