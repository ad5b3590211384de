//! Values and expressions: the data that programs are made of.

use crate::number::CompOp;
use vstd::prelude::*;
use vstd::std_specs::cmp::PartialEqSpecImpl;

verus! {

/// One node of a program.
#[derive(Debug)]
pub enum Expr {
    /// A literal: evaluating it pushes the value.
    Value(Val),
    /// The name of a word: evaluating it looks the word up and runs it.
    Opname(String),
}

/// A value on the stack.
#[derive(Debug)]
pub enum Val {
    /// A binary64 number, held as its IEEE 754 bit pattern.
    Number(u64),
    /// A piece of text.
    Text(String),
    /// A quotation: expressions that are not evaluated yet.
    Block(Vec<Expr>),
}

/// A program: expressions that are evaluated from first to last.
pub type Ast = Vec<Expr>;

/// The mathematical model of an [`Expr`].
pub enum ExprView {
    Value(ValView),
    Opname(Seq<char>),
}

/// The mathematical model of a [`Val`].
pub enum ValView {
    Number(u64),
    Text(Seq<char>),
    Block(Seq<ExprView>),
}

/// The model of an expression.
pub open spec fn expr_view(e: Expr) -> ExprView
    decreases e,
{
    match e {
        Expr::Value(v) => ExprView::Value(val_view(v)),
        Expr::Opname(n) => ExprView::Opname(n@),
    }
}

/// The model of a value: a number as its bit pattern, a text as its
/// characters, a block as the models of its expressions.
pub open spec fn val_view(v: Val) -> ValView
    decreases v,
{
    match v {
        Val::Number(n) => ValView::Number(n),
        Val::Text(t) => ValView::Text(t@),
        Val::Block(b) => ValView::Block(exprs_view(b@)),
    }
}

/// The model of a sequence of expressions: the model of each, in the same order.
pub open spec fn exprs_view(es: Seq<Expr>) -> Seq<ExprView>
    decreases es,
{
    if es.len() == 0 {
        Seq::empty()
    } else {
        exprs_view(es.drop_last()).push(expr_view(es.last()))
    }
}

impl View for Expr {
    type V = ExprView;

    open spec fn view(&self) -> ExprView {
        expr_view(*self)
    }
}

impl View for Val {
    type V = ValView;

    open spec fn view(&self) -> ValView {
        val_view(*self)
    }
}

/// `exprs_view` keeps the length and maps each position to its own model.
pub proof fn lemma_exprs_view(es: Seq<Expr>)
    ensures
        exprs_view(es).len() == es.len(),
        forall|i: int| 0 <= i < es.len() ==> #[trigger] exprs_view(es)[i] == es[i]@,
    decreases es.len(),
{
    if es.len() > 0 {
        lemma_exprs_view(es.drop_last());
    }
}

/// Pushing an expression on a sequence pushes its model on the sequence's model.
pub proof fn lemma_exprs_view_push(es: Seq<Expr>, e: Expr)
    ensures
        exprs_view(es.push(e)) == exprs_view(es).push(e@),
{
    assert(es.push(e).drop_last() =~= es);
}

/// Copies a sequence of expressions, each one in full.
pub fn clone_exprs(es: &Vec<Expr>) -> (copy: Vec<Expr>)
    ensures
        exprs_view(copy@) == exprs_view(es@),
    decreases es,
{
    let mut copy: Vec<Expr> = Vec::new();
    let mut i: usize = 0;
    while i < es.len()
        invariant
            i <= es.len(),
            copy@.len() == i,
            exprs_view(copy@) == exprs_view(es@.subrange(0, i as int)),
        decreases es.len() - i,
    {
        let e = es[i].clone();
        proof {
            lemma_exprs_view_push(copy@, e);
            lemma_exprs_view_push(es@.subrange(0, i as int), es@[i as int]);
            assert(es@.subrange(0, i as int).push(es@[i as int]) =~= es@.subrange(0, i + 1));
        }
        copy.push(e);
        i += 1;
    }
    proof {
        assert(es@.subrange(0, es@.len() as int) =~= es@);
    }
    copy
}

impl Clone for Expr {
    /// A copy that shares nothing with the expression it was made from.
    fn clone(&self) -> (copy: Self)
        ensures
            copy@ == self@,
        decreases self,
    {
        match self {
            Expr::Value(v) => Expr::Value(v.clone()),
            Expr::Opname(n) => Expr::Opname(n.clone()),
        }
    }
}

impl Clone for Val {
    /// A copy that shares nothing with the value it was made from: a block's
    /// expressions are copied too.
    fn clone(&self) -> (copy: Self)
        ensures
            copy@ == self@,
        decreases self,
    {
        match self {
            Val::Number(n) => Val::Number(*n),
            Val::Text(t) => Val::Text(t.clone()),
            Val::Block(b) => Val::Block(clone_exprs(b)),
        }
    }
}

/// Are two values equal? Numbers are equal as numbers are: the two zeros
/// are equal, and a NaN is equal to nothing, not even to itself. Texts are
/// equal where they hold the same characters, and blocks where they hold
/// equal expressions in the same order.
pub open spec fn val_equal(a: ValView, b: ValView) -> bool
    decreases a,
{
    match (a, b) {
        (ValView::Number(x), ValView::Number(y)) => CompOp::Eq.holds(x, y),
        (ValView::Text(x), ValView::Text(y)) => x == y,
        (ValView::Block(x), ValView::Block(y)) => exprs_equal(x, y),
        _ => false,
    }
}

/// Are two expressions equal? Literals are equal where their values are,
/// names where they are the same name.
pub open spec fn expr_equal(a: ExprView, b: ExprView) -> bool
    decreases a,
{
    match (a, b) {
        (ExprView::Value(x), ExprView::Value(y)) => val_equal(x, y),
        (ExprView::Opname(x), ExprView::Opname(y)) => x == y,
        _ => false,
    }
}

/// Are two sequences of expressions equal, one by one?
pub open spec fn exprs_equal(a: Seq<ExprView>, b: Seq<ExprView>) -> bool
    decreases a,
{
    a.len() == b.len() && forall|i: int| 0 <= i < a.len() ==> expr_equal(#[trigger] a[i], b[i])
}

/// Are two sequences of expressions equal, one by one?
pub fn same_exprs(a: &Vec<Expr>, b: &Vec<Expr>) -> (r: bool)
    ensures
        r == exprs_equal(exprs_view(a@), exprs_view(b@)),
    decreases a,
{
    proof {
        lemma_exprs_view(a@);
        lemma_exprs_view(b@);
    }
    if a.len() != b.len() {
        return false;
    }
    let mut i: usize = 0;
    while i < a.len()
        invariant
            i <= a.len(),
            a.len() == b.len(),
            exprs_view(a@).len() == a.len(),
            exprs_view(b@).len() == b.len(),
            forall|k: int| 0 <= k < a.len() ==> #[trigger] exprs_view(a@)[k] == a@[k]@,
            forall|k: int| 0 <= k < b.len() ==> #[trigger] exprs_view(b@)[k] == b@[k]@,
            forall|k: int| 0 <= k < i ==> expr_equal(#[trigger] exprs_view(a@)[k], exprs_view(b@)[k]),
        decreases a.len() - i,
    {
        if !a[i].same(&b[i]) {
            assert(!expr_equal(exprs_view(a@)[i as int], exprs_view(b@)[i as int]));
            return false;
        }
        i += 1;
    }
    true
}

impl Expr {
    /// Is this expression equal to `other`?
    pub fn same(&self, other: &Expr) -> (r: bool)
        ensures
            r == expr_equal(self@, other@),
        decreases self,
    {
        match self {
            Expr::Value(a) => match other {
                Expr::Value(b) => a.same(b),
                _ => false,
            },
            Expr::Opname(a) => match other {
                Expr::Opname(b) => *a == *b,
                _ => false,
            },
        }
    }
}

impl Val {
    /// Is this value equal to `other`?
    pub fn same(&self, other: &Val) -> (r: bool)
        ensures
            r == val_equal(self@, other@),
        decreases self,
    {
        match self {
            Val::Number(a) => match other {
                Val::Number(b) => CompOp::Eq.test(*a, *b),
                _ => false,
            },
            Val::Text(a) => match other {
                Val::Text(b) => *a == *b,
                _ => false,
            },
            Val::Block(a) => match other {
                Val::Block(b) => same_exprs(a, b),
                _ => false,
            },
        }
    }
}

impl PartialEq for Expr {
    fn eq(&self, other: &Expr) -> (r: bool) {
        self.same(other)
    }
}

impl PartialEqSpecImpl for Expr {
    open spec fn obeys_eq_spec() -> bool {
        true
    }

    open spec fn eq_spec(&self, other: &Expr) -> bool {
        expr_equal(self@, other@)
    }
}

impl PartialEq for Val {
    fn eq(&self, other: &Val) -> (r: bool) {
        self.same(other)
    }
}

impl PartialEqSpecImpl for Val {
    open spec fn obeys_eq_spec() -> bool {
        true
    }

    open spec fn eq_spec(&self, other: &Val) -> bool {
        val_equal(self@, other@)
    }
}

} // verus!
