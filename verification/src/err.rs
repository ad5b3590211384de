//! The ways in which a word can fail.

use crate::ast::{Expr, ExprView, Val, ValView, exprs_view};
use vstd::prelude::*;
use vstd::std_specs::convert::FromSpecImpl;

verus! {

/// The tag of a value.
#[derive(Debug, Clone, Copy, PartialEq, Eq, Structural)]
pub enum Type {
    Text,
    Number,
    Block,
}

impl Type {
    /// The tag of a value, read from its model.
    pub open spec fn of(v: ValView) -> Type {
        match v {
            ValView::Number(_) => Type::Number,
            ValView::Text(_) => Type::Text,
            ValView::Block(_) => Type::Block,
        }
    }

    /// The tag's name as it is shown to the user.
    pub open spec fn spec_name(self) -> Seq<char> {
        match self {
            Type::Text => "Text"@,
            Type::Number => "Number"@,
            Type::Block => "Block"@,
        }
    }

    /// The tag's name as it is shown to the user.
    pub fn name(&self) -> (s: &'static str)
        ensures
            s@ == self.spec_name(),
    {
        match self {
            Type::Text => "Text",
            Type::Number => "Number",
            Type::Block => "Block",
        }
    }
}

impl From<&Val> for Type {
    fn from(value: &Val) -> (t: Self) {
        match value {
            Val::Number(_) => Type::Number,
            Val::Text(_) => Type::Text,
            Val::Block(_) => Type::Block,
        }
    }
}

impl FromSpecImpl<&Val> for Type {
    open spec fn obeys_from_spec() -> bool {
        true
    }

    open spec fn from_spec(v: &Val) -> Self {
        Type::of(v@)
    }
}

/// Why a word failed.
#[allow(inconsistent_fields)]
#[derive(Debug, PartialEq)]
pub enum OpErr {
    /// A value of one tag was needed and a value of another was on top of the stack.
    TypeMismatch { expected: Type, found: Type },
    /// The stack held fewer values than the word needs: `found` of them were there.
    MissingItems { expected: u32, found: u32 },
    /// No word of this name is bound.
    UnknownOp(String),
    /// A value of the right tag that the word cannot accept, and why.
    InvalidVal { val: Val, desc: String },
}

/// The mathematical model of an [`OpErr`].
#[allow(inconsistent_fields)]
pub enum OpErrView {
    TypeMismatch { expected: Type, found: Type },
    MissingItems { expected: u32, found: u32 },
    UnknownOp(Seq<char>),
    InvalidVal { val: ValView, desc: Seq<char> },
}

impl View for OpErr {
    type V = OpErrView;

    open spec fn view(&self) -> OpErrView {
        match self {
            OpErr::TypeMismatch { expected, found } => OpErrView::TypeMismatch {
                expected: *expected,
                found: *found,
            },
            OpErr::MissingItems { expected, found } => OpErrView::MissingItems {
                expected: *expected,
                found: *found,
            },
            OpErr::UnknownOp(name) => OpErrView::UnknownOp(name@),
            OpErr::InvalidVal { val, desc } => OpErrView::InvalidVal { val: val@, desc: desc@ },
        }
    }
}

/// What a word returns: its result, or why it failed.
pub type OpResult<T> = Result<T, OpErr>;

/// A result whose value is plain data, with the error taken by its model.
pub open spec fn outcome<T>(r: OpResult<T>) -> Result<T, OpErrView> {
    match r {
        Ok(t) => Ok(t),
        Err(e) => Err(e@),
    }
}

/// A result with the value and the error each taken by its model.
pub open spec fn viewed<T: View>(r: OpResult<T>) -> Result<T::V, OpErrView> {
    match r {
        Ok(t) => Ok(t@),
        Err(e) => Err(e@),
    }
}

/// A result whose value is a sequence of expressions, with the expressions
/// and the error each taken by its model.
pub open spec fn block_outcome(r: OpResult<Vec<Expr>>) -> Result<Seq<ExprView>, OpErrView> {
    match r {
        Ok(b) => Ok(exprs_view(b@)),
        Err(e) => Err(e@),
    }
}

} // verus!
