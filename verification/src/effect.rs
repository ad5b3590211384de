//! What evaluating one expression leaves to be done.
//!
//! The library pushes and pops, looks words up and binds them. It does not
//! compute with floating-point numbers, write to a text sink, or decide how
//! long a program may run: those belong to the host, which is told what to do
//! by an [`Effect`].

use crate::ast::{Expr, ExprView, exprs_view};
use crate::builtins::ArithOp;
use crate::err::{OpErrView, OpResult};
use vstd::prelude::*;

verus! {

/// A part of a rendered line: characters as they are, or a number that the
/// host writes in decimal.
#[derive(Debug, PartialEq)]
pub enum Piece {
    Text(String),
    Number(u64),
}

/// The mathematical model of a [`Piece`].
pub enum PieceView {
    Text(Seq<char>),
    Number(u64),
}

impl View for Piece {
    type V = PieceView;

    open spec fn view(&self) -> PieceView {
        match self {
            Piece::Text(t) => PieceView::Text(t@),
            Piece::Number(n) => PieceView::Number(*n),
        }
    }
}

/// The models of a sequence of pieces, in the same order.
pub open spec fn pieces_view(ps: Seq<Piece>) -> Seq<PieceView> {
    ps.map_values(|p: Piece| p@)
}

/// What is left to be done once an expression has been evaluated.
#[derive(Debug, PartialEq)]
pub enum Effect {
    /// Nothing.
    Nothing,
    /// These expressions are to be evaluated next, in place: before whatever
    /// else is waiting, on the same stack and with the same dictionary.
    Run(Vec<Expr>),
    /// The host is to apply `op` to `lhs` and `rhs`, in this order, and to
    /// push the number that comes out.
    Compute { op: ArithOp, lhs: u64, rhs: u64 },
    /// The host is to write these pieces, as one line, to the text sink.
    Emit(Vec<Piece>),
}

/// The mathematical model of an [`Effect`].
pub enum EffectView {
    Nothing,
    Run(Seq<ExprView>),
    Compute { op: ArithOp, lhs: u64, rhs: u64 },
    Emit(Seq<PieceView>),
}

impl View for Effect {
    type V = EffectView;

    open spec fn view(&self) -> EffectView {
        match self {
            Effect::Nothing => EffectView::Nothing,
            Effect::Run(block) => EffectView::Run(exprs_view(block@)),
            Effect::Compute { op, lhs, rhs } => EffectView::Compute {
                op: *op,
                lhs: *lhs,
                rhs: *rhs,
            },
            Effect::Emit(pieces) => EffectView::Emit(pieces_view(pieces@)),
        }
    }
}

/// A result whose value is a rendering, with the pieces and the error each
/// taken by its model.
pub open spec fn pieces_outcome(r: OpResult<Vec<Piece>>) -> Result<Seq<PieceView>, OpErrView> {
    match r {
        Ok(pieces) => Ok(pieces_view(pieces@)),
        Err(e) => Err(e@),
    }
}

} // verus!
