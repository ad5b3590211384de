//! The stack: the values that words take their operands from and leave their
//! results on. The last value pushed is the top.

use crate::ast::{Expr, ExprView, Val, ValView};
use crate::effect::{Piece, PieceView, pieces_view};
use crate::err::{OpErr, OpErrView, OpResult, Type, block_outcome, outcome, viewed};
use crate::render::{show_into, show_stack, show_val, text};
use vstd::prelude::*;

verus! {

/// The models of a sequence of values, in the same order.
pub open spec fn vals_view(vs: Seq<Val>) -> Seq<ValView> {
    vs.map_values(|v: Val| v@)
}

/// What `pop` does to a stack: the stack afterwards, and the value or the error.
pub open spec fn pop_spec(s: Seq<ValView>) -> (Seq<ValView>, Result<ValView, OpErrView>) {
    if s.len() == 0 {
        (s, Err(OpErrView::MissingItems { expected: 1, found: 0 }))
    } else {
        (s.drop_last(), Ok(s.last()))
    }
}

/// What `pop_num` does to a stack. The top value leaves the stack whether it is a number or not.
pub open spec fn pop_num_spec(s: Seq<ValView>) -> (Seq<ValView>, Result<u64, OpErrView>) {
    if s.len() == 0 {
        (s, Err(OpErrView::MissingItems { expected: 1, found: 0 }))
    } else {
        (
            s.drop_last(),
            match s.last() {
                ValView::Number(n) => Ok(n),
                other => Err(
                    OpErrView::TypeMismatch { expected: Type::Number, found: Type::of(other) },
                ),
            },
        )
    }
}

/// What `pop_text` does to a stack. The top value leaves the stack whether it is a text or not.
pub open spec fn pop_text_spec(s: Seq<ValView>) -> (Seq<ValView>, Result<Seq<char>, OpErrView>) {
    if s.len() == 0 {
        (s, Err(OpErrView::MissingItems { expected: 1, found: 0 }))
    } else {
        (
            s.drop_last(),
            match s.last() {
                ValView::Text(t) => Ok(t),
                other => Err(
                    OpErrView::TypeMismatch { expected: Type::Text, found: Type::of(other) },
                ),
            },
        )
    }
}

/// What `pop_block` does to a stack. The top value leaves the stack whether it is a block or not.
pub open spec fn pop_block_spec(s: Seq<ValView>) -> (
    Seq<ValView>,
    Result<Seq<ExprView>, OpErrView>,
) {
    if s.len() == 0 {
        (s, Err(OpErrView::MissingItems { expected: 1, found: 0 }))
    } else {
        (
            s.drop_last(),
            match s.last() {
                ValView::Block(b) => Ok(b),
                other => Err(
                    OpErrView::TypeMismatch { expected: Type::Block, found: Type::of(other) },
                ),
            },
        )
    }
}

/// A stack of values.
#[derive(Debug)]
pub struct Stack(Vec<Val>);

impl View for Stack {
    type V = Seq<ValView>;

    /// The values from the bottom to the top.
    closed spec fn view(&self) -> Seq<ValView> {
        vals_view(self.0@)
    }
}

impl Stack {
    /// An empty stack.
    pub fn new() -> (s: Self)
        ensures
            s@ == Seq::<ValView>::empty(),
    {
        let s = Stack(Vec::new());
        assert(s@ =~= Seq::<ValView>::empty());
        s
    }

    /// How many values the stack holds.
    pub fn len(&self) -> (n: usize)
        ensures
            n == self@.len(),
    {
        self.0.len()
    }

    /// Puts `item` on top.
    pub fn push(&mut self, item: Val)
        ensures
            final(self)@ == old(self)@.push(item@),
    {
        self.0.push(item);
        assert(self@ =~= old(self)@.push(item@));
    }

    /// The stack as it is shown.
    pub fn render(&self) -> (pieces: Vec<Piece>)
        ensures
            pieces_view(pieces@) == show_stack(self@),
    {
        let mut out: Vec<Piece> = Vec::new();
        let mut i: usize = 0;
        assert(pieces_view(out@) =~= show_stack(vals_view(self.0@.subrange(0, 0))));
        while i < self.0.len()
            invariant
                i <= self.0.len(),
                pieces_view(out@) == show_stack(vals_view(self.0@.subrange(0, i as int))),
            decreases self.0.len() - i,
        {
            let ghost before = vals_view(self.0@.subrange(0, i as int));
            let ghost after = vals_view(self.0@.subrange(0, i + 1));
            proof {
                assert(after.drop_last() =~= before);
                assert(after.last() == self.0@[i as int]@);
            }
            if i > 0 {
                out.push(Piece::Text(",".to_owned()));
                assert(pieces_view(out@) =~= show_stack(before) + text(","@));
            }
            show_into(&self.0[i], &mut out);
            proof {
                if i == 0 {
                    assert(show_stack(before) =~= Seq::<PieceView>::empty());
                    assert(pieces_view(out@) =~= show_val(after.last()));
                }
            }
            i += 1;
        }
        proof {
            assert(self.0@.subrange(0, self.0@.len() as int) =~= self.0@);
        }
        out
    }

    /// Takes the top value off.
    pub fn pop(&mut self) -> (r: OpResult<Val>)
        ensures
            (final(self)@, viewed(r)) == pop_spec(old(self)@),
    {
        match self.0.pop() {
            Some(v) => {
                assert(self@ =~= old(self)@.drop_last());
                Ok(v)
            },
            None => Err(OpErr::MissingItems { expected: 1, found: 0 }),
        }
    }

    /// Takes the top value off and hands out the number that it is.
    pub fn pop_num(&mut self) -> (r: OpResult<u64>)
        ensures
            (final(self)@, outcome(r)) == pop_num_spec(old(self)@),
    {
        let temp = self.pop()?;
        match temp {
            Val::Number(n) => Ok(n),
            other => Err(OpErr::TypeMismatch { expected: Type::Number, found: Type::from(&other) }),
        }
    }

    /// Takes the top value off and hands out the text that it is.
    pub fn pop_text(&mut self) -> (r: OpResult<String>)
        ensures
            (final(self)@, viewed(r)) == pop_text_spec(old(self)@),
    {
        let temp = self.pop()?;
        match temp {
            Val::Text(t) => Ok(t),
            other => Err(OpErr::TypeMismatch { expected: Type::Text, found: Type::from(&other) }),
        }
    }

    /// Takes the top value off and hands out the expressions of the block that it is.
    pub fn pop_block(&mut self) -> (r: OpResult<Vec<Expr>>)
        ensures
            (final(self)@, block_outcome(r)) == pop_block_spec(old(self)@),
    {
        let temp = self.pop()?;
        match temp {
            Val::Block(b) => Ok(b),
            other => Err(OpErr::TypeMismatch { expected: Type::Block, found: Type::from(&other) }),
        }
    }
}

} // verus!
