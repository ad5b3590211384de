//! How values, stacks and errors are shown to the user.
//!
//! A rendering is a sequence of pieces. Text pieces are final. A number piece
//! stands for the decimal form of a binary64 number, which the host writes.

use crate::ast::{Expr, ExprView, Val, ValView, exprs_view, lemma_exprs_view_push};
use crate::effect::{Piece, PieceView, pieces_view};
use crate::err::{OpErr, OpErrView};
use vstd::prelude::*;

verus! {

/// One piece of text.
pub open spec fn text(s: Seq<char>) -> Seq<PieceView> {
    seq![PieceView::Text(s)]
}

/// How a value is shown: a number in decimal, a text as its characters, a
/// block as the listing of its expressions.
pub open spec fn show_val(v: ValView) -> Seq<PieceView> {
    match v {
        ValView::Number(n) => seq![PieceView::Number(n)],
        ValView::Text(t) => text(t),
        ValView::Block(b) => list_exprs(b),
    }
}

/// The listing of a sequence of expressions: the items between square
/// brackets, with a comma and a space between one and the next.
pub open spec fn list_exprs(es: Seq<ExprView>) -> Seq<PieceView>
    decreases es, 1int,
{
    text("["@) + list_items(es) + text("]"@)
}

/// The items of a listing.
pub open spec fn list_items(es: Seq<ExprView>) -> Seq<PieceView>
    decreases es, 0int,
{
    if es.len() == 0 {
        Seq::empty()
    } else if es.len() == 1 {
        list_expr(es.last())
    } else {
        list_items(es.drop_last()) + text(", "@) + list_expr(es.last())
    }
}

/// An expression in a listing: the kind of the expression, and between round
/// brackets what it holds. A name stands between double quotes.
pub open spec fn list_expr(e: ExprView) -> Seq<PieceView>
    decreases e,
{
    match e {
        ExprView::Value(v) => text("Value("@) + list_val(v) + text(")"@),
        ExprView::Opname(n) => text("Opname(\""@) + text(n) + text("\")"@),
    }
}

/// A value in a listing: the tag of the value, and between round brackets
/// what it holds. A text stands between double quotes.
pub open spec fn list_val(v: ValView) -> Seq<PieceView>
    decreases v,
{
    match v {
        ValView::Number(n) => text("Number("@) + seq![PieceView::Number(n)] + text(")"@),
        ValView::Text(t) => text("Text(\""@) + text(t) + text("\")"@),
        ValView::Block(b) => text("Block("@) + list_exprs(b) + text(")"@),
    }
}

/// How a stack is shown: its values from the bottom to the top, with a comma
/// between one and the next.
pub open spec fn show_stack(s: Seq<ValView>) -> Seq<PieceView>
    decreases s.len(),
{
    if s.len() == 0 {
        Seq::empty()
    } else if s.len() == 1 {
        show_val(s.last())
    } else {
        show_stack(s.drop_last()) + text(","@) + show_val(s.last())
    }
}

/// Appends one piece of text.
fn put(out: &mut Vec<Piece>, s: &str)
    ensures
        pieces_view(final(out)@) == pieces_view(old(out)@) + text(s@),
{
    out.push(Piece::Text(s.to_owned()));
    assert(pieces_view(out@) =~= pieces_view(old(out)@) + text(s@));
}

/// Appends one number.
fn put_number(out: &mut Vec<Piece>, n: u64)
    ensures
        pieces_view(final(out)@) == pieces_view(old(out)@) + seq![PieceView::Number(n)],
{
    out.push(Piece::Number(n));
    assert(pieces_view(out@) =~= pieces_view(old(out)@) + seq![PieceView::Number(n)]);
}

/// Appends the listing of `es`.
fn write_exprs(es: &Vec<Expr>, out: &mut Vec<Piece>)
    ensures
        pieces_view(final(out)@) == pieces_view(old(out)@) + list_exprs(exprs_view(es@)),
    decreases es,
{
    put(out, "[");
    let mut i: usize = 0;
    while i < es.len()
        invariant
            i <= es.len(),
            pieces_view(out@) == pieces_view(old(out)@) + text("["@) + list_items(
                exprs_view(es@.subrange(0, i as int)),
            ),
        decreases es.len() - i,
    {
        let ghost before = exprs_view(es@.subrange(0, i as int));
        let ghost start = pieces_view(old(out)@) + text("["@);
        proof {
            lemma_exprs_view_push(es@.subrange(0, i as int), es@[i as int]);
            assert(es@.subrange(0, i as int).push(es@[i as int]) =~= es@.subrange(0, i + 1));
            crate::ast::lemma_exprs_view(es@.subrange(0, i as int));
            assert(before.push(es@[i as int]@).drop_last() =~= before);
        }
        if i > 0 {
            put(out, ", ");
        }
        write_expr(&es[i], out);
        proof {
            let after = before.push(es@[i as int]@);
            if i > 0 {
                assert(pieces_view(out@) =~= start + (list_items(before) + text(", "@) + list_expr(
                    es@[i as int]@,
                )));
            } else {
                assert(list_items(before) =~= Seq::<PieceView>::empty());
                assert(pieces_view(out@) =~= start + list_expr(es@[i as int]@));
            }
            assert(pieces_view(out@) == start + list_items(after));
        }
        i += 1;
    }
    proof {
        assert(es@.subrange(0, es@.len() as int) =~= es@);
    }
    put(out, "]");
    assert(pieces_view(out@) =~= pieces_view(old(out)@) + list_exprs(exprs_view(es@)));
}

/// Appends an expression as it stands in a listing.
fn write_expr(e: &Expr, out: &mut Vec<Piece>)
    ensures
        pieces_view(final(out)@) == pieces_view(old(out)@) + list_expr(e@),
    decreases e,
{
    match e {
        Expr::Value(v) => {
            put(out, "Value(");
            write_val(v, out);
            put(out, ")");
            assert(pieces_view(out@) =~= pieces_view(old(out)@) + list_expr(e@));
        },
        Expr::Opname(n) => {
            put(out, "Opname(\"");
            put(out, n.as_str());
            put(out, "\")");
            assert(pieces_view(out@) =~= pieces_view(old(out)@) + list_expr(e@));
        },
    }
}

/// Appends a value as it stands in a listing.
fn write_val(v: &Val, out: &mut Vec<Piece>)
    ensures
        pieces_view(final(out)@) == pieces_view(old(out)@) + list_val(v@),
    decreases v,
{
    match v {
        Val::Number(n) => {
            put(out, "Number(");
            put_number(out, *n);
            put(out, ")");
            assert(pieces_view(out@) =~= pieces_view(old(out)@) + list_val(v@));
        },
        Val::Text(t) => {
            put(out, "Text(\"");
            put(out, t.as_str());
            put(out, "\")");
            assert(pieces_view(out@) =~= pieces_view(old(out)@) + list_val(v@));
        },
        Val::Block(b) => {
            put(out, "Block(");
            write_exprs(b, out);
            put(out, ")");
            assert(pieces_view(out@) =~= pieces_view(old(out)@) + list_val(v@));
        },
    }
}

/// Appends a value as it is shown.
pub fn show_into(v: &Val, out: &mut Vec<Piece>)
    ensures
        pieces_view(final(out)@) == pieces_view(old(out)@) + show_val(v@),
{
    match v {
        Val::Number(n) => put_number(out, *n),
        Val::Text(t) => put(out, t.as_str()),
        Val::Block(b) => write_exprs(b, out),
    }
}

impl Val {
    /// The value as it is shown.
    pub fn render(&self) -> (pieces: Vec<Piece>)
        ensures
            pieces_view(pieces@) == show_val(self@),
    {
        let mut out: Vec<Piece> = Vec::new();
        show_into(self, &mut out);
        assert(pieces_view(out@) =~= show_val(self@));
        out
    }
}

/// The character of a digit.
pub open spec fn digit(d: nat) -> Seq<char> {
    if d == 0 {
        "0"@
    } else if d == 1 {
        "1"@
    } else if d == 2 {
        "2"@
    } else if d == 3 {
        "3"@
    } else if d == 4 {
        "4"@
    } else if d == 5 {
        "5"@
    } else if d == 6 {
        "6"@
    } else if d == 7 {
        "7"@
    } else if d == 8 {
        "8"@
    } else {
        "9"@
    }
}

/// A natural number in decimal, without leading zeros.
pub open spec fn decimal(n: nat) -> Seq<char>
    decreases n,
{
    if n < 10 {
        digit(n)
    } else {
        decimal(n / 10) + digit(n % 10)
    }
}

/// The character of a digit.
fn digit_text(d: u32) -> (s: &'static str)
    requires
        d < 10,
    ensures
        s@ == digit(d as nat),
{
    match d {
        0 => "0",
        1 => "1",
        2 => "2",
        3 => "3",
        4 => "4",
        5 => "5",
        6 => "6",
        7 => "7",
        8 => "8",
        _ => "9",
    }
}

/// A count in decimal.
pub fn decimal_text(n: u32) -> (s: String)
    ensures
        s@ == decimal(n as nat),
    decreases n,
{
    if n < 10 {
        digit_text(n).to_owned()
    } else {
        let mut s = decimal_text(n / 10);
        s.append(digit_text(n % 10));
        s
    }
}

/// How an error is shown.
pub open spec fn show_err(e: OpErrView) -> Seq<PieceView> {
    match e {
        OpErrView::TypeMismatch { expected, found } => text("Expected a "@) + text(
            expected.spec_name(),
        ) + text(", found a "@) + text(found.spec_name()),
        OpErrView::MissingItems { expected, found } => text("Expected at least "@) + text(
            decimal(expected as nat),
        ) + text(" items on the stack, found "@) + text(decimal(found as nat)),
        OpErrView::UnknownOp(name) => text("Operation "@) + text(name) + text(" not bound"@),
        OpErrView::InvalidVal { val, desc } => text("Invalid value "@) + show_val(val) + text(
            ", "@,
        ) + text(desc),
    }
}

impl OpErr {
    /// The error as it is shown.
    pub fn render(&self) -> (pieces: Vec<Piece>)
        ensures
            pieces_view(pieces@) == show_err(self@),
    {
        let mut out: Vec<Piece> = Vec::new();
        match self {
            OpErr::TypeMismatch { expected, found } => {
                put(&mut out, "Expected a ");
                put(&mut out, expected.name());
                put(&mut out, ", found a ");
                put(&mut out, found.name());
            },
            OpErr::MissingItems { expected, found } => {
                put(&mut out, "Expected at least ");
                put(&mut out, decimal_text(*expected).as_str());
                put(&mut out, " items on the stack, found ");
                put(&mut out, decimal_text(*found).as_str());
            },
            OpErr::UnknownOp(name) => {
                put(&mut out, "Operation ");
                put(&mut out, name.as_str());
                put(&mut out, " not bound");
            },
            OpErr::InvalidVal { val, desc } => {
                put(&mut out, "Invalid value ");
                show_into(val, &mut out);
                put(&mut out, ", ");
                put(&mut out, desc.as_str());
            },
        }
        assert(pieces_view(out@) =~= show_err(self@));
        out
    }
}

} // verus!
