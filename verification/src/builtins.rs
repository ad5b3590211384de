//! The native words.

use crate::ast::{Expr, ExprView, Val, ValView};
use crate::dict::{Dict, Op, OpView};
use crate::effect::{Effect, EffectView, Piece, PieceView, pieces_outcome};
use crate::err::{OpErr, OpErrView, OpResult, block_outcome, outcome, viewed};
use crate::number::{CompOp, from_bool, is_true, truth, truthy};
use crate::render::{show_stack, show_val};
use crate::stack::{Stack, pop_block_spec, pop_num_spec, pop_text_spec};
use vstd::prelude::*;

verus! {

/// One of the four arithmetic operations on two numbers.
#[derive(Debug, Clone, Copy, PartialEq, Eq, Structural)]
pub enum ArithOp {
    Add,
    Sub,
    Mul,
    Div,
}

/// One of the two logical connectives of two truth values.
#[derive(Debug, Clone, Copy, PartialEq, Eq, Structural)]
pub enum LogOp {
    And,
    Or,
}

impl LogOp {
    /// The connective's truth table.
    pub open spec fn holds(self, a: bool, b: bool) -> bool {
        match self {
            LogOp::And => a && b,
            LogOp::Or => a || b,
        }
    }

    /// Applies the connective.
    pub fn test(self, a: bool, b: bool) -> (r: bool)
        ensures
            r == self.holds(a, b),
    {
        match self {
            LogOp::And => a && b,
            LogOp::Or => a || b,
        }
    }
}

/// A native word.
#[derive(Debug, Clone, Copy, PartialEq, Eq, Structural)]
pub enum Builtin {
    /// `add`, `sub`, `mul`, `div`
    Arith(ArithOp),
    /// `eq`, `lt`, `gt`, `le`, `ge`
    Comp(CompOp),
    /// `and`, `or`
    Logic(LogOp),
    /// `not`
    Not,
    /// `if`
    If,
    /// `pop`
    Pop,
    /// `dup`
    Dup,
    /// `swp`
    Swp,
    /// `def`
    Def,
    /// `evl`
    Evl,
    /// `prt`
    Prt,
    /// `stk`
    Stk,
}

impl Builtin {
    /// The name under which the word is bound in a fresh dictionary.
    pub open spec fn spec_name(self) -> Seq<char> {
        match self {
            Builtin::Arith(ArithOp::Add) => "add"@,
            Builtin::Arith(ArithOp::Sub) => "sub"@,
            Builtin::Arith(ArithOp::Mul) => "mul"@,
            Builtin::Arith(ArithOp::Div) => "div"@,
            Builtin::Comp(CompOp::Eq) => "eq"@,
            Builtin::Comp(CompOp::Lt) => "lt"@,
            Builtin::Comp(CompOp::Gt) => "gt"@,
            Builtin::Comp(CompOp::Le) => "le"@,
            Builtin::Comp(CompOp::Ge) => "ge"@,
            Builtin::Logic(LogOp::And) => "and"@,
            Builtin::Logic(LogOp::Or) => "or"@,
            Builtin::Not => "not"@,
            Builtin::If => "if"@,
            Builtin::Pop => "pop"@,
            Builtin::Dup => "dup"@,
            Builtin::Swp => "swp"@,
            Builtin::Def => "def"@,
            Builtin::Evl => "evl"@,
            Builtin::Prt => "prt"@,
            Builtin::Stk => "stk"@,
        }
    }

    /// The name under which the word is bound in a fresh dictionary.
    pub fn name(self) -> (s: &'static str)
        ensures
            s@ == self.spec_name(),
    {
        match self {
            Builtin::Arith(ArithOp::Add) => "add",
            Builtin::Arith(ArithOp::Sub) => "sub",
            Builtin::Arith(ArithOp::Mul) => "mul",
            Builtin::Arith(ArithOp::Div) => "div",
            Builtin::Comp(CompOp::Eq) => "eq",
            Builtin::Comp(CompOp::Lt) => "lt",
            Builtin::Comp(CompOp::Gt) => "gt",
            Builtin::Comp(CompOp::Le) => "le",
            Builtin::Comp(CompOp::Ge) => "ge",
            Builtin::Logic(LogOp::And) => "and",
            Builtin::Logic(LogOp::Or) => "or",
            Builtin::Not => "not",
            Builtin::If => "if",
            Builtin::Pop => "pop",
            Builtin::Dup => "dup",
            Builtin::Swp => "swp",
            Builtin::Def => "def",
            Builtin::Evl => "evl",
            Builtin::Prt => "prt",
            Builtin::Stk => "stk",
        }
    }

    /// The native words, each once.
    pub open spec fn all() -> Seq<Builtin> {
        seq![
            Builtin::Arith(ArithOp::Add),
            Builtin::Arith(ArithOp::Sub),
            Builtin::Arith(ArithOp::Mul),
            Builtin::Arith(ArithOp::Div),
            Builtin::Comp(CompOp::Eq),
            Builtin::Comp(CompOp::Lt),
            Builtin::Comp(CompOp::Gt),
            Builtin::Comp(CompOp::Le),
            Builtin::Comp(CompOp::Ge),
            Builtin::Logic(LogOp::And),
            Builtin::Logic(LogOp::Or),
            Builtin::Not,
            Builtin::If,
            Builtin::Pop,
            Builtin::Dup,
            Builtin::Swp,
            Builtin::Def,
            Builtin::Evl,
            Builtin::Prt,
            Builtin::Stk,
        ]
    }

    /// The native words, each once.
    pub fn table() -> (t: Vec<Builtin>)
        ensures
            t@ == Self::all(),
    {
        let t = vec![
            Builtin::Arith(ArithOp::Add),
            Builtin::Arith(ArithOp::Sub),
            Builtin::Arith(ArithOp::Mul),
            Builtin::Arith(ArithOp::Div),
            Builtin::Comp(CompOp::Eq),
            Builtin::Comp(CompOp::Lt),
            Builtin::Comp(CompOp::Gt),
            Builtin::Comp(CompOp::Le),
            Builtin::Comp(CompOp::Ge),
            Builtin::Logic(LogOp::And),
            Builtin::Logic(LogOp::Or),
            Builtin::Not,
            Builtin::If,
            Builtin::Pop,
            Builtin::Dup,
            Builtin::Swp,
            Builtin::Def,
            Builtin::Evl,
            Builtin::Prt,
            Builtin::Stk,
        ];
        assert(t@ =~= Self::all());
        t
    }
}

/// A dictionary after each of `words` has been bound under its name, from
/// the first to the last.
pub open spec fn install(d: Map<Seq<char>, OpView>, words: Seq<Builtin>) -> Map<
    Seq<char>,
    OpView,
>
    decreases words.len(),
{
    if words.len() == 0 {
        d
    } else {
        install(d, words.drop_last()).insert(
            words.last().spec_name(),
            OpView::Native(words.last()),
        )
    }
}

/// The error of a word that needs `expected` operands and found only `found`
/// of them on the stack: a stack that ran out is reported with the number of
/// operands that the word needs and the number that were there, any other
/// error as it is. This is the rule for every word.
pub open spec fn short_of(e: OpErrView, expected: u32, found: u32) -> OpErrView {
    match e {
        OpErrView::MissingItems { .. } => OpErrView::MissingItems { expected, found },
        other => other,
    }
}

/// What taking the two operands of a binary word does to a stack: the stack
/// afterwards and, where both are numbers, the one that was on top and the
/// one that was under it. An operand that was taken off stays off, whatever
/// follows.
pub open spec fn operands_spec(s: Seq<ValView>) -> (Seq<ValView>, Result<(u64, u64), OpErrView>) {
    let (s1, top) = pop_num_spec(s);
    let (s2, under) = pop_num_spec(s1);
    match (top, under) {
        (Err(e), _) => (s1, Err(short_of(e, 2, 0))),
        (Ok(_), Err(e)) => (s2, Err(short_of(e, 2, 1))),
        (Ok(a), Ok(b)) => (s2, Ok((a, b))),
    }
}

/// What an arithmetic word does: it takes its two operands and leaves the
/// computing to the host. The operand that was pushed first is the left one,
/// so that `a b sub` asks for `a - b`.
pub open spec fn arith_spec(s: Seq<ValView>, op: ArithOp) -> (
    Seq<ValView>,
    Result<EffectView, OpErrView>,
) {
    let (s1, r) = operands_spec(s);
    match r {
        Ok((top, under)) => (s1, Ok(EffectView::Compute { op, lhs: under, rhs: top })),
        Err(e) => (s1, Err(e)),
    }
}

/// What a comparison word does: it takes its two operands and pushes `1.0`
/// where the comparison holds and `0.0` where it does not. The operand that
/// was on top is the left one: `a b lt` asks whether `b < a`.
pub open spec fn comp_spec(s: Seq<ValView>, op: CompOp) -> (Seq<ValView>, Result<(), OpErrView>) {
    let (s1, r) = operands_spec(s);
    match r {
        Ok((top, under)) => (s1.push(ValView::Number(truth(op.holds(top, under)))), Ok(())),
        Err(e) => (s1, Err(e)),
    }
}

/// What a logical word does: it takes its two operands, reads each as a
/// truth value, and pushes `1.0` or `0.0`.
pub open spec fn log_spec(s: Seq<ValView>, op: LogOp) -> (Seq<ValView>, Result<(), OpErrView>) {
    let (s1, r) = operands_spec(s);
    match r {
        Ok((top, under)) => (
            s1.push(ValView::Number(truth(op.holds(is_true(top), is_true(under))))),
            Ok(()),
        ),
        Err(e) => (s1, Err(e)),
    }
}

/// What `not` does: it takes one number, reads it as a truth value, and
/// pushes the opposite. On an empty stack it reports that one value was
/// expected and none was there.
pub open spec fn not_spec(s: Seq<ValView>) -> (Seq<ValView>, Result<(), OpErrView>) {
    let (s1, r) = pop_num_spec(s);
    match r {
        Ok(n) => (s1.push(ValView::Number(truth(!is_true(n)))), Ok(())),
        Err(e) => (s1, Err(short_of(e, 1, 0))),
    }
}

/// What `if` does: it takes the block to run otherwise, then the block to run
/// if so, then the number that decides, and hands out the block that is to be
/// run in place. A stack that runs out is reported with the three values that
/// the word needs and the number of them that were there, and what was taken
/// off stays off.
pub open spec fn if_spec(s: Seq<ValView>) -> (Seq<ValView>, Result<Seq<ExprView>, OpErrView>) {
    let (s1, otherwise) = pop_block_spec(s);
    let (s2, if_so) = pop_block_spec(s1);
    let (s3, cond) = pop_num_spec(s2);
    match (otherwise, if_so, cond) {
        (Err(e), _, _) => (s1, Err(short_of(e, 3, 0))),
        (Ok(_), Err(e), _) => (s2, Err(short_of(e, 3, 1))),
        (Ok(_), Ok(_), Err(e)) => (s3, Err(short_of(e, 3, 2))),
        (Ok(no), Ok(yes), Ok(c)) => (
            s3,
            Ok(
                if is_true(c) {
                    yes
                } else {
                    no
                },
            ),
        ),
    }
}

/// What `dup` does: it pushes a second copy of the top value.
pub open spec fn dup_spec(s: Seq<ValView>) -> (Seq<ValView>, Result<(), OpErrView>) {
    if s.len() == 0 {
        (s, Err(OpErrView::MissingItems { expected: 1, found: 0 }))
    } else {
        (s.push(s.last()), Ok(()))
    }
}

/// What `swp` does: it exchanges the two values on top. With one value on the
/// stack, that value is taken off before the word fails.
pub open spec fn swp_spec(s: Seq<ValView>) -> (Seq<ValView>, Result<(), OpErrView>) {
    if s.len() == 0 {
        (s, Err(OpErrView::MissingItems { expected: 2, found: 0 }))
    } else if s.len() == 1 {
        (s.drop_last(), Err(OpErrView::MissingItems { expected: 2, found: 1 }))
    } else {
        (s.drop_last().drop_last().push(s.last()).push(s[s.len() - 2]), Ok(()))
    }
}

/// What `pop` does as a word: it takes the top value off and drops it.
pub open spec fn discard_spec(s: Seq<ValView>) -> (Seq<ValView>, Result<(), OpErrView>) {
    if s.len() == 0 {
        (s, Err(OpErrView::MissingItems { expected: 1, found: 0 }))
    } else {
        (s.drop_last(), Ok(()))
    }
}

/// A character that a word's name may not hold: a name with one of these
/// could not be written in a program.
pub open spec fn forbidden(c: char) -> bool {
    c == ' ' || c == '\t' || c == '\n' || c == '\r' || c == '{' || c == '}'
}

/// A name that `def` accepts: one that holds no forbidden character.
pub open spec fn valid_name(name: Seq<char>) -> bool {
    forall|i: int| 0 <= i < name.len() ==> !forbidden(#[trigger] name[i])
}

/// What `def` says of a name that it does not accept.
pub open spec fn invalid_name_desc() -> Seq<char> {
    "name contains invalid characters"@
}

/// What `def` does: it takes a block, then a text, and binds the text as a
/// name to the block as a body, in place of whatever the name was bound to.
/// A stack that runs out is reported with the two values that the word needs
/// and the number of them that were there. A name that it does not accept is
/// reported, and both values stay off the stack.
pub open spec fn def_spec(s: Seq<ValView>, d: Map<Seq<char>, OpView>) -> (
    Seq<ValView>,
    Map<Seq<char>, OpView>,
    Result<(), OpErrView>,
) {
    let (s1, body) = pop_block_spec(s);
    let (s2, name) = pop_text_spec(s1);
    match (body, name) {
        (Err(e), _) => (s1, d, Err(short_of(e, 2, 0))),
        (Ok(_), Err(e)) => (s2, d, Err(short_of(e, 2, 1))),
        (Ok(body), Ok(name)) => if valid_name(name) {
            (s2, d.insert(name, OpView::Defined(body)), Ok(()))
        } else {
            (
                s2,
                d,
                Err(OpErrView::InvalidVal { val: ValView::Text(name), desc: invalid_name_desc() }),
            )
        },
    }
}

/// What `evl` does: it takes a block and hands it out to be run in place.
pub open spec fn evl_spec(s: Seq<ValView>) -> (Seq<ValView>, Result<Seq<ExprView>, OpErrView>) {
    pop_block_spec(s)
}

/// What `prt` does: it takes the top value off and hands out how it is shown.
pub open spec fn prt_spec(s: Seq<ValView>) -> (Seq<ValView>, Result<Seq<PieceView>, OpErrView>) {
    if s.len() == 0 {
        (s, Err(OpErrView::MissingItems { expected: 1, found: 0 }))
    } else {
        (s.drop_last(), Ok(show_val(s.last())))
    }
}

/// A word that ended with nothing left to do, or its error.
pub open spec fn done(r: Result<(), OpErrView>) -> Result<EffectView, OpErrView> {
    match r {
        Ok(_) => Ok(EffectView::Nothing),
        Err(e) => Err(e),
    }
}

/// A word that ended with a block to run in place, or its error.
pub open spec fn run(r: Result<Seq<ExprView>, OpErrView>) -> Result<EffectView, OpErrView> {
    match r {
        Ok(block) => Ok(EffectView::Run(block)),
        Err(e) => Err(e),
    }
}

/// A word that ended with a line to write, or its error.
pub open spec fn emit(r: Result<Seq<PieceView>, OpErrView>) -> Result<EffectView, OpErrView> {
    match r {
        Ok(pieces) => Ok(EffectView::Emit(pieces)),
        Err(e) => Err(e),
    }
}

/// What running a native word does to the stack and to the dictionary, and
/// what it leaves to be done.
pub open spec fn invoke_spec(b: Builtin, s: Seq<ValView>, d: Map<Seq<char>, OpView>) -> (
    Seq<ValView>,
    Map<Seq<char>, OpView>,
    Result<EffectView, OpErrView>,
) {
    match b {
        Builtin::Arith(op) => (arith_spec(s, op).0, d, arith_spec(s, op).1),
        Builtin::Comp(op) => (comp_spec(s, op).0, d, done(comp_spec(s, op).1)),
        Builtin::Logic(op) => (log_spec(s, op).0, d, done(log_spec(s, op).1)),
        Builtin::Not => (not_spec(s).0, d, done(not_spec(s).1)),
        Builtin::If => (if_spec(s).0, d, run(if_spec(s).1)),
        Builtin::Pop => (discard_spec(s).0, d, done(discard_spec(s).1)),
        Builtin::Dup => (dup_spec(s).0, d, done(dup_spec(s).1)),
        Builtin::Swp => (swp_spec(s).0, d, done(swp_spec(s).1)),
        Builtin::Def => (def_spec(s, d).0, def_spec(s, d).1, done(def_spec(s, d).2)),
        Builtin::Evl => (evl_spec(s).0, d, run(evl_spec(s).1)),
        Builtin::Prt => (prt_spec(s).0, d, emit(prt_spec(s).1)),
        Builtin::Stk => (s, d, Ok(EffectView::Emit(show_stack(s)))),
    }
}

/// Reports a stack that ran out with the number of operands that the word
/// needs and the number that were there.
fn remap(e: OpErr, expected: u32, found: u32) -> (r: OpErr)
    ensures
        r@ == short_of(e@, expected, found),
{
    match e {
        OpErr::MissingItems { .. } => OpErr::MissingItems { expected, found },
        other => other,
    }
}

/// Takes the two operands of a binary word off the stack: the number on top,
/// then the number under it.
pub fn operands(stack: &mut Stack) -> (r: OpResult<(u64, u64)>)
    ensures
        (final(stack)@, outcome(r)) == operands_spec(old(stack)@),
{
    let n1 = match stack.pop_num() {
        Ok(n) => n,
        Err(e) => {
            return Err(remap(e, 2, 0));
        },
    };
    let n2 = match stack.pop_num() {
        Ok(n) => n,
        Err(e) => {
            return Err(remap(e, 2, 1));
        },
    };
    Ok((n1, n2))
}

/// The arithmetic words `add`, `sub`, `mul` and `div`.
pub fn arith(stack: &mut Stack, op: ArithOp) -> (r: OpResult<Effect>)
    ensures
        (final(stack)@, viewed(r)) == arith_spec(old(stack)@, op),
{
    let (n1, n2) = operands(stack)?;
    Ok(Effect::Compute { op, lhs: n2, rhs: n1 })
}

/// The comparison words `eq`, `lt`, `gt`, `le` and `ge`.
pub fn comp(stack: &mut Stack, op: CompOp) -> (r: OpResult<()>)
    ensures
        (final(stack)@, outcome(r)) == comp_spec(old(stack)@, op),
{
    let (n1, n2) = operands(stack)?;
    stack.push(Val::Number(from_bool(op.test(n1, n2))));
    Ok(())
}

/// The logical words `and` and `or`.
pub fn log(stack: &mut Stack, op: LogOp) -> (r: OpResult<()>)
    ensures
        (final(stack)@, outcome(r)) == log_spec(old(stack)@, op),
{
    let (n1, n2) = operands(stack)?;
    stack.push(Val::Number(from_bool(op.test(truthy(n1), truthy(n2)))));
    Ok(())
}

/// The word `not`.
pub fn not(stack: &mut Stack, dict: &mut Dict) -> (r: OpResult<()>)
    ensures
        (final(stack)@, outcome(r)) == not_spec(old(stack)@),
        final(dict)@ == old(dict)@,
{
    let n = match stack.pop_num() {
        Ok(n) => truthy(n),
        Err(e) => {
            return Err(remap(e, 1, 0));
        },
    };
    stack.push(Val::Number(from_bool(!n)));
    Ok(())
}

/// The word `if`: hands out the block that the number chose.
pub fn if_(stack: &mut Stack, dict: &mut Dict) -> (r: OpResult<Vec<Expr>>)
    ensures
        (final(stack)@, block_outcome(r)) == if_spec(old(stack)@),
        final(dict)@ == old(dict)@,
{
    let el = match stack.pop_block() {
        Ok(b) => b,
        Err(e) => {
            return Err(remap(e, 3, 0));
        },
    };
    let th = match stack.pop_block() {
        Ok(b) => b,
        Err(e) => {
            return Err(remap(e, 3, 1));
        },
    };
    let cond = match stack.pop_num() {
        Ok(n) => truthy(n),
        Err(e) => {
            return Err(remap(e, 3, 2));
        },
    };
    Ok(
        if cond {
            th
        } else {
            el
        },
    )
}

/// The word `dup`.
pub fn dup(stack: &mut Stack, dict: &mut Dict) -> (r: OpResult<()>)
    ensures
        (final(stack)@, outcome(r)) == dup_spec(old(stack)@),
        final(dict)@ == old(dict)@,
{
    let temp = stack.pop()?;
    stack.push(temp.clone());
    stack.push(temp);
    assert(stack@ =~= old(stack)@.push(old(stack)@.last()));
    Ok(())
}

/// The word `swp`.
pub fn swp(stack: &mut Stack, dict: &mut Dict) -> (r: OpResult<()>)
    ensures
        (final(stack)@, outcome(r)) == swp_spec(old(stack)@),
        final(dict)@ == old(dict)@,
{
    let temp1 = match stack.pop() {
        Ok(v) => v,
        Err(_) => {
            return Err(OpErr::MissingItems { expected: 2, found: 0 });
        },
    };
    let temp2 = match stack.pop() {
        Ok(v) => v,
        Err(_) => {
            return Err(OpErr::MissingItems { expected: 2, found: 1 });
        },
    };
    stack.push(temp1);
    stack.push(temp2);
    Ok(())
}

/// The word `pop`.
pub fn discard(stack: &mut Stack) -> (r: OpResult<()>)
    ensures
        (final(stack)@, outcome(r)) == discard_spec(old(stack)@),
{
    let _ = stack.pop()?;
    Ok(())
}

/// Does `def` accept `name`?
pub fn is_valid_name(name: &str) -> (ok: bool)
    ensures
        ok == valid_name(name@),
{
    let mut ok = true;
    for c in it: name.chars()
        invariant
            it.seq() == name@,
            ok == valid_name(name@.subrange(0, it.index() as int)),
    {
        let ghost seen = name@.subrange(0, it.index() as int);
        let ghost next = name@.subrange(0, it.index() + 1);
        proof {
            assert(next.drop_last() =~= seen);
            assert(next.last() == c);
            if valid_name(next) {
                assert forall|i: int| 0 <= i < seen.len() implies !forbidden(
                    #[trigger] seen[i],
                ) by {
                    assert(seen[i] == next[i]);
                }
            }
            if valid_name(seen) && !forbidden(c) {
                assert forall|i: int| 0 <= i < next.len() implies !forbidden(
                    #[trigger] next[i],
                ) by {
                    if i < seen.len() {
                        assert(next[i] == seen[i]);
                    }
                }
            }
        }
        if c == ' ' || c == '\t' || c == '\n' || c == '\r' || c == '{' || c == '}' {
            ok = false;
        }
    }
    proof {
        assert(name@.subrange(0, name@.len() as int) =~= name@);
    }
    ok
}

/// The word `def`.
pub fn def(stack: &mut Stack, dict: &mut Dict) -> (r: OpResult<()>)
    ensures
        (final(stack)@, final(dict)@, outcome(r)) == def_spec(old(stack)@, old(dict)@),
{
    let body = match stack.pop_block() {
        Ok(b) => b,
        Err(e) => {
            return Err(remap(e, 2, 0));
        },
    };
    let name = match stack.pop_text() {
        Ok(t) => t,
        Err(e) => {
            return Err(remap(e, 2, 1));
        },
    };
    if !is_valid_name(name.as_str()) {
        return Err(
            OpErr::InvalidVal {
                val: Val::Text(name),
                desc: "name contains invalid characters".to_owned(),
            },
        );
    }
    dict.bind(name, Op::Defined(body));
    Ok(())
}

/// The word `evl`: hands out the block on top of the stack.
pub fn evl(stack: &mut Stack, dict: &mut Dict) -> (r: OpResult<Vec<Expr>>)
    ensures
        (final(stack)@, block_outcome(r)) == evl_spec(old(stack)@),
        final(dict)@ == old(dict)@,
{
    stack.pop_block()
}

/// Binds every native word under its name, in place of whatever the name was
/// bound to.
pub fn insert(dict: &mut Dict)
    ensures
        final(dict)@ == install(old(dict)@, Builtin::all()),
{
    let words = Builtin::table();
    let mut i: usize = 0;
    assert(words@.subrange(0, 0) =~= Seq::<Builtin>::empty());
    while i < words.len()
        invariant
            i <= words.len(),
            words@ == Builtin::all(),
            dict@ == install(old(dict)@, words@.subrange(0, i as int)),
        decreases words.len() - i,
    {
        let b = words[i];
        proof {
            assert(words@.subrange(0, i + 1).drop_last() =~= words@.subrange(0, i as int));
        }
        dict.bind(b.name().to_owned(), Op::Native(b));
        i += 1;
    }
    assert(words@.subrange(0, words@.len() as int) =~= words@);
}

/// The native words by name, as a run finds them before it has bound
/// anything.
pub struct Builtins(Dict);

impl View for Builtins {
    type V = Map<Seq<char>, OpView>;

    closed spec fn view(&self) -> Map<Seq<char>, OpView> {
        self.0@
    }
}

impl Builtins {
    /// Every native word under its name, and nothing else.
    pub fn new() -> (table: Self)
        ensures
            table@ == install(Map::<Seq<char>, OpView>::empty(), Builtin::all()),
    {
        let mut d = Dict::new();
        insert(&mut d);
        Builtins(d)
    }

    /// The native word of this name, if there is one.
    pub fn find(&self, k: &str) -> (r: Option<Builtin>)
        ensures
            r == (if self@.contains_key(k@) {
                match self@[k@] {
                    OpView::Native(b) => Some(b),
                    OpView::Defined(_) => None,
                }
            } else {
                None
            }),
    {
        match self.0.get(k) {
            Some(Op::Native(b)) => Some(*b),
            _ => None,
        }
    }
}

/// The word `prt`: takes the top value off and hands out how it is shown.
pub fn prt(stack: &mut Stack, dict: &mut Dict) -> (r: OpResult<Vec<Piece>>)
    ensures
        (final(stack)@, pieces_outcome(r)) == prt_spec(old(stack)@),
        final(dict)@ == old(dict)@,
{
    let v = stack.pop()?;
    Ok(v.render())
}

/// Runs a native word.
pub fn invoke(b: Builtin, stack: &mut Stack, dict: &mut Dict) -> (r: OpResult<Effect>)
    ensures
        (final(stack)@, final(dict)@, viewed(r)) == invoke_spec(
            b,
            old(stack)@,
            old(dict)@,
        ),
{
    match b {
        Builtin::Arith(op) => arith(stack, op),
        Builtin::Comp(op) => {
            comp(stack, op)?;
            Ok(Effect::Nothing)
        },
        Builtin::Logic(op) => {
            log(stack, op)?;
            Ok(Effect::Nothing)
        },
        Builtin::Not => {
            not(stack, dict)?;
            Ok(Effect::Nothing)
        },
        Builtin::If => Ok(Effect::Run(if_(stack, dict)?)),
        Builtin::Pop => {
            discard(stack)?;
            Ok(Effect::Nothing)
        },
        Builtin::Dup => {
            dup(stack, dict)?;
            Ok(Effect::Nothing)
        },
        Builtin::Swp => {
            swp(stack, dict)?;
            Ok(Effect::Nothing)
        },
        Builtin::Def => {
            def(stack, dict)?;
            Ok(Effect::Nothing)
        },
        Builtin::Evl => Ok(Effect::Run(evl(stack, dict)?)),
        Builtin::Prt => Ok(Effect::Emit(prt(stack, dict)?)),
        Builtin::Stk => Ok(Effect::Emit(stack.render())),
    }
}

} // verus!
