//! What holds of the words and of the machine, whatever the stack, the
//! dictionary and the program.

use crate::ast::{ExprView, ValView};
use crate::builtins::{
    ArithOp, Builtin, LogOp, arith_spec, comp_spec, def_spec, dup_spec, if_spec, install,
    log_spec, not_spec, swp_spec, valid_name,
};
use crate::dict::{OpView, added};
use crate::effect::EffectView;
use crate::env::{EnvView, run_spec, step_spec};
use crate::err::{OpErrView, Type};
use crate::eval::{call_spec, eval_spec};
use crate::number::{CompOp, ONE, SIGN, ZERO, is_nan, is_true, truth};
use crate::stack::pop_spec;
use vstd::prelude::*;

verus! {

/// No two native words have the same name.
pub proof fn law_names_differ(a: Builtin, b: Builtin)
    requires
        a != b,
    ensures
        a.spec_name() != b.spec_name(),
{
    reveal_strlit("add");
    reveal_strlit("sub");
    reveal_strlit("mul");
    reveal_strlit("div");
    reveal_strlit("eq");
    reveal_strlit("lt");
    reveal_strlit("gt");
    reveal_strlit("le");
    reveal_strlit("ge");
    reveal_strlit("and");
    reveal_strlit("or");
    reveal_strlit("not");
    reveal_strlit("if");
    reveal_strlit("pop");
    reveal_strlit("dup");
    reveal_strlit("swp");
    reveal_strlit("def");
    reveal_strlit("evl");
    reveal_strlit("prt");
    reveal_strlit("stk");
    let x = a.spec_name();
    let y = b.spec_name();
    if x.len() == y.len() {
        assert(x[0] != y[0] || x[1] != y[1] || (x.len() == 3 && x[2] != y[2]));
    }
}

/// Binding the native words over a dictionary binds each of them under its
/// own name and leaves every other name as it was. So the dictionary that a
/// run starts with holds the native words and nothing else.
pub proof fn law_install(d: Map<Seq<char>, OpView>)
    ensures
        forall|b: Builtin|
            #![trigger b.spec_name()]
            install(d, Builtin::all()).contains_key(b.spec_name()) && install(
                d,
                Builtin::all(),
            )[b.spec_name()] == OpView::Native(b),
        forall|name: Seq<char>|
            (forall|b: Builtin| b.spec_name() != name) ==> (#[trigger] install(
                d,
                Builtin::all(),
            ).contains_key(name) == d.contains_key(name) && (d.contains_key(name) ==> install(
                d,
                Builtin::all(),
            )[name] == d[name])),
{
    lemma_install_prefix(d, Builtin::all().len() as int);
    assert(Builtin::all().subrange(0, Builtin::all().len() as int) =~= Builtin::all());
    let full = install(d, Builtin::all());
    assert forall|b: Builtin| #![trigger b.spec_name()] full.contains_key(b.spec_name()) && full[b.spec_name()] == OpView::Native(b) by {
        let i = index_of(b);
        assert(Builtin::all()[i] == b);
    }
}

/// Where a native word stands in the list of them all.
spec fn index_of(b: Builtin) -> int {
    match b {
        Builtin::Arith(ArithOp::Add) => 0,
        Builtin::Arith(ArithOp::Sub) => 1,
        Builtin::Arith(ArithOp::Mul) => 2,
        Builtin::Arith(ArithOp::Div) => 3,
        Builtin::Comp(CompOp::Eq) => 4,
        Builtin::Comp(CompOp::Lt) => 5,
        Builtin::Comp(CompOp::Gt) => 6,
        Builtin::Comp(CompOp::Le) => 7,
        Builtin::Comp(CompOp::Ge) => 8,
        Builtin::Logic(LogOp::And) => 9,
        Builtin::Logic(LogOp::Or) => 10,
        Builtin::Not => 11,
        Builtin::If => 12,
        Builtin::Pop => 13,
        Builtin::Dup => 14,
        Builtin::Swp => 15,
        Builtin::Def => 16,
        Builtin::Evl => 17,
        Builtin::Prt => 18,
        Builtin::Stk => 19,
    }
}

/// After the first `k` native words have been bound, each of them is found
/// under its name, and a name that is none of theirs is as it was.
proof fn lemma_install_prefix(d: Map<Seq<char>, OpView>, k: int)
    requires
        0 <= k <= Builtin::all().len(),
    ensures
        forall|i: int|
            0 <= i < k ==> install(d, Builtin::all().subrange(0, k)).contains_key(
                #[trigger] Builtin::all()[i].spec_name(),
            ) && install(d, Builtin::all().subrange(0, k))[Builtin::all()[i].spec_name()]
                == OpView::Native(Builtin::all()[i]),
        forall|name: Seq<char>|
            (forall|i: int| 0 <= i < k ==> Builtin::all()[i].spec_name() != name) ==> (
            #[trigger] install(d, Builtin::all().subrange(0, k)).contains_key(name)
                == d.contains_key(name) && (d.contains_key(name) ==> install(
                d,
                Builtin::all().subrange(0, k),
            )[name] == d[name])),
    decreases k,
{
    let all = Builtin::all();
    if k > 0 {
        lemma_install_prefix(d, k - 1);
        let words = all.subrange(0, k);
        assert(words.drop_last() =~= all.subrange(0, k - 1));
        assert(words.last() == all[k - 1]);
        let before = install(d, all.subrange(0, k - 1));
        let after = install(d, words);
        assert(after == before.insert(all[k - 1].spec_name(), OpView::Native(all[k - 1])));
        assert forall|i: int| 0 <= i < k implies after.contains_key(
            #[trigger] all[i].spec_name(),
        ) && after[all[i].spec_name()] == OpView::Native(all[i]) by {
            if i < k - 1 {
                assert(index_of(all[i]) == i);
                assert(index_of(all[k - 1]) == k - 1);
                law_names_differ(all[i], all[k - 1]);
            }
        }
        assert forall|name: Seq<char>|
            (forall|i: int| 0 <= i < k ==> all[i].spec_name() != name) implies (
        #[trigger] after.contains_key(name) == d.contains_key(name) && (d.contains_key(name)
            ==> after[name] == d[name])) by {
            assert(all[k - 1].spec_name() != name);
            assert forall|i: int| 0 <= i < k - 1 implies all[i].spec_name() != name by {}
        }
    } else {
        assert(all.subrange(0, 0) =~= Seq::<Builtin>::empty());
    }
}

/// After `dup` the stack is one deeper, and the two values on top are both
/// the value that was on top: taking two values off yields it twice and
/// leaves what was under it.
pub proof fn law_dup_then_pop_twice(s: Seq<ValView>)
    requires
        s.len() > 0,
    ensures
        dup_spec(s).1 is Ok,
        dup_spec(s).0.len() == s.len() + 1,
        pop_spec(dup_spec(s).0).1 == Ok::<ValView, OpErrView>(s.last()),
        pop_spec(pop_spec(dup_spec(s).0).0) == (s.drop_last(), Ok::<ValView, OpErrView>(s.last())),
{
    assert(s.push(s.last()).drop_last() =~= s);
}

/// `swp` undoes itself: on a stack of two values or more, `swp swp` leaves
/// the stack as it was.
pub proof fn law_swp_twice(s: Seq<ValView>)
    requires
        s.len() >= 2,
    ensures
        swp_spec(s).1 is Ok,
        swp_spec(swp_spec(s).0) == (s, Ok::<(), OpErrView>(())),
{
    let once = swp_spec(s).0;
    assert(once.drop_last().drop_last() =~= s.drop_last().drop_last());
    assert(swp_spec(once).0 =~= s);
}

/// An arithmetic word on an empty stack reports that it found none of its
/// two operands.
pub proof fn law_arith_on_empty_stack(op: ArithOp)
    ensures
        arith_spec(Seq::empty(), op) == (
            Seq::<ValView>::empty(),
            Err::<EffectView, OpErrView>(OpErrView::MissingItems { expected: 2, found: 0 }),
        ),
{
}

/// An arithmetic word on a stack of one number takes the number off and
/// reports that it found one of its two operands.
pub proof fn law_arith_on_one_number(op: ArithOp, n: u64)
    ensures
        arith_spec(seq![ValView::Number(n)], op) == (
            Seq::<ValView>::empty(),
            Err::<EffectView, OpErrView>(OpErrView::MissingItems { expected: 2, found: 1 }),
        ),
{
    let s = seq![ValView::Number(n)];
    assert(s.drop_last() =~= Seq::<ValView>::empty());
}

/// An arithmetic word on two numbers takes both off and asks the host for
/// the operation on them, the one that was pushed first on the left.
pub proof fn law_arith_on_two_numbers(s: Seq<ValView>, a: u64, b: u64, op: ArithOp)
    ensures
        arith_spec(s.push(ValView::Number(a)).push(ValView::Number(b)), op) == (
            s,
            Ok::<EffectView, OpErrView>(EffectView::Compute { op, lhs: a, rhs: b }),
        ),
{
    let s1 = s.push(ValView::Number(a));
    assert(s1.push(ValView::Number(b)).drop_last() =~= s1);
    assert(s1.drop_last() =~= s);
}

/// A comparison word on two numbers puts `1.0` or `0.0` in their place, and
/// the number that was pushed last is its left operand.
pub proof fn law_comp_on_two_numbers(s: Seq<ValView>, a: u64, b: u64, op: CompOp)
    ensures
        comp_spec(s.push(ValView::Number(a)).push(ValView::Number(b)), op) == (
            s.push(ValView::Number(truth(op.holds(b, a)))),
            Ok::<(), OpErrView>(()),
        ),
        truth(op.holds(b, a)) == ONE || truth(op.holds(b, a)) == ZERO,
{
    let s1 = s.push(ValView::Number(a));
    assert(s1.push(ValView::Number(b)).drop_last() =~= s1);
    assert(s1.drop_last() =~= s);
}

/// A logical word on two numbers puts `1.0` or `0.0` in their place, and
/// reads every number above zero as true.
pub proof fn law_log_on_two_numbers(s: Seq<ValView>, a: u64, b: u64, op: LogOp)
    ensures
        log_spec(s.push(ValView::Number(a)).push(ValView::Number(b)), op) == (
            s.push(ValView::Number(truth(op.holds(is_true(b), is_true(a))))),
            Ok::<(), OpErrView>(()),
        ),
        op.holds(is_true(b), is_true(a)) == op.holds(is_true(a), is_true(b)),
{
    let s1 = s.push(ValView::Number(a));
    assert(s1.push(ValView::Number(b)).drop_last() =~= s1);
    assert(s1.drop_last() =~= s);
}

/// `not` puts `0.0` in the place of a number that counts as true and `1.0`
/// in the place of one that does not; applied twice it gives the truth value
/// of the number it started with.
pub proof fn law_not(s: Seq<ValView>, a: u64)
    ensures
        not_spec(s.push(ValView::Number(a))) == (
            s.push(ValView::Number(truth(!is_true(a)))),
            Ok::<(), OpErrView>(()),
        ),
        not_spec(not_spec(s.push(ValView::Number(a))).0) == (
            s.push(ValView::Number(truth(is_true(a)))),
            Ok::<(), OpErrView>(()),
        ),
{
    let s1 = s.push(ValView::Number(a));
    assert(s1.drop_last() =~= s);
    let s2 = s.push(ValView::Number(truth(!is_true(a))));
    assert(s2.drop_last() =~= s);
}

/// Comparing as numbers do: a number equals itself unless it is a NaN, the
/// two zeros are equal, of two numbers that are no NaN exactly one of less,
/// equal and greater holds, and where a NaN is compared nothing holds.
pub proof fn law_comparisons(a: u64, b: u64)
    ensures
        CompOp::Eq.holds(a, a) == !is_nan(a),
        CompOp::Eq.holds(ZERO, SIGN),
        CompOp::Lt.holds(a, b) == CompOp::Gt.holds(b, a),
        CompOp::Le.holds(a, b) == (CompOp::Lt.holds(a, b) || CompOp::Eq.holds(a, b)),
        CompOp::Ge.holds(a, b) == (CompOp::Gt.holds(a, b) || CompOp::Eq.holds(a, b)),
        !is_nan(a) && !is_nan(b) ==> (CompOp::Lt.holds(a, b) as int) + (CompOp::Eq.holds(
            a,
            b,
        ) as int) + (CompOp::Gt.holds(a, b) as int) == 1,
        is_nan(a) || is_nan(b) ==> !CompOp::Lt.holds(a, b) && !CompOp::Eq.holds(a, b)
            && !CompOp::Gt.holds(a, b) && !CompOp::Le.holds(a, b) && !CompOp::Ge.holds(a, b),
{
}

/// `if` hands out the first of its two blocks where the number counts as
/// true and the second where it does not, and leaves what was under the
/// three.
pub proof fn law_if_selects(s: Seq<ValView>, c: u64, yes: Seq<ExprView>, no: Seq<ExprView>)
    ensures
        if_spec(s.push(ValView::Number(c)).push(ValView::Block(yes)).push(ValView::Block(no))) == (
            s,
            Ok::<Seq<ExprView>, OpErrView>(
                if is_true(c) {
                    yes
                } else {
                    no
                },
            ),
        ),
{
    let s1 = s.push(ValView::Number(c));
    let s2 = s1.push(ValView::Block(yes));
    let s3 = s2.push(ValView::Block(no));
    assert(s3.drop_last() =~= s2);
    assert(s2.drop_last() =~= s1);
    assert(s1.drop_last() =~= s);
}

/// `def` with enough values of the wrong tags fails with a type mismatch,
/// not with a missing value: where the top is no block, and where the top is
/// a block and the value under it is no text.
pub proof fn law_def_type_error(s: Seq<ValView>, d: Map<Seq<char>, OpView>)
    requires
        s.len() >= 2,
        !(s.last() is Block) || !(s[s.len() - 2] is Text),
    ensures
        def_spec(s, d).1 == d,
        !(s.last() is Block) ==> def_spec(s, d).2 == Err::<(), OpErrView>(
            OpErrView::TypeMismatch { expected: Type::Block, found: Type::of(s.last()) },
        ),
        s.last() is Block ==> def_spec(s, d).2 == Err::<(), OpErrView>(
            OpErrView::TypeMismatch { expected: Type::Text, found: Type::of(s[s.len() - 2]) },
        ),
{
}

/// Evaluating a name that is not bound fails with that very name, and
/// changes nothing.
pub proof fn law_unknown_word(name: Seq<char>, s: Seq<ValView>, d: Map<Seq<char>, OpView>)
    requires
        !d.contains_key(name),
    ensures
        eval_spec(ExprView::Opname(name), s, d) == (
            s,
            d,
            Err::<EffectView, OpErrView>(OpErrView::UnknownOp(name)),
        ),
{
}

/// Binding a name leaves it bound once: among finitely many names, the number
/// of names that are bound grows by one where the name is new and stays
/// where it is not, and binding the same name again never adds an entry.
pub proof fn law_bind_count(d: Map<Seq<char>, OpView>, name: Seq<char>, op: OpView, again: OpView)
    requires
        d.dom().finite(),
    ensures
        d.insert(name, op).dom().finite(),
        d.insert(name, op).dom() == d.dom().insert(name),
        d.insert(name, op).len() == d.len() + added(d, name),
        d.insert(name, op).insert(name, again).len() == d.insert(name, op).len(),
{
    assert(d.insert(name, op).dom() =~= d.dom().insert(name));
    assert(d.insert(name, op).insert(name, again).dom() =~= d.insert(name, op).dom());
}

/// `not` on an empty stack reports that it found none of the one value that
/// it needs.
pub proof fn law_not_on_empty_stack()
    ensures
        not_spec(Seq::empty()) == (
            Seq::<ValView>::empty(),
            Err::<(), OpErrView>(OpErrView::MissingItems { expected: 1, found: 0 }),
        ),
{
}

/// `def` on a stack that runs out reports the two values that it needs and
/// how many of them were there: none on an empty stack, one on a stack that
/// holds a block and nothing else. The dictionary stays as it is.
pub proof fn law_def_on_short_stack(d: Map<Seq<char>, OpView>, body: Seq<ExprView>)
    ensures
        def_spec(Seq::empty(), d) == (
            Seq::<ValView>::empty(),
            d,
            Err::<(), OpErrView>(OpErrView::MissingItems { expected: 2, found: 0 }),
        ),
        def_spec(seq![ValView::Block(body)], d) == (
            Seq::<ValView>::empty(),
            d,
            Err::<(), OpErrView>(OpErrView::MissingItems { expected: 2, found: 1 }),
        ),
{
    assert(seq![ValView::Block(body)].drop_last() =~= Seq::<ValView>::empty());
}

/// `if` on a stack that runs out reports the three values that it needs and
/// how many of them were there, and leaves the stack empty.
pub proof fn law_if_on_short_stack(no: Seq<ExprView>, yes: Seq<ExprView>)
    ensures
        if_spec(Seq::empty()) == (
            Seq::<ValView>::empty(),
            Err::<Seq<ExprView>, OpErrView>(OpErrView::MissingItems { expected: 3, found: 0 }),
        ),
        if_spec(seq![ValView::Block(no)]) == (
            Seq::<ValView>::empty(),
            Err::<Seq<ExprView>, OpErrView>(OpErrView::MissingItems { expected: 3, found: 1 }),
        ),
        if_spec(seq![ValView::Block(yes), ValView::Block(no)]) == (
            Seq::<ValView>::empty(),
            Err::<Seq<ExprView>, OpErrView>(OpErrView::MissingItems { expected: 3, found: 2 }),
        ),
{
    let one = seq![ValView::Block(no)];
    let two = seq![ValView::Block(yes), ValView::Block(no)];
    assert(one.drop_last() =~= Seq::<ValView>::empty());
    assert(two.drop_last() =~= seq![ValView::Block(yes)]);
    assert(seq![ValView::Block(yes)].drop_last() =~= Seq::<ValView>::empty());
}

/// Defining a name binds it to the body given; defining it again binds it to
/// the new body, and the dictionary holds the same names as before the
/// second definition: one entry for the name, never two.
pub proof fn law_redefinition(
    s: Seq<ValView>,
    d: Map<Seq<char>, OpView>,
    name: Seq<char>,
    first: Seq<ExprView>,
    second: Seq<ExprView>,
)
    requires
        valid_name(name),
    ensures
        ({
            let d1 = def_spec(s.push(ValView::Text(name)).push(ValView::Block(first)), d).1;
            let d2 = def_spec(s.push(ValView::Text(name)).push(ValView::Block(second)), d1).1;
            &&& def_spec(s.push(ValView::Text(name)).push(ValView::Block(first)), d) == (
                s,
                d1,
                Ok::<(), OpErrView>(()),
            )
            &&& call_spec(name, s, d1) == (s, d1, Ok::<EffectView, OpErrView>(EffectView::Run(first)))
            &&& def_spec(s.push(ValView::Text(name)).push(ValView::Block(second)), d1) == (
                s,
                d2,
                Ok::<(), OpErrView>(()),
            )
            &&& call_spec(name, s, d2) == (
                s,
                d2,
                Ok::<EffectView, OpErrView>(EffectView::Run(second)),
            )
            &&& d2.dom() == d1.dom()
            &&& d2.len() == d1.len()
            &&& d2 == d.insert(name, OpView::Defined(second))
        }),
{
    let t = s.push(ValView::Text(name));
    assert(t.push(ValView::Block(first)).drop_last() =~= t);
    assert(t.push(ValView::Block(second)).drop_last() =~= t);
    assert(t.drop_last() =~= s);
    let d1 = d.insert(name, OpView::Defined(first));
    let d2 = d1.insert(name, OpView::Defined(second));
    assert(d2.dom() =~= d1.dom());
    assert(d2 =~= d.insert(name, OpView::Defined(second)));
}

/// A step that succeeds takes the first waiting expression away and leaves
/// every other waiting expression as it was, behind whatever the step put in
/// front: nothing that a word does, to the dictionary or to the stack,
/// changes an expression that is already waiting.
pub proof fn law_waiting_is_kept(c: EnvView)
    requires
        c.pending.len() > 0,
        step_spec(c).1 is Ok,
    ensures
        ({
            let after = step_spec(c).0.pending;
            let rest = c.pending.drop_first();
            &&& after.len() >= rest.len()
            &&& after.subrange(after.len() - rest.len(), after.len() as int) == rest
        }),
{
    let after = step_spec(c).0.pending;
    let rest = c.pending.drop_first();
    assert(after.subrange(after.len() - rest.len(), after.len() as int) =~= rest);
}

/// A word that fails ends the run: nothing is waiting after it, so no
/// further expression is evaluated, however long the host goes on.
pub proof fn law_failure_ends_the_run(c: EnvView, limit: nat)
    requires
        step_spec(c).1 is Err,
    ensures
        step_spec(c).0.pending.len() == 0,
        run_spec(c, limit) == if limit == 0 {
            (c, Ok::<EffectView, OpErrView>(EffectView::Nothing))
        } else {
            step_spec(c)
        },
        run_spec(step_spec(c).0, limit) == (
            step_spec(c).0,
            Ok::<EffectView, OpErrView>(EffectView::Nothing),
        ),
{
}

/// Literals are pushed in the order in which they are written: a machine
/// that has the literals of `vals` waiting comes, in as many steps, to a
/// stack with `vals` on top, the last one topmost.
pub proof fn law_literals_are_pushed(c: EnvView, vals: Seq<ValView>)
    requires
        c.pending.len() >= vals.len(),
        forall|i: int| 0 <= i < vals.len() ==> c.pending[i] == ExprView::Value(#[trigger] vals[i]),
    ensures
        run_spec(c, vals.len()) == (
            EnvView {
                stack: c.stack + vals,
                pending: c.pending.subrange(vals.len() as int, c.pending.len() as int),
                ..c
            },
            Ok::<EffectView, OpErrView>(EffectView::Nothing),
        ),
    decreases vals.len(),
{
    if vals.len() == 0 {
        assert(c.stack + vals =~= c.stack);
        assert(c.pending.subrange(0, c.pending.len() as int) =~= c.pending);
    } else {
        let next = step_spec(c).0;
        let rest = vals.drop_first();
        assert(c.pending.first() == ExprView::Value(vals[0]));
        assert forall|i: int| 0 <= i < rest.len() implies next.pending[i] == ExprView::Value(
            #[trigger] rest[i],
        ) by {
            assert(rest[i] == vals[i + 1]);
            assert(next.pending[i] == c.pending[i + 1]);
        }
        law_literals_are_pushed(next, rest);
        assert(next.stack + rest =~= c.stack + vals);
        assert(next.pending.subrange(rest.len() as int, next.pending.len() as int)
            =~= c.pending.subrange(vals.len() as int, c.pending.len() as int));
    }
}

/// Running a defined word puts the body that is bound at that moment in
/// front of what is waiting, and changes neither the stack nor the
/// dictionary.
pub proof fn law_call_takes_the_body(c: EnvView, name: Seq<char>, body: Seq<ExprView>)
    requires
        c.pending.len() > 0,
        c.pending.first() == ExprView::Opname(name),
        c.dict.contains_key(name),
        c.dict[name] == OpView::Defined(body),
    ensures
        step_spec(c) == (
            EnvView { pending: body + c.pending.drop_first(), ..c },
            Ok::<EffectView, OpErrView>(EffectView::Nothing),
        ),
{
}

/// A word that redefines itself and then calls itself: the call that is
/// under way goes on with the body that it started with, and the call that
/// this body ends with runs the new body.
///
/// The word `name` is bound to the body `name-as-text new-body def name`.
/// From a machine that is about to run `name`, five steps lead to a machine
/// with the same stack, with `name` bound to the new body, and with the new
/// body waiting in front of what was waiting behind the first call.
pub proof fn law_self_redefinition(
    c: EnvView,
    name: Seq<char>,
    def_name: Seq<char>,
    new_body: Seq<ExprView>,
)
    requires
        valid_name(name),
        name != def_name,
        c.pending.len() > 0,
        c.pending.first() == ExprView::Opname(name),
        c.dict.contains_key(def_name),
        c.dict[def_name] == OpView::Native(Builtin::Def),
        c.dict.contains_key(name),
        c.dict[name] == OpView::Defined(
            seq![
                ExprView::Value(ValView::Text(name)),
                ExprView::Value(ValView::Block(new_body)),
                ExprView::Opname(def_name),
                ExprView::Opname(name),
            ],
        ),
    ensures
        ({
            let c1 = step_spec(c).0;
            let c2 = step_spec(c1).0;
            let c3 = step_spec(c2).0;
            let c4 = step_spec(c3).0;
            let c5 = step_spec(c4).0;
            &&& step_spec(c).1 is Ok
            &&& step_spec(c1).1 is Ok
            &&& step_spec(c2).1 is Ok
            &&& step_spec(c3).1 is Ok
            &&& step_spec(c4).1 is Ok
            &&& c4 == (EnvView {
                stack: c.stack,
                dict: c.dict.insert(name, OpView::Defined(new_body)),
                pending: seq![ExprView::Opname(name)] + c.pending.drop_first(),
            })
            &&& c5 == (EnvView {
                stack: c.stack,
                dict: c.dict.insert(name, OpView::Defined(new_body)),
                pending: new_body + c.pending.drop_first(),
            })
        }),
{
    let rest = c.pending.drop_first();
    let e1 = ExprView::Value(ValView::Text(name));
    let e2 = ExprView::Value(ValView::Block(new_body));
    let e3 = ExprView::Opname(def_name);
    let e4 = ExprView::Opname(name);
    let body = seq![e1, e2, e3, e4];
    let c1 = step_spec(c).0;
    assert(c1.pending == body + rest);
    assert(c1.pending.first() == e1);
    assert(c1.pending.drop_first() =~= seq![e2, e3, e4] + rest);
    let c2 = step_spec(c1).0;
    assert(c2.pending.first() == e2);
    assert(c2.pending.drop_first() =~= seq![e3, e4] + rest);
    let c3 = step_spec(c2).0;
    assert(c3.pending.first() == e3);
    assert(c3.pending.drop_first() =~= seq![e4] + rest);
    let s2 = c.stack.push(ValView::Text(name)).push(ValView::Block(new_body));
    assert(c3.stack == s2);
    assert(s2.drop_last() =~= c.stack.push(ValView::Text(name)));
    assert(c.stack.push(ValView::Text(name)).drop_last() =~= c.stack);
    let c4 = step_spec(c3).0;
    assert(c4.pending.first() == e4);
    assert(c4.pending.drop_first() =~= rest);
    assert(c4.pending =~= seq![e4] + rest);
}

/// Applying a quotation is the same as writing its expressions in its place:
/// a machine that is about to push a block and run `evl` comes, in two
/// steps, to where a machine is that has the block's expressions waiting
/// instead.
pub proof fn law_evl_is_inline(c: EnvView, evl_name: Seq<char>, block: Seq<ExprView>)
    requires
        c.pending.len() >= 2,
        c.pending[0] == ExprView::Value(ValView::Block(block)),
        c.pending[1] == ExprView::Opname(evl_name),
        c.dict.contains_key(evl_name),
        c.dict[evl_name] == OpView::Native(Builtin::Evl),
    ensures
        step_spec(c).1 == Ok::<EffectView, OpErrView>(EffectView::Nothing),
        step_spec(step_spec(c).0) == (
            EnvView { pending: block + c.pending.subrange(2, c.pending.len() as int), ..c },
            Ok::<EffectView, OpErrView>(EffectView::Nothing),
        ),
{
    let c1 = step_spec(c).0;
    let rest = c.pending.subrange(2, c.pending.len() as int);
    assert(c1.stack.drop_last() =~= c.stack);
    assert(c1.pending.drop_first() =~= rest);
}

} // verus!
