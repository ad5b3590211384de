//! The machine that runs a program: a stack, a dictionary, and the
//! expressions that are waiting to be evaluated.
//!
//! The machine goes one expression at a time. The host calls [`Env::step`]
//! until the machine is idle, and after each step does what the effect asks
//! for. A program that never ends is a host that never stops calling.

use crate::ast::{Ast, Expr, ExprView, Val, ValView, exprs_view, lemma_exprs_view};
use crate::builtins::{Builtin, install};
use crate::dict::{Dict, Op, OpView};
use crate::effect::{Effect, EffectView};
use crate::err::{OpErrView, OpResult, block_outcome, outcome, viewed};
use crate::eval::{call_spec, eval_expr, eval_opcall, eval_spec};
use crate::stack::{Stack, pop_block_spec, pop_num_spec, pop_spec, pop_text_spec};
use vstd::prelude::*;

verus! {

/// The mathematical model of an [`Env`].
pub struct EnvView {
    /// The stack, from the bottom to the top.
    pub stack: Seq<ValView>,
    /// What each name is bound to.
    pub dict: Map<Seq<char>, OpView>,
    /// The expressions that are waiting, the next one first.
    pub pending: Seq<ExprView>,
}

/// What one step does to a machine. An idle machine stays as it is.
/// Otherwise the first waiting expression is evaluated. A block that is to be
/// run in place goes in front of what is waiting. An error empties what is
/// waiting, and leaves the stack and the dictionary as the failing word left
/// them.
pub open spec fn step_spec(c: EnvView) -> (EnvView, Result<EffectView, OpErrView>) {
    if c.pending.len() == 0 {
        (c, Ok(EffectView::Nothing))
    } else {
        let (stack, dict, r) = eval_spec(c.pending.first(), c.stack, c.dict);
        let rest = c.pending.drop_first();
        match r {
            Err(e) => (EnvView { stack, dict, pending: Seq::empty() }, Err(e)),
            Ok(EffectView::Run(block)) => (
                EnvView { stack, dict, pending: block + rest },
                Ok(EffectView::Nothing),
            ),
            Ok(effect) => (EnvView { stack, dict, pending: rest }, Ok(effect)),
        }
    }
}

/// What up to `limit` steps do to a machine: it goes on while something is
/// waiting and each step leaves nothing to the host, and stops with the
/// first step that asks the host for something or fails.
pub open spec fn run_spec(c: EnvView, limit: nat) -> (EnvView, Result<EffectView, OpErrView>)
    decreases limit,
{
    if limit == 0 || c.pending.len() == 0 {
        (c, Ok(EffectView::Nothing))
    } else {
        match step_spec(c) {
            (next, Ok(EffectView::Nothing)) => run_spec(next, (limit - 1) as nat),
            stopped => stopped,
        }
    }
}

/// The machine.
pub struct Env {
    stack: Stack,
    dict: Dict,
    /// What is waiting, the next expression last.
    agenda: Vec<Expr>,
}

/// The models of the waiting expressions, the next one first.
pub open spec fn waiting(agenda: Seq<Expr>) -> Seq<ExprView> {
    Seq::new(agenda.len(), |i: int| agenda[agenda.len() - 1 - i]@)
}

impl View for Env {
    type V = EnvView;

    closed spec fn view(&self) -> EnvView {
        EnvView { stack: self.stack@, dict: self.dict@, pending: waiting(self.agenda@) }
    }
}

impl Env {
    /// A machine at the start of a run: the stack is empty, every native
    /// word is bound under its name and no other name is bound, and nothing
    /// is waiting.
    pub fn new() -> (env: Self)
        ensures
            env@ == (EnvView {
                stack: Seq::empty(),
                dict: install(Map::empty(), Builtin::all()),
                pending: Seq::empty(),
            }),
    {
        let env = Env { stack: Stack::new(), dict: Dict::default(), agenda: Vec::new() };
        assert(env@.pending =~= Seq::<ExprView>::empty());
        env
    }

    /// The stack.
    pub fn stack(&self) -> (s: &Stack)
        ensures
            s@ == self@.stack,
    {
        &self.stack
    }

    /// The dictionary.
    pub fn dict(&self) -> (d: &Dict)
        ensures
            d@ == self@.dict,
    {
        &self.dict
    }

    /// Binds `name` to a defined word with this body, in place of whatever
    /// `name` was bound to.
    pub fn bind_op(&mut self, name: String, body: Vec<Expr>)
        ensures
            final(self)@ == (EnvView {
                dict: old(self)@.dict.insert(name@, OpView::Defined(exprs_view(body@))),
                ..old(self)@
            }),
    {
        self.dict.bind(name, Op::Defined(body));
    }

    /// Runs the word `name` on the machine's stack and dictionary. A native
    /// word runs at once; of a defined word the body is handed out, and
    /// nothing is put in front of what is waiting.
    pub fn find_op(&mut self, name: &str) -> (r: OpResult<Effect>)
        ensures
            (final(self)@.stack, final(self)@.dict, viewed(r)) == call_spec(
                name@,
                old(self)@.stack,
                old(self)@.dict,
            ),
            final(self)@.pending == old(self)@.pending,
    {
        eval_opcall(name, &mut self.stack, &mut self.dict)
    }

    /// Puts `item` on top of the stack.
    pub fn push(&mut self, item: Val)
        ensures
            final(self)@ == (EnvView { stack: old(self)@.stack.push(item@), ..old(self)@ }),
    {
        self.stack.push(item);
    }

    /// Takes the top value off the stack.
    pub fn pop(&mut self) -> (r: OpResult<Val>)
        ensures
            (final(self)@.stack, viewed(r)) == pop_spec(old(self)@.stack),
            final(self)@ == (EnvView { stack: final(self)@.stack, ..old(self)@ }),
    {
        self.stack.pop()
    }

    /// Takes the top value off the stack and hands out the number that it is.
    pub fn pop_num(&mut self) -> (r: OpResult<u64>)
        ensures
            (final(self)@.stack, outcome(r)) == pop_num_spec(old(self)@.stack),
            final(self)@ == (EnvView { stack: final(self)@.stack, ..old(self)@ }),
    {
        self.stack.pop_num()
    }

    /// Takes the top value off the stack and hands out the text that it is.
    pub fn pop_text(&mut self) -> (r: OpResult<String>)
        ensures
            (final(self)@.stack, viewed(r)) == pop_text_spec(old(self)@.stack),
            final(self)@ == (EnvView { stack: final(self)@.stack, ..old(self)@ }),
    {
        self.stack.pop_text()
    }

    /// Takes the top value off the stack and hands out the expressions of the
    /// block that it is.
    pub fn pop_anonop(&mut self) -> (r: OpResult<Vec<Expr>>)
        ensures
            (final(self)@.stack, block_outcome(r)) == pop_block_spec(old(self)@.stack),
            final(self)@ == (EnvView { stack: final(self)@.stack, ..old(self)@ }),
    {
        self.stack.pop_block()
    }

    /// Is nothing waiting?
    pub fn is_idle(&self) -> (idle: bool)
        ensures
            idle == (self@.pending.len() == 0),
    {
        self.agenda.len() == 0
    }

    /// Puts `program` in front of what is waiting.
    pub fn load(&mut self, program: Ast)
        ensures
            final(self)@ == (EnvView {
                pending: exprs_view(program@) + old(self)@.pending,
                ..old(self)@
            }),
    {
        let mut block = program;
        let ghost n = program@.len() as int;
        let ghost m = self.agenda@.len() as int;
        while block.len() > 0
            invariant
                self.stack@ == old(self).stack@,
                self.dict@ == old(self).dict@,
                n == program@.len(),
                m == old(self).agenda@.len(),
                block@.len() <= n,
                block@ == program@.subrange(0, block@.len() as int),
                self.agenda@.len() == m + n - block@.len(),
                forall|j: int| 0 <= j < m ==> self.agenda@[j] == old(self).agenda@[j],
                forall|j: int|
                    m <= j < self.agenda@.len() ==> #[trigger] self.agenda@[j] == program@[n - 1
                        - (j - m)],
            decreases block.len(),
        {
            let e = block.pop().unwrap();
            self.agenda.push(e);
        }
        proof {
            lemma_exprs_view(program@);
            assert(self@.pending =~= exprs_view(program@) + old(self)@.pending);
        }
    }

    /// Evaluates the next waiting expression, if there is one.
    pub fn step(&mut self) -> (r: OpResult<Effect>)
        ensures
            (final(self)@, viewed(r)) == step_spec(old(self)@),
            r matches Ok(effect) ==> !(effect is Run),
    {
        let e = match self.agenda.pop() {
            None => {
                assert(self@.pending =~= old(self)@.pending);
                return Ok(Effect::Nothing);
            },
            Some(e) => e,
        };
        assert(e@ == old(self)@.pending.first());
        assert(waiting(self.agenda@) =~= old(self)@.pending.drop_first());
        match eval_expr(&e, &mut self.stack, &mut self.dict) {
            Err(err) => {
                self.agenda.clear();
                assert(waiting(self.agenda@) =~= Seq::<ExprView>::empty());
                Err(err)
            },
            Ok(Effect::Run(block)) => {
                self.load(block);
                Ok(Effect::Nothing)
            },
            Ok(effect) => Ok(effect),
        }
    }

    /// Goes on step by step: until nothing is waiting, until a step asks the
    /// host for something or fails, or until `limit` steps have been made.
    /// A result of `Nothing` with something still waiting says that the limit
    /// was reached.
    pub fn run(&mut self, limit: usize) -> (r: OpResult<Effect>)
        ensures
            (final(self)@, viewed(r)) == run_spec(old(self)@, limit as nat),
            r matches Ok(effect) ==> !(effect is Run),
    {
        let mut left: usize = limit;
        while left > 0 && !self.is_idle()
            invariant
                run_spec(self@, left as nat) == run_spec(old(self)@, limit as nat),
            decreases left,
        {
            match self.step() {
                Ok(Effect::Nothing) => {},
                stopped => {
                    return stopped;
                },
            }
            left -= 1;
        }
        Ok(Effect::Nothing)
    }
}

} // verus!
