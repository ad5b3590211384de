//! The dictionary: what each word name is bound to at this moment.

use crate::ast::{Expr, ExprView, clone_exprs, exprs_view};
use crate::builtins::{Builtin, insert, install};
use crate::err::{OpErr, OpErrView, OpResult, viewed};
use vstd::hash_map::StringHashMap;
use vstd::prelude::*;

verus! {

/// What a word does when it is run.
#[derive(Debug, PartialEq)]
pub enum Op {
    /// One of the words that the language itself provides.
    Native(Builtin),
    /// A word that a program defined: the expressions of its body.
    Defined(Vec<Expr>),
}

/// The mathematical model of an [`Op`].
pub enum OpView {
    Native(Builtin),
    Defined(Seq<ExprView>),
}

impl View for Op {
    type V = OpView;

    open spec fn view(&self) -> OpView {
        match self {
            Op::Native(b) => OpView::Native(*b),
            Op::Defined(body) => OpView::Defined(exprs_view(body@)),
        }
    }
}

impl Clone for Op {
    /// A copy that shares nothing with what it was made from.
    fn clone(&self) -> (copy: Self)
        ensures
            copy@ == self@,
    {
        match self {
            Op::Native(b) => Op::Native(*b),
            Op::Defined(body) => Op::Defined(clone_exprs(body)),
        }
    }
}

/// What looking a name up gives: what the name is bound to, or that it is
/// not bound.
pub open spec fn resolve_spec(d: Map<Seq<char>, OpView>, name: Seq<char>) -> Result<
    OpView,
    OpErrView,
> {
    if d.contains_key(name) {
        Ok(d[name])
    } else {
        Err(OpErrView::UnknownOp(name))
    }
}

/// What binding a name does to the number of names that are bound: a name
/// that was bound already adds none, a new name adds one.
pub open spec fn added(d: Map<Seq<char>, OpView>, name: Seq<char>) -> nat {
    if d.contains_key(name) {
        0
    } else {
        1
    }
}

/// The dictionary. A name is bound to one thing at a time: binding it again
/// replaces what it was bound to, whether that was a native word or a defined
/// one. The names that are bound are finitely many.
pub struct Dict(StringHashMap<Op>);

impl View for Dict {
    type V = Map<Seq<char>, OpView>;

    closed spec fn view(&self) -> Map<Seq<char>, OpView> {
        self.0@.map_values(|o: Op| o@)
    }
}

impl Dict {
    /// Only finitely many names are bound.
    #[verifier::type_invariant]
    spec fn finitely_many(self) -> bool {
        self.0@.dom().finite()
    }

    /// A dictionary in which no name is bound.
    pub fn new() -> (d: Self)
        ensures
            d@ == Map::<Seq<char>, OpView>::empty(),
            d@.dom().finite(),
    {
        let d = Dict(StringHashMap::new());
        assert(d@ =~= Map::<Seq<char>, OpView>::empty());
        d
    }

    /// How many names are bound.
    pub fn len(&self) -> (n: usize)
        ensures
            n == self@.len(),
            self@.dom().finite(),
    {
        broadcast use vstd::hash_map::group_hash_map_axioms;

        proof {
            use_type_invariant(self);
        }
        assert(self@.dom() =~= self.0@.dom());
        self.0.len()
    }

    /// What `name` is bound to, if it is bound.
    pub fn get(&self, name: &str) -> (r: Option<&Op>)
        ensures
            match r {
                Some(op) => self@.contains_key(name@) && self@[name@] == op@,
                None => !self@.contains_key(name@),
            },
    {
        self.0.get(name)
    }

    /// What `name` is bound to at this moment, as a copy of its own: binding
    /// the name anew does not change what was handed out.
    pub fn resolve(&self, name: &str) -> (r: OpResult<Op>)
        ensures
            viewed(r) == resolve_spec(self@, name@),
    {
        match self.get(name) {
            Some(op) => Ok(op.clone()),
            None => Err(OpErr::UnknownOp(name.to_owned())),
        }
    }

    /// Binds `name` to `fun`, in place of whatever `name` was bound to. The
    /// name is bound once afterwards: the number of names that are bound
    /// grows by one where the name is new, and stays where it is not.
    pub fn bind(&mut self, name: String, fun: Op)
        ensures
            final(self)@ == old(self)@.insert(name@, fun@),
            old(self)@.dom().finite(),
            final(self)@.dom().finite(),
            final(self)@.len() == old(self)@.len() + added(old(self)@, name@),
    {
        proof {
            use_type_invariant(&*self);
        }
        assert(old(self)@.dom() =~= old(self).0@.dom());
        // The map is taken out while it changes, so that the dictionary is
        // whole at every moment.
        let mut held = Dict(StringHashMap::new());
        std::mem::swap(self, &mut held);
        let Dict(mut map) = held;
        map.insert(name, fun);
        *self = Dict(map);
        assert(self@ =~= old(self)@.insert(name@, fun@));
        assert(self@.dom() =~= old(self)@.dom().insert(name@));
    }
}

impl Default for Dict {
    /// The dictionary that a run starts with: every native word is bound
    /// under its name, and no other name is bound.
    fn default() -> (d: Self)
        ensures
            d@ == install(Map::<Seq<char>, OpView>::empty(), Builtin::all()),
            d@.dom().finite(),
    {
        let mut d = Dict::new();
        insert(&mut d);
        proof {
            use_type_invariant(&d);
        }
        assert(d@.dom() =~= d.0@.dom());
        d
    }
}

} // verus!
