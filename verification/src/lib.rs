//! A small interpreter for a stack-based, concatenative scripting language.
//!
//! A program is a sequence of expressions. Each is either a literal value,
//! which is pushed on the stack, or the name of a word, which is looked up in
//! the dictionary and run. Words take their operands from the stack and leave
//! their results on it; `def` binds a name to a block, and `if` and `evl` run
//! blocks.
//!
//! The library does everything that can be done with whole numbers and
//! sequences: it reads the written form of a program ([`parser`]), keeps the
//! stack and the dictionary, and runs the words ([`env`]). Three things are
//! left to the host, which an [`effect::Effect`] asks for: arithmetic on
//! floating-point numbers, writing to the text sink, and going on to the next
//! step. The host also says what number a written number stands for.

pub mod ast;
pub mod builtins;
pub mod dict;
pub mod effect;
pub mod env;
pub mod err;
pub mod eval;
pub mod laws;
pub mod number;
pub mod parser;
pub mod render;
pub mod stack;

pub use ast::{Ast, Expr, Val};
pub use builtins::{ArithOp, Builtin, Builtins, LogOp};
pub use dict::{Dict, Op};
pub use effect::{Effect, Piece};
pub use env::Env;
pub use err::{OpErr, OpResult, Type};
pub use eval::eval_expr;
pub use number::CompOp;
pub use parser::{ParseErr, Syntax, full_parse};
pub use stack::Stack;
