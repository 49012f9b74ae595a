//! The core of an interactive calculator: one line in, one reply out.
//!
//! A line is split into tokens ([`lexer`]), parsed into an expression tree
//! ([`parser`], [`syntax`], [`tree_builder`]), and evaluated as far as the
//! names in it are bound ([`evaluation`]) over reals, complex numbers and
//! real matrices ([`num`], [`matrix`]). An equation in one variable is
//! reduced to a polynomial ([`equation`]) and solved up to degree two
//! ([`solution`]). Bindings live in a session store ([`data_base`]), past
//! lines in a bounded history ([`command`]), and [`compute`] ties them
//! together.
//!
//! Reals are IEEE 754 binary64 values held by their bits ([`scalar`]). What
//! the bits settle, such as sign, zero and finiteness, is decided here.
//! Rounding arithmetic, the reading of literals and the writing of values
//! are asked of a function that the caller hands in, and everything proved
//! of the calculator holds for whatever that function answers, as long as
//! it answers equal questions equally.

pub mod binary_tree;
pub mod command;
pub mod compute;
pub mod data_base;
pub mod equation;
pub mod evaluation;
pub mod functions;
pub mod implicit;
pub mod lexer;
pub mod matrix;
pub mod num;
pub mod operator;
pub mod parser;
pub mod printer;
pub mod scalar;
pub mod solution;
pub mod syntax;
pub mod terminal;
pub mod text;
pub mod tree_builder;
