//! Dice notation: a lexer and a recursive-descent parser for expressions
//! such as `3x4d6*5+1s2`, an evaluator that rolls the parsed dice, and the
//! small pieces of state and naming that the server and the roll list keep.

pub mod dice;
pub mod die;
pub mod lexer;
pub mod mime;
pub mod parse;
pub mod roster;
pub mod template;
pub mod token;
