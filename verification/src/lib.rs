//! A verified evaluator for single-line arithmetic expressions: a tokenizer
//! that inserts implicit multiplications and collects every lexical error, a
//! recursive-descent parser that builds an expression tree, and an executor
//! that reduces the tree to a scalar, classifying overflow, underflow and
//! division by zero.
//!
//! Numbers travel through the library as the bit patterns of 64-bit IEEE-754
//! values; their classification and ordering are defined over the bits, and
//! the rounding arithmetic itself is delegated to a software implementation
//! of the same format behind trusted wrappers.
pub mod decimal;
pub mod double;
pub mod render;
pub mod error;
pub mod functions;
pub mod tokenizer;
pub mod parser;
pub mod executor;
pub mod serializer;
