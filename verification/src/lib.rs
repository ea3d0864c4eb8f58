//! Gate-by-gate evaluation of digital-logic netlists, in the clear or under
//! homomorphic encryption: the circuit model, the level scheduler, the
//! plaintext and homomorphic evaluators, and the sequential cycle runner.
pub mod circuit;
pub mod eval;
pub mod fhe;
pub mod gates;
pub mod scheduler;
pub mod values;
pub mod wiremap;
