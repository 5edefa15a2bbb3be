//! A verified source-to-source translator: it reads a declarative module in
//! a TypeScript-like surface syntax describing a smart-contract program and
//! emits formatted source text implementing the equivalent program.

pub mod emit;
pub mod fmt;
pub mod extract;
pub mod ipr;
pub mod laws;
pub mod model;
pub mod populate;
pub mod transpiler;
