//! A verified core of the Asteroid abstract virtual machine: the node
//! representation, pattern matching (unification) and term evaluation.

pub mod ast;
pub mod memory;
pub mod state;
pub mod host;
pub mod exception;
pub mod support;
pub mod regex_match;
pub mod builtins;
pub mod equality;
pub mod unify;
pub mod walk;
pub mod index;
pub mod report;
pub mod soundness;
