//! The pool's instructions, each on the account values that it reads.
pub mod deposit;
pub mod withdraw;
pub mod swap;
pub mod initialize;
