//! A small register-machine bytecode interpreter in the style of classic
//! packet-filter virtual machines: a program of fixed-size instructions is
//! fetched, decoded and executed against an immutable packet buffer, with
//! load, jump and return semantics, producing a numeric verdict or an error.

pub mod instr;
pub mod machine;
pub mod sem;
