//! Privilege-safe assembly of transfer-hook calls for a token program with
//! transfer-hook extensions, and the bookkeeping that the hook performs.

pub mod errors;
pub mod meta;
pub mod privilege;
pub mod descriptor;
pub mod resolver;
pub mod assembler;
pub mod transfer;
pub mod states;
pub mod meta_list;
