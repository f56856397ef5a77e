//! What holds of the library as a whole, beyond what its functions say one by one.

pub mod commands;
pub mod flags;
pub mod launching;
pub mod machine;
pub mod pages;
pub mod rollback;
pub mod steps;
pub mod texts;
pub mod turns;
pub mod wire;
pub mod words;
