//! What holds of the library, said over registers, memory, texts and transactions as they are,
//! and not over the definitions that the contracts of the functions use.
pub mod collectors;
pub mod locators;
pub mod memory;
pub mod samples;
pub mod system_calls;
pub mod texts;
pub mod transactions;
