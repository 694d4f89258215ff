//! The runtime engine of hot reloading: a long-running process picks up
//! newly built implementations of its hot-reloadable functions without a
//! restart.
//!
//! Before each call of such a function the reload protocol runs
//! ([`protocol`]). It brings the function's slot ([`slot`]) up to date with
//! the loaded module ([`module`]), and loads the build artifact anew where it
//! changed on disk. A module's symbols are found through the symbol table of
//! its artifact ([`debuginfo`]), by the names that the generated call sites
//! use ([`callsite`], [`text`]). A slot is swapped only after the module's
//! signature marker gave the hash that the call site was compiled with. The
//! version ledger ([`ledger`]) tells which slots lag behind the loaded
//! module; the engine ([`engine`]) holds the state that all call sites share.
//!
//! The library decides and the caller acts: it opens no file and loads no
//! code itself. What holds of it whatever the caller finds is proved in
//! [`laws`].

pub mod text;
pub mod error;
pub mod debuginfo;
pub mod ledger;
pub mod slot;
pub mod module;
pub mod engine;
pub mod protocol;
pub mod laws;
pub mod callsite;
pub mod supervisor;
