//! Stirrup: a mount manager whose configuration store, command lines, mount-table
//! parsing and terminal-interface state machine are verified with Verus.
pub mod text;
pub mod order;
pub mod mount;
pub mod interface;
