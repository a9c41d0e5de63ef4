//! The decisions of the SQLite store: what retention deletes, which
//! schema errors are harmless, and what a finished statement must give.
pub mod retention;
