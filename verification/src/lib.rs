//! Surgical editing of Nix-style attribute-set configuration documents.
//!
//! The crate locates attribute paths inside a parsed expression tree, replaces
//! the value found there, or inserts a brand-new binding, while leaving every
//! other character of the original text untouched. Positions reported by the
//! parser are (line, column) pairs; a linear position index turns them into
//! character offsets in the buffer being edited.

pub mod ast;
pub mod convert;
pub mod err;
pub mod matcher;
pub mod outside;
pub mod refs;
pub mod search;
pub mod surgeon;
pub mod text;
pub mod upsert;
