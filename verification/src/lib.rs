//! A keeper of configuration files: it compares the files of a machine with
//! the copies kept in a repository, and drives git and the user's editor.
//! This crate holds the decisions of the tool; the reading and writing of
//! files, processes and terminals stay with the program that uses it.

pub mod cli;
pub mod compare;
pub mod config;
pub mod entry_tree;
pub mod git;
pub mod keyed;
pub mod text;
