use vstd::prelude::*;

pub mod text;
pub mod stories;
pub mod showcases;
pub mod pagination;
pub mod catalog;
pub mod preview_catalog;
pub mod markdown;
pub mod naming;
pub mod macro_arguments;
pub mod project;
pub mod commands;
pub mod init;
pub mod manifest;

verus! {
} // verus!
