pub mod text;
pub mod listing;
pub mod paths;
pub mod dirtree;
pub mod order;
pub mod git;
pub mod session;
pub mod clean;
pub mod branch;
pub mod clone;
pub mod tree;
pub mod autocomplete;
pub mod commands;
