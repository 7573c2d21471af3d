pub mod text;
pub mod filter_expr;
pub mod write;
pub mod id;
pub mod store;
pub mod eval;
pub mod index;
pub mod cli;
pub mod paths;
pub mod config;
pub mod watcher;
pub mod indexer;
