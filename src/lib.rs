//! Route patterns for client-side routing.
//!
//! A pattern such as `/user/{id}/posts?page={page}` is parsed into tokens (`parser`),
//! optimised for matching (`optimizer`), and matched against concrete paths
//! (`matcher`, `path_matcher`), which yields the captured sections (`captures`). Typed
//! values are built from captured text through the `Switch` trait (`route`).

pub mod decimal;
pub mod text;
pub mod token;
pub mod captures;
pub mod matcher;
pub mod parser;
pub mod optimizer;
pub mod path_matcher;
pub mod route;
