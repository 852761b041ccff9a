//! Static-site generator core.
pub mod strings;
pub mod model;
pub mod render;
pub mod json;
pub mod validate;
pub mod og;
pub mod output;
