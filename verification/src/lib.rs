//! A layout engine for rendering parsed SQL query trees as consistently
//! styled text: configurable indentation, keyword casing, and a line-width
//! driven choice between compact and expanded list layouts.

pub mod format;
pub mod options;
pub mod text;

pub use format::base::Format;
pub use options::Options;
