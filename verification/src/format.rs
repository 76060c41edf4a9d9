//! Node renderers: one formatting rule per syntax-tree node kind, composed
//! through the delimiter and alternative-selection machinery.

pub mod base;
pub mod keywords;
pub mod query;
pub mod select;
