//! Rendering of structured values as `application/x-www-form-urlencoded`
//! query strings with dotted field keys, and the analysis that decides which
//! declared shapes can be rendered at all.

pub mod database;
pub mod encoding;
pub mod formatter;
pub mod laws;
pub mod shape;
pub mod tokens;
pub mod value;
