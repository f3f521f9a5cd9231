//! Reorders the leading `use` declarations of a source file into canonical
//! groups: standard-library imports first, then external-library imports,
//! then local (`crate::` / `self::`) imports, each non-empty group followed
//! by one blank separator line. Everything outside the import regions passes
//! through unchanged.

pub mod classify;
pub mod laws;
pub mod normalize;
pub mod text;
