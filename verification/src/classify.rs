//! Recognition of import declarations and their category.
//!
//! A line is an import declaration exactly when it starts (at column 0) with
//! one of the recognized introducer prefixes: `use `, `pub use `, or
//! `pub(crate) use `. A recognized import is Standard when it mentions
//! ` std::`, otherwise Local when it mentions ` crate::` or ` self::`,
//! otherwise External.

use vstd::prelude::*;

use crate::text::begins_with;
use crate::text::chars_of;
use crate::text::contains_pattern;
use crate::text::has_prefix;
use crate::text::has_substring;

verus! {

/// The category of a recognized import declaration.
#[derive(Clone, Copy, Debug, PartialEq, Eq, Structural)]
pub enum ImportType {
    /// Rooted in the standard library (mentions ` std::`).
    Std,
    /// Rooted in a third-party namespace (the catch-all).
    External,
    /// Relative to the current crate's own module tree
    /// (mentions ` crate::` or ` self::`).
    Crate,
}

/// The line begins with one of the recognized import introducer prefixes.
pub open spec fn spec_is_import_start(line: Seq<char>) -> bool {
    has_prefix(line, "use "@) || has_prefix(line, "pub use "@) || has_prefix(
        line,
        "pub(crate) use "@,
    )
}

/// The category of `line`, or `None` when it is not an import declaration.
pub open spec fn spec_is_import(line: Seq<char>) -> Option<ImportType> {
    if spec_is_import_start(line) {
        if has_substring(line, " std::"@) {
            Some(ImportType::Std)
        } else if has_substring(line, " crate::"@) || has_substring(line, " self::"@) {
            Some(ImportType::Crate)
        } else {
            Some(ImportType::External)
        }
    } else {
        None
    }
}

/// Classifies one line, already split into characters.
pub fn classify_line(line: &Vec<char>) -> (r: Option<ImportType>)
    ensures
        r == spec_is_import(line@),
{
    let p_use = chars_of("use ");
    let p_pub_use = chars_of("pub use ");
    let p_pub_crate_use = chars_of("pub(crate) use ");
    if begins_with(line, &p_use) || begins_with(line, &p_pub_use) || begins_with(
        line,
        &p_pub_crate_use,
    ) {
        let p_std = chars_of(" std::");
        let p_crate = chars_of(" crate::");
        let p_self = chars_of(" self::");
        if contains_pattern(line, &p_std) {
            Some(ImportType::Std)
        } else if contains_pattern(line, &p_crate) || contains_pattern(line, &p_self) {
            Some(ImportType::Crate)
        } else {
            Some(ImportType::External)
        }
    } else {
        None
    }
}

/// Classifies one line of text: `None` when the line is not an import
/// declaration, otherwise its category.
pub fn is_import(line: &str) -> (r: Option<ImportType>)
    ensures
        r == spec_is_import(line@),
{
    let chars = chars_of(line);
    classify_line(&chars)
}

} // verus!
